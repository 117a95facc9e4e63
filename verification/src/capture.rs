//! Camera capture: permission, devices and their formats, the delay ring that
//! holds recent frames, and the taps that read it behind the live edge.

use std::collections::VecDeque;

use vstd::prelude::*;
use vstd::string::*;

use crate::seqs::{first_at_is, first_of};
use crate::text::{decimal, decimal_text, joined, same, views};
use crate::units::{floor_div, Micro, MicroSecs, Nanos};

verus! {

/// Camera permission.
#[derive(Clone, Copy, Debug, PartialEq, Eq, Structural)]
pub enum Authorization {
    /// The user was never asked.
    NotDetermined,
    /// Blocked by policy; no prompt is possible.
    Restricted,
    /// The user said no.
    Denied,
    Authorized,
}

/// The permission a status code of the system stands for; an unknown code
/// counts as denied.
pub open spec fn permission_of(status: i64) -> Authorization {
    match status {
        0i64 => Authorization::NotDetermined,
        1i64 => Authorization::Restricted,
        3i64 => Authorization::Authorized,
        _ => Authorization::Denied,
    }
}

/// The permission a status code of the system stands for.
pub fn authorization(status: i64) -> (r: Authorization)
    ensures
        r == permission_of(status),
{
    if status == 0 {
        Authorization::NotDetermined
    } else if status == 1 {
        Authorization::Restricted
    } else if status == 3 {
        Authorization::Authorized
    } else {
        Authorization::Denied
    }
}

/// What a request for camera access leads to.
#[derive(Clone, Copy, Debug, PartialEq, Eq, Structural)]
pub enum AccessRequest {
    /// The system prompt is shown.
    Prompt,
    /// The answer is already known.
    Answered(bool),
}

/// What a request for camera access leads to: the prompt where the user was
/// never asked, else the existing answer.
pub open spec fn answer_of(state: Authorization) -> AccessRequest {
    match state {
        Authorization::NotDetermined => AccessRequest::Prompt,
        Authorization::Authorized => AccessRequest::Answered(true),
        _ => AccessRequest::Answered(false),
    }
}

/// What a request for camera access leads to.
pub fn request_access(state: Authorization) -> (r: AccessRequest)
    ensures
        r == answer_of(state),
{
    match state {
        Authorization::NotDetermined => AccessRequest::Prompt,
        Authorization::Authorized => AccessRequest::Answered(true),
        Authorization::Restricted => AccessRequest::Answered(false),
        Authorization::Denied => AccessRequest::Answered(false),
    }
}

/// One capture format a device offers. Frame rates are in millionths.
#[derive(Clone, Copy, Debug, PartialEq, Eq)]
pub struct DeviceFormat {
    pub width: u32,
    pub height: u32,
    /// Four-character code of the pixel format or codec.
    pub fourcc: (u8, u8, u8, u8),
    pub min_fps: Micro,
    pub max_fps: Micro,
}

/// A byte of a four-character code as printable text.
pub open spec fn printable(b: u8) -> char {
    if 32 <= b <= 126 {
        b as char
    } else {
        '?'
    }
}

fn printed(b: u8) -> (r: char)
    ensures
        r == printable(b),
{
    if b >= 32 && b <= 126 {
        b as char
    } else {
        '?'
    }
}

/// The name of the decoder's pixel format for a four-character code, where
/// there is one.
pub open spec fn pixel_format_of(f: (u8, u8, u8, u8)) -> Option<Seq<char>> {
    if f == (52u8, 50u8, 48u8, 118u8) || f == (52u8, 50u8, 48u8, 102u8) {
        Some("nv12"@)
    } else if f == (50u8, 118u8, 117u8, 121u8) {
        Some("uyvy422"@)
    } else if f == (121u8, 117u8, 118u8, 115u8) {
        Some("yuyv422"@)
    } else if f == (66u8, 71u8, 82u8, 65u8) {
        Some("bgra"@)
    } else {
        None
    }
}

fn code_is(f: (u8, u8, u8, u8), a: u8, b: u8, c: u8, d: u8) -> (r: bool)
    ensures
        r == (f == (a, b, c, d)),
{
    f.0 == a && f.1 == b && f.2 == c && f.3 == d
}

impl DeviceFormat {
    /// The four-character code as printable text.
    pub fn fourcc_str(&self) -> (r: String)
        ensures
            r@ == seq![
                printable(self.fourcc.0),
                printable(self.fourcc.1),
                printable(self.fourcc.2),
                printable(self.fourcc.3),
            ],
    {
        let mut s = String::new();
        s.push(printed(self.fourcc.0));
        s.push(printed(self.fourcc.1));
        s.push(printed(self.fourcc.2));
        s.push(printed(self.fourcc.3));
        s
    }

    /// The decoder's name for this pixel format: `nv12` for `420v` and `420f`,
    /// `uyvy422` for `2vuy`, `yuyv422` for `yuvs`, `bgra` for `BGRA`. Formats
    /// that the device compresses have none.
    pub fn ffmpeg_pixel_format(&self) -> (r: Option<&'static str>)
        ensures
            match r {
                Some(s) => pixel_format_of(self.fourcc) == Some(s@),
                None => pixel_format_of(self.fourcc) is None,
            },
    {
        let f = self.fourcc;
        if code_is(f, 52, 50, 48, 118) || code_is(f, 52, 50, 48, 102) {
            Some("nv12")
        } else if code_is(f, 50, 118, 117, 121) {
            Some("uyvy422")
        } else if code_is(f, 121, 117, 118, 115) {
            Some("yuyv422")
        } else if code_is(f, 66, 71, 82, 65) {
            Some("bgra")
        } else {
            None
        }
    }

    /// How many pixels a frame has.
    pub open spec fn area(self) -> int {
        self.width * self.height
    }

    /// The highest frame rate; one below zero counts as zero.
    pub open spec fn rate(self) -> int {
        if self.max_fps < 0 {
            0
        } else {
            self.max_fps as int
        }
    }

    /// Whether this format is at most as large, and at equal size at most as
    /// fast, as another.
    pub open spec fn at_most(self, other: DeviceFormat) -> bool {
        self.area() < other.area() || self.area() == other.area() && self.rate() <= other.rate()
    }
}

fn no_larger(a: &DeviceFormat, b: &DeviceFormat) -> (r: bool)
    ensures
        r == a.at_most(*b),
{
    proof {
        area_fits(a.width, a.height);
        area_fits(b.width, b.height);
    }
    let x: u64 = a.width as u64 * a.height as u64;
    let y: u64 = b.width as u64 * b.height as u64;
    let p: i64 = if a.max_fps < 0 {
        0
    } else {
        a.max_fps
    };
    let q: i64 = if b.max_fps < 0 {
        0
    } else {
        b.max_fps
    };
    x < y || x == y && p <= q
}

proof fn area_fits(w: u32, h: u32)
    ensures
        0 <= w * h <= u64::MAX,
{
    assert(0 <= w * h <= 0xffff_ffff * 0xffff_ffff) by (nonlinear_arith)
        requires
            0 <= w <= 0xffff_ffff,
            0 <= h <= 0xffff_ffff,
    ;
}

/// Whether `best` is the format to request: of the formats that fit the height
/// the largest, then the fastest, and the last of those that are equal in both;
/// when none fits, the smallest, then the slowest, and the first of the equals.
pub open spec fn best_format(formats: Seq<DeviceFormat>, max_h: u32, best: int) -> bool {
    let some_fits = exists|i: int| 0 <= i < formats.len() && (#[trigger] formats[i]).height <= max_h;
    &&& 0 <= best < formats.len()
    &&& if some_fits {
        &&& formats[best].height <= max_h
        &&& forall|i: int|
            0 <= i < formats.len() && (#[trigger] formats[i]).height <= max_h ==> formats[i].at_most(
                formats[best],
            )
        &&& forall|i: int|
            best < i < formats.len() && (#[trigger] formats[i]).height <= max_h
                ==> !formats[best].at_most(formats[i])
    } else {
        &&& forall|i: int| 0 <= i < formats.len() ==> formats[best].at_most(#[trigger] formats[i])
        &&& forall|i: int| 0 <= i < best ==> !(#[trigger] formats[i]).at_most(formats[best])
    }
}

/// Picks the format to request from a device: the largest whose height fits
/// (the fastest of equally large ones), or the smallest offered when none fits.
pub fn pick_format(formats: &Vec<DeviceFormat>, max_h: u32) -> (r: Option<usize>)
    ensures
        match r {
            Some(i) => best_format(formats@, max_h, i as int),
            None => formats@.len() == 0,
        },
{
    if formats.len() == 0 {
        return None;
    }
    let mut best: usize = 0;
    let mut any = false;
    let mut least: usize = 0;
    let mut i: usize = 0;
    while i < formats.len()
        invariant
            i <= formats@.len(),
            formats@.len() > 0,
            best < formats@.len(),
            least < formats@.len(),
            least == 0 || least < i,
            any == exists|j: int| 0 <= j < i && (#[trigger] formats@[j]).height <= max_h,
            any ==> {
                &&& best < i
                &&& formats@[best as int].height <= max_h
                &&& forall|j: int|
                    0 <= j < i && (#[trigger] formats@[j]).height <= max_h ==> formats@[j].at_most(
                        formats@[best as int],
                    )
                &&& forall|j: int|
                    best < j < i && (#[trigger] formats@[j]).height <= max_h
                        ==> !formats@[best as int].at_most(formats@[j])
            },
            forall|j: int| 0 <= j < i ==> formats@[least as int].at_most(#[trigger] formats@[j]),
            forall|j: int| 0 <= j < least ==> !(#[trigger] formats@[j]).at_most(formats@[least as int]),
        decreases formats@.len() - i,
    {
        if formats[i].height <= max_h {
            if !any || no_larger(&formats[best], &formats[i]) {
                best = i;
            }
            any = true;
        }
        if !no_larger(&formats[least], &formats[i]) {
            least = i;
        }
        i += 1;
    }
    if any {
        Some(best)
    } else {
        Some(least)
    }
}

/// A capture device as one enumeration sees it.
#[derive(Debug)]
pub struct DeviceInfo {
    /// Position in the device list, valid for one enumeration.
    pub index: usize,
    /// The identity that survives replugging; a project stores it.
    pub uid: String,
    pub name: String,
    pub model_id: String,
    pub device_type: String,
    /// Whether the device delivers audio and video together.
    pub muxed: bool,
    pub formats: Vec<DeviceFormat>,
}

/// Numbers the devices of both discovery passes: video devices, then muxed
/// ones, in the order they were found.
pub fn enumerate(video: Vec<DeviceInfo>, muxed: Vec<DeviceInfo>) -> (r: Vec<DeviceInfo>)
    ensures
        r@.len() == video@.len() + muxed@.len(),
        forall|i: int|
            0 <= i < r@.len() ==> {
                let from = if i < video@.len() {
                    video@[i]
                } else {
                    muxed@[i - video@.len()]
                };
                (#[trigger] r@[i]) == (DeviceInfo {
                    index: i as usize,
                    muxed: i >= video@.len(),
                    ..from
                })
            },
{
    let split: usize = video.len();
    let mut r = video;
    let mut rest = muxed;
    r.append(&mut rest);
    let ghost all = r@;
    let mut i: usize = 0;
    while i < r.len()
        invariant
            i <= r@.len(),
            split == video@.len(),
            r@.len() == all.len(),
            all == video@ + muxed@,
            forall|j: int|
                0 <= j < i ==> (#[trigger] r@[j]) == (DeviceInfo {
                    index: j as usize,
                    muxed: j >= split,
                    ..all[j]
                }),
            forall|j: int| i <= j < r@.len() ==> #[trigger] r@[j] == all[j],
        decreases r@.len() - i,
    {
        r[i].index = i;
        r[i].muxed = i >= split;
        i += 1;
    }
    r
}

/// The lowest and the highest of a format's frame rates; zero without any.
pub open spec fn rate_range(ranges: Seq<(Micro, Micro)>) -> (Micro, Micro)
    decreases ranges.len(),
{
    if ranges.len() == 0 {
        (0, 0)
    } else {
        let (lo, hi) = rate_range(ranges.drop_last());
        let (a, b) = ranges.last();
        (
            if ranges.len() == 1 || a < lo {
                a
            } else {
                lo
            },
            if b > hi {
                b
            } else {
                hi
            },
        )
    }
}

/// The lowest and the highest of a format's frame rates.
pub fn frame_rates(ranges: &Vec<(Micro, Micro)>) -> (r: (Micro, Micro))
    ensures
        r == rate_range(ranges@),
{
    let mut lo: i64 = 0;
    let mut hi: i64 = 0;
    let mut i: usize = 0;
    proof {
        assert(ranges@.take(0) =~= Seq::<(Micro, Micro)>::empty());
    }
    while i < ranges.len()
        invariant
            i <= ranges@.len(),
            (lo, hi) == rate_range(ranges@.take(i as int)),
        decreases ranges@.len() - i,
    {
        proof {
            assert(ranges@.take(i + 1).drop_last() =~= ranges@.take(i as int));
        }
        let a: i64 = ranges[i].0;
        let b: i64 = ranges[i].1;
        if i == 0 || a < lo {
            lo = a;
        }
        if b > hi {
            hi = b;
        }
        i += 1;
    }
    proof {
        assert(ranges@.take(ranges@.len() as int) =~= ranges@);
    }
    (lo, hi)
}

/// Why capture cannot start.
#[derive(Clone, Copy, Debug, PartialEq, Eq, Structural)]
pub enum CaptureError {
    NotConnected,
    NoFormats,
}

impl CaptureError {
    /// What the user is told.
    pub fn message(&self) -> (r: String)
        ensures
            r@ == match *self {
                CaptureError::NotConnected => "device not connected"@,
                CaptureError::NoFormats => "device reports no formats"@,
            },
    {
        match *self {
            CaptureError::NotConnected => "device not connected".to_owned(),
            CaptureError::NoFormats => "device reports no formats".to_owned(),
        }
    }
}

/// How to open a device: its position in the device list, and the format to
/// request.
#[derive(Clone, Copy, Debug, PartialEq, Eq)]
pub struct OpenPlan {
    pub index: usize,
    pub format: DeviceFormat,
}

/// Selects the device with an identity.
pub open spec fn device_called(uid: Seq<char>) -> spec_fn(DeviceInfo) -> bool {
    |d: DeviceInfo| d.uid@ == uid
}

/// Whether a device is opened like this: the first one with the identity, in the
/// best of its formats; it must be connected and report formats.
pub open spec fn opens(devices: Seq<DeviceInfo>, uid: Seq<char>, r: Result<OpenPlan, CaptureError>) -> bool {
    match first_of(devices, device_called(uid)) {
        None => r == Err::<OpenPlan, CaptureError>(CaptureError::NotConnected),
        Some(d) => if d.formats@.len() == 0 {
            r == Err::<OpenPlan, CaptureError>(CaptureError::NoFormats)
        } else {
            r matches Ok(p) && p.index == d.index && exists|i: int| #[trigger]
                best_format(d.formats@, CAPTURE_MAX_H, i) && p.format == d.formats@[i]
        },
    }
}

/// How to open a device, given a fresh enumeration.
pub fn open_plan(devices: &Vec<DeviceInfo>, uid: &str) -> (r: Result<OpenPlan, CaptureError>)
    ensures
        opens(devices@, uid@, r),
{
    let mut i: usize = 0;
    while i < devices.len() && !same(devices[i].uid.as_str(), uid)
        invariant
            i <= devices@.len(),
            forall|j: int| 0 <= j < i ==> (#[trigger] devices@[j]).uid@ != uid@,
        decreases devices@.len() - i,
    {
        i += 1;
    }
    proof {
        first_at_is(devices@, device_called(uid@), i as int);
    }
    if i == devices.len() {
        return Err(CaptureError::NotConnected);
    }
    let dev = &devices[i];
    match pick_format(&dev.formats, CAPTURE_MAX_H) {
        Some(k) => {
            proof {
                assert(best_format(dev.formats@, CAPTURE_MAX_H, k as int));
            }
            Ok(OpenPlan { index: dev.index, format: dev.formats[k] })
        },
        None => Err(CaptureError::NoFormats),
    }
}

/// What a capture service is doing.
#[derive(Debug)]
pub enum ServiceStatus {
    Starting,
    Running { width: u32, height: u32, fps: Micro },
    /// Opening or capturing failed, and is tried again.
    Failed(String),
}

/// What a capture worker does after a session.
#[derive(Clone, Copy, Debug, PartialEq, Eq, Structural)]
pub enum WorkerStep {
    /// The worker ends.
    Stop,
    /// Open the device again at once.
    Reopen,
    /// Open the device again after [`REOPEN_DELAY`].
    Retry,
}

/// What a worker does after a session: a failure is tried again after a pause,
/// unless the worker was asked to stop.
pub open spec fn step_after(stop: bool, failed: bool) -> WorkerStep {
    if stop {
        WorkerStep::Stop
    } else if failed {
        WorkerStep::Retry
    } else {
        WorkerStep::Reopen
    }
}

/// What a worker does after a session; a failure is shown.
pub fn after_session(stop: bool, failure: Option<String>) -> (r: (WorkerStep, Option<ServiceStatus>))
    ensures
        r.0 == step_after(stop, failure is Some),
        r.1 == match failure {
            Some(message) => Some(ServiceStatus::Failed(message)),
            None => None,
        },
{
    let step = if stop {
        WorkerStep::Stop
    } else if failure.is_some() {
        WorkerStep::Retry
    } else {
        WorkerStep::Reopen
    };
    let status = match failure {
        Some(message) => Some(ServiceStatus::Failed(message)),
        None => None,
    };
    (step, status)
}

/// A frame size as text: width, `x`, height.
pub fn size_text(width: u32, height: u32) -> (r: String)
    ensures
        r@ == decimal(width as nat) + "x"@ + decimal(height as nat),
{
    let w = decimal_text(width as u64);
    let h = decimal_text(height as u64);
    let head = joined(w.as_str(), "x");
    joined(head.as_str(), h.as_str())
}

/// How much history a ring retains: a little above the longest delay.
pub const RING_WINDOW: Nanos = 3_200_000_000;

/// Memory bound of a ring in bytes. When it bites, the history shrinks.
pub const RING_BYTE_CAP: usize = 402_653_184;

/// Tallest frames that are requested from a device.
pub const CAPTURE_MAX_H: u32 = 1080;

/// Pause before a device that failed to open is tried again.
pub const REOPEN_DELAY: Nanos = 500_000_000;

/// Size and pixel format of a captured frame.
#[derive(Clone, Copy, Debug, PartialEq, Eq, Structural)]
pub struct Shape {
    pub width: u32,
    pub height: u32,
    pub format: i32,
}

/// One captured frame in the delay ring.
pub struct RingFrame<T> {
    /// When it arrived.
    pub wall: Nanos,
    /// Time since the service started.
    pub pts_sec: MicroSecs,
    pub shape: Shape,
    pub frame: T,
    pub bytes: usize,
}

/// The delay ring, newest at the back. Frames leave it by age or by the byte
/// cap, and all at once when the device changes size or format.
pub struct RingState<T> {
    pub frames: VecDeque<RingFrame<T>>,
    pub bytes: usize,
    pub window: Nanos,
    pub byte_cap: usize,
}

/// The bytes that frames hold.
pub open spec fn bytes_of<T>(frames: Seq<RingFrame<T>>) -> int
    decreases frames.len(),
{
    if frames.len() == 0 {
        0
    } else {
        frames[0].bytes + bytes_of(frames.drop_first())
    }
}

/// How long after `earlier` it is at `now`; zero when it is not later.
pub open spec fn age(now: Nanos, earlier: Nanos) -> int {
    if now >= earlier {
        now - earlier
    } else {
        0
    }
}

/// The frames left once the oldest were evicted: while there are others, a
/// frame leaves when the ring is over its cap or the frame over its age.
pub open spec fn evicted<T>(
    frames: Seq<RingFrame<T>>,
    now: Nanos,
    window: Nanos,
    cap: usize,
) -> Seq<RingFrame<T>>
    decreases frames.len(),
{
    if frames.len() > 1 && (bytes_of(frames) > cap || age(now, frames[0].wall) > window) {
        evicted(frames.drop_first(), now, window, cap)
    } else {
        frames
    }
}

/// The frames a new one joins: none when the last one had another shape.
pub open spec fn compatible<T>(frames: Seq<RingFrame<T>>, shape: Shape) -> Seq<RingFrame<T>> {
    if frames.len() > 0 && frames.last().shape != shape {
        seq![]
    } else {
        frames
    }
}

/// The position of the newest frame at or before `target`, or of the oldest
/// when the moment predates them all.
pub open spec fn newest_until<T>(frames: Seq<RingFrame<T>>, target: Nanos) -> int
    decreases frames.len(),
{
    if frames.len() == 0 {
        0
    } else if frames.last().wall <= target {
        frames.len() - 1
    } else {
        newest_until(frames.drop_last(), target)
    }
}

/// What [`newest_until`] finds: everything after it is later than `target`, and
/// it is not, unless everything is.
pub proof fn newest_until_is_newest<T>(frames: Seq<RingFrame<T>>, target: Nanos)
    requires
        frames.len() > 0,
    ensures
        ({
            let i = newest_until(frames, target);
            &&& 0 <= i < frames.len()
            &&& forall|j: int| i < j < frames.len() ==> (#[trigger] frames[j]).wall > target
            &&& frames[i].wall <= target || i == 0
        }),
    decreases frames.len(),
{
    if frames.last().wall > target {
        let front = frames.drop_last();
        if front.len() > 0 {
            newest_until_is_newest(front, target);
            let i = newest_until(frames, target);
            assert forall|j: int| i < j < frames.len() implies (#[trigger] frames[j]).wall > target by {
                if j < front.len() {
                    assert(front[j] == frames[j]);
                }
            }
            assert(front[i] == frames[i]);
        } else {
            assert(newest_until(front, target) == 0);
        }
    }
}

impl<T> RingState<T> {
    /// The byte count is that of the frames held.
    pub open spec fn wf(self) -> bool {
        self.bytes == bytes_of(self.frames@)
    }

    /// An empty ring.
    pub fn new(window: Nanos, byte_cap: usize) -> (r: Self)
        ensures
            r.frames@ == Seq::<RingFrame<T>>::empty(),
            r.window == window,
            r.byte_cap == byte_cap,
            r.wf(),
    {
        RingState { frames: VecDeque::new(), bytes: 0, window, byte_cap }
    }

    /// The frames once another one arrived: it joins those of its shape, and what
    /// is too old or too much is evicted.
    pub open spec fn with_frame(self, f: RingFrame<T>) -> Seq<RingFrame<T>> {
        evicted(compatible(self.frames@, f.shape).push(f), f.wall, self.window, self.byte_cap)
    }

    /// Adds the newest frame and evicts what is too old or too much.
    pub fn push(&mut self, f: RingFrame<T>)
        requires
            old(self).wf(),
            bytes_of(old(self).frames@) + f.bytes <= usize::MAX,
        ensures
            final(self).frames@ == old(self).with_frame(f),
            final(self).window == old(self).window,
            final(self).byte_cap == old(self).byte_cap,
            final(self).wf(),
    {
        let n: usize = self.frames.len();
        if n > 0 && self.frames[n - 1].shape != f.shape {
            self.frames = VecDeque::new();
            self.bytes = 0;
            proof {
                bytes_are_positive(old(self).frames@);
            }
        }
        let now: u64 = f.wall;
        let ghost joined = compatible(old(self).frames@, f.shape);
        proof {
            assert(self.frames@ =~= joined);
            bytes_of_push(joined, f);
        }
        self.bytes = self.bytes + f.bytes;
        self.frames.push_back(f);
        let ghost start = self.frames@;
        let window: u64 = self.window;
        let cap: usize = self.byte_cap;
        loop
            invariant
                self.wf(),
                self.frames@.len() > 0,
                window == self.window == old(self).window,
                cap == self.byte_cap == old(self).byte_cap,
                now == f.wall,
                evicted(self.frames@, now, window, cap) == evicted(start, now, window, cap),
            ensures
                self.wf(),
                self.window == old(self).window,
                self.byte_cap == old(self).byte_cap,
                self.frames@ == evicted(start, now, window, cap),
            decreases self.frames@.len(),
        {
            if self.frames.len() <= 1 {
                break;
            }
            let wall: u64 = self.frames[0].wall;
            let stale = now >= wall && now - wall > window;
            if self.bytes > cap || stale {
                let ghost before = self.frames@;
                let gone: usize = self.frames[0].bytes;
                proof {
                    bytes_are_positive(before.drop_first());
                }
                self.bytes = self.bytes - gone;
                self.frames.pop_front();
                proof {
                    assert(self.frames@ =~= before.drop_first());
                }
            } else {
                break;
            }
        }
    }

    /// The position of the newest frame at or before `target`, or of the oldest
    /// when the moment predates the ring.
    pub open spec fn at(self, target: Nanos) -> Option<usize> {
        if self.frames@.len() == 0 {
            None
        } else {
            Some(newest_until(self.frames@, target) as usize)
        }
    }

    /// The position of the newest frame at or before `target`, or of the oldest
    /// when the moment predates the ring.
    pub fn peek_at(&self, target: Nanos) -> (r: Option<usize>)
        ensures
            r == self.at(target),
            r matches Some(i) ==> i < self.frames@.len(),
    {
        let mut i: usize = self.frames.len();
        proof {
            assert(self.frames@.take(i as int) =~= self.frames@);
        }
        while i > 0
            invariant
                i <= self.frames@.len(),
                newest_until(self.frames@.take(i as int), target) == newest_until(self.frames@, target),
            decreases i,
        {
            proof {
                assert(self.frames@.take(i as int).drop_last() =~= self.frames@.take(i - 1));
            }
            i -= 1;
            if self.frames[i].wall <= target {
                return Some(i);
            }
        }
        if self.frames.len() > 0 {
            Some(0)
        } else {
            None
        }
    }
}

proof fn bytes_are_positive<T>(frames: Seq<RingFrame<T>>)
    ensures
        bytes_of(frames) >= 0,
    decreases frames.len(),
{
    if frames.len() > 0 {
        bytes_are_positive(frames.drop_first());
    }
}

proof fn bytes_of_push<T>(frames: Seq<RingFrame<T>>, f: RingFrame<T>)
    ensures
        bytes_of(frames.push(f)) == bytes_of(frames) + f.bytes,
    decreases frames.len(),
{
    let all = frames.push(f);
    if frames.len() > 0 {
        bytes_of_push(frames.drop_first(), f);
        assert(all.drop_first() =~= frames.drop_first().push(f));
    } else {
        assert(all.drop_first() =~= frames);
    }
}

/// The newest frame always stays, and a ring that holds more than one frame is
/// within its byte cap and its window.
pub proof fn eviction_keeps_the_newest<T>(frames: Seq<RingFrame<T>>, now: Nanos, window: Nanos, cap: usize)
    requires
        frames.len() > 0,
    ensures
        ({
            let left = evicted(frames, now, window, cap);
            &&& 0 < left.len() <= frames.len()
            &&& left == frames.skip(frames.len() - left.len())
            &&& left.last() == frames.last()
            &&& left.len() > 1 ==> bytes_of(left) <= cap && age(now, left[0].wall) <= window
        }),
    decreases frames.len(),
{
    if frames.len() > 1 && (bytes_of(frames) > cap || age(now, frames[0].wall) > window) {
        let rest = frames.drop_first();
        eviction_keeps_the_newest(rest, now, window, cap);
        let left = evicted(rest, now, window, cap);
        assert(left =~= frames.skip(frames.len() - left.len()));
    } else {
        assert(frames.skip(0) =~= frames);
    }
}

/// In a ring filled in order of arrival, every frame that stays beside others
/// is within the window.
pub proof fn evicted_frames_are_recent<T>(
    frames: Seq<RingFrame<T>>,
    now: Nanos,
    window: Nanos,
    cap: usize,
    i: int,
)
    requires
        frames.len() > 0,
        forall|a: int, b: int| 0 <= a <= b < frames.len() ==> frames[a].wall <= frames[b].wall,
        evicted(frames, now, window, cap).len() > 1,
        0 <= i < evicted(frames, now, window, cap).len(),
    ensures
        age(now, evicted(frames, now, window, cap)[i].wall) <= window,
{
    eviction_keeps_the_newest(frames, now, window, cap);
    let left = evicted(frames, now, window, cap);
    let at = frames.len() - left.len();
    assert(left[i] == frames[at + i]);
    assert(left[0] == frames[at + 0]);
}

/// A reader of a ring, some time behind the live edge.
#[derive(Debug)]
pub struct CameraTap {
    /// How far behind the live edge frames are read.
    pub delay_eff: MicroSecs,
    /// Arrival of the last frame handed out.
    pub last_wall: Option<Nanos>,
}

/// The moment a delay before `now`; the start of time at the earliest.
pub open spec fn moment(now: Nanos, delay: MicroSecs) -> Nanos {
    let back = if delay < 0 {
        0
    } else {
        delay * 1000
    };
    if now >= back {
        (now - back) as Nanos
    } else {
        0
    }
}

impl CameraTap {
    /// A fresh tap without delay.
    pub fn new() -> (r: CameraTap)
        ensures
            r == (CameraTap { delay_eff: 0, last_wall: None }),
    {
        CameraTap { delay_eff: 0, last_wall: None }
    }

    /// The position of the frame to show at `now`: the newest one at least the
    /// delay old, or the oldest while none is that old. None when that is the
    /// frame already shown, or the ring is empty.
    pub open spec fn due<T>(self, frames: Seq<RingFrame<T>>, now: Nanos) -> Option<usize> {
        let i = newest_until(frames, moment(now, self.delay_eff));
        if frames.len() == 0 || self.last_wall == Some(frames[i].wall) {
            None
        } else {
            Some(i as usize)
        }
    }

    /// The position of the frame to show at `now`.
    pub fn poll<T>(&self, ring: &RingState<T>, now: Nanos) -> (r: Option<usize>)
        ensures
            r == self.due(ring.frames@, now),
            r matches Some(i) ==> i < ring.frames@.len(),
    {
        let target: u64 = if self.delay_eff <= 0 {
            now
        } else {
            let back: i128 = self.delay_eff as i128 * 1000;
            if (now as i128) < back {
                0
            } else {
                (now as i128 - back) as u64
            }
        };
        match ring.peek_at(target) {
            Some(i) => {
                let len: usize = ring.frames.len();
                proof {
                    newest_until_is_newest(ring.frames@, target);
                    assert(newest_until(ring.frames@, target) < len);
                }
                let wall: u64 = ring.frames[i].wall;
                let shown = match self.last_wall {
                    Some(w) => w == wall,
                    None => false,
                };
                if shown {
                    None
                } else {
                    Some(i)
                }
            },
            None => None,
        }
    }

    /// Notes that the frame that arrived at `wall` was handed out.
    pub fn shown(&mut self, wall: Nanos)
        ensures
            *final(self) == (CameraTap { last_wall: Some(wall), ..*old(self) }),
    {
        self.last_wall = Some(wall);
    }
}

/// The value `rate * dt` moves by, never backwards.
pub open spec fn slew_step(dt: int, rate: int) -> int {
    if rate * dt / 1_000_000 < 0 {
        0
    } else {
        rate * dt / 1_000_000
    }
}

/// `current` moved towards `target` by at most a step.
pub open spec fn slewed(current: int, target: int, step: int) -> int {
    if target - current > step {
        current + step
    } else if current - target > step {
        current - step
    } else {
        target
    }
}

/// Moves a delay towards its target by at most `rate * dt`, so that a change
/// glides instead of jumping. Times are in microseconds, the rate in millionths.
pub fn slew(current: MicroSecs, target: MicroSecs, dt: MicroSecs, rate: Micro) -> (r: MicroSecs)
    ensures
        r == slewed(current as int, target as int, slew_step(dt as int, rate as int)),
{
    proof {
        let a = rate as int;
        let b = dt as int;
        assert(-0x5000_0000_0000_0000_0000_0000_0000_0000 <= a * b
            <= 0x5000_0000_0000_0000_0000_0000_0000_0000) by (nonlinear_arith)
            requires
                -0x8000_0000_0000_0000 <= a < 0x8000_0000_0000_0000,
                -0x8000_0000_0000_0000 <= b < 0x8000_0000_0000_0000,
        ;
    }
    let raw: i128 = floor_div(rate as i128 * dt as i128, 1_000_000);
    let step: i128 = if raw < 0 {
        0
    } else {
        raw
    };
    let diff: i128 = target as i128 - current as i128;
    if diff > step {
        (current as i128 + step) as i64
    } else if -diff > step {
        (current as i128 - step) as i64
    } else {
        target
    }
}

/// A slew never overshoots its target and never moves more than the step.
pub proof fn a_slew_never_overshoots(current: int, target: int, step: int)
    requires
        step >= 0,
    ensures
        current <= target ==> current <= slewed(current, target, step) <= target,
        target <= current ==> target <= slewed(current, target, step) <= current,
        -step <= slewed(current, target, step) - current <= step,
{
}

/// What switching a device on or off air asks for.
#[derive(Clone, Copy, Debug, PartialEq, Eq, Structural)]
pub enum AirChange {
    /// Start capturing from the device.
    Start,
    /// Stop capturing from the device.
    Stop,
    /// Nothing: the device is as it should be.
    Keep,
}

/// The devices on air, by identity. One capture service runs for each.
#[derive(Debug)]
pub struct CaptureRegistry {
    pub on_air: Vec<String>,
}

impl CaptureRegistry {
    /// Whether a device is on air.
    pub open spec fn has(self, uid: Seq<char>) -> bool {
        views(self.on_air@).contains(uid)
    }

    /// Each device is listed once.
    pub open spec fn wf(self) -> bool {
        views(self.on_air@).no_duplicates()
    }

    /// No device on air.
    pub fn new() -> (r: CaptureRegistry)
        ensures
            r.wf(),
            r.on_air@.len() == 0,
    {
        CaptureRegistry { on_air: Vec::new() }
    }

    fn position(&self, uid: &str) -> (r: usize)
        ensures
            r <= self.on_air@.len(),
            r < self.on_air@.len() ==> self.on_air@[r as int]@ == uid@,
            forall|j: int| 0 <= j < r ==> #[trigger] self.on_air@[j]@ != uid@,
    {
        let mut i: usize = 0;
        while i < self.on_air.len() && !same(self.on_air[i].as_str(), uid)
            invariant
                i <= self.on_air@.len(),
                forall|j: int| 0 <= j < i ==> #[trigger] self.on_air@[j]@ != uid@,
            decreases self.on_air@.len() - i,
        {
            i += 1;
        }
        i
    }

    /// Whether a device is on air.
    pub fn is_on_air(&self, uid: &str) -> (r: bool)
        ensures
            r == self.has(uid@),
    {
        let i: usize = self.position(uid);
        proof {
            if i < self.on_air@.len() {
                assert(views(self.on_air@)[i as int] == uid@);
            } else if self.has(uid@) {
                let k = views(self.on_air@).index_of(uid@);
                assert(self.on_air@[k]@ == uid@);
            }
        }
        i < self.on_air.len()
    }

    /// Switches a device on or off air.
    pub fn set_on_air(&mut self, uid: &str, on: bool) -> (r: AirChange)
        requires
            old(self).wf(),
        ensures
            final(self).wf(),
            final(self).has(uid@) == on,
            forall|other: Seq<char>|
                other != uid@ ==> #[trigger] final(self).has(other) == old(self).has(other),
            r == if on && !old(self).has(uid@) {
                AirChange::Start
            } else if !on && old(self).has(uid@) {
                AirChange::Stop
            } else {
                AirChange::Keep
            },
    {
        let had = self.is_on_air(uid);
        let ghost before = views(self.on_air@);
        if on && !had {
            self.on_air.push(uid.to_owned());
            proof {
                let after = views(self.on_air@);
                assert(after =~= before.push(uid@));
                assert(after[before.len() as int] == uid@);
                assert forall|other: Seq<char>| other != uid@ implies #[trigger] self.has(other)
                    == before.contains(other) by {
                    if before.contains(other) {
                        let k = before.index_of(other);
                        assert(after[k] == other);
                    }
                    if after.contains(other) {
                        let k = after.index_of(other);
                        assert(before[k] == other);
                    }
                }
                assert forall|a: int, b: int| 0 <= a < after.len() && 0 <= b < after.len() && a != b implies after[a]
                    != after[b] by {
                    if a < before.len() {
                        assert(before.contains(before[a]));
                    }
                    if b < before.len() {
                        assert(before.contains(before[b]));
                    }
                }
            }
            AirChange::Start
        } else if !on && had {
            let i: usize = self.position(uid);
            proof {
                if i >= self.on_air@.len() {
                    let k = before.index_of(uid@);
                    assert(self.on_air@[k]@ == uid@);
                }
            }
            self.on_air.remove(i);
            proof {
                let after = views(self.on_air@);
                assert(after =~= before.remove(i as int));
                assert forall|other: Seq<char>| #[trigger] self.has(other) == (before.contains(other) && other
                    != uid@) by {
                    if before.contains(other) && other != uid@ {
                        let k = before.index_of(other);
                        let k2 = if k < i { k } else { k - 1 };
                        assert(after[k2] == other);
                    }
                    if after.contains(other) {
                        let k = after.index_of(other);
                        let k0 = if k < i { k } else { k + 1 };
                        assert(before[k0] == other);
                        assert(before[i as int] == uid@);
                    }
                }
                assert forall|a: int, b: int| 0 <= a < after.len() && 0 <= b < after.len() && a != b implies after[a]
                    != after[b] by {
                    let a0 = if a < i { a } else { a + 1 };
                    let b0 = if b < i { b } else { b + 1 };
                    assert(after[a] == before[a0] && after[b] == before[b0]);
                }
            }
            AirChange::Stop
        } else {
            AirChange::Keep
        }
    }

    /// A fresh tap for a cue on a device, if it is on air.
    pub fn tap(&self, uid: &str) -> (r: Option<CameraTap>)
        ensures
            r == if self.has(uid@) {
                Some(CameraTap { delay_eff: 0, last_wall: None })
            } else {
                None
            },
    {
        if self.is_on_air(uid) {
            Some(CameraTap::new())
        } else {
            None
        }
    }
}

} // verus!
