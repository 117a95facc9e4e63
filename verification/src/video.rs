//! Video frames and the decisions of a decode worker: what to do with each
//! packet and each frame of a trimmed, looping playthrough, and which frame of
//! a source is shown.

use vstd::prelude::*;

use crate::capture::{CameraTap, RingFrame, RingState};
use crate::units::{floor_div, saturate, saturated, Micro, MicroSecs, Nanos};

verus! {

/// Layout of block-compressed texture data.
#[derive(Clone, Copy, Debug, PartialEq, Eq, Structural)]
pub enum HapTextureFormat {
    Bc1,
    Bc3,
    /// BC3 blocks that hold scaled YCoCg colours.
    Bc3YCoCg,
    Bc4,
    Bc7,
}

/// The pixels of a frame.
#[derive(Debug)]
pub enum PixelData {
    /// Compressed blocks, with a separate alpha plane where there is one.
    Bc { format: HapTextureFormat, data: Vec<u8>, alpha: Option<Vec<u8>>, video_mode: i32 },
    /// Rows of four bytes per pixel, `stride` bytes apart.
    Rgba { data: Vec<u8>, stride: u32 },
}

impl PixelData {
    /// How the shader has to read the pixels.
    pub open spec fn mode(self) -> i32 {
        match self {
            PixelData::Bc { video_mode, .. } => video_mode,
            PixelData::Rgba { .. } => 0i32,
        }
    }

    /// How the shader has to read the pixels.
    pub fn video_mode(&self) -> (r: i32)
        ensures
            r == self.mode(),
    {
        match self {
            PixelData::Bc { video_mode, .. } => *video_mode,
            PixelData::Rgba { .. } => 0,
        }
    }
}

/// A decoded frame.
#[derive(Debug)]
pub struct DecodedFrame {
    pub pixels: PixelData,
    pub w: u32,
    pub h: u32,
    pub pts_sec: MicroSecs,
}

/// Tolerance of the in-point: a frame this much before it still counts.
pub const IN_POINT_EPS: MicroSecs = 1;

/// A time in units of `num / den` seconds, to the nearest microsecond.
pub open spec fn stream_time(pts: int, num: int, den: int) -> int {
    saturated((2_000_000 * (pts * num) + den) / (2 * den))
}

/// The time of a frame of a stream whose time base is `num / den` seconds; a
/// frame without a timestamp counts as zero.
pub open spec fn time_of(pts: Option<i64>, num: int, den: int) -> int {
    match pts {
        Some(p) => stream_time(p as int, num, den),
        None => 0,
    }
}

/// The time of a frame of a stream whose time base is `num / den` seconds.
pub fn frame_time(pts: Option<i64>, num: i32, den: i32) -> (r: MicroSecs)
    requires
        den > 0,
    ensures
        r == time_of(pts, num as int, den as int),
{
    match pts {
        Some(p) => {
            proof {
                let a = p as int;
                let b = num as int;
                assert(-0x8000_0000_0000_0000_0000_0000 <= a * b <= 0x8000_0000_0000_0000_0000_0000) by (nonlinear_arith)
                    requires
                        -0x8000_0000_0000_0000 <= a < 0x8000_0000_0000_0000,
                        -0x8000_0000 <= b < 0x8000_0000,
                ;
            }
            let ticks: i128 = p as i128 * num as i128;
            saturate(floor_div(2_000_000 * ticks + den as i128, 2 * den as i128))
        },
        None => 0,
    }
}

/// Where a seek to an in-point goes, in microseconds.
pub open spec fn seek_to(secs: MicroSecs) -> i64 {
    if secs < 0 {
        0
    } else {
        secs
    }
}

/// Where a seek to an in-point goes, in microseconds.
pub fn seek_target(secs: MicroSecs) -> (r: i64)
    ensures
        r == seek_to(secs),
{
    if secs < 0 {
        0
    } else {
        secs
    }
}

/// How many textures a HAP stream with this tag has: two for `HapM`.
pub open spec fn textures_in(tag: (u8, u8, u8, u8)) -> u8 {
    if tag == (72u8, 97u8, 112u8, 77u8) {
        2u8
    } else {
        1u8
    }
}

/// How many textures a HAP stream with this tag has.
pub fn texture_count(tag: (u8, u8, u8, u8)) -> (r: u8)
    ensures
        r == textures_in(tag),
{
    if tag.0 == 72 && tag.1 == 97 && tag.2 == 112 && tag.3 == 77 {
        2
    } else {
        1
    }
}

/// What a decode worker waits for.
#[derive(Clone, Copy, Debug, PartialEq, Eq, Structural)]
pub enum WorkerPhase {
    /// The seek to the in-point, which begins a pass over the clip.
    Seeking,
    /// A packet of the clip.
    Reading,
    /// A frame out of the decoder; `draining` after the clip's end.
    Decoding { draining: bool },
    /// The hand-over of the frame at `pts`.
    Showing { pts: MicroSecs, draining: bool },
    /// The pause after a pass that showed nothing.
    Resting,
    Stopped,
}

/// A decode worker: passes over a trimmed clip for ever, each from the in-point
/// to the out-point or the clip's end.
#[derive(Clone, Copy, Debug, PartialEq, Eq, Structural)]
pub struct Worker {
    pub in_sec: MicroSecs,
    pub out_sec: Option<MicroSecs>,
    /// Playback speed as a ratio.
    pub speed: Micro,
    pub phase: WorkerPhase,
    /// Time of the first frame that this pass showed.
    pub first_pts: Option<MicroSecs>,
}

/// What came of the work a worker asked for.
#[derive(Clone, Copy, Debug, PartialEq, Eq, Structural)]
pub enum WorkerEvent {
    /// The seek or the pause is over.
    Ready,
    /// A packet was read. `stop` and `restart` tell whether the worker was asked
    /// to stop or to start over, `video` whether the packet is of the video.
    Packet { stop: bool, restart: bool, video: bool },
    EndOfInput,
    /// A frame, at this time of the clip.
    Frame(MicroSecs),
    /// The decoder has no frame ready.
    NoFrame,
    /// The packet or frame cannot be read.
    Unreadable,
    /// The frame was handed over.
    Sent,
    /// There is no room for the frame yet. `stop` tells whether the worker was
    /// asked to stop.
    Full { stop: bool },
    /// Nobody receives frames any more.
    Disconnected,
}

/// What a worker asks for next.
#[derive(Clone, Copy, Debug, PartialEq, Eq, Structural)]
pub enum WorkerAction {
    /// Seek there, in microseconds, and forget requests to start over.
    Seek(i64),
    Read,
    /// Feed the packet to the decoder, then ask it for a frame.
    Feed,
    /// Tell the decoder that the clip has ended, then ask it for a frame.
    Flush,
    /// Ask the decoder for another frame.
    Receive,
    /// Hand the frame over this long after the pass began.
    Show { after: Nanos },
    /// Wait a moment and hand the frame over again.
    Retry,
    /// Pause, so that a pass without frames is not repeated in haste.
    Rest,
    Stop,
}

/// Where a frame lies in a trim.
#[derive(Clone, Copy, Debug, PartialEq, Eq, Structural)]
pub enum Place {
    Before,
    Inside,
    After,
}

/// Where a frame at `pts` lies in a trim; the out-point goes first.
pub open spec fn placed(in_sec: MicroSecs, out_sec: Option<MicroSecs>, pts: MicroSecs) -> Place {
    match out_sec {
        Some(o) if pts >= o => Place::After,
        _ => if pts + IN_POINT_EPS < in_sec {
            Place::Before
        } else {
            Place::Inside
        },
    }
}

fn place(in_sec: MicroSecs, out_sec: Option<MicroSecs>, pts: MicroSecs) -> (r: Place)
    ensures
        r == placed(in_sec, out_sec, pts),
{
    if let Some(o) = out_sec {
        if pts >= o {
            return Place::After;
        }
    }
    if (pts as i128) + (IN_POINT_EPS as i128) < in_sec as i128 {
        Place::Before
    } else {
        Place::Inside
    }
}

/// `x` limited to what nanoseconds can count.
pub open spec fn countable(x: int) -> int {
    if x > u64::MAX {
        u64::MAX as int
    } else {
        x
    }
}

impl Worker {
    /// Playback goes forward.
    pub open spec fn wf(self) -> bool {
        self.speed > 0
    }

    /// A worker that has not begun.
    pub open spec fn fresh(in_sec: MicroSecs, out_sec: Option<MicroSecs>, speed: Micro) -> Worker {
        Worker { in_sec, out_sec, speed, phase: WorkerPhase::Resting, first_pts: None }
    }

    /// A worker that has not begun.
    pub fn new(in_sec: MicroSecs, out_sec: Option<MicroSecs>, speed: Micro) -> (r: Worker)
        requires
            speed > 0,
        ensures
            r == Worker::fresh(in_sec, out_sec, speed),
            r.wf(),
    {
        Worker { in_sec, out_sec, speed, phase: WorkerPhase::Resting, first_pts: None }
    }

    /// The time of the first frame shown, counting one at `pts` if none was.
    pub open spec fn origin(self, pts: MicroSecs) -> MicroSecs {
        match self.first_pts {
            Some(f) => f,
            None => pts,
        }
    }

    /// How many nanoseconds after the start of the pass a frame at `pts` is due:
    /// as long as it lies behind the first frame, at the playback speed.
    pub open spec fn due(self, pts: MicroSecs) -> int {
        if pts > self.origin(pts) {
            countable((pts - self.origin(pts)) * 1_000_000_000 / self.speed as int)
        } else {
            0
        }
    }

    /// Where a seek to the in-point goes.
    pub open spec fn seek_point(self) -> i64 {
        if self.in_sec < 0 {
            0
        } else {
            self.in_sec
        }
    }

    /// The start of a pass.
    pub open spec fn sought(self) -> (Worker, WorkerAction) {
        (
            Worker { phase: WorkerPhase::Seeking, first_pts: None, ..self },
            WorkerAction::Seek(self.seek_point()),
        )
    }

    /// The end of a pass: the next one follows, after a pause where this one
    /// showed nothing.
    pub open spec fn looped(self) -> (Worker, WorkerAction) {
        if self.first_pts is None {
            (Worker { phase: WorkerPhase::Resting, ..self }, WorkerAction::Rest)
        } else {
            self.sought()
        }
    }

    /// What a frame at `pts` leads to.
    pub open spec fn framed(self, pts: MicroSecs, draining: bool) -> (Worker, WorkerAction) {
        match placed(self.in_sec, self.out_sec, pts) {
            Place::After => self.looped(),
            Place::Before => (self, WorkerAction::Receive),
            Place::Inside => (
                Worker { phase: WorkerPhase::Showing { pts, draining }, ..self },
                WorkerAction::Show { after: self.due(pts) as Nanos },
            ),
        }
    }

    /// The end of the worker.
    pub open spec fn stopped(self) -> (Worker, WorkerAction) {
        (Worker { phase: WorkerPhase::Stopped, ..self }, WorkerAction::Stop)
    }

    /// What an event leads to.
    pub open spec fn step(self, ev: WorkerEvent) -> (Worker, WorkerAction) {
        match self.phase {
            WorkerPhase::Resting => self.sought(),
            WorkerPhase::Seeking => (Worker { phase: WorkerPhase::Reading, ..self }, WorkerAction::Read),
            WorkerPhase::Reading => match ev {
                WorkerEvent::Packet { stop, restart, video } => if stop {
                    self.stopped()
                } else if restart {
                    self.looped()
                } else if video {
                    (
                        Worker { phase: WorkerPhase::Decoding { draining: false }, ..self },
                        WorkerAction::Feed,
                    )
                } else {
                    (self, WorkerAction::Read)
                },
                WorkerEvent::EndOfInput => (
                    Worker { phase: WorkerPhase::Decoding { draining: true }, ..self },
                    WorkerAction::Flush,
                ),
                _ => (self, WorkerAction::Read),
            },
            WorkerPhase::Decoding { draining } => match ev {
                WorkerEvent::Frame(pts) => self.framed(pts, draining),
                WorkerEvent::NoFrame | WorkerEvent::Unreadable => if draining {
                    self.looped()
                } else {
                    (Worker { phase: WorkerPhase::Reading, ..self }, WorkerAction::Read)
                },
                _ => (self, WorkerAction::Receive),
            },
            WorkerPhase::Showing { pts, draining } => match ev {
                WorkerEvent::Sent => (
                    Worker {
                        phase: WorkerPhase::Decoding { draining },
                        first_pts: Some(self.origin(pts)),
                        ..self
                    },
                    WorkerAction::Receive,
                ),
                WorkerEvent::Unreadable => (
                    Worker { phase: WorkerPhase::Decoding { draining }, ..self },
                    WorkerAction::Receive,
                ),
                WorkerEvent::Full { stop: true } | WorkerEvent::Disconnected => self.stopped(),
                _ => (self, WorkerAction::Retry),
            },
            WorkerPhase::Stopped => (self, WorkerAction::Stop),
        }
    }

    fn pace(&self, pts: MicroSecs) -> (r: Nanos)
        requires
            self.wf(),
        ensures
            r == self.due(pts),
    {
        let first: i64 = match self.first_pts {
            Some(f) => f,
            None => pts,
        };
        if pts <= first {
            return 0;
        }
        let gap: i128 = pts as i128 - first as i128;
        let due: i128 = gap * 1_000_000_000 / self.speed as i128;
        proof {
            let (g, v) = (gap * 1_000_000_000, self.speed as int);
            assert(0 <= g / v) by (nonlinear_arith)
                requires
                    g >= 0,
                    v > 0,
            ;
        }
        if due > u64::MAX as i128 {
            u64::MAX
        } else {
            due as u64
        }
    }

    fn begin(&mut self) -> (r: WorkerAction)
        ensures
            (*final(self), r) == old(self).sought(),
    {
        self.phase = WorkerPhase::Seeking;
        self.first_pts = None;
        WorkerAction::Seek(seek_target(self.in_sec))
    }

    fn end_pass(&mut self) -> (r: WorkerAction)
        ensures
            (*final(self), r) == old(self).looped(),
    {
        if self.first_pts.is_none() {
            self.phase = WorkerPhase::Resting;
            WorkerAction::Rest
        } else {
            self.begin()
        }
    }

    fn stop(&mut self) -> (r: WorkerAction)
        ensures
            (*final(self), r) == old(self).stopped(),
    {
        self.phase = WorkerPhase::Stopped;
        WorkerAction::Stop
    }

    fn on_frame(&mut self, pts: MicroSecs, draining: bool) -> (r: WorkerAction)
        requires
            old(self).wf(),
        ensures
            (*final(self), r) == old(self).framed(pts, draining),
    {
        match place(self.in_sec, self.out_sec, pts) {
            Place::After => self.end_pass(),
            Place::Before => WorkerAction::Receive,
            Place::Inside => {
                let after: u64 = self.pace(pts);
                self.phase = WorkerPhase::Showing { pts, draining };
                WorkerAction::Show { after }
            },
        }
    }

    /// Takes an event and tells what to do next.
    pub fn on_event(&mut self, ev: WorkerEvent) -> (r: WorkerAction)
        requires
            old(self).wf(),
        ensures
            (*final(self), r) == old(self).step(ev),
            final(self).wf(),
    {
        match self.phase {
            WorkerPhase::Resting => self.begin(),
            WorkerPhase::Seeking => {
                self.phase = WorkerPhase::Reading;
                WorkerAction::Read
            },
            WorkerPhase::Reading => match ev {
                WorkerEvent::Packet { stop, restart, video } => {
                    if stop {
                        self.stop()
                    } else if restart {
                        self.end_pass()
                    } else if video {
                        self.phase = WorkerPhase::Decoding { draining: false };
                        WorkerAction::Feed
                    } else {
                        WorkerAction::Read
                    }
                },
                WorkerEvent::EndOfInput => {
                    self.phase = WorkerPhase::Decoding { draining: true };
                    WorkerAction::Flush
                },
                _ => WorkerAction::Read,
            },
            WorkerPhase::Decoding { draining } => match ev {
                WorkerEvent::Frame(pts) => self.on_frame(pts, draining),
                WorkerEvent::NoFrame | WorkerEvent::Unreadable => {
                    if draining {
                        self.end_pass()
                    } else {
                        self.phase = WorkerPhase::Reading;
                        WorkerAction::Read
                    }
                },
                _ => WorkerAction::Receive,
            },
            WorkerPhase::Showing { pts, draining } => match ev {
                WorkerEvent::Sent => {
                    let first: i64 = match self.first_pts {
                        Some(f) => f,
                        None => pts,
                    };
                    self.first_pts = Some(first);
                    self.phase = WorkerPhase::Decoding { draining };
                    WorkerAction::Receive
                },
                WorkerEvent::Unreadable => {
                    self.phase = WorkerPhase::Decoding { draining };
                    WorkerAction::Receive
                },
                WorkerEvent::Full { stop } => {
                    if stop {
                        self.stop()
                    } else {
                        WorkerAction::Retry
                    }
                },
                WorkerEvent::Disconnected => self.stop(),
                _ => WorkerAction::Retry,
            },
            WorkerPhase::Stopped => WorkerAction::Stop,
        }
    }
}

/// A frame that is shown lies in the trim: not before the in-point, beyond the
/// tolerance, and before the out-point. The first one of a pass is due at once.
pub proof fn shown_frames_lie_in_the_trim(w: Worker, ev: WorkerEvent)
    requires
        w.step(ev).1 is Show,
    ensures
        ev matches WorkerEvent::Frame(pts) && {
            &&& pts + IN_POINT_EPS >= w.in_sec
            &&& w.out_sec matches Some(o) ==> pts < o
            &&& w.first_pts is None ==> w.step(ev).1 == (WorkerAction::Show { after: 0 })
        },
{
}

/// Within a pass, a later frame is never due earlier.
pub proof fn frames_are_due_in_order(w: Worker, a: MicroSecs, b: MicroSecs)
    requires
        w.wf(),
        w.first_pts is Some,
        a <= b,
    ensures
        0 <= w.due(a) <= w.due(b) <= u64::MAX,
{
    let first = w.first_pts->0;
    let v = w.speed as int;
    if b > first {
        let y = (b - first) * 1_000_000_000;
        assert(0 <= y / v) by (nonlinear_arith)
            requires
                y >= 0,
                v > 0,
        ;
        if a > first {
            let x = (a - first) * 1_000_000_000;
            vstd::arithmetic::div_mod::lemma_div_is_ordered(x, y, v);
            assert(0 <= x / v) by (nonlinear_arith)
                requires
                    x >= 0,
                    v > 0,
            ;
        }
    }
}

/// A request to start over leads back to the in-point, and so does the
/// out-point. Only a pass that showed nothing rests first.
pub proof fn a_restart_goes_back_to_the_in_point(w: Worker, video: bool, pts: MicroSecs, draining: bool)
    requires
        w.out_sec matches Some(o) && pts >= o,
    ensures
        ({
            let reading = Worker { phase: WorkerPhase::Reading, ..w };
            let restart = reading.step(WorkerEvent::Packet { stop: false, restart: true, video });
            let decoding = Worker { phase: WorkerPhase::Decoding { draining }, ..w };
            let out = decoding.step(WorkerEvent::Frame(pts));
            let rested = Worker { phase: WorkerPhase::Resting, ..w }.step(WorkerEvent::Ready);
            &&& restart.1 == if w.first_pts is Some {
                WorkerAction::Seek(w.seek_point())
            } else {
                WorkerAction::Rest
            }
            &&& out.1 == restart.1
            &&& rested.1 == WorkerAction::Seek(w.seek_point())
            &&& rested.0.first_pts is None
        }),
{
}

/// A worker that was asked to stop stops at the next packet or hand-over, and
/// asks for nothing more.
pub proof fn a_stopped_worker_stays_stopped(w: Worker, restart: bool, video: bool, pts: MicroSecs, draining: bool)
    ensures
        ({
            let reading = Worker { phase: WorkerPhase::Reading, ..w };
            let showing = Worker { phase: WorkerPhase::Showing { pts, draining }, ..w };
            &&& reading.step(WorkerEvent::Packet { stop: true, restart, video }) == reading.stopped()
            &&& showing.step(WorkerEvent::Full { stop: true }) == showing.stopped()
        }),
        forall|ev: WorkerEvent| #[trigger]
            w.stopped().0.step(ev) == (w.stopped().0, WorkerAction::Stop),
{
}

/// The engine's end of a decode worker: the frames it delivered, and whether it
/// is to restart.
#[derive(Debug)]
pub struct DecodeHandle {
    /// Frames that arrived, oldest first.
    pub frames: Vec<DecodedFrame>,
    pub restart: bool,
}

impl DecodeHandle {
    /// Asks the worker to go back to the cue's start. Further requests have no
    /// effect until it did.
    pub fn request_restart(&mut self)
        ensures
            *final(self) == (DecodeHandle { restart: true, ..*old(self) }),
    {
        self.restart = true;
    }
}

/// Where a cue's frames come from. A live feed has no timeline to seek.
#[derive(Debug)]
pub enum SourceHandle {
    File(DecodeHandle),
    Camera(CameraTap),
}

/// The newest frame of a source.
#[derive(Debug)]
pub enum Newest {
    /// A decoded frame.
    Frame(DecodedFrame),
    /// A position in the camera's ring.
    InRing(usize),
}

impl SourceHandle {
    /// Asks the source to start over. Cameras have no timeline and stay as they
    /// are.
    pub fn request_restart(&mut self)
        ensures
            *final(self) == match *old(self) {
                SourceHandle::File(h) => SourceHandle::File(DecodeHandle { restart: true, ..h }),
                SourceHandle::Camera(t) => SourceHandle::Camera(t),
            },
    {
        match self {
            SourceHandle::File(h) => h.request_restart(),
            SourceHandle::Camera(_) => {},
        }
    }

    /// The newest frame available at `now`: of a file the last one that arrived, of
    /// a camera the one its tap is due to show.
    pub open spec fn newest<T>(self, frames: Seq<RingFrame<T>>, now: Nanos) -> Option<Newest> {
        match self {
            SourceHandle::File(h) => if h.frames@.len() == 0 {
                None
            } else {
                Some(Newest::Frame(h.frames@.last()))
            },
            SourceHandle::Camera(t) => match t.due(frames, now) {
                Some(i) => Some(Newest::InRing(i)),
                None => None,
            },
        }
    }

    /// The newest frame available at `now`: of a file the last one that arrived,
    /// the others being dropped; of a camera the one its tap is due to show.
    pub fn poll_newest<T>(&mut self, ring: &RingState<T>, now: Nanos) -> (r: Option<Newest>)
        ensures
            r == old(self).newest(ring.frames@, now),
            match *old(self) {
                SourceHandle::File(h) => *final(self) matches SourceHandle::File(g) && g.frames@.len() == 0
                    && g.restart == h.restart,
                SourceHandle::Camera(t) => *final(self) == *old(self),
            },
    {
        match self {
            SourceHandle::File(h) => {
                let newest = h.frames.pop();
                h.frames.clear();
                match newest {
                    Some(f) => Some(Newest::Frame(f)),
                    None => None,
                }
            },
            SourceHandle::Camera(tap) => match tap.poll(ring, now) {
                Some(i) => Some(Newest::InRing(i)),
                None => None,
            },
        }
    }

    /// The camera tap, when this source is one.
    pub fn camera_mut(&mut self) -> (r: Option<&mut CameraTap>)
        ensures
            match r {
                Some(t) => *old(self) == SourceHandle::Camera(*t) && *final(self)
                    == SourceHandle::Camera(*final(t)),
                None => *old(self) is File && *final(self) == *old(self),
            },
    {
        match self {
            SourceHandle::File(_) => None,
            SourceHandle::Camera(tap) => Some(tap),
        }
    }
}

} // verus!
