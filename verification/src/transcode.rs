//! Baking a span of a source video into block-compressed frames: which frames
//! are emitted, when they are shown, and how their pixels are compressed.

use vstd::prelude::*;
use vstd::string::*;

use texpresso::{Algorithm, Format, Params};

use crate::capture::size_text;
use crate::clippool::pack_rows;
use crate::seqs::kept;
use crate::text::decimal;
use crate::units::{magnitude, rounded, saturate, saturated, MicroSecs};
use crate::video::{seek_target, IN_POINT_EPS};

verus! {

/// Output time base before the muxer picks its own: milliseconds.
pub const OUT_TIMESCALE: i32 = 1000;

/// Trade-off between quality and speed of the block compression.
#[derive(Clone, Copy, Debug, PartialEq, Eq, Structural)]
pub enum BakeQuality {
    /// Fast, with slightly worse gradients.
    Draft,
    /// Several times slower.
    High,
}

/// How the compressor looks for the two colours of a block.
#[derive(Clone, Copy, Debug, PartialEq, Eq, Structural)]
pub enum Fit {
    /// The extremes along the principal axis.
    Range,
    /// The best of all groupings along the principal axis.
    Cluster,
}

impl BakeQuality {
    /// The fit that a quality compresses with.
    pub fn params(self) -> (r: Fit)
        ensures
            r == self.spec_params(),
    {
        match self {
            BakeQuality::Draft => Fit::Range,
            BakeQuality::High => Fit::Cluster,
        }
    }

    /// The range fit for drafts, the cluster fit for high quality.
    pub open spec fn spec_params(self) -> Fit {
        match self {
            BakeQuality::Draft => Fit::Range,
            BakeQuality::High => Fit::Cluster,
        }
    }
}

impl Default for BakeQuality {
    fn default() -> (r: Self)
        ensures
            r == BakeQuality::Draft,
    {
        BakeQuality::Draft
    }
}

/// A bake that was asked for.
#[derive(Debug)]
pub struct BakeJob {
    pub input: String,
    pub output: String,
    pub in_sec: MicroSecs,
    pub out_sec: Option<MicroSecs>,
    pub quality: BakeQuality,
}

/// The bake of a whole file, at high quality.
pub fn run(input: &str, output: &str) -> (r: BakeJob)
    ensures
        r.input@ == input@,
        r.output@ == output@,
        r.in_sec == 0,
        r.out_sec is None,
        r.quality == BakeQuality::High,
{
    run_span(input, output, 0, None)
}

/// The bake of a span, at high quality.
pub fn run_span(input: &str, output: &str, in_sec: MicroSecs, out_sec: Option<MicroSecs>) -> (r: BakeJob)
    ensures
        r.input@ == input@,
        r.output@ == output@,
        r.in_sec == in_sec,
        r.out_sec == out_sec,
        r.quality == BakeQuality::High,
{
    run_span_with(input, output, in_sec, out_sec, BakeQuality::High)
}

/// The bake of a span, at a quality of choice.
pub fn run_span_with(
    input: &str,
    output: &str,
    in_sec: MicroSecs,
    out_sec: Option<MicroSecs>,
    quality: BakeQuality,
) -> (r: BakeJob)
    ensures
        r.input@ == input@,
        r.output@ == output@,
        r.in_sec == in_sec,
        r.out_sec == out_sec,
        r.quality == quality,
{
    BakeJob { input: input.to_owned(), output: output.to_owned(), in_sec, out_sec, quality }
}

/// The largest multiple of four that is not above `n`.
pub open spec fn whole_blocks(n: int) -> int {
    n - n % 4
}

/// The size a source is cropped to: compression works on blocks of four by
/// four, so at most three pixels per side are lost. None when less than one
/// block is left.
pub fn baked_size(width: u32, height: u32) -> (r: Option<(u32, u32)>)
    ensures
        r == if width >= 4 && height >= 4 {
            Some((whole_blocks(width as int) as u32, whole_blocks(height as int) as u32))
        } else {
            None
        },
        r matches Some(s) ==> s.0 % 4 == 0 && s.1 % 4 == 0 && s.0 >= 4 && s.1 >= 4 && width - 3 <= s.0 <= width
            && height - 3 <= s.1 <= height,
{
    let w: u32 = width - width % 4;
    let h: u32 = height - height % 4;
    if w >= 4 && h >= 4 {
        Some((w, h))
    } else {
        None
    }
}

/// The frame rate of a stream as a fraction; thirty per second where the stream
/// gives none.
pub open spec fn rate_of(rate: (i32, i32)) -> (i32, i32) {
    if rate.0 != 0 && rate.1 != 0 {
        rate
    } else {
        (30i32, 1i32)
    }
}

/// The frame rate of a stream as a fraction.
pub fn frame_rate(num: i32, den: i32) -> (r: (i32, i32))
    ensures
        r == rate_of((num, den)),
{
    if num != 0 && den != 0 {
        (num, den)
    } else {
        (30, 1)
    }
}

/// How many parts of a second, `unit` to the second, `idx` frames take at a rate
/// of `num / den` frames per second: the nearest number, ties away from zero.
pub open spec fn frames_in(idx: int, unit: int, num: int, den: int) -> int {
    if num > 0 {
        rounded(idx * den * unit, num)
    } else {
        rounded(-(idx * den * unit), -num)
    }
}

fn frames_take(idx: u64, unit: i64, num: i32, den: i32) -> (r: i64)
    requires
        num != 0,
        0 <= unit <= 1_000_000,
    ensures
        r == saturated(frames_in(idx as int, unit as int, num as int, den as int)),
{
    proof {
        let (i, d, u) = (idx as int, den as int, unit as int);
        assert(-0x8000_0000 * 0x1_0000_0000_0000_0000 <= i * d <= 0x8000_0000 * 0x1_0000_0000_0000_0000)
            by (nonlinear_arith)
            requires
                0 <= i < 0x1_0000_0000_0000_0000,
                -0x8000_0000 <= d < 0x8000_0000,
        ;
        let p = i * d;
        assert(-0x8000_0000 * 0x1_0000_0000_0000_0000 * 1_000_000 <= p * u <= 0x8000_0000
            * 0x1_0000_0000_0000_0000 * 1_000_000) by (nonlinear_arith)
            requires
                -0x8000_0000 * 0x1_0000_0000_0000_0000 <= p <= 0x8000_0000 * 0x1_0000_0000_0000_0000,
                0 <= u <= 1_000_000,
        ;
    }
    let up: i128 = idx as i128 * den as i128 * unit as i128;
    let n: i128 = num as i128;
    let (x, d): (i128, i128) = if n > 0 {
        (up, n)
    } else {
        (-up, -n)
    };
    let t: i128 = if x >= 0 {
        (2 * x + d) / (2 * d)
    } else {
        let away: i128 = (d - 2 * x) / (2 * d);
        proof {
            let (a, b) = (d - 2 * x, 2 * d as int);
            assert(0 <= a / b <= a) by (nonlinear_arith)
                requires
                    a >= 0,
                    b > 0,
            ;
        }
        -away
    };
    saturate(t)
}

/// The time of an emitted frame in milliseconds, at a rate of `num / den` frames
/// per second.
pub fn pts_millis(idx: u64, num: i32, den: i32) -> (r: i64)
    requires
        num != 0,
    ensures
        r == saturated(frames_in(idx as int, 1000, num as int, den as int)),
{
    frames_take(idx, 1000, num, den)
}

/// The output begins at time zero, and later frames never come earlier.
pub proof fn baked_frames_keep_their_order(i: int, j: int, num: int, den: int)
    requires
        0 <= i <= j,
        num > 0,
        den > 0,
    ensures
        frames_in(0, 1000, num, den) == 0,
        0 <= frames_in(i, 1000, num, den) <= frames_in(j, 1000, num, den),
{
    let (a, b) = (i * den * 1000, j * den * 1000);
    assert(0 <= a <= b) by (nonlinear_arith)
        requires
            0 <= i <= j,
            den > 0,
            a == i * den * 1000,
            b == j * den * 1000,
    ;
    assert(0 * den * 1000 == 0) by (nonlinear_arith);
    vstd::arithmetic::div_mod::lemma_div_is_ordered(2 * a + num, 2 * b + num, 2 * num);
    vstd::arithmetic::div_mod::lemma_div_is_ordered(num, 2 * a + num, 2 * num);
    assert(num / (2 * num) == 0) by (nonlinear_arith)
        requires
            num > 0,
    ;
}

/// Division rounding towards zero.
pub open spec fn quotient(a: int, b: int) -> int {
    if a >= 0 && b > 0 {
        a / b
    } else if a < 0 && b > 0 {
        -((-a) / b)
    } else if a >= 0 && b < 0 {
        -(a / (-b))
    } else {
        (-a) / (-b)
    }
}

/// A quotient is rounded towards zero: it never reaches past what was divided, and
/// falls short by less than one; its sign is that of the two together.
pub proof fn quotients_are_rounded_towards_zero(a: int, b: int)
    requires
        b != 0,
    ensures
        magnitude(quotient(a, b)) * magnitude(b) <= magnitude(a) < (magnitude(quotient(a, b)) + 1) * magnitude(b),
        (a >= 0) == (b > 0) ==> quotient(a, b) >= 0,
        (a >= 0) != (b > 0) ==> quotient(a, b) <= 0,
{
    let (x, y) = (magnitude(a), magnitude(b));
    let q = x / y;
    assert(q * y <= x < (q + 1) * y && 0 <= q) by (nonlinear_arith)
        requires
            0 <= x,
            0 < y,
            q == x / y,
    ;
}

/// A timestamp in units of `from`, converted to units of `to`; both are
/// fractions of a second. Kept as it is when the target unit is zero.
pub open spec fn rescaled(pts: int, from: (i32, i32), to: (i32, i32)) -> int {
    let num = from.0 * to.1;
    let den = from.1 * to.0;
    if den == 0 {
        pts
    } else {
        quotient(pts * num, den)
    }
}

/// Converts a timestamp from one time base to another.
pub fn rescale(pts: i64, from: (i32, i32), to: (i32, i32)) -> (r: i64)
    requires
        i64::MIN <= rescaled(pts as int, from, to) <= i64::MAX,
    ensures
        r == rescaled(pts as int, from, to),
{
    proof {
        small_product(from.0 as int, to.1 as int);
        small_product(from.1 as int, to.0 as int);
    }
    let num: i128 = from.0 as i128 * to.1 as i128;
    let den: i128 = from.1 as i128 * to.0 as i128;
    if den == 0 {
        return pts;
    }
    proof {
        let a = pts as int;
        let b = num as int;
        assert(-0x2000_0000_0000_0000_0000_0000_0000_0000 <= a * b
            <= 0x2000_0000_0000_0000_0000_0000_0000_0000) by (nonlinear_arith)
            requires
                -0x8000_0000_0000_0000 <= a < 0x8000_0000_0000_0000,
                -0x4000_0000_0000_0000 <= b <= 0x4000_0000_0000_0000,
        ;
    }
    let p: i128 = pts as i128 * num;
    let q: i128 = if p >= 0 && den > 0 {
        p / den
    } else if p < 0 && den > 0 {
        -((-p) / den)
    } else if p >= 0 {
        -(p / (-den))
    } else {
        (-p) / (-den)
    };
    q as i64
}

proof fn small_product(a: int, b: int)
    requires
        -0x8000_0000 <= a < 0x8000_0000,
        -0x8000_0000 <= b < 0x8000_0000,
    ensures
        -0x4000_0000_0000_0000 <= a * b <= 0x4000_0000_0000_0000,
{
    assert(-0x4000_0000_0000_0000 <= a * b <= 0x4000_0000_0000_0000) by (nonlinear_arith)
        requires
            -0x8000_0000 <= a < 0x8000_0000,
            -0x8000_0000 <= b < 0x8000_0000,
    ;
}

/// Converting between equal time bases changes nothing.
pub proof fn rescaling_to_the_same_base_is_the_identity(pts: int, base: (i32, i32))
    requires
        base.0 > 0,
        base.1 > 0,
    ensures
        rescaled(pts, base, base) == pts,
{
    let n = base.0 * base.1;
    assert(base.1 * base.0 == n) by (nonlinear_arith)
        requires
            n == base.0 * base.1,
    ;
    assert(n > 0) by (nonlinear_arith)
        requires
            n == base.0 * base.1,
            base.0 > 0,
            base.1 > 0,
    ;
    if pts >= 0 {
        assert(pts * n >= 0) by (nonlinear_arith)
            requires
                pts >= 0,
                n > 0,
        ;
        vstd::arithmetic::div_mod::lemma_div_by_multiple(pts, n);
    } else {
        assert(pts * n < 0) by (nonlinear_arith)
            requires
                pts < 0,
                n > 0,
        ;
        assert(-(pts * n) == (-pts) * n) by (nonlinear_arith);
        vstd::arithmetic::div_mod::lemma_div_by_multiple(-pts, n);
    }
}

/// Why a video cannot be baked.
#[derive(Clone, Copy, Debug, PartialEq, Eq, Structural)]
pub enum BakeError {
    /// Less than one block is left of a picture of this size.
    TooSmall { width: u32, height: u32 },
}

impl BakeError {
    /// What the user is told.
    pub fn message(&self) -> (r: String)
        ensures
            r@ == match *self {
                BakeError::TooSmall { width, height } => "video too small to transcode: "@ + (decimal(
                    width as nat,
                ) + "x"@ + decimal(height as nat)),
            },
    {
        match self {
            BakeError::TooSmall { width, height } => {
                let mut r = "video too small to transcode: ".to_owned();
                r.append(size_text(*width, *height).as_str());
                r
            },
        }
    }
}

/// How a bake is set up.
#[derive(Clone, Copy, Debug, PartialEq, Eq)]
pub struct BakePlan {
    pub width: u32,
    pub height: u32,
    /// Frames per second, as a fraction.
    pub fps: (i32, i32),
    /// Where to seek first, in microseconds.
    pub seek: Option<i64>,
}

/// How a bake of a source is set up: cropped to whole blocks, at the source's
/// rate, from the in-point on. None when less than one block is left.
pub open spec fn planned(in_sec: MicroSecs, width: u32, height: u32, rate: (i32, i32)) -> Option<BakePlan> {
    if width >= 4 && height >= 4 {
        Some(
            BakePlan {
                width: whole_blocks(width as int) as u32,
                height: whole_blocks(height as int) as u32,
                fps: rate_of(rate),
                seek: if in_sec > 0 {
                    Some(in_sec)
                } else {
                    None
                },
            },
        )
    } else {
        None
    }
}

/// How a bake of a source is set up, given the size of its pictures and its
/// frame rate as the stream gives it.
pub fn plan(job: &BakeJob, width: u32, height: u32, rate: (i32, i32)) -> (r: Result<BakePlan, BakeError>)
    ensures
        match r {
            Ok(p) => planned(job.in_sec, width, height, rate) == Some(p),
            Err(e) => planned(job.in_sec, width, height, rate) is None && e == (BakeError::TooSmall { width, height }),
        },
{
    match baked_size(width, height) {
        Some((w, h)) => {
            let seek = if job.in_sec > 0 {
                Some(seek_target(job.in_sec))
            } else {
                None
            };
            Ok(BakePlan { width: w, height: h, fps: frame_rate(rate.0, rate.1), seek })
        },
        None => Err(BakeError::TooSmall { width, height }),
    }
}

/// What a bake produced.
#[derive(Clone, Copy, Debug, PartialEq, Eq)]
pub struct TranscodeReport {
    /// Size after the crop to whole blocks.
    pub width: u32,
    pub height: u32,
    /// Frames per second, as a fraction.
    pub fps: (i32, i32),
    pub frames: u64,
    pub duration_sec: MicroSecs,
}

/// What a bake waits for.
#[derive(Clone, Copy, Debug, PartialEq, Eq, Structural)]
pub enum BakePhase {
    /// A packet of the source.
    Reading,
    /// A frame out of the packet that was fed in.
    Decoding,
    /// A frame that the decoder held back; the source has ended.
    Flushing,
    Done,
}

/// Where a bake stands.
#[derive(Clone, Copy, Debug, PartialEq, Eq, Structural)]
pub struct Bake {
    pub in_sec: MicroSecs,
    pub out_sec: Option<MicroSecs>,
    pub phase: BakePhase,
    /// Frames written so far.
    pub emitted: u64,
    /// Frames decoded but dropped before the in-point.
    pub skipped: u64,
}

/// What came of the work a bake asked for.
#[derive(Clone, Copy, Debug, PartialEq, Eq, Structural)]
pub enum BakeEvent {
    /// A packet was read; whether it belongs to the video.
    Packet { video: bool },
    EndOfInput,
    /// A frame was decoded, at this time of the source.
    Frame(MicroSecs),
    /// The decoder has no frame ready.
    NoFrame,
}

/// What a bake asks for next.
#[derive(Clone, Copy, Debug, PartialEq, Eq, Structural)]
pub enum BakeAction {
    /// Read the next packet.
    Read,
    /// Feed the packet to the decoder, then ask it for a frame.
    Feed,
    /// Tell the decoder that the source has ended, then ask it for a frame.
    Flush,
    /// Ask the decoder for another frame.
    Receive,
    /// Write the frame under this number, then ask for another one.
    Write(u64),
    /// Close the output.
    Finish,
}

/// How far a bake is, reported for every decoded frame. The time moves on also
/// while frames before the in-point are skipped.
#[derive(Clone, Copy, Debug, PartialEq, Eq, Structural)]
pub struct BakeUpdate {
    /// Frames written so far.
    pub emitted: u64,
    /// Source time of the frame just decoded.
    pub src_sec: MicroSecs,
}

impl Bake {
    /// A bake that has seen nothing.
    pub fn new(in_sec: MicroSecs, out_sec: Option<MicroSecs>) -> (r: Bake)
        ensures
            r == fresh(in_sec, out_sec),
    {
        Bake { in_sec, out_sec, phase: BakePhase::Reading, emitted: 0, skipped: 0 }
    }

    /// Whether the bake waits for a frame.
    pub open spec fn receiving(self) -> bool {
        self.phase is Decoding || self.phase is Flushing
    }

    /// What a frame at source time `src` leads to: it is skipped before the
    /// in-point, ends the bake from the out-point on, and is written otherwise.
    pub open spec fn framed(self, src: MicroSecs) -> (Bake, BakeAction) {
        if src + IN_POINT_EPS < self.in_sec {
            (Bake { skipped: (self.skipped + 1) as u64, ..self }, BakeAction::Receive)
        } else {
            match self.out_sec {
                Some(o) if src >= o => (Bake { phase: BakePhase::Done, ..self }, BakeAction::Finish),
                _ => (
                    Bake { emitted: (self.emitted + 1) as u64, ..self },
                    BakeAction::Write(self.emitted),
                ),
            }
        }
    }

    /// What an event leads to.
    pub open spec fn step(self, ev: BakeEvent) -> (Bake, BakeAction) {
        match self.phase {
            BakePhase::Reading => match ev {
                BakeEvent::Packet { video: true } => (
                    Bake { phase: BakePhase::Decoding, ..self },
                    BakeAction::Feed,
                ),
                BakeEvent::EndOfInput => (
                    Bake { phase: BakePhase::Flushing, ..self },
                    BakeAction::Flush,
                ),
                _ => (self, BakeAction::Read),
            },
            BakePhase::Decoding => match ev {
                BakeEvent::Frame(src) => self.framed(src),
                BakeEvent::NoFrame => (
                    Bake { phase: BakePhase::Reading, ..self },
                    BakeAction::Read,
                ),
                _ => (self, BakeAction::Receive),
            },
            BakePhase::Flushing => match ev {
                BakeEvent::Frame(src) => self.framed(src),
                BakeEvent::NoFrame => (Bake { phase: BakePhase::Done, ..self }, BakeAction::Finish),
                _ => (self, BakeAction::Receive),
            },
            BakePhase::Done => (self, BakeAction::Finish),
        }
    }

    /// The progress to report for an event: there is some where a frame was decoded.
    pub open spec fn progress(self, ev: BakeEvent) -> Option<BakeUpdate> {
        match ev {
            BakeEvent::Frame(src) if self.receiving() => Some(
                BakeUpdate { emitted: self.emitted, src_sec: src },
            ),
            _ => None,
        }
    }

    fn on_frame(&mut self, src: MicroSecs) -> (r: BakeAction)
        requires
            old(self).emitted < u64::MAX,
            old(self).skipped < u64::MAX,
        ensures
            (*final(self), r) == old(self).framed(src),
    {
        if (src as i128) + (IN_POINT_EPS as i128) < self.in_sec as i128 {
            self.skipped = self.skipped + 1;
            return BakeAction::Receive;
        }
        if let Some(o) = self.out_sec {
            if src >= o {
                self.phase = BakePhase::Done;
                return BakeAction::Finish;
            }
        }
        let n: u64 = self.emitted;
        self.emitted = n + 1;
        BakeAction::Write(n)
    }

    /// Takes an event and tells what to do next, with the progress to report
    /// where a frame was decoded. Written frames are numbered from zero, so the
    /// output always begins at time zero.
    pub fn on_event(&mut self, ev: BakeEvent) -> (r: (BakeAction, Option<BakeUpdate>))
        requires
            old(self).emitted < u64::MAX,
            old(self).skipped < u64::MAX,
        ensures
            (*final(self), r.0) == old(self).step(ev),
            r.1 == old(self).progress(ev),
    {
        let emitted: u64 = self.emitted;
        match self.phase {
            BakePhase::Reading => match ev {
                BakeEvent::Packet { video } => {
                    if video {
                        self.phase = BakePhase::Decoding;
                        (BakeAction::Feed, None)
                    } else {
                        (BakeAction::Read, None)
                    }
                },
                BakeEvent::EndOfInput => {
                    self.phase = BakePhase::Flushing;
                    (BakeAction::Flush, None)
                },
                _ => (BakeAction::Read, None),
            },
            BakePhase::Decoding => match ev {
                BakeEvent::Frame(src) => {
                    (self.on_frame(src), Some(BakeUpdate { emitted, src_sec: src }))
                },
                BakeEvent::NoFrame => {
                    self.phase = BakePhase::Reading;
                    (BakeAction::Read, None)
                },
                _ => (BakeAction::Receive, None),
            },
            BakePhase::Flushing => match ev {
                BakeEvent::Frame(src) => {
                    (self.on_frame(src), Some(BakeUpdate { emitted, src_sec: src }))
                },
                BakeEvent::NoFrame => {
                    self.phase = BakePhase::Done;
                    (BakeAction::Finish, None)
                },
                _ => (BakeAction::Receive, None),
            },
            BakePhase::Done => (BakeAction::Finish, None),
        }
    }

    /// What the bake produced so far: the frames, and the time they take at a
    /// positive frame rate.
    pub open spec fn reported(self, p: BakePlan) -> TranscodeReport {
        TranscodeReport {
            width: p.width,
            height: p.height,
            fps: p.fps,
            frames: self.emitted,
            duration_sec: if (p.fps.0 > 0) == (p.fps.1 > 0) && p.fps.1 != 0 {
                saturated(
                    frames_in(self.emitted as int, 1_000_000, p.fps.0 as int, p.fps.1 as int),
                ) as MicroSecs
            } else {
                0
            },
        }
    }

    /// What the bake produced so far.
    pub fn report(&self, p: &BakePlan) -> (r: TranscodeReport)
        requires
            p.fps.0 != 0,
        ensures
            r == self.reported(*p),
    {
        let (num, den): (i32, i32) = p.fps;
        let forward = (num > 0) == (den > 0) && den != 0;
        let duration_sec: i64 = if forward {
            frames_take(self.emitted, 1_000_000, num, den)
        } else {
            0
        };
        TranscodeReport { width: p.width, height: p.height, fps: p.fps, frames: self.emitted, duration_sec }
    }
}

/// Only frames of the span are written: none before the in-point, beyond the
/// tolerance, and none from the out-point on. They are numbered one after the
/// other.
pub proof fn written_frames_lie_in_the_span(b: Bake, ev: BakeEvent)
    requires
        b.step(ev).1 is Write,
    ensures
        ev matches BakeEvent::Frame(src) && src + IN_POINT_EPS >= b.in_sec && (b.out_sec matches Some(o)
            ==> src < o),
        b.step(ev).1 == BakeAction::Write(b.emitted),
        b.emitted < u64::MAX ==> b.step(ev).0.emitted == b.emitted + 1,
{
}

/// The first frame at or after the out-point ends the bake, and a bake that has
/// ended asks for nothing more.
pub proof fn the_out_point_ends_the_bake(b: Bake, src: MicroSecs, later: BakeEvent)
    requires
        b.receiving(),
        src + IN_POINT_EPS >= b.in_sec,
        b.out_sec matches Some(o) && src >= o,
    ensures
        b.step(BakeEvent::Frame(src)).1 == BakeAction::Finish,
        b.step(BakeEvent::Frame(src)).0.emitted == b.emitted,
        ({
            let ended = b.step(BakeEvent::Frame(src)).0;
            ended.step(later) == (ended, BakeAction::Finish)
        }),
{
}

/// A bake after some events, and the frames it wrote: each under its number,
/// with its time of the source.
pub open spec fn baked(start: Bake, evs: Seq<BakeEvent>) -> (Bake, Seq<(u64, MicroSecs)>)
    decreases evs.len(),
{
    if evs.len() == 0 {
        (start, seq![])
    } else {
        let (before, written) = baked(start, evs.drop_last());
        let (after, action) = before.step(evs.last());
        match (action, evs.last()) {
            (BakeAction::Write(n), BakeEvent::Frame(src)) => (after, written.push((n, src))),
            _ => (after, written),
        }
    }
}

/// The times of the frames that the decoder hands out, in order: those that the
/// bake waits for, and those that the source still has when it has ended.
pub open spec fn handed_out(start: Bake, evs: Seq<BakeEvent>) -> Seq<MicroSecs>
    decreases evs.len(),
{
    if evs.len() == 0 {
        seq![]
    } else {
        let before = handed_out(start, evs.drop_last());
        match evs.last() {
            BakeEvent::Frame(src) if !(baked(start, evs.drop_last()).0.phase is Reading) => before.push(src),
            _ => before,
        }
    }
}

/// Whether the decoder has handed out the last frame it held back.
pub open spec fn drained(start: Bake, evs: Seq<BakeEvent>) -> bool
    decreases evs.len(),
{
    evs.len() > 0 && (drained(start, evs.drop_last()) || evs.last() is NoFrame && baked(
        start,
        evs.drop_last(),
    ).0.phase is Flushing)
}

/// Whether a decoder can answer like this: once drained it has no more frames.
pub open spec fn plausible(start: Bake, evs: Seq<BakeEvent>) -> bool
    decreases evs.len(),
{
    evs.len() > 0 ==> plausible(start, evs.drop_last()) && (drained(start, evs.drop_last()) ==> !(evs.last() is Frame))
}

/// Selects the source times of a span.
pub open spec fn in_span(in_sec: MicroSecs, out_sec: Option<MicroSecs>) -> spec_fn(MicroSecs) -> bool {
    |src: MicroSecs| src + IN_POINT_EPS >= in_sec && (out_sec matches Some(o) ==> src < o)
}

/// Whether times never go back.
pub open spec fn forwards(times: Seq<MicroSecs>) -> bool {
    forall|i: int, j: int| 0 <= i < j < times.len() ==> #[trigger] times[i] <= #[trigger] times[j]
}

/// A whole bake writes exactly the frames of the span, in order and numbered
/// from zero, and counts them: for every course of a bake over a source whose
/// times never go back.
pub proof fn a_bake_writes_the_span(in_sec: MicroSecs, out_sec: Option<MicroSecs>, evs: Seq<BakeEvent>)
    requires
        evs.len() <= u64::MAX,
        plausible(fresh(in_sec, out_sec), evs),
        forwards(handed_out(fresh(in_sec, out_sec), evs)),
    ensures
        ({
            let (bake, written) = baked(fresh(in_sec, out_sec), evs);
            let wanted = kept(handed_out(fresh(in_sec, out_sec), evs), in_span(in_sec, out_sec));
            &&& bake.emitted == wanted.len()
            &&& written.len() == wanted.len()
            &&& forall|k: int| 0 <= k < written.len() ==> #[trigger] written[k] == (k as u64, wanted[k])
        }),
{
    a_bake_goes_on(in_sec, out_sec, evs);
}

/// A bake that has seen nothing.
pub open spec fn fresh(in_sec: MicroSecs, out_sec: Option<MicroSecs>) -> Bake {
    Bake { in_sec, out_sec, phase: BakePhase::Reading, emitted: 0, skipped: 0 }
}

proof fn a_bake_goes_on(in_sec: MicroSecs, out_sec: Option<MicroSecs>, evs: Seq<BakeEvent>)
    requires
        evs.len() <= u64::MAX,
        plausible(fresh(in_sec, out_sec), evs),
        forwards(handed_out(fresh(in_sec, out_sec), evs)),
    ensures
        ({
            let start = fresh(in_sec, out_sec);
            let (bake, written) = baked(start, evs);
            let all = handed_out(start, evs);
            let wanted = kept(all, in_span(in_sec, out_sec));
            &&& bake.in_sec == in_sec && bake.out_sec == out_sec
            &&& bake.emitted + bake.skipped <= evs.len()
            &&& bake.emitted == wanted.len()
            &&& written.len() == wanted.len()
            &&& forall|k: int| 0 <= k < written.len() ==> #[trigger] written[k] == (k as u64, wanted[k])
            &&& bake.phase is Done ==> drained(start, evs) || all.len() > 0 && (out_sec matches Some(o)
                && all.last() >= o)
        }),
    decreases evs.len(),
{
    let start = fresh(in_sec, out_sec);
    if evs.len() > 0 {
        let front = evs.drop_last();
        let all = handed_out(start, evs);
        let before = handed_out(start, front);
        assert forall|i: int, j: int| 0 <= i < j < before.len() implies #[trigger] before[i] <= #[trigger] before[j] by {
            assert(before[i] == all[i] && before[j] == all[j]);
        }
        a_bake_goes_on(in_sec, out_sec, front);
        if all.len() > before.len() {
            assert(all.drop_last() =~= before);
            if before.len() > 0 {
                assert(all[before.len() - 1] <= all[before.len() as int]);
            }
        }
    }
}

/// Bytes of an image compressed to blocks: eight for each block of four by
/// four pixels, partly filled ones counted whole.
pub open spec fn bc1_len(width: int, height: int) -> int {
    (width + 3) / 4 * ((height + 3) / 4) * 8
}

/// `texpresso::Format::compressed_size` for `Format::Bc1`: the number of bytes
/// that the compressed image takes.
#[verifier::external_body]
fn bc1_size(width: usize, height: usize) -> (r: usize)
    requires
        width + 3 <= usize::MAX,
        height + 3 <= usize::MAX,
        bc1_len(width as int, height as int) <= usize::MAX,
    ensures
        r == bc1_len(width as int, height as int),
{
    Format::Bc1.compressed_size(width, height)
}

/// What `texpresso` makes of an image in `Format::Bc1`, with the range fit or
/// the cluster fit and otherwise default parameters.
pub uninterp spec fn bc1_blocks(rgba: Seq<u8>, width: int, height: int, cluster_fit: bool) -> Seq<u8>;

/// `texpresso::Format::compress` for `Format::Bc1`: fills `out` with the
/// compressed image, one block after the other, with the fit that is asked for
/// and otherwise default parameters. Which bytes come out is not stated; they
/// depend on the image and the fit alone, and every byte of `out` is
/// overwritten.
#[verifier::external_body]
fn bc1_compress(rgba: &Vec<u8>, width: usize, height: usize, fit: Fit, out: &mut Vec<u8>)
    requires
        width >= 1,
        height >= 1,
        width * height * 4 <= rgba@.len(),
        old(out)@.len() == bc1_len(width as int, height as int),
    ensures
        final(out)@ == bc1_blocks(
            rgba@,
            width as int,
            height as int,
            fit == Fit::Cluster,
        ),
        final(out)@.len() == bc1_len(width as int, height as int),
{
    let algorithm = match fit {
        Fit::Range => Algorithm::RangeFit,
        Fit::Cluster => Algorithm::ClusterFit,
    };
    let params = Params { algorithm, ..Params::default() };
    Format::Bc1.compress(rgba, width, height, params, out);
}

/// Rows of pixels without gaps between them.
pub open spec fn packed(src: Seq<u8>, stride: int, row: int, rows: int) -> Seq<u8> {
    Seq::new((rows * row) as nat, |k: int| src[k / row * stride + k % row])
}

proof fn packed_rows(r: Seq<u8>, src: Seq<u8>, stride: int, row: int, rows: int)
    requires
        row > 0,
        rows >= 0,
        r.len() == rows * row,
        forall|y: int, x: int|
            0 <= y < rows && 0 <= x < row ==> r[#[trigger] (y * row + x)] == src[y * stride + x],
    ensures
        r == packed(src, stride, row, rows),
{
    let want = packed(src, stride, row, rows);
    assert(rows * row >= 0) by (nonlinear_arith)
        requires
            rows >= 0,
            row > 0,
    ;
    assert forall|k: int| 0 <= k < r.len() implies r[k] == want[k] by {
        let y = k / row;
        let x = k % row;
        vstd::arithmetic::div_mod::lemma_fundamental_div_mod(k, row);
        assert(row * y == y * row) by (nonlinear_arith);
        assert(0 <= y) by (nonlinear_arith)
            requires
                k >= 0,
                row > 0,
                y == k / row,
        ;
        assert(y < rows) by (nonlinear_arith)
            requires
                y * row + x == k,
                k < rows * row,
                x >= 0,
                row > 0,
        ;
        assert(r[y * row + x] == src[y * stride + x]);
    }
    assert(r =~= want);
}

/// Compresses one frame of four bytes per pixel, whose rows are `stride` bytes
/// apart.
pub fn compress_frame(src: &Vec<u8>, stride: usize, w: u32, h: u32, quality: BakeQuality) -> (r: Vec<u8>)
    requires
        w >= 4,
        h >= 4,
        w * 4 <= stride,
        (h - 1) * stride + w * 4 <= src@.len(),
    ensures
        r@ == bc1_blocks(
            packed(src@, stride as int, w * 4, h as int),
            w as int,
            h as int,
            quality.spec_params() == Fit::Cluster,
        ),
        r@.len() == bc1_len(w as int, h as int),
{
    let len: usize = src.len();
    proof {
        let (wi, hi, st) = (w as int, h as int, stride as int);
        assert(hi * wi * 4 <= (hi - 1) * st + wi * 4) by (nonlinear_arith)
            requires
                wi * 4 <= st,
                hi >= 1,
        ;
        assert(wi * 4 <= hi * wi * 4) by (nonlinear_arith)
            requires
                hi >= 1,
                wi >= 0,
        ;
        assert(hi <= hi * wi) by (nonlinear_arith)
            requires
                hi >= 0,
                wi >= 1,
        ;
        assert(hi * wi * 4 <= len);
        let (a, b) = ((wi + 3) / 4, (hi + 3) / 4);
        assert(2 * a <= wi && 2 * b <= hi);
        assert(a * b * 8 <= hi * wi * 4) by (nonlinear_arith)
            requires
                0 <= 2 * a <= wi,
                0 <= 2 * b <= hi,
        ;
    }
    let row: usize = w as usize * 4;
    let rows: usize = h as usize;
    let tight = pack_rows(src, stride, row, rows);
    proof {
        packed_rows(tight@, src@, stride as int, row as int, rows as int);
        assert(rows * row == w * h * 4) by (nonlinear_arith)
            requires
                rows == h,
                row == w * 4,
        ;
    }
    let size: usize = bc1_size(w as usize, rows);
    let mut out: Vec<u8> = Vec::new();
    out.resize(size, 0);
    bc1_compress(&tight, w as usize, rows, quality.params(), &mut out);
    out
}

} // verus!
