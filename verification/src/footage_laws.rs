//! What comes out of files and cameras: which frames are shown and when, which
//! frames a bake writes, and how far a camera lags behind.

use vstd::prelude::*;

use crate::capture::{
    age, answer_of, best_format, bytes_of, device_called, evicted, eviction_keeps_the_newest, moment, newest_until,
    newest_until_is_newest, opens, permission_of, pixel_format_of, printable, rate_range, slew_step, slewed, step_after,
    AccessRequest, Authorization, CameraTap, CaptureError, DeviceFormat, DeviceInfo, OpenPlan, RingFrame, RingState,
    WorkerStep,
};
use crate::seqs::first_at_is;
use crate::transcode::{
    frames_in, packed, planned, rescaled, Bake, BakeAction, BakeEvent, BakePhase, BakePlan, BakeQuality, BakeUpdate,
};
use crate::units::{Micro, MicroSecs, Nanos};
use crate::video::{
    seek_to, stream_time, textures_in, time_of, Newest, PixelData, SourceHandle, Worker, WorkerAction, WorkerEvent,
    WorkerPhase,
};

verus! {

/// A timestamp counts its units: the time in microseconds is the nearest one to
/// `pts` times the unit.
pub proof fn timestamps_count_their_unit(pts: int, num: int, den: int)
    requires
        den > 0,
        i64::MIN < stream_time(pts, num, den) < i64::MAX,
    ensures
        -den <= 2 * (stream_time(pts, num, den) * den - pts * num * 1_000_000) <= den,
{
    let n = 2_000_000 * (pts * num) + den;
    let q = n / (2 * den);
    vstd::arithmetic::div_mod::lemma_fundamental_div_mod(n, 2 * den);
    assert(2 * den * q == 2 * (q * den)) by (nonlinear_arith);
}

/// A worker shows a frame exactly when it lies in the trim: not before the
/// in-point, beyond a microsecond, and before the out-point. Earlier ones are
/// passed over, and the first one from the out-point on ends the pass.
pub proof fn a_worker_shows_the_trim(w: Worker, pts: MicroSecs)
    requires
        w.wf(),
        w.phase is Decoding,
    ensures
        ({
            let (after, act) = w.step(WorkerEvent::Frame(pts));
            let ended = w.out_sec is Some && pts >= w.out_sec->0;
            &&& ended ==> act is Seek || act is Rest
            &&& !ended && pts + 1 < w.in_sec ==> act is Receive && after == w
            &&& !ended && pts + 1 >= w.in_sec ==> act is Show && after.phase == (WorkerPhase::Showing {
                pts,
                draining: w.phase->Decoding_draining,
            })
            &&& after.in_sec == w.in_sec && after.out_sec == w.out_sec && after.speed == w.speed
        }),
{
}

/// A frame is due as long after the first one of the pass as it lies behind it in
/// the clip, divided by the speed: at double speed in half the time.
pub proof fn a_worker_keeps_the_pace(w: Worker, first: MicroSecs, pts: MicroSecs)
    requires
        w.wf(),
        w.phase is Decoding,
        w.first_pts == Some(first),
        w.step(WorkerEvent::Frame(pts)).1 is Show,
    ensures
        ({
            let after = w.step(WorkerEvent::Frame(pts)).1->after;
            &&& pts <= first ==> after == 0
            &&& pts > first && after < u64::MAX ==> after * w.speed <= (pts - first) * 1_000_000_000 < (after + 1)
                * w.speed
        }),
{
    if pts > first {
        let n = (pts - first) * 1_000_000_000;
        let v = w.speed as int;
        vstd::arithmetic::div_mod::lemma_fundamental_div_mod(n, v);
        let q = n / v;
        assert(q * v == v * q && (q + 1) * v == v * q + v) by (nonlinear_arith);
        assert(q >= 0) by (nonlinear_arith)
            requires
                n >= 0,
                v > 0,
                q == n / v,
        ;
    }
}

/// A worker goes over the clip for ever: a pass starts with a seek to the
/// in-point, or the start of the clip when that is negative, and reads on; packets
/// of the video are decoded and others skipped; after the clip's end the decoder is
/// drained and the next pass begins; a handed-over frame keeps the first one's time.
pub proof fn a_worker_loops_over_the_clip(w: Worker, pts: MicroSecs, draining: bool, video: bool)
    requires
        w.wf(),
    ensures
        ({
            let resting = Worker { phase: WorkerPhase::Resting, ..w };
            let seeking = Worker { phase: WorkerPhase::Seeking, ..w };
            let reading = Worker { phase: WorkerPhase::Reading, ..w };
            let fed = reading.step(WorkerEvent::Packet { stop: false, restart: false, video });
            let ended = reading.step(WorkerEvent::EndOfInput);
            let decoding = Worker { phase: WorkerPhase::Decoding { draining }, ..w };
            let dry = decoding.step(WorkerEvent::NoFrame);
            let showing = Worker { phase: WorkerPhase::Showing { pts, draining }, ..w };
            let sent = showing.step(WorkerEvent::Sent);
            let again = reading.step(WorkerEvent::Packet { stop: false, restart: true, video });
            &&& resting.step(WorkerEvent::Ready) == (
                Worker { phase: WorkerPhase::Seeking, first_pts: None, ..w },
                WorkerAction::Seek(
                    if w.in_sec < 0 {
                        0
                    } else {
                        w.in_sec
                    },
                ),
            )
            &&& seeking.step(WorkerEvent::Ready) == (reading, WorkerAction::Read)
            &&& video ==> fed.1 is Feed && fed.0.phase == (WorkerPhase::Decoding { draining: false })
            &&& !video ==> fed == (reading, WorkerAction::Read)
            &&& ended.1 is Flush && ended.0.phase == (WorkerPhase::Decoding { draining: true })
            &&& !draining ==> dry == (reading, WorkerAction::Read)
            &&& draining && w.first_pts is Some ==> dry == resting.step(WorkerEvent::Ready)
            &&& draining && w.first_pts is None ==> dry == (resting, WorkerAction::Rest)
            &&& w.first_pts is Some ==> again == resting.step(WorkerEvent::Ready)
            &&& sent.1 is Receive && sent.0.phase == decoding.phase
            &&& sent.0.first_pts == Some(
                if w.first_pts is Some {
                    w.first_pts->0
                } else {
                    pts
                },
            )
            &&& showing.step(WorkerEvent::Full { stop: false }) == (showing, WorkerAction::Retry)
            &&& showing.step(WorkerEvent::Disconnected).1 is Stop
            &&& showing.step(WorkerEvent::Full { stop: true }).1 is Stop
            &&& reading.step(WorkerEvent::Packet { stop: true, restart: false, video }).1 is Stop
        }),
{
}

/// A written frame comes as many milliseconds after the start as its number at the
/// frame rate says, to the nearest one; and so does the duration of the whole.
pub proof fn baked_frames_keep_the_rate(idx: int, num: int, den: int, unit: int)
    requires
        idx >= 0,
        num > 0,
        den > 0,
        unit > 0,
    ensures
        -num <= 2 * (frames_in(idx, unit, num, den) * num - idx * den * unit) <= num,
{
    let x = idx * den * unit;
    assert(x >= 0) by (nonlinear_arith)
        requires
            idx >= 0,
            den > 0,
            unit > 0,
            x == idx * den * unit,
    ;
    let q = (2 * x + num) / (2 * num);
    vstd::arithmetic::div_mod::lemma_fundamental_div_mod(2 * x + num, 2 * num);
    assert(2 * num * q == 2 * (q * num)) by (nonlinear_arith);
}

/// A bake is set up from whole blocks of four by four, so that at most three
/// pixels of a side are lost, at the source's frame rate or else thirty, and
/// seeks to the in-point when there is one after the start. It is refused when
/// less than a block is left.
pub proof fn a_bake_is_set_up_from_its_source(in_sec: MicroSecs, width: u32, height: u32, rate: (i32, i32))
    ensures
        ({
            let p = planned(in_sec, width, height, rate);
            &&& p is Some <==> width >= 4 && height >= 4
            &&& p is Some ==> {
                &&& p->0.width % 4 == 0 && p->0.width <= width && width < p->0.width + 4
                &&& p->0.height % 4 == 0 && p->0.height <= height && height < p->0.height + 4
                &&& rate.0 != 0 && rate.1 != 0 ==> p->0.fps == rate
                &&& rate.0 == 0 || rate.1 == 0 ==> p->0.fps == (30i32, 1i32)
                &&& in_sec > 0 ==> p->0.seek == Some(in_sec)
                &&& in_sec <= 0 ==> p->0.seek is None
            }
        }),
{
}

/// The report of a bake counts its frames, and gives the time that they take at
/// the frame rate, to the nearest microsecond.
pub proof fn a_bake_reports_its_frames(b: Bake, p: BakePlan)
    requires
        p.fps.0 > 0,
        p.fps.1 > 0,
    ensures
        ({
            let r = b.reported(p);
            let (num, den) = (p.fps.0 as int, p.fps.1 as int);
            &&& r.frames == b.emitted && r.width == p.width && r.height == p.height && r.fps == p.fps
            &&& r.duration_sec < i64::MAX ==> -num <= 2 * (r.duration_sec * num - b.emitted * den * 1_000_000) <= num
        }),
{
    let (num, den) = (p.fps.0 as int, p.fps.1 as int);
    baked_frames_keep_the_rate(b.emitted as int, num, den, 1_000_000);
    let f = frames_in(b.emitted as int, 1_000_000, num, den);
    let x = b.emitted * den * 1_000_000;
    assert(x >= 0) by (nonlinear_arith)
        requires
            b.emitted >= 0,
            den > 0,
            x == b.emitted * den * 1_000_000,
    ;
    assert((2 * x + num) / (2 * num) >= 0) by (nonlinear_arith)
        requires
            x >= 0,
            num > 0,
    ;
}

/// A timestamp in another unit stands for the same time, rounded down to that
/// unit.
pub proof fn rescaled_timestamps_stand_for_the_same_time(pts: int, from: (i32, i32), to: (i32, i32))
    requires
        pts >= 0,
        from.0 > 0,
        from.1 > 0,
        to.0 > 0,
        to.1 > 0,
    ensures
        ({
            let r = rescaled(pts, from, to);
            let (num, den) = (from.0 * to.1, from.1 * to.0);
            r * den <= pts * num < (r + 1) * den
        }),
{
    let num = from.0 * to.1;
    let den = from.1 * to.0;
    assert(num > 0 && den > 0) by (nonlinear_arith)
        requires
            from.0 > 0,
            from.1 > 0,
            to.0 > 0,
            to.1 > 0,
            num == from.0 * to.1,
            den == from.1 * to.0,
    ;
    assert(pts * num >= 0) by (nonlinear_arith)
        requires
            pts >= 0,
            num > 0,
    ;
    let r = pts * num / den;
    vstd::arithmetic::div_mod::lemma_fundamental_div_mod(pts * num, den);
    assert(r * den == den * r && (r + 1) * den == den * r + den) by (nonlinear_arith);
}

/// A ring keeps the newest frame, whatever it was: with another size or format it
/// is alone; otherwise it comes after the frames that were there, of which the
/// oldest leave, and no more than have to.
pub proof fn a_ring_keeps_the_newest<T>(ring: RingState<T>, f: RingFrame<T>)
    ensures
        ({
            let had = ring.frames@;
            let now = ring.with_frame(f);
            let all = had.push(f);
            let k = all.len() - now.len();
            &&& now.len() > 0 && now.last() == f
            &&& had.len() > 0 && had.last().shape != f.shape ==> now == seq![f]
            &&& had.len() == 0 || had.last().shape == f.shape ==> {
                &&& 0 <= k < all.len()
                &&& now == all.skip(k)
                &&& now.len() > 1 ==> bytes_of(now) <= ring.byte_cap && (f.wall >= now[0].wall ==> f.wall - now[0].wall
                    <= ring.window)
                &&& k > 0 ==> bytes_of(all.skip(k - 1)) > ring.byte_cap || f.wall > all[k - 1].wall && f.wall - all[k
                    - 1].wall > ring.window
            }
        }),
{
    let had = ring.frames@;
    if had.len() > 0 && had.last().shape != f.shape {
        let one = Seq::<RingFrame<T>>::empty().push(f);
        assert(one =~= seq![f]);
        assert(evicted(one, f.wall, ring.window, ring.byte_cap) == one);
    } else {
        eviction_keeps_the_newest(had.push(f), f.wall, ring.window, ring.byte_cap);
        no_more_leave_than_have_to(had.push(f), f.wall, ring.window, ring.byte_cap);
    }
}

proof fn no_more_leave_than_have_to<T>(frames: Seq<RingFrame<T>>, now: Nanos, window: Nanos, cap: usize)
    requires
        frames.len() > 0,
    ensures
        ({
            let left = evicted(frames, now, window, cap);
            let k = frames.len() - left.len();
            k > 0 ==> bytes_of(frames.skip(k - 1)) > cap || age(now, frames[k - 1].wall) > window
        }),
    decreases frames.len(),
{
    if frames.len() > 1 && (bytes_of(frames) > cap || age(now, frames[0].wall) > window) {
        let rest = frames.drop_first();
        eviction_keeps_the_newest(rest, now, window, cap);
        no_more_leave_than_have_to(rest, now, window, cap);
        let left = evicted(rest, now, window, cap);
        let k = rest.len() - left.len();
        if k > 0 {
            assert(rest.skip(k - 1) =~= frames.skip(k));
            assert(rest[k - 1] == frames[k]);
        } else {
            assert(frames.skip(0) =~= frames);
        }
    }
}

/// The bytes of a ring are those of its frames together.
pub proof fn bytes_add_up<T>(a: Seq<RingFrame<T>>, b: Seq<RingFrame<T>>, f: RingFrame<T>)
    ensures
        bytes_of(a + b) == bytes_of(a) + bytes_of(b),
        bytes_of(seq![f]) == f.bytes,
        bytes_of(Seq::<RingFrame<T>>::empty()) == 0,
    decreases a.len(),
{
    reveal_with_fuel(bytes_of, 2);
    assert(seq![f].drop_first() =~= Seq::<RingFrame<T>>::empty());
    if a.len() == 0 {
        assert(a + b =~= b);
    } else {
        bytes_add_up(a.drop_first(), b, f);
        assert((a + b).drop_first() =~= a.drop_first() + b);
    }
}

/// A tap shows the camera its delay behind: the frame it is due to show is as old
/// as the delay, every later one is younger, and while none is that old it is the
/// oldest. It shows no frame twice in a row.
pub proof fn a_tap_lags_by_its_delay<T>(tap: CameraTap, frames: Seq<RingFrame<T>>, now: Nanos)
    requires
        0 <= tap.delay_eff,
        tap.delay_eff * 1000 <= now,
        frames.len() <= usize::MAX,
    ensures
        ({
            let back = tap.delay_eff * 1000;
            let r = tap.due(frames, now);
            &&& frames.len() == 0 ==> r is None
            &&& r matches Some(i) ==> {
                &&& i < frames.len()
                &&& frames[i as int].wall + back <= now || i == 0
                &&& forall|j: int| i < j < frames.len() ==> (#[trigger] frames[j]).wall + back > now
                &&& tap.last_wall != Some(frames[i as int].wall)
            }
            &&& r is None && frames.len() > 0 ==> exists|i: int|
                {
                    &&& 0 <= i < frames.len()
                    &&& tap.last_wall == Some((#[trigger] frames[i]).wall)
                    &&& frames[i].wall + back <= now || i == 0
                    &&& forall|j: int| i < j < frames.len() ==> (#[trigger] frames[j]).wall + back > now
                }
        }),
{
    let target = moment(now, tap.delay_eff);
    assert(target == now - tap.delay_eff * 1000);
    if frames.len() > 0 {
        newest_until_is_newest(frames, target);
        let i = newest_until(frames, target);
        assert(frames[i].wall + tap.delay_eff * 1000 <= now || i == 0);
    }
}

/// A delay glides: in a step of time it moves towards its target by the rate times
/// that time, and stays there once it is near enough.
pub proof fn delays_glide(current: int, target: int, dt: int, rate: int)
    requires
        dt >= 0,
        rate >= 0,
    ensures
        ({
            let step = slew_step(dt, rate);
            let next = slewed(current, target, step);
            &&& step * 1_000_000 <= rate * dt < (step + 1) * 1_000_000
            &&& target - current > step ==> next == current + step
            &&& current - target > step ==> next == current - step
            &&& -step <= target - current <= step ==> next == target
        }),
{
    assert(rate * dt >= 0) by (nonlinear_arith)
        requires
            dt >= 0,
            rate >= 0,
    ;
}

/// The rates of a format span its ranges: nothing is slower than the lowest or
/// faster than the highest, and both are offered.
pub proof fn rates_span_their_ranges(ranges: Seq<(Micro, Micro)>)
    requires
        forall|i: int| 0 <= i < ranges.len() ==> (#[trigger] ranges[i]).1 >= 0,
    ensures
        ({
            let r = rate_range(ranges);
            &&& forall|i: int| 0 <= i < ranges.len() ==> r.0 <= (#[trigger] ranges[i]).0 && ranges[i].1 <= r.1
            &&& ranges.len() > 0 ==> exists|i: int| 0 <= i < ranges.len() && (#[trigger] ranges[i]).0 == r.0
            &&& ranges.len() > 0 ==> r.1 == 0 || exists|i: int| 0 <= i < ranges.len() && (#[trigger] ranges[i]).1 == r.1
            &&& ranges.len() == 0 ==> r == (0i64, 0i64)
            &&& r.1 >= 0
        }),
    decreases ranges.len(),
{
    if ranges.len() > 0 {
        let front = ranges.drop_last();
        assert forall|i: int| 0 <= i < front.len() implies (#[trigger] front[i]).1 >= 0 by {
            assert(front[i] == ranges[i]);
        }
        rates_span_their_ranges(front);
        let (a, b) = (rate_range(front), rate_range(ranges));
        let n = ranges.len() - 1;
        assert(ranges[n] == ranges.last());
        assert forall|i: int| 0 <= i < ranges.len() implies b.0 <= (#[trigger] ranges[i]).0 && ranges[i].1 <= b.1 by {
            if i < n {
                assert(front[i] == ranges[i]);
            }
        }
        if b.0 != ranges[n].0 {
            let i = choose|i: int| 0 <= i < front.len() && (#[trigger] front[i]).0 == a.0;
            assert(ranges[i] == front[i]);
        }
        if b.1 != ranges[n].1 && b.1 != 0 {
            let i = choose|i: int| 0 <= i < front.len() && (#[trigger] front[i]).1 == a.1;
            assert(ranges[i] == front[i]);
        }
    }
}

/// The format that is requested is the largest one that is not too tall, and the
/// fastest of that size; when all are too tall, the smallest, and the slowest of
/// that size.
pub proof fn the_best_format_is_the_largest_that_fits(formats: Seq<DeviceFormat>, max_h: u32, best: int, i: int)
    requires
        best_format(formats, max_h, best),
        0 <= i < formats.len(),
    ensures
        ({
            let (b, f) = (formats[best], formats[i]);
            &&& f.height <= max_h ==> b.height <= max_h && f.width * f.height <= b.width * b.height
            &&& f.height <= max_h && f.width * f.height == b.width * b.height && f.max_fps > 0 ==> f.max_fps
                <= b.max_fps
            &&& (forall|j: int| 0 <= j < formats.len() ==> (#[trigger] formats[j]).height > max_h) ==> b.width
                * b.height <= f.width * f.height && (b.width * b.height == f.width * f.height && f.max_fps >= 0
                ==> b.max_fps <= f.max_fps)
        }),
{
    if formats[i].height <= max_h {
        assert(formats[i].at_most(formats[best]));
    }
}

/// A device is opened by its identity, at its place in the list, in one of its own
/// formats, not taller than 1080 lines when one is offered; a device that is not
/// there or reports no format is not opened.
pub proof fn a_device_is_opened_by_its_identity(
    devices: Seq<DeviceInfo>,
    uid: Seq<char>,
    k: int,
    i: int,
    r: Result<OpenPlan, CaptureError>,
)
    requires
        opens(devices, uid, r),
    ensures
        (forall|j: int| 0 <= j < devices.len() ==> (#[trigger] devices[j]).uid@ != uid) ==> r
            == Err::<OpenPlan, CaptureError>(CaptureError::NotConnected),
        0 <= k < devices.len() && devices[k].uid@ == uid && (forall|j: int|
            0 <= j < k ==> (#[trigger] devices[j]).uid@ != uid) ==> {
            &&& devices[k].formats@.len() == 0 ==> r == Err::<OpenPlan, CaptureError>(CaptureError::NoFormats)
            &&& devices[k].formats@.len() > 0 ==> r is Ok && r->Ok_0.index == devices[k].index
                && devices[k].formats@.contains(r->Ok_0.format)
            &&& 0 <= i < devices[k].formats@.len() && devices[k].formats@[i].height <= 1080 ==> r->Ok_0.format.height
                <= 1080
        },
{
    let p = device_called(uid);
    if forall|j: int| 0 <= j < devices.len() ==> (#[trigger] devices[j]).uid@ != uid {
        first_at_is(devices, p, devices.len() as int);
    }
    if 0 <= k < devices.len() && devices[k].uid@ == uid && (forall|j: int|
        0 <= j < k ==> (#[trigger] devices[j]).uid@ != uid) {
        first_at_is(devices, p, k);
    }
}

/// The user is asked for the camera exactly when they never were; otherwise the
/// answer is theirs, and only a permission counts as one. A worker that is told to
/// stop stops, a failure is retried after a pause, and a session that ended is
/// opened again at once.
pub proof fn permission_is_what_the_user_said(status: i64, failed: bool)
    ensures
        answer_of(permission_of(status)) == AccessRequest::Prompt <==> status == 0,
        answer_of(permission_of(status)) == AccessRequest::Answered(true) <==> status == 3,
        permission_of(status) == Authorization::Restricted <==> status == 1,
        step_after(true, failed) == WorkerStep::Stop,
        step_after(false, true) == WorkerStep::Retry,
        step_after(false, false) == WorkerStep::Reopen,
{
}

/// The camera's pixel formats are known by their four letters, and by no other.
pub proof fn pixel_formats_are_known_by_code(f: (u8, u8, u8, u8))
    ensures
        ({
            let letters = seq![printable(f.0), printable(f.1), printable(f.2), printable(f.3)];
            let name = pixel_format_of(f);
            &&& letters == seq!['4', '2', '0', 'v'] ==> name == Some("nv12"@)
            &&& letters == seq!['4', '2', '0', 'f'] ==> name == Some("nv12"@)
            &&& letters == seq!['2', 'v', 'u', 'y'] ==> name == Some("uyvy422"@)
            &&& letters == seq!['y', 'u', 'v', 's'] ==> name == Some("yuyv422"@)
            &&& letters == seq!['B', 'G', 'R', 'A'] ==> name == Some("bgra"@)
            &&& name is Some ==> letters == seq!['4', '2', '0', 'v'] || letters == seq!['4', '2', '0', 'f'] || letters
                == seq!['2', 'v', 'u', 'y'] || letters == seq!['y', 'u', 'v', 's'] || letters == seq![
                'B',
                'G',
                'R',
                'A',
            ]
        }),
{
    let letters = seq![printable(f.0), printable(f.1), printable(f.2), printable(f.3)];
    assert(letters[0] == printable(f.0) && letters[1] == printable(f.1) && letters[2] == printable(f.2) && letters[3]
        == printable(f.3));
    assert(seq!['4', '2', '0', 'v'][3] == 'v' && seq!['4', '2', '0', 'f'][3] == 'f');
    if pixel_format_of(f) is Some {
        assert(letters =~= seq!['4', '2', '0', 'v'] || letters =~= seq!['4', '2', '0', 'f'] || letters =~= seq![
            '2',
            'v',
            'u',
            'y',
        ] || letters =~= seq!['y', 'u', 'v', 's'] || letters =~= seq!['B', 'G', 'R', 'A']);
    }
}

/// A code prints as it is where it can, and as a question mark where it cannot.
pub proof fn codes_print_where_they_can(b: u8)
    ensures
        32 <= b <= 126 ==> printable(b) as int == b,
        b < 32 || b > 126 ==> printable(b) == '?',
{
}

/// The rows of a picture are packed close: each pixel keeps its row and its place
/// in it, and what pads the rows is left out. A draft is fitted by range, a final
/// bake by cluster.
pub proof fn rows_are_packed_close(src: Seq<u8>, stride: int, row: int, rows: int, y: int, x: int)
    requires
        0 < row <= stride,
        0 <= y < rows,
        0 <= x < row,
        rows * stride <= src.len(),
    ensures
        packed(src, stride, row, rows).len() == rows * row,
        packed(src, stride, row, rows)[y * row + x] == src[y * stride + x],
        BakeQuality::Draft.spec_params() is Range,
        BakeQuality::High.spec_params() is Cluster,
{
    let k = y * row + x;
    assert(0 <= k < rows * row && k / row == y && k % row == x) by (nonlinear_arith)
        requires
            k == y * row + x,
            0 < row,
            0 <= y < rows,
            0 <= x < row,
    ;
}

/// A frame without a timestamp stands at the start, and no seek goes before it. Only
/// a stream of the tag `HapM` has a second texture, and plain pixels need no
/// reading of their own.
pub proof fn streams_start_at_zero(
    secs: MicroSecs,
    num: int,
    den: int,
    tag: (u8, u8, u8, u8),
    pixels: PixelData,
)
    ensures
        time_of(None, num, den) == 0,
        forall|p: i64| #[trigger] time_of(Some(p), num, den) == stream_time(p as int, num, den),
        seek_to(secs) >= 0,
        secs >= 0 ==> seek_to(secs) == secs,
        secs < 0 ==> seek_to(secs) == 0,
        textures_in(tag) == 2 <==> seq![tag.0 as char, tag.1 as char, tag.2 as char, tag.3 as char] == seq![
            'H',
            'a',
            'p',
            'M',
        ],
        textures_in(tag) == 1 || textures_in(tag) == 2,
        pixels is Rgba ==> pixels.mode() == 0,
        pixels is Bc ==> pixels.mode() == pixels->video_mode,
{
    let letters = seq![tag.0 as char, tag.1 as char, tag.2 as char, tag.3 as char];
    let hapm = seq!['H', 'a', 'p', 'M'];
    assert(letters[0] == tag.0 as char && letters[1] == tag.1 as char && letters[2] == tag.2 as char && letters[3]
        == tag.3 as char);
    assert(hapm[0] == 'H' && hapm[1] == 'a' && hapm[2] == 'p' && hapm[3] == 'M');
    if textures_in(tag) == 2 {
        assert(letters =~= hapm);
    }
}

/// A new worker has the trim and the speed it was given, and starts with a seek to
/// its in-point.
pub proof fn a_new_worker_starts_at_its_in_point(in_sec: MicroSecs, out_sec: Option<MicroSecs>, speed: Micro)
    requires
        in_sec >= 0,
    ensures
        ({
            let w = Worker::fresh(in_sec, out_sec, speed);
            &&& w.in_sec == in_sec && w.out_sec == out_sec && w.speed == speed
            &&& w.first_pts is None
            &&& w.sought().1 == WorkerAction::Seek(in_sec)
            &&& w.sought().0.first_pts is None
        }),
{
}

/// Of the frames that came from a file the last one is shown; of a camera's, the one
/// that its tap is due.
pub proof fn the_newest_frame_is_shown<T>(s: SourceHandle, ring: Seq<RingFrame<T>>, now: Nanos)
    ensures
        s matches SourceHandle::File(h) ==> {
            &&& h.frames@.len() == 0 ==> s.newest(ring, now) is None
            &&& h.frames@.len() > 0 ==> s.newest(ring, now) == Some(Newest::Frame(h.frames@.last()))
        },
        s matches SourceHandle::Camera(t) ==> {
            &&& t.due(ring, now) is None ==> s.newest(ring, now) is None
            &&& t.due(ring, now) matches Some(i) ==> s.newest(ring, now) == Some(Newest::InRing(i))
        },
{
}

/// A look into the ring finds the newest frame that was there at the moment, and the
/// oldest where none was; an empty ring has none.
pub proof fn the_ring_is_read_at_a_moment<T>(ring: RingState<T>, target: Nanos)
    requires
        ring.frames@.len() <= usize::MAX,
    ensures
        ring.frames@.len() == 0 ==> ring.at(target) is None,
        ring.frames@.len() > 0 ==> ring.at(target) is Some && ring.at(target)->0 < ring.frames@.len() && ring.at(
            target,
        )->0 == newest_until(ring.frames@, target),
{
    if ring.frames@.len() > 0 {
        newest_until_is_newest(ring.frames@, target);
    }
}

/// A pass is timed from the first frame that it handed on, and a frame that could not
/// be read is passed over; nothing else of the worker changes.
pub proof fn a_pass_is_timed_from_its_first_frame(w: Worker, pts: MicroSecs, draining: bool)
    requires
        w.phase == (WorkerPhase::Showing { pts, draining }),
    ensures
        ({
            let (sent, next) = w.step(WorkerEvent::Sent);
            let (unread, after) = w.step(WorkerEvent::Unreadable);
            &&& w.first_pts is None ==> sent.first_pts == Some(pts)
            &&& w.first_pts is Some ==> sent.first_pts == w.first_pts
            &&& next is Receive && after is Receive
            &&& sent.phase == (WorkerPhase::Decoding { draining }) && unread.phase == sent.phase
            &&& unread.first_pts == w.first_pts
            &&& sent.in_sec == w.in_sec && sent.out_sec == w.out_sec && sent.speed == w.speed
            &&& w.step(WorkerEvent::Full { stop: false }) == (w, WorkerAction::Retry)
            &&& w.step(WorkerEvent::Disconnected).1 is Stop
        }),
{
}

/// A worker seeks, reads packets and feeds those of the video to the decoder; when it
/// has no more frame it reads on, and at the end of the clip it starts the next pass.
pub proof fn a_worker_reads_the_clip_through(w: Worker, stop: bool, video: bool, draining: bool)
    requires
        w.first_pts is Some,
        w.in_sec >= 0,
    ensures
        ({
            let resting = Worker { phase: WorkerPhase::Resting, ..w };
            let seeking = Worker { phase: WorkerPhase::Seeking, ..w };
            let reading = Worker { phase: WorkerPhase::Reading, ..w };
            let decoding = Worker { phase: WorkerPhase::Decoding { draining }, ..w };
            &&& resting.step(WorkerEvent::Ready).1 == WorkerAction::Seek(w.in_sec)
            &&& seeking.step(WorkerEvent::Ready) == (reading, WorkerAction::Read)
            &&& reading.step(WorkerEvent::Packet { stop: false, restart: false, video }).1 == if video {
                WorkerAction::Feed
            } else {
                WorkerAction::Read
            }
            &&& reading.step(WorkerEvent::Packet { stop: true, restart: stop, video }).1 is Stop
            &&& reading.step(WorkerEvent::Packet { stop: false, restart: true, video }).1 == WorkerAction::Seek(w.in_sec)
            &&& reading.step(WorkerEvent::EndOfInput).1 is Flush
            &&& decoding.step(WorkerEvent::NoFrame).1 == if draining {
                WorkerAction::Seek(w.in_sec)
            } else {
                WorkerAction::Read
            }
        }),
{
}

/// A bake feeds the packets of the video to the decoder, reads on while it has no
/// frame, and when the source has ended asks for the frames that were held back;
/// after the last of them it closes the output, once and for all.
pub proof fn a_bake_ends_with_its_source(b: Bake, ev: BakeEvent)
    ensures
        ({
            let reading = Bake { phase: BakePhase::Reading, ..b };
            let decoding = Bake { phase: BakePhase::Decoding, ..b };
            let flushing = Bake { phase: BakePhase::Flushing, ..b };
            let done = Bake { phase: BakePhase::Done, ..b };
            &&& reading.step(BakeEvent::Packet { video: true }) == (decoding, BakeAction::Feed)
            &&& reading.step(BakeEvent::Packet { video: false }) == (reading, BakeAction::Read)
            &&& reading.step(BakeEvent::EndOfInput) == (flushing, BakeAction::Flush)
            &&& decoding.step(BakeEvent::NoFrame) == (reading, BakeAction::Read)
            &&& flushing.step(BakeEvent::NoFrame) == (done, BakeAction::Finish)
            &&& done.step(ev) == (done, BakeAction::Finish)
        }),
{
}

/// A frame before the in-point is counted as skipped and not written; one in the span
/// is written under the next number; and either is reported, with its time and the
/// frames written before it.
pub proof fn a_bake_counts_its_frames(b: Bake, src: MicroSecs)
    requires
        b.phase is Decoding || b.phase is Flushing,
        b.skipped < u64::MAX,
        b.emitted < u64::MAX,
    ensures
        ({
            let (after, work) = b.step(BakeEvent::Frame(src));
            &&& src + 1 < b.in_sec ==> after.skipped == b.skipped + 1 && after.emitted == b.emitted && work is Receive
            &&& src >= b.in_sec && (b.out_sec matches Some(o) ==> src < o) ==> after.skipped == b.skipped
                && after.emitted == b.emitted + 1 && work == BakeAction::Write(b.emitted)
            &&& src >= b.in_sec && b.out_sec is Some && src >= b.out_sec->0 ==> work is Finish && after.emitted
                == b.emitted
            &&& b.progress(BakeEvent::Frame(src)) == Some(BakeUpdate { emitted: b.emitted, src_sec: src })
            &&& b.progress(BakeEvent::NoFrame) is None && b.progress(BakeEvent::EndOfInput) is None
        }),
{
}

} // verus!
