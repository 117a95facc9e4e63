//! Beat clock. Everything that is quantised comes from a [`ClockSource`]. All
//! timing derives from host time, never from frame counts, so it survives
//! frame-rate variation.

use vstd::prelude::*;

use crate::units::{
    clamp, clamped, floor_div, floor_mod, nearest_multiple, nearest_multiple_is_close, saturate,
    saturated, snap_to_multiple, Micro, MicroBeats, MicroBpm, Nanos, MICRO,
};

verus! {

/// The beat grid at one instant.
#[derive(Clone, Copy, Debug, PartialEq, Eq, Structural)]
pub struct ClockSnapshot {
    pub bpm: MicroBpm,
    /// Continuous beats since the anchor. Only jumps backwards on a tap or a
    /// phase reset.
    pub beat: MicroBeats,
    /// Position within the quantum.
    pub phase: MicroBeats,
    /// Beats per cycle the source aligns to (a bar).
    pub quantum: MicroBeats,
    pub is_playing: bool,
}

/// What a clock source lets its user change, and how many others share it.
#[derive(Clone, Copy, Debug, PartialEq, Eq, Structural)]
pub struct ClockCaps {
    pub can_set_tempo: bool,
    pub can_set_phase: bool,
    pub peers: u64,
}

/// Lowest tempo a clock accepts.
pub const BPM_MIN: MicroBpm = 20_000_000;

/// Highest tempo a clock accepts.
pub const BPM_MAX: MicroBpm = 999_000_000;

/// A minute in nanoseconds.
pub const NANOS_PER_MINUTE: i128 = 60_000_000_000;

/// The tempo `bpm` multiplied by `1 + ratio`, to the nearest millionth.
pub open spec fn nudged(bpm: int, ratio: int) -> int {
    (bpm * (MICRO + ratio) + 500_000) / 1_000_000
}

/// A requested tempo, brought into the accepted range.
pub fn limit_bpm(bpm: MicroBpm) -> (r: MicroBpm)
    ensures
        r == clamped(bpm as int, BPM_MIN as int, BPM_MAX as int),
{
    clamp(bpm, BPM_MIN, BPM_MAX)
}

/// The tempo `bpm` multiplied by `1 + ratio`, brought into the accepted range.
pub fn nudge(bpm: MicroBpm, ratio: Micro) -> (r: MicroBpm)
    ensures
        r == clamped(nudged(bpm as int, ratio as int), BPM_MIN as int, BPM_MAX as int),
{
    let factor: i128 = MICRO as i128 + ratio as i128;
    proof {
        let b = bpm as int;
        let f = factor as int;
        assert(-0x5000_0000_0000_0000_0000_0000_0000_0000 <= b * f
            <= 0x5000_0000_0000_0000_0000_0000_0000_0000) by (nonlinear_arith)
            requires
                -0x8000_0000_0000_0000 <= b < 0x8000_0000_0000_0000,
                -0x8000_0000_0000_0000 <= f <= 0x8000_0000_0000_0000 + 1_000_000,
        ;
    }
    let scaled: i128 = floor_div(bpm as i128 * factor + 500_000, MICRO as i128);
    if scaled < BPM_MIN as i128 {
        BPM_MIN
    } else if scaled > BPM_MAX as i128 {
        BPM_MAX
    } else {
        scaled as i64
    }
}

/// A source of beats.
pub trait ClockSource {
    /// Whether the source is in a usable state.
    spec fn wf(&self) -> bool;

    /// The grid at host time `now`.
    fn snapshot(&mut self, now: Nanos) -> (r: ClockSnapshot)
        requires
            old(self).wf(),
        ensures
            final(self).wf(),
    ;

    /// Sets the tempo.
    fn set_bpm(&mut self, bpm: MicroBpm, now: Nanos)
        requires
            old(self).wf(),
        ensures
            final(self).wf(),
    ;

    /// Multiplies the tempo by `1 + ratio`.
    fn nudge_bpm(&mut self, ratio: Micro, now: Nanos)
        requires
            old(self).wf(),
        ensures
            final(self).wf(),
    ;

    /// Makes `now` an exact quantum (bar) boundary.
    fn tap_downbeat(&mut self, now: Nanos)
        requires
            old(self).wf(),
        ensures
            final(self).wf(),
    ;

    /// Resets the grid to its origin: bar one, phrase one.
    fn reset(&mut self, now: Nanos)
        requires
            old(self).wf(),
        ensures
            final(self).wf(),
    ;

    /// Sets the length of the cycle.
    fn set_quantum(&mut self, quantum: MicroBeats)
        requires
            old(self).wf(),
            quantum > 0,
        ensures
            final(self).wf(),
    ;

    /// What the source lets its user change.
    fn caps(&self) -> ClockCaps;
}

/// A clock driven by host time alone.
pub struct InternalClock {
    anchor: Nanos,
    bpm: MicroBpm,
    beats_at_anchor: MicroBeats,
    quantum: MicroBeats,
}

/// The mathematical content of an [`InternalClock`].
pub struct InternalClockModel {
    pub anchor: int,
    pub bpm: int,
    pub beats_at_anchor: int,
    pub quantum: int,
}

impl View for InternalClock {
    type V = InternalClockModel;

    closed spec fn view(&self) -> InternalClockModel {
        InternalClockModel {
            anchor: self.anchor as int,
            bpm: self.bpm as int,
            beats_at_anchor: self.beats_at_anchor as int,
            quantum: self.quantum as int,
        }
    }
}

impl InternalClockModel {
    /// Host time since the anchor; none when `now` is before it.
    pub open spec fn elapsed(self, now: int) -> int {
        if now >= self.anchor {
            now - self.anchor
        } else {
            0
        }
    }

    /// The beat at host time `now`.
    pub open spec fn beat_at(self, now: int) -> int {
        saturated(self.beats_at_anchor + self.elapsed(now) * self.bpm / (NANOS_PER_MINUTE as int))
    }

    /// The grid at host time `now`.
    pub open spec fn snapshot_at(self, now: int) -> ClockSnapshot {
        ClockSnapshot {
            bpm: self.bpm as MicroBpm,
            beat: self.beat_at(now) as MicroBeats,
            phase: (self.beat_at(now) % self.quantum) as MicroBeats,
            quantum: self.quantum as MicroBeats,
            is_playing: true,
        }
    }

    /// The clock with the time elapsed until `now` folded into its beats.
    pub open spec fn reanchored(self, now: int) -> InternalClockModel {
        InternalClockModel { anchor: now, beats_at_anchor: self.beat_at(now), ..self }
    }

    /// The clock at another tempo from `now` on.
    pub open spec fn with_bpm(self, bpm: int, now: int) -> InternalClockModel {
        InternalClockModel {
            bpm: clamped(bpm, BPM_MIN as int, BPM_MAX as int),
            ..self.reanchored(now)
        }
    }

    /// The clock at its tempo times `1 + ratio` from `now` on.
    pub open spec fn nudged_by(self, ratio: int, now: int) -> InternalClockModel {
        self.with_bpm(nudged(self.bpm, ratio), now)
    }

    /// The clock with `now` as its beat zero.
    pub open spec fn restarted(self, now: int) -> InternalClockModel {
        InternalClockModel { anchor: now, beats_at_anchor: 0, ..self }
    }

    /// The clock with bars of another length.
    pub open spec fn with_quantum(self, quantum: int) -> InternalClockModel {
        InternalClockModel { quantum, ..self }
    }

    /// A clock whose beat zero is `now`.
    pub open spec fn starting(bpm: int, quantum: int, now: int) -> InternalClockModel {
        InternalClockModel { anchor: now, bpm, beats_at_anchor: 0, quantum }
    }

    /// A clock that carries on at `now` from another clock's snapshot.
    pub open spec fn carrying_on(s: ClockSnapshot, now: int) -> InternalClockModel {
        InternalClockModel {
            anchor: now,
            bpm: s.bpm as int,
            beats_at_anchor: s.beat as int,
            quantum: s.quantum as int,
        }
    }

    /// The clock with the beat at `now` moved to the nearest quantum multiple.
    pub open spec fn tapped(self, now: int) -> InternalClockModel {
        InternalClockModel {
            beats_at_anchor: saturated(nearest_multiple(self.beat_at(now), self.quantum)),
            ..self.reanchored(now)
        }
    }
}

impl InternalClock {
    /// A clock whose beat zero is `now`.
    pub fn new(bpm: MicroBpm, quantum: MicroBeats, now: Nanos) -> (r: InternalClock)
        requires
            quantum > 0,
        ensures
            r.wf(),
            r@ == InternalClockModel::starting(bpm as int, quantum as int, now as int),
    {
        InternalClock { anchor: now, bpm, beats_at_anchor: 0, quantum }
    }

    /// A clock that carries on from another clock's snapshot.
    pub fn from_snapshot(s: &ClockSnapshot, now: Nanos) -> (r: InternalClock)
        requires
            s.quantum > 0,
        ensures
            r.wf(),
            r@ == InternalClockModel::carrying_on(*s, now as int),
    {
        InternalClock { anchor: now, bpm: s.bpm, beats_at_anchor: s.beat, quantum: s.quantum }
    }

    fn beat_now(&self, now: Nanos) -> (r: MicroBeats)
        ensures
            r == self@.beat_at(now as int),
    {
        let elapsed: u64 = if now >= self.anchor {
            now - self.anchor
        } else {
            0
        };
        proof {
            let e = elapsed as int;
            let b = self.bpm as int;
            assert(-0x8000_0000_0000_0000_0000_0000_0000_0000 <= e * b
                <= 0x7fff_ffff_ffff_ffff_ffff_ffff_ffff_ffff) by (nonlinear_arith)
                requires
                    0 <= e <= 0xffff_ffff_ffff_ffff,
                    -0x8000_0000_0000_0000 <= b <= 0x7fff_ffff_ffff_ffff,
            ;
        }
        let run: i128 = floor_div(elapsed as i128 * self.bpm as i128, NANOS_PER_MINUTE);
        saturate(self.beats_at_anchor as i128 + run)
    }

    /// Folds elapsed time into the beats at the old tempo and moves the anchor
    /// to `now`, so that a tempo change cannot re-price time already elapsed.
    fn reanchor(&mut self, now: Nanos)
        ensures
            final(self)@ == old(self)@.reanchored(now as int),
    {
        self.beats_at_anchor = self.beat_now(now);
        self.anchor = now;
    }
}

impl ClockSource for InternalClock {
    /// The bar has a length that can be counted.
    open spec fn wf(&self) -> bool {
        0 < self@.quantum <= i64::MAX
    }

    fn snapshot(&mut self, now: Nanos) -> (r: ClockSnapshot)
        ensures
            r == old(self)@.snapshot_at(now as int),
            final(self)@ == old(self)@,
            r.quantum > 0,
    {
        let beat: i64 = self.beat_now(now);
        ClockSnapshot {
            bpm: self.bpm,
            beat,
            phase: floor_mod(beat, self.quantum),
            quantum: self.quantum,
            is_playing: true,
        }
    }

    fn set_bpm(&mut self, bpm: MicroBpm, now: Nanos)
        ensures
            final(self)@ == old(self)@.with_bpm(bpm as int, now as int),
    {
        self.reanchor(now);
        self.bpm = limit_bpm(bpm);
    }

    fn nudge_bpm(&mut self, ratio: Micro, now: Nanos)
        ensures
            final(self)@ == old(self)@.nudged_by(ratio as int, now as int),
    {
        self.reanchor(now);
        self.bpm = nudge(self.bpm, ratio);
    }

    /// Rounds the current beat to the nearest quantum multiple: a tap shortly
    /// after the true downbeat snaps back rather than jumping a bar forward.
    fn tap_downbeat(&mut self, now: Nanos)
        ensures
            final(self)@ == old(self)@.tapped(now as int),
            ({
                let before = old(self)@.beat_at(now as int);
                let after = final(self)@.beat_at(now as int);
                let bar = old(self)@.quantum;
                i64::MIN + bar <= before <= i64::MAX - bar ==> {
                    &&& after % bar == 0
                    &&& 2 * (after - before) <= bar
                    &&& 2 * (before - after) <= bar
                }
            }),
    {
        proof {
            let before = self@.beat_at(now as int);
            nearest_multiple_is_close(before, self@.quantum);
            if i64::MIN + self@.quantum <= before <= i64::MAX - self@.quantum {
                tap_lands_on_a_boundary(self@, now as int);
            }
        }
        self.reanchor(now);
        self.beats_at_anchor = snap_to_multiple(self.beats_at_anchor, self.quantum);
    }

    fn reset(&mut self, now: Nanos)
        ensures
            final(self)@ == old(self)@.restarted(now as int),
    {
        self.anchor = now;
        self.beats_at_anchor = 0;
    }

    fn set_quantum(&mut self, quantum: MicroBeats)
        ensures
            final(self)@ == old(self)@.with_quantum(quantum as int),
    {
        self.quantum = quantum;
    }

    fn caps(&self) -> (r: ClockCaps)
        ensures
            r == (ClockCaps { can_set_tempo: true, can_set_phase: true, peers: 0 }),
    {
        ClockCaps { can_set_tempo: true, can_set_phase: true, peers: 0 }
    }
}

/// A tempo change never moves the beat: what the clock read at `now` before
/// the change it reads after it.
pub proof fn tempo_change_is_continuous(clock: InternalClockModel, bpm: int, now: int)
    ensures
        clock.with_bpm(bpm, now).beat_at(now) == clock.beat_at(now),
        BPM_MIN <= clock.with_bpm(bpm, now).bpm <= BPM_MAX,
{
    let after = clock.with_bpm(bpm, now);
    assert(after.elapsed(now) == 0);
    assert(0 * after.bpm == 0);
}

/// A tap puts `now` on a bar boundary, moving the beat by at most half a bar, at
/// the same tempo and bar length. Beats that would leave the representable range
/// are left out.
pub proof fn tap_lands_on_a_boundary(clock: InternalClockModel, now: int)
    requires
        clock.quantum > 0,
        saturated(nearest_multiple(clock.beat_at(now), clock.quantum))
            == nearest_multiple(clock.beat_at(now), clock.quantum),
    ensures
        clock.tapped(now).beat_at(now) % clock.quantum == 0,
        2 * (clock.tapped(now).beat_at(now) - clock.beat_at(now)) <= clock.quantum,
        2 * (clock.beat_at(now) - clock.tapped(now).beat_at(now)) <= clock.quantum,
        clock.tapped(now).bpm == clock.bpm,
        clock.tapped(now).quantum == clock.quantum,
{
    let after = clock.tapped(now);
    assert(after.elapsed(now) == 0);
    assert(0 * after.bpm == 0);
    nearest_multiple_is_close(clock.beat_at(now), clock.quantum);
}

/// A reset makes `now` beat zero.
pub proof fn reset_is_the_origin(clock: InternalClockModel, now: int)
    ensures
        clock.restarted(now).beat_at(now) == 0,
        clock.restarted(now).bpm == clock.bpm,
        clock.restarted(now).quantum == clock.quantum,
{
    assert(0 * clock.bpm == 0);
}

/// A clock that carries on from a snapshot reads the same there: the beat, the
/// tempo and the bar. A new one starts at beat zero with the tempo and the bar it
/// was given.
pub proof fn a_clock_carries_on(s: ClockSnapshot, bpm: int, quantum: int, now: int)
    ensures
        InternalClockModel::carrying_on(s, now).beat_at(now) == s.beat,
        InternalClockModel::carrying_on(s, now).bpm == s.bpm,
        InternalClockModel::carrying_on(s, now).quantum == s.quantum,
        InternalClockModel::starting(bpm, quantum, now).beat_at(now) == 0,
        InternalClockModel::starting(bpm, quantum, now).bpm == bpm,
        InternalClockModel::starting(bpm, quantum, now).quantum == quantum,
{
    assert(0 * s.bpm as int == 0);
    assert(0 * bpm == 0);
}

/// A new bar length moves neither the beat nor the tempo.
pub proof fn a_new_bar_keeps_the_beat(clock: InternalClockModel, quantum: int, now: int)
    ensures
        clock.with_quantum(quantum).quantum == quantum,
        clock.with_quantum(quantum).beat_at(now) == clock.beat_at(now),
        clock.with_quantum(quantum).bpm == clock.bpm,
{
}

/// A nudge moves no beat, and changes the tempo by its ratio, to the nearest
/// millionth.
pub proof fn a_nudge_changes_the_tempo_alone(clock: InternalClockModel, ratio: int, now: int)
    requires
        20_000_000 * 1_000_000 <= clock.bpm * (1_000_000 + ratio) <= 999_000_000 * 1_000_000,
    ensures
        ({
            let after = clock.nudged_by(ratio, now);
            &&& after.beat_at(now) == clock.beat_at(now)
            &&& after.quantum == clock.quantum
            &&& -500_000 < after.bpm * 1_000_000 - clock.bpm * (1_000_000 + ratio) <= 500_000
        }),
{
    tempo_change_is_continuous(clock, nudged(clock.bpm, ratio), now);
}

/// Time never moves the beat backwards at a non-negative tempo.
pub proof fn beat_advances_with_time(clock: InternalClockModel, earlier: int, later: int)
    requires
        clock.bpm >= 0,
        earlier <= later,
    ensures
        clock.beat_at(earlier) <= clock.beat_at(later),
{
    let a = clock.elapsed(earlier);
    let b = clock.elapsed(later);
    assert(a * clock.bpm <= b * clock.bpm) by (nonlinear_arith)
        requires
            a <= b,
            clock.bpm >= 0,
    ;
}

/// Detects when the beat crosses a boundary of a grid, tolerating the backward
/// jumps a tap can cause.
pub struct BoundaryTracker {
    prev_beat: Option<MicroBeats>,
}

/// How far the beat may step back without counting as a jump.
pub const BACKWARD_EPS: i64 = 1;

/// An index as an unsigned number; negative ones wrap round.
pub open spec fn unsigned_index(i: int) -> int {
    if i < 0 {
        i + u64::MAX + 1
    } else {
        i
    }
}

/// What a tracker last at `prev` reports on seeing `cur`.
pub open spec fn crossing(prev: Option<int>, cur: int, grid: int) -> Option<int> {
    match prev {
        Some(p) => if cur >= p - BACKWARD_EPS && cur / grid > p / grid {
            Some(cur / grid)
        } else {
            None
        },
        None => None,
    }
}

impl View for BoundaryTracker {
    type V = Option<int>;

    /// The last beat seen since the last reset.
    closed spec fn view(&self) -> Option<int> {
        match self.prev_beat {
            Some(b) => Some(b as int),
            None => None,
        }
    }
}

impl BoundaryTracker {
    /// A tracker that has seen nothing.
    pub fn new() -> (r: BoundaryTracker)
        ensures
            r@ is None,
    {
        BoundaryTracker { prev_beat: None }
    }

    /// Returns the index of the grid cell entered, once per crossing. The first
    /// beat seen only primes the tracker; a backward jump resynchronises it.
    pub fn crossed(&mut self, cur_beat: MicroBeats, phrase_len: MicroBeats) -> (r: Option<u64>)
        requires
            phrase_len > 0,
        ensures
            final(self)@ == Some(cur_beat as int),
            match crossing(old(self)@, cur_beat as int, phrase_len as int) {
                Some(i) => r matches Some(n) && n == unsigned_index(i),
                None => r is None,
            },
    {
        let prev = self.prev_beat;
        self.prev_beat = Some(cur_beat);
        match prev {
            None => None,
            Some(p) => {
                if (cur_beat as i128) < p as i128 - BACKWARD_EPS as i128 {
                    return None;
                }
                let prev_idx: i128 = floor_div(p as i128, phrase_len as i128);
                let cur_idx: i128 = floor_div(cur_beat as i128, phrase_len as i128);
                if cur_idx <= prev_idx {
                    return None;
                }
                proof {
                    let c = cur_beat as int;
                    let l = phrase_len as int;
                    assert(-0x8000_0000_0000_0000 <= c / l <= 0x7fff_ffff_ffff_ffff) by (nonlinear_arith)
                        requires
                            -0x8000_0000_0000_0000 <= c <= 0x7fff_ffff_ffff_ffff,
                            l > 0,
                    ;
                }
                if cur_idx >= 0 {
                    Some(cur_idx as u64)
                } else {
                    Some(u64::MAX - (-(cur_idx + 1)) as u64)
                }
            },
        }
    }

    /// Forgets the last beat: call on pause, on a change of sync source, or on
    /// a change of grid.
    pub fn reset(&mut self)
        ensures
            final(self)@ is None,
    {
        self.prev_beat = None;
    }
}

impl Default for BoundaryTracker {
    fn default() -> (r: Self)
        ensures
            r@ is None,
    {
        BoundaryTracker::new()
    }
}

/// Two looks at the same grid cell never report twice, a step back never
/// reports, and a step forward reports if and only if it leaves the cell.
pub proof fn a_boundary_is_reported_once(p: int, cur: int, next: int, grid: int)
    requires
        grid > 0,
    ensures
        crossing(None, cur, grid) is None,
        cur <= p ==> crossing(Some(p), cur, grid) is None,
        cur >= p ==> (crossing(Some(p), cur, grid) is Some <==> cur / grid != p / grid),
        next / grid == cur / grid ==> crossing(Some(cur), next, grid) is None,
        crossing(Some(p), cur, grid) matches Some(i) ==> i * grid <= cur < (i + 1) * grid,
        crossing(Some(p), cur, grid) matches Some(i) ==> (i >= 0 ==> unsigned_index(i) == i),
{
    let k = cur / grid;
    assert(k * grid <= cur < (k + 1) * grid) by (nonlinear_arith)
        requires
            grid > 0,
            k == cur / grid,
    ;
    assert(p <= cur ==> p / grid <= cur / grid) by (nonlinear_arith)
        requires
            grid > 0,
    ;
    assert(cur <= p ==> cur / grid <= p / grid) by (nonlinear_arith)
        requires
            grid > 0,
    ;
}

} // verus!
