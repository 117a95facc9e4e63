//! What the tempo, the signature and the lengths that are set amount to in beats
//! and seconds.

use vstd::prelude::*;

use crate::app::{events_touch_only_playback, AppModel, EffectModel};
use crate::bank::{CueId, CueModel};
use crate::clock::{ClockSnapshot, InternalClockModel};
use crate::commands::{bar_ticks_measure_the_quantum, Cadence, Command, SyncKind, TimeSig};
use crate::engine::{bootable, Boot};
use crate::sequencer::{operations_are_orderly, successor, SeqModel, SeqState, SequencerEvent};
use crate::units::{MicroBpm, Nanos};

verus! {

/// A tap of the tempo key measures the tempo: with the taps that count, which are
/// at most eight and none of them after a gap of more than two seconds, the tempo
/// times the time from the first to the last is the number of intervals between
/// them, in minutes; the tempo stays between 20 and 1000. Nothing else changes.
pub proof fn taps_measure_the_tempo(m: AppModel, clock_bpm: MicroBpm, now: Nanos)
    requires
        m.wf(),
    ensures
        ({
            let after = m.commanded(Command::TapTempo, clock_bpm, now);
            let times = after.0.tap_times;
            let n = times.len();
            let span = now - times[0];
            let had = m.tap_times;
            let stale = had.len() > 0 && now - had.last() > 2_000_000_000;
            &&& after.0 == (AppModel { tap_times: times, ..m })
            &&& stale ==> times == seq![now]
            &&& !stale && had.len() < 8 ==> times == had.push(now)
            &&& !stale && had.len() == 8 ==> times == had.skip(1).push(now)
            &&& n >= 2 && span > 0 ==> {
                &&& after.1.len() == 1
                &&& after.1[0] matches EffectModel::SetBpm(b) && measures(b as int, n - 1, span)
            }
            &&& n < 2 || span <= 0 ==> after.1.len() == 0
        }),
{
    let after = m.commanded(Command::TapTempo, clock_bpm, now);
    let times = after.0.tap_times;
    let all = m.tap_times.push(now);
    if all.len() > 8 {
        assert(all.skip(1) =~= m.tap_times.skip(1).push(now));
    }
    let n = times.len();
    if n >= 2 && now > times[0] {
        let span = now - times[0];
        rates_are_measured(n - 1, span);
    }
}

/// Whether a tempo in millionths of a beat per minute is the one of `beats` beats
/// in `nanos` nanoseconds, rounded down, within the limits of a tap.
pub open spec fn measures(bpm: int, beats: int, nanos: int) -> bool {
    &&& 20_000_000 <= bpm <= 1_000_000_000
    &&& bpm > 20_000_000 ==> bpm * nanos <= beats * 60_000_000_000_000_000
    &&& bpm < 1_000_000_000 ==> (bpm + 1) * nanos > beats * 60_000_000_000_000_000
}

proof fn rates_are_measured(beats: int, nanos: int)
    requires
        nanos > 0,
        beats >= 0,
    ensures
        measures(
            crate::units::clamped(60_000_000_000_000_000 * beats / nanos, 20_000_000, 1_000_000_000),
            beats,
            nanos,
        ),
{
    let total = 60_000_000_000_000_000 * beats;
    let q = total / nanos;
    let b = crate::units::clamped(q, 20_000_000, 1_000_000_000);
    vstd::arithmetic::div_mod::lemma_fundamental_div_mod(total, nanos);
    assert(q * nanos == nanos * q) by (nonlinear_arith);
    assert((q + 1) * nanos == nanos * q + nanos) by (nonlinear_arith);
    if b > 20_000_000 {
        assert(b * nanos <= q * nanos) by (nonlinear_arith)
            requires
                b <= q,
                nanos > 0,
        ;
    }
    if b < 1_000_000_000 {
        assert((b + 1) * nanos >= (q + 1) * nanos) by (nonlinear_arith)
            requires
                b >= q,
                nanos > 0,
        ;
    }
}

/// The state after `n` taps of the tempo key, `gap` nanoseconds apart.
pub open spec fn tapped_steadily(m: AppModel, first: int, gap: int, n: nat) -> AppModel
    decreases n,
{
    if n == 0 {
        m
    } else {
        tapped_steadily(m, first, gap, (n - 1) as nat).commanded(
            Command::TapTempo,
            0,
            (first + (n - 1) * gap) as Nanos,
        ).0
    }
}

proof fn steady_taps_count(m: AppModel, first: int, gap: int, n: nat)
    requires
        m.wf(),
        m.tap_times.len() == 0,
        0 <= first,
        0 < gap <= 2_000_000_000,
        n > 0 ==> first + (n - 1) * gap <= u64::MAX,
    ensures
        ({
            let after = tapped_steadily(m, first, gap, n);
            let times = after.tap_times;
            &&& after.wf()
            &&& times.len() == if n < 8 {
                n
            } else {
                8
            }
            &&& forall|j: int|
                0 <= j < times.len() ==> #[trigger] times[j] == first + (n - times.len() + j) * gap
        }),
    decreases n,
{
    if n > 0 {
        if n > 1 {
            assert((n - 2) * gap <= (n - 1) * gap) by (nonlinear_arith)
                requires
                    gap > 0,
            ;
        }
        let k = (n - 1) as nat;
        steady_taps_count(m, first, gap, k);
        let before = tapped_steadily(m, first, gap, k);
        let now = (first + (n - 1) * gap) as Nanos;
        assert((n - 1) * gap >= 0) by (nonlinear_arith)
            requires
                gap > 0,
                n >= 1,
        ;
        taps_measure_the_tempo(before, 0, now);
        if k > 0 {
            let had = before.tap_times;
            assert(had.last() == first + (k - had.len() + (had.len() - 1)) * gap);
            assert(now - had.last() == gap) by (nonlinear_arith)
                requires
                    now == first + (n - 1) * gap,
                    had.last() == first + (k - 1) * gap,
                    k == n - 1,
            ;
        }
        let times = tapped_steadily(m, first, gap, n).tap_times;
        assert forall|j: int| 0 <= j < times.len() implies #[trigger] times[j] == first + (n - times.len() + j) * gap by {
            let had = before.tap_times;
            if had.len() < 8 {
                if j < had.len() {
                    assert(times[j] == had[j]);
                }
            } else {
                if j < 7 {
                    assert(times[j] == had[j + 1]);
                    assert(k - had.len() + (j + 1) == n - times.len() + j);
                }
            }
        }
    }
}

/// Steady taps set their tempo, however many there are: from the second on, each
/// sets 60 seconds over the gap between them, within the limits.
pub proof fn steady_taps_set_their_tempo(m: AppModel, first: int, gap: int, n: nat)
    requires
        m.wf(),
        m.tap_times.len() == 0,
        0 <= first,
        0 < gap <= 2_000_000_000,
        n >= 2,
        first + (n - 1) * gap <= u64::MAX,
    ensures
        ({
            let last = tapped_steadily(m, first, gap, (n - 1) as nat).commanded(
                Command::TapTempo,
                0,
                (first + (n - 1) * gap) as Nanos,
            );
            &&& last.1.len() == 1
            &&& last.1[0] matches EffectModel::SetBpm(b) && measures(b as int, 1, gap)
        }),
{
    let k = (n - 1) as nat;
    assert((n - 2) * gap <= (n - 1) * gap && (n - 1) * gap >= 0) by (nonlinear_arith)
        requires
            gap > 0,
            n >= 2,
    ;
    steady_taps_count(m, first, gap, k);
    steady_taps_count(m, first, gap, n);
    let before = tapped_steadily(m, first, gap, k);
    let now = (first + (n - 1) * gap) as Nanos;
    taps_measure_the_tempo(before, 0, now);
    let times = tapped_steadily(m, first, gap, n).tap_times;
    let c = times.len() - 1;
    let span = now - times[0];
    assert(times[0] == first + (n - times.len() + 0) * gap);
    assert(span == c * gap) by (nonlinear_arith)
        requires
            span == now - times[0],
            now == first + (n - 1) * gap,
            times[0] == first + (n - times.len() + 0) * gap,
            c == times.len() - 1,
    ;
    assert(c * gap > 0) by (nonlinear_arith)
        requires
            c >= 1,
            gap > 0,
    ;
    let last = before.commanded(Command::TapTempo, 0, now);
    let b = last.1[0]->SetBpm_0 as int;
    assert(b * span == c * (b * gap)) by (nonlinear_arith)
        requires
            span == c * gap,
    ;
    assert((b + 1) * span == c * ((b + 1) * gap)) by (nonlinear_arith)
        requires
            span == c * gap,
    ;
    let one = 60_000_000_000_000_000int;
    if b > 20_000_000 {
        assert(b * gap <= one) by (nonlinear_arith)
            requires
                c * (b * gap) <= c * one,
                c >= 1,
        ;
    }
    if b < 1_000_000_000 {
        assert((b + 1) * gap > one) by (nonlinear_arith)
            requires
                c * ((b + 1) * gap) > c * one,
                c >= 1,
        ;
    }
}

proof fn grid_after(m: AppModel)
    ensures
        ({
            let s = m.cadences_applied().0;
            &&& s.time_sig == m.time_sig
            &&& s.seq.phrase_len == crate::sequencer::phrase_floor(
                crate::engine::cadence_beats(m.phrase_cadence, m.time_sig),
            )
            &&& s.loop_len == crate::engine::loop_ticks(m.loop_cadence, m.time_sig)
        }),
{
    let step = m.seq.with_phrase_len(crate::engine::cadence_beats(m.phrase_cadence, m.time_sig));
    events_touch_only_playback(AppModel { seq: step.0, ..m }, step.1);
}

/// Whether a length in millionths of a beat is that of a cadence under a
/// signature: bars of `num / den`, or 32nds of a beat.
pub open spec fn lasts(c: Cadence, ts: TimeSig, beats: int) -> bool {
    match c {
        Cadence::Bars(n) => beats * ts.den == n * (ts.num * 4_000_000),
        Cadence::Note(t) => beats * 32 == t * 1_000_000,
    }
}

proof fn cadences_last(c: Cadence, ts: TimeSig)
    requires
        ts.valid(),
        c.fits(ts),
    ensures
        lasts(c, ts, crate::engine::cadence_beats(c, ts) as int),
        c.spec_ticks(ts) >= 0,
        32 * crate::engine::cadence_beats(c, ts) == c.spec_ticks(ts) * 1_000_000,
{
    bar_ticks_measure_the_quantum(ts);
    if let Cadence::Bars(n) = c {
        let bar = ts.spec_bar_ticks();
        let (k, d, num) = (n as int, ts.den as int, ts.num as int);
        assert(0 <= k * bar) by (nonlinear_arith)
            requires
                bar > 0,
                k >= 0,
        ;
        assert(k * bar * 31_250 * d == k * (num * 4_000_000)) by (nonlinear_arith)
            requires
                bar * d == num * 128,
        ;
    }
}

/// Whether the grids of a state are those that its cadences ask for: the phrase
/// has the length of its cadence, but at least a beat, and the re-loop grid that
/// of its own, if it has one.
pub open spec fn on_its_grids(m: AppModel) -> bool {
    let phrase = m.seq.phrase_len as int;
    &&& lasts(m.phrase_cadence, m.time_sig, phrase) || phrase == 1_000_000 && exists|b: int|
        0 <= b < 1_000_000 && #[trigger] lasts(m.phrase_cadence, m.time_sig, b)
    &&& (m.loop_cadence is Some) == (m.loop_len is Some)
    &&& m.loop_cadence matches Some(c) ==> exists|b: int|
        32 * b == m.loop_len->0 * 1_000_000 && #[trigger] lasts(c, m.time_sig, b)
}

proof fn applied_cadences_are_on_the_grids(m: AppModel)
    requires
        m.time_sig.valid(),
        m.phrase_cadence.fits(m.time_sig),
        m.loop_cadence matches Some(c) ==> c.fits(m.time_sig),
    ensures
        on_its_grids(m.cadences_applied().0),
{
    grid_after(m);
    cadences_stay(m);
    let s = m.cadences_applied().0;
    cadences_last(m.phrase_cadence, m.time_sig);
    let b = crate::engine::cadence_beats(m.phrase_cadence, m.time_sig) as int;
    assert(lasts(s.phrase_cadence, s.time_sig, b));
    if let Some(c) = m.loop_cadence {
        cadences_last(c, m.time_sig);
        let l = crate::engine::cadence_beats(c, m.time_sig) as int;
        assert(lasts(c, s.time_sig, l));
        assert(s.loop_len->0 == c.spec_ticks(m.time_sig));
    }
}

proof fn cadences_stay(m: AppModel)
    ensures
        m.cadences_applied().0.phrase_cadence == m.phrase_cadence,
        m.cadences_applied().0.loop_cadence == m.loop_cadence,
        m.cadences_applied().0.banks == m.banks,
        m.cadences_applied().0.current == m.current || m.seq.armed() is Some,
{
    let step = m.seq.with_phrase_len(crate::engine::cadence_beats(m.phrase_cadence, m.time_sig));
    events_touch_only_playback(AppModel { seq: step.0, ..m }, step.1);
    if step.1.len() == 0 {
        assert(step.1 =~= Seq::<SequencerEvent>::empty());
    }
}

/// A length or a signature that is set is in force at once: the phrase and the
/// re-loop grid have the lengths that the cadences ask for under the signature,
/// and a signature sets the clock's bar to its own.
pub proof fn lengths_that_are_set_are_in_force(
    m: AppModel,
    phrase: Cadence,
    re: Option<Cadence>,
    ts: TimeSig,
    clock_bpm: MicroBpm,
    now: Nanos,
)
    requires
        m.wf(),
        m.admits(Command::SetPhraseCadence(phrase)),
        m.admits(Command::SetLoopCadence(re)),
        m.admits(Command::SetTimeSig(ts)),
        ts.num >= 1,
        ts.den == 1 || ts.den == 2 || ts.den == 4 || ts.den == 8 || ts.den == 16,
    ensures
        ({
            let a = m.commanded(Command::SetPhraseCadence(phrase), clock_bpm, now).0;
            let b = m.commanded(Command::SetLoopCadence(re), clock_bpm, now).0;
            let c = m.commanded(Command::SetTimeSig(ts), clock_bpm, now);
            &&& a.phrase_cadence == phrase && a.loop_cadence == m.loop_cadence && a.time_sig == m.time_sig
            &&& on_its_grids(a)
            &&& b.loop_cadence == re && b.phrase_cadence == m.phrase_cadence && b.time_sig == m.time_sig
            &&& on_its_grids(b)
            &&& c.0.time_sig == ts && c.0.phrase_cadence == m.phrase_cadence && c.0.loop_cadence == m.loop_cadence
            &&& on_its_grids(c.0)
            &&& c.1.len() > 0
            &&& c.1[0] matches EffectModel::SetQuantum(q) && q * ts.den == ts.num * 4_000_000
        }),
{
    let pa = AppModel { phrase_cadence: phrase, ..m };
    let pb = AppModel { loop_cadence: re, ..m };
    let pc = AppModel { time_sig: ts.spec_sanitized(), ..m };
    applied_cadences_are_on_the_grids(pa);
    applied_cadences_are_on_the_grids(pb);
    applied_cadences_are_on_the_grids(pc);
    cadences_stay(pa);
    cadences_stay(pb);
    cadences_stay(pc);
    grid_after(pa);
    grid_after(pb);
    grid_after(pc);
    let n = ts.num as int * 4_000_000;
    assert(n / 1 * 1 == n && n / 2 * 2 == n && n / 4 * 4 == n && n / 8 * 8 == n && n / 16 * 16 == n);
    assert(on_its_grids(m.commanded(Command::SetPhraseCadence(phrase), clock_bpm, now).0));
    let c = m.commanded(Command::SetTimeSig(ts), clock_bpm, now).0;
    let cc = pc.cadences_applied().0;
    assert(on_its_grids(cc));
    assert(c.seq.phrase_len == cc.seq.phrase_len);
    assert(on_its_grids(c));
}

/// The next cue of the rotation is armed once at most four beats are left to the
/// end of the phrase, for exactly that beat; before, nothing happens.
pub proof fn the_next_cue_is_armed_a_bar_early(m: SeqModel, beat: int, i: int)
    requires
        m.wf(),
        i64::MIN <= beat <= i64::MAX,
        m.active.no_duplicates(),
        m.active.len() >= 2,
        0 <= i < m.active.len(),
        m.state == (SeqState::Playing { cue: m.active[i] }),
    ensures
        ({
            let len = m.phrase_len as int;
            let left = len - beat % len;
            let next = m.active[(i + 1) % m.active.len() as int];
            let after = m.tick(beat, true);
            &&& left <= 4_000_000 ==> after.1 == seq![SequencerEvent::ArmDecoder(next)] && after.0.state == (
            SeqState::PlayingArmed { cue: m.active[i], next, fire_at_beat: (beat + left) as i128 })
            &&& left > 4_000_000 ==> after.1.len() == 0 && after.0.state == m.state
            &&& after.0.prev_beat == Some(beat)
            &&& after.0.active == m.active
        }),
{
    let len = m.phrase_len as int;
    let n = m.active.len() as int;
    vstd::arithmetic::div_mod::lemma_fundamental_div_mod(beat, len);
    assert((beat / len + 1) * len == len * (beat / len) + len) by (nonlinear_arith);
    crate::seqs::first_at_is(m.active, crate::sequencer::is_cue(m.active[i]), i);
    if i + 1 < n {
        vstd::arithmetic::div_mod::lemma_small_mod((i + 1) as nat, n as nat);
    } else {
        vstd::arithmetic::div_mod::lemma_mod_self_0(n);
    }
    assert(m.active[(i + 1) % n] != m.active[i]);
}

/// The armed cue cuts in on the phrase boundary: of two frames that follow each
/// other, the second cuts exactly when it lies in a later phrase. A frame that
/// jumps back past the arm point aims at the boundary ahead of it.
pub proof fn the_armed_cue_cuts_in_on_the_boundary(m: SeqModel, earlier: int, later: int)
    requires
        m.wf(),
        i64::MIN <= later <= i64::MAX,
        m.prev_beat == Some(earlier),
        m.state matches SeqState::PlayingArmed { fire_at_beat, .. } && fire_at_beat as int % m.phrase_len as int == 0
            && earlier < fire_at_beat <= earlier + m.phrase_len,
    ensures
        ({
            let len = m.phrase_len as int;
            let after = m.tick(later, true).0;
            &&& earlier <= later && later / len > earlier / len ==> after.playing() == m.armed() && after.armed() is None
            &&& earlier <= later && later / len == earlier / len ==> after.state == m.state
            &&& later < earlier ==> after.playing() == m.playing() && after.armed() == m.armed()
            &&& later < earlier ==> (after.state matches SeqState::PlayingArmed { fire_at_beat, .. }
                && fire_at_beat as int % len == 0 && later < fire_at_beat <= later + len)
        }),
{
    let len = m.phrase_len as int;
    if let SeqState::PlayingArmed { cue, next, fire_at_beat } = m.state {
        let f = fire_at_beat as int;
        vstd::arithmetic::div_mod::lemma_fundamental_div_mod(f, len);
        vstd::arithmetic::div_mod::lemma_fundamental_div_mod(earlier, len);
        vstd::arithmetic::div_mod::lemma_fundamental_div_mod(later, len);
        let (k, i, j) = (f / len, earlier / len, later / len);
        assert(k == i + 1) by (nonlinear_arith)
            requires
                f == len * k,
                earlier == len * i + earlier % len,
                0 <= earlier % len < len,
                earlier < f <= earlier + len,
                len > 0,
        ;
        assert((later >= f) == (j >= k)) by (nonlinear_arith)
            requires
                f == len * k,
                later == len * j + later % len,
                0 <= later % len < len,
                len > 0,
        ;
        assert(later < earlier ==> j <= i) by (nonlinear_arith)
            requires
                earlier == len * i + earlier % len,
                0 <= earlier % len < len,
                later == len * j + later % len,
                0 <= later % len < len,
                len > 0,
        ;
        assert((j + 1) * len == len * j + len) by (nonlinear_arith);
        assert((j + 1) * len % len == 0) by {
            vstd::arithmetic::div_mod::lemma_mod_multiples_basic(j + 1, len);
        }
    }
}

/// In simple mode a frame of the clock shows what the phrase grid says: the next
/// cue of the rotation is armed in the last four beats of the phrase, and the
/// output changes from one cue to the other on the boundary.
pub proof fn simple_frames_follow_the_phrase(m: AppModel, snap: ClockSnapshot, earlier: int, i: int)
    requires
        m.wf(),
        !m.advanced,
        snap.is_playing,
        m.seq.active.no_duplicates(),
        m.seq.active.len() >= 2,
        0 <= i < m.seq.active.len(),
        m.current == Some(m.seq.active[i]),
    ensures
        ({
            let after = m.ticked(snap).0;
            let len = m.seq.phrase_len as int;
            let left = len - snap.beat as int % len;
            let next = m.seq.active[(i + 1) % m.seq.active.len() as int];
            &&& m.seq.armed() is None ==> after.current == m.current && after.seq.armed() == if left <= 4_000_000 {
                Some(next)
            } else {
                None
            }
            &&& m.seq.state matches SeqState::PlayingArmed { fire_at_beat, .. } ==> (m.seq.prev_beat == Some(earlier)
                && fire_at_beat as int % len == 0 && earlier < fire_at_beat <= earlier + len && earlier <= snap.beat
                ==> after.current == if snap.beat as int / len > earlier / len {
                m.seq.armed()
            } else {
                m.current
            })
        }),
{
    let beat = snap.beat as int;
    let steps = m.own_steps();
    let mid = AppModel { last_beat: snap.beat, last_bpm: snap.bpm, ..m };
    crate::sequencer::equal_dwells_make_the_phrase_grid(m.seq, steps, beat, true);
    operations_are_orderly(m.seq, beat, true, 0, seq![], 0, steps);
    crate::app::playback_follows_the_sequencer(mid, m.seq.stepped(steps, beat, true));
    if m.seq.armed() is None {
        the_next_cue_is_armed_a_bar_early(m.seq, beat, i);
    }
    if let SeqState::PlayingArmed { fire_at_beat, .. } = m.seq.state {
        let len = m.seq.phrase_len as int;
        if m.seq.prev_beat == Some(earlier) && fire_at_beat as int % len == 0 && earlier < fire_at_beat <= earlier
            + len && earlier <= snap.beat {
            the_armed_cue_cuts_in_on_the_boundary(m.seq, earlier, beat);
            assert(beat / len >= earlier / len) by (nonlinear_arith)
                requires
                    beat >= earlier,
                    len > 0,
            ;
        }
    }
}

/// The internal clock runs at its tempo: in any span of time it counts the beats
/// of that span, to within the rounding of a millionth. Before its anchor it
/// stands still.
pub proof fn the_clock_runs_at_its_tempo(clock: InternalClockModel, from: int, to: int)
    requires
        from <= to,
        i64::MIN < clock.beat_at(from) < i64::MAX,
        i64::MIN < clock.beat_at(to) < i64::MAX,
    ensures
        ({
            let beats = clock.beat_at(to) - clock.beat_at(from);
            &&& clock.anchor <= from ==> (beats - 1) * 60_000_000_000 < (to - from) * clock.bpm < (beats + 1)
                * 60_000_000_000
            &&& to <= clock.anchor ==> beats == 0 && clock.beat_at(to) == clock.beats_at_anchor
        }),
{
    let minute = 60_000_000_000int;
    let (a, b) = (clock.elapsed(from) * clock.bpm, clock.elapsed(to) * clock.bpm);
    if clock.anchor <= from {
        assert(b - a == (to - from) * clock.bpm) by (nonlinear_arith)
            requires
                a == (from - clock.anchor) * clock.bpm,
                b == (to - clock.anchor) * clock.bpm,
        ;
    }
    assert(0 * clock.bpm == 0);
}

/// A tempo that is set is the tempo, within 20 and 999 BPM, and a nudge changes it
/// by its ratio, to the nearest millionth. Neither changes the bar.
pub proof fn a_tempo_that_is_set_is_in_force(clock: InternalClockModel, bpm: int, ratio: int, now: int)
    ensures
        ({
            let set = clock.with_bpm(bpm, now);
            let aim = crate::clock::nudged(clock.bpm, ratio);
            &&& 20_000_000 <= bpm <= 999_000_000 ==> set.bpm == bpm
            &&& bpm < 20_000_000 ==> set.bpm == 20_000_000
            &&& bpm > 999_000_000 ==> set.bpm == 999_000_000
            &&& set.quantum == clock.quantum
            &&& set.anchor == now
            &&& 2 * aim * 1_000_000 <= 2 * clock.bpm * (1_000_000 + ratio) + 1_000_000
            &&& 2 * aim * 1_000_000 > 2 * clock.bpm * (1_000_000 + ratio) - 1_000_000
        }),
{
    let n = clock.bpm * (1_000_000 + ratio);
    assert(2 * clock.bpm * (1_000_000 + ratio) == 2 * n) by (nonlinear_arith)
        requires
            n == clock.bpm * (1_000_000 + ratio),
    ;
}

/// A snapshot of the clock splits its beat into whole bars and the phase within
/// one.
pub proof fn snapshots_split_the_beat(clock: InternalClockModel, now: int)
    requires
        0 < clock.quantum <= i64::MAX,
        i64::MIN <= clock.bpm <= i64::MAX,
    ensures
        ({
            let s = clock.snapshot_at(now);
            &&& s.beat == clock.beat_at(now)
            &&& 0 <= s.phase < s.quantum
            &&& (s.beat - s.phase) % clock.quantum == 0
            &&& s.quantum == clock.quantum
            &&& s.bpm == clock.bpm
            &&& s.is_playing
        }),
{
    let b = clock.beat_at(now);
    let q = clock.quantum;
    vstd::arithmetic::div_mod::lemma_fundamental_div_mod(b, q);
    vstd::arithmetic::div_mod::lemma_mod_multiples_basic(b / q, q);
    assert(q * (b / q) == (b / q) * q) by (nonlinear_arith);
}

/// Tempo and grid commands ask the clock for what they say, and leave what plays
/// alone: only the reset of the grid reaches the sequencer, which keeps its place
/// in the rotation.
pub proof fn grid_commands_ask_the_clock(
    m: AppModel,
    bpm: MicroBpm,
    ratio: i64,
    kind: SyncKind,
    clock_bpm: MicroBpm,
    now: Nanos,
)
    requires
        m.wf(),
    ensures
        m.commanded(Command::SetBpm(bpm), clock_bpm, now) == (m, seq![EffectModel::SetBpm(bpm)]),
        i64::MIN <= clock_bpm + bpm <= i64::MAX ==> m.commanded(Command::BpmDelta(bpm), clock_bpm, now) == (
            m,
            seq![EffectModel::SetBpm((clock_bpm + bpm) as i64)],
        ),
        m.commanded(Command::NudgeBpm(ratio), clock_bpm, now) == (m, seq![EffectModel::NudgeBpm(ratio)]),
        m.commanded(Command::TapDownbeat, clock_bpm, now) == (m, seq![EffectModel::TapDownbeat]),
        ({
            let after = m.commanded(Command::SoftReset, clock_bpm, now);
            &&& after.1 == seq![EffectModel::ResetClock]
            &&& after.0.seq.state == m.seq.state && after.0.seq.active == m.seq.active && after.0.seq.phrase_len
                == m.seq.phrase_len
            &&& after.0.seq.prev_beat is None && after.0.loop_prev is None
            &&& after.0 == (AppModel { seq: after.0.seq, loop_prev: after.0.loop_prev, ..m })
        }),
        ({
            let after = m.commanded(Command::SetSyncSource(kind), clock_bpm, now);
            &&& after.0.sync == kind
            &&& after.1 == if kind == m.sync {
                seq![]
            } else {
                seq![EffectModel::SwitchClock(kind)]
            }
            &&& after.0.seq.state == m.seq.state && after.0.seq.active == m.seq.active && after.0.seq.phrase_len
                == m.seq.phrase_len
            &&& kind != m.sync ==> after.0.seq.prev_beat is None && after.0.loop_prev is None
            &&& after.0 == (AppModel { sync: kind, seq: after.0.seq, loop_prev: after.0.loop_prev, ..m })
        }),
{
}

/// A session starts on the grids that its cadences ask for.
pub proof fn a_started_grid_is_right(boot: Boot)
    requires
        bootable(boot),
    ensures
        on_its_grids(AppModel::booted(boot)),
{
    let m = AppModel::booted(boot);
    cadences_last(m.phrase_cadence, m.time_sig);
    let b = crate::engine::cadence_beats(m.phrase_cadence, m.time_sig) as int;
    assert(lasts(m.phrase_cadence, m.time_sig, b));
    if let Some(c) = m.loop_cadence {
        cadences_last(c, m.time_sig);
        let l = crate::engine::cadence_beats(c, m.time_sig) as int;
        assert(lasts(c, m.time_sig, l));
        assert(m.loop_len->0 == c.spec_ticks(m.time_sig));
    }
}

/// The set of cues in the rotation is the one that is given. The cue on display
/// stays; an armed cue stays armed, for the same beat, exactly when it is in the
/// set; a sequencer that was idle starts the first.
pub proof fn a_new_set_keeps_what_is_on(m: SeqModel, ids: Seq<CueId>)
    ensures
        ({
            let after = m.with_active(ids).0;
            &&& after.active == ids
            &&& after.phrase_len == m.phrase_len
            &&& !(m.state is Idle) ==> after.playing() == m.playing()
            &&& m.state is Idle && ids.len() > 0 ==> after.state == (SeqState::Playing { cue: ids[0] })
            &&& m.state is Idle && ids.len() == 0 ==> after.state is Idle
            &&& m.state is PlayingArmed && ids.contains(m.state->next) ==> after.state == m.state
            &&& m.state is PlayingArmed && !ids.contains(m.state->next) ==> after.armed() is None
            &&& m.state is Playing ==> after.state == m.state
            &&& after.prev_beat is None
            &&& after.since == if m.state is Idle && ids.len() > 0 {
                0
            } else {
                m.since
            }
            &&& m.with_active(ids).1 == if m.state is Idle && ids.len() > 0 {
                seq![SequencerEvent::SwapTo(ids[0])]
            } else if m.state is PlayingArmed && !ids.contains(m.state->next) {
                seq![SequencerEvent::DisarmDecoder]
            } else {
                seq![]
            }
        }),
{
}

/// The rotation goes round: each cue is followed by the one behind it, the last by
/// the first, and a cue that is no longer in it by the first.
pub proof fn the_rotation_goes_round(active: Seq<CueId>, cue: CueId, i: int)
    requires
        active.no_duplicates(),
    ensures
        active.len() == 0 ==> successor(active, cue) is None,
        0 <= i < active.len() - 1 && active[i] == cue ==> successor(active, cue) == Some(active[i + 1]),
        active.len() > 0 && active.last() == cue ==> successor(active, cue) == Some(active[0]),
        active.len() > 0 && !active.contains(cue) ==> successor(active, cue) == Some(active[0]),
{
    let is = crate::sequencer::is_cue(cue);
    crate::seqs::first_at_bounds(active, is);
    let at = crate::seqs::first_at(active, is);
    if at < active.len() {
        assert(is(active[at]));
        assert(active.contains(active[at]));
    }
    if 0 <= i < active.len() && active[i] == cue {
        assert(is(active[i]));
        assert(at == i);
        if i < active.len() - 1 {
            vstd::arithmetic::div_mod::lemma_small_mod((i + 1) as nat, active.len());
        }
    }
    if active.len() > 0 && active.last() == cue {
        assert(is(active[active.len() - 1]));
        assert(at == active.len() - 1);
        assert((at + 1) % active.len() as int == 0) by {
            vstd::arithmetic::div_mod::lemma_mod_self_0(active.len() as int);
        }
    }
}

/// A cue that is toggled joins the rotation at its end, or leaves it, the others
/// in their order. The first one to join an idle sequencer plays at once. When the
/// armed cue leaves with four beats or more to go, the next one is armed in its
/// place for the same beat, if there is another than the one on display;
/// otherwise what is on and armed stays.
pub proof fn a_toggled_cue_joins_or_leaves(m: SeqModel, id: CueId, beat: int, i: int)
    requires
        m.wf(),
    ensures
        ({
            let after = m.toggled(id, beat).0;
            let at = 0 <= i < m.active.len() && m.active[i] == id && forall|j: int| 0 <= j < i ==> #[trigger] m.active[j] != id;
            &&& !m.active.contains(id) ==> after.active == m.active.push(id) && after.state == (if m.state is Idle {
                SeqState::Playing { cue: id }
            } else {
                m.state
            })
            &&& at ==> after.active == m.active.remove(i)
            &&& at && m.armed() != Some(id) ==> after.state == m.state
            &&& at && m.armed() == Some(id) && m.state->fire_at_beat - beat < 4_000_000 ==> after.state == m.state
            &&& at && m.armed() == Some(id) && m.state->fire_at_beat - beat >= 4_000_000 ==> {
                &&& after.playing() == m.playing()
                &&& after.armed() != Some(id) || m.active.remove(i).contains(id)
                &&& after.armed() matches Some(n) ==> m.active.remove(i).contains(n) && after.state->fire_at_beat
                    == m.state->fire_at_beat
                &&& after.armed() is None ==> forall|j: int|
                    0 <= j < m.active.remove(i).len() ==> #[trigger] m.active.remove(i)[j] == m.playing()->0
                    || m.active.remove(i).contains(m.playing()->0)
            }
            &&& after.phrase_len == m.phrase_len
            &&& after.prev_beat == m.prev_beat
            &&& after.since == if m.state is Idle && !m.active.contains(id) {
                0
            } else {
                m.since
            }
            &&& m.state is Idle && !m.active.contains(id) ==> m.toggled(id, beat).1 == seq![SequencerEvent::SwapTo(id)]
            &&& after.armed() == m.armed() && !(m.state is Idle) ==> m.toggled(id, beat).1.len() == 0
                || m.toggled(id, beat).1 == seq![
                SequencerEvent::DisarmDecoder,
                SequencerEvent::ArmDecoder(after.armed()->0),
            ]
            &&& after.armed() != m.armed() ==> m.toggled(id, beat).1 == if after.armed() is Some {
                seq![SequencerEvent::DisarmDecoder, SequencerEvent::ArmDecoder(after.armed()->0)]
            } else {
                seq![SequencerEvent::DisarmDecoder]
            }
        }),
{
    let is = crate::sequencer::is_cue(id);
    crate::seqs::first_at_bounds(m.active, is);
    let k = crate::seqs::first_at(m.active, is);
    if !m.active.contains(id) {
        if k < m.active.len() {
            assert(m.active[k] == id);
        }
    }
    if 0 <= i < m.active.len() && m.active[i] == id && forall|j: int| 0 <= j < i ==> #[trigger] m.active[j] != id {
        crate::seqs::first_at_is(m.active, is, i);
        let rest = m.active.remove(i);
        if let SeqState::PlayingArmed { cue, next, .. } = m.state {
            crate::seqs::first_at_bounds(rest, crate::sequencer::is_cue(cue));
            if rest.len() > 0 {
                let p = crate::seqs::first_at(rest, crate::sequencer::is_cue(cue));
                let n = rest.len() as int;
                assert(0 <= (p + 1) % n < n);
            }
        }
    }
}

/// A new phrase length leaves what is on and the rotation alone; a cue that was
/// armed for the old grid is disarmed.
pub proof fn a_new_length_keeps_what_is_on(m: SeqModel, beats: i64)
    ensures
        ({
            let after = m.with_phrase_len(beats).0;
            &&& after.playing() == m.playing()
            &&& after.armed() is None
            &&& after.active == m.active
            &&& after.prev_beat is None
            &&& beats >= 1_000_000 ==> after.phrase_len == beats
            &&& beats < 1_000_000 ==> after.phrase_len == 1_000_000
            &&& after.since == if after.phrase_len == m.phrase_len {
                m.since
            } else {
                0
            }
            &&& m.with_phrase_len(beats).1 == if m.armed() is Some {
                seq![SequencerEvent::DisarmDecoder]
            } else {
                seq![]
            }
        }),
{
}

/// How long a cue plays in advanced mode, in millionths of a beat: its own length
/// in 32nds of a beat, at least one of them, or the phrase.
pub open spec fn own_dwell(cue: CueModel, phrase: int) -> int {
    match cue.dwell {
        Some(t) => if t == 0 {
            31_250
        } else {
            t * 1_000_000 / 32
        },
        None => phrase,
    }
}

/// How long a cut to a cue is held back in advanced mode.
pub open spec fn own_delay(cue: CueModel) -> int {
    if cue.trig_delay.on {
        cue.trig_delay.val * 1_000_000 / 32
    } else {
        0
    }
}

/// In advanced mode a cue of the live bank plays its own length from the beat it
/// came on, and the next one cuts in its own delay later: it is armed in the four
/// beats before that, for exactly that beat.
pub proof fn advanced_frames_follow_the_cues(m: AppModel, snap: ClockSnapshot, i: int)
    requires
        m.wf(),
        m.advanced,
        snap.is_playing,
        crate::laws::ids_apart(m.banks, m.next_cue_id as int),
        crate::laws::in_step(m),
        m.banks[m.live_bank].cues.len() >= 2,
        0 <= i < m.banks[m.live_bank].cues.len(),
        m.seq.state == (SeqState::Playing { cue: m.banks[m.live_bank].cues[i].id }),
        m.seq.since <= snap.beat,
        ({
            let cues = m.banks[m.live_bank].cues;
            let next = cues[(i + 1) % cues.len() as int];
            snap.beat < m.seq.since + own_dwell(cues[i], m.seq.phrase_len as int) + own_delay(next)
        }),
    ensures
        ({
            let cues = m.banks[m.live_bank].cues;
            let next = cues[(i + 1) % cues.len() as int];
            let due = m.seq.since + own_dwell(cues[i], m.seq.phrase_len as int) + own_delay(next);
            let after = m.ticked(snap).0;
            &&& after.current == m.current
            &&& snap.beat < due - 4_000_000 ==> after.seq.armed() is None
            &&& snap.beat >= due - 4_000_000 ==> after.seq.state == (SeqState::PlayingArmed {
                cue: cues[i].id,
                next: next.id,
                fire_at_beat: due as i128,
            })
        }),
{
    let l = m.live_bank;
    let cues = m.banks[l].cues;
    let n = cues.len() as int;
    let j = (i + 1) % n;
    assert(0 <= j < n);
    let next = cues[j];
    let steps = m.own_steps();
    let beat = snap.beat as int;
    crate::laws::advanced_cues_have_their_own_timing(m, i);
    crate::laws::advanced_cues_have_their_own_timing(m, j);
    crate::laws::every_cue_of_the_live_bank_gets_its_turn(m, i, 1);
    reveal_with_fuel(crate::sequencer::turns_after, 2);
    let mid = AppModel { last_beat: snap.beat, last_bpm: snap.bpm, ..m };
    operations_are_orderly(m.seq, beat, true, 0, seq![], 0, steps);
    crate::app::playback_follows_the_sequencer(mid, m.seq.stepped(steps, beat, true));
    crate::sequencer::a_cue_plays_its_dwell(m.seq, steps, cues[i].id, next.id, beat);
    crate::sequencer::cuts_lie_ahead(m.seq, steps, cues[i].id, next.id, beat);
    if i + 1 < n {
        vstd::arithmetic::div_mod::lemma_small_mod((i + 1) as nat, n as nat);
    } else {
        vstd::arithmetic::div_mod::lemma_mod_self_0(n);
    }
    assert(m.banks[l].cues[j].id != m.banks[l].cues[i].id);
    assert(m.seq.dwell_of(steps, cues[i].id) == own_dwell(cues[i], m.seq.phrase_len as int));
    assert(crate::sequencer::delay_of(steps, next.id) == own_delay(next));
}

/// An armed cue cuts in on the first frame at or after the beat it was armed for,
/// in advanced mode on no earlier one, and its own length counts from that beat.
pub proof fn advanced_cuts_come_when_due(m: AppModel, snap: ClockSnapshot, i: int)
    requires
        m.wf(),
        m.advanced,
        snap.is_playing,
        crate::laws::ids_apart(m.banks, m.next_cue_id as int),
        crate::laws::in_step(m),
        0 <= i < m.banks[m.live_bank].cues.len(),
        m.current == Some(m.banks[m.live_bank].cues[i].id),
        m.seq.state is PlayingArmed,
    ensures
        ({
            let due = m.seq.state->fire_at_beat;
            let after = m.ticked(snap).0;
            &&& snap.beat >= due ==> after.current == m.seq.armed() && after.seq.since == due
            &&& snap.beat < due ==> after.current == m.current && after.seq.armed() == m.seq.armed()
        }),
{
    let steps = m.own_steps();
    let beat = snap.beat as int;
    crate::laws::advanced_cues_have_their_own_timing(m, i);
    let mid = AppModel { last_beat: snap.beat, last_bpm: snap.bpm, ..m };
    operations_are_orderly(m.seq, beat, true, 0, seq![], 0, steps);
    crate::app::playback_follows_the_sequencer(mid, m.seq.stepped(steps, beat, true));
}

/// In simple mode every cue plays the phrase and comes without delay; in advanced mode
/// it has its own length and delay, in 32nds of a beat, where they are set.
pub proof fn timing_of_its_own_is_advanced(m: AppModel, cue: CueModel)
    ensures
        m.step_of(cue).id == cue.id,
        !m.advanced ==> m.step_of(cue).dwell == m.seq.phrase_len && m.step_of(cue).trig_delay == 0,
        m.advanced && cue.dwell is None ==> m.step_of(cue).dwell == m.seq.phrase_len,
        m.advanced && cue.dwell is Some ==> m.step_of(cue).dwell * 32 == cue.dwell->0 * 1_000_000,
        m.advanced && cue.trig_delay.on ==> m.step_of(cue).trig_delay * 32 == cue.trig_delay.val * 1_000_000,
        m.advanced && !cue.trig_delay.on ==> m.step_of(cue).trig_delay == 0,
{
}

/// Whatever renumbers the beats makes cues count their dwell from the origin, and
/// no boundary is taken for crossed until the next frame has been seen: a reset, a
/// change of clock, a change of signature.
pub proof fn a_new_grid_counts_from_its_origin(
    m: AppModel,
    kind: SyncKind,
    ts: TimeSig,
    clock_bpm: MicroBpm,
    now: Nanos,
)
    requires
        m.wf(),
    ensures
        ({
            let soft = m.commanded(Command::SoftReset, clock_bpm, now).0;
            let hard = m.commanded(Command::HardReset, clock_bpm, now).0;
            let sync = m.commanded(Command::SetSyncSource(kind), clock_bpm, now).0;
            let signed = m.commanded(Command::SetTimeSig(ts), clock_bpm, now).0;
            &&& soft.seq.since == 0 && soft.seq.prev_beat is None && soft.loop_prev is None
            &&& hard.seq.since == 0 && hard.seq.prev_beat is None && hard.loop_prev is None
            &&& kind != m.sync ==> sync.seq.since == 0 && sync.seq.prev_beat is None && sync.loop_prev is None
            &&& signed.seq.since == 0 && signed.seq.prev_beat is None && signed.loop_prev is None
        }),
{
    let u = m.unprimed();
    let step = u.seq.rewound();
    let mid = AppModel { seq: step.0, ..u };
    events_touch_only_playback(mid, step.1);
    loop_tracking_is_only_dropped(mid, step.1);
    let n = AppModel { time_sig: ts.spec_sanitized(), ..m };
    let len = crate::engine::cadence_beats(n.phrase_cadence, n.time_sig);
    let changed = n.seq.with_phrase_len(len);
    events_touch_only_playback(AppModel { seq: changed.0, ..n }, changed.1);
}

proof fn loop_tracking_is_only_dropped(m: AppModel, events: Seq<SequencerEvent>)
    requires
        m.loop_prev is None,
    ensures
        m.on_events(events).0.loop_prev is None,
    decreases events.len(),
{
    if events.len() > 0 {
        loop_tracking_is_only_dropped(m, events.drop_last());
    }
}

/// A rotation that stood idle starts with its first cue, whose dwell counts from
/// the origin.
pub proof fn an_idle_rotation_starts_with_its_first(m: AppModel, snap: ClockSnapshot)
    requires
        m.wf(),
        snap.is_playing,
        m.seq.state is Idle,
    ensures
        ({
            let after = m.ticked(snap).0;
            &&& m.seq.active.len() > 0 ==> after.current == Some(m.seq.active[0])
            &&& m.seq.active.len() > 0 ==> after.seq.playing() == Some(m.seq.active[0]) && after.seq.since == 0
            &&& m.seq.active.len() == 0 ==> after.current is None && after.seq.state is Idle
            &&& after.seq.armed() is None
        }),
{
    let steps = m.own_steps();
    let beat = snap.beat as int;
    let mid = AppModel { last_beat: snap.beat, last_bpm: snap.bpm, ..m };
    operations_are_orderly(m.seq, beat, true, 0, seq![], 0, steps);
    crate::app::playback_follows_the_sequencer(mid, m.seq.stepped(steps, beat, true));
    events_touch_only_playback(AppModel { seq: m.seq.stepped(steps, beat, true).0, ..mid }, m.seq.stepped(
        steps,
        beat,
        true,
    ).1);
}

/// A clock that stands still moves nothing: no cue is armed, cut or restarted, and
/// the rotation keeps its place; it only forgets the beat, so that the frame after
/// the pause takes no boundary for crossed. The re-loop keeps the beat it last saw.
pub proof fn a_paused_clock_moves_nothing(m: AppModel, snap: ClockSnapshot)
    requires
        m.wf(),
        !snap.is_playing,
    ensures
        ({
            let (after, work) = m.ticked(snap);
            &&& work.len() == 0
            &&& after.seq == (SeqModel { prev_beat: None, ..m.seq })
            &&& after == (AppModel {
                last_beat: snap.beat,
                last_bpm: snap.bpm,
                seq: after.seq,
                loop_prev: after.loop_prev,
                ..m
            })
            &&& m.loop_len is Some && m.current is Some && !m.advanced ==> after.loop_prev == m.loop_prev
            &&& m.current is None ==> after.loop_prev is None
        }),
{
    let mid = AppModel { last_beat: snap.beat, last_bpm: snap.bpm, ..m };
    let step = m.seq.stepped(m.own_steps(), snap.beat as int, false);
    assert(step.1.len() == 0);
    let s = mid.sequenced(step);
    assert(s.0 == AppModel { seq: step.0, ..mid });
}

} // verus!
