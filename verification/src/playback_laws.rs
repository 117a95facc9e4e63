//! What a frame of the clock puts on screen: when the output cuts, where a clip
//! starts and stops, how fast it runs, and when it is restarted.

use vstd::prelude::*;

use crate::app::{listed_after, playback_follows_the_sequencer, AppModel, Effect, EffectModel, Step};
use crate::bank::{CueId, CueModel};
use crate::clippool::{has_clip_id, ClipModel, ClipSourceModel};
use crate::clock::ClockSnapshot;
use crate::commands::{Command, SyncKind, TimeSig};
use crate::engine::Boot;
use crate::seqs::{first_at_bounds, first_at_is, kept};
use crate::sequencer::{operations_are_orderly, SeqModel, SequencerEvent};
use crate::text::views;
use crate::units::{MicroBpm, Nanos};

verus! {

/// Whether the first of some cues with an id stands at `i`.
pub open spec fn stands_at(cues: Seq<CueModel>, id: CueId, i: int) -> bool {
    &&& 0 <= i < cues.len()
    &&& cues[i].id == id
    &&& forall|j: int| 0 <= j < i ==> (#[trigger] cues[j]).id != id
}

/// Whether no cue has an id.
pub open spec fn stands_nowhere(cues: Seq<CueModel>, id: CueId) -> bool {
    forall|j: int| 0 <= j < cues.len() ==> (#[trigger] cues[j]).id != id
}

/// Whether the first of some clips with an id stands at `k`.
pub open spec fn pooled_at(clips: Seq<ClipModel>, id: u32, k: int) -> bool {
    &&& 0 <= k < clips.len()
    &&& clips[k].id == id
    &&& forall|j: int| 0 <= j < k ==> (#[trigger] clips[j]).id != id
}

proof fn found_cue(m: AppModel, id: CueId)
    ensures
        forall|i: int| stands_at(m.banks[m.live_bank].cues, id, i) ==> m.live_cue(id) == Some(
            #[trigger] m.banks[m.live_bank].cues[i],
        ),
        stands_nowhere(m.banks[m.live_bank].cues, id) ==> m.live_cue(id) is None,
        m.live_cue(id) is None ==> stands_nowhere(m.banks[m.live_bank].cues, id),
        m.live_cue(id) is Some ==> stands_at(
            m.banks[m.live_bank].cues,
            id,
            m.banks[m.live_bank].index_of(id),
        ),
{
    let b = m.banks[m.live_bank];
    first_at_bounds(b.cues, crate::bank::has_id(id));
    assert forall|i: int| stands_at(b.cues, id, i) implies m.live_cue(id) == Some(#[trigger] b.cues[i]) by {
        first_at_is(b.cues, crate::bank::has_id(id), i);
    }
    if stands_nowhere(b.cues, id) {
        first_at_is(b.cues, crate::bank::has_id(id), b.cues.len() as int);
    }
    assert forall|j: int| 0 <= j < b.index_of(id) implies (#[trigger] b.cues[j]).id != id by {
        assert(!crate::bank::has_id(id)(b.cues[j]));
    }
}

proof fn found_clip(m: AppModel, id: u32)
    ensures
        forall|k: int| pooled_at(m.clips, id, k) ==> m.clip(id) == Some(#[trigger] m.clips[k]),
        m.clip(id) matches Some(c) ==> pooled_at(
            m.clips,
            id,
            crate::seqs::first_at(m.clips, has_clip_id(id)),
        ),
{
    first_at_bounds(m.clips, has_clip_id(id));
    assert forall|k: int| pooled_at(m.clips, id, k) implies m.clip(id) == Some(#[trigger] m.clips[k]) by {
        first_at_is(m.clips, has_clip_id(id), k);
    }
    let n = crate::seqs::first_at(m.clips, has_clip_id(id));
    assert forall|j: int| 0 <= j < n implies (#[trigger] m.clips[j]).id != id by {
        assert(!has_clip_id(id)(m.clips[j]));
    }
}

proof fn contains_sum<T>(a: Seq<T>, b: Seq<T>, x: T)
    ensures
        (a + b).contains(x) == (a.contains(x) || b.contains(x)),
{
    if a.contains(x) {
        let i = a.index_of(x);
        assert((a + b)[i] == x);
    }
    if b.contains(x) {
        let i = b.index_of(x);
        assert((a + b)[a.len() + i] == x);
    }
    if (a + b).contains(x) {
        let i = (a + b).index_of(x);
        if i < a.len() {
            assert(a[i] == x);
        } else {
            assert(b[i - a.len()] == x);
        }
    }
}

proof fn kept_contains<T>(s: Seq<T>, p: spec_fn(T) -> bool, x: T)
    ensures
        kept(s, p).contains(x) == (s.contains(x) && p(x)),
    decreases s.len(),
{
    if s.len() > 0 {
        let front = s.drop_last();
        kept_contains(front, p, x);
        assert(s =~= front.push(s.last()));
        contains_sum(front, seq![s.last()], x);
        assert(s =~= front + seq![s.last()]);
        assert(seq![s.last()].contains(x) == (s.last() == x)) by {
            assert(seq![s.last()][0] == s.last());
        }
        if p(s.last()) {
            contains_sum(kept(front, p), seq![s.last()], x);
            assert(kept(s, p) =~= kept(front, p) + seq![s.last()]);
        }
    }
}

/// On a cut the incoming clip is restarted exactly when its playhead is not
/// carried over: as its cue says where it says so, else as the session does. No
/// other clip is restarted.
pub proof fn a_cut_restarts_unless_preserved(m: AppModel, c: CueId, i: int, other: CueId)
    requires
        stands_at(m.banks[m.live_bank].cues, c, i),
        other != c,
    ensures
        ({
            let after = m.on_event(SequencerEvent::SwapTo(c));
            let cue = m.banks[m.live_bank].cues[i];
            let carried = cue.preserve == Some(true) || cue.preserve is None && m.preserve_playhead;
            &&& after.0.current == Some(c)
            &&& after.1.contains(EffectModel::RestartDecoder(c)) == (!carried && after.0.decoders.contains(c))
            &&& !after.1.contains(EffectModel::RestartDecoder(other))
        }),
{
    swap_parts(m, c);
    found_cue(m, c);
    swap_restarts(m, c, other);
}

/// The same for a cue that has left the live bank: the session decides.
pub proof fn a_cut_to_a_lost_cue_follows_the_session(m: AppModel, c: CueId)
    requires
        stands_nowhere(m.banks[m.live_bank].cues, c),
    ensures
        ({
            let after = m.on_event(SequencerEvent::SwapTo(c));
            after.1.contains(EffectModel::RestartDecoder(c)) == (!m.preserve_playhead && m.decoders.contains(c))
        }),
{
    swap_parts(m, c);
    found_cue(m, c);
    swap_restarts(m, c, c);
}

proof fn swap_parts(m: AppModel, c: CueId)
    ensures
        ({
            let after = m.on_event(SequencerEvent::SwapTo(c));
            let ready = m.with_decoder(c);
            &&& after.0.decoders.contains(c) == ready.0.decoders.contains(c)
            &&& forall|d: CueId| #[trigger] after.0.decoders.contains(d) == (ready.0.decoders.contains(d) && (d == c
                || m.seq.armed() == Some(d)))
            &&& ready.0 == (AppModel { decoders: ready.0.decoders, ..m })
        }),
{
    let ready = m.with_decoder(c);
    let shown = AppModel { current: Some(c), ..ready.0 };
    let p = crate::app::in_use(shown.current, shown.seq.armed());
    assert forall|d: CueId| #[trigger] m.on_event(SequencerEvent::SwapTo(c)).0.decoders.contains(d) == (
    ready.0.decoders.contains(d) && (d == c || m.seq.armed() == Some(d))) by {
        kept_contains(ready.0.decoders, p, d);
    }
}

proof fn swap_restarts(m: AppModel, c: CueId, other: CueId)
    ensures
        ({
            let after = m.on_event(SequencerEvent::SwapTo(c));
            &&& after.1.contains(EffectModel::RestartDecoder(c)) == (!m.preserves(c)
                && after.0.decoders.contains(c))
            &&& other != c ==> !after.1.contains(EffectModel::RestartDecoder(other))
        }),
{
    let ready = m.with_decoder(c);
    let shown = AppModel { current: Some(c), ..ready.0 };
    let lean = shown.trimmed();
    assert(lean.0.preserves(c) == m.preserves(c));
    let restart = if lean.0.preserves(c) {
        seq![]
    } else {
        lean.0.restart(c)
    };
    let (x, y) = (EffectModel::RestartDecoder(c), EffectModel::RestartDecoder(other));
    contains_sum(ready.1 + lean.1, restart, x);
    contains_sum(ready.1, lean.1, x);
    contains_sum(ready.1 + lean.1, restart, y);
    contains_sum(ready.1, lean.1, y);
    if restart.len() > 0 {
        assert(restart[0] == x);
    }
}

/// A cue that comes up, armed or shown, gets a decoder if its clip is a file and
/// it has none yet: one that reads that file.
pub proof fn a_cue_that_comes_up_has_a_decoder(m: AppModel, c: CueId, i: int, k: int)
    requires
        stands_at(m.banks[m.live_bank].cues, c, i),
        pooled_at(m.clips, m.banks[m.live_bank].cues[i].clip, k),
    ensures
        ({
            let armed = m.on_event(SequencerEvent::ArmDecoder(c));
            let shown = m.on_event(SequencerEvent::SwapTo(c));
            let has_file = m.clips[k].source is File;
            &&& armed.0.decoders.contains(c) == (has_file || m.decoders.contains(c))
            &&& shown.0.decoders.contains(c) == (has_file || m.decoders.contains(c))
            &&& m.decoders.contains(c) ==> armed.1.len() == 0
            &&& has_file && !m.decoders.contains(c) ==> {
                &&& armed.1.len() == 1
                &&& shown.1.len() > 0
                &&& shown.1[0] == armed.1[0]
                &&& armed.1[0] matches EffectModel::SpawnDecoder { cue, path, .. } && cue == c
                    && m.clips[k].source == ClipSourceModel::File(path)
            }
        }),
{
    swap_parts(m, c);
    found_cue(m, c);
    found_clip(m, m.banks[m.live_bank].cues[i].clip);
    let d = m.with_decoder(c).0.decoders;
    if d.len() > m.decoders.len() {
        assert(d[m.decoders.len() as int] == c);
    }
}

/// A decoder is spawned with its cue's trim: from the in-point, which advanced
/// mode may shift but not before the start of the clip, to the out-point when
/// that lies after it, else to the end of the clip.
pub proof fn a_decoder_keeps_to_the_trim(m: AppModel, e: SequencerEvent, x: EffectModel, i: int)
    requires
        m.on_event(e).1.contains(x),
        x is SpawnDecoder,
        stands_at(m.banks[m.live_bank].cues, x->SpawnDecoder_cue, i),
        m.banks[m.live_bank].cues[i].in_sec >= 0,
    ensures
        ({
            let cue = m.banks[m.live_bank].cues[i];
            let from = x->in_sec as int;
            &&& !(m.advanced && cue.start_nudge.on) ==> from == cue.in_sec
            &&& m.advanced && cue.start_nudge.on && 0 <= cue.in_sec + cue.start_nudge.val <= i64::MAX ==> from
                == cue.in_sec + cue.start_nudge.val
            &&& m.advanced && cue.start_nudge.on && cue.in_sec + cue.start_nudge.val < 0 ==> from == 0
            &&& x->out_sec == if cue.out_sec is Some && cue.out_sec->0 > from {
                cue.out_sec
            } else {
                None
            }
        }),
{
    spawned_by(m, e, x);
    found_cue(m, x->SpawnDecoder_cue);
}

/// A decoder runs at normal speed in simple mode. In advanced mode it runs at the
/// cue's multiplier, times the session tempo over the source tempo when the cue
/// follows the tempo and a source tempo is known, to the nearest millionth,
/// between a twentieth and twenty times normal speed. The cue's own source tempo
/// goes before the clip's.
pub proof fn a_decoder_runs_at_its_speed(m: AppModel, e: SequencerEvent, x: EffectModel, i: int, k: int)
    requires
        m.on_event(e).1.contains(x),
        x is SpawnDecoder,
        stands_at(m.banks[m.live_bank].cues, x->SpawnDecoder_cue, i),
        pooled_at(m.clips, m.banks[m.live_bank].cues[i].clip, k),
    ensures
        ({
            let cue = m.banks[m.live_bank].cues[i];
            let mul = if cue.speed_mul.on {
                cue.speed_mul.val as int
            } else {
                1_000_000
            };
            let source = if cue.bpm is Some {
                cue.bpm
            } else {
                m.clips[k].bpm
            };
            let synced = cue.bpm_sync_on && source is Some && source->0 > 0;
            runs_at(m.advanced, synced, m.last_bpm as int, source->0 as int, mul, x->speed as int)
        }),
{
    spawned_by(m, e, x);
    found_cue(m, x->SpawnDecoder_cue);
    let cue = m.banks[m.live_bank].cues[i];
    found_clip(m, cue.clip);
    speeds_are_in_tempo(m.advanced, m.last_bpm, cue, m.clips[k].bpm);
}

/// Whether a clip runs at the right speed: normal outside advanced mode, else the
/// multiplier, and when synced the multiplier times the session tempo over the
/// source tempo; within the limits.
pub open spec fn runs_at(advanced: bool, synced: bool, session: int, source: int, mul: int, speed: int) -> bool {
    &&& !advanced ==> speed == 1_000_000
    &&& advanced ==> 50_000 <= speed <= 20_000_000
    &&& advanced && !synced && 50_000 <= mul <= 20_000_000 ==> speed == mul
    &&& advanced && !synced && mul < 50_000 ==> speed == 50_000
    &&& advanced && !synced && mul > 20_000_000 ==> speed == 20_000_000
    &&& advanced && synced && 50_000 < speed ==> 2 * session * mul >= (2 * speed - 1) * source
    &&& advanced && synced && speed < 20_000_000 ==> 2 * session * mul < (2 * speed + 1) * source + 1
}

/// The speed of a cue, as the control window shows it and the decoder runs it.
pub proof fn speeds_are_in_tempo(advanced: bool, session: MicroBpm, cue: CueModel, clip_bpm: Option<MicroBpm>)
    ensures
        ({
            let mul = if cue.speed_mul.on {
                cue.speed_mul.val as int
            } else {
                1_000_000
            };
            let source = if cue.bpm is Some {
                cue.bpm
            } else {
                clip_bpm
            };
            let synced = cue.bpm_sync_on && source is Some && source->0 > 0;
            runs_at(
                advanced,
                synced,
                session as int,
                source->0 as int,
                mul,
                crate::app::speed_of(advanced, session, cue, clip_bpm),
            )
        }),
{
    let mul = if cue.speed_mul.on {
        cue.speed_mul.val as int
    } else {
        1_000_000
    };
    let source = if cue.bpm is Some {
        cue.bpm
    } else {
        clip_bpm
    };
    if cue.bpm_sync_on && source is Some && source->0 > 0 {
        let (s, d) = (session as int, source->0 as int);
        let n = s * mul;
        let q = (n + d / 2) / d;
        vstd::arithmetic::div_mod::lemma_fundamental_div_mod(n + d / 2, d);
        let r = (n + d / 2) % d;
        let speed = crate::app::speed_of(advanced, session, cue, clip_bpm);
        assert(2 * s * mul == 2 * n) by (nonlinear_arith)
            requires
                n == s * mul,
        ;
        assert((2 * q - 1) * d == 2 * (d * q) - d) by (nonlinear_arith);
        assert((2 * q + 1) * d == 2 * (d * q) + d) by (nonlinear_arith);
        if advanced {
            if speed > 50_000 {
                assert((2 * speed - 1) * d <= (2 * q - 1) * d) by (nonlinear_arith)
                    requires
                        speed <= q,
                        d > 0,
                ;
            }
            if speed < 20_000_000 {
                assert((2 * speed + 1) * d >= (2 * q + 1) * d) by (nonlinear_arith)
                    requires
                        speed >= q,
                        d > 0,
                ;
            }
        }
    }
}

proof fn spawned_by(m: AppModel, e: SequencerEvent, x: EffectModel)
    requires
        m.on_event(e).1.contains(x),
        x is SpawnDecoder,
    ensures
        m.with_decoder(x->SpawnDecoder_cue).1 == seq![x],
        !m.decoders.contains(x->SpawnDecoder_cue),
        e == SequencerEvent::ArmDecoder(x->SpawnDecoder_cue) || e == SequencerEvent::SwapTo(
            x->SpawnDecoder_cue,
        ),
{
    let list = m.on_event(e).1;
    match e {
        SequencerEvent::ArmDecoder(c) => {
            let j = list.index_of(x);
            assert(list =~= seq![list[0]]);
        },
        SequencerEvent::SwapTo(c) => {
            let ready = m.with_decoder(c);
            let shown = AppModel { current: Some(c), ..ready.0 };
            let lean = shown.trimmed();
            let restart = if lean.0.preserves(c) {
                seq![]
            } else {
                lean.0.restart(c)
            };
            contains_sum(ready.1 + lean.1, restart, x);
            contains_sum(ready.1, lean.1, x);
            assert(ready.1.contains(x));
            assert(ready.1 =~= seq![ready.1[0]]);
        },
        SequencerEvent::DisarmDecoder => {},
    }
}

/// The decoders that the shell has once it did what it was asked.
pub open spec fn decoders_after(had: Set<CueId>, asked: Seq<EffectModel>) -> Set<CueId>
    decreases asked.len(),
{
    if asked.len() == 0 {
        had
    } else {
        let before = decoders_after(had, asked.drop_last());
        match asked.last() {
            EffectModel::SpawnDecoder { cue, .. } => before.insert(cue),
            EffectModel::KeepDecoders { playing, armed } => before.filter(
                |c: CueId| playing == Some(c) || armed == Some(c),
            ),
            EffectModel::ClearDecoders => Set::empty(),
            _ => before,
        }
    }
}

/// Whether a step's work leaves the shell with the decoders that the engine
/// counts on.
pub open spec fn decoders_agree(m: AppModel, after: Step) -> bool {
    decoders_after(m.decoders.to_set(), after.1) == after.0.decoders.to_set()
}

proof fn decoders_after_sum(had: Set<CueId>, a: Seq<EffectModel>, b: Seq<EffectModel>)
    ensures
        decoders_after(had, a + b) == decoders_after(decoders_after(had, a), b),
    decreases b.len(),
{
    if b.len() == 0 {
        assert(a + b =~= a);
    } else {
        assert((a + b).drop_last() =~= a + b.drop_last());
        decoders_after_sum(had, a, b.drop_last());
    }
}

proof fn others_leave_decoders(had: Set<CueId>, x: EffectModel)
    ensures
        decoders_after(had, seq![]) == had,
        !(x is SpawnDecoder || x is KeepDecoders || x is ClearDecoders) ==> decoders_after(had, seq![x]) == had,
{
    reveal_with_fuel(decoders_after, 2);
    assert(seq![x].drop_last() =~= Seq::<EffectModel>::empty());
}

proof fn an_event_agrees(m: AppModel, e: SequencerEvent)
    ensures
        decoders_agree(m, m.on_event(e)),
{
    match e {
        SequencerEvent::ArmDecoder(c) => spawning_agrees(m, c),
        SequencerEvent::SwapTo(c) => {
            let ready = m.with_decoder(c);
            let shown = AppModel { current: Some(c), ..ready.0 };
            let lean = shown.trimmed();
            let restart = if lean.0.preserves(c) {
                seq![]
            } else {
                lean.0.restart(c)
            };
            spawning_agrees(m, c);
            trimming_agrees(shown);
            let had = m.decoders.to_set();
            decoders_after_sum(had, ready.1 + lean.1, restart);
            decoders_after_sum(had, ready.1, lean.1);
            others_leave_decoders(lean.0.decoders.to_set(), EffectModel::RestartDecoder(c));
            if restart.len() > 0 {
                assert(restart =~= seq![EffectModel::RestartDecoder(c)]);
            } else {
                assert(restart =~= seq![]);
            }
        },
        SequencerEvent::DisarmDecoder => trimming_agrees(m),
    }
}

proof fn spawning_agrees(m: AppModel, c: CueId)
    ensures
        decoders_agree(m, m.with_decoder(c)),
{
    let after = m.with_decoder(c);
    let had = m.decoders.to_set();
    if after.1.len() > 0 {
        reveal_with_fuel(decoders_after, 2);
        assert(after.1.drop_last() =~= Seq::<EffectModel>::empty());
        assert forall|d: CueId| after.0.decoders.to_set().contains(d) == #[trigger] had.insert(c).contains(d) by {
            contains_sum(m.decoders, seq![c], d);
            assert(after.0.decoders =~= m.decoders + seq![c]);
            assert(seq![c].contains(d) == (c == d)) by {
                assert(seq![c][0] == c);
            }
        }
        assert(after.0.decoders.to_set() =~= had.insert(c));
    }
}

proof fn trimming_agrees(m: AppModel)
    ensures
        decoders_agree(m, m.trimmed()),
{
    let after = m.trimmed();
    let had = m.decoders.to_set();
    reveal_with_fuel(decoders_after, 2);
    assert(after.1.drop_last() =~= Seq::<EffectModel>::empty());
    let left = decoders_after(had, after.1);
    assert forall|d: CueId| after.0.decoders.to_set().contains(d) == #[trigger] left.contains(d) by {
        kept_contains(m.decoders, crate::app::in_use(m.current, m.seq.armed()), d);
    }
    assert(after.0.decoders.to_set() =~= left);
}

proof fn events_agree(m: AppModel, events: Seq<SequencerEvent>)
    ensures
        decoders_agree(m, m.on_events(events)),
    decreases events.len(),
{
    if events.len() > 0 {
        let before = m.on_events(events.drop_last());
        events_agree(m, events.drop_last());
        an_event_agrees(before.0, events.last());
        decoders_after_sum(m.decoders.to_set(), before.1, before.0.on_event(events.last()).1);
    }
}

proof fn sequencing_agrees(m: AppModel, step: (SeqModel, Seq<SequencerEvent>))
    ensures
        decoders_agree(m, m.sequenced(step)),
{
    events_agree(AppModel { seq: step.0, ..m }, step.1);
}

/// The engine knows which decoders run: a frame's work leaves the shell with
/// exactly the decoders that the engine counts on.
pub proof fn frames_agree_with_the_shell(m: AppModel, snap: ClockSnapshot)
    ensures
        decoders_agree(m, m.ticked(snap)),
{
    let mid = AppModel { last_beat: snap.beat, last_bpm: snap.bpm, ..m };
    let step = m.seq.stepped(m.own_steps(), snap.beat as int, snap.is_playing);
    let s = mid.sequenced(step);
    sequencing_agrees(mid, step);
    let re = s.0.relooped(snap.beat, snap.is_playing);
    decoders_after_sum(m.decoders.to_set(), s.1, re.1);
    restarts_leave_decoders(re.1, s.0.decoders.to_set());
}

proof fn restarts_leave_decoders(list: Seq<EffectModel>, had: Set<CueId>)
    requires
        list.len() <= 1,
        forall|i: int| 0 <= i < list.len() ==> !((#[trigger] list[i]) is SpawnDecoder || list[i] is KeepDecoders || list[i] is ClearDecoders),
    ensures
        decoders_after(had, list) == had,
{
    if list.len() == 0 {
        assert(list =~= seq![]);
    } else {
        assert(list =~= seq![list[0]]);
        others_leave_decoders(had, list[0]);
    }
}

proof fn frame_parts(m: AppModel, snap: ClockSnapshot)
    requires
        m.wf(),
    ensures
        ({
            let mid = AppModel { last_beat: snap.beat, last_bpm: snap.bpm, ..m };
            let step = m.seq.stepped(m.own_steps(), snap.beat as int, snap.is_playing);
            let s = mid.sequenced(step);
            let after = m.ticked(snap);
            &&& after == (s.0.relooped(snap.beat, snap.is_playing).0, s.1 + s.0.relooped(snap.beat, snap.is_playing).1)
            &&& s.0.wf()
            &&& s.0.current == step.0.playing()
            &&& s.0 == (AppModel {
                seq: step.0,
                decoders: s.0.decoders,
                current: s.0.current,
                loop_prev: s.0.loop_prev,
                ..mid
            })
            &&& after.0.current == s.0.current
            &&& after.0.decoders == s.0.decoders
            &&& step.1.len() == 0 || step.1.len() == 1
            &&& step.1.len() == 0 ==> s == (AppModel { seq: step.0, ..mid }, Seq::<EffectModel>::empty())
            &&& step.1.len() == 1 ==> s == AppModel { seq: step.0, ..mid }.on_event(step.1[0])
            &&& step.1.len() == 1 && !(step.1[0] is SwapTo) ==> step.1[0] is ArmDecoder && s.0.current == m.current
        }),
{
    let mid = AppModel { last_beat: snap.beat, last_bpm: snap.bpm, ..m };
    let step = m.seq.stepped(m.own_steps(), snap.beat as int, snap.is_playing);
    operations_are_orderly(m.seq, snap.beat as int, snap.is_playing, 0, seq![], 0, m.own_steps());
    playback_follows_the_sequencer(mid, step);
    let start = AppModel { seq: step.0, ..mid };
    reveal_with_fuel(AppModel::on_events, 2);
    if step.1.len() == 1 {
        assert(step.1.drop_last() =~= Seq::<SequencerEvent>::empty());
        assert(Seq::<EffectModel>::empty() + start.on_event(step.1[0]).1 =~= start.on_event(step.1[0]).1);
    }
}

/// A frame that cuts restarts the incoming clip unless its playhead is carried
/// over: as its cue says where it says so, else as the session does.
pub proof fn a_frame_that_cuts_restarts_unless_preserved(m: AppModel, snap: ClockSnapshot, c: CueId, i: int)
    requires
        m.wf(),
        m.ticked(snap).0.current == Some(c),
        m.current != Some(c),
        stands_at(m.banks[m.live_bank].cues, c, i),
    ensures
        ({
            let after = m.ticked(snap);
            let cue = m.banks[m.live_bank].cues[i];
            let carried = cue.preserve == Some(true) || cue.preserve is None && m.preserve_playhead;
            after.1.contains(EffectModel::RestartDecoder(c)) == (!carried && after.0.decoders.contains(c))
        }),
{
    frame_parts(m, snap);
    let mid = AppModel { last_beat: snap.beat, last_bpm: snap.bpm, ..m };
    let step = m.seq.stepped(m.own_steps(), snap.beat as int, snap.is_playing);
    operations_are_orderly(m.seq, snap.beat as int, snap.is_playing, 0, seq![], 0, m.own_steps());
    let start = AppModel { seq: step.0, ..mid };
    assert(step.1.len() == 1 && step.1[0] == SequencerEvent::SwapTo(c));
    let other = if c == 0 {
        1
    } else {
        0
    };
    a_cut_restarts_unless_preserved(start, c, i, other);
    let s = mid.sequenced(step);
    contains_sum(s.1, s.0.relooped(snap.beat, snap.is_playing).1, EffectModel::RestartDecoder(c));
}

/// Whether a cue is re-looped every `ticks`, the grid shifted by `shift`: as the
/// session says, and in advanced mode as the cue does where it says so. There are
/// 32 ticks in a beat.
pub open spec fn looped_every(m: AppModel, c: CueId, b: int, i: int, ticks: u32, shift: int) -> bool {
    &&& ticks > 0
    &&& !m.advanced ==> m.loop_len == Some(ticks) && shift == 0
    &&& m.advanced ==> {
        let cue = m.banks[b].cues[i];
        &&& 0 <= b < m.banks.len()
        &&& stands_at(m.banks[b].cues, c, i)
        &&& forall|a: int| 0 <= a < b ==> stands_nowhere((#[trigger] m.banks[a]).cues, c)
        &&& cue.loop_len == Some(ticks) || cue.loop_len is None && m.loop_len == Some(ticks)
        &&& 32 * shift == if cue.loop_phase.on {
            cue.loop_phase.val * 1_000_000
        } else {
            0
        }
    }
}

proof fn any_cue_at(m: AppModel, c: CueId, b: int, i: int)
    requires
        0 <= b < m.banks.len(),
        stands_at(m.banks[b].cues, c, i),
        forall|a: int| 0 <= a < b ==> stands_nowhere((#[trigger] m.banks[a]).cues, c),
    ensures
        m.any_cue(c) == Some(m.banks[b].cues[i]),
{
    let has = crate::bank::has_id(c);
    first_at_is(m.banks[b].cues, has, i);
    assert forall|a: int| 0 <= a < b implies !crate::app::holds(c)(#[trigger] m.banks[a]) by {
        first_at_is(m.banks[a].cues, has, m.banks[a].cues.len() as int);
    }
    first_at_is(m.banks, crate::app::holds(c), b);
}

proof fn loop_params_are(m: AppModel, c: CueId, b: int, i: int, ticks: u32, shift: int)
    requires
        m.current == Some(c),
        looped_every(m, c, b, i, ticks, shift),
    ensures
        m.loop_params().0 == Some(ticks),
        m.loop_params().1 == shift,
{
    if m.advanced {
        any_cue_at(m, c, b, i);
    }
}

/// With a re-loop length set, the clip on display is restarted on the grid of that
/// length and nowhere else: of two frames that follow each other, the second
/// restarts it exactly when it lies in a later cell than the first, unless it
/// cuts.
pub proof fn clips_are_looped_on_the_grid(
    m: AppModel,
    earlier: ClockSnapshot,
    later: ClockSnapshot,
    c: CueId,
    b: int,
    i: int,
    ticks: u32,
    shift: int,
)
    requires
        m.wf(),
        earlier.is_playing,
        later.is_playing,
        m.ticked(earlier).0.current == Some(c),
        m.ticked(earlier).0.ticked(later).0.current == Some(c),
        looped_every(m, c, b, i, ticks, shift),
        i64::MIN <= earlier.beat - shift <= i64::MAX,
        i64::MIN <= later.beat - shift <= i64::MAX,
    ensures
        ({
            let mid = m.ticked(earlier).0;
            let cell = ticks * 1_000_000 / 32;
            mid.ticked(later).1.contains(EffectModel::RestartDecoder(c)) == (mid.decoders.contains(c) && (
            later.beat - shift) / cell > (earlier.beat - shift) / cell)
        }),
{
    let mid = m.ticked(earlier).0;
    frame_parts(m, earlier);
    let first = AppModel { last_beat: earlier.beat, last_bpm: earlier.bpm, ..m }.sequenced(
        m.seq.stepped(m.own_steps(), earlier.beat as int, true),
    ).0;
    assert(looped_every(first, c, b, i, ticks, shift));
    loop_params_are(first, c, b, i, ticks, shift);
    assert(mid.loop_prev == Some(earlier.beat - shift));
    frame_parts(mid, later);
    let step = mid.seq.stepped(mid.own_steps(), later.beat as int, true);
    let base = AppModel { last_beat: later.beat, last_bpm: later.bpm, ..mid };
    let s = base.sequenced(step);
    operations_are_orderly(mid.seq, later.beat as int, true, 0, seq![], 0, mid.own_steps());
    assert(looped_every(s.0, c, b, i, ticks, shift));
    loop_params_are(s.0, c, b, i, ticks, shift);
    let re = s.0.relooped(later.beat, true);
    let x = EffectModel::RestartDecoder(c);
    contains_sum(s.1, re.1, x);
    a_quiet_frame_keeps_the_playing_decoder(mid, later, c);
    if re.1.len() > 0 {
        assert(re.1[0] == x);
    }
    let cell = ticks * 31_250;
    assert(ticks * 1_000_000 / 32 == cell);
    let (p, q) = (earlier.beat - shift, later.beat - shift);
    if q / cell > p / cell {
        assert(q > p) by (nonlinear_arith)
            requires
                q / cell > p / cell,
                cell > 0,
        ;
    }
}

proof fn a_quiet_frame_keeps_the_playing_decoder(m: AppModel, snap: ClockSnapshot, c: CueId)
    requires
        m.wf(),
        m.current == Some(c),
        m.ticked(snap).0.current == Some(c),
    ensures
        ({
            let mid = AppModel { last_beat: snap.beat, last_bpm: snap.bpm, ..m };
            let s = mid.sequenced(m.seq.stepped(m.own_steps(), snap.beat as int, snap.is_playing));
            &&& s.0.decoders.contains(c) == m.decoders.contains(c)
            &&& forall|d: CueId| !(#[trigger] s.1.contains(EffectModel::RestartDecoder(d)))
            &&& s.0.loop_prev == m.loop_prev
        }),
{
    frame_parts(m, snap);
    let mid = AppModel { last_beat: snap.beat, last_bpm: snap.bpm, ..m };
    let step = m.seq.stepped(m.own_steps(), snap.beat as int, snap.is_playing);
    operations_are_orderly(m.seq, snap.beat as int, snap.is_playing, c, seq![], 0, m.own_steps());
    let s = mid.sequenced(step);
    if step.1.len() == 1 {
        match step.1[0] {
            SequencerEvent::SwapTo(n) => {
                assert(step.1.contains(SequencerEvent::SwapTo(c))) by {
                    assert(step.1[0] == SequencerEvent::SwapTo(c));
                }
                assert(m.seq.armed() == Some(c));
                assert(false);
            },
            SequencerEvent::ArmDecoder(n) => {
                assert(step.0.armed() == Some(n));
                assert(n != c);
                let start = AppModel { seq: step.0, ..mid };
                assert(s == start.with_decoder(n));
                if s.0.decoders.len() > m.decoders.len() {
                    contains_sum(m.decoders, seq![n], c);
                    assert(s.0.decoders =~= m.decoders + seq![n]);
                    assert(!seq![n].contains(c));
                }
            },
            SequencerEvent::DisarmDecoder => {},
        }
    }
}

/// While the clock is stopped, or without a re-loop length, a frame that does not
/// cut restarts nothing.
pub proof fn nothing_is_looped_without_a_grid(m: AppModel, snap: ClockSnapshot, c: CueId, any: CueId, b: int, i: int)
    requires
        m.wf(),
        m.current == Some(c),
        m.ticked(snap).0.current == Some(c),
        !snap.is_playing || !m.advanced && m.loop_len is None || m.advanced && 0 <= b < m.banks.len() && stands_at(
            m.banks[b].cues,
            c,
            i,
        ) && (forall|a: int| 0 <= a < b ==> stands_nowhere((#[trigger] m.banks[a]).cues, c)) && (
        m.banks[b].cues[i].loop_len == Some(0u32) || m.banks[b].cues[i].loop_len is None && m.loop_len is None),
    ensures
        !m.ticked(snap).1.contains(EffectModel::RestartDecoder(any)),
{
    frame_parts(m, snap);
    a_quiet_frame_keeps_the_playing_decoder(m, snap, c);
    let mid = AppModel { last_beat: snap.beat, last_bpm: snap.bpm, ..m };
    let s = mid.sequenced(m.seq.stepped(m.own_steps(), snap.beat as int, snap.is_playing));
    if snap.is_playing && m.advanced {
        any_cue_at(s.0, c, b, i);
    }
    contains_sum(s.1, s.0.relooped(snap.beat, snap.is_playing).1, EffectModel::RestartDecoder(any));
}

proof fn resyncing_agrees(m: AppModel)
    ensures
        decoders_agree(m, m.resynced()),
        decoders_agree(m, m.resynced_if_editing()),
{
    sequencing_agrees(m, m.seq.with_active(crate::bank::ids_of(m.banks[m.live_bank].cues)));
    others_leave_decoders(m.decoders.to_set(), EffectModel::TapDownbeat);
}

proof fn cadences_agree(m: AppModel)
    ensures
        decoders_agree(m, m.cadences_applied()),
{
    sequencing_agrees(
        m,
        m.seq.with_phrase_len(crate::engine::cadence_beats(m.phrase_cadence, m.time_sig)),
    );
}

proof fn toggling_agrees(m: AppModel, clip: u32, beat: int)
    ensures
        decoders_agree(m, m.clip_toggled(clip, beat)),
{
    let b = m.banks[m.live_bank];
    let i = crate::seqs::first_at(b.cues, crate::bank::plays(clip));
    if i < b.cues.len() {
        let mid = AppModel {
            banks: m.banks.update(m.live_bank, crate::bank::BankModel { cues: b.cues.remove(i), ..b }),
            selected_cue: m.selection_without(b.cues[i].id),
            ..m
        };
        sequencing_agrees(mid, m.seq.toggled(b.cues[i].id, beat));
    } else {
        let cue = CueModel::fresh(m.next_cue_id, clip, m.clip_name(clip));
        let mid = AppModel {
            banks: m.banks.update(m.live_bank, crate::bank::BankModel { cues: b.cues.push(cue), ..b }),
            next_cue_id: (m.next_cue_id + 1) as CueId,
            ..m
        };
        sequencing_agrees(mid, m.seq.toggled(cue.id, beat));
    }
}

proof fn hard_resets_agree(m: AppModel)
    ensures
        decoders_agree(m, m.hard_reset()),
{
    let had = m.decoders.to_set();
    let u = m.unprimed();
    let s = u.sequenced(u.seq.rewound());
    sequencing_agrees(u, u.seq.rewound());
    others_leave_decoders(had, EffectModel::ResetClock);
    decoders_after_sum(had, seq![EffectModel::ResetClock], s.1);
    let both = crate::app::then_step(m.soft_reset(), s);
    if let Some(c) = both.0.current {
        decoders_after_sum(had, both.1, both.0.restart(c));
        restarts_leave_decoders(both.0.restart(c), both.0.decoders.to_set());
    }
}

proof fn signatures_agree(m: AppModel, ts: TimeSig)
    ensures
        decoders_agree(m, m.time_sig_set(ts)),
{
    let had = m.decoders.to_set();
    let after = m.time_sig_set(ts);
    let mid = AppModel { time_sig: ts.spec_sanitized(), ..m };
    cadences_agree(mid);
    let q = seq![after.1[0]];
    others_leave_decoders(had, after.1[0]);
    decoders_after_sum(had, q, mid.cadences_applied().1);
    assert(after.1 =~= q + mid.cadences_applied().1);
}

proof fn two_pieces_of_work_agree(m: AppModel, x: EffectModel, y: EffectModel)
    requires
        !(x is SpawnDecoder || x is KeepDecoders || x is ClearDecoders),
        !(y is SpawnDecoder || y is KeepDecoders || y is ClearDecoders),
    ensures
        decoders_after(m.decoders.to_set(), seq![x, y]) == m.decoders.to_set(),
{
    let had = m.decoders.to_set();
    others_leave_decoders(had, x);
    others_leave_decoders(had, y);
    decoders_after_sum(had, seq![x], seq![y]);
    assert(seq![x, y] =~= seq![x] + seq![y]);
}

#[verifier::spinoff_prover]
proof fn quiet_commands_leave_decoders(m: AppModel, cmd: Command, clock_bpm: MicroBpm, now: Nanos)
    requires
        match cmd {
            Command::HardReset => false,
            Command::SetTimeSig(_) => false,
            Command::SetPhraseCadence(_) => false,
            Command::SetLoopCadence(_) => false,
            Command::ToggleClipActive(_) => false,
            Command::AddCue(_) => false,
            Command::RemoveCue(_) => false,
            Command::MoveCue(_, _) => false,
            Command::SetCueParam(_, _) => false,
            Command::SetAdvancedMode(_) => false,
            Command::SetLiveBank(_) => false,
            Command::CycleLiveBank(_) => false,
            Command::SetShaderPath(_) => false,
            _ => true,
        },
    ensures
        ({
            let after = m.commanded(cmd, clock_bpm, now);
            &&& after.0.decoders == m.decoders
            &&& after.1.len() <= 1
            &&& forall|i: int| 0 <= i < after.1.len() ==> !((#[trigger] after.1[i]) is SpawnDecoder || after.1[i] is KeepDecoders || after.1[i] is ClearDecoders)
        }),
{
}

/// The engine knows which decoders run: a command's work leaves the shell with
/// exactly the decoders that the engine counts on.
pub proof fn commands_agree_with_the_shell(m: AppModel, cmd: Command, clock_bpm: MicroBpm, now: Nanos)
    requires
        m.wf(),
    ensures
        decoders_agree(m, m.commanded(cmd, clock_bpm, now)),
{
    let had = m.decoders.to_set();
    let e = m.editing();
    others_leave_decoders(had, EffectModel::TapDownbeat);
    match cmd {
        Command::HardReset => hard_resets_agree(m),
        Command::SetTimeSig(ts) => signatures_agree(m, ts),
        Command::SetPhraseCadence(c) => cadences_agree(AppModel { phrase_cadence: c, ..m }),
        Command::SetLoopCadence(c) => cadences_agree(AppModel { loop_cadence: c, ..m }),
        Command::ToggleClipActive(id) => toggling_agrees(m, id, m.last_beat as int),
        Command::AddCue(clip) => {
            let cue = CueModel::fresh(m.next_cue_id, clip, m.clip_name(clip));
            resyncing_agrees(
                AppModel {
                    selected_cue: Some(m.next_cue_id),
                    next_cue_id: (m.next_cue_id + 1) as CueId,
                    ..m.with_edit_bank(crate::bank::BankModel { cues: e.cues.push(cue), ..e })
                },
            );
        },
        Command::RemoveCue(id) => {
            if e.has(id) {
                resyncing_agrees(
                    AppModel {
                        selected_cue: m.selection_without(id),
                        ..m.with_edit_bank(
                            crate::bank::BankModel { cues: e.cues.remove(e.index_of(id)), ..e },
                        )
                    },
                );
            }
        },
        Command::MoveCue(id, target) => {
            if e.has(id) {
                let k = e.index_of(id);
                let rest = e.cues.remove(k);
                let to = crate::editing::at_most_int(target as int, rest.len() as int);
                resyncing_agrees(
                    m.with_edit_bank(crate::bank::BankModel { cues: rest.insert(to, e.cues[k]), ..e }),
                );
            }
        },
        Command::SetCueParam(id, p) => resyncing_agrees(m.edited(id, crate::editing::knob_set(p))),
        Command::SetAdvancedMode(on) => resyncing_agrees(AppModel { advanced: on, loop_prev: None, ..m }),
        Command::SetLiveBank(i) => resyncing_agrees(AppModel { live_bank: i as int, ..m }),
        Command::CycleLiveBank(d) => {
            if m.banks.len() >= 2 {
                resyncing_agrees(AppModel { live_bank: (m.live_bank + d) % m.banks.len() as int, ..m });
            }
        },
        Command::SetShaderPath(p) => two_pieces_of_work_agree(
            m,
            EffectModel::WatchShader(p@),
            EffectModel::LoadShader(p@),
        ),
        _ => {
            quiet_commands_leave_decoders(m, cmd, clock_bpm, now);
            restarts_leave_decoders(m.commanded(cmd, clock_bpm, now).1, had);
        },
    }
}

/// A pool that is replaced leaves no decoder, in the engine and in the shell.
pub proof fn another_pool_agrees_with_the_shell(m: AppModel, dir: Seq<char>, clips: Seq<ClipModel>)
    ensures
        decoders_agree(m, m.pool_replaced(dir, clips)),
        m.pool_replaced(dir, clips).0.decoders.len() == 0,
        m.pool_replaced(dir, clips).0.current is None,
{
    let after = m.pool_replaced(dir, clips);
    reveal_with_fuel(decoders_after, 2);
    assert(after.1.drop_last() =~= Seq::<EffectModel>::empty());
    assert(after.0.decoders.to_set() =~= Set::empty());
}

proof fn toggled_clips_agree(m: AppModel, ids: Seq<u32>)
    ensures
        decoders_agree(m, m.clips_toggled(ids)),
    decreases ids.len(),
{
    others_leave_decoders(m.decoders.to_set(), EffectModel::TapDownbeat);
    if ids.len() > 0 {
        toggled_clips_agree(m, ids.drop_last());
        let before = m.clips_toggled(ids.drop_last());
        toggling_agrees(before.0, ids.last(), 0);
        decoders_after_sum(m.decoders.to_set(), before.1, before.0.clip_toggled(ids.last(), 0).1);
    }
}

/// A session starts without decoders, and the work it starts with leaves the shell
/// with the decoders that the engine counts on.
pub proof fn a_session_starts_with_its_decoders(boot: Boot)
    requires
        crate::engine::bootable(boot),
    ensures
        decoders_after(Set::empty(), crate::engine::started(boot).1) == crate::engine::started(
            boot,
        ).0.decoders.to_set(),
{
    let base = AppModel::booted(boot);
    let had = base.decoders.to_set();
    assert(had =~= Set::empty());
    let active = if boot.cue_banks@.len() > 0 {
        base.resynced()
    } else {
        base.clips_toggled(boot.auto_active@)
    };
    resyncing_agrees(base);
    toggled_clips_agree(base, boot.auto_active@);
    let sync = active.0.sync_set(SyncKind::Link);
    decoders_after_sum(had, active.1, sync.1);
    restarts_leave_decoders(sync.1, active.0.decoders.to_set());
}

/// Work for the shell is listed in the order in which it comes up, behind what was
/// listed before.
pub proof fn work_is_listed_in_order(before: Seq<Effect>, more: Seq<EffectModel>, i: int)
    ensures
        listed_after(before, more).len() == before.len() + more.len(),
        0 <= i < before.len() ==> listed_after(before, more)[i] == before[i]@,
        0 <= i < more.len() ==> listed_after(before, more)[before.len() + i] == more[i],
{
    assert(views(before).len() == before.len());
}

} // verus!
