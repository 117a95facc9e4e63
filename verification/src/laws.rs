//! What holds of the engine as a whole, across commands and ticks.

use vstd::prelude::*;

use crate::app::{events_touch_only_playback, playback_follows_the_sequencer, speed_of, AppModel, EffectModel};
use crate::bank::{has_id, ids_of, plays, BankModel, CueId, CueModel};
use crate::clippool::ClipModel;
use crate::clock::ClockSnapshot;
use crate::commands::{ChainSlotModel, ClipId, Command, ShaderId};
use crate::editing::{effect_appended, unpinned_bank};
use crate::engine::{bootable, cue_id_after, cue_ids_bounded, id_after, started, ticks_beats, Boot};
use crate::seqs::{first_at, first_at_bounds, first_at_is, first_of};
use crate::sequencer::{
    an_armed_cue_fires, cuts_lie_ahead, delay_of, dwell_floor, equal_dwells_make_the_phrase_grid,
    every_cue_gets_its_turn, is_cue, is_step, next_boundary, operations_are_orderly, turns_after, SeqModel, SeqState,
    SequencerEvent, ARM_LEAD,
};
use crate::text::views;
use crate::units::{MicroBpm, MicroSecs, Nanos, MICRO};

verus! {

/// Whether two states play the same: the same sequencer, the same cue on
/// display, the same decoders.
pub open spec fn plays_the_same(a: AppModel, b: AppModel) -> bool {
    a.seq == b.seq && a.current == b.current && a.decoders == b.decoders && a.live_bank == b.live_bank
        && a.banks[a.live_bank] == b.banks[b.live_bank]
}

/// Whether a command edits cues of the edit bank.
pub open spec fn edits_cues(cmd: Command) -> bool {
    match cmd {
        Command::AddCue(_) => true,
        Command::RemoveCue(_) => true,
        Command::MoveCue(_, _) => true,
        Command::SelectCue(_) => true,
        Command::SetCueIn(_, _) => true,
        Command::SetCueOut(_, _) => true,
        Command::SetCueInToPlayhead(_) => true,
        Command::SetCueOutToPlayhead(_) => true,
        Command::SetCuePreserve(_, _) => true,
        Command::SetCueChain(_, _) => true,
        Command::SetChainParam { .. } => true,
        Command::SetCueParam(_, _) => true,
        _ => false,
    }
}

/// One bank plays while another is edited: edits to a bank that is not live
/// leave playback alone and ask nothing of the shell.
pub proof fn editing_another_bank_leaves_playback_alone(
    m: AppModel,
    cmd: Command,
    clock_bpm: MicroBpm,
    now: Nanos,
)
    requires
        m.wf(),
        m.edit_bank != m.live_bank,
        edits_cues(cmd),
    ensures
        plays_the_same(m.commanded(cmd, clock_bpm, now).0, m),
        m.commanded(cmd, clock_bpm, now).1.len() == 0,
{
}

/// Tempo and phase commands change the clock, not the engine.
pub proof fn tempo_commands_only_reach_the_clock(
    m: AppModel,
    b: MicroBpm,
    clock_bpm: MicroBpm,
    now: Nanos,
)
    ensures
        m.commanded(Command::SetBpm(b), clock_bpm, now) == (m, seq![EffectModel::SetBpm(b)]),
        m.commanded(Command::NudgeBpm(b), clock_bpm, now) == (m, seq![EffectModel::NudgeBpm(b)]),
        m.commanded(Command::TapDownbeat, clock_bpm, now) == (m, seq![EffectModel::TapDownbeat]),
        m.commanded(Command::BpmDelta(b), clock_bpm, now).0 == m,
{
}

/// Outside advanced mode every per-cue timing and speed knob is inert: cues
/// play at normal speed from their in-point, on the global grids, and follow each
/// other on the phrase grid.
pub proof fn simple_mode_ignores_the_knobs(
    m: AppModel,
    cue: CueModel,
    clip_bpm: Option<MicroBpm>,
    snap: ClockSnapshot,
)
    requires
        m.wf(),
        !m.advanced,
    ensures
        m.seq.stepped(m.own_steps(), snap.beat as int, snap.is_playing) == m.seq.tick(
            snap.beat as int,
            snap.is_playing,
        ),
        speed_of(m.advanced, m.last_bpm, cue, clip_bpm) == MICRO,
        m.loop_params() == (m.loop_len, 0i64),
        m.step_of(cue).dwell == m.seq.phrase_len,
        m.step_of(cue).trig_delay == 0,
        cue.in_sec >= 0 ==> m.start_of(cue) == cue.in_sec,
{
    equal_dwells_make_the_phrase_grid(m.seq, m.own_steps(), snap.beat as int, snap.is_playing);
}

/// In advanced mode every cue of the live bank has its own timing: the dwell and
/// the delay that it asks for, each where it asks for one.
pub proof fn advanced_cues_have_their_own_timing(m: AppModel, i: int)
    requires
        m.wf(),
        m.advanced,
        ids_apart(m.banks, m.next_cue_id as int),
        0 <= i < m.banks[m.live_bank].cues.len(),
    ensures
        ({
            let cue = m.banks[m.live_bank].cues[i];
            &&& first_of(m.own_steps(), is_step(cue.id)) == Some(m.step_of(cue))
            &&& m.seq.dwell_of(m.own_steps(), cue.id) == match cue.dwell {
                Some(t) => dwell_floor(ticks_beats(t as int)),
                None => m.seq.phrase_len,
            }
            &&& delay_of(m.own_steps(), cue.id) == if cue.trig_delay.on {
                ticks_beats(cue.trig_delay.val as int)
            } else {
                0
            }
        }),
{
    let l = m.live_bank;
    let id = m.banks[l].cues[i].id;
    let steps = m.own_steps();
    assert forall|j: int| 0 <= j < i implies !is_step(id)(#[trigger] steps[j]) by {
        assert(m.banks[l].cues[j].id != m.banks[l].cues[i].id);
    }
    first_at_is(steps, is_step(id), i);
}

/// Switching the live bank keeps the cue on display: the output never cuts on
/// the switch itself.
pub proof fn going_live_does_not_cut(m: AppModel, i: int)
    requires
        m.wf(),
        m.current is Some,
        0 <= i,
    ensures
        m.live_bank_set(i).0.current == m.current,
{
    if i < m.banks.len() && i != m.live_bank {
        let mid = AppModel { live_bank: i, ..m };
        let ids = ids_of(m.banks[i].cues);
        operations_are_orderly(m.seq, 0, true, 0, ids, 0, seq![]);
        playback_follows_the_sequencer(mid, m.seq.with_active(ids));
    }
}

/// After a hard reset the first active cue is on display and nothing is armed,
/// and its decoder is told to start over.
pub proof fn a_hard_reset_starts_over(m: AppModel)
    requires
        m.wf(),
        m.seq.active.len() > 0,
    ensures
        m.hard_reset().0.current == Some(m.seq.active[0]),
        m.hard_reset().0.seq.armed() is None,
        m.hard_reset().0.decoders.contains(m.seq.active[0]) ==> m.hard_reset().1.len() > 0
            && m.hard_reset().1.last() == EffectModel::RestartDecoder(m.seq.active[0]),
        m.hard_reset().1.len() > 0 && m.hard_reset().1[0] == EffectModel::ResetClock,
{
    let u = m.unprimed();
    operations_are_orderly(u.seq, 0, true, 0, seq![], 0, seq![]);
    playback_follows_the_sequencer(u, u.seq.rewound());
}

/// The number of cue ids handed out is above every id in use, and no two cues
/// share an id.
pub open spec fn ids_apart(banks: Seq<BankModel>, next: int) -> bool {
    &&& forall|b: int, i: int|
        #![trigger banks[b].cues[i]]
        0 <= b < banks.len() && 0 <= i < banks[b].cues.len() ==> banks[b].cues[i].id < next
    &&& forall|b: int, i: int, c: int, j: int|
        #![trigger banks[b].cues[i], banks[c].cues[j]]
        0 <= b < banks.len() && 0 <= i < banks[b].cues.len() && 0 <= c < banks.len() && 0 <= j < banks[c].cues.len()
            && (b != c || i != j) ==> banks[b].cues[i].id != banks[c].cues[j].id
}

proof fn apart_after_push(banks: Seq<BankModel>, at: int, cue: CueModel, next: int)
    requires
        ids_apart(banks, next),
        0 <= at < banks.len(),
        cue.id == next,
    ensures
        ids_apart(
            banks.update(at, BankModel { cues: banks[at].cues.push(cue), ..banks[at] }),
            next + 1,
        ),
{
    let after = banks.update(at, BankModel { cues: banks[at].cues.push(cue), ..banks[at] });
    assert forall|b: int, i: int|
        #![trigger after[b].cues[i]]
        0 <= b < after.len() && 0 <= i < after[b].cues.len() implies after[b].cues[i].id < next + 1 by {
        if !(b == at && i == banks[at].cues.len()) {
            assert(after[b].cues[i] == banks[b].cues[i]);
        }
    }
    assert forall|b: int, i: int, c: int, j: int|
        #![trigger after[b].cues[i], after[c].cues[j]]
        0 <= b < after.len() && 0 <= i < after[b].cues.len() && 0 <= c < after.len() && 0 <= j < after[c].cues.len()
            && (b != c || i != j) implies after[b].cues[i].id != after[c].cues[j].id by {
        let new1 = b == at && i == banks[at].cues.len();
        let new2 = c == at && j == banks[at].cues.len();
        if !new1 {
            assert(after[b].cues[i] == banks[b].cues[i]);
        }
        if !new2 {
            assert(after[c].cues[j] == banks[c].cues[j]);
        }
    }
}

proof fn apart_after_remove(banks: Seq<BankModel>, at: int, k: int, next: int)
    requires
        ids_apart(banks, next),
        0 <= at < banks.len(),
        0 <= k < banks[at].cues.len(),
    ensures
        ids_apart(
            banks.update(at, BankModel { cues: banks[at].cues.remove(k), ..banks[at] }),
            next,
        ),
{
    let after = banks.update(at, BankModel { cues: banks[at].cues.remove(k), ..banks[at] });
    assert forall|b: int, i: int|
        #![trigger after[b].cues[i]]
        0 <= b < after.len() && 0 <= i < after[b].cues.len() implies after[b].cues[i].id < next by {
        let i0 = if b == at && i >= k { i + 1 } else { i };
        assert(after[b].cues[i] == banks[b].cues[i0]);
    }
    assert forall|b: int, i: int, c: int, j: int|
        #![trigger after[b].cues[i], after[c].cues[j]]
        0 <= b < after.len() && 0 <= i < after[b].cues.len() && 0 <= c < after.len() && 0 <= j < after[c].cues.len()
            && (b != c || i != j) implies after[b].cues[i].id != after[c].cues[j].id by {
        let i0 = if b == at && i >= k { i + 1 } else { i };
        let j0 = if c == at && j >= k { j + 1 } else { j };
        assert(after[b].cues[i] == banks[b].cues[i0]);
        assert(after[c].cues[j] == banks[c].cues[j0]);
    }
}

proof fn apart_after_move(banks: Seq<BankModel>, at: int, k: int, to: int, next: int)
    requires
        ids_apart(banks, next),
        0 <= at < banks.len(),
        0 <= k < banks[at].cues.len(),
        0 <= to < banks[at].cues.len(),
    ensures
        ids_apart(
            banks.update(
                at,
                BankModel {
                    cues: banks[at].cues.remove(k).insert(to, banks[at].cues[k]),
                    ..banks[at]
                },
            ),
            next,
        ),
{
    let cues = banks[at].cues;
    let moved = cues.remove(k).insert(to, cues[k]);
    let after = banks.update(at, BankModel { cues: moved, ..banks[at] });
    assert forall|b: int, i: int|
        #![trigger after[b].cues[i]]
        0 <= b < after.len() && 0 <= i < after[b].cues.len() implies after[b].cues[i].id < next by {
        let i0 = if b == at {
            was_at(k, to, i)
        } else {
            i
        };
        assert(after[b].cues[i] == banks[b].cues[i0]);
    }
    assert forall|b: int, i: int, c: int, j: int|
        #![trigger after[b].cues[i], after[c].cues[j]]
        0 <= b < after.len() && 0 <= i < after[b].cues.len() && 0 <= c < after.len() && 0 <= j < after[c].cues.len()
            && (b != c || i != j) implies after[b].cues[i].id != after[c].cues[j].id by {
        let i0 = if b == at {
            was_at(k, to, i)
        } else {
            i
        };
        let j0 = if c == at {
            was_at(k, to, j)
        } else {
            j
        };
        assert(after[b].cues[i] == banks[b].cues[i0]);
        assert(after[c].cues[j] == banks[c].cues[j0]);
    }
}

/// Where the cue at `i` stood before the cue at `k` moved to `to`.
spec fn was_at(k: int, to: int, i: int) -> int {
    if i == to {
        k
    } else {
        let gap = if i > to {
            i - 1
        } else {
            i
        };
        if gap >= k {
            gap + 1
        } else {
            gap
        }
    }
}

proof fn apart_after_edit(banks: Seq<BankModel>, at: int, k: int, cue: CueModel, next: int)
    requires
        ids_apart(banks, next),
        0 <= at < banks.len(),
        0 <= k < banks[at].cues.len(),
        cue.id == banks[at].cues[k].id,
    ensures
        ids_apart(banks.update(at, banks[at].with_cue(k, cue)), next),
{
    let after = banks.update(at, banks[at].with_cue(k, cue));
    assert forall|b: int, i: int|
        #![trigger after[b].cues[i]]
        0 <= b < after.len() && 0 <= i < after[b].cues.len() implies after[b].cues[i].id
        == banks[b].cues[i].id by {}
}

proof fn apart_after_unpin(banks: Seq<BankModel>, id: ShaderId, next: int)
    requires
        ids_apart(banks, next),
    ensures
        ids_apart(Seq::new(banks.len(), |i: int| unpinned_bank(banks[i], id)), next),
{
    let after = Seq::new(banks.len(), |i: int| unpinned_bank(banks[i], id));
    assert forall|b: int, i: int|
        #![trigger after[b].cues[i]]
        0 <= b < after.len() && 0 <= i < after[b].cues.len() implies after[b].cues[i].id
        == banks[b].cues[i].id by {}
}

proof fn apart_after_bank(banks: Seq<BankModel>, name: Seq<char>, next: int)
    requires
        ids_apart(banks, next),
    ensures
        ids_apart(banks.push(BankModel::empty(name)), next),
{
    let after = banks.push(BankModel::empty(name));
    assert forall|b: int, i: int|
        #![trigger after[b].cues[i]]
        0 <= b < after.len() && 0 <= i < after[b].cues.len() implies after[b].cues[i]
        == banks[b].cues[i] by {}
}

proof fn edit_keeps_apart(m: AppModel, id: CueId, f: spec_fn(CueModel) -> CueModel)
    requires
        m.wf(),
        ids_apart(m.banks, m.next_cue_id as int),
        forall|c: CueModel| (#[trigger] f(c)).id == c.id,
    ensures
        ids_apart(m.edited(id, f).banks, m.edited(id, f).next_cue_id as int),
{
    let b = m.editing();
    first_at_bounds(b.cues, has_id(id));
    if b.has(id) {
        let k = b.index_of(id);
        apart_after_edit(m.banks, m.edit_bank, k, f(b.cues[k]), m.next_cue_id as int);
    }
}

proof fn sequencing_keeps_banks(m: AppModel, step: (SeqModel, Seq<SequencerEvent>))
    ensures
        m.sequenced(step).0.banks == m.banks,
        m.sequenced(step).0.next_cue_id == m.next_cue_id,
{
    events_touch_only_playback(AppModel { seq: step.0, ..m }, step.1);
}

proof fn resync_keeps_banks(m: AppModel)
    ensures
        m.resynced().0.banks == m.banks,
        m.resynced().0.next_cue_id == m.next_cue_id,
        m.resynced_if_editing().0.banks == m.banks,
        m.resynced_if_editing().0.next_cue_id == m.next_cue_id,
{
    sequencing_keeps_banks(m, m.seq.with_active(ids_of(m.banks[m.live_bank].cues)));
}

proof fn toggling_keeps_apart(m: AppModel, clip: ClipId, beat: int)
    requires
        m.wf(),
        m.next_cue_id < u32::MAX,
        ids_apart(m.banks, m.next_cue_id as int),
    ensures
        ({
            let after = m.clip_toggled(clip, beat).0;
            &&& ids_apart(after.banks, after.next_cue_id as int)
            &&& after.next_cue_id <= m.next_cue_id + 1
        }),
{
    let next = m.next_cue_id as int;
    let b = m.banks[m.live_bank];
    let i = first_at(b.cues, plays(clip));
    first_at_bounds(b.cues, plays(clip));
    if i < b.cues.len() {
        apart_after_remove(m.banks, m.live_bank, i, next);
        let mid = AppModel {
            banks: m.banks.update(m.live_bank, BankModel { cues: b.cues.remove(i), ..b }),
            selected_cue: m.selection_without(b.cues[i].id),
            ..m
        };
        sequencing_keeps_banks(mid, m.seq.toggled(b.cues[i].id, beat));
    } else {
        let cue = CueModel::fresh(m.next_cue_id, clip, m.clip_name(clip));
        apart_after_push(m.banks, m.live_bank, cue, next);
        let mid = AppModel {
            banks: m.banks.update(m.live_bank, BankModel { cues: b.cues.push(cue), ..b }),
            next_cue_id: (m.next_cue_id + 1) as CueId,
            ..m
        };
        sequencing_keeps_banks(mid, m.seq.toggled(cue.id, beat));
    }
}

/// No command ever gives two cues the same id.
pub proof fn commands_keep_cue_ids_apart(m: AppModel, cmd: Command, clock_bpm: MicroBpm, now: Nanos)
    requires
        m.wf(),
        m.admits(cmd),
        ids_apart(m.banks, m.next_cue_id as int),
    ensures
        ({
            let after = m.commanded(cmd, clock_bpm, now).0;
            ids_apart(after.banks, after.next_cue_id as int)
        }),
{
    let next = m.next_cue_id as int;
    let e = m.editing();
    match cmd {
        Command::HardReset => {
            sequencing_keeps_banks(m.unprimed(), m.unprimed().seq.rewound());
        },
        Command::SetTimeSig(ts) => {
            let mid = AppModel { time_sig: ts.spec_sanitized(), ..m };
            sequencing_keeps_banks(
                mid,
                mid.seq.with_phrase_len(
                    crate::engine::cadence_beats(mid.phrase_cadence, mid.time_sig),
                ),
            );
        },
        Command::SetPhraseCadence(c) => {
            let mid = AppModel { phrase_cadence: c, ..m };
            sequencing_keeps_banks(
                mid,
                mid.seq.with_phrase_len(crate::engine::cadence_beats(c, mid.time_sig)),
            );
        },
        Command::SetLoopCadence(c) => {
            let mid = AppModel { loop_cadence: c, ..m };
            sequencing_keeps_banks(
                mid,
                mid.seq.with_phrase_len(
                    crate::engine::cadence_beats(mid.phrase_cadence, mid.time_sig),
                ),
            );
        },
        Command::ToggleClipActive(clip) => toggling_keeps_apart(m, clip, m.last_beat as int),
        Command::AddCue(clip) => {
            let cue = CueModel::fresh(m.next_cue_id, clip, m.clip_name(clip));
            apart_after_push(m.banks, m.edit_bank, cue, next);
            resync_keeps_banks(
                AppModel {
                    selected_cue: Some(m.next_cue_id),
                    next_cue_id: (m.next_cue_id + 1) as CueId,
                    ..m.with_edit_bank(BankModel { cues: e.cues.push(cue), ..e })
                },
            );
        },
        Command::RemoveCue(id) => {
            first_at_bounds(e.cues, has_id(id));
            if e.has(id) {
                let k = e.index_of(id);
                apart_after_remove(m.banks, m.edit_bank, k, next);
                resync_keeps_banks(
                    AppModel {
                        selected_cue: m.selection_without(id),
                        ..m.with_edit_bank(BankModel { cues: e.cues.remove(k), ..e })
                    },
                );
            }
        },
        Command::MoveCue(id, target) => {
            first_at_bounds(e.cues, has_id(id));
            if e.has(id) {
                let k = e.index_of(id);
                let rest = e.cues.remove(k);
                let to = crate::editing::at_most_int(target as int, rest.len() as int);
                apart_after_move(m.banks, m.edit_bank, k, to, next);
                resync_keeps_banks(
                    m.with_edit_bank(BankModel { cues: rest.insert(to, e.cues[k]), ..e }),
                );
            }
        },
        Command::SetCueIn(id, s) => edit_keeps_apart(m, id, crate::editing::in_point_set(s)),
        Command::SetCueOut(id, s) => edit_keeps_apart(m, id, crate::editing::out_point_set(s)),
        Command::SetCueInToPlayhead(id) => {
            edit_keeps_apart(m, id, crate::editing::in_point_set(m.current_pts));
        },
        Command::SetCueOutToPlayhead(id) => {
            let p: MicroSecs = if m.current_pts < 0 {
                0
            } else {
                m.current_pts
            };
            edit_keeps_apart(m, id, crate::editing::out_point_set(Some(p)));
        },
        Command::SetCuePreserve(id, v) => edit_keeps_apart(m, id, crate::editing::preserve_set(v)),
        Command::SetCueChain(id, chain) => {
            edit_keeps_apart(m, id, crate::editing::chain_set(views(chain@)));
        },
        Command::SetChainParam { cue, slot, name, value } => {
            edit_keeps_apart(m, cue, crate::editing::effect_param_set(slot as int, name@, value));
        },
        Command::SetCueParam(id, p) => {
            edit_keeps_apart(m, id, crate::editing::knob_set(p));
            resync_keeps_banks(m.edited(id, crate::editing::knob_set(p)));
        },
        Command::SetAdvancedMode(on) => {
            resync_keeps_banks(AppModel { advanced: on, loop_prev: None, ..m });
        },
        Command::AddBank => {
            apart_after_bank(m.banks, crate::editing::bank_name(m.banks.len() as int), next);
        },
        Command::SetLiveBank(i) => {
            resync_keeps_banks(AppModel { live_bank: i as int, ..m });
        },
        Command::CycleLiveBank(d) => {
            if m.banks.len() >= 2 {
                resync_keeps_banks(
                    AppModel { live_bank: (m.live_bank + d) % m.banks.len() as int, ..m },
                );
            }
        },
        Command::RemoveShader(id) => apart_after_unpin(m.banks, id, next),
        _ => {},
    }
}

/// A tick of the clock changes no bank.
pub proof fn ticks_change_no_bank(m: AppModel, snap: ClockSnapshot)
    ensures
        m.ticked(snap).0.banks == m.banks,
        m.ticked(snap).0.next_cue_id == m.next_cue_id,
        m.ticked(snap).0.live_bank == m.live_bank,
{
    let mid = AppModel { last_beat: snap.beat, last_bpm: snap.bpm, ..m };
    let step = m.seq.stepped(m.own_steps(), snap.beat as int, snap.is_playing);
    events_touch_only_playback(AppModel { seq: step.0, ..mid }, step.1);
}

/// Whether the sequencer's active set is the live bank, in its order.
pub open spec fn in_step(m: AppModel) -> bool {
    m.seq.active == ids_of(m.banks[m.live_bank].cues)
}

proof fn sequencing_sets_the_sequencer(m: AppModel, step: (SeqModel, Seq<SequencerEvent>))
    ensures
        m.sequenced(step).0.seq == step.0,
        m.sequenced(step).0.banks == m.banks,
        m.sequenced(step).0.live_bank == m.live_bank,
{
    events_touch_only_playback(AppModel { seq: step.0, ..m }, step.1);
}

proof fn resync_brings_in_step(m: AppModel)
    ensures
        in_step(m.resynced().0),
        m.edit_bank == m.live_bank ==> in_step(m.resynced_if_editing().0),
{
    sequencing_sets_the_sequencer(m, m.seq.with_active(ids_of(m.banks[m.live_bank].cues)));
}

proof fn edits_keep_in_step(m: AppModel, id: CueId, f: spec_fn(CueModel) -> CueModel)
    requires
        m.wf(),
        in_step(m),
        forall|c: CueModel| (#[trigger] f(c)).id == c.id,
    ensures
        in_step(m.edited(id, f)),
{
    let b = m.editing();
    first_at_bounds(b.cues, has_id(id));
    if b.has(id) {
        let after = b.with_cue(b.index_of(id), f(b.cues[b.index_of(id)]));
        assert(ids_of(after.cues) =~= ids_of(b.cues));
    }
}

proof fn cadences_keep_in_step(m: AppModel)
    requires
        in_step(m),
    ensures
        in_step(m.cadences_applied().0),
{
    sequencing_sets_the_sequencer(
        m,
        m.seq.with_phrase_len(crate::engine::cadence_beats(m.phrase_cadence, m.time_sig)),
    );
}

proof fn toggling_keeps_in_step(m: AppModel, clip: ClipId, beat: int)
    requires
        m.wf(),
        m.next_cue_id < u32::MAX,
        ids_apart(m.banks, m.next_cue_id as int),
        in_step(m),
    ensures
        in_step(m.clip_toggled(clip, beat).0),
{
    let b = m.banks[m.live_bank];
    let i = first_at(b.cues, plays(clip));
    first_at_bounds(b.cues, plays(clip));
    if i < b.cues.len() {
        let id = b.cues[i].id;
        let mid = AppModel {
            banks: m.banks.update(m.live_bank, BankModel { cues: b.cues.remove(i), ..b }),
            selected_cue: m.selection_without(id),
            ..m
        };
        sequencing_sets_the_sequencer(mid, m.seq.toggled(id, beat));
        assert forall|j: int| 0 <= j < i implies !is_cue(id)(#[trigger] m.seq.active[j]) by {
            assert(m.banks[m.live_bank].cues[j].id != m.banks[m.live_bank].cues[i].id);
        }
        first_at_is(m.seq.active, is_cue(id), i);
        assert(m.seq.active.remove(i) =~= ids_of(b.cues.remove(i)));
    } else {
        let cue = CueModel::fresh(m.next_cue_id, clip, m.clip_name(clip));
        let mid = AppModel {
            banks: m.banks.update(m.live_bank, BankModel { cues: b.cues.push(cue), ..b }),
            next_cue_id: (m.next_cue_id + 1) as CueId,
            ..m
        };
        sequencing_sets_the_sequencer(mid, m.seq.toggled(cue.id, beat));
        assert forall|j: int| 0 <= j < m.seq.active.len() implies !is_cue(cue.id)(
            #[trigger] m.seq.active[j],
        ) by {
            assert(m.banks[m.live_bank].cues[j].id < m.next_cue_id);
        }
        first_at_is(m.seq.active, is_cue(cue.id), m.seq.active.len() as int);
        assert(m.seq.active.push(cue.id) =~= ids_of(b.cues.push(cue)));
    }
}

/// The sequencer plays the live bank's cues: no command lets its active set get
/// out of step with the bank.
pub proof fn commands_keep_the_set_in_step(m: AppModel, cmd: Command, clock_bpm: MicroBpm, now: Nanos)
    requires
        m.wf(),
        m.admits(cmd),
        ids_apart(m.banks, m.next_cue_id as int),
        in_step(m),
    ensures
        in_step(m.commanded(cmd, clock_bpm, now).0),
{
    let e = m.editing();
    match cmd {
        Command::HardReset => {
            sequencing_sets_the_sequencer(m.unprimed(), m.unprimed().seq.rewound());
        },
        Command::SetTimeSig(ts) => {
            cadences_keep_in_step(AppModel { time_sig: ts.spec_sanitized(), ..m });
            let mid = AppModel { time_sig: ts.spec_sanitized(), ..m };
            sequencing_sets_the_sequencer(
                mid,
                mid.seq.with_phrase_len(crate::engine::cadence_beats(mid.phrase_cadence, mid.time_sig)),
            );
        },
        Command::SetPhraseCadence(c) => cadences_keep_in_step(AppModel { phrase_cadence: c, ..m }),
        Command::SetLoopCadence(c) => cadences_keep_in_step(AppModel { loop_cadence: c, ..m }),
        Command::ToggleClipActive(clip) => toggling_keeps_in_step(m, clip, m.last_beat as int),
        Command::AddCue(clip) => {
            let cue = CueModel::fresh(m.next_cue_id, clip, m.clip_name(clip));
            resync_brings_in_step(
                AppModel {
                    selected_cue: Some(m.next_cue_id),
                    next_cue_id: (m.next_cue_id + 1) as CueId,
                    ..m.with_edit_bank(BankModel { cues: e.cues.push(cue), ..e })
                },
            );
        },
        Command::RemoveCue(id) => {
            if e.has(id) {
                resync_brings_in_step(
                    AppModel {
                        selected_cue: m.selection_without(id),
                        ..m.with_edit_bank(BankModel { cues: e.cues.remove(e.index_of(id)), ..e })
                    },
                );
            }
        },
        Command::MoveCue(id, target) => {
            if e.has(id) {
                let k = e.index_of(id);
                let rest = e.cues.remove(k);
                let to = crate::editing::at_most_int(target as int, rest.len() as int);
                resync_brings_in_step(
                    m.with_edit_bank(BankModel { cues: rest.insert(to, e.cues[k]), ..e }),
                );
            }
        },
        Command::SetCueIn(id, s) => edits_keep_in_step(m, id, crate::editing::in_point_set(s)),
        Command::SetCueOut(id, s) => edits_keep_in_step(m, id, crate::editing::out_point_set(s)),
        Command::SetCueInToPlayhead(id) => {
            edits_keep_in_step(m, id, crate::editing::in_point_set(m.current_pts));
        },
        Command::SetCueOutToPlayhead(id) => {
            let p: MicroSecs = if m.current_pts < 0 {
                0
            } else {
                m.current_pts
            };
            edits_keep_in_step(m, id, crate::editing::out_point_set(Some(p)));
        },
        Command::SetCuePreserve(id, v) => edits_keep_in_step(m, id, crate::editing::preserve_set(v)),
        Command::SetCueChain(id, chain) => {
            edits_keep_in_step(m, id, crate::editing::chain_set(views(chain@)));
        },
        Command::SetChainParam { cue, slot, name, value } => {
            edits_keep_in_step(m, cue, crate::editing::effect_param_set(slot as int, name@, value));
        },
        Command::SetCueParam(id, p) => {
            edits_keep_in_step(m, id, crate::editing::knob_set(p));
            resync_brings_in_step(m.edited(id, crate::editing::knob_set(p)));
        },
        Command::SetAdvancedMode(on) => {
            resync_brings_in_step(AppModel { advanced: on, loop_prev: None, ..m });
        },
        Command::SetLiveBank(i) => {
            resync_brings_in_step(AppModel { live_bank: i as int, ..m });
        },
        Command::CycleLiveBank(d) => {
            if m.banks.len() >= 2 {
                resync_brings_in_step(
                    AppModel { live_bank: (m.live_bank + d) % m.banks.len() as int, ..m },
                );
            }
        },
        Command::RemoveShader(id) => {
            let b = m.banks[m.live_bank];
            assert(ids_of(unpinned_bank(b, id).cues) =~= ids_of(b.cues));
        },
        _ => {},
    }
}

/// A frame of the clock keeps the active set in step with the live bank.
pub proof fn ticks_keep_the_set_in_step(m: AppModel, snap: ClockSnapshot)
    requires
        in_step(m),
    ensures
        in_step(m.ticked(snap).0),
{
    let mid = AppModel { last_beat: snap.beat, last_bpm: snap.bpm, ..m };
    sequencing_sets_the_sequencer(
        mid,
        m.seq.stepped(m.own_steps(), snap.beat as int, snap.is_playing),
    );
}

/// An effect that was compiled for a cue joins its chain with the set in step and
/// the ids apart.
pub proof fn an_effect_joins_with_the_set_in_step(m: AppModel, cue: CueId, slot: ChainSlotModel)
    requires
        m.wf(),
        in_step(m),
        ids_apart(m.banks, m.next_cue_id as int),
    ensures
        ({
            let after = m.edited(cue, effect_appended(slot));
            in_step(after) && ids_apart(after.banks, after.next_cue_id as int)
        }),
{
    edits_keep_in_step(m, cue, effect_appended(slot));
    edit_keeps_apart(m, cue, effect_appended(slot));
}

/// Another pool starts out in step, and an extended one stays so; so do the ids
/// of its cues.
pub proof fn pools_keep_the_set_in_step(m: AppModel, dir: Seq<char>, clips: Seq<ClipModel>)
    ensures
        ({
            let other = m.pool_replaced(dir, clips).0;
            in_step(other) && ids_apart(other.banks, other.next_cue_id as int)
        }),
        in_step(m) ==> in_step(m.pool_extended(dir, clips)),
        ids_apart(m.banks, m.next_cue_id as int) ==> ids_apart(
            m.pool_extended(dir, clips).banks,
            m.pool_extended(dir, clips).next_cue_id as int,
        ),
{
    assert(m.pool_replaced(dir, clips).0.seq.active =~= ids_of(BankModel::empty("A"@).cues));
}

proof fn toggling_keeps_wf(m: AppModel, clip: ClipId, beat: int)
    requires
        m.wf(),
        i64::MIN <= beat <= i64::MAX,
    ensures
        m.clip_toggled(clip, beat).0.wf(),
{
    let b = m.banks[m.live_bank];
    let i = first_at(b.cues, plays(clip));
    let (id, mid) = if i < b.cues.len() {
        (
            b.cues[i].id,
            AppModel {
                banks: m.banks.update(m.live_bank, BankModel { cues: b.cues.remove(i), ..b }),
                selected_cue: m.selection_without(b.cues[i].id),
                ..m
            },
        )
    } else {
        let cue = CueModel::fresh(m.next_cue_id, clip, m.clip_name(clip));
        (
            m.next_cue_id,
            AppModel {
                banks: m.banks.update(m.live_bank, BankModel { cues: b.cues.push(cue), ..b }),
                next_cue_id: (m.next_cue_id + 1) as CueId,
                ..m
            },
        )
    };
    operations_are_orderly(m.seq, beat, true, id, seq![], 0, seq![]);
    playback_follows_the_sequencer(mid, m.seq.toggled(id, beat));
}

pub(crate) proof fn ids_lie_below_the_next(ids: Seq<u32>, least: int)
    ensures
        id_after(ids, least) >= least,
        forall|i: int| 0 <= i < ids.len() ==> #[trigger] ids[i] < id_after(ids, least),
    decreases ids.len(),
{
    if ids.len() > 0 {
        ids_lie_below_the_next(ids.drop_last(), least);
        assert forall|i: int| 0 <= i < ids.len() implies #[trigger] ids[i] < id_after(ids, least) by {
            if i < ids.len() - 1 {
                assert(ids.drop_last()[i] == ids[i]);
            }
        }
    }
}

proof fn cue_ids_lie_below_the_next(banks: Seq<BankModel>)
    ensures
        forall|b: int, i: int|
            #![trigger banks[b].cues[i]]
            0 <= b < banks.len() && 0 <= i < banks[b].cues.len() ==> banks[b].cues[i].id < cue_id_after(banks),
    decreases banks.len(),
{
    if banks.len() > 0 {
        cue_ids_lie_below_the_next(banks.drop_last());
        let ids = ids_of(banks.last().cues);
        ids_lie_below_the_next(ids, cue_id_after(banks.drop_last()));
        assert forall|b: int, i: int|
            #![trigger banks[b].cues[i]]
            0 <= b < banks.len() && 0 <= i < banks[b].cues.len() implies banks[b].cues[i].id < cue_id_after(
            banks,
        ) by {
            if b == banks.len() - 1 {
                assert(ids[i] == banks[b].cues[i].id);
            } else {
                assert(banks.drop_last()[b].cues[i] == banks[b].cues[i]);
            }
        }
    }
}

proof fn the_next_cue_id_is_a_number(banks: Seq<BankModel>)
    requires
        cue_ids_bounded(banks),
    ensures
        1 <= cue_id_after(banks) <= u32::MAX,
    decreases banks.len(),
{
    if banks.len() > 0 {
        let before = banks.drop_last();
        assert forall|b: int, i: int|
            #![trigger before[b].cues[i]]
            0 <= b < before.len() && 0 <= i < before[b].cues.len() implies before[b].cues[i].id < u32::MAX by {
            assert(before[b].cues[i] == banks[b].cues[i]);
        }
        the_next_cue_id_is_a_number(before);
        let ids = ids_of(banks.last().cues);
        assert forall|i: int| 0 <= i < ids.len() implies #[trigger] ids[i] < u32::MAX by {
            assert(banks[banks.len() - 1].cues[i].id < u32::MAX);
        }
        the_next_id_is_a_number(ids, cue_id_after(before));
    }
}

proof fn the_next_id_is_a_number(ids: Seq<u32>, least: int)
    requires
        1 <= least <= u32::MAX,
        forall|i: int| 0 <= i < ids.len() ==> #[trigger] ids[i] < u32::MAX,
    ensures
        1 <= id_after(ids, least) <= u32::MAX,
    decreases ids.len(),
{
    if ids.len() > 0 {
        assert forall|i: int| 0 <= i < ids.drop_last().len() implies #[trigger] ids.drop_last()[i] < u32::MAX by {
            assert(ids.drop_last()[i] == ids[i]);
        }
        the_next_id_is_a_number(ids.drop_last(), least);
    }
}

pub(crate) proof fn toggled_clips_keep_in_step(m: AppModel, ids: Seq<ClipId>)
    requires
        m.wf(),
        m.next_cue_id + ids.len() <= u32::MAX,
        ids_apart(m.banks, m.next_cue_id as int),
        in_step(m),
    ensures
        ({
            let after = m.clips_toggled(ids).0;
            &&& after.wf()
            &&& in_step(after)
            &&& ids_apart(after.banks, after.next_cue_id as int)
            &&& after.next_cue_id <= m.next_cue_id + ids.len()
        }),
    decreases ids.len(),
{
    if ids.len() > 0 {
        toggled_clips_keep_in_step(m, ids.drop_last());
        let before = m.clips_toggled(ids.drop_last()).0;
        toggling_keeps_in_step(before, ids.last(), 0);
        toggling_keeps_wf(before, ids.last(), 0);
        toggling_keeps_apart(before, ids.last(), 0);
    }
}

/// A session starts in step: the first cue bank plays, or the clips that were
/// activated do. When no two of its cues share an id, it starts with the ids
/// apart.
pub proof fn a_session_starts_in_step(boot: Boot)
    requires
        bootable(boot),
    ensures
        in_step(started(boot).0),
        ids_apart(views(boot.cue_banks@), u32::MAX as int) ==> ids_apart(
            started(boot).0.banks,
            started(boot).0.next_cue_id as int,
        ),
{
    let base = AppModel::booted(boot);
    cue_ids_lie_below_the_next(base.banks);
    if boot.cue_banks@.len() > 0 {
        resync_brings_in_step(base);
        resync_keeps_banks(base);
        the_next_cue_id_is_a_number(base.banks);
    } else {
        let one = base.banks;
        assert(one.drop_last() =~= Seq::<BankModel>::empty());
        assert(ids_of(one.last().cues) =~= Seq::<u32>::empty());
        assert(cue_id_after(one.drop_last()) == 1);
        assert(base.seq.active =~= ids_of(base.banks[0].cues));
        toggled_clips_keep_in_step(base, boot.auto_active@);
    }
}

/// With the active set in step the rotation goes round the live bank in its
/// order, so that every cue of it gets its turn.
pub proof fn every_cue_of_the_live_bank_gets_its_turn(m: AppModel, i: int, k: nat)
    requires
        m.wf(),
        ids_apart(m.banks, m.next_cue_id as int),
        in_step(m),
        0 <= i < m.banks[m.live_bank].cues.len(),
    ensures
        ({
            let cues = m.banks[m.live_bank].cues;
            turns_after(m.seq.active, cues[i].id, k) == cues[(i + k) % cues.len() as int].id
        }),
{
    live_ids_are_apart(m);
    every_cue_gets_its_turn(m.seq.active, i, k);
    let n = m.seq.active.len() as int;
    assert(0 <= (i + k) % n < n);
}

proof fn live_ids_are_apart(m: AppModel)
    requires
        m.wf(),
        ids_apart(m.banks, m.next_cue_id as int),
        in_step(m),
    ensures
        m.seq.active.no_duplicates(),
{
    let l = m.live_bank;
    assert forall|a: int, b: int|
        0 <= a < m.seq.active.len() && 0 <= b < m.seq.active.len() && a != b implies m.seq.active[a]
        != m.seq.active[b] by {
        assert(m.banks[l].cues[a].id != m.banks[l].cues[b].id);
    }
}

/// While the set is in step a frame arms the cue after the one on display, going
/// round, and cuts to the armed cue only.
pub proof fn the_live_bank_plays_in_turn(m: AppModel, snap: ClockSnapshot, i: int)
    requires
        m.wf(),
        ids_apart(m.banks, m.next_cue_id as int),
        in_step(m),
        0 <= i < m.banks[m.live_bank].cues.len(),
        m.current == Some(m.banks[m.live_bank].cues[i].id),
    ensures
        ({
            let cues = m.banks[m.live_bank].cues;
            let after = m.ticked(snap).0;
            &&& m.seq.armed() is None && after.seq.armed() is Some ==> after.seq.armed() == Some(
                cues[(i + 1) % cues.len() as int].id,
            )
            &&& after.current != m.current ==> after.current == m.seq.armed()
        }),
{
    let mid = AppModel { last_beat: snap.beat, last_bpm: snap.bpm, ..m };
    let beat = snap.beat as int;
    let steps = m.own_steps();
    let step = m.seq.stepped(steps, beat, snap.is_playing);
    operations_are_orderly(m.seq, beat, snap.is_playing, 0, seq![], 0, steps);
    playback_follows_the_sequencer(mid, step);
    every_cue_of_the_live_bank_gets_its_turn(m, i, 1);
    reveal_with_fuel(turns_after, 2);
}

/// The state after a number of frames.
pub open spec fn played(m: AppModel, snaps: Seq<ClockSnapshot>) -> AppModel
    decreases snaps.len(),
{
    if snaps.len() == 0 {
        m
    } else {
        played(m, snaps.drop_last()).ticked(snaps.last()).0
    }
}

proof fn frames_keep_the_bank(m: AppModel, snaps: Seq<ClockSnapshot>)
    requires
        m.wf(),
        in_step(m),
        m.seq.armed() matches Some(n) ==> m.seq.active.contains(n),
        m.seq.active.len() > 0,
    ensures
        ({
            let after = played(m, snaps);
            &&& after.wf()
            &&& in_step(after)
            &&& after.banks == m.banks
            &&& after.live_bank == m.live_bank
            &&& after.seq.armed() matches Some(n) ==> after.seq.active.contains(n)
        }),
    decreases snaps.len(),
{
    if snaps.len() > 0 {
        frames_keep_the_bank(m, snaps.drop_last());
        frame_keeps_the_bank(played(m, snaps.drop_last()), snaps.last());
    }
}

proof fn frame_keeps_the_bank(m: AppModel, snap: ClockSnapshot)
    requires
        m.wf(),
        in_step(m),
        m.seq.armed() matches Some(n) ==> m.seq.active.contains(n),
    ensures
        ({
            let after = m.ticked(snap).0;
            &&& after.wf()
            &&& in_step(after)
            &&& after.banks == m.banks
            &&& after.live_bank == m.live_bank
            &&& after.seq.armed() matches Some(n) ==> after.seq.active.contains(n)
            &&& after.current != m.current ==> after.current is Some && m.seq.active.contains(
                after.current->0,
            )
        }),
{
    let mid = AppModel { last_beat: snap.beat, last_bpm: snap.bpm, ..m };
    let beat = snap.beat as int;
    let steps = m.own_steps();
    let step = m.seq.stepped(steps, beat, snap.is_playing);
    operations_are_orderly(m.seq, beat, snap.is_playing, 0, seq![], 0, steps);
    playback_follows_the_sequencer(mid, step);
    if let SeqState::Playing { cue } = m.seq.state {
        first_at_bounds(m.seq.active, is_cue(cue));
    }
}

/// A bank that went live takes over: every cut that a later frame makes leads to
/// one of its cues.
pub proof fn a_live_bank_takes_over(m: AppModel, i: int, snaps: Seq<ClockSnapshot>, snap: ClockSnapshot)
    requires
        m.wf(),
        0 <= i < m.banks.len(),
        i != m.live_bank,
        m.banks[i].cues.len() > 0,
    ensures
        ({
            let before = played(m.live_bank_set(i).0, snaps);
            let after = before.ticked(snap).0;
            &&& before.banks == m.banks
            &&& after.current != before.current ==> after.current is Some && ids_of(
                m.banks[i].cues,
            ).contains(after.current->0)
        }),
{
    let mid = AppModel { live_bank: i, ..m };
    let ids = ids_of(m.banks[i].cues);
    operations_are_orderly(m.seq, 0, true, 0, ids, 0, seq![]);
    playback_follows_the_sequencer(mid, m.seq.with_active(ids));
    let live = m.live_bank_set(i).0;
    resync_brings_in_step(mid);
    frames_keep_the_bank(live, snaps);
    frame_keeps_the_bank(played(live, snaps), snap);
}

/// And it takes over at the next phrase: a frame in the bar before the boundary
/// arms its first cue, and the first frame from the boundary on shows it. In
/// advanced mode that cue's delay comes on top. A switch that leaves a cue armed
/// has armed one of the bank's already.
pub proof fn a_live_bank_takes_over_at_the_next_phrase(
    m: AppModel,
    i: int,
    early: ClockSnapshot,
    due: ClockSnapshot,
)
    requires
        m.wf(),
        0 <= i < m.banks.len(),
        i != m.live_bank,
        m.banks[i].cues.len() > 0,
        m.current is Some,
        !m.banks[i].has(m.current->0),
        m.live_bank_set(i).0.seq.armed() is None,
        early.is_playing,
        due.is_playing,
        ({
            let delay = delay_of(m.live_bank_set(i).0.own_steps(), m.banks[i].cues[0].id);
            let cut = delay + next_boundary(early.beat - delay, m.seq.phrase_len as int);
            early.beat >= cut - ARM_LEAD && due.beat >= cut
        }),
    ensures
        m.live_bank_set(i).0.ticked(early).0.ticked(due).0.current == Some(m.banks[i].cues[0].id),
        !m.advanced ==> delay_of(m.live_bank_set(i).0.own_steps(), m.banks[i].cues[0].id) == 0,
{
    let mid = AppModel { live_bank: i, ..m };
    let ids = ids_of(m.banks[i].cues);
    operations_are_orderly(m.seq, 0, true, 0, ids, 0, seq![]);
    playback_follows_the_sequencer(mid, m.seq.with_active(ids));
    let live = m.live_bank_set(i).0;
    resync_brings_in_step(mid);
    let cur = m.current->0;
    let first = m.banks[i].cues[0].id;
    let steps = live.own_steps();
    first_at_bounds(m.banks[i].cues, has_id(cur));
    assert forall|j: int| 0 <= j < ids.len() implies !is_cue(cur)(#[trigger] ids[j]) by {
        assert(!has_id(cur)(m.banks[i].cues[j]));
    }
    first_at_is(ids, is_cue(cur), ids.len() as int);
    assert(first != cur) by {
        assert(ids[0] == first);
    }
    assert forall|j: int| 0 <= j < steps.len() implies !is_step(cur)(#[trigger] steps[j]) by {
        assert(ids[j] == steps[j].id);
    }
    first_at_is(steps, is_step(cur), steps.len() as int);
    if !m.advanced {
        first_at_bounds(steps, is_step(first));
    }
    let mid1 = AppModel { last_beat: early.beat, last_bpm: early.bpm, ..live };
    let step1 = live.seq.stepped(steps, early.beat as int, true);
    cuts_lie_ahead(live.seq, steps, cur, first, early.beat as int);
    operations_are_orderly(live.seq, early.beat as int, true, 0, seq![], 0, steps);
    playback_follows_the_sequencer(mid1, step1);
    let then = live.ticked(early).0;
    assert(then.seq.armed() == Some(first));
    let mid2 = AppModel { last_beat: due.beat, last_bpm: due.bpm, ..then };
    an_armed_cue_fires(then.seq, then.own_steps(), due.beat as int);
    operations_are_orderly(then.seq, due.beat as int, true, 0, seq![], 0, then.own_steps());
    playback_follows_the_sequencer(mid2, then.seq.stepped(then.own_steps(), due.beat as int, true));
}

} // verus!
