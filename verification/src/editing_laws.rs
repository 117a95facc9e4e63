//! What each edit of the cue banks changes, and that it changes nothing else.

use vstd::prelude::*;

use crate::app::{events_touch_only_playback, AppModel, EffectModel};
use crate::bank::{has_id, ids_of, BankModel, CueId, CueModel};
use crate::clippool::has_clip_id;
use crate::commands::{ChainSlotModel, ClipId, Command, CueParam, ShaderId, SlotRefModel};
use crate::editing::not_pinned;
use crate::isf::IsfValue;
use crate::playback_laws::{pooled_at, stands_at, stands_nowhere};
use crate::seqs::{first_at_bounds, first_at_is, kept};
use crate::text::{decimal_value, decimals_stand_for_their_number};
use crate::units::{MicroBpm, Nanos};

verus! {

/// Whether two states differ in one bank's cues at most, besides what plays.
pub open spec fn only_bank_changed(m: AppModel, after: AppModel, b: int) -> bool {
    &&& after.banks.len() == m.banks.len()
    &&& after.banks[b].name == m.banks[b].name
    &&& forall|k: int| 0 <= k < m.banks.len() && k != b ==> #[trigger] after.banks[k] == m.banks[k]
    &&& after == (AppModel {
        banks: after.banks,
        selected_cue: after.selected_cue,
        next_cue_id: after.next_cue_id,
        seq: after.seq,
        current: after.current,
        decoders: after.decoders,
        loop_prev: after.loop_prev,
        ..m
    })
}

/// Whether two states differ in one cue of the edit bank at most.
pub open spec fn only_cue_changed(m: AppModel, after: AppModel, i: int) -> bool {
    let (b, c) = (m.banks[m.edit_bank], after.banks[m.edit_bank]);
    &&& only_bank_changed(m, after, m.edit_bank)
    &&& c.cues.len() == b.cues.len()
    &&& forall|j: int| 0 <= j < b.cues.len() && j != i ==> #[trigger] c.cues[j] == b.cues[j]
    &&& after == (AppModel { banks: after.banks, ..m })
}

proof fn edit_found(m: AppModel, id: CueId, i: int)
    requires
        stands_at(m.banks[m.edit_bank].cues, id, i),
    ensures
        m.editing().has(id),
        m.editing().index_of(id) == i,
{
    first_at_is(m.editing().cues, has_id(id), i);
}

proof fn edit_missed(m: AppModel, id: CueId)
    requires
        stands_nowhere(m.banks[m.edit_bank].cues, id),
    ensures
        !m.editing().has(id),
{
    first_at_is(m.editing().cues, has_id(id), m.editing().cues.len() as int);
}

proof fn resync_touches_playback(m: AppModel)
    ensures
        ({
            let after = m.resynced_if_editing().0;
            after == (AppModel {
                seq: after.seq,
                current: after.current,
                decoders: after.decoders,
                loop_prev: after.loop_prev,
                ..m
            })
        }),
        ({
            let after = m.resynced().0;
            after == (AppModel {
                seq: after.seq,
                current: after.current,
                decoders: after.decoders,
                loop_prev: after.loop_prev,
                ..m
            })
        }),
{
    let step = m.seq.with_active(ids_of(m.banks[m.live_bank].cues));
    events_touch_only_playback(AppModel { seq: step.0, ..m }, step.1);
}

/// A removed cue is gone: the edit bank holds the other cues, unchanged and in
/// their order, and if no other has its id, none with it. A cue that is not there
/// is not removed.
pub proof fn a_removed_cue_is_gone(m: AppModel, id: CueId, i: int, clock_bpm: MicroBpm, now: Nanos)
    requires
        m.wf(),
        stands_at(m.banks[m.edit_bank].cues, id, i) || stands_nowhere(m.banks[m.edit_bank].cues, id),
    ensures
        ({
            let after = m.commanded(Command::RemoveCue(id), clock_bpm, now).0;
            let (b, c) = (m.banks[m.edit_bank].cues, after.banks[m.edit_bank].cues);
            &&& only_bank_changed(m, after, m.edit_bank)
            &&& stands_nowhere(b, id) ==> after == m
            &&& stands_at(b, id, i) ==> {
                &&& c.len() == b.len() - 1
                &&& forall|j: int| 0 <= j < i ==> #[trigger] c[j] == b[j]
                &&& forall|j: int| i <= j < c.len() ==> #[trigger] c[j] == b[j + 1]
                &&& (forall|j: int| 0 <= j < b.len() && j != i ==> (#[trigger] b[j]).id != id) ==> stands_nowhere(
                    c,
                    id,
                )
                &&& after.selected_cue != Some(id)
                &&& m.selected_cue != Some(id) ==> after.selected_cue == m.selected_cue
            }
            &&& after.next_cue_id == m.next_cue_id
        }),
{
    let b = m.editing();
    if stands_nowhere(b.cues, id) {
        edit_missed(m, id);
    } else {
        edit_found(m, id, i);
        let mid = AppModel {
            selected_cue: m.selection_without(id),
            ..m.with_edit_bank(BankModel { cues: b.cues.remove(i), ..b })
        };
        resync_touches_playback(mid);
        let c = m.commanded(Command::RemoveCue(id), clock_bpm, now).0.banks[m.edit_bank].cues;
        if forall|j: int| 0 <= j < b.cues.len() && j != i ==> (#[trigger] b.cues[j]).id != id {
            assert forall|j: int| 0 <= j < c.len() implies (#[trigger] c[j]).id != id by {
                if j < i {
                    assert(c[j] == b.cues[j]);
                } else {
                    assert(c[j] == b.cues[j + 1]);
                }
            }
        }
    }
}

/// A clip added to the edit bank is its last cue: the whole clip, at normal speed,
/// under the clip's name and an id of its own, with every option inherited or
/// off, and selected.
pub proof fn an_added_cue_is_the_whole_clip(m: AppModel, clip: ClipId, k: int, clock_bpm: MicroBpm, now: Nanos)
    requires
        m.wf(),
        m.next_cue_id < u32::MAX,
        pooled_at(m.clips, clip, k),
    ensures
        ({
            let after = m.commanded(Command::AddCue(clip), clock_bpm, now).0;
            let (b, c) = (m.banks[m.edit_bank].cues, after.banks[m.edit_bank].cues);
            &&& only_bank_changed(m, after, m.edit_bank)
            &&& c.len() == b.len() + 1
            &&& forall|j: int| 0 <= j < b.len() ==> #[trigger] c[j] == b[j]
            &&& c.last().id == m.next_cue_id
            &&& after.next_cue_id == m.next_cue_id + 1
            &&& after.selected_cue == Some(m.next_cue_id)
            &&& whole_clip(c.last(), clip, m.clips[k].name)
        }),
{
    let b = m.editing();
    first_at_is(m.clips, crate::clippool::has_clip_id(clip), k);
    let cue = CueModel::fresh(m.next_cue_id, clip, m.clip_name(clip));
    resync_touches_playback(
        AppModel {
            selected_cue: Some(m.next_cue_id),
            next_cue_id: (m.next_cue_id + 1) as CueId,
            ..m.with_edit_bank(BankModel { cues: b.cues.push(cue), ..b })
        },
    );
}

/// Whether a cue plays a whole clip with every option inherited or off.
pub open spec fn whole_clip(c: CueModel, clip: ClipId, name: Seq<char>) -> bool {
    &&& c.clip == clip && c.name == name
    &&& c.in_sec == 0 && c.out_sec is None
    &&& c.preserve is None && c.chain.len() == 0
    &&& c.dwell is None && c.loop_len is None && c.bpm is None && !c.bpm_sync_on
    &&& !c.loop_phase.on && !c.start_nudge.on && !c.trig_delay.on && !c.speed_mul.on
    &&& c.loop_phase.val == 0 && c.start_nudge.val == 0 && c.trig_delay.val == 0 && c.speed_mul.val == 1_000_000
}

/// A moved cue ends where it was sent, or last when that is past the end, and the
/// others keep their order.
pub proof fn a_moved_cue_ends_where_it_was_sent(
    m: AppModel,
    id: CueId,
    i: int,
    to: usize,
    clock_bpm: MicroBpm,
    now: Nanos,
)
    requires
        m.wf(),
        stands_at(m.banks[m.edit_bank].cues, id, i),
    ensures
        ({
            let after = m.commanded(Command::MoveCue(id, to), clock_bpm, now).0;
            let (b, c) = (m.banks[m.edit_bank].cues, after.banks[m.edit_bank].cues);
            let p = if to < b.len() {
                to as int
            } else {
                b.len() - 1
            };
            &&& only_bank_changed(m, after, m.edit_bank)
            &&& after.selected_cue == m.selected_cue && after.next_cue_id == m.next_cue_id
            &&& c.len() == b.len()
            &&& c[p] == b[i]
            &&& c.remove(p) == b.remove(i)
        }),
{
    let b = m.editing();
    edit_found(m, id, i);
    let rest = b.cues.remove(i);
    let p = crate::editing::at_most_int(to as int, rest.len() as int);
    resync_touches_playback(m.with_edit_bank(BankModel { cues: rest.insert(p, b.cues[i]), ..b }));
    assert(rest.insert(p, b.cues[i]).remove(p) =~= rest);
}

/// A trim that is set is the cue's: an in-point before the start of the clip is
/// the start, and an out-point that is not after the in-point is dropped. Nothing
/// else of the session changes.
pub proof fn a_trim_that_is_set_is_the_cues(
    m: AppModel,
    id: CueId,
    i: int,
    s: i64,
    end: Option<i64>,
    clock_bpm: MicroBpm,
    now: Nanos,
)
    requires
        m.wf(),
        stands_at(m.banks[m.edit_bank].cues, id, i),
    ensures
        ({
            let a = m.commanded(Command::SetCueIn(id, s), clock_bpm, now);
            let b = m.commanded(Command::SetCueOut(id, end), clock_bpm, now);
            let old = m.banks[m.edit_bank].cues[i];
            let (x, y) = (a.0.banks[m.edit_bank].cues[i], b.0.banks[m.edit_bank].cues[i]);
            &&& a.1.len() == 0 && b.1.len() == 0
            &&& only_cue_changed(m, a.0, i) && only_cue_changed(m, b.0, i)
            &&& x == (CueModel { in_sec: x.in_sec, out_sec: x.out_sec, ..old })
            &&& x.in_sec >= 0 && (s >= 0 ==> x.in_sec == s) && (s < 0 ==> x.in_sec == 0)
            &&& x.out_sec == if old.out_sec is Some && old.out_sec->0 > x.in_sec {
                old.out_sec
            } else {
                None
            }
            &&& y == (CueModel { out_sec: y.out_sec, ..old })
            &&& y.out_sec == if end is Some && end->0 > old.in_sec {
                end
            } else {
                None
            }
        }),
{
    edit_found(m, id, i);
}

/// Setting a trim to the playhead takes the playhead of the cue on display, or the
/// start where that lies before it, and does nothing for any other cue.
pub proof fn the_playhead_trims_the_cue_on_display(m: AppModel, id: CueId, i: int, clock_bpm: MicroBpm, now: Nanos)
    requires
        m.wf(),
        stands_at(m.banks[m.edit_bank].cues, id, i),
    ensures
        m.current == Some(id) ==> m.commanded(Command::SetCueInToPlayhead(id), clock_bpm, now) == m.commanded(
            Command::SetCueIn(id, m.current_pts),
            clock_bpm,
            now,
        ) && m.commanded(Command::SetCueOutToPlayhead(id), clock_bpm, now) == m.commanded(
            Command::SetCueOut(
                id,
                Some(
                    if m.current_pts < 0 {
                        0
                    } else {
                        m.current_pts
                    },
                ),
            ),
            clock_bpm,
            now,
        ),
        m.current != Some(id) ==> m.commanded(Command::SetCueInToPlayhead(id), clock_bpm, now).0 == m
            && m.commanded(Command::SetCueOutToPlayhead(id), clock_bpm, now).0 == m,
{
}

/// An option that is set is the cue's, and nothing else of the session changes.
pub proof fn an_option_that_is_set_is_the_cues(
    m: AppModel,
    id: CueId,
    i: int,
    keep: Option<bool>,
    chain: Vec<crate::commands::ChainSlot>,
    clock_bpm: MicroBpm,
    now: Nanos,
)
    requires
        m.wf(),
        stands_at(m.banks[m.edit_bank].cues, id, i),
    ensures
        ({
            let a = m.commanded(Command::SetCuePreserve(id, keep), clock_bpm, now);
            let b = m.commanded(Command::SetCueChain(id, chain), clock_bpm, now);
            let old = m.banks[m.edit_bank].cues[i];
            let (x, y) = (a.0.banks[m.edit_bank].cues[i], b.0.banks[m.edit_bank].cues[i]);
            &&& a.1.len() == 0 && b.1.len() == 0
            &&& only_cue_changed(m, a.0, i) && only_cue_changed(m, b.0, i)
            &&& x == (CueModel { preserve: keep, ..old })
            &&& y == (CueModel { chain: y.chain, ..old })
            &&& y.chain.len() == chain@.len()
            &&& forall|k: int| 0 <= k < chain@.len() ==> #[trigger] y.chain[k] == chain@[k]@
        }),
{
    edit_found(m, id, i);
}

/// Each knob sets its own field of the cue, and no other.
pub proof fn a_knob_sets_its_own_field(
    m: AppModel,
    id: CueId,
    i: int,
    p: CueParam,
    clock_bpm: MicroBpm,
    now: Nanos,
)
    requires
        m.wf(),
        stands_at(m.banks[m.edit_bank].cues, id, i),
    ensures
        ({
            let after = m.commanded(Command::SetCueParam(id, p), clock_bpm, now).0;
            let old = m.banks[m.edit_bank].cues[i];
            let new = after.banks[m.edit_bank].cues[i];
            &&& only_bank_changed(m, after, m.edit_bank)
            &&& after.banks[m.edit_bank].cues == m.banks[m.edit_bank].cues.update(i, new)
            &&& after.selected_cue == m.selected_cue && after.next_cue_id == m.next_cue_id
            &&& new.id == old.id && new.clip == old.clip && new.name == old.name && new.in_sec == old.in_sec
            &&& new.out_sec == old.out_sec && new.preserve == old.preserve && new.chain == old.chain
            &&& new.dwell == if p is Dwell { p->Dwell_0 } else { old.dwell }
            &&& new.loop_len == if p is Loop { p->Loop_0 } else { old.loop_len }
            &&& new.loop_phase == if p is LoopPhase { p->LoopPhase_0 } else { old.loop_phase }
            &&& new.start_nudge == if p is StartNudge { p->StartNudge_0 } else { old.start_nudge }
            &&& new.trig_delay == if p is TrigDelay { p->TrigDelay_0 } else { old.trig_delay }
            &&& new.bpm == if p is Bpm { p->Bpm_0 } else { old.bpm }
            &&& new.bpm_sync_on == if p is BpmSync { p->BpmSync_0 } else { old.bpm_sync_on }
            &&& new.speed_mul == if p is SpeedMul { p->SpeedMul_0 } else { old.speed_mul }
        }),
{
    edit_found(m, id, i);
    let mid = m.edited(id, crate::editing::knob_set(p));
    resync_touches_playback(mid);
}

/// An edit of a cue that the edit bank does not hold changes nothing.
pub proof fn a_cue_that_is_not_there_is_not_edited(
    m: AppModel,
    id: CueId,
    cmd: Command,
    clock_bpm: MicroBpm,
    now: Nanos,
)
    requires
        m.wf(),
        stands_nowhere(m.banks[m.edit_bank].cues, id),
        match cmd {
            Command::RemoveCue(c) => c == id,
            Command::MoveCue(c, _) => c == id,
            Command::SetCueIn(c, _) => c == id,
            Command::SetCueOut(c, _) => c == id,
            Command::SetCueInToPlayhead(c) => c == id,
            Command::SetCueOutToPlayhead(c) => c == id,
            Command::SetCuePreserve(c, _) => c == id,
            Command::SetCueChain(c, _) => c == id,
            Command::SetChainParam { cue, .. } => cue == id,
            _ => false,
        },
    ensures
        m.commanded(cmd, clock_bpm, now).0 == m,
        m.commanded(cmd, clock_bpm, now).1.len() == 0,
{
    edit_missed(m, id);
}

/// One input of one effect is set: the input reads the value, every other input
/// of that effect reads what it did, and every other effect is as it was.
pub proof fn an_effect_input_is_set(
    m: AppModel,
    id: CueId,
    i: int,
    slot: usize,
    name: String,
    value: IsfValue,
    clock_bpm: MicroBpm,
    now: Nanos,
)
    requires
        m.wf(),
        stands_at(m.banks[m.edit_bank].cues, id, i),
        slot < m.banks[m.edit_bank].cues[i].chain.len(),
    ensures
        ({
            let after = m.commanded(Command::SetChainParam { cue: id, slot, name, value }, clock_bpm, now);
            let old = m.banks[m.edit_bank].cues[i];
            let new = after.0.banks[m.edit_bank].cues[i];
            let (x, y) = (old.chain[slot as int], new.chain[slot as int]);
            &&& after.1.len() == 0
            &&& only_cue_changed(m, after.0, i)
            &&& new == (CueModel { chain: new.chain, ..old })
            &&& new.chain == old.chain.update(slot as int, y)
            &&& y.shader == x.shader
            &&& exists|k: int| 0 <= k < y.params.len() && #[trigger] y.params[k] == (name@, value)
            &&& forall|k: int|
                0 <= k < x.params.len() && (#[trigger] x.params[k]).0 != name@ ==> k < y.params.len() && y.params[k]
                    == x.params[k]
            &&& forall|k: int|
                0 <= k < y.params.len() && (#[trigger] y.params[k]).0 != name@ ==> k < x.params.len()
            &&& x.params.len() <= y.params.len() <= x.params.len() + 1
        }),
{
    edit_found(m, id, i);
    let x = m.banks[m.edit_bank].cues[i].chain[slot as int];
    let y = x.with_param(name@, value);
    let k = crate::seqs::first_at(x.params, crate::commands::named(name@));
    first_at_bounds(x.params, crate::commands::named(name@));
    assert(y.params[k] == (name@, value));
}

/// An effect file is compiled for the selected cue, and for none when none is
/// selected; once compiled it is the last effect of that cue.
pub proof fn an_effect_file_joins_the_selected_cue(
    m: AppModel,
    path: String,
    id: CueId,
    i: int,
    slot: ChainSlotModel,
    clock_bpm: MicroBpm,
    now: Nanos,
)
    requires
        m.wf(),
        stands_at(m.banks[m.edit_bank].cues, id, i),
    ensures
        m.commanded(Command::LoadIsf(path), clock_bpm, now).0 == m,
        m.commanded(Command::LoadIsf(path), clock_bpm, now).1 == match m.selected_cue {
            Some(cue) => seq![EffectModel::CompileIsf { cue, path: path@ }],
            None => seq![],
        },
        ({
            let after = m.edited(id, crate::editing::effect_appended(slot));
            let (old, new) = (m.banks[m.edit_bank].cues[i], after.banks[m.edit_bank].cues[i]);
            &&& only_cue_changed(m, after, i)
            &&& new == (CueModel { chain: new.chain, ..old })
            &&& new.chain.len() == old.chain.len() + 1
            &&& new.chain.last() == slot
            &&& forall|k: int| 0 <= k < old.chain.len() ==> #[trigger] new.chain[k] == old.chain[k]
        }),
{
    edit_found(m, id, i);
}

proof fn kept_is_filter<T>(s: Seq<T>, p: spec_fn(T) -> bool)
    ensures
        kept(s, p) == s.filter(p),
    decreases s.len(),
{
    reveal(Seq::filter);
    if s.len() > 0 {
        kept_is_filter(s.drop_last(), p);
    }
}

/// A pinned shader that is removed leaves every chain, and everything else of
/// every chain stays in its order; the shell is told to drop it.
pub proof fn a_removed_pin_leaves_the_rest(m: AppModel, id: ShaderId, b: int, i: int, clock_bpm: MicroBpm, now: Nanos)
    requires
        m.wf(),
        0 <= b < m.banks.len(),
        0 <= i < m.banks[b].cues.len(),
    ensures
        ({
            let after = m.commanded(Command::RemoveShader(id), clock_bpm, now);
            let (old, new) = (m.banks[b].cues[i], after.0.banks[b].cues[i]);
            &&& after.1 == seq![EffectModel::RemovePoolShader(id)]
            &&& after.0 == (AppModel { banks: after.0.banks, ..m })
            &&& after.0.banks.len() == m.banks.len()
            &&& after.0.banks[b].name == m.banks[b].name && after.0.banks[b].cues.len() == m.banks[b].cues.len()
            &&& new == (CueModel { chain: new.chain, ..old })
            &&& new.chain == old.chain.filter(|s: ChainSlotModel| s.shader != SlotRefModel::Pinned(id))
        }),
{
    let old = m.banks[b].cues[i];
    kept_is_filter(old.chain, not_pinned(id));
    assert(not_pinned(id) =~= (|s: ChainSlotModel| s.shader != SlotRefModel::Pinned(id)));
}

/// The tempo of a clip that is set is the clip's; one that is not positive clears
/// it. Other clips are as they were.
pub proof fn a_clip_tempo_that_is_set_is_the_clips(
    m: AppModel,
    id: ClipId,
    k: int,
    bpm: Option<MicroBpm>,
    clock_bpm: MicroBpm,
    now: Nanos,
)
    requires
        m.wf(),
        pooled_at(m.clips, id, k),
    ensures
        ({
            let after = m.commanded(Command::SetClipBpm(id, bpm), clock_bpm, now);
            let (old, new) = (m.clips[k], after.0.clips[k]);
            &&& after.1.len() == 0
            &&& after.0 == (AppModel { clips: m.clips.update(k, new), ..m })
            &&& new.id == old.id && new.name == old.name && new.source == old.source
            &&& bpm is Some && bpm->0 > 0 ==> new.bpm == bpm
            &&& bpm is None || bpm->0 <= 0 ==> new.bpm is None
        }),
{
    first_at_is(m.clips, crate::clippool::has_clip_id(id), k);
}

/// The bank that is sent live is live, the one chosen for edits is edited with
/// nothing selected, stepping goes round the banks, and a bank that does not
/// exist is neither. No bank changes.
pub proof fn banks_are_chosen(m: AppModel, i: usize, step: i32, clock_bpm: MicroBpm, now: Nanos)
    requires
        m.wf(),
    ensures
        ({
            let n = m.banks.len() as int;
            let live = m.commanded(Command::SetLiveBank(i), clock_bpm, now).0;
            let edit = m.commanded(Command::SetEditBank(i), clock_bpm, now);
            let round = m.commanded(Command::CycleLiveBank(step), clock_bpm, now).0;
            &&& live.banks == m.banks && edit.0.banks == m.banks && round.banks == m.banks
            &&& live.edit_bank == m.edit_bank && round.edit_bank == m.edit_bank
            &&& live.live_bank == if i < n { i as int } else { m.live_bank }
            &&& edit.1.len() == 0 && edit.0.live_bank == m.live_bank
            &&& edit.0 == if i < n {
                AppModel { edit_bank: i as int, selected_cue: None, ..m }
            } else {
                m
            }
            &&& 0 <= round.live_bank < n
            &&& (round.live_bank - m.live_bank - step) % n == 0
        }),
{
    resync_touches_playback(AppModel { live_bank: i as int, ..m });
    let n = m.banks.len() as int;
    let to = (m.live_bank + step) % n;
    resync_touches_playback(AppModel { live_bank: to, ..m });
    let x = m.live_bank + step;
    vstd::arithmetic::div_mod::lemma_fundamental_div_mod(x, n);
    assert(x % n - m.live_bank - step == (-(x / n)) * n) by (nonlinear_arith)
        requires
            x == n * (x / n) + x % n,
            x == m.live_bank + step,
    ;
    vstd::arithmetic::div_mod::lemma_mod_multiples_basic(-(x / n), n);
    if n < 2 {
        assert(n == 1);
    }
}

/// A bank that is added comes last, is empty, and is called by the next letter;
/// past the alphabet a number follows the letter.
pub proof fn an_added_bank_is_empty(m: AppModel, clock_bpm: MicroBpm, now: Nanos)
    requires
        m.wf(),
    ensures
        ({
            let after = m.commanded(Command::AddBank, clock_bpm, now);
            let n = m.banks.len() as int;
            let new = after.0.banks[n];
            &&& after.1.len() == 0
            &&& after.0 == (AppModel { banks: m.banks.push(new), ..m })
            &&& new.cues.len() == 0
            &&& new.name.len() > 0
            &&& new.name[0] as int == 65 + n % 26
            &&& (n < 26) == (new.name.len() == 1)
            &&& n >= 26 ==> decimal_value(new.name.skip(1)) == n / 26
        }),
{
    let n = m.banks.len() as int;
    let new = m.commanded(Command::AddBank, clock_bpm, now).0.banks[n];
    if n >= 26 {
        decimals_stand_for_their_number((n / 26) as nat);
        assert(new.name.skip(1) =~= crate::text::decimal((n / 26) as nat));
    }
}

/// A clip that the live bank plays leaves it, by its first cue; one that it does
/// not play joins it as its last cue, whole.
pub proof fn a_toggled_clip_leaves_or_joins(m: AppModel, clip: ClipId, i: int, k: int, clock_bpm: MicroBpm, now: Nanos)
    requires
        m.wf(),
        m.next_cue_id < u32::MAX,
        pooled_at(m.clips, clip, k),
    ensures
        ({
            let after = m.commanded(Command::ToggleClipActive(clip), clock_bpm, now).0;
            let (b, c) = (m.banks[m.live_bank].cues, after.banks[m.live_bank].cues);
            let first = 0 <= i < b.len() && b[i].clip == clip && forall|j: int| 0 <= j < i ==> (#[trigger] b[j]).clip != clip;
            let none = forall|j: int| 0 <= j < b.len() ==> (#[trigger] b[j]).clip != clip;
            &&& only_bank_changed(m, after, m.live_bank)
            &&& first ==> c == b.remove(i) && after.next_cue_id == m.next_cue_id && after.selected_cue == (
            if m.selected_cue == Some(b[i].id) {
                None
            } else {
                m.selected_cue
            })
            &&& none ==> c.len() == b.len() + 1 && c.drop_last() == b && c.last().id == m.next_cue_id && whole_clip(
                c.last(),
                clip,
                m.clips[k].name,
            ) && after.next_cue_id == m.next_cue_id + 1 && after.selected_cue == m.selected_cue
        }),
{
    let b = m.banks[m.live_bank];
    let plays = crate::bank::plays(clip);
    first_at_is(m.clips, crate::clippool::has_clip_id(clip), k);
    let at = crate::seqs::first_at(b.cues, plays);
    first_at_bounds(b.cues, plays);
    if 0 <= i < b.cues.len() && b.cues[i].clip == clip && forall|j: int| 0 <= j < i ==> (#[trigger] b.cues[j]).clip != clip {
        first_at_is(b.cues, plays, i);
    }
    let beat = m.last_beat as int;
    if at < b.cues.len() {
        assert(b.cues[at].clip == clip);
        let id = b.cues[at].id;
        let mid = AppModel {
            banks: m.banks.update(m.live_bank, BankModel { cues: b.cues.remove(at), ..b }),
            selected_cue: m.selection_without(id),
            ..m
        };
        let step = m.seq.toggled(id, beat);
        events_touch_only_playback(AppModel { seq: step.0, ..mid }, step.1);
    } else {
        let cue = CueModel::fresh(m.next_cue_id, clip, m.clip_name(clip));
        let mid = AppModel {
            banks: m.banks.update(m.live_bank, BankModel { cues: b.cues.push(cue), ..b }),
            next_cue_id: (m.next_cue_id + 1) as CueId,
            ..m
        };
        let step = m.seq.toggled(cue.id, beat);
        events_touch_only_playback(AppModel { seq: step.0, ..mid }, step.1);
        assert(b.cues.push(cue).drop_last() =~= b.cues);
    }
}

/// Modes and options of the session that are set are in force; what is edited,
/// selected and pooled stays.
pub proof fn session_options_are_set(m: AppModel, on: bool, id: Option<CueId>, i: usize, clock_bpm: MicroBpm, now: Nanos)
    requires
        m.wf(),
    ensures
        m.commanded(Command::SetPreservePlayhead(on), clock_bpm, now) == (
            AppModel { preserve_playhead: on, ..m },
            Seq::<EffectModel>::empty(),
        ),
        m.commanded(Command::SelectCue(id), clock_bpm, now) == (
            AppModel { selected_cue: id, ..m },
            Seq::<EffectModel>::empty(),
        ),
        m.commanded(Command::SetActiveClipBank(i), clock_bpm, now) == (
            AppModel {
                active_clip_bank: if i < m.clip_banks.len() {
                    i as int
                } else {
                    m.active_clip_bank
                },
                ..m
            },
            Seq::<EffectModel>::empty(),
        ),
        m.commanded(Command::Quit, clock_bpm, now) == (
            AppModel { should_quit: true, ..m },
            Seq::<EffectModel>::empty(),
        ),
        ({
            let after = m.commanded(Command::SetAdvancedMode(on), clock_bpm, now).0;
            &&& after.advanced == on
            &&& after == (AppModel {
                advanced: on,
                seq: after.seq,
                current: after.current,
                decoders: after.decoders,
                loop_prev: after.loop_prev,
                ..m
            })
        }),
{
    resync_touches_playback(AppModel { advanced: on, loop_prev: None, ..m });
}

/// What needs the outside is asked of the shell as it was asked of the engine.
pub proof fn outside_work_is_passed_on(m: AppModel, p: String, name: Option<String>, clock_bpm: MicroBpm, now: Nanos)
    requires
        m.wf(),
    ensures
        m.commanded(Command::SetClipDir(p), clock_bpm, now) == (m, seq![EffectModel::ScanPool(p@)]),
        m.commanded(Command::AddClipDirAsBank(p), clock_bpm, now) == (m, seq![EffectModel::ScanBank(p@)]),
        m.commanded(Command::SetShaderPath(p), clock_bpm, now) == (
            AppModel { shader_path: p@, ..m },
            seq![EffectModel::WatchShader(p@), EffectModel::LoadShader(p@)],
        ),
        m.commanded(Command::SetAudioDevice(name), clock_bpm, now) == (
            m,
            seq![
                EffectModel::SwitchAudio(
                    match name {
                        Some(n) => Some(n@),
                        None => None,
                    },
                ),
            ],
        ),
        m.commanded(Command::ToggleFullscreen, clock_bpm, now) == (m, seq![EffectModel::ToggleFullscreen]),
        m.commanded(Command::SaveProject, clock_bpm, now) == (
            m,
            match m.project_path {
                Some(q) => seq![EffectModel::SaveTo(q)],
                None => seq![EffectModel::PickSavePath(None)],
            },
        ),
        m.commanded(Command::SaveProjectAs, clock_bpm, now) == (m, seq![EffectModel::PickSavePath(m.project_path)]),
        m.commanded(Command::SaveProjectTo(p), clock_bpm, now) == (
            AppModel { project_path: Some(p@), ..m },
            seq![EffectModel::SaveTo(p@)],
        ),
{
}

/// The tempo of a clip that is not there is not set.
pub proof fn a_clip_that_is_not_there_is_not_changed(
    m: AppModel,
    id: ClipId,
    bpm: Option<MicroBpm>,
    clock_bpm: MicroBpm,
    now: Nanos,
)
    requires
        forall|k: int| 0 <= k < m.clips.len() ==> (#[trigger] m.clips[k]).id != id,
    ensures
        m.commanded(Command::SetClipBpm(id, bpm), clock_bpm, now).0.clips == m.clips,
        m.commanded(Command::SetClipBpm(id, bpm), clock_bpm, now).0 == m,
        m.commanded(Command::SetClipBpm(id, bpm), clock_bpm, now).1.len() == 0,
{
    first_at_is(m.clips, has_clip_id(id), m.clips.len() as int);
}

/// An effect file that was compiled for a cue becomes the last stage of its chain,
/// with no input set, and no other cue changes.
pub proof fn a_compiled_effect_joins_its_cue(m: AppModel, path: Seq<char>, id: CueId, i: int)
    requires
        m.wf(),
        stands_at(m.banks[m.edit_bank].cues, id, i),
    ensures
        ({
            let after = m.isf_added(id, path);
            let (old, new) = (m.banks[m.edit_bank].cues[i], after.banks[m.edit_bank].cues[i]);
            &&& only_cue_changed(m, after, i)
            &&& new == (CueModel { chain: new.chain, ..old })
            &&& new.chain.len() == old.chain.len() + 1
            &&& new.chain.last().shader == SlotRefModel::Isf(path)
            &&& new.chain.last().params.len() == 0
            &&& forall|k: int| 0 <= k < old.chain.len() ==> #[trigger] new.chain[k] == old.chain[k]
        }),
{
    edit_found(m, id, i);
}

} // verus!
