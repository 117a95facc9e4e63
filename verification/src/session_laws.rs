//! What a session starts with, and what another pool of clips makes of it.

use vstd::prelude::*;
use vstd::string::*;

use crate::app::{events_touch_only_playback, AppModel, EffectModel};
use crate::bank::{ids_of, BankModel, CueId, CueModel};
use crate::clippool::ClipModel;
use crate::commands::{ClipId, Command, SyncKind};
use crate::editing_laws::whole_clip;
use crate::engine::{bootable, id_after, pin_name, started, Boot};
use crate::playback_laws::pooled_at;
use crate::relink::other_than;
use crate::seqs::{first_at, first_at_is, kept};
use crate::text::{decimal_value, decimals_stand_for_their_number, views};
use crate::timing_laws::on_its_grids;
use crate::units::{MicroBpm, MicroSecs, Nanos};

verus! {

/// Whether two states differ in what the rotation touches at most: the banks, the
/// ids handed out and what plays.
pub open spec fn same_session(m: AppModel, n: AppModel) -> bool {
    n == (AppModel {
        banks: n.banks,
        next_cue_id: n.next_cue_id,
        selected_cue: n.selected_cue,
        seq: n.seq,
        current: n.current,
        decoders: n.decoders,
        loop_prev: n.loop_prev,
        sync: n.sync,
        ..m
    })
}

proof fn toggle_keeps_the_session(m: AppModel, clip: ClipId, beat: int)
    ensures
        same_session(m, m.clip_toggled(clip, beat).0),
        m.clip_toggled(clip, beat).0.seq.phrase_len == m.seq.phrase_len,
        m.clip_toggled(clip, beat).0.sync == m.sync,
{
    let b = m.banks[m.live_bank];
    let i = first_at(b.cues, crate::bank::plays(clip));
    if i < b.cues.len() {
        let mid = AppModel {
            banks: m.banks.update(m.live_bank, BankModel { cues: b.cues.remove(i), ..b }),
            selected_cue: m.selection_without(b.cues[i].id),
            ..m
        };
        let step = m.seq.toggled(b.cues[i].id, beat);
        events_touch_only_playback(AppModel { seq: step.0, ..mid }, step.1);
    } else {
        let cue = CueModel::fresh(m.next_cue_id, clip, m.clip_name(clip));
        let mid = AppModel {
            banks: m.banks.update(m.live_bank, BankModel { cues: b.cues.push(cue), ..b }),
            next_cue_id: (m.next_cue_id + 1) as CueId,
            ..m
        };
        let step = m.seq.toggled(cue.id, beat);
        events_touch_only_playback(AppModel { seq: step.0, ..mid }, step.1);
    }
}

proof fn toggles_keep_the_session(m: AppModel, ids: Seq<ClipId>)
    ensures
        same_session(m, m.clips_toggled(ids).0),
        m.clips_toggled(ids).0.seq.phrase_len == m.seq.phrase_len,
        m.clips_toggled(ids).0.sync == m.sync,
    decreases ids.len(),
{
    if ids.len() > 0 {
        toggles_keep_the_session(m, ids.drop_last());
        toggle_keeps_the_session(m.clips_toggled(ids.drop_last()).0, ids.last(), 0);
    }
}

/// A session starts as it was asked for: its clips, options, signature, lengths
/// and sync source are those given, the first bank is live and edited, nothing is
/// selected, and the clock is switched only when another one is asked for.
pub proof fn a_session_starts_as_asked(boot: Boot)
    requires
        bootable(boot),
    ensures
        ({
            let s = started(boot);
            let m = s.0;
            &&& m.clips == views(boot.clips@) && m.clip_banks == views(boot.clip_banks@)
            &&& m.clip_meta == boot.clip_meta@
            &&& m.shader_path == boot.shader_path@
            &&& (boot.project_path matches Some(p) ==> m.project_path == Some(p@))
            &&& (boot.project_path is None ==> m.project_path is None)
            &&& m.time_sig == boot.time_sig && m.phrase_cadence == boot.phrase_cadence && m.loop_cadence
                == boot.loop_cadence
            &&& on_its_grids(m)
            &&& m.last_bpm == boot.bpm && m.preserve_playhead == boot.preserve_playhead && m.advanced == boot.advanced
            &&& m.sync == boot.initial_sync
            &&& s.1.contains(EffectModel::SwitchClock(SyncKind::Link)) || boot.initial_sync == SyncKind::Internal
            &&& m.live_bank == 0 && m.edit_bank == 0 && m.active_clip_bank == 0
            &&& m.tap_times.len() == 0 && m.bpm_entry is None && m.shader_pin_count == 0 && !m.should_quit
            &&& m.dirty_at is None
            &&& boot.cue_banks@.len() > 0 ==> m.banks == views(boot.cue_banks@) && m.selected_cue is None
            &&& forall|k: int| 0 <= k < m.clips.len() ==> (#[trigger] m.clips[k]).id < m.next_clip_id
        }),
{
    let base = AppModel::booted(boot);
    let active = if boot.cue_banks@.len() > 0 {
        base.resynced()
    } else {
        base.clips_toggled(boot.auto_active@)
    };
    let step = base.seq.with_active(ids_of(base.banks[base.live_bank].cues));
    events_touch_only_playback(AppModel { seq: step.0, ..base }, step.1);
    toggles_keep_the_session(base, boot.auto_active@);
    crate::timing_laws::a_started_grid_is_right(boot);
    if boot.initial_sync == SyncKind::Link {
        let all = active.1 + active.0.sync_set(SyncKind::Link).1;
        assert(all[active.1.len() as int] == EffectModel::SwitchClock(SyncKind::Link));
    }
    let ids = crate::session::clip_ids_of(views(boot.clips@));
    crate::laws::ids_lie_below_the_next(ids, 0);
    next_clip_id_is_a_number(ids, 0);
    assert forall|k: int| 0 <= k < base.clips.len() implies (#[trigger] base.clips[k]).id < base.next_clip_id by {
        assert(ids[k] == base.clips[k].id);
    }
}

proof fn next_clip_id_is_a_number(ids: Seq<u32>, least: int)
    requires
        0 <= least <= u32::MAX,
        forall|i: int| 0 <= i < ids.len() ==> #[trigger] ids[i] < u32::MAX,
    ensures
        0 <= id_after(ids, least) <= u32::MAX,
    decreases ids.len(),
{
    if ids.len() > 0 {
        assert forall|i: int| 0 <= i < ids.drop_last().len() implies #[trigger] ids.drop_last()[i] < u32::MAX by {
            assert(ids.drop_last()[i] == ids[i]);
        }
        next_clip_id_is_a_number(ids.drop_last(), least);
    }
}

proof fn toggling_a_new_clip_adds_it(m: AppModel, clip: ClipId)
    requires
        m.wf(),
        forall|j: int| 0 <= j < m.banks[m.live_bank].cues.len() ==> (#[trigger] m.banks[m.live_bank].cues[j]).clip != clip,
    ensures
        ({
            let after = m.clip_toggled(clip, 0).0;
            after.banks == m.banks.update(
                m.live_bank,
                BankModel {
                    cues: m.banks[m.live_bank].cues.push(
                        CueModel::fresh(m.next_cue_id, clip, m.clip_name(clip)),
                    ),
                    ..m.banks[m.live_bank]
                },
            )
        }),
{
    let b = m.banks[m.live_bank];
    first_at_is(b.cues, crate::bank::plays(clip), b.cues.len() as int);
    let cue = CueModel::fresh(m.next_cue_id, clip, m.clip_name(clip));
    let mid = AppModel {
        banks: m.banks.update(m.live_bank, BankModel { cues: b.cues.push(cue), ..b }),
        next_cue_id: (m.next_cue_id + 1) as CueId,
        ..m
    };
    let step = m.seq.toggled(cue.id, 0);
    events_touch_only_playback(AppModel { seq: step.0, ..mid }, step.1);
}

proof fn toggled_clips_are_cues(m: AppModel, ids: Seq<ClipId>)
    requires
        m.wf(),
        m.live_bank == 0,
        m.banks.len() == 1,
        m.banks[0].cues.len() == 0,
        m.next_cue_id + ids.len() <= u32::MAX,
        crate::laws::ids_apart(m.banks, m.next_cue_id as int),
        crate::laws::in_step(m),
        ids.no_duplicates(),
    ensures
        ({
            let after = m.clips_toggled(ids).0;
            &&& after.wf()
            &&& after.banks.len() == 1
            &&& after.banks[0].name == m.banks[0].name
            &&& after.banks[0].cues.len() == ids.len()
            &&& forall|i: int|
                0 <= i < ids.len() ==> {
                    let c = #[trigger] after.banks[0].cues[i];
                    c == CueModel::fresh(c.id, ids[i], m.clip_name(ids[i]))
                }
        }),
    decreases ids.len(),
{
    crate::laws::toggled_clips_keep_in_step(m, ids);
    if ids.len() > 0 {
        let front = ids.drop_last();
        assert forall|i: int, j: int| 0 <= i < front.len() && 0 <= j < front.len() && i != j implies front[i] != front[j] by {
            assert(ids[i] != ids[j]);
        }
        toggled_clips_are_cues(m, front);
        let before = m.clips_toggled(front).0;
        toggles_keep_the_session(m, front);
        assert forall|j: int| 0 <= j < before.banks[before.live_bank].cues.len() implies (
        #[trigger] before.banks[before.live_bank].cues[j]).clip != ids.last() by {
            assert(before.banks[0].cues[j].clip == front[j]);
            assert(front[j] == ids[j] && ids[j] != ids[ids.len() - 1]);
        }
        toggling_a_new_clip_adds_it(before, ids.last());
        let after = m.clips_toggled(ids).0;
        assert forall|i: int| 0 <= i < ids.len() implies ({
            let c = #[trigger] after.banks[0].cues[i];
            c == CueModel::fresh(c.id, ids[i], m.clip_name(ids[i]))
        }) by {
            if i < front.len() {
                assert(after.banks[0].cues[i] == before.banks[0].cues[i]);
                assert(front[i] == ids[i]);
            }
        }
    }
}

/// Without cue banks a session starts with one bank, which holds the clips to be
/// activated, each whole and in the order given.
pub proof fn activated_clips_are_the_first_bank(boot: Boot, i: int, k: int)
    requires
        bootable(boot),
        boot.cue_banks@.len() == 0,
        boot.auto_active@.no_duplicates(),
    ensures
        ({
            let m = started(boot).0;
            &&& m.banks.len() == 1
            &&& m.banks[0].name == "A"@
            &&& m.banks[0].cues.len() == boot.auto_active@.len()
            &&& 0 <= i < boot.auto_active@.len() && pooled_at(views(boot.clips@), boot.auto_active@[i], k)
                ==> whole_clip(m.banks[0].cues[i], boot.auto_active@[i], boot.clips@[k].name@)
        }),
{
    let base = AppModel::booted(boot);
    let one = base.banks;
    assert(one.drop_last() =~= Seq::<BankModel>::empty());
    assert(ids_of(one.last().cues) =~= Seq::<u32>::empty());
    assert(crate::engine::cue_id_after(one.drop_last()) == 1);
    assert(base.seq.active =~= ids_of(base.banks[0].cues));
    toggled_clips_are_cues(base, boot.auto_active@);
    if 0 <= i < boot.auto_active@.len() && pooled_at(views(boot.clips@), boot.auto_active@[i], k) {
        first_at_is(base.clips, crate::clippool::has_clip_id(boot.auto_active@[i]), k);
        let c = started(boot).0.banks[0].cues[i];
        assert(c == CueModel::fresh(c.id, boot.auto_active@[i], base.clip_name(boot.auto_active@[i])));
    }
}

/// Another pool holds the clips of its directory and nothing of the old one: one
/// clip bank with every clip in its order, one empty cue bank, no probe data,
/// nothing on display. The session's options and lengths stay.
pub proof fn another_pool_starts_over(m: AppModel, dir: Seq<char>, clips: Seq<ClipModel>)
    requires
        m.wf(),
        clips.len() <= u32::MAX,
    ensures
        ({
            let s = m.pool_replaced(dir, clips);
            let n = s.0;
            &&& s.1 == seq![EffectModel::ClearDecoders]
            &&& n.clips == clips
            &&& n.clip_banks.len() == 1 && n.active_clip_bank == 0
            &&& n.clip_banks[0].dir == Some(dir)
            &&& n.clip_banks[0].clip_ids.len() == clips.len()
            &&& forall|i: int| 0 <= i < clips.len() ==> #[trigger] n.clip_banks[0].clip_ids[i] == clips[i].id
            &&& n.next_clip_id == clips.len()
            &&& n.clip_meta.dom().len() == 0 && n.clip_meta =~= Map::empty()
            &&& n.banks.len() == 1 && n.banks[0].cues.len() == 0 && n.banks[0].name == "A"@
            &&& n.live_bank == 0 && n.edit_bank == 0 && n.selected_cue is None && n.next_cue_id == 1
            &&& n.current is None && n.decoders.len() == 0
            &&& n.seq.playing() is None && n.seq.active.len() == 0
            &&& n.seq.prev_beat is None && n.seq.since == 0
            &&& n.seq.phrase_len == m.seq.phrase_len && n.time_sig == m.time_sig && n.phrase_cadence
                == m.phrase_cadence
            &&& n.loop_len == m.loop_len && n.loop_cadence == m.loop_cadence && n.sync == m.sync
            &&& n.advanced == m.advanced && n.preserve_playhead == m.preserve_playhead && n.shader_path
                == m.shader_path
            &&& n.project_path == m.project_path
        }),
{
}

/// A pool that is extended keeps every clip, cue and bank: the new clips come
/// last, in a clip bank of their own, which is then on show; the next id is above
/// all of theirs. A directory without clips changes nothing.
pub proof fn a_bigger_pool_keeps_what_it_had(m: AppModel, dir: Seq<char>, clips: Seq<ClipModel>)
    requires
        m.wf(),
        forall|i: int| 0 <= i < clips.len() ==> (#[trigger] clips[i]).id < u32::MAX,
    ensures
        ({
            let n = m.pool_extended(dir, clips);
            let k = m.clip_banks.len() as int;
            &&& clips.len() == 0 ==> n == m
            &&& clips.len() > 0 ==> {
                &&& n == (AppModel {
                    clips: n.clips,
                    clip_banks: n.clip_banks,
                    active_clip_bank: k,
                    next_clip_id: n.next_clip_id,
                    ..m
                })
                &&& n.clips.len() == m.clips.len() + clips.len()
                &&& forall|i: int| 0 <= i < m.clips.len() ==> #[trigger] n.clips[i] == m.clips[i]
                &&& forall|i: int| 0 <= i < clips.len() ==> #[trigger] clips[i] == n.clips[m.clips.len() + i]
                &&& n.clip_banks.len() == k + 1
                &&& forall|i: int| 0 <= i < k ==> #[trigger] n.clip_banks[i] == m.clip_banks[i]
                &&& n.clip_banks[k].dir == Some(dir)
                &&& n.clip_banks[k].clip_ids.len() == clips.len()
                &&& forall|i: int| 0 <= i < clips.len() ==> #[trigger] n.clip_banks[k].clip_ids[i] == clips[i].id
                &&& forall|i: int| 0 <= i < clips.len() ==> (#[trigger] clips[i]).id < n.next_clip_id
            }
        }),
{
    let ids = crate::session::clip_ids_of(clips);
    crate::laws::ids_lie_below_the_next(ids, 0);
    assert forall|i: int| 0 <= i < ids.len() implies #[trigger] ids[i] < u32::MAX by {
        assert(clips[i].id < u32::MAX);
    }
    next_clip_id_is_a_number(ids, 0);
    assert forall|i: int| 0 <= i < clips.len() implies (#[trigger] clips[i]).id < id_after(ids, 0) by {
        assert(ids[i] == clips[i].id);
    }
}

/// Every pin has a number of its own, counted from one: its name ends with it, and
/// no two numbers give the same name.
pub proof fn pins_are_numbered(m: AppModel, clock_bpm: MicroBpm, now: Nanos, path: Seq<char>, a: nat, b: nat)
    requires
        m.wf(),
        m.shader_pin_count < u32::MAX,
    ensures
        ({
            let after = m.commanded(Command::CaptureShader, clock_bpm, now);
            &&& after.0 == (AppModel { shader_pin_count: after.0.shader_pin_count, ..m })
            &&& after.0.shader_pin_count == m.shader_pin_count + 1
            &&& after.1.len() == 1
            &&& after.1[0] matches EffectModel::CaptureShader(name) && ends_with_number(
                name,
                m.shader_pin_count + 1,
            )
        }),
        pin_name(path, a as int) == pin_name(path, b as int) ==> a == b,
{
    let n = (m.shader_pin_count + 1) as nat;
    pins_end_with_their_number(m.shader_path, n);
    pins_end_with_their_number(path, a);
    pins_end_with_their_number(path, b);
    decimals_stand_for_their_number(a);
    decimals_stand_for_their_number(b);
    let (x, y) = (pin_name(path, a as int), pin_name(path, b as int));
    if x == y {
        let (p, q) = (crate::text::decimal(a), crate::text::decimal(b));
        let lead = x.len() - p.len();
        assert(x.len() - q.len() == lead);
        assert(x.skip(lead) =~= p);
        assert(y.skip(lead) =~= q);
    }
}

/// Whether a text ends with a number, after a blank and a hash.
pub open spec fn ends_with_number(text: Seq<char>, n: int) -> bool {
    exists|k: int|
        2 <= k < text.len() && text[k - 2] == ' ' && text[k - 1] == '#' && decimal_value(#[trigger] text.skip(k)) == n
}

proof fn pins_end_with_their_number(path: Seq<char>, n: nat)
    ensures
        ends_with_number(pin_name(path, n as int), n as int),
{
    reveal_strlit(" #");
    decimals_stand_for_their_number(n);
    let name = pin_name(path, n as int);
    let d = crate::text::decimal(n);
    let k = name.len() - d.len();
    assert(name.skip(k) =~= d);
}

/// A number that no pin took is given to the next one, and nothing else of the
/// session changes.
pub proof fn a_failed_pin_gives_its_number_back(m: AppModel)
    ensures
        m.shader_pin_count > 0 ==> m.pin_given_back().shader_pin_count == m.shader_pin_count - 1,
        m.shader_pin_count == 0 ==> m.pin_given_back().shader_pin_count == 0,
        (AppModel { shader_pin_count: m.shader_pin_count, ..m.pin_given_back() }) == m,
{
}

/// A decoder that failed to start is the only one that goes; the cue can be given
/// one again later.
pub proof fn only_the_failed_decoder_goes(m: AppModel, cue: CueId, other: CueId)
    ensures
        m.without_decoder(cue).decoders.contains(other) <==> m.decoders.contains(other) && other != cue,
        (AppModel { decoders: m.decoders, ..m.without_decoder(cue) }) == m,
{
    kept_but_for(m.decoders, cue, other);
}

proof fn kept_but_for(s: Seq<CueId>, cue: CueId, x: CueId)
    ensures
        kept(s, other_than(cue)).contains(x) <==> s.contains(x) && x != cue,
    decreases s.len(),
{
    if s.len() > 0 {
        let front = s.drop_last();
        kept_but_for(front, cue, x);
        let (before, after) = (kept(front, other_than(cue)), kept(s, other_than(cue)));
        assert(s =~= front.push(s.last()));
        assert(s.contains(x) <==> front.contains(x) || x == s.last()) by {
            if front.contains(x) {
                let i = choose|i: int| 0 <= i < front.len() && front[i] == x;
                assert(s[i] == x);
            }
            if s.contains(x) {
                let i = choose|i: int| 0 <= i < s.len() && s[i] == x;
                assert(i < front.len() ==> front[i] == x);
            }
            assert(s[front.len() as int] == s.last());
        }
        if s.last() != cue {
            assert(after == before.push(s.last()));
            if before.contains(x) {
                let i = choose|i: int| 0 <= i < before.len() && before[i] == x;
                assert(after[i] == x);
            }
            if after.contains(x) {
                let i = choose|i: int| 0 <= i < after.len() && after[i] == x;
                assert(i < before.len() ==> before[i] == x);
            }
            assert(after[before.len() as int] == s.last());
        } else {
            assert(after == before);
        }
    }
}

/// The frame on screen is the playhead and says how its colours are kept; the
/// cue on display says which effects it goes through.
pub proof fn the_screen_shows_the_cue_on_display(m: AppModel, pts: MicroSecs, video_mode: i32)
    ensures
        m.showing(pts, video_mode).current_pts == pts,
        m.showing(pts, video_mode).video_mode == video_mode,
        (AppModel { current_pts: m.current_pts, video_mode: m.video_mode, ..m.showing(pts, video_mode) }) == m,
        m.current is None ==> m.chain_on_display().len() == 0,
        m.current is Some && m.any_cue(m.current->0) is Some ==> m.chain_on_display() == m.any_cue(
            m.current->0,
        )->0.chain,
        m.current is Some && m.any_cue(m.current->0) is None ==> m.chain_on_display().len() == 0,
{
}

/// A changed shader is loaded once, when its file was left alone for 75
/// milliseconds; a change in between starts the wait anew, and without a change
/// nothing is loaded.
pub proof fn a_changed_shader_is_loaded_once_it_rests(m: AppModel, at: Nanos, later: Nanos)
    requires
        at <= later,
    ensures
        ({
            let (changed, now) = m.shader_checked(true, at);
            let (rested, due) = changed.shader_checked(false, later);
            let again = changed.shader_checked(true, later);
            &&& !now
            &&& due <==> later - at >= 75_000_000
            &&& due ==> rested.dirty_at is None && !rested.shader_checked(false, later).1
            &&& !due ==> rested == changed
            &&& !again.1 && again.0.dirty_at == Some(later)
            &&& (AppModel { dirty_at: m.dirty_at, ..rested }) == m
        }),
        m.dirty_at is None ==> !m.shader_checked(false, later).1 && m.shader_checked(false, later).0 == m,
{
}

} // verus!
