//! What a saved project says, and what opening, relinking and gathering make of
//! it.

use vstd::prelude::*;
use vstd::string::*;

use crate::app::AppModel;
use crate::bank::{BankModel, CueId, CueModel};
use crate::clippool::{by_name, is_video, scanned, sorting_keeps_every_name, videos, ClipModel, ClipSourceModel};
use crate::commands::{Cadence, ChainSlotModel, ClipId, SlotRefModel, SyncKind};
use crate::editing_laws::whole_clip;
use crate::isf::{IsfValue, Point2, Rgba};
use crate::paths::{
    a_path_lies_in_its_parent, absolute, extension_of, file_name_of, is_slash, joined_path, last_dot, names,
    names_of_join, parent_of, parts, relative_to, slash_at, stem_of, storing_a_path_keeps_its_components, tail_after,
    tail_is_relative, tail_within, trimmed, trimming_keeps_the_start,
};
use crate::project::{
    absolute_form, for_path, knob, loaded_cue, migrated, saved_chain, saved_clip, saved_cue, saved_project, saved_slot,
    saved_value, CadenceSpec, ClipMetaModel, ClipSpecModel, CueBankSpecModel, CueEffectModel, CueSpecModel,
    IsfValueSpec, ProjectModel, SyncSpec,
};
use crate::relink::{
    absent, after_steps, candidate, candidates, copied, copy_list, file_called, gather_base, other_than, paths_of,
    relinked, relinked_by, spec_with_id, CopyStep, ResolvedModel,
};
use crate::reopening::Forms;
use crate::saving::{chain_noted, cues_noted, files_noted, isf_paths, noted, save_dir_of, saved_defaults, stored_paths};
use crate::seqs::{first_at, first_at_bounds, first_at_is, kept};
use crate::session::{cues_before, from_flags, from_project, listed, metas_of, missing_names, Loaded, StartOptions};
use crate::shaderwatch::watched_dir;
use crate::text::{decimal, views};
use crate::units::{MicroBpm, Single};

verus! {

/// A cue is saved as it is: every field under its own name, a knob by its value
/// when it is on and not at all when it is off; and it is read back so.
pub proof fn a_saved_cue_says_what_the_cue_does(c: CueModel, s: CueSpecModel, id: u32, dir: Seq<char>, table: Forms)
    ensures
        ({
            let w = saved_cue(c, dir, table);
            &&& w.clip == c.clip && w.name == c.name && w.in_sec == c.in_sec && w.out_sec == c.out_sec
            &&& w.preserve == c.preserve && w.dwell == c.dwell && w.loop_len == c.loop_len && w.bpm == c.bpm
            &&& w.bpm_sync_on == c.bpm_sync_on
            &&& (w.loop_phase is Some) == c.loop_phase.on && (w.start_nudge is Some) == c.start_nudge.on
            &&& (w.trig_delay is Some) == c.trig_delay.on && (w.speed_mul is Some) == c.speed_mul.on
            &&& c.loop_phase.on ==> w.loop_phase->0 == c.loop_phase.val
            &&& c.start_nudge.on ==> w.start_nudge->0 == c.start_nudge.val
            &&& c.trig_delay.on ==> w.trig_delay->0 == c.trig_delay.val
            &&& c.speed_mul.on ==> w.speed_mul->0 == c.speed_mul.val
        }),
        ({
            let d = loaded_cue(s, id, dir);
            &&& d.id == id && d.clip == s.clip && d.name == s.name && d.in_sec == s.in_sec && d.out_sec == s.out_sec
            &&& d.preserve == s.preserve && d.dwell == s.dwell && d.loop_len == s.loop_len && d.bpm == s.bpm
            &&& d.bpm_sync_on == s.bpm_sync_on
            &&& d.loop_phase.on == (s.loop_phase is Some) && d.start_nudge.on == (s.start_nudge is Some)
            &&& d.trig_delay.on == (s.trig_delay is Some) && d.speed_mul.on == (s.speed_mul is Some)
            &&& d.loop_phase.val == if s.loop_phase is Some { s.loop_phase->0 } else { 0 }
            &&& d.start_nudge.val == if s.start_nudge is Some { s.start_nudge->0 } else { 0 }
            &&& d.trig_delay.val == if s.trig_delay is Some { s.trig_delay->0 } else { 0 }
            &&& d.speed_mul.val == if s.speed_mul is Some { s.speed_mul->0 } else { 1_000_000 }
            &&& d.chain.len() == s.chain.len()
        }),
{
}

/// A project that is saved has one entry for each clip, clip bank, cue bank and
/// cue, in their order and under their names and ids; the probe data of a clip is
/// its own.
pub proof fn a_saved_project_lists_the_session(
    m: AppModel,
    bpm: MicroBpm,
    dir: Seq<char>,
    table: Forms,
    i: int,
    b: int,
    c: int,
)
    requires
        m.wf(),
    ensures
        ({
            let d = saved_defaults(m, bpm, dir, table);
            let p = saved_project(dir, table, m.clips, m.clip_banks, m.banks, m.clip_meta, d);
            &&& p.defaults == d
            &&& p.clips.len() == m.clips.len() && p.clip_banks.len() == m.clip_banks.len() && p.cue_banks.len()
                == m.banks.len()
            &&& 0 <= i < m.clips.len() ==> {
                let (s, k) = (p.clips[i], m.clips[i]);
                &&& s.id == k.id && s.name == k.name && s.bpm == k.bpm
                &&& m.clip_meta.contains_key(k.id) ==> s.fps == m.clip_meta[k.id].fps && s.frames == m.clip_meta[k.id].frames
                    && s.duration_sec == m.clip_meta[k.id].duration_sec
                &&& !m.clip_meta.contains_key(k.id) ==> s.fps is None && s.frames is None && s.duration_sec is None
                    && s.source is None
            }
            &&& 0 <= b < m.clip_banks.len() ==> p.clip_banks[b].name == m.clip_banks[b].name
                && p.clip_banks[b].clip_ids == m.clip_banks[b].clip_ids
            &&& 0 <= b < m.banks.len() ==> p.cue_banks[b].name == m.banks[b].name && p.cue_banks[b].cues.len()
                == m.banks[b].cues.len()
            &&& 0 <= b < m.banks.len() && 0 <= c < m.banks[b].cues.len() ==> p.cue_banks[b].cues[c] == saved_cue(
                m.banks[b].cues[c],
                dir,
                table,
            )
            &&& d.bpm == bpm && d.preserve_playhead == m.preserve_playhead && d.advanced == m.advanced
            &&& d.ts_num == m.time_sig.num && d.ts_den == m.time_sig.den
            &&& d.quantum * m.time_sig.den == m.time_sig.num * 4_000_000
            &&& d.loop_len == m.loop_len
            &&& d.sync == SyncSpec::Link <==> m.sync == SyncKind::Link
        }),
{
    let n = m.time_sig.num as int * 4_000_000;
    assert(n / 1 * 1 == n && n / 2 * 2 == n && n / 4 * 4 == n && n / 8 * 8 == n && n / 16 * 16 == n);
}

/// A chain is saved effect by effect, in its order: the live shader and built-in
/// effects as such, files by their path, and pinned captures not at all.
pub proof fn a_saved_chain_keeps_its_order(
    chain: Seq<crate::commands::ChainSlotModel>,
    dir: Seq<char>,
    table: Forms,
    k: int,
)
    requires
        forall|j: int| 0 <= j < chain.len() ==> !((#[trigger] chain[j]).shader is Pinned),
    ensures
        saved_chain(chain, dir, table).len() == chain.len(),
        0 <= k < chain.len() ==> match chain[k].shader {
            SlotRefModel::Live => saved_chain(chain, dir, table)[k] is Live,
            SlotRefModel::Builtin(name) => saved_chain(chain, dir, table)[k] == CueEffectModel::Builtin(name),
            SlotRefModel::Isf(p) => saved_chain(chain, dir, table)[k] is Isf,
            SlotRefModel::Pinned(_) => false,
        },
    decreases chain.len(),
{
    if chain.len() > 0 {
        let front = chain.drop_last();
        assert forall|j: int| 0 <= j < front.len() implies !((#[trigger] front[j]).shader is Pinned) by {
            assert(front[j] == chain[j]);
        }
        a_saved_chain_keeps_its_order(front, dir, table, k);
        assert(!(chain[chain.len() - 1].shader is Pinned));
        if k < front.len() {
            assert(0 <= k ==> front[k] == chain[k]);
        }
    }
}

/// A session that is opened from what was saved plays as it did: at the same
/// tempo, signature, lengths and sync source, with the same options.
pub proof fn an_opened_session_plays_as_it_did(
    m: AppModel,
    bpm: MicroBpm,
    dir: Seq<char>,
    table: Forms,
    r: ResolvedModel,
    l: Loaded,
    path: Seq<char>,
    opts: StartOptions,
)
    requires
        m.wf(),
        r.project == saved_project(
            dir,
            table,
            m.clips,
            m.clip_banks,
            m.banks,
            m.clip_meta,
            saved_defaults(m, bpm, dir, table),
        ),
        from_project(l, r, path, opts),
    ensures
        bpm > 0 ==> l.bpm == bpm,
        bpm <= 0 ==> l.bpm == opts.bpm,
        l.time_sig == m.time_sig,
        l.phrase_cadence == m.phrase_cadence,
        l.loop_cadence == m.loop_cadence,
        l.sync == m.sync,
        l.preserve_playhead == m.preserve_playhead,
        l.advanced == m.advanced,
        l.project_path matches Some(p) && p@ == path,
        l.auto_active@.len() == 0,
        l.clips@.len() == m.clips.len(),
        l.clip_banks@.len() == m.clip_banks.len(),
        l.cue_banks@.len() == m.banks.len(),
        r.missing.len() == 0,
{
    crate::saving::a_saved_session_keeps_its_timing(m, bpm, dir, table);
    assert(views(l.clips@).len() == l.clips@.len());
    assert(views(l.cue_banks@).len() == l.cue_banks@.len());
}

/// A session from the command line holds the clips of the directory, then the
/// single one, which plays at once, in one clip bank; it runs as the command line
/// says, in common time.
pub proof fn a_session_from_flags_holds_what_was_given(
    l: Loaded,
    clip_dir: Option<Seq<char>>,
    given: Seq<ClipModel>,
    single: Option<Seq<char>>,
    opts: StartOptions,
    i: int,
)
    requires
        from_flags(l, clip_dir, given, single, opts),
        given.len() < u32::MAX,
    ensures
        l.clips@.len() == given.len() + if single is Some {
            1int
        } else {
            0
        },
        0 <= i < given.len() ==> l.clips@[i]@ == given[i],
        single matches Some(p) ==> l.clips@[given.len() as int]@.source == ClipSourceModel::File(p)
            && l.clips@[given.len() as int].id == given.len() && l.auto_active@ == seq![given.len() as ClipId],
        single is None ==> l.auto_active@.len() == 0,
        l.clip_banks@.len() == 1,
        l.clip_banks@[0].clip_ids@.len() == l.clips@.len(),
        0 <= i < l.clips@.len() ==> l.clip_banks@[0].clip_ids@[i] == l.clips@[i].id,
        l.cue_banks@.len() == 0,
        l.clips@.len() > 0,
        l.bpm == opts.bpm,
        l.sync == opts.sync,
        l.time_sig.num == 4 && l.time_sig.den == 4,
        32 * opts.phrase_len <= u32::MAX ==> l.phrase_cadence == Cadence::Note((32 * opts.phrase_len) as u32),
        l.loop_cadence is None && l.preserve_playhead && !l.advanced && l.project_path is None,
        opts.shader matches Some(s) && s@ == l.shader@,
{
    let pool = views(l.clips@);
    assert(pool.len() == l.clips@.len());
    assert(0 <= i < pool.len() ==> pool[i] == l.clips@[i]@);
    if single is Some {
        assert(pool[given.len() as int] == l.clips@[given.len() as int]@);
    }
    let b = views(l.clip_banks@);
    assert(b.len() == l.clip_banks@.len());
    assert(b[0] == l.clip_banks@[0]@);
}

/// The clips that are missing are those whose file is not there, in their order.
pub proof fn missing_clips_have_no_file(clips: Seq<ClipSpecModel>, there: Seq<bool>, id: ClipId)
    requires
        there.len() >= clips.len(),
    ensures
        absent(clips, there).contains(id) <==> exists|i: int|
            0 <= i < clips.len() && (#[trigger] clips[i]).id == id && !there[i],
    decreases clips.len(),
{
    if clips.len() > 0 {
        let front = clips.drop_last();
        missing_clips_have_no_file(front, there, id);
        let n = clips.len() - 1;
        let before = absent(front, there);
        let all = absent(clips, there);
        assert(clips[n] == clips.last());
        if before.contains(id) {
            let i = choose|i: int| 0 <= i < front.len() && (#[trigger] front[i]).id == id && !there[i];
            assert(clips[i] == front[i]);
            let k = before.index_of(id);
            assert(all[k] == id);
        }
        if !there[n] && clips[n].id == id {
            assert(all[before.len() as int] == id);
        }
        if all.contains(id) && !before.contains(id) {
            let k = all.index_of(id);
            if k < before.len() {
                assert(before[k] == id);
            }
        }
        if exists|i: int| 0 <= i < clips.len() && (#[trigger] clips[i]).id == id && !there[i] {
            let i = choose|i: int| 0 <= i < clips.len() && (#[trigger] clips[i]).id == id && !there[i];
            if i < n {
                assert(front[i].id == id);
            }
        }
    }
}

/// A missing clip is looked for under the name of its file, and the file that is
/// found for it is the first of that name; when none is found, there is none.
pub proof fn a_file_is_found_by_its_name(
    clips: Seq<ClipSpecModel>,
    files: Seq<Seq<char>>,
    id: ClipId,
    k: int,
    f: int,
)
    requires
        0 <= k < clips.len(),
        clips[k].id == id,
        forall|j: int| 0 <= j < k ==> (#[trigger] clips[j]).id != id,
        names(clips[k].path).len() > 0,
        names(clips[k].path).last() != seq!['.', '.'],
        0 <= f < files.len(),
    ensures
        ({
            let c = candidate(clips, files, id);
            let wanted = names(clips[k].path).last();
            &&& c.clip_id == id && c.name == clips[k].name
            &&& c.found matches Some(p) ==> files.contains(p) && names(p).len() > 0 && names(p).last() == wanted
            &&& names(files[f]).len() > 0 && names(files[f]).last() == wanted ==> c.found is Some
            &&& names(files[f]).len() > 0 && names(files[f]).last() == wanted && (forall|j: int|
                0 <= j < f ==> file_name_of(#[trigger] files[j]) != Some(wanted)) ==> c.found == Some(files[f])
        }),
{
    first_at_is(clips, spec_with_id(id), k);
    let wanted = names(clips[k].path).last();
    let p = file_called(wanted);
    first_at_bounds(files, p);
    let n = first_at(files, p);
    if n < files.len() {
        assert(files.contains(files[n]));
    }
    if names(files[f]).len() > 0 && names(files[f]).last() == wanted {
        assert(p(files[f]));
        if n >= files.len() {
            assert(!p(files[f]));
        }
        if forall|j: int| 0 <= j < f ==> file_name_of(#[trigger] files[j]) != Some(wanted) {
            first_at_is(files, p, f);
        }
    }
}

proof fn kept_others(s: Seq<ClipId>, id: ClipId, x: ClipId)
    ensures
        kept(s, other_than(id)).contains(x) == (s.contains(x) && x != id),
    decreases s.len(),
{
    let p = other_than(id);
    if s.len() > 0 {
        let front = s.drop_last();
        kept_others(front, id, x);
        let (a, b) = (kept(front, p), kept(s, p));
        if s.contains(x) {
            let i = s.index_of(x);
            if i < front.len() {
                assert(front[i] == x);
            }
        }
        if front.contains(x) {
            let i = front.index_of(x);
            assert(s[i] == x);
        }
        assert(s[s.len() - 1] == s.last());
        if a.contains(x) {
            let i = a.index_of(x);
            assert(b[i] == x);
        }
        if b.contains(x) && !a.contains(x) {
            let i = b.index_of(x);
            if i < a.len() {
                assert(a[i] == x);
            }
        }
        if p(s.last()) && s.last() == x {
            assert(b[a.len() as int] == x);
        }
    }
}

/// A clip that is relinked is read from the new file and no longer missing; other
/// clips are read and missing as before, and nothing else of the project changes.
pub proof fn a_relinked_clip_changes_alone(r: ResolvedModel, id: ClipId, path: Seq<char>, k: int, other: ClipId)
    requires
        0 <= k < r.project.clips.len(),
        r.project.clips[k].id == id,
        forall|j: int| 0 <= j < k ==> (#[trigger] r.project.clips[j]).id != id,
        other != id,
    ensures
        ({
            let n = relinked(r, id, path);
            &&& n.clip_paths.contains_key(id) && n.clip_paths[id] == path
            &&& n.clip_paths.contains_key(other) == r.clip_paths.contains_key(other)
            &&& r.clip_paths.contains_key(other) ==> n.clip_paths[other] == r.clip_paths[other]
            &&& !n.missing.contains(id)
            &&& n.missing.contains(other) == r.missing.contains(other)
            &&& n.project_dir == r.project_dir
            &&& n.project.defaults == r.project.defaults && n.project.clip_banks == r.project.clip_banks
            &&& n.project.cue_banks == r.project.cue_banks && n.project.version == r.project.version
            &&& n.project.clips == r.project.clips.update(
                k,
                ClipSpecModel { path: n.project.clips[k].path, ..r.project.clips[k] },
            )
            &&& absolute(path) && !path.contains('\\') ==> parts(
                joined_path(r.project_dir, n.project.clips[k].path),
            ) == parts(path)
            &&& n.project.clips[k].path == relative_to(r.project_dir, path)
        }),
{
    first_at_is(r.project.clips, spec_with_id(id), k);
    kept_others(r.missing, id, id);
    kept_others(r.missing, id, other);
    if absolute(path) && !path.contains('\\') {
        storing_a_path_keeps_its_components(r.project_dir, path);
    }
}

proof fn relinking_leaves_the_rest(r: ResolvedModel, cands: Seq<crate::relink::RelinkCandidateModel>, n: int, id: ClipId)
    requires
        0 <= n <= cands.len(),
    ensures
        relinked_by(r, cands, n).missing.contains(id) <==> r.missing.contains(id) && forall|k: int|
            0 <= k < n && (#[trigger] cands[k]).clip_id == id ==> cands[k].found is None,
    decreases n,
{
    if n > 0 {
        relinking_leaves_the_rest(r, cands, n - 1, id);
        let before = relinked_by(r, cands, n - 1);
        kept_others(before.missing, cands[n - 1].clip_id, id);
    }
}

/// Relinking a whole project leaves missing exactly the clips for which no file
/// was found.
pub proof fn relinking_leaves_what_was_not_found(r: ResolvedModel, files: Seq<Seq<char>>, id: ClipId)
    ensures
        relinked_by(r, candidates(r, files), r.missing.len() as int).missing.contains(id) <==> r.missing.contains(id)
            && candidate(r.project.clips, files, id).found is None,
{
    let c = candidates(r, files);
    relinking_leaves_the_rest(r, c, r.missing.len() as int, id);
    if r.missing.contains(id) {
        let k = r.missing.index_of(id);
        assert(c[k].clip_id == id);
    }
}

/// Gathering copies exactly the clips whose file is there, once each and in their
/// order, and points each at its copy in the `clips` folder; the others keep their
/// path.
pub proof fn gathering_copies_what_is_there(r: ResolvedModel, there: Seq<bool>, n: int, i: int)
    requires
        0 <= n <= r.project.clips.len(),
        0 <= i < n,
        crate::relink::all_resolved(r),
    ensures
        copy_list(r, there, n).contains(i) <==> there[i],
        forall|a: int, b: int|
            0 <= a < b < copy_list(r, there, n).len() ==> #[trigger] copy_list(r, there, n)[a] < #[trigger] copy_list(
                r,
                there,
                n,
            )[b],
{
    copies_are_listed(r, there, n);
    assert(r.clip_paths.contains_key(r.project.clips[i].id));
}

proof fn copies_are_listed(r: ResolvedModel, there: Seq<bool>, n: int)
    requires
        0 <= n <= r.project.clips.len(),
    ensures
        ({
            let l = copy_list(r, there, n);
            &&& forall|i: int| 0 <= i < n ==> #[trigger] l.contains(i) == copied(r, there, i)
            &&& forall|a: int| 0 <= a < l.len() ==> 0 <= #[trigger] l[a] < n
            &&& forall|a: int, b: int| 0 <= a < b < l.len() ==> #[trigger] l[a] < #[trigger] l[b]
        }),
    decreases n,
{
    if n > 0 {
        copies_are_listed(r, there, n - 1);
        let (f, l) = (copy_list(r, there, n - 1), copy_list(r, there, n));
        assert forall|i: int| 0 <= i < n implies #[trigger] l.contains(i) == copied(r, there, i) by {
            if f.contains(i) {
                let k = f.index_of(i);
                assert(l[k] == i);
            }
            if l.contains(i) && !f.contains(i) {
                let k = l.index_of(i);
                if k < f.len() {
                    assert(f[k] == i);
                }
            }
            if i == n - 1 {
                if copied(r, there, i) {
                    assert(l[f.len() as int] == i);
                }
                if f.contains(i) {
                    let k = f.index_of(i);
                    assert(f[k] < n - 1);
                }
            } else {
                assert(f.contains(i) == copied(r, there, i));
            }
        }
    }
}

/// A gathered clip is stored under its copy's name in the `clips` folder, and
/// keeps its id, name, tempo and probe data; a clip that is not copied is as it
/// was.
pub proof fn gathered_clips_point_at_their_copies(clips: Seq<ClipSpecModel>, plan: Seq<CopyStep>, n: int, i: int)
    requires
        0 <= n <= plan.len(),
        0 <= i < clips.len(),
        forall|a: int| 0 <= a < plan.len() ==> (#[trigger] plan[a]).clip < clips.len(),
        forall|a: int, b: int|
            0 <= a < plan.len() && 0 <= b < plan.len() && a != b ==> (#[trigger] plan[a]).clip != (
            #[trigger] plan[b]).clip,
    ensures
        after_steps(clips, plan, n).len() == clips.len(),
        forall|a: int|
            0 <= a < n && (#[trigger] plan[a]).clip == i ==> after_steps(clips, plan, n)[i] == (ClipSpecModel {
                path: "clips/"@ + plan[a].file_name@,
                ..clips[i]
            }),
        (forall|a: int| 0 <= a < n ==> (#[trigger] plan[a]).clip != i) ==> after_steps(clips, plan, n)[i] == clips[i],
    decreases n,
{
    if n > 0 {
        gathered_clips_point_at_their_copies(clips, plan, n - 1, i);
        let before = after_steps(clips, plan, n - 1);
        let j = plan[n - 1].clip as int;
        if j == i {
            assert forall|a: int| 0 <= a < n - 1 implies (#[trigger] plan[a]).clip != i by {}
        } else {
            assert(after_steps(clips, plan, n)[i] == before[i]);
            if forall|a: int| 0 <= a < n ==> (#[trigger] plan[a]).clip != i {
                assert forall|a: int| 0 <= a < n - 1 implies (#[trigger] plan[a]).clip != i by {}
            }
        }
    }
}

proof fn last_dot_is_last(s: Seq<char>)
    ensures
        -1 <= last_dot(s) < s.len(),
        last_dot(s) >= 0 ==> s[last_dot(s)] == '.',
        forall|j: int| last_dot(s) < j < s.len() ==> s[j] != '.',
    decreases s.len(),
{
    if s.len() > 0 && s.last() != '.' {
        last_dot_is_last(s.drop_last());
        let f = s.drop_last();
        assert forall|j: int| last_dot(s) < j < s.len() implies s[j] != '.' by {
            if j < f.len() {
                assert(f[j] == s[j]);
            }
        }
    }
}

/// A file name is its stem, a dot and its extension, which holds no dot; without a
/// dot after its first character it is all stem.
pub proof fn a_name_is_its_stem_and_extension(name: Seq<char>)
    ensures
        extension_of(name) matches Some(e) ==> name == stem_of(name) + seq!['.'] + e && !e.contains('.')
            && stem_of(name).len() > 0,
        extension_of(name) is None ==> stem_of(name) == name && forall|j: int| 1 <= j < name.len() ==> name[j] != '.',
{
    last_dot_is_last(name);
    let d = last_dot(name);
    if d > 0 {
        let e = name.skip(d + 1);
        assert(name =~= name.take(d) + seq!['.'] + e);
        if e.contains('.') {
            let j = e.index_of('.');
            assert(name[d + 1 + j] == '.');
        }
    }
}

/// A file in a directory is called by its own name.
pub proof fn a_joined_path_ends_with_its_name(dir: Seq<char>, name: Seq<char>)
    requires
        name.len() > 0,
        !name.contains('/'),
        name != seq!['.'],
        name != seq!['.', '.'],
    ensures
        file_name_of(joined_path(dir, name)) == Some(name),
{
    assert forall|j: int| 0 <= j < name.len() implies name[j] != '/' by {
        assert(name.contains(name[j]));
    }
    first_at_is(name, crate::paths::is_slash(), name.len() as int);
    assert(names(name) =~= seq![name]);
    let whole = joined_path(dir, name);
    if dir.len() == 0 {
        assert(whole =~= name);
    } else {
        let base = if dir.last() == '/' {
            dir.drop_last()
        } else {
            dir
        };
        assert(whole =~= base.push('/') + name);
        names_of_join(base, name);
    }
}

proof fn videos_are_those_entries(entries: Seq<Seq<char>>, e: Seq<char>)
    ensures
        videos(entries).contains(e) <==> entries.contains(e) && is_video(e),
        forall|i: int| 0 <= i < videos(entries).len() ==> is_video(#[trigger] videos(entries)[i]) && entries.contains(
            videos(entries)[i],
        ),
    decreases entries.len(),
{
    if entries.len() > 0 {
        let front = entries.drop_last();
        videos_are_those_entries(front, e);
        let (a, b) = (videos(front), videos(entries));
        let x = entries.last();
        assert(entries[entries.len() - 1] == x);
        if entries.contains(e) {
            let i = entries.index_of(e);
            if i < front.len() {
                assert(front[i] == e);
            }
        }
        if front.contains(e) {
            let i = front.index_of(e);
            assert(entries[i] == e);
        }
        if a.contains(e) {
            let i = a.index_of(e);
            assert(b[i] == e);
        }
        if b.contains(e) && !a.contains(e) {
            let i = b.index_of(e);
            if i < a.len() {
                assert(a[i] == e);
            }
        }
        if is_video(x) {
            assert(b[a.len() as int] == x);
        }
        assert forall|i: int| 0 <= i < b.len() implies is_video(#[trigger] b[i]) && entries.contains(b[i]) by {
            if i < a.len() {
                assert(a[i] == b[i]);
                let k = front.index_of(a[i]);
                assert(entries[k] == a[i]);
            }
        }
    }
}

/// A scan lists the videos of a directory and nothing else, sorted by name and
/// numbered one after the other, each read from that directory.
pub proof fn a_scan_lists_the_videos(dir: Seq<char>, entries: Seq<Seq<char>>, first: ClipId, e: Seq<char>)
    requires
        first + entries.len() <= u32::MAX,
    ensures
        ({
            let clips = scanned(dir, entries, first);
            let order = by_name(videos(entries));
            &&& clips.len() == order.len() && clips.len() <= entries.len()
            &&& crate::text::in_order(order)
            &&& order.contains(e) <==> entries.contains(e) && is_video(e)
            &&& forall|i: int|
                0 <= i < clips.len() ==> (#[trigger] clips[i]).id == first + i && clips[i].source
                    == ClipSourceModel::File(joined_path(dir, order[i])) && clips[i].bpm is None
        }),
{
    broadcast use vstd::seq_lib::group_to_multiset_ensures;

    let v = videos(entries);
    let order = by_name(v);
    sorting_keeps_every_name(v);
    videos_are_those_entries(entries, e);
    few_videos(entries);
    assert(order.contains(e) == v.contains(e)) by {
        assert(order.to_multiset().count(e) == v.to_multiset().count(e));
    }
}

proof fn few_videos(entries: Seq<Seq<char>>)
    ensures
        videos(entries).len() <= entries.len(),
    decreases entries.len(),
{
    if entries.len() > 0 {
        few_videos(entries.drop_last());
    }
}

/// A name is that of a video when the lower case of what follows its last dot is
/// one of the video extensions, and only then.
pub proof fn videos_are_known_by_their_extension(stem: Seq<char>, ext: Seq<char>)
    requires
        stem.len() > 0,
        !ext.contains('.'),
    ensures
        is_video(stem + seq!['.'] + ext) <==> {
            let e = crate::text::lowercase(ext);
            e == "mov"@ || e == "mp4"@ || e == "mkv"@ || e == "m4v"@ || e == "avi"@ || e == "webm"@ || e == "hap"@
        },
        !stem.contains('.') ==> !is_video(stem),
{
    let name = stem + seq!['.'] + ext;
    last_dot_is_last(name);
    let d = last_dot(name);
    assert(name[stem.len() as int] == '.');
    if d != stem.len() {
        assert(d > stem.len());
        assert(ext[d - stem.len() - 1] == '.');
        assert(ext.contains('.'));
    }
    assert(name.skip(d + 1) =~= ext);
    last_dot_is_last(stem);
    if last_dot(stem) >= 0 {
        assert(stem.contains('.'));
    }
}

/// A project file is saved in the directory it lies in: what is joined to that
/// directory under the file's name has the file's names again. A file without a
/// directory lies in the current one.
pub proof fn projects_are_saved_beside_their_file(path: Seq<char>)
    requires
        names(path).len() > 0,
    ensures
        names(save_dir_of(path)).push(names(path).last()) == names(path),
        absolute(save_dir_of(path)) == absolute(path),
        names(watched_dir(path)).push(names(path).last()) == names(path),
        watched_dir(path).len() > 0,
{
    a_path_lies_in_its_parent(path);
    let dir = parent_of(path)->0;
    assert(names(path).drop_last().push(names(path).last()) =~= names(path));
    if dir.len() == 0 {
        reveal_strlit(".");
        let dot = "."@;
        assert(dot =~= seq!['.']);
        first_at_bounds(dot, is_slash());
        first_at_bounds(dir, is_slash());
        assert(dot[0] == '.');
        if slash_at(dot) < dot.len() {
            assert(is_slash()(dot[0]));
        }
        assert(names(dot) =~= names(dir));
    }
}

/// Whether a chain goes through the effect file at a path.
pub open spec fn goes_through(chain: Seq<ChainSlotModel>, p: Seq<char>) -> bool {
    exists|i: int| 0 <= i < chain.len() && #[trigger] chain[i].shader == SlotRefModel::Isf(p)
}

proof fn chains_are_noted(list: Seq<Seq<char>>, chain: Seq<ChainSlotModel>, p: Seq<char>)
    ensures
        chain_noted(list, chain).contains(p) <==> list.contains(p) || goes_through(chain, p),
        list.no_duplicates() ==> chain_noted(list, chain).no_duplicates(),
    decreases chain.len(),
{
    if chain.len() > 0 {
        let front = chain.drop_last();
        chains_are_noted(list, front, p);
        let before = chain_noted(list, front);
        assert(goes_through(chain, p) <==> goes_through(front, p) || chain.last().shader == SlotRefModel::Isf(p)) by {
            if goes_through(front, p) {
                let i = choose|i: int| 0 <= i < front.len() && #[trigger] front[i].shader == SlotRefModel::Isf(p);
                assert(chain[i].shader == SlotRefModel::Isf(p));
            }
            if goes_through(chain, p) {
                let i = choose|i: int| 0 <= i < chain.len() && #[trigger] chain[i].shader == SlotRefModel::Isf(p);
                if i < front.len() {
                    assert(front[i].shader == SlotRefModel::Isf(p));
                }
            }
            assert(chain[chain.len() - 1] == chain.last());
        }
        if let SlotRefModel::Isf(q) = chain.last().shader {
            if !before.contains(q) {
                let after = before.push(q);
                if before.contains(p) {
                    let i = choose|i: int| 0 <= i < before.len() && before[i] == p;
                    assert(after[i] == p);
                }
                if after.contains(p) {
                    let i = choose|i: int| 0 <= i < after.len() && after[i] == p;
                    assert(i < before.len() ==> before[i] == p);
                }
                assert(after[before.len() as int] == q);
            }
        }
    }
}

/// Whether a cue of a list goes through the effect file at a path.
pub open spec fn a_cue_goes_through(cues: Seq<CueModel>, p: Seq<char>) -> bool {
    exists|i: int| 0 <= i < cues.len() && goes_through((#[trigger] cues[i]).chain, p)
}

proof fn cues_are_noted(list: Seq<Seq<char>>, cues: Seq<CueModel>, p: Seq<char>)
    ensures
        cues_noted(list, cues).contains(p) <==> list.contains(p) || a_cue_goes_through(cues, p),
        list.no_duplicates() ==> cues_noted(list, cues).no_duplicates(),
    decreases cues.len(),
{
    if cues.len() > 0 {
        let front = cues.drop_last();
        cues_are_noted(list, front, p);
        chains_are_noted(cues_noted(list, front), cues.last().chain, p);
        if a_cue_goes_through(front, p) {
            let i = choose|i: int| 0 <= i < front.len() && goes_through((#[trigger] front[i]).chain, p);
            assert(goes_through(cues[i].chain, p));
        }
        if a_cue_goes_through(cues, p) {
            let i = choose|i: int| 0 <= i < cues.len() && goes_through((#[trigger] cues[i]).chain, p);
            assert(i < front.len() ==> goes_through(front[i].chain, p));
        }
        assert(cues[cues.len() - 1] == cues.last());
    }
}

/// The effect files to save are those that a cue of some bank goes through, and
/// each is listed once.
pub proof fn effect_files_in_use_are_listed(banks: Seq<BankModel>, p: Seq<char>)
    ensures
        isf_paths(banks).contains(p) <==> exists|b: int|
            0 <= b < banks.len() && a_cue_goes_through((#[trigger] banks[b]).cues, p),
        isf_paths(banks).no_duplicates(),
    decreases banks.len(),
{
    if banks.len() > 0 {
        let front = banks.drop_last();
        effect_files_in_use_are_listed(front, p);
        cues_are_noted(isf_paths(front), banks.last().cues, p);
        if exists|b: int| 0 <= b < front.len() && a_cue_goes_through((#[trigger] front[b]).cues, p) {
            let b = choose|b: int| 0 <= b < front.len() && a_cue_goes_through((#[trigger] front[b]).cues, p);
            assert(a_cue_goes_through(banks[b].cues, p));
        }
        if exists|b: int| 0 <= b < banks.len() && a_cue_goes_through((#[trigger] banks[b]).cues, p) {
            let b = choose|b: int| 0 <= b < banks.len() && a_cue_goes_through((#[trigger] banks[b]).cues, p);
            assert(b < front.len() ==> a_cue_goes_through(front[b].cues, p));
        }
        assert(banks[banks.len() - 1] == banks.last());
    }
}

proof fn files_are_noted(list: Seq<Seq<char>>, clips: Seq<ClipModel>, p: Seq<char>)
    ensures
        files_noted(list, clips).contains(p) <==> list.contains(p) || exists|i: int|
            0 <= i < clips.len() && (#[trigger] clips[i]).source == ClipSourceModel::File(p),
        list.no_duplicates() ==> files_noted(list, clips).no_duplicates(),
    decreases clips.len(),
{
    if clips.len() > 0 {
        let front = clips.drop_last();
        files_are_noted(list, front, p);
        let before = files_noted(list, front);
        if exists|i: int| 0 <= i < front.len() && (#[trigger] front[i]).source == ClipSourceModel::File(p) {
            let i = choose|i: int| 0 <= i < front.len() && (#[trigger] front[i]).source == ClipSourceModel::File(p);
            assert(clips[i].source == ClipSourceModel::File(p));
        }
        if exists|i: int| 0 <= i < clips.len() && (#[trigger] clips[i]).source == ClipSourceModel::File(p) {
            let i = choose|i: int| 0 <= i < clips.len() && (#[trigger] clips[i]).source == ClipSourceModel::File(p);
            assert(i < front.len() ==> front[i].source == ClipSourceModel::File(p));
        }
        assert(clips[clips.len() - 1] == clips.last());
        if let Some(q) = clips.last().file_path() {
            noting_adds_one(before, q, p);
        }
    }
}

proof fn noting_adds_one(list: Seq<Seq<char>>, q: Seq<char>, p: Seq<char>)
    ensures
        noted(list, q).contains(p) <==> list.contains(p) || p == q,
        list.no_duplicates() ==> noted(list, q).no_duplicates(),
{
    if !list.contains(q) {
        let after = list.push(q);
        if list.contains(p) {
            let i = choose|i: int| 0 <= i < list.len() && list[i] == p;
            assert(after[i] == p);
        }
        if after.contains(p) {
            let i = choose|i: int| 0 <= i < after.len() && after[i] == p;
            assert(i < list.len() ==> list[i] == p);
        }
        assert(after[list.len() as int] == q);
    }
}

/// The paths that a save stores are the shader's, those of the effect files that cues
/// go through, and those of the clips' files; each is looked up once.
pub proof fn what_is_saved_is_looked_up_once(m: AppModel, p: Seq<char>)
    ensures
        stored_paths(m).contains(p) <==> p == m.shader_path || (exists|b: int|
            0 <= b < m.banks.len() && a_cue_goes_through((#[trigger] m.banks[b]).cues, p)) || (exists|i: int|
            0 <= i < m.clips.len() && (#[trigger] m.clips[i]).source == ClipSourceModel::File(p)),
        stored_paths(m).no_duplicates(),
{
    effect_files_in_use_are_listed(m.banks, p);
    noting_adds_one(isf_paths(m.banks), m.shader_path, p);
    files_are_noted(noted(isf_paths(m.banks), m.shader_path), m.clips, p);
}

/// A project that cannot be opened names each clip that is missing, in order.
pub proof fn missing_clips_are_named(missing: Seq<ClipId>, clips: Seq<ClipSpecModel>, i: int, at: int)
    requires
        forall|k: int, l: int| 0 <= k < l < clips.len() ==> (#[trigger] clips[k]).id != (#[trigger] clips[l]).id,
        forall|k: int| 0 <= k < missing.len() ==> exists|c: int|
            0 <= c < clips.len() && (#[trigger] clips[c]).id == #[trigger] missing[k],
        0 <= i < missing.len(),
        0 <= at < clips.len(),
        clips[at].id == missing[i],
    ensures
        missing_names(missing, clips).len() == missing.len(),
        missing_names(missing, clips)[i] == clips[at].name,
    decreases missing.len(),
{
    let last = missing.last();
    assert(missing[missing.len() - 1] == last);
    let c = choose|c: int| 0 <= c < clips.len() && (#[trigger] clips[c]).id == last;
    first_at_bounds(clips, spec_with_id(last));
    assert(spec_with_id(last)(clips[c]));
    let found = first_at(clips, spec_with_id(last));
    assert(spec_with_id(last)(clips[found]));
    let front = missing.drop_last();
    if front.len() > 0 {
        assert forall|k: int| 0 <= k < front.len() implies exists|c: int|
            0 <= c < clips.len() && (#[trigger] clips[c]).id == #[trigger] front[k] by {
            assert(front[k] == missing[k]);
        }
        let j = if i < front.len() {
            i
        } else {
            0
        };
        assert(front[j] == missing[j]);
        let there = if i < front.len() {
            at
        } else {
            choose|c: int| 0 <= c < clips.len() && (#[trigger] clips[c]).id == missing[0]
        };
        missing_clips_are_named(front, clips, j, there);
    } else {
        assert(missing_names(front, clips).len() == 0);
    }
}

/// A cue that is added to a project without more plays the whole clip when it is
/// opened.
pub proof fn a_plain_saved_cue_is_the_whole_clip(clip: ClipId, name: Seq<char>, id: CueId, dir: Seq<char>)
    ensures
        loaded_cue(CueSpecModel::full_length(clip, name), id, dir).id == id,
        whole_clip(loaded_cue(CueSpecModel::full_length(clip, name), id, dir), clip, name),
{
}

/// An opened project holds what it says: its clips under their ids and names at the
/// files that were found for them, its clip banks, and its cue banks with their
/// cues numbered from one through all of them.
pub proof fn an_opened_project_holds_what_it_says(
    l: Loaded,
    r: ResolvedModel,
    path: Seq<char>,
    opts: StartOptions,
    i: int,
    b: int,
    c: int,
)
    requires
        from_project(l, r, path, opts),
        cues_before(r.project.cue_banks, r.project.cue_banks.len() as int) < u32::MAX,
    ensures
        l.clips@.len() == r.project.clips.len(),
        0 <= i < l.clips@.len() ==> {
            let (clip, spec) = (l.clips@[i]@, r.project.clips[i]);
            &&& clip.id == spec.id && clip.name == spec.name && clip.bpm == spec.bpm
            &&& clip.source == ClipSourceModel::File(r.clip_paths[spec.id])
        },
        l.clip_banks@.len() == r.project.clip_banks.len(),
        0 <= b < l.clip_banks@.len() ==> l.clip_banks@[b]@.name == r.project.clip_banks[b].name
            && l.clip_banks@[b]@.clip_ids == r.project.clip_banks[b].clip_ids,
        l.cue_banks@.len() == r.project.cue_banks.len(),
        0 <= b < l.cue_banks@.len() ==> l.cue_banks@[b]@.name == r.project.cue_banks[b].name
            && l.cue_banks@[b]@.cues.len() == r.project.cue_banks[b].cues.len(),
        0 <= b < l.cue_banks@.len() && 0 <= c < l.cue_banks@[b]@.cues.len() ==> {
            let (cue, spec) = (l.cue_banks@[b]@.cues[c], r.project.cue_banks[b].cues[c]);
            &&& cue.clip == spec.clip && cue.name == spec.name
            &&& cue.in_sec == spec.in_sec && cue.out_sec == spec.out_sec && cue.preserve == spec.preserve
            &&& cue.dwell == spec.dwell && cue.loop_len == spec.loop_len && cue.bpm == spec.bpm
            &&& b == 0 && c == 0 ==> cue.id == 1
            &&& c > 0 ==> cue.id == l.cue_banks@[b]@.cues[c - 1].id + 1
            &&& b > 0 && c == 0 && l.cue_banks@[b - 1]@.cues.len() > 0 ==> cue.id == l.cue_banks@[b
                - 1]@.cues.last().id + 1
        },
{
    let n = r.project.cue_banks.len() as int;
    assert(views(l.clips@).len() == l.clips@.len());
    if 0 <= i < l.clips@.len() {
        assert(views(l.clips@)[i] == l.clips@[i]@);
    }
    assert(views(l.cue_banks@).len() == l.cue_banks@.len());
    if 0 <= b < n {
        assert(views(l.cue_banks@)[b] == l.cue_banks@[b]@);
        cues_add_up(r.project.cue_banks, b + 1, n);
        cues_add_up(r.project.cue_banks, 0, b);
        if b > 0 {
            assert(views(l.cue_banks@)[b - 1] == l.cue_banks@[b - 1]@);
            cues_add_up(r.project.cue_banks, 0, b - 1);
        }
    }
}

proof fn cues_add_up(banks: Seq<CueBankSpecModel>, a: int, n: int)
    requires
        0 <= a <= n <= banks.len(),
    ensures
        0 <= cues_before(banks, a) <= cues_before(banks, n),
    decreases n,
{
    if a < n {
        cues_add_up(banks, a, n - 1);
    } else if n > 0 {
        cues_add_up(banks, n - 1, n - 1);
    }
}

/// What a project leaves open is as before there was a place for it: a signature of
/// 4/4, a phrase of so many beats, a loop of so many ticks; and what even that
/// leaves open is as the command line says.
pub proof fn an_older_project_keeps_its_timing(
    l: Loaded,
    r: ResolvedModel,
    path: Seq<char>,
    opts: StartOptions,
)
    requires
        from_project(l, r, path, opts),
        32 * r.project.defaults.phrase_len <= u32::MAX,
        32 * opts.phrase_len <= u32::MAX,
    ensures
        ({
            let d = r.project.defaults;
            &&& d.ts_num == 0 ==> l.time_sig.num == 4 && l.time_sig.den == 4
            &&& d.phrase_cadence is None && d.phrase_len > 0 ==> l.phrase_cadence == Cadence::Note(
                (32 * d.phrase_len) as u32,
            )
            &&& d.phrase_cadence is None && d.phrase_len == 0 ==> l.phrase_cadence == Cadence::Note(
                (32 * opts.phrase_len) as u32,
            )
            &&& d.phrase_cadence matches Some(CadenceSpec::Bars(n)) ==> l.phrase_cadence == Cadence::Bars(n)
            &&& d.phrase_cadence matches Some(CadenceSpec::Note(t)) ==> l.phrase_cadence == Cadence::Note(t)
            &&& !d.loop_cadence_set && d.loop_len is Some ==> l.loop_cadence == Some(Cadence::Note(d.loop_len->0))
            &&& !d.loop_cadence_set && d.loop_len is None ==> l.loop_cadence is None
            &&& d.loop_cadence_set && d.loop_cadence is None ==> l.loop_cadence is None
            &&& d.bpm <= 0 ==> l.bpm == opts.bpm
            &&& d.shader_path is None ==> opts.shader is Some && l.shader@ == opts.shader->0@
            &&& d.shader_path is Some ==> l.shader@ == joined_path(r.project_dir, d.shader_path->0)
        }),
{
}

/// The probe data of a clip is kept under its id.
pub proof fn probe_data_is_kept_by_clip(clips: Seq<ClipSpecModel>, i: int, id: ClipId)
    requires
        forall|k: int, l: int| 0 <= k < l < clips.len() ==> (#[trigger] clips[k]).id != (#[trigger] clips[l]).id,
    ensures
        0 <= i < clips.len() ==> metas_of(clips).contains_key(clips[i].id) && {
            let m = metas_of(clips)[clips[i].id];
            m.fps == clips[i].fps && m.frames == clips[i].frames && m.duration_sec == clips[i].duration_sec
                && m.source == clips[i].source
        },
        metas_of(clips).contains_key(id) ==> exists|k: int| 0 <= k < clips.len() && (#[trigger] clips[k]).id == id,
    decreases clips.len(),
{
    if clips.len() > 0 {
        let front = clips.drop_last();
        probe_data_is_kept_by_clip(front, i, id);
        assert(clips[clips.len() - 1] == clips.last());
        if 0 <= i < front.len() {
            assert(front[i] == clips[i]);
            assert(clips[i].id != clips[clips.len() - 1].id);
        }
        if metas_of(front).contains_key(id) {
            let k = choose|k: int| 0 <= k < front.len() && (#[trigger] front[k]).id == id;
            assert(clips[k].id == id);
        }
    }
}

/// A clip's file is looked for where its stored path leads from the project's
/// directory.
pub proof fn stored_paths_lead_from_the_project(clips: Seq<ClipSpecModel>, dir: Seq<char>, i: int, id: ClipId)
    requires
        forall|k: int, l: int| 0 <= k < l < clips.len() ==> (#[trigger] clips[k]).id != (#[trigger] clips[l]).id,
    ensures
        0 <= i < clips.len() ==> paths_of(clips, dir).contains_key(clips[i].id) && paths_of(clips, dir)[clips[i].id]
            == joined_path(dir, clips[i].path),
        paths_of(clips, dir).contains_key(id) ==> exists|k: int| 0 <= k < clips.len() && (#[trigger] clips[k]).id == id,
    decreases clips.len(),
{
    if clips.len() > 0 {
        let front = clips.drop_last();
        stored_paths_lead_from_the_project(front, dir, i, id);
        assert(clips[clips.len() - 1] == clips.last());
        if 0 <= i < front.len() {
            assert(front[i] == clips[i]);
            assert(clips[i].id != clips[clips.len() - 1].id);
        }
        if paths_of(front, dir).contains_key(id) {
            let k = choose|k: int| 0 <= k < front.len() && (#[trigger] front[k]).id == id;
            assert(clips[k].id == id);
        }
    }
}

/// Names are listed with a comma between each two.
pub proof fn names_are_listed_with_commas(names: Seq<Seq<char>>, last: Seq<char>)
    ensures
        listed(seq![last]) == last,
        names.len() > 0 ==> listed(names.push(last)) == listed(names) + ", "@ + last,
{
    assert(names.push(last).drop_last() =~= names);
}

/// A project of before versions were counted becomes one of the first; another
/// keeps its version, and nothing else changes.
pub proof fn only_the_version_is_migrated(p: ProjectModel)
    ensures
        p.version == 0 ==> migrated(p).version == 1,
        p.version != 0 ==> migrated(p) == p,
        (ProjectModel { version: p.version, ..migrated(p) }) == p,
{
}

/// A path is stored by what is left of it below the project's directory, so that
/// both can be moved together; a path elsewhere is stored whole. Paths with a
/// backslash are left out: storing one turns it into a separator.
pub proof fn paths_below_the_project_are_stored_short(dir: Seq<char>, abs: Seq<char>)
    requires
        absolute(abs),
        absolute(dir),
        !abs.contains('\\'),
    ensures
        parts(dir).is_prefix_of(parts(abs)) ==> !absolute(relative_to(dir, abs)),
        !parts(dir).is_prefix_of(parts(abs)) ==> relative_to(dir, abs) == abs,
{
    if parts(dir).is_prefix_of(parts(abs)) {
        let tail = tail_after(abs, names(dir).len() as int);
        tail_is_relative(abs, names(dir).len() as int);
        trimming_keeps_the_start(tail);
        assert(parts(dir)[0] == seq!['/']);
        let short = trimmed(tail);
        tail_within(abs, names(dir).len() as int);
        if short.len() > 0 {
            assert(short[0] == tail[0]);
            assert(abs.contains(tail[0]));
        }
    }
}

/// A copy is called by the file's own name, and by the clip's number where the path
/// has none.
pub proof fn copies_are_called_by_their_file(c: ClipSpecModel)
    ensures
        file_name_of(c.path) matches Some(n) ==> gather_base(c) == n,
        file_name_of(c.path) is None ==> gather_base(c) == "clip"@ + decimal(c.id as nat) + ".mov"@,
{
}

/// A path is looked up in the table of absolute paths; one that is not listed stays as
/// it is.
pub proof fn paths_are_looked_up(table: Forms, p: Seq<char>, i: int)
    ensures
        0 <= i < table.len() && table[i].0 == p && (forall|j: int| 0 <= j < i ==> (#[trigger] table[j]).0 != p)
            ==> absolute_form(table, p) == table[i].1,
        (forall|j: int| 0 <= j < table.len() ==> (#[trigger] table[j]).0 != p) ==> absolute_form(table, p) == p,
{
    first_at_bounds(table, for_path(p));
    let at = first_at(table, for_path(p));
    if at < table.len() {
        assert(for_path(p)(table[at]));
    }
    if 0 <= i < table.len() && table[i].0 == p && (forall|j: int| 0 <= j < i ==> (#[trigger] table[j]).0 != p) {
        first_at_is(table, for_path(p), i);
    }
}

/// The file of a saved clip, the files of its effects and the shader are found from
/// the project's directory; those below it are stored without it. A camera has no
/// file.
pub proof fn saved_files_are_found_again(
    m: AppModel,
    c: ClipModel,
    meta: ClipMetaModel,
    p: Seq<char>,
    bpm: MicroBpm,
    dir: Seq<char>,
    table: Forms,
)
    requires
        absolute(dir),
        absolute(absolute_form(table, p)),
        !absolute_form(table, p).contains('\\'),
    ensures
        ({
            let abs = absolute_form(table, p);
            let clip = saved_clip(c, dir, table, meta).path;
            let effect = saved_slot(ChainSlotModel { shader: SlotRefModel::Isf(p), params: seq![] }, dir, table);
            let shader = saved_defaults(m, bpm, dir, table).shader_path;
            let below = parts(dir).is_prefix_of(parts(abs));
            &&& c.source == ClipSourceModel::File(p) ==> parts(joined_path(dir, clip)) == parts(abs)
            &&& c.source == ClipSourceModel::File(p) ==> absolute(clip) == !below
            &&& !(c.source is File) ==> clip.len() == 0
            &&& effect is Some && effect->0 is Isf
            &&& parts(joined_path(dir, effect->0->path)) == parts(abs)
            &&& absolute(effect->0->path) == !below
            &&& m.shader_path == p ==> shader is Some && parts(joined_path(dir, shader->0)) == parts(abs)
            &&& m.shader_path == p ==> absolute(shader->0) == !below
        }),
{
    storing_a_path_keeps_its_components(dir, absolute_form(table, p));
    paths_below_the_project_are_stored_short(dir, absolute_form(table, p));
}

/// The value of an effect input is saved as it is, part by part.
pub proof fn values_are_saved_as_they_are(f: Single, b: bool, i: i32, c: Rgba, p: Point2)
    ensures
        saved_value(IsfValue::Float(f)) == IsfValueSpec::Float(f),
        saved_value(IsfValue::Bool(b)) == IsfValueSpec::Bool(b),
        saved_value(IsfValue::Long(i)) == IsfValueSpec::Long(i),
        saved_value(IsfValue::Color(c)) == IsfValueSpec::Color(c.r, c.g, c.b, c.a),
        saved_value(IsfValue::Point2D(p)) == IsfValueSpec::Point2D(p.x, p.y),
{
}

} // verus!
