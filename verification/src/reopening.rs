//! What a session that is opened again has of the one that was saved.

use vstd::prelude::*;

use crate::app::AppModel;
use crate::bank::{BankModel, CueModel};
use crate::clippool::ClipBankModel;
use crate::commands::{ChainSlotModel, SlotRefModel};
use crate::laws::ids_apart;
use crate::paths::{absolute, joined_path, parts, storing_a_path_keeps_its_components};
use crate::project::{
    absolute_form, if_on, knob, loaded_chain, loaded_cue, loaded_params, loaded_slot, meta_for, saved_chain,
    saved_clip, saved_cue, saved_params, saved_project, saved_slot, values_survive_saving, ClipSpecModel,
    CueBankSpecModel,
};
use crate::relink::{all_resolved, paths_of, ResolvedModel};
use crate::saving::saved_defaults;
use crate::seqs::kept;
use crate::session::{
    cues_before, loaded_clip_bank, loaded_cues_are_numbered, loaded_cues_have_their_own_ids, meta_in, metas_of,
    project_clips, project_cue_banks, project_shader,
};
use crate::units::{MicroBpm, MICRO};

verus! {

/// Absolute forms of paths, as a save is given them.
pub type Forms = Seq<(Seq<char>, Seq<char>)>;

/// Whether a save can store a path: its absolute form is known and holds no
/// backslash, which storing would turn into a separator.
pub open spec fn storable(table: Forms, p: Seq<char>) -> bool {
    absolute(absolute_form(table, p)) && !absolute_form(table, p).contains('\\')
}

/// Whether `q` leads to the file that `p` led to, component by component.
pub open spec fn same_file(table: Forms, p: Seq<char>, q: Seq<char>) -> bool {
    parts(q) == parts(absolute_form(table, p))
}

/// Selects the effects that a save writes: all but pinned captures.
pub open spec fn is_written() -> spec_fn(ChainSlotModel) -> bool {
    |s: ChainSlotModel| !(s.shader is Pinned)
}

/// Whether `t` is the effect `s` opened again.
pub open spec fn same_slot(table: Forms, s: ChainSlotModel, t: ChainSlotModel) -> bool {
    match s.shader {
        SlotRefModel::Isf(p) => t.shader matches SlotRefModel::Isf(q) && same_file(table, p, q) && t.params
            == s.params,
        shader => t == ChainSlotModel::plain(shader),
    }
}

/// Whether `b` is the chain `a` opened again: the effects that were written, in
/// their order.
pub open spec fn same_chain(table: Forms, a: Seq<ChainSlotModel>, b: Seq<ChainSlotModel>) -> bool {
    let written = kept(a, is_written());
    &&& b.len() == written.len()
    &&& forall|i: int| 0 <= i < b.len() ==> same_slot(table, written[i], #[trigger] b[i])
}

/// Whether `d` is the cue `c` opened again, whatever its id: a knob that was off
/// is off at its default, and everything else is as it was.
pub open spec fn same_cue(table: Forms, c: CueModel, d: CueModel) -> bool {
    &&& d == CueModel {
        id: d.id,
        chain: d.chain,
        loop_phase: knob(if_on(c.loop_phase), 0),
        start_nudge: knob(if_on(c.start_nudge), 0),
        trig_delay: knob(if_on(c.trig_delay), 0),
        speed_mul: knob(if_on(c.speed_mul), MICRO),
        ..c
    }
    &&& same_chain(table, c.chain, d.chain)
}

/// Whether `d` is the bank `b` opened again.
pub open spec fn same_bank(table: Forms, b: BankModel, d: BankModel) -> bool {
    &&& d.name == b.name
    &&& d.cues.len() == b.cues.len()
    &&& forall|i: int| 0 <= i < d.cues.len() ==> same_cue(table, b.cues[i], #[trigger] d.cues[i])
}

/// Whether a save can store every file of a chain.
pub open spec fn chain_storable(table: Forms, chain: Seq<ChainSlotModel>) -> bool {
    forall|i: int| 0 <= i < chain.len() ==> ((#[trigger] chain[i]).shader matches SlotRefModel::Isf(p) ==> storable(table, p))
}

/// Whether a save can store every file that a session refers to, and no two of
/// its clips share an id.
pub open spec fn session_storable(table: Forms, m: AppModel) -> bool {
    &&& storable(table, m.shader_path)
    &&& forall|i: int|
        0 <= i < m.clips.len() ==> ((#[trigger] m.clips[i]).file_path() matches Some(p) ==> storable(table, p))
    &&& forall|b: int, i: int|
        #![trigger m.banks[b].cues[i]]
        0 <= b < m.banks.len() && 0 <= i < m.banks[b].cues.len() ==> chain_storable(
            table,
            m.banks[b].cues[i].chain,
        )
    &&& forall|i: int, j: int|
        0 <= i < j < m.clips.len() ==> (#[trigger] m.clips[i]).id != (#[trigger] m.clips[j]).id
}

proof fn slot_comes_back(table: Forms, dir: Seq<char>, s: ChainSlotModel)
    requires
        is_written()(s),
        s.shader matches SlotRefModel::Isf(p) ==> storable(table, p),
    ensures
        saved_slot(s, dir, table) is Some,
        same_slot(table, s, loaded_slot(saved_slot(s, dir, table)->0, dir)),
{
    if let SlotRefModel::Isf(p) = s.shader {
        storing_a_path_keeps_its_components(dir, absolute_form(table, p));
        let back = loaded_params(saved_params(s.params));
        assert forall|i: int| 0 <= i < back.len() implies #[trigger] back[i] == s.params[i] by {
            values_survive_saving(s.params[i].1, crate::project::saved_value(s.params[i].1));
        }
        assert(back =~= s.params);
    }
}

proof fn chain_comes_back(table: Forms, dir: Seq<char>, chain: Seq<ChainSlotModel>)
    requires
        chain_storable(table, chain),
    ensures
        same_chain(table, chain, loaded_chain(saved_chain(chain, dir, table), dir)),
    decreases chain.len(),
{
    if chain.len() > 0 {
        let front = chain.drop_last();
        let s = chain.last();
        assert forall|i: int| 0 <= i < front.len() implies ((#[trigger] front[i]).shader matches SlotRefModel::Isf(p) ==> storable(table, p)) by {
            assert(front[i] == chain[i]);
        }
        chain_comes_back(table, dir, front);
        let back = loaded_chain(saved_chain(front, dir, table), dir);
        if is_written()(s) {
            slot_comes_back(table, dir, s);
            let t = loaded_slot(saved_slot(s, dir, table)->0, dir);
            assert(loaded_chain(saved_chain(chain, dir, table), dir) =~= back.push(t));
        }
    }
}

/// A cue comes back from a save as it was, but for its id, the value of a knob
/// that is off, and its pinned captures; its effects lead to the same files.
pub proof fn a_saved_cue_comes_back(table: Forms, dir: Seq<char>, c: CueModel, id: u32)
    requires
        chain_storable(table, c.chain),
    ensures
        same_cue(table, c, loaded_cue(saved_cue(c, dir, table), id, dir)),
{
    chain_comes_back(table, dir, c.chain);
}

proof fn paths_are_found(clips: Seq<ClipSpecModel>, dir: Seq<char>, i: int)
    requires
        0 <= i < clips.len(),
        forall|a: int, b: int| 0 <= a < b < clips.len() ==> (#[trigger] clips[a]).id != (#[trigger] clips[b]).id,
    ensures
        paths_of(clips, dir).contains_key(clips[i].id),
        paths_of(clips, dir)[clips[i].id] == joined_path(dir, clips[i].path),
        metas_of(clips).contains_key(clips[i].id),
        metas_of(clips)[clips[i].id] == meta_in(clips[i]),
    decreases clips.len(),
{
    let front = clips.drop_last();
    if i < front.len() {
        assert(front[i] == clips[i]);
        assert forall|a: int, b: int| 0 <= a < b < front.len() implies (#[trigger] front[a]).id != (
        #[trigger] front[b]).id by {
            assert(front[a] == clips[a] && front[b] == clips[b]);
        }
        paths_are_found(front, dir, i);
        assert(clips[i].id != clips[clips.len() - 1].id);
    }
}

/// A session opened again from what was saved has the same clips, banks and
/// shader: clips keep their id, name, tempo and probe data and lead to the same
/// files; clip banks keep their name and clips; cue banks keep their name, their
/// order and their cues.
pub proof fn a_saved_session_is_loaded_again(
    m: AppModel,
    clock_bpm: MicroBpm,
    dir: Seq<char>,
    table: Forms,
    r: ResolvedModel,
    given: Option<Seq<char>>,
)
    requires
        session_storable(table, m),
        r.project == saved_project(
            dir,
            table,
            m.clips,
            m.clip_banks,
            m.banks,
            m.clip_meta,
            saved_defaults(m, clock_bpm, dir, table),
        ),
        r.project_dir == dir,
        r.clip_paths == paths_of(r.project.clips, dir),
    ensures
        all_resolved(r),
        project_clips(r).len() == m.clips.len(),
        forall|i: int|
            0 <= i < m.clips.len() ==> {
                let c = #[trigger] project_clips(r)[i];
                &&& c.id == m.clips[i].id
                &&& c.name == m.clips[i].name
                &&& c.bpm == m.clips[i].bpm
                &&& m.clips[i].file_path() matches Some(p) ==> (c.file_path() matches Some(q) && same_file(
                    table,
                    p,
                    q,
                ))
                &&& metas_of(r.project.clips).contains_key(c.id)
                &&& metas_of(r.project.clips)[c.id] == meta_for(m.clip_meta, c.id)
            },
        r.project.clip_banks.len() == m.clip_banks.len(),
        forall|i: int|
            0 <= i < m.clip_banks.len() ==> loaded_clip_bank(#[trigger] r.project.clip_banks[i]) == (
            ClipBankModel { dir: None, ..m.clip_banks[i] }),
        project_cue_banks(r.project.cue_banks, dir).len() == m.banks.len(),
        forall|i: int|
            0 <= i < m.banks.len() ==> same_bank(
                table,
                m.banks[i],
                #[trigger] project_cue_banks(r.project.cue_banks, dir)[i],
            ),
        project_shader(r, given) matches Some(q) && same_file(table, m.shader_path, q),
{
    let clips = r.project.clips;
    assert forall|a: int, b: int| 0 <= a < b < clips.len() implies (#[trigger] clips[a]).id != (
    #[trigger] clips[b]).id by {
        assert(m.clips[a].id != m.clips[b].id);
    }
    assert forall|i: int| 0 <= i < clips.len() implies r.clip_paths.contains_key((#[trigger] clips[i]).id) by {
        paths_are_found(clips, dir, i);
    }
    assert forall|i: int| 0 <= i < m.clips.len() implies {
        let c = #[trigger] project_clips(r)[i];
        &&& c.id == m.clips[i].id
        &&& c.name == m.clips[i].name
        &&& c.bpm == m.clips[i].bpm
        &&& m.clips[i].file_path() matches Some(p) ==> (c.file_path() matches Some(q) && same_file(table, p, q))
        &&& metas_of(clips).contains_key(c.id)
        &&& metas_of(clips)[c.id] == meta_for(m.clip_meta, c.id)
    } by {
        let meta = meta_for(m.clip_meta, m.clips[i].id);
        assert(clips[i] == saved_clip(m.clips[i], dir, table, meta));
        paths_are_found(clips, dir, i);
        assert(meta_in(clips[i]) == meta);
        if let Some(p) = m.clips[i].file_path() {
            storing_a_path_keeps_its_components(dir, absolute_form(table, p));
        }
    }
    let banks = project_cue_banks(r.project.cue_banks, dir);
    assert forall|b: int| 0 <= b < m.banks.len() implies same_bank(table, m.banks[b], #[trigger] banks[b]) by {
        assert forall|i: int| 0 <= i < banks[b].cues.len() implies same_cue(
            table,
            m.banks[b].cues[i],
            #[trigger] banks[b].cues[i],
        ) by {
            let c = m.banks[b].cues[i];
            a_saved_cue_comes_back(table, dir, c, banks[b].cues[i].id);
        }
    }
    storing_a_path_keeps_its_components(dir, absolute_form(table, m.shader_path));
}

/// The cues of an opened project have ids apart from each other.
pub proof fn an_opened_project_has_its_ids_apart(banks: Seq<CueBankSpecModel>, dir: Seq<char>)
    requires
        cues_before(banks, banks.len() as int) < u32::MAX,
    ensures
        ids_apart(project_cue_banks(banks, dir), u32::MAX as int),
{
    let opened = project_cue_banks(banks, dir);
    assert forall|b: int, i: int|
        #![trigger opened[b].cues[i]]
        0 <= b < opened.len() && 0 <= i < opened[b].cues.len() implies opened[b].cues[i].id < u32::MAX by {
        loaded_cues_are_numbered(banks, dir, b, i);
    }
    assert forall|b: int, i: int, c: int, j: int|
        #![trigger opened[b].cues[i], opened[c].cues[j]]
        0 <= b < opened.len() && 0 <= i < opened[b].cues.len() && 0 <= c < opened.len() && 0 <= j < opened[c].cues.len()
            && (b != c || i != j) implies opened[b].cues[i].id != opened[c].cues[j].id by {
        loaded_cues_have_their_own_ids(banks, dir, b, i, c, j);
    }
}

} // verus!
