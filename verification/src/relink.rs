//! Finding a project's clip files: resolving stored paths, matching files that
//! have moved, and naming the copies of a self-contained project folder.

use std::collections::HashMap;

use vstd::prelude::*;
use vstd::string::*;

use crate::commands::ClipId;
use crate::paths::{
    absolute, file_name, file_name_of, joined_path, parts, relative_to,
    storing_a_path_keeps_its_components,
};
use crate::project::{
    relativize, resolve_path, ClipSpec, ClipSpecModel, Project, ProjectModel,
};
use crate::seqs::{first_at, first_at_bounds, first_at_is, first_of, kept, kept_satisfies};
use crate::text::{decimal, decimal_text, joined, same, view_opt, views};

verus! {

/// A loaded project with the path of each clip, and the clips whose file is
/// missing.
#[derive(Debug)]
pub struct ResolvedProject {
    pub project: Project,
    pub project_dir: String,
    pub clip_paths: HashMap<ClipId, String>,
    pub missing: Vec<ClipId>,
}

/// The mathematical content of a [`ResolvedProject`].
pub struct ResolvedModel {
    pub project: ProjectModel,
    pub project_dir: Seq<char>,
    pub clip_paths: Map<ClipId, Seq<char>>,
    pub missing: Seq<ClipId>,
}

/// A map to texts.
pub open spec fn text_map(m: Map<ClipId, String>) -> Map<ClipId, Seq<char>> {
    m.map_values(|s: String| s@)
}

impl View for ResolvedProject {
    type V = ResolvedModel;

    open spec fn view(&self) -> ResolvedModel {
        ResolvedModel {
            project: self.project@,
            project_dir: self.project_dir@,
            clip_paths: text_map(self.clip_paths@),
            missing: self.missing@,
        }
    }
}

/// Selects the saved clip with a given id.
pub open spec fn spec_with_id(id: ClipId) -> spec_fn(ClipSpecModel) -> bool {
    |c: ClipSpecModel| c.id == id
}

/// Every clip's path, by id; of clips that share an id, the last one's.
pub open spec fn paths_of(clips: Seq<ClipSpecModel>, dir: Seq<char>) -> Map<ClipId, Seq<char>>
    decreases clips.len(),
{
    if clips.len() == 0 {
        Map::empty()
    } else {
        paths_of(clips.drop_last(), dir).insert(
            clips.last().id,
            joined_path(dir, clips.last().path),
        )
    }
}

/// The ids of the clips whose file does not exist.
pub open spec fn absent(clips: Seq<ClipSpecModel>, exists_on_disk: Seq<bool>) -> Seq<ClipId>
    decreases clips.len(),
{
    if clips.len() == 0 {
        seq![]
    } else {
        let before = absent(clips.drop_last(), exists_on_disk);
        if exists_on_disk[clips.len() - 1] {
            before
        } else {
            before.push(clips.last().id)
        }
    }
}

/// Every clip of the project has a resolved path.
pub open spec fn all_resolved(r: ResolvedModel) -> bool {
    forall|i: int|
        0 <= i < r.project.clips.len() ==> r.clip_paths.contains_key((#[trigger] r.project.clips[i]).id)
}

/// Resolves every clip path and records which files are missing, given for
/// each clip whether the file at its resolved path exists.
pub fn resolve(project: Project, project_dir: &str, exists_on_disk: &Vec<bool>) -> (r: ResolvedProject)
    requires
        exists_on_disk@.len() == project.clips@.len(),
    ensures
        r@.project == project@,
        r@.project_dir == project_dir@,
        r@.clip_paths == paths_of(project@.clips, project_dir@),
        r@.missing == absent(project@.clips, exists_on_disk@),
        all_resolved(r@),
{
    broadcast use vstd::std_specs::hash::group_hash_axioms;

    let mut clip_paths: HashMap<ClipId, String> = HashMap::new();
    let mut missing: Vec<ClipId> = Vec::new();
    let mut i: usize = 0;
    proof {
        assert(text_map(clip_paths@) =~= Map::empty());
    }
    while i < project.clips.len()
        invariant
            i <= project.clips@.len(),
            exists_on_disk@.len() == project.clips@.len(),
            text_map(clip_paths@) == paths_of(project@.clips.take(i as int), project_dir@),
            missing@ == absent(project@.clips.take(i as int), exists_on_disk@),
            forall|j: int|
                0 <= j < i ==> clip_paths@.contains_key((#[trigger] project.clips@[j]).id),
        decreases project.clips@.len() - i,
    {
        broadcast use vstd::std_specs::hash::group_hash_axioms;

        let ghost before = clip_paths@;
        let ghost seen = project@.clips.take(i + 1);
        let spec = &project.clips[i];
        let path = resolve_path(project_dir, spec.path.as_str());
        if !exists_on_disk[i] {
            missing.push(spec.id);
        }
        clip_paths.insert(spec.id, path);
        proof {
            assert(seen.drop_last() =~= project@.clips.take(i as int));
            assert(seen.last() == project.clips@[i as int]@);
            assert(text_map(clip_paths@) =~= text_map(before).insert(spec.id, path@));
        }
        i += 1;
    }
    proof {
        assert(project@.clips.take(project.clips@.len() as int) =~= project@.clips);
    }
    let r = ResolvedProject { project, project_dir: project_dir.to_owned(), clip_paths, missing };
    proof {
        assert forall|j: int| 0 <= j < r@.project.clips.len() implies r@.clip_paths.contains_key(
            (#[trigger] r@.project.clips[j]).id,
        ) by {
            assert(clip_paths@.contains_key(project.clips@[j].id));
        }
    }
    r
}

/// A missing clip and the file found for it.
#[derive(Debug)]
pub struct RelinkCandidate {
    pub clip_id: ClipId,
    pub name: String,
    pub found: Option<String>,
}

/// The mathematical content of a [`RelinkCandidate`].
pub struct RelinkCandidateModel {
    pub clip_id: ClipId,
    pub name: Seq<char>,
    pub found: Option<Seq<char>>,
}

impl View for RelinkCandidate {
    type V = RelinkCandidateModel;

    open spec fn view(&self) -> RelinkCandidateModel {
        RelinkCandidateModel { clip_id: self.clip_id, name: self.name@, found: view_opt(self.found) }
    }
}

/// Selects the paths with a given file name.
pub open spec fn file_called(base: Seq<char>) -> spec_fn(Seq<char>) -> bool {
    |p: Seq<char>| file_name_of(p) == Some(base)
}

/// The base name a missing clip is looked for under: the file name of its
/// stored path, or its own name where the path has none.
pub open spec fn wanted_name(clip: Option<ClipSpecModel>) -> Seq<char> {
    match clip {
        Some(c) => match file_name_of(c.path) {
            Some(b) => b,
            None => c.name,
        },
        None => seq![],
    }
}

/// What is found for a missing clip among the files of a folder tree.
pub open spec fn candidate(
    clips: Seq<ClipSpecModel>,
    files: Seq<Seq<char>>,
    id: ClipId,
) -> RelinkCandidateModel {
    let clip = first_of(clips, spec_with_id(id));
    RelinkCandidateModel {
        clip_id: id,
        name: match clip {
            Some(c) => c.name,
            None => seq![],
        },
        found: first_of(files, file_called(wanted_name(clip))),
    }
}

fn clip_position(clips: &Vec<ClipSpec>, id: ClipId) -> (r: usize)
    ensures
        r <= clips@.len(),
        r == first_at(views(clips@), spec_with_id(id)),
{
    let mut i: usize = 0;
    while i < clips.len() && clips[i].id != id
        invariant
            i <= clips@.len(),
            forall|j: int| 0 <= j < i ==> (#[trigger] clips@[j]).id != id,
        decreases clips@.len() - i,
    {
        i += 1;
    }
    proof {
        assert forall|j: int| 0 <= j < i implies !spec_with_id(id)(#[trigger] views(clips@)[j]) by {
            assert(clips@[j].id != id);
        }
        first_at_is(views(clips@), spec_with_id(id), i as int);
    }
    i
}

fn find_file(files: &Vec<String>, base: &str) -> (r: Option<String>)
    ensures
        view_opt(r) == first_of(views(files@), file_called(base@)),
{
    let mut i: usize = 0;
    while i < files.len()
        invariant
            i <= files@.len(),
            forall|j: int| 0 <= j < i ==> file_name_of(#[trigger] files@[j]@) != Some(base@),
        decreases files@.len() - i,
    {
        let hit = match file_name(files[i].as_str()) {
            Some(n) => same(n.as_str(), base),
            None => false,
        };
        if hit {
            proof {
                assert forall|j: int| 0 <= j < i implies !file_called(base@)(#[trigger] views(files@)[j]) by {
                    assert(file_name_of(files@[j]@) != Some(base@));
                }
                first_at_is(views(files@), file_called(base@), i as int);
            }
            return Some(files[i].clone());
        }
        i += 1;
    }
    proof {
        assert forall|j: int| 0 <= j < i implies !file_called(base@)(#[trigger] views(files@)[j]) by {
            assert(file_name_of(files@[j]@) != Some(base@));
        }
        first_at_is(views(files@), file_called(base@), i as int);
    }
    None
}

/// For each missing clip, the first of `files` with the base name of its stored
/// path. `files` are the files found under the folder the user chose.
pub fn relink_by_root(r: &ResolvedProject, files: &Vec<String>) -> (out: Vec<RelinkCandidate>)
    ensures
        out@.len() == r@.missing.len(),
        forall|i: int|
            0 <= i < out@.len() ==> #[trigger] out@[i]@ == candidate(
                r@.project.clips,
                views(files@),
                r@.missing[i],
            ),
{
    let mut out: Vec<RelinkCandidate> = Vec::new();
    let mut i: usize = 0;
    while i < r.missing.len()
        invariant
            i <= r.missing@.len(),
            out@.len() == i,
            forall|j: int|
                0 <= j < i ==> #[trigger] out@[j]@ == candidate(
                    r@.project.clips,
                    views(files@),
                    r@.missing[j],
                ),
        decreases r.missing@.len() - i,
    {
        let id: u32 = r.missing[i];
        let at: usize = clip_position(&r.project.clips, id);
        if at < r.project.clips.len() {
            let spec = &r.project.clips[at];
            let base = match file_name(spec.path.as_str()) {
                Some(b) => b,
                None => spec.name.clone(),
            };
            out.push(
                RelinkCandidate {
                    clip_id: id,
                    name: spec.name.clone(),
                    found: find_file(files, base.as_str()),
                },
            );
        } else {
            let none = String::new();
            let found = find_file(files, none.as_str());
            out.push(RelinkCandidate { clip_id: id, name: none, found });
        }
        i += 1;
    }
    out
}

/// Selects the ids other than one.
pub open spec fn other_than(id: ClipId) -> spec_fn(ClipId) -> bool {
    |x: ClipId| x != id
}

/// The saved clips with the stored path of one replaced.
pub open spec fn repathed(clips: Seq<ClipSpecModel>, id: ClipId, path: Seq<char>) -> Seq<ClipSpecModel> {
    let i = first_at(clips, spec_with_id(id));
    if i < clips.len() {
        clips.update(i, ClipSpecModel { path, ..clips[i] })
    } else {
        clips
    }
}

/// The project with a clip pointed at a new file.
pub open spec fn relinked(r: ResolvedModel, id: ClipId, path: Seq<char>) -> ResolvedModel {
    ResolvedModel {
        project: ProjectModel {
            clips: repathed(r.project.clips, id, relative_to(r.project_dir, path)),
            ..r.project
        },
        project_dir: r.project_dir,
        clip_paths: r.clip_paths.insert(id, path),
        missing: kept(r.missing, other_than(id)),
    }
}

/// Points a clip at a new file: its resolved path and the path a save will
/// store change, and it is no longer missing.
pub fn apply_relink(r: &mut ResolvedProject, clip_id: ClipId, path: String)
    ensures
        final(r)@ == relinked(old(r)@, clip_id, path@),
        all_resolved(old(r)@) ==> all_resolved(final(r)@),
{
    broadcast use vstd::std_specs::hash::group_hash_axioms;

    let stored = relativize(r.project_dir.as_str(), path.as_str());
    let at: usize = clip_position(&r.project.clips, clip_id);
    let ghost specs = r.project.clips@;
    if at < r.project.clips.len() {
        r.project.clips[at].path = stored;
        proof {
            assert(views(r.project.clips@) =~= repathed(views(specs), clip_id, stored@));
        }
    }
    let ghost paths = r.clip_paths@;
    r.clip_paths.insert(clip_id, path);
    proof {
        assert(text_map(r.clip_paths@) =~= text_map(paths).insert(clip_id, path@));
    }
    let mut still: Vec<ClipId> = Vec::new();
    let mut i: usize = 0;
    while i < r.missing.len()
        invariant
            i <= r.missing@.len(),
            still@ == kept(r.missing@.take(i as int), other_than(clip_id)),
        decreases r.missing@.len() - i,
    {
        proof {
            assert(r.missing@.take(i + 1).drop_last() =~= r.missing@.take(i as int));
        }
        if r.missing[i] != clip_id {
            still.push(r.missing[i]);
        }
        i += 1;
    }
    proof {
        assert(r.missing@.take(r.missing@.len() as int) =~= r.missing@);
    }
    r.missing = still;
    proof {
        if all_resolved(old(r)@) {
            assert forall|j: int| 0 <= j < r@.project.clips.len() implies r@.clip_paths.contains_key(
                (#[trigger] r@.project.clips[j]).id,
            ) by {
                assert(old(r)@.project.clips[j].id == r@.project.clips[j].id);
            }
        }
    }
}

/// The project after the first `n` candidates were applied; a candidate without
/// a file changes nothing.
pub open spec fn relinked_by(r: ResolvedModel, cands: Seq<RelinkCandidateModel>, n: int) -> ResolvedModel
    decreases n,
{
    if n <= 0 {
        r
    } else {
        let before = relinked_by(r, cands, n - 1);
        match cands[n - 1].found {
            Some(p) => relinked(before, cands[n - 1].clip_id, p),
            None => before,
        }
    }
}

/// What is found for the missing clips of a project.
pub open spec fn candidates(r: ResolvedModel, files: Seq<Seq<char>>) -> Seq<RelinkCandidateModel> {
    Seq::new(r.missing.len(), |i: int| candidate(r.project.clips, files, r.missing[i]))
}

/// Points every missing clip at the file found for it among `files`.
pub fn relink_all(r: &mut ResolvedProject, files: &Vec<String>)
    ensures
        final(r)@ == relinked_by(
            old(r)@,
            candidates(old(r)@, views(files@)),
            old(r)@.missing.len() as int,
        ),
        all_resolved(old(r)@) ==> all_resolved(final(r)@),
{
    let found = relink_by_root(r, files);
    let ghost cands = candidates(r@, views(files@));
    let mut i: usize = 0;
    while i < found.len()
        invariant
            i <= found@.len(),
            found@.len() == cands.len(),
            forall|j: int| 0 <= j < found@.len() ==> #[trigger] found@[j]@ == cands[j],
            r@ == relinked_by(old(r)@, cands, i as int),
            all_resolved(old(r)@) ==> all_resolved(r@),
        decreases found@.len() - i,
    {
        proof {
            assert(found@[i as int]@ == cands[i as int]);
        }
        if let Some(p) = &found[i].found {
            apply_relink(r, found[i].clip_id, p.clone());
        }
        i += 1;
    }
}

/// One file to copy when a project is gathered into a folder.
#[derive(Debug)]
pub struct CopyStep {
    /// Position of the clip in the project.
    pub clip: usize,
    pub from: String,
    /// Name of the copy in the `clips` folder.
    pub file_name: String,
}

/// The base name of a gathered copy.
pub open spec fn gather_base(c: ClipSpecModel) -> Seq<char> {
    match file_name_of(c.path) {
        Some(b) => b,
        None => "clip"@ + decimal(c.id as nat) + ".mov"@,
    }
}

/// Whether clip `i` is copied: it has a path and its file exists.
pub open spec fn copied(r: ResolvedModel, present: Seq<bool>, i: int) -> bool {
    0 <= i < r.project.clips.len() && present[i] && r.clip_paths.contains_key(r.project.clips[i].id)
}

/// The length of the longest of some texts.
pub open spec fn longest(names: Seq<Seq<char>>) -> nat
    decreases names.len(),
{
    if names.len() == 0 {
        0
    } else {
        let before = longest(names.drop_last());
        if names.last().len() > before {
            names.last().len()
        } else {
            before
        }
    }
}

proof fn longest_bounds(names: Seq<Seq<char>>, name: Seq<char>)
    requires
        names.contains(name),
    ensures
        name.len() <= longest(names),
    decreases names.len(),
{
    let i = names.index_of(name);
    if i < names.len() - 1 {
        assert(names.drop_last()[i] == name);
        longest_bounds(names.drop_last(), name);
    }
}

/// A name with an id in front.
pub open spec fn with_id(id: ClipId, name: Seq<char>) -> Seq<char> {
    decimal(id as nat) + "_"@ + name
}

/// How far a name is from being longer than every name that is taken.
pub open spec fn headroom(taken: Seq<Seq<char>>, name: Seq<char>) -> nat {
    if name.len() > longest(taken) {
        0
    } else {
        (longest(taken) + 1 - name.len()) as nat
    }
}

/// An id in front of a name that is taken brings it closer to one that is free.
pub proof fn an_id_uses_headroom(taken: Seq<Seq<char>>, id: ClipId, name: Seq<char>)
    requires
        taken.contains(name),
    ensures
        headroom(taken, with_id(id, name)) < headroom(taken, name),
{
    longest_bounds(taken, name);
    reveal_strlit("_");
}

/// The first free one of a name, the name with the id in front, with the id in
/// front twice, and so on.
pub open spec fn free_name(taken: Seq<Seq<char>>, id: ClipId, name: Seq<char>) -> Seq<char>
    decreases headroom(taken, name),
{
    if taken.contains(name) {
        proof {
            an_id_uses_headroom(taken, id, name);
        }
        free_name(taken, id, with_id(id, name))
    } else {
        name
    }
}

/// What [`free_name`] gives: a name that is free is kept, one that is taken gets
/// the id in front, and the result is never taken.
pub proof fn free_names_are_free(taken: Seq<Seq<char>>, id: ClipId, name: Seq<char>)
    ensures
        !taken.contains(free_name(taken, id, name)),
        !taken.contains(name) ==> free_name(taken, id, name) == name,
        taken.contains(name) ==> free_name(taken, id, name) == free_name(taken, id, with_id(id, name)),
    decreases headroom(taken, name),
{
    if taken.contains(name) {
        an_id_uses_headroom(taken, id, name);
        free_names_are_free(taken, id, with_id(id, name));
    }
}

/// The names of the copies of the first `n` clips, in order. Each differs from
/// all names before it.
pub open spec fn gather_names(r: ResolvedModel, present: Seq<bool>, n: int) -> Seq<Seq<char>>
    decreases n, 0int,
{
    if n <= 0 {
        seq![]
    } else if copied(r, present, n - 1) {
        gather_names(r, present, n - 1).push(gather_name(r, present, n - 1))
    } else {
        gather_names(r, present, n - 1)
    }
}

/// The name of the copy of clip `i`: its base name, with the id in front as
/// often as it takes to differ from the names of all earlier copies.
pub open spec fn gather_name(r: ResolvedModel, present: Seq<bool>, i: int) -> Seq<char>
    decreases i, 1int,
{
    let clip = r.project.clips[i];
    free_name(gather_names(r, present, i), clip.id, gather_base(clip))
}

/// Which clip each copy step is for.
pub open spec fn copy_list(r: ResolvedModel, present: Seq<bool>, n: int) -> Seq<int>
    decreases n,
{
    if n <= 0 {
        seq![]
    } else if copied(r, present, n - 1) {
        copy_list(r, present, n - 1).push(n - 1)
    } else {
        copy_list(r, present, n - 1)
    }
}

fn base_name(c: &ClipSpec) -> (r: String)
    ensures
        r@ == gather_base(c@),
{
    match file_name(c.path.as_str()) {
        Some(b) => b,
        None => {
            let id = decimal_text(c.id as u64);
            let stem = joined("clip", id.as_str());
            joined(stem.as_str(), ".mov")
        },
    }
}

fn is_copied(r: &ResolvedProject, present: &Vec<bool>, i: usize) -> (c: bool)
    requires
        present@.len() == r.project.clips@.len(),
        i < present@.len(),
    ensures
        c == copied(r@, present@, i as int),
{
    broadcast use vstd::std_specs::hash::group_hash_axioms;

    proof {
        let id = r.project.clips@[i as int].id;
        assert(r@.clip_paths.contains_key(id) == r.clip_paths@.contains_key(id));
    }
    present[i] && r.clip_paths.contains_key(&r.project.clips[i].id)
}

/// The names of the copies of a plan.
pub open spec fn plan_names(plan: Seq<CopyStep>) -> Seq<Seq<char>> {
    Seq::new(plan.len(), |k: int| plan[k].file_name@)
}

fn is_taken(plan: &Vec<CopyStep>, name: &str) -> (t: bool)
    ensures
        t == plan_names(plan@).contains(name@),
{
    let mut k: usize = 0;
    while k < plan.len()
        invariant
            k <= plan@.len(),
            forall|m: int| 0 <= m < k ==> (#[trigger] plan_names(plan@)[m]) != name@,
        decreases plan@.len() - k,
    {
        if same(plan[k].file_name.as_str(), name) {
            proof {
                assert(plan_names(plan@)[k as int] == name@);
            }
            return true;
        }
        k += 1;
    }
    false
}

fn find_free(plan: &Vec<CopyStep>, id: ClipId, base: String) -> (r: String)
    ensures
        r@ == free_name(plan_names(plan@), id, base@),
{
    let ghost taken = plan_names(plan@);
    let mut name = base;
    while is_taken(plan, name.as_str())
        invariant
            taken == plan_names(plan@),
            free_name(taken, id, name@) == free_name(taken, id, base@),
        decreases headroom(taken, name@),
    {
        proof {
            free_names_are_free(taken, id, name@);
            an_id_uses_headroom(taken, id, name@);
        }
        let number = decimal_text(id as u64);
        let prefix = joined(number.as_str(), "_");
        name = joined(prefix.as_str(), name.as_str());
    }
    proof {
        free_names_are_free(taken, id, name@);
    }
    name
}

/// The copies that make a project folder self-contained, given for each clip
/// whether the file at its resolved path exists. Clips without a file are left
/// out. No copy overwrites another.
pub fn gather_plan(r: &ResolvedProject, present: &Vec<bool>) -> (plan: Vec<CopyStep>)
    requires
        present@.len() == r.project.clips@.len(),
    ensures
        plan@.len() == copy_list(r@, present@, present@.len() as int).len(),
        forall|k: int|
            0 <= k < plan@.len() ==> copies(
                r@,
                present@,
                copy_list(r@, present@, present@.len() as int)[k],
                #[trigger] plan@[k],
            ),
        forall|a: int, b: int|
            0 <= a < b < plan@.len() ==> (#[trigger] plan@[a]).file_name@ != (#[trigger] plan@[b]).file_name@,
{
    broadcast use vstd::std_specs::hash::group_hash_axioms;

    let mut plan: Vec<CopyStep> = Vec::new();
    let mut i: usize = 0;
    proof {
        assert(plan_names(plan@) =~= gather_names(r@, present@, 0));
    }
    while i < r.project.clips.len()
        invariant
            i <= r.project.clips@.len(),
            present@.len() == r.project.clips@.len(),
            plan@.len() == copy_list(r@, present@, i as int).len(),
            plan_names(plan@) == gather_names(r@, present@, i as int),
            forall|k: int|
                0 <= k < plan@.len() ==> copies(
                    r@,
                    present@,
                    copy_list(r@, present@, i as int)[k],
                    #[trigger] plan@[k],
                ),
        decreases r.project.clips@.len() - i,
    {
        broadcast use vstd::std_specs::hash::group_hash_axioms;

        let spec = &r.project.clips[i];
        if is_copied(r, present, i) {
            if let Some(from) = r.clip_paths.get(&spec.id) {
                let base = base_name(spec);
                let ghost before = plan@;
                let name = find_free(&plan, spec.id, base);
                plan.push(CopyStep { clip: i, from: from.clone(), file_name: name });
                proof {
                    assert(r@.project.clips[i as int] == spec@);
                    assert(r@.clip_paths[spec.id] == from@);
                    assert(plan_names(plan@) =~= plan_names(before).push(name@));
                    assert(name@ == gather_name(r@, present@, i as int));
                }
            }
        }
        i += 1;
    }
    proof {
        let n = present@.len() as int;
        gathered_names_differ(r@, present@, n);
        assert forall|a: int, b: int| 0 <= a < b < plan@.len() implies (#[trigger] plan@[a]).file_name@ != (
        #[trigger] plan@[b]).file_name@ by {
            assert(plan_names(plan@)[a] != plan_names(plan@)[b]);
        }
    }
    plan
}

/// No two copies of a gathered project have the same name.
pub proof fn gathered_names_differ(r: ResolvedModel, present: Seq<bool>, n: int)
    ensures
        gather_names(r, present, n).no_duplicates(),
    decreases n,
{
    if n > 0 {
        gathered_names_differ(r, present, n - 1);
        if copied(r, present, n - 1) {
            let before = gather_names(r, present, n - 1);
            let clip = r.project.clips[n - 1];
            free_names_are_free(before, clip.id, gather_base(clip));
            let after = gather_names(r, present, n);
            assert(gather_name(r, present, n - 1) == free_name(before, clip.id, gather_base(clip)));
            assert(after == before.push(gather_name(r, present, n - 1)));
            assert forall|a: int, b: int| 0 <= a < after.len() && 0 <= b < after.len() && a != b implies after[a]
                != after[b] by {
                if a < before.len() {
                    assert(before.contains(before[a]));
                }
                if b < before.len() {
                    assert(before.contains(before[b]));
                }
            }
        }
    }
}

/// Whether a step copies clip `i` under its name.
pub open spec fn copies(r: ResolvedModel, present: Seq<bool>, i: int, step: CopyStep) -> bool {
    &&& step.clip == i
    &&& step.from@ == r.clip_paths[r.project.clips[i].id]
    &&& step.file_name@ == gather_name(r, present, i)
}

/// The path a gathered copy is stored under.
pub open spec fn gathered_path(name: Seq<char>) -> Seq<char> {
    "clips/"@ + name
}

/// The saved clips after `n` copy steps.
pub open spec fn after_steps(clips: Seq<ClipSpecModel>, plan: Seq<CopyStep>, n: int) -> Seq<ClipSpecModel>
    decreases n,
{
    if n <= 0 {
        clips
    } else {
        let before = after_steps(clips, plan, n - 1);
        let i = plan[n - 1].clip as int;
        before.update(
            i,
            ClipSpecModel { path: gathered_path(plan[n - 1].file_name@), ..before[i] },
        )
    }
}

/// Rewrites the clip paths of a project to the copies of a plan.
pub fn gather_paths(project: &mut Project, plan: &Vec<CopyStep>)
    requires
        forall|k: int| 0 <= k < plan@.len() ==> (#[trigger] plan@[k]).clip < old(project).clips@.len(),
    ensures
        final(project)@ == (ProjectModel {
            clips: after_steps(old(project)@.clips, plan@, plan@.len() as int),
            ..old(project)@
        }),
{
    let mut k: usize = 0;
    while k < plan.len()
        invariant
            k <= plan@.len(),
            project.clips@.len() == old(project).clips@.len(),
            forall|m: int| 0 <= m < plan@.len() ==> (#[trigger] plan@[m]).clip < old(project).clips@.len(),
            project@ == (ProjectModel {
                clips: after_steps(old(project)@.clips, plan@, k as int),
                ..old(project)@
            }),
        decreases plan@.len() - k,
    {
        let at: usize = plan[k].clip;
        let ghost before = project.clips@;
        project.clips[at].path = joined("clips/", plan[k].file_name.as_str());
        proof {
            assert(views(project.clips@) =~= after_steps(old(project)@.clips, plan@, k + 1));
        }
        k += 1;
    }
}

proof fn a_copy_has_its_name(r: ResolvedModel, present: Seq<bool>, i: int, n: int)
    requires
        0 <= i < n,
        copied(r, present, i),
    ensures
        gather_names(r, present, n).contains(gather_name(r, present, i)),
    decreases n,
{
    let names = gather_names(r, present, n);
    let before = gather_names(r, present, n - 1);
    if i == n - 1 {
        assert(names.last() == gather_name(r, present, i));
        assert(names[before.len() as int] == gather_name(r, present, i));
    } else {
        a_copy_has_its_name(r, present, i, n - 1);
        let k = before.index_of(gather_name(r, present, i));
        assert(names[k] == gather_name(r, present, i));
    }
}

/// Every clip with a file gets a copy under a name of its own: no two clips
/// point at the same copy. A base name that no earlier copy has is kept.
pub proof fn gathered_copies_differ(r: ResolvedModel, present: Seq<bool>, i: int, j: int)
    requires
        0 <= i < j,
        copied(r, present, i),
        copied(r, present, j),
    ensures
        gather_name(r, present, i) != gather_name(r, present, j),
        !gather_names(r, present, j).contains(gather_base(r.project.clips[j])) ==> gather_name(r, present, j)
            == gather_base(r.project.clips[j]),
{
    a_copy_has_its_name(r, present, i, j);
    let clip = r.project.clips[j];
    free_names_are_free(gather_names(r, present, j), clip.id, gather_base(clip));
}

/// A relinked clip is no longer missing, its path is the new file, and the
/// path a save stores leads back to that file from the project directory.
pub proof fn a_relinked_clip_is_found_again(before: ResolvedModel, id: ClipId, path: Seq<char>)
    requires
        absolute(path),
        !path.contains('\\'),
        first_at(before.project.clips, spec_with_id(id)) < before.project.clips.len(),
    ensures
        !kept(before.missing, other_than(id)).contains(id),
        ({
            let stored = relative_to(before.project_dir, path);
            let i = first_at(before.project.clips, spec_with_id(id));
            &&& repathed(before.project.clips, id, stored)[i].path == stored
            &&& parts(joined_path(before.project_dir, stored)) == parts(path)
        }),
{
    kept_satisfies(before.missing, other_than(id));
    let k = kept(before.missing, other_than(id));
    if k.contains(id) {
        let m = k.index_of(id);
        assert(other_than(id)(k[m]));
    }
    first_at_bounds(before.project.clips, spec_with_id(id));
    storing_a_path_keeps_its_components(before.project_dir, path);
}

} // verus!
