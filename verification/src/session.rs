//! Assembling a session at start-up, from a saved project or from the clips
//! named on the command line.

use std::collections::HashMap;

use vstd::prelude::*;
use vstd::string::*;

use crate::bank::{Bank, BankModel, Cue};
use crate::clippool::{Clip, ClipBank, ClipBankModel, ClipModel, ClipSource, ClipSourceModel};
use crate::commands::{Cadence, ClipId, SyncKind, TimeSig, LOOP_TICKS_PER_BEAT};
use crate::paths::{file_name, file_name_of, joined_path};
use crate::project::{
    loaded_clip, loaded_cue, resolve_path, ClipBankSpecModel, ClipMeta, ClipMetaModel, ClipSpecModel,
    CueBankSpecModel, SyncSpec,
};
use crate::relink::{all_resolved, spec_with_id, ResolvedModel, ResolvedProject};
use crate::seqs::{first_at_is, first_of};
use crate::text::{view_opt, views};
use crate::units::MicroBpm;

verus! {

/// What the command line gives for a session.
#[derive(Debug)]
pub struct StartOptions {
    pub shader: Option<String>,
    pub bpm: MicroBpm,
    /// Beats between automatic transitions.
    pub phrase_len: u32,
    pub sync: SyncKind,
}

/// The pool and session state that playback starts from.
#[derive(Debug)]
pub struct Loaded {
    pub clips: Vec<Clip>,
    pub clip_banks: Vec<ClipBank>,
    pub cue_banks: Vec<Bank>,
    /// Clips to activate at once.
    pub auto_active: Vec<ClipId>,
    /// Probe data by clip, kept for a later save.
    pub clip_meta: HashMap<ClipId, ClipMeta>,
    /// The project file this was loaded from.
    pub project_path: Option<String>,
    pub bpm: MicroBpm,
    pub time_sig: TimeSig,
    pub phrase_cadence: Cadence,
    pub loop_cadence: Option<Cadence>,
    pub sync: SyncKind,
    pub preserve_playhead: bool,
    pub advanced: bool,
    pub shader: String,
}

/// Why a session cannot start.
#[derive(Debug, PartialEq, Eq)]
pub enum LoadError {
    /// Neither a clip nor a directory with clips was given.
    NoClips,
    /// No shader was given.
    NoShader,
    /// The project names no shader and none was given.
    ProjectWithoutShader,
    /// The files of these clips are missing.
    MissingClips(Vec<String>),
    /// A project was given together with clips.
    ProjectAndClips,
}

/// The mathematical content of a [`LoadError`].
pub enum LoadErrorModel {
    NoClips,
    NoShader,
    ProjectWithoutShader,
    MissingClips(Seq<Seq<char>>),
    ProjectAndClips,
}

impl View for LoadError {
    type V = LoadErrorModel;

    open spec fn view(&self) -> LoadErrorModel {
        match self {
            LoadError::NoClips => LoadErrorModel::NoClips,
            LoadError::NoShader => LoadErrorModel::NoShader,
            LoadError::ProjectWithoutShader => LoadErrorModel::ProjectWithoutShader,
            LoadError::MissingClips(names) => LoadErrorModel::MissingClips(views(names@)),
            LoadError::ProjectAndClips => LoadErrorModel::ProjectAndClips,
        }
    }
}

/// Texts with a comma between them.
pub open spec fn listed(names: Seq<Seq<char>>) -> Seq<char>
    decreases names.len(),
{
    if names.len() == 0 {
        seq![]
    } else if names.len() == 1 {
        names[0]
    } else {
        listed(names.drop_last()) + ", "@ + names.last()
    }
}

impl LoadErrorModel {
    /// What the user is told.
    pub open spec fn message(self) -> Seq<char> {
        match self {
            LoadErrorModel::NoClips => {
                "provide --clip <file>, --clip-dir <dir>, or --project <file.viproj>"@
            },
            LoadErrorModel::NoShader => {
                "--shader is required (or load a --project that supplies one)"@
            },
            LoadErrorModel::ProjectWithoutShader => "project has no shader; pass --shader"@,
            LoadErrorModel::MissingClips(names) => {
                "missing clip files (pass --relink-root <dir> to re-locate): "@ + listed(names)
            },
            LoadErrorModel::ProjectAndClips => {
                "--project is mutually exclusive with --clip/--clip-dir"@
            },
        }
    }
}

impl LoadError {
    /// What the user is told.
    pub fn message(&self) -> (r: String)
        ensures
            r@ == self@.message(),
    {
        match self {
            LoadError::NoClips => {
                "provide --clip <file>, --clip-dir <dir>, or --project <file.viproj>".to_owned()
            },
            LoadError::NoShader => {
                "--shader is required (or load a --project that supplies one)".to_owned()
            },
            LoadError::ProjectWithoutShader => "project has no shader; pass --shader".to_owned(),
            LoadError::MissingClips(names) => {
                let ghost all = views(names@);
                let mut r = String::new();
                let mut i: usize = 0;
                proof {
                    assert(all.take(0) =~= Seq::<Seq<char>>::empty());
                    assert(r@ =~= listed(all.take(0)));
                }
                while i < names.len()
                    invariant
                        i <= names@.len(),
                        all == views(names@),
                        r@ == listed(all.take(i as int)),
                    decreases names@.len() - i,
                {
                    proof {
                        assert(all.take(i + 1).drop_last() =~= all.take(i as int));
                        assert(all.take(i + 1).last() == names@[i as int]@);
                    }
                    if i > 0 {
                        r.append(", ");
                    }
                    r.append(names[i].as_str());
                    proof {
                        assert(r@ =~= listed(all.take(i + 1)));
                    }
                    i += 1;
                }
                proof {
                    assert(all.take(names@.len() as int) =~= all);
                }
                let mut m = "missing clip files (pass --relink-root <dir> to re-locate): ".to_owned();
                m.append(r.as_str());
                m
            },
            LoadError::ProjectAndClips => {
                "--project is mutually exclusive with --clip/--clip-dir".to_owned()
            },
        }
    }
}

/// Rejects a project given together with clips.
pub fn check_sources(project: bool, clip: bool, clip_dir: bool) -> (r: Result<(), LoadError>)
    ensures
        r is Ok <==> !(project && (clip || clip_dir)),
        r matches Err(e) ==> e == LoadError::ProjectAndClips,
{
    if project && (clip || clip_dir) {
        Err(LoadError::ProjectAndClips)
    } else {
        Ok(())
    }
}

/// A phrase length in beats as a cadence, limited to what ticks can count.
pub open spec fn beats_cadence(beats: u32) -> Cadence {
    Cadence::Note(
        if beats * LOOP_TICKS_PER_BEAT > u32::MAX {
            u32::MAX
        } else {
            (beats * LOOP_TICKS_PER_BEAT) as u32
        },
    )
}

fn cadence_of_beats(beats: u32) -> (r: Cadence)
    ensures
        r == beats_cadence(beats),
{
    if beats > u32::MAX / LOOP_TICKS_PER_BEAT {
        Cadence::Note(u32::MAX)
    } else {
        Cadence::Note(beats * LOOP_TICKS_PER_BEAT)
    }
}

/// The ids of clips.
pub open spec fn clip_ids_of(clips: Seq<ClipModel>) -> Seq<ClipId> {
    Seq::new(clips.len(), |i: int| clips[i].id)
}

/// The pool: the scanned clips, and the single clip with the next number.
pub open spec fn flag_pool(scanned: Seq<ClipModel>, single: Option<Seq<char>>) -> Seq<ClipModel> {
    match single {
        Some(p) => scanned.push(
            ClipModel {
                id: scanned.len() as ClipId,
                source: ClipSourceModel::File(p),
                name: match file_name_of(p) {
                    Some(n) => n,
                    None => "clip"@,
                },
                bpm: None,
            },
        ),
        None => scanned,
    }
}

/// The display name of a directory's clip bank: the directory's own name.
pub open spec fn bank_name_of(dir: Option<Seq<char>>) -> Seq<char> {
    match dir {
        Some(d) => match file_name_of(d) {
            Some(n) => n,
            None => "clips"@,
        },
        None => "clips"@,
    }
}

/// The display name of a directory's clip bank.
pub fn dir_bank_name(dir: &str) -> (r: String)
    ensures
        r@ == bank_name_of(Some(dir@)),
{
    match file_name(dir) {
        Some(n) => n,
        None => "clips".to_owned(),
    }
}

/// The ids of clips, in pool order.
pub fn clip_id_list(clips: &Vec<Clip>) -> (r: Vec<ClipId>)
    ensures
        r@ == clip_ids_of(views(clips@)),
{
    let mut r: Vec<ClipId> = Vec::new();
    let mut i: usize = 0;
    while i < clips.len()
        invariant
            i <= clips@.len(),
            r@.len() == i,
            forall|j: int| 0 <= j < i ==> #[trigger] r@[j] == clips@[j].id,
        decreases clips@.len() - i,
    {
        r.push(clips[i].id);
        i += 1;
    }
    proof {
        assert(r@ =~= clip_ids_of(views(clips@)));
    }
    r
}

/// Whether a session is the one for clips named on the command line: one clip bank
/// over the whole pool, no cue banks, the single clip activated at once.
pub open spec fn from_flags(
    l: Loaded,
    clip_dir: Option<Seq<char>>,
    scanned: Seq<ClipModel>,
    single: Option<Seq<char>>,
    opts: StartOptions,
) -> bool {
    let pool = flag_pool(scanned, single);
    &&& pool.len() > 0
    &&& opts.shader matches Some(s) && l.shader@ == s@
    &&& views(l.clips@) == pool
    &&& views(l.clip_banks@) == seq![
        ClipBankModel {
            name: bank_name_of(clip_dir),
            dir: clip_dir,
            clip_ids: clip_ids_of(pool),
        },
    ]
    &&& l.cue_banks@.len() == 0
    &&& l.auto_active@ == if single is Some {
        seq![scanned.len() as ClipId]
    } else {
        seq![]
    }
    &&& l.clip_meta@ == Map::<ClipId, ClipMeta>::empty()
    &&& l.project_path is None
    &&& l.bpm == opts.bpm
    &&& l.time_sig == (TimeSig { num: 4, den: 4 })
    &&& l.phrase_cadence == beats_cadence(opts.phrase_len)
    &&& l.loop_cadence is None
    &&& l.sync == opts.sync
    &&& l.preserve_playhead
    &&& !l.advanced
}

/// The session for clips named on the command line: one clip bank over the
/// whole pool, no cue banks, the single clip activated at once. `scanned` are
/// the clips of `clip_dir`.
pub fn load_from_flags(
    clip_dir: Option<String>,
    scanned: Vec<Clip>,
    single: Option<String>,
    opts: &StartOptions,
) -> (r: Result<Loaded, LoadError>)
    requires
        scanned@.len() <= u32::MAX,
    ensures
        match r {
            Ok(l) => from_flags(l, view_opt(clip_dir), views(scanned@), view_opt(single), *opts),
            Err(e) => {
                ||| e == LoadError::NoClips && scanned@.len() == 0 && single is None
                ||| e == LoadError::NoShader && opts.shader is None && !(scanned@.len() == 0 && single is None)
            },
        },
{
    broadcast use vstd::std_specs::hash::group_hash_axioms;

    let ghost pool = flag_pool(views(scanned@), view_opt(single));
    let mut clips = scanned;
    let mut auto_active: Vec<ClipId> = Vec::new();
    if let Some(p) = single {
        let id: u32 = clips.len() as u32;
        let name = match file_name(p.as_str()) {
            Some(n) => n,
            None => "clip".to_owned(),
        };
        clips.push(Clip { id, source: ClipSource::File(p), name, bpm: None });
        auto_active.push(id);
        proof {
            assert(views(clips@) =~= pool);
        }
    }
    if clips.len() == 0 {
        return Err(LoadError::NoClips);
    }
    let shader = match &opts.shader {
        Some(s) => s.clone(),
        None => {
            return Err(LoadError::NoShader);
        },
    };
    let name = match &clip_dir {
        Some(d) => dir_bank_name(d.as_str()),
        None => "clips".to_owned(),
    };
    let bank = ClipBank { name, dir: clip_dir, clip_ids: clip_id_list(&clips) };
    let mut clip_banks: Vec<ClipBank> = Vec::new();
    clip_banks.push(bank);
    proof {
        assert(views(clip_banks@) =~= seq![bank@]);
        assert(auto_active@ =~= if single is Some {
            seq![scanned@.len() as ClipId]
        } else {
            seq![]
        });
    }
    Ok(
        Loaded {
            clips,
            clip_banks,
            cue_banks: Vec::new(),
            auto_active,
            clip_meta: HashMap::new(),
            project_path: None,
            bpm: opts.bpm,
            time_sig: TimeSig { num: 4, den: 4 },
            phrase_cadence: cadence_of_beats(opts.phrase_len),
            loop_cadence: None,
            sync: opts.sync,
            preserve_playhead: true,
            advanced: false,
            shader,
        },
    )
}

/// The clips of a resolved project.
pub open spec fn project_clips(r: ResolvedModel) -> Seq<ClipModel> {
    Seq::new(
        r.project.clips.len(),
        |i: int| loaded_clip(r.project.clips[i], r.clip_paths[r.project.clips[i].id]),
    )
}

/// The clip bank a saved one stands for.
pub open spec fn loaded_clip_bank(b: ClipBankSpecModel) -> ClipBankModel {
    ClipBankModel { name: b.name, dir: None, clip_ids: b.clip_ids }
}

/// How many cues the first `n` saved banks hold.
pub open spec fn cues_before(banks: Seq<CueBankSpecModel>, n: int) -> int
    decreases n,
{
    if n <= 0 {
        0
    } else {
        cues_before(banks, n - 1) + banks[n - 1].cues.len()
    }
}

/// The cue bank a saved one stands for, its cues numbered from `first` on.
pub open spec fn loaded_cue_bank(b: CueBankSpecModel, first: int, dir: Seq<char>) -> BankModel {
    BankModel {
        name: b.name,
        cues: Seq::new(b.cues.len(), |i: int| loaded_cue(b.cues[i], (first + i) as u32, dir)),
    }
}

/// The cue banks of a project: cues are numbered from one, across all banks.
pub open spec fn project_cue_banks(banks: Seq<CueBankSpecModel>, dir: Seq<char>) -> Seq<BankModel> {
    Seq::new(banks.len(), |i: int| loaded_cue_bank(banks[i], 1 + cues_before(banks, i), dir))
}

/// The names of the clips whose files are missing.
pub open spec fn missing_names(missing: Seq<ClipId>, clips: Seq<ClipSpecModel>) -> Seq<Seq<char>>
    decreases missing.len(),
{
    if missing.len() == 0 {
        seq![]
    } else {
        let before = missing_names(missing.drop_last(), clips);
        match first_of(clips, spec_with_id(missing.last())) {
            Some(c) => before.push(c.name),
            None => before,
        }
    }
}

/// The probe data in a saved clip.
pub open spec fn meta_in(c: ClipSpecModel) -> ClipMetaModel {
    ClipMetaModel {
        fps: c.fps,
        frames: c.frames,
        duration_sec: c.duration_sec,
        source: c.source,
    }
}

/// Probe data by clip; of clips that share an id, the last one's.
pub open spec fn metas_of(clips: Seq<ClipSpecModel>) -> Map<ClipId, ClipMetaModel>
    decreases clips.len(),
{
    if clips.len() == 0 {
        Map::empty()
    } else {
        metas_of(clips.drop_last()).insert(clips.last().id, meta_in(clips.last()))
    }
}

/// A map to probe data.
pub open spec fn meta_map(m: Map<ClipId, ClipMeta>) -> Map<ClipId, ClipMetaModel> {
    m.map_values(|c: ClipMeta| c@)
}

fn missing_name_list(r: &ResolvedProject) -> (out: Vec<String>)
    ensures
        views(out@) == missing_names(r@.missing, r@.project.clips),
{
    let ghost clips = r@.project.clips;
    let mut out: Vec<String> = Vec::new();
    let mut i: usize = 0;
    proof {
        assert(views(out@) =~= missing_names(r@.missing.take(0), clips));
    }
    while i < r.missing.len()
        invariant
            i <= r.missing@.len(),
            clips == r@.project.clips,
            views(out@) == missing_names(r@.missing.take(i as int), clips),
        decreases r.missing@.len() - i,
    {
        let id: u32 = r.missing[i];
        proof {
            assert(r@.missing.take(i + 1).drop_last() =~= r@.missing.take(i as int));
        }
        let mut k: usize = 0;
        while k < r.project.clips.len() && r.project.clips[k].id != id
            invariant
                k <= r.project.clips@.len(),
                forall|j: int| 0 <= j < k ==> (#[trigger] r.project.clips@[j]).id != id,
            decreases r.project.clips@.len() - k,
        {
            k += 1;
        }
        proof {
            assert forall|j: int| 0 <= j < k implies !spec_with_id(id)(#[trigger] clips[j]) by {
                assert(r.project.clips@[j].id != id);
            }
            first_at_is(clips, spec_with_id(id), k as int);
        }
        if k < r.project.clips.len() {
            let ghost before = out@;
            out.push(r.project.clips[k].name.clone());
            proof {
                assert(views(out@) =~= views(before).push(clips[k as int].name));
            }
        }
        i += 1;
    }
    proof {
        assert(r@.missing.take(r.missing@.len() as int) =~= r@.missing);
    }
    out
}

fn load_cue_banks(r: &ResolvedProject) -> (out: Vec<Bank>)
    requires
        cues_before(r@.project.cue_banks, r@.project.cue_banks.len() as int) < u32::MAX,
    ensures
        views(out@) == project_cue_banks(r@.project.cue_banks, r@.project_dir),
{
    let ghost specs = r@.project.cue_banks;
    let ghost dir = r@.project_dir;
    let mut out: Vec<Bank> = Vec::new();
    let mut next: u32 = 1;
    let mut b: usize = 0;
    while b < r.project.cue_banks.len()
        invariant
            b <= r.project.cue_banks@.len(),
            specs == r@.project.cue_banks,
            dir == r@.project_dir,
            cues_before(specs, specs.len() as int) < u32::MAX,
            next == 1 + cues_before(specs, b as int),
            out@.len() == b,
            forall|j: int|
                0 <= j < b ==> #[trigger] out@[j]@ == loaded_cue_bank(specs[j], 1 + cues_before(specs, j), dir),
        decreases r.project.cue_banks@.len() - b,
    {
        let spec = &r.project.cue_banks[b];
        let ghost first = next as int;
        proof {
            cues_before_grows(specs, b + 1, specs.len() as int);
            cues_before_grows(specs, 0, b as int);
            assert(specs[b as int] == spec@);
        }
        let mut cues: Vec<Cue> = Vec::new();
        let mut i: usize = 0;
        while i < spec.cues.len()
            invariant
                i <= spec.cues@.len(),
                dir == r@.project_dir,
                next == first + i,
                first >= 1,
                first + spec.cues@.len() <= u32::MAX,
                cues@.len() == i,
                forall|j: int|
                    0 <= j < i ==> #[trigger] cues@[j]@ == loaded_cue(spec.cues@[j]@, (first + j) as u32, dir),
            decreases spec.cues@.len() - i,
        {
            cues.push(spec.cues[i].to_cue(next, r.project_dir.as_str()));
            next += 1;
            i += 1;
        }
        let bank = Bank { name: spec.name.clone(), cues };
        proof {
            assert(bank@.cues =~= loaded_cue_bank(specs[b as int], first, dir).cues);
        }
        out.push(bank);
        b += 1;
    }
    proof {
        assert(views(out@) =~= project_cue_banks(specs, dir));
    }
    out
}

proof fn cues_before_grows(banks: Seq<CueBankSpecModel>, a: int, b: int)
    requires
        0 <= a <= b <= banks.len(),
    ensures
        0 <= cues_before(banks, a) <= cues_before(banks, b),
    decreases b,
{
    if a < b {
        cues_before_grows(banks, a, b - 1);
    } else if a > 0 {
        cues_before_grows(banks, a - 1, a - 1);
    }
}

fn load_clips(r: &ResolvedProject) -> (out: Vec<Clip>)
    requires
        all_resolved(r@),
    ensures
        views(out@) == project_clips(r@),
{
    broadcast use vstd::std_specs::hash::group_hash_axioms;

    let mut out: Vec<Clip> = Vec::new();
    let mut i: usize = 0;
    while i < r.project.clips.len()
        invariant
            i <= r.project.clips@.len(),
            all_resolved(r@),
            out@.len() == i,
            forall|j: int| 0 <= j < i ==> #[trigger] out@[j]@ == project_clips(r@)[j],
        decreases r.project.clips@.len() - i,
    {
        broadcast use vstd::std_specs::hash::group_hash_axioms;

        let spec = &r.project.clips[i];
        proof {
            assert(r@.project.clips[i as int].id == spec.id);
            assert(r@.clip_paths.contains_key(spec.id) == r.clip_paths@.contains_key(spec.id));
        }
        let path = match r.clip_paths.get(&spec.id) {
            Some(p) => p.clone(),
            None => String::new(),
        };
        out.push(spec.to_clip(path));
        i += 1;
    }
    proof {
        assert(views(out@) =~= project_clips(r@));
    }
    out
}

fn load_metas(r: &ResolvedProject) -> (out: HashMap<ClipId, ClipMeta>)
    ensures
        meta_map(out@) == metas_of(r@.project.clips),
{
    broadcast use vstd::std_specs::hash::group_hash_axioms;

    let ghost clips = r@.project.clips;
    let mut out: HashMap<ClipId, ClipMeta> = HashMap::new();
    let mut i: usize = 0;
    proof {
        assert(meta_map(out@) =~= metas_of(clips.take(0)));
    }
    while i < r.project.clips.len()
        invariant
            i <= r.project.clips@.len(),
            clips == r@.project.clips,
            meta_map(out@) == metas_of(clips.take(i as int)),
        decreases r.project.clips@.len() - i,
    {
        broadcast use vstd::std_specs::hash::group_hash_axioms;

        let spec = &r.project.clips[i];
        let ghost before = out@;
        let copy = spec.clone();
        let meta = ClipMeta {
            fps: copy.fps,
            frames: copy.frames,
            duration_sec: copy.duration_sec,
            source: copy.source,
        };
        out.insert(spec.id, meta);
        proof {
            assert(clips.take(i + 1).drop_last() =~= clips.take(i as int));
            assert(clips.take(i + 1).last() == spec@);
            assert(meta@ == meta_in(spec@));
            assert(meta_map(out@) =~= meta_map(before).insert(spec.id, meta@));
        }
        i += 1;
    }
    proof {
        assert(clips.take(r.project.clips@.len() as int) =~= clips);
    }
    out
}

fn load_clip_banks(r: &ResolvedProject) -> (out: Vec<ClipBank>)
    ensures
        out@.len() == r@.project.clip_banks.len(),
        forall|i: int|
            0 <= i < out@.len() ==> #[trigger] out@[i]@ == loaded_clip_bank(r@.project.clip_banks[i]),
{
    let mut out: Vec<ClipBank> = Vec::new();
    let mut i: usize = 0;
    while i < r.project.clip_banks.len()
        invariant
            i <= r.project.clip_banks@.len(),
            out@.len() == i,
            forall|j: int|
                0 <= j < i ==> #[trigger] out@[j]@ == loaded_clip_bank(r@.project.clip_banks[j]),
        decreases r.project.clip_banks@.len() - i,
    {
        let copy = r.project.clip_banks[i].clone();
        out.push(ClipBank { name: copy.name, dir: None, clip_ids: copy.clip_ids });
        i += 1;
    }
    out
}

/// The shader a project session starts with: the project's, else the given one.
pub open spec fn project_shader(r: ResolvedModel, given: Option<Seq<char>>) -> Option<Seq<char>> {
    match r.project.defaults.shader_path {
        Some(s) => Some(joined_path(r.project_dir, s)),
        None => given,
    }
}

/// The phrase cadence a project session starts with: the project's, or the
/// given length where the project has none.
pub open spec fn project_phrase(r: ResolvedModel, given: u32) -> Cadence {
    let d = r.project.defaults;
    if d.phrase_cadence is None && d.phrase_len == 0 {
        beats_cadence(given)
    } else {
        d.phrase_cadence()
    }
}

/// Whether a session is the one of a saved project whose paths are resolved: the
/// flat pool, the clip banks, the cue banks with fresh ids, and its options, each
/// from the command line where the project has none.
pub open spec fn from_project(l: Loaded, r: ResolvedModel, path: Seq<char>, opts: StartOptions) -> bool {
    let d = r.project.defaults;
    &&& r.missing.len() == 0
    &&& project_shader(r, view_opt(opts.shader)) == Some(l.shader@)
    &&& views(l.clips@) == project_clips(r)
    &&& l.clip_banks@.len() == r.project.clip_banks.len()
    &&& forall|i: int|
        0 <= i < l.clip_banks@.len() ==> #[trigger] l.clip_banks@[i]@ == loaded_clip_bank(
            r.project.clip_banks[i],
        )
    &&& views(l.cue_banks@) == project_cue_banks(r.project.cue_banks, r.project_dir)
    &&& l.auto_active@.len() == 0
    &&& meta_map(l.clip_meta@) == metas_of(r.project.clips)
    &&& view_opt(l.project_path) == Some(path)
    &&& l.bpm == if d.bpm > 0 {
        d.bpm
    } else {
        opts.bpm
    }
    &&& l.time_sig == d.time_sig()
    &&& l.phrase_cadence == project_phrase(r, opts.phrase_len)
    &&& l.loop_cadence == d.loop_cadence()
    &&& l.sync == match d.sync {
        SyncSpec::Internal => SyncKind::Internal,
        SyncSpec::Link => SyncKind::Link,
    }
    &&& l.preserve_playhead == d.preserve_playhead
    &&& l.advanced == d.advanced
}

/// The session for a saved project whose paths are resolved: the flat pool, the
/// clip banks, and the cue banks with fresh ids. A project whose clip files are
/// missing is refused.
pub fn load_from_project(r: &ResolvedProject, path: &str, opts: &StartOptions) -> (out: Result<Loaded, LoadError>)
    requires
        all_resolved(r@),
        cues_before(r@.project.cue_banks, r@.project.cue_banks.len() as int) < u32::MAX,
        r.project.defaults.phrase_cadence is None ==> r.project.defaults.phrase_len * LOOP_TICKS_PER_BEAT
            <= u32::MAX,
    ensures
        match out {
            Ok(l) => from_project(l, r@, path@, *opts),
            Err(e) => {
                ||| e@ == LoadErrorModel::MissingClips(missing_names(r@.missing, r@.project.clips))
                    && r@.missing.len() > 0
                ||| e == LoadError::ProjectWithoutShader && r@.missing.len() == 0 && project_shader(
                    r@,
                    view_opt(opts.shader),
                ) is None
            },
        },
{
    if r.missing.len() > 0 {
        return Err(LoadError::MissingClips(missing_name_list(r)));
    }
    let d = &r.project.defaults;
    let shader = match &d.shader_path {
        Some(s) => resolve_path(r.project_dir.as_str(), s.as_str()),
        None => match &opts.shader {
            Some(s) => s.clone(),
            None => {
                return Err(LoadError::ProjectWithoutShader);
            },
        },
    };
    let phrase_cadence = if d.phrase_cadence.is_none() && d.phrase_len == 0 {
        cadence_of_beats(opts.phrase_len)
    } else {
        d.phrase_cadence()
    };
    Ok(
        Loaded {
            clips: load_clips(r),
            clip_banks: load_clip_banks(r),
            cue_banks: load_cue_banks(r),
            auto_active: Vec::new(),
            clip_meta: load_metas(r),
            project_path: Some(path.to_owned()),
            bpm: if d.bpm > 0 {
                d.bpm
            } else {
                opts.bpm
            },
            time_sig: d.time_sig(),
            phrase_cadence,
            loop_cadence: d.loop_cadence(),
            sync: match d.sync {
                SyncSpec::Internal => SyncKind::Internal,
                SyncSpec::Link => SyncKind::Link,
            },
            preserve_playhead: d.preserve_playhead,
            advanced: d.advanced,
            shader,
        },
    )
}

/// The cues of a loaded project are numbered from one on, across all banks.
pub proof fn loaded_cues_are_numbered(banks: Seq<CueBankSpecModel>, dir: Seq<char>, a: int, i: int)
    requires
        cues_before(banks, banks.len() as int) < u32::MAX,
        0 <= a < banks.len(),
        0 <= i < banks[a].cues.len(),
    ensures
        1 <= project_cue_banks(banks, dir)[a].cues[i].id < u32::MAX,
        project_cue_banks(banks, dir)[a].cues[i].id == 1 + cues_before(banks, a) + i,
{
    cues_before_grows(banks, a, a);
    cues_before_grows(banks, a + 1, banks.len() as int);
}

/// The cues of a loaded project are numbered without repetition, from one on.
pub proof fn loaded_cues_have_their_own_ids(
    banks: Seq<CueBankSpecModel>,
    dir: Seq<char>,
    a: int,
    i: int,
    b: int,
    j: int,
)
    requires
        cues_before(banks, banks.len() as int) < u32::MAX,
        0 <= a < banks.len(),
        0 <= b < banks.len(),
        0 <= i < banks[a].cues.len(),
        0 <= j < banks[b].cues.len(),
        (a, i) != (b, j),
    ensures
        1 <= project_cue_banks(banks, dir)[a].cues[i].id < u32::MAX,
        project_cue_banks(banks, dir)[a].cues[i].id != project_cue_banks(banks, dir)[b].cues[j].id,
{
    loaded_cues_are_numbered(banks, dir, a, i);
    loaded_cues_are_numbered(banks, dir, b, j);
    if a < b {
        cues_before_grows(banks, a + 1, b);
    } else if b < a {
        cues_before_grows(banks, b + 1, a);
    }
}

} // verus!
