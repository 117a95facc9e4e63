//! Saving the running session: which paths a save needs, and the project that
//! is written.

use vstd::prelude::*;
use vstd::string::*;

use crate::app::{App, AppModel};
use crate::bank::{BankModel, CueModel};
use crate::clippool::ClipModel;
use crate::commands::{ChainSlotModel, SlotRef, SlotRefModel, SyncKind};
use crate::paths::{parent, parent_of, relative_to};
use crate::project::{
    absolute_form, absolute_path, cadences_survive_saving, path_pairs, relativize, saved_cadence,
    saved_project, CadenceSpec, PathTable, Project, SessionDefaults, SessionDefaultsModel, SyncSpec,
};
use crate::text::{same, views};
use crate::units::MicroBpm;

verus! {

/// The directory of a project file: the one it stands in, or the current one.
pub open spec fn save_dir_of(path: Seq<char>) -> Seq<char> {
    match parent_of(path) {
        Some(d) => d,
        None => "."@,
    }
}

/// The directory of a project file.
pub fn save_dir(path: &str) -> (r: String)
    ensures
        r@ == save_dir_of(path@),
{
    match parent(path) {
        Some(d) => d,
        None => ".".to_owned(),
    }
}

/// How the sync source is saved.
pub open spec fn saved_sync(k: SyncKind) -> SyncSpec {
    match k {
        SyncKind::Internal => SyncSpec::Internal,
        SyncKind::Link => SyncSpec::Link,
    }
}

/// A length in whole beats, to the nearest.
pub open spec fn whole_beats(micro: int) -> u32 {
    if (micro + 500_000) / 1_000_000 > u32::MAX {
        u32::MAX
    } else {
        ((micro + 500_000) / 1_000_000) as u32
    }
}

/// The session defaults a save writes.
pub open spec fn saved_defaults(
    m: AppModel,
    clock_bpm: MicroBpm,
    dir: Seq<char>,
    table: Seq<(Seq<char>, Seq<char>)>,
) -> SessionDefaultsModel {
    SessionDefaultsModel {
        bpm: clock_bpm,
        quantum: (m.time_sig.num * 4_000_000 / m.time_sig.den as int) as i64,
        phrase_len: whole_beats(m.seq.phrase_len as int),
        sync: saved_sync(m.sync),
        preserve_playhead: m.preserve_playhead,
        loop_len: m.loop_len,
        advanced: m.advanced,
        ts_num: m.time_sig.num,
        ts_den: m.time_sig.den,
        phrase_cadence: Some(saved_cadence(m.phrase_cadence)),
        loop_cadence_set: true,
        loop_cadence: match m.loop_cadence {
            Some(c) => Some(saved_cadence(c)),
            None => None,
        },
        shader_path: Some(relative_to(dir, absolute_form(table, m.shader_path))),
    }
}

/// The list with an entry appended unless it is already there.
pub open spec fn noted(list: Seq<Seq<char>>, p: Seq<char>) -> Seq<Seq<char>> {
    if list.contains(p) {
        list
    } else {
        list.push(p)
    }
}

/// The ISF paths of a chain noted in a list.
pub open spec fn chain_noted(list: Seq<Seq<char>>, chain: Seq<ChainSlotModel>) -> Seq<Seq<char>>
    decreases chain.len(),
{
    if chain.len() == 0 {
        list
    } else {
        let before = chain_noted(list, chain.drop_last());
        match chain.last().shader {
            SlotRefModel::Isf(p) => noted(before, p),
            _ => before,
        }
    }
}

/// The ISF paths of a bank's cues noted in a list.
pub open spec fn cues_noted(list: Seq<Seq<char>>, cues: Seq<CueModel>) -> Seq<Seq<char>>
    decreases cues.len(),
{
    if cues.len() == 0 {
        list
    } else {
        chain_noted(cues_noted(list, cues.drop_last()), cues.last().chain)
    }
}

/// The ISF paths that the banks refer to, each once, in the order of their
/// first appearance.
pub open spec fn isf_paths(banks: Seq<BankModel>) -> Seq<Seq<char>>
    decreases banks.len(),
{
    if banks.len() == 0 {
        seq![]
    } else {
        cues_noted(isf_paths(banks.drop_last()), banks.last().cues)
    }
}

/// The files of clips noted in a list.
pub open spec fn files_noted(list: Seq<Seq<char>>, clips: Seq<ClipModel>) -> Seq<Seq<char>>
    decreases clips.len(),
{
    if clips.len() == 0 {
        list
    } else {
        let before = files_noted(list, clips.drop_last());
        match clips.last().file_path() {
            Some(p) => noted(before, p),
            None => before,
        }
    }
}

/// Every path a save stores, each once: the ISF files, the shader and the clip files.
pub open spec fn stored_paths(m: AppModel) -> Seq<Seq<char>> {
    files_noted(noted(isf_paths(m.banks), m.shader_path), m.clips)
}

fn note(list: &mut Vec<String>, p: &String)
    ensures
        views(final(list)@) == noted(views(old(list)@), p@),
{
    let mut i: usize = 0;
    while i < list.len()
        invariant
            i <= list@.len(),
            list@ == old(list)@,
            forall|j: int| 0 <= j < i ==> #[trigger] list@[j]@ != p@,
        decreases list@.len() - i,
    {
        if same(list[i].as_str(), p.as_str()) {
            proof {
                assert(views(list@)[i as int] == p@);
            }
            return;
        }
        i += 1;
    }
    proof {
        assert forall|j: int| 0 <= j < views(list@).len() implies #[trigger] views(list@)[j] != p@ by {
            assert(list@[j]@ != p@);
        }
    }
    let ghost before = list@;
    list.push(p.clone());
    proof {
        assert(views(list@) =~= views(before).push(p@));
    }
}

impl App {
    /// The ISF files that the cue chains refer to, each once: what has to be
    /// compiled before they can be shown.
    pub fn referenced_isf(&self) -> (r: Vec<String>)
        ensures
            views(r@) == isf_paths(self@.banks),
    {
        let ghost banks = self@.banks;
        let mut r: Vec<String> = Vec::new();
        let mut b: usize = 0;
        proof {
            assert(banks.take(0) =~= Seq::<BankModel>::empty());
            assert(views(r@) =~= isf_paths(banks.take(0)));
        }
        while b < self.banks.len()
            invariant
                b <= self.banks@.len(),
                banks == self@.banks,
                views(r@) == isf_paths(banks.take(b as int)),
            decreases self.banks@.len() - b,
        {
            let ghost start = views(r@);
            let ghost cues = banks[b as int].cues;
            proof {
                assert(banks.take(b + 1).drop_last() =~= banks.take(b as int));
                assert(banks.take(b + 1).last() == self.banks@[b as int]@);
                assert(cues.take(0) =~= Seq::<CueModel>::empty());
            }
            let bank = &self.banks[b];
            let mut c: usize = 0;
            while c < bank.cues.len()
                invariant
                    b < self.banks@.len(),
                    *bank == self.banks@[b as int],
                    c <= bank.cues@.len(),
                    cues == bank@.cues,
                    views(r@) == cues_noted(start, cues.take(c as int)),
                decreases bank.cues@.len() - c,
            {
                let ghost before = views(r@);
                let ghost chain = cues[c as int].chain;
                proof {
                    assert(cues.take(c + 1).drop_last() =~= cues.take(c as int));
                    assert(cues.take(c + 1).last() == bank.cues@[c as int]@);
                    assert(chain.take(0) =~= Seq::<ChainSlotModel>::empty());
                }
                let cue = &bank.cues[c];
                let mut k: usize = 0;
                while k < cue.chain.len()
                    invariant
                        c < bank.cues@.len(),
                        *cue == bank.cues@[c as int],
                        k <= cue.chain@.len(),
                        chain == cue@.chain,
                        views(r@) == chain_noted(before, chain.take(k as int)),
                    decreases cue.chain@.len() - k,
                {
                    proof {
                        assert(chain.take(k + 1).drop_last() =~= chain.take(k as int));
                        assert(chain.take(k + 1).last() == cue.chain@[k as int]@);
                    }
                    if let SlotRef::Isf(p) = &cue.chain[k].shader {
                        note(&mut r, p);
                    }
                    k += 1;
                }
                proof {
                    assert(chain.take(cue.chain@.len() as int) =~= chain);
                }
                c += 1;
            }
            proof {
                assert(cues.take(bank.cues@.len() as int) =~= cues);
            }
            b += 1;
        }
        proof {
            assert(banks.take(self.banks@.len() as int) =~= banks);
        }
        r
    }

    /// Every path a save stores, as the session knows it: the clip files, the
    /// ISF files and the shader. The shell looks up their absolute forms.
    pub fn paths_to_save(&self) -> (r: Vec<String>)
        ensures
            views(r@) == stored_paths(self@),
            views(r@).contains(self@.shader_path),
            forall|p: Seq<char>| #[trigger] isf_paths(self@.banks).contains(p) ==> views(r@).contains(p),
            forall|i: int|
                0 <= i < self@.clips.len() ==> ((#[trigger] self@.clips[i]).file_path() matches Some(p) ==> views(
                    r@,
                ).contains(p)),
    {
        let mut r = self.referenced_isf();
        let ghost isf = views(r@);
        note(&mut r, &self.shader_path);
        proof {
            noted_has(isf, self@.shader_path);
        }
        let ghost listed = views(r@);
        let mut i: usize = 0;
        proof {
            assert(self@.clips.take(0) =~= Seq::<ClipModel>::empty());
        }
        while i < self.clips.len()
            invariant
                i <= self.clips@.len(),
                isf == isf_paths(self@.banks),
                listed == noted(isf, self@.shader_path),
                views(r@) == files_noted(listed, self@.clips.take(i as int)),
                views(r@).contains(self@.shader_path),
                forall|p: Seq<char>| #[trigger] isf.contains(p) ==> views(r@).contains(p),
                forall|j: int|
                    0 <= j < i ==> ((#[trigger] self@.clips[j]).file_path() matches Some(p) ==> views(
                        r@,
                    ).contains(p)),
            decreases self.clips@.len() - i,
        {
            let ghost before = views(r@);
            if let Some(p) = self.clips[i].file_path() {
                note(&mut r, p);
                proof {
                    noted_has(before, p@);
                }
            }
            proof {
                assert(self@.clips[i as int] == self.clips@[i as int]@);
                assert(self@.clips.take(i + 1).drop_last() =~= self@.clips.take(i as int));
            }
            i += 1;
        }
        proof {
            assert(self@.clips.take(self@.clips.len() as int) =~= self@.clips);
        }
        r
    }

    /// The project that saves the session into a file in `dir`. `table` gives
    /// the absolute form of every path.
    pub fn to_project(&self, clock_bpm: MicroBpm, dir: &str, table: &PathTable) -> (r: Project)
        requires
            self@.wf(),
        ensures
            r@ == saved_project(
                dir@,
                path_pairs(table@),
                self@.clips,
                self@.clip_banks,
                self@.banks,
                self@.clip_meta,
                saved_defaults(self@, clock_bpm, dir@, path_pairs(table@)),
            ),
    {
        let len: u64 = self.sequencer.phrase_len() as u64;
        let beats: u64 = (len + 500_000) / 1_000_000;
        let abs = absolute_path(table, self.shader_path.as_str());
        let defaults = SessionDefaults {
            bpm: clock_bpm,
            quantum: self.time_sig.quantum(),
            phrase_len: if beats > u32::MAX as u64 {
                u32::MAX
            } else {
                beats as u32
            },
            sync: match self.sync {
                SyncKind::Internal => SyncSpec::Internal,
                SyncKind::Link => SyncSpec::Link,
            },
            preserve_playhead: self.preserve_playhead,
            loop_len: self.loop_len,
            advanced: self.advanced,
            ts_num: self.time_sig.num,
            ts_den: self.time_sig.den,
            phrase_cadence: Some(CadenceSpec::from(self.phrase_cadence)),
            loop_cadence_set: true,
            loop_cadence: match self.loop_cadence {
                Some(c) => Some(CadenceSpec::from(c)),
                None => None,
            },
            shader_path: Some(relativize(dir, abs.as_str())),
        };
        Project::from_runtime(
            dir,
            table,
            &self.clips,
            &self.clip_banks,
            &self.banks,
            &self.clip_meta,
            defaults,
        )
    }
}

proof fn noted_has(list: Seq<Seq<char>>, p: Seq<char>)
    ensures
        noted(list, p).contains(p),
        forall|q: Seq<char>| #[trigger] list.contains(q) ==> noted(list, p).contains(q),
{
    if !list.contains(p) {
        let after = list.push(p);
        assert(after[list.len() as int] == p);
        assert forall|q: Seq<char>| #[trigger] list.contains(q) implies after.contains(q) by {
            let i = list.index_of(q);
            assert(after[i] == q);
        }
    }
}

/// A saved session comes back with its signature, both cadences, its sync
/// source and its playback options.
pub proof fn a_saved_session_keeps_its_timing(
    m: AppModel,
    clock_bpm: MicroBpm,
    dir: Seq<char>,
    table: Seq<(Seq<char>, Seq<char>)>,
)
    requires
        m.wf(),
    ensures
        ({
            let d = saved_defaults(m, clock_bpm, dir, table);
            &&& d.time_sig() == m.time_sig
            &&& d.phrase_cadence() == m.phrase_cadence
            &&& d.loop_cadence() == m.loop_cadence
            &&& d.preserve_playhead == m.preserve_playhead
            &&& d.advanced == m.advanced
            &&& saved_sync(m.sync) == d.sync
            &&& d.bpm == clock_bpm
        }),
{
    cadences_survive_saving(m.phrase_cadence, saved_cadence(m.phrase_cadence));
    if let Some(c) = m.loop_cadence {
        cadences_survive_saving(c, saved_cadence(c));
    }
    crate::commands::sanitizing_finds_the_nearest(m.time_sig, 1);
}

} // verus!
