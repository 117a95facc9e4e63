//! The display state that the engine publishes for the control surface.

use vstd::prelude::*;
use vstd::string::*;

use crate::analysis::AUDIO_TEX_W;
use crate::app::{resolve_speed, speed_of, App, AppModel};
use crate::bank::{plays, Cue, CueId, CueModel};
use crate::clippool::{Clip, ClipModel};
use crate::clock::{ClockCaps, ClockSnapshot};
use crate::commands::{
    chain_copy, BankView, ClipBankView, ClipEntry, ClipEntryModel, ClipId, ClipRole, CueView,
    CueViewModel, ShaderPoolView, UiMirror,
};
use crate::paths::{file_name, file_name_of};
use crate::seqs::any;
use crate::text::{text_copy, view_opt, views};
use crate::units::{floor_mod, MicroBeats, Single};

verus! {

/// What the shell knows and the control surface shows.
pub struct MirrorInputs {
    pub caps: ClockCaps,
    /// The clips whose thumbnail is at hand.
    pub thumbs: Vec<ClipId>,
    pub audio_devices: Vec<String>,
    pub current_device: Option<String>,
    pub audio_error: Option<String>,
    pub shader_error: Option<String>,
    pub shader_pool: Vec<ShaderPoolView>,
    pub levels: Vec<Single>,
    /// The audio texture; its first row is the linear spectrum.
    pub audio_tex: Vec<u8>,
    pub level: Single,
    pub fullscreen: bool,
}

/// The bar length that bars are counted in: at least a quarter of a beat.
pub open spec fn bar_length(quantum: MicroBeats) -> int {
    if quantum < 250_000 {
        250_000
    } else {
        quantum as int
    }
}

/// How many bars a phrase holds, to the nearest, and at least one.
pub open spec fn bars_in(phrase: int, quantum: MicroBeats) -> int {
    let n = (2 * phrase + bar_length(quantum)) / (2 * bar_length(quantum));
    if n < 1 {
        1
    } else if n > u32::MAX {
        u32::MAX as int
    } else {
        n
    }
}

/// The bar of the phrase that the beat is in.
pub open spec fn bar_at(beat: int, phrase: int, quantum: MicroBeats) -> int {
    let n = beat % phrase / bar_length(quantum);
    if n > u32::MAX {
        u32::MAX as int
    } else {
        n
    }
}

impl AppModel {
    /// The clip of a cue.
    pub open spec fn clip_of(self, cue: Option<CueId>) -> Option<ClipId> {
        match cue {
            Some(c) => match self.any_cue(c) {
                Some(cue) => Some(cue.clip),
                None => None,
            },
            None => None,
        }
    }

    /// The playback role of a clip.
    pub open spec fn clip_role(self, id: ClipId) -> ClipRole {
        if self.clip_of(self.current) == Some(id) {
            ClipRole::Playing
        } else if self.clip_of(self.seq.armed()) == Some(id) {
            ClipRole::Armed
        } else {
            ClipRole::Idle
        }
    }

    /// The playback role of a cue.
    pub open spec fn cue_role(self, id: CueId) -> ClipRole {
        if self.current == Some(id) {
            ClipRole::Playing
        } else if self.seq.armed() == Some(id) {
            ClipRole::Armed
        } else {
            ClipRole::Idle
        }
    }

    /// How a clip is shown.
    pub open spec fn clip_entry(self, c: ClipModel, thumbs: Seq<ClipId>) -> ClipEntryModel {
        ClipEntryModel {
            id: c.id,
            name: c.name,
            active: any(self.banks[self.live_bank].cues, plays(c.id)),
            role: self.clip_role(c.id),
            has_thumb: thumbs.contains(c.id),
            bpm: c.bpm,
            bank: self.active_clip_bank as usize,
        }
    }

    /// The clips of a list of ids as they are shown; ids without a clip are
    /// skipped.
    pub open spec fn entries(self, ids: Seq<ClipId>, thumbs: Seq<ClipId>) -> Seq<ClipEntryModel>
        decreases ids.len(),
    {
        if ids.len() == 0 {
            seq![]
        } else {
            let before = self.entries(ids.drop_last(), thumbs);
            match self.clip(ids.last()) {
                Some(c) => before.push(self.clip_entry(c, thumbs)),
                None => before,
            }
        }
    }

    /// The ids of the clip bank on show.
    pub open spec fn shown_ids(self) -> Seq<ClipId> {
        if self.active_clip_bank < self.clip_banks.len() {
            self.clip_banks[self.active_clip_bank].clip_ids
        } else {
            seq![]
        }
    }

    /// How a cue is shown.
    pub open spec fn cue_view(self, c: CueModel, thumbs: Seq<ClipId>) -> CueViewModel {
        CueViewModel {
            cue: c,
            role: self.cue_role(c.id),
            has_thumb: thumbs.contains(c.clip),
            clip_bpm: self.clip_bpm(c.clip),
            speed: speed_of(self.advanced, self.last_bpm, c, self.clip_bpm(c.clip)) as i64,
        }
    }
}

fn has(ids: &Vec<ClipId>, id: ClipId) -> (r: bool)
    ensures
        r == ids@.contains(id),
{
    let mut i: usize = 0;
    while i < ids.len()
        invariant
            i <= ids@.len(),
            forall|j: int| 0 <= j < i ==> #[trigger] ids@[j] != id,
        decreases ids@.len() - i,
    {
        if ids[i] == id {
            return true;
        }
        i += 1;
    }
    false
}

fn is(a: Option<u32>, b: u32) -> (r: bool)
    ensures
        r == (a == Some(b)),
{
    match a {
        Some(x) => x == b,
        None => false,
    }
}

/// What the control surface is shown of a session at a snapshot of the clock.
pub open spec fn mirrors(m: AppModel, snap: ClockSnapshot, input: MirrorInputs, r: UiMirror) -> bool {
    &&& r.bpm == snap.bpm && r.beat == snap.beat && r.phase == snap.phase && r.quantum == snap.quantum
    &&& view_opt(r.bpm_entry) == m.bpm_entry
    &&& r.time_sig == m.time_sig
    &&& r.phrase_cadence == m.phrase_cadence && r.loop_cadence == m.loop_cadence
    &&& r.phrase_beats == m.seq.phrase_len && r.loop_len == m.loop_len
    &&& r.bars_per_phrase == bars_in(m.seq.phrase_len as int, snap.quantum)
    &&& r.bar_in_phrase == bar_at(snap.beat as int, m.seq.phrase_len as int, snap.quantum)
    &&& r.preserve_playhead == m.preserve_playhead && r.advanced == m.advanced
    &&& r.sync == Some(m.sync)
    &&& r.peers == input.caps.peers
    &&& r.can_set_tempo == input.caps.can_set_tempo && r.can_set_phase == input.caps.can_set_phase
    &&& r.audio_devices == input.audio_devices && r.current_device == input.current_device
    &&& r.audio_error == input.audio_error && r.shader_error == input.shader_error
    &&& view_opt(r.shader_name) == file_name_of(m.shader_path)
    &&& view_opt(r.clip_dir) == if m.active_clip_bank < m.clip_banks.len() {
        m.clip_banks[m.active_clip_bank].dir
    } else {
        None
    }
    &&& r.clip_banks@.len() == m.clip_banks.len()
    &&& forall|i: int|
        0 <= i < r.clip_banks@.len() ==> (#[trigger] r.clip_banks@[i]).name@ == m.clip_banks[i].name
            && r.clip_banks@[i].clip_count == m.clip_banks[i].clip_ids.len()
    &&& r.active_clip_bank == m.active_clip_bank
    &&& views(r.clips@) == m.entries(m.shown_ids(), input.thumbs@)
    &&& r.banks@.len() == m.banks.len()
    &&& forall|i: int|
        0 <= i < r.banks@.len() ==> (#[trigger] r.banks@[i]).name@ == m.banks[i].name && r.banks@[i].cue_count
            == m.banks[i].cues.len()
    &&& r.live_bank == m.live_bank && r.edit_bank == m.edit_bank
    &&& r.cues@.len() == m.editing().cues.len()
    &&& forall|i: int|
        0 <= i < r.cues@.len() ==> #[trigger] r.cues@[i]@ == m.cue_view(m.editing().cues[i], input.thumbs@)
    &&& r.selected_cue == m.selected_cue
    &&& r.shader_pool == input.shader_pool
    &&& r.playhead_sec == m.current_pts
    &&& r.levels == input.levels && r.level == input.level && r.fullscreen == input.fullscreen
    &&& r.spectrum_linear@ == input.audio_tex@.take(AUDIO_TEX_W as int)
}

impl App {
    fn clip_of(&self, cue: Option<CueId>) -> (r: Option<ClipId>)
        requires
            self@.wf(),
        ensures
            r == self@.clip_of(cue),
    {
        match cue {
            Some(c) => match self.any_cue(c) {
                Some(cue) => Some(cue.clip),
                None => None,
            },
            None => None,
        }
    }

    fn clip_entry(&self, c: &Clip, thumbs: &Vec<ClipId>) -> (r: ClipEntry)
        requires
            self@.wf(),
        ensures
            r@ == self@.clip_entry(c@, thumbs@),
    {
        let bank = &self.banks[self.live_bank];
        let role = if is(self.clip_of(self.current), c.id) {
            ClipRole::Playing
        } else if is(self.clip_of(self.sequencer.armed()), c.id) {
            ClipRole::Armed
        } else {
            ClipRole::Idle
        };
        ClipEntry {
            id: c.id,
            name: c.name.clone(),
            active: bank.position_of_clip(c.id) < bank.cues.len(),
            role,
            has_thumb: has(thumbs, c.id),
            bpm: c.bpm,
            bank: self.active_clip_bank,
        }
    }

    fn clip_entries(&self, thumbs: &Vec<ClipId>) -> (r: Vec<ClipEntry>)
        requires
            self@.wf(),
        ensures
            views(r@) == self@.entries(self@.shown_ids(), thumbs@),
    {
        let ghost ids = self@.shown_ids();
        let mut r: Vec<ClipEntry> = Vec::new();
        proof {
            assert(ids.take(0) =~= Seq::<ClipId>::empty());
            assert(views(r@) =~= self@.entries(ids.take(0), thumbs@));
        }
        if self.active_clip_bank < self.clip_banks.len() {
            let list = &self.clip_banks[self.active_clip_bank].clip_ids;
            let mut i: usize = 0;
            while i < list.len()
                invariant
                    self@.wf(),
                    i <= list@.len(),
                    ids == list@,
                    views(r@) == self@.entries(ids.take(i as int), thumbs@),
                decreases list@.len() - i,
            {
                proof {
                    assert(ids.take(i + 1).drop_last() =~= ids.take(i as int));
                }
                let at: usize = self.clip_position(list[i]);
                if at < self.clips.len() {
                    let ghost before = r@;
                    let entry = self.clip_entry(&self.clips[at], thumbs);
                    r.push(entry);
                    proof {
                        assert(views(r@) =~= views(before).push(entry@));
                    }
                }
                i += 1;
            }
            proof {
                assert(ids.take(list@.len() as int) =~= ids);
            }
        } else {
            proof {
                assert(ids =~= ids.take(0));
            }
        }
        r
    }

    fn cue_view(&self, c: &Cue, thumbs: &Vec<ClipId>) -> (r: CueView)
        requires
            self@.wf(),
        ensures
            r@ == self@.cue_view(c@, thumbs@),
    {
        let clip_bpm = self.clip_bpm(c.clip);
        let role = if is(self.current, c.id) {
            ClipRole::Playing
        } else if is(self.sequencer.armed(), c.id) {
            ClipRole::Armed
        } else {
            ClipRole::Idle
        };
        CueView {
            id: c.id,
            clip: c.clip,
            name: c.name.clone(),
            in_sec: c.in_sec,
            out_sec: c.out_sec,
            preserve: c.preserve,
            chain: chain_copy(&c.chain),
            role,
            has_thumb: has(thumbs, c.clip),
            dwell: c.dwell,
            loop_len: c.loop_len,
            loop_phase: c.loop_phase,
            start_nudge: c.start_nudge,
            trig_delay: c.trig_delay,
            bpm: c.bpm,
            clip_bpm,
            bpm_sync_on: c.bpm_sync_on,
            speed_mul: c.speed_mul,
            speed: resolve_speed(self.advanced, self.last_bpm, c, clip_bpm),
        }
    }

    fn cue_views(&self, thumbs: &Vec<ClipId>) -> (r: Vec<CueView>)
        requires
            self@.wf(),
        ensures
            r@.len() == self@.editing().cues.len(),
            forall|i: int|
                0 <= i < r@.len() ==> #[trigger] r@[i]@ == self@.cue_view(self@.editing().cues[i], thumbs@),
    {
        let bank = &self.banks[self.edit_bank];
        let mut r: Vec<CueView> = Vec::new();
        let mut i: usize = 0;
        while i < bank.cues.len()
            invariant
                self@.wf(),
                bank@ == self@.editing(),
                i <= bank.cues@.len(),
                r@.len() == i,
                forall|j: int|
                    0 <= j < i ==> #[trigger] r@[j]@ == self@.cue_view(self@.editing().cues[j], thumbs@),
            decreases bank.cues@.len() - i,
        {
            r.push(self.cue_view(&bank.cues[i], thumbs));
            i += 1;
        }
        r
    }

    fn bank_views(&self) -> (r: Vec<BankView>)
        ensures
            r@.len() == self@.banks.len(),
            forall|i: int|
                0 <= i < r@.len() ==> (#[trigger] r@[i]).name@ == self@.banks[i].name && r@[i].cue_count
                    == self@.banks[i].cues.len(),
    {
        let mut r: Vec<BankView> = Vec::new();
        let mut i: usize = 0;
        while i < self.banks.len()
            invariant
                i <= self.banks@.len(),
                r@.len() == i,
                forall|j: int|
                    0 <= j < i ==> (#[trigger] r@[j]).name@ == self@.banks[j].name && r@[j].cue_count
                        == self@.banks[j].cues.len(),
            decreases self.banks@.len() - i,
        {
            r.push(BankView { name: self.banks[i].name.clone(), cue_count: self.banks[i].cues.len() });
            i += 1;
        }
        r
    }

    fn clip_bank_views(&self) -> (r: Vec<ClipBankView>)
        ensures
            r@.len() == self@.clip_banks.len(),
            forall|i: int|
                0 <= i < r@.len() ==> (#[trigger] r@[i]).name@ == self@.clip_banks[i].name && r@[i].clip_count
                    == self@.clip_banks[i].clip_ids.len(),
    {
        let mut r: Vec<ClipBankView> = Vec::new();
        let mut i: usize = 0;
        while i < self.clip_banks.len()
            invariant
                i <= self.clip_banks@.len(),
                r@.len() == i,
                forall|j: int|
                    0 <= j < i ==> (#[trigger] r@[j]).name@ == self@.clip_banks[j].name && r@[j].clip_count
                        == self@.clip_banks[j].clip_ids.len(),
            decreases self.clip_banks@.len() - i,
        {
            r.push(
                ClipBankView {
                    name: self.clip_banks[i].name.clone(),
                    clip_count: self.clip_banks[i].clip_ids.len(),
                },
            );
            i += 1;
        }
        r
    }

    /// The display state at a snapshot of the clock.
    pub fn build_mirror(&self, snap: &ClockSnapshot, input: MirrorInputs) -> (r: UiMirror)
        requires
            self@.wf(),
            input.audio_tex@.len() >= AUDIO_TEX_W,
        ensures
            mirrors(self@, *snap, input, r),
    {
        let phrase: i64 = self.sequencer.phrase_len();
        let bar: i64 = if snap.quantum < 250_000 {
            250_000
        } else {
            snap.quantum
        };
        let count: u128 = (2 * phrase as u128 + bar as u128) / (2 * bar as u128);
        let bars: u32 = if count < 1 {
            1
        } else if count > u32::MAX as u128 {
            u32::MAX
        } else {
            count as u32
        };
        let within: u64 = floor_mod(snap.beat, phrase) as u64 / bar as u64;
        let bar_in_phrase: u32 = if within > u32::MAX as u64 {
            u32::MAX
        } else {
            within as u32
        };
        let clip_dir = if self.active_clip_bank < self.clip_banks.len() {
            text_copy(&self.clip_banks[self.active_clip_bank].dir)
        } else {
            None
        };
        let clips = self.clip_entries(&input.thumbs);
        let cues = self.cue_views(&input.thumbs);
        let mut spectrum = input.audio_tex;
        spectrum.truncate(AUDIO_TEX_W);
        proof {
            assert(spectrum@ =~= input.audio_tex@.take(AUDIO_TEX_W as int));
        }
        UiMirror {
            bpm: snap.bpm,
            bpm_entry: text_copy(&self.bpm_entry),
            beat: snap.beat,
            phase: snap.phase,
            quantum: snap.quantum,
            time_sig: self.time_sig,
            phrase_cadence: self.phrase_cadence,
            loop_cadence: self.loop_cadence,
            bar_in_phrase,
            bars_per_phrase: bars,
            phrase_beats: phrase,
            loop_len: self.loop_len,
            preserve_playhead: self.preserve_playhead,
            advanced: self.advanced,
            sync: Some(self.sync),
            peers: input.caps.peers,
            can_set_tempo: input.caps.can_set_tempo,
            can_set_phase: input.caps.can_set_phase,
            audio_devices: input.audio_devices,
            current_device: input.current_device,
            audio_error: input.audio_error,
            shader_name: file_name(self.shader_path.as_str()),
            shader_error: input.shader_error,
            clip_dir,
            clip_banks: self.clip_bank_views(),
            active_clip_bank: self.active_clip_bank,
            clips,
            banks: self.bank_views(),
            live_bank: self.live_bank,
            edit_bank: self.edit_bank,
            cues,
            selected_cue: self.selected_cue,
            shader_pool: input.shader_pool,
            playhead_sec: self.current_pts,
            levels: input.levels,
            spectrum_linear: spectrum,
            level: input.level,
            fullscreen: input.fullscreen,
        }
    }
}

} // verus!
