//! Commands and ticks: how the engine starts, what every command does, and
//! what happens on each frame of the clock.

use std::collections::HashMap;

use vstd::prelude::*;
use vstd::string::*;

use crate::app::{
    emit, listed_after, playback_follows_the_sequencer, then_step, App, AppModel, Effect,
    EffectModel, Step,
};
use crate::bank::{Bank, BankModel, Cue, CueId, CueModel};
use crate::clippool::{Clip, ClipBank, ClipBankModel, ClipModel};
use crate::clock::{crossing, BoundaryTracker, ClockSnapshot};
use crate::commands::{
    chain_copy, Cadence, ChainSlot, ChainSlotModel, ClipId, Command, SlotRef, SlotRefModel, SyncKind,
    TimeSig, MICRO_BEATS_PER_TICK,
};
use crate::editing::{
    chain_set, effect_appended, effect_param_set, in_point_set, out_point_set, preserve_set,
};
use crate::paths::{file_name, file_name_of, stem, stem_of};
use crate::project::ClipMeta;
use crate::seqs::first_at;
use crate::sequencer::{operations_are_orderly, CueStep, SeqModel, SeqState, Sequencer};
use crate::session::{bank_name_of, clip_id_list, clip_ids_of, dir_bank_name};
use crate::text::{decimal, decimal_text, joined, text_copy, view_opt, views};
use crate::units::{clamped, saturate, saturated, MicroBeats, MicroBpm, MicroSecs, Nanos};

verus! {

/// A gap between taps longer than this starts a fresh measurement.
pub const TAP_TIMEOUT: Nanos = 2_000_000_000;

/// How many recent taps are averaged.
pub const TAP_MAX: usize = 8;

/// How long a changed shader file must be left alone before it is loaded.
pub const SHADER_DEBOUNCE: Nanos = 75_000_000;

/// What the engine starts from.
pub struct Boot {
    pub shader_path: String,
    pub windowed: bool,
    pub monitor: Option<usize>,
    pub bpm: MicroBpm,
    pub time_sig: TimeSig,
    pub phrase_cadence: Cadence,
    pub initial_sync: SyncKind,
    pub clips: Vec<Clip>,
    pub clip_banks: Vec<ClipBank>,
    /// Cue banks to start with, of which the first goes live; none means one
    /// empty bank.
    pub cue_banks: Vec<Bank>,
    /// Clips to activate at once, when no cue banks are given.
    pub auto_active: Vec<ClipId>,
    pub clip_meta: HashMap<ClipId, ClipMeta>,
    pub project_path: Option<String>,
    pub preserve_playhead: bool,
    pub loop_cadence: Option<Cadence>,
    pub advanced: bool,
}

/// The first number above every id, and at least `least`.
pub open spec fn id_after(ids: Seq<u32>, least: int) -> int
    decreases ids.len(),
{
    if ids.len() == 0 {
        least
    } else {
        let before = id_after(ids.drop_last(), least);
        if ids.last() + 1 > before {
            ids.last() + 1
        } else {
            before
        }
    }
}

/// The first number above every cue id of the banks, and at least one.
pub open spec fn cue_id_after(banks: Seq<BankModel>) -> int
    decreases banks.len(),
{
    if banks.len() == 0 {
        1
    } else {
        id_after(crate::bank::ids_of(banks.last().cues), cue_id_after(banks.drop_last()))
    }
}

/// The length of a cadence in ticks.
pub open spec fn loop_ticks(c: Option<Cadence>, ts: TimeSig) -> Option<u32> {
    match c {
        Some(c) => Some(c.spec_ticks(ts) as u32),
        None => None,
    }
}

/// The length of a cadence in beats.
pub open spec fn cadence_beats(c: Cadence, ts: TimeSig) -> MicroBeats {
    (c.spec_ticks(ts) * MICRO_BEATS_PER_TICK) as MicroBeats
}

/// The beats of a length in ticks.
pub open spec fn ticks_beats(ticks: int) -> MicroBeats {
    (ticks * MICRO_BEATS_PER_TICK) as MicroBeats
}

/// The taps that count once another one comes at `now`.
pub open spec fn taps_with(taps: Seq<Nanos>, now: Nanos) -> Seq<Nanos> {
    let stale = taps.len() > 0 && now > taps.last() && now - taps.last() > TAP_TIMEOUT;
    let all = if stale {
        seq![now]
    } else {
        taps.push(now)
    };
    if all.len() > TAP_MAX {
        all.skip(all.len() - TAP_MAX)
    } else {
        all
    }
}

/// The tempo that taps up to `now` amount to: the average of their intervals,
/// between 20 and 1000 BPM. Needs two taps at different times.
pub open spec fn tapped_bpm(taps: Seq<Nanos>, now: Nanos) -> Option<int> {
    if taps.len() >= 2 && now > taps[0] {
        Some(
            clamped(
                60_000_000_000_000_000 * (taps.len() - 1) / (now - taps[0]),
                20_000_000,
                1_000_000_000,
            ),
        )
    } else {
        None
    }
}

/// The name under which the live shader is pinned.
pub open spec fn pin_name(shader_path: Seq<char>, n: int) -> Seq<char> {
    let base = match file_name_of(shader_path) {
        Some(f) => stem_of(f),
        None => "shader"@,
    };
    base + " #"@ + decimal(n as nat)
}

impl AppModel {
    /// The state at start-up, before any clip is activated.
    pub open spec fn booted(boot: Boot) -> AppModel {
        let banks = if boot.cue_banks@.len() > 0 {
            views(boot.cue_banks@)
        } else {
            seq![BankModel::empty("A"@)]
        };
        AppModel {
            sync: SyncKind::Internal,
            time_sig: boot.time_sig,
            phrase_cadence: boot.phrase_cadence,
            loop_cadence: boot.loop_cadence,
            seq: SeqModel {
                state: SeqState::Idle,
                active: seq![],
                phrase_len: crate::sequencer::phrase_floor(
                    cadence_beats(boot.phrase_cadence, boot.time_sig),
                ),
                prev_beat: None,
                since: 0,
            },
            clips: views(boot.clips@),
            clip_banks: views(boot.clip_banks@),
            active_clip_bank: 0,
            next_clip_id: id_after(clip_ids_of(views(boot.clips@)), 0) as ClipId,
            clip_meta: boot.clip_meta@,
            project_path: view_opt(boot.project_path),
            banks,
            live_bank: 0,
            edit_bank: 0,
            selected_cue: None,
            next_cue_id: cue_id_after(banks) as CueId,
            decoders: seq![],
            current: None,
            current_pts: 0,
            video_mode: 0,
            last_beat: 0,
            last_bpm: boot.bpm,
            advanced: boot.advanced,
            loop_len: loop_ticks(boot.loop_cadence, boot.time_sig),
            loop_prev: None,
            preserve_playhead: boot.preserve_playhead,
            tap_times: seq![],
            shader_path: boot.shader_path@,
            dirty_at: None,
            shader_pin_count: 0,
            bpm_entry: None,
            should_quit: false,
        }
    }

    /// Clips activated one after the other.
    pub open spec fn clips_toggled(self, ids: Seq<ClipId>) -> Step
        decreases ids.len(),
    {
        if ids.len() == 0 {
            (self, seq![])
        } else {
            let before = self.clips_toggled(ids.drop_last());
            then_step(before, before.0.clip_toggled(ids.last(), 0))
        }
    }

    /// The timing of a cue: its own dwell and delay in advanced mode, else the
    /// phrase length and none.
    pub open spec fn step_of(self, cue: CueModel) -> CueStep {
        CueStep {
            id: cue.id,
            dwell: match cue.dwell {
                Some(t) if self.advanced => ticks_beats(t as int),
                _ => self.seq.phrase_len,
            },
            trig_delay: if self.advanced && cue.trig_delay.on {
                ticks_beats(cue.trig_delay.val as int)
            } else {
                0
            },
        }
    }

    /// The timing that the live bank's cues have of their own; in simple mode
    /// none has any.
    pub open spec fn own_steps(self) -> Seq<CueStep> {
        let cues = self.banks[self.live_bank].cues;
        if self.advanced {
            Seq::new(cues.len(), |i: int| self.step_of(cues[i]))
        } else {
            seq![]
        }
    }

    /// The cue on display. It may be of a bank that is no longer live.
    pub open spec fn current_cue(self) -> Option<CueModel> {
        match self.current {
            Some(c) => self.any_cue(c),
            None => None,
        }
    }

    /// The re-loop grid in ticks and its shift in beats: the playing cue's in
    /// advanced mode, else the global grid.
    pub open spec fn loop_params(self) -> (Option<u32>, MicroBeats) {
        match self.current_cue() {
            Some(cue) if self.advanced => (
                match cue.loop_len {
                    Some(t) => if t == 0 {
                        None
                    } else {
                        Some(t)
                    },
                    None => self.loop_len,
                },
                if cue.loop_phase.on {
                    ticks_beats(cue.loop_phase.val as int)
                } else {
                    0
                },
            ),
            _ => (self.loop_len, 0),
        }
    }

    /// The re-loop: on each boundary of the grid the cue on display restarts.
    pub open spec fn relooped(self, beat: MicroBeats, is_playing: bool) -> Step {
        let (ticks, phase) = self.loop_params();
        match (ticks, self.current) {
            (Some(t), Some(cur)) => if is_playing && t > 0 {
                let at = saturated(beat - phase);
                (
                    AppModel { loop_prev: Some(at), ..self },
                    if crossing(self.loop_prev, at, t * MICRO_BEATS_PER_TICK) is Some {
                        self.restart(cur)
                    } else {
                        seq![]
                    },
                )
            } else {
                (self, seq![])
            },
            _ => (AppModel { loop_prev: None, ..self }, seq![]),
        }
    }

    /// One frame of the clock: the sequencer advances, then the re-loop grid.
    pub open spec fn ticked(self, snap: ClockSnapshot) -> Step {
        let s = AppModel { last_beat: snap.beat, last_bpm: snap.bpm, ..self }.sequenced(
            self.seq.stepped(self.own_steps(), snap.beat as int, snap.is_playing),
        );
        then_step(s, s.0.relooped(snap.beat, snap.is_playing))
    }

    /// A tap of the tempo key.
    pub open spec fn tapped(self, now: Nanos) -> Step {
        let taps = taps_with(self.tap_times, now);
        (
            AppModel { tap_times: taps, ..self },
            match tapped_bpm(taps, now) {
                Some(b) => seq![EffectModel::SetBpm(b as MicroBpm)],
                None => seq![],
            },
        )
    }

    /// The cadences resolved against the signature and handed to the sequencer
    /// and the re-loop grid.
    pub open spec fn cadences_applied(self) -> Step {
        let s = self.sequenced(
            self.seq.with_phrase_len(cadence_beats(self.phrase_cadence, self.time_sig)),
        );
        (
            AppModel {
                loop_len: loop_ticks(self.loop_cadence, self.time_sig),
                loop_prev: None,
                ..s.0
            },
            s.1,
        )
    }

    /// The state with both boundary trackers primed afresh.
    pub open spec fn unprimed(self) -> AppModel {
        AppModel { loop_prev: None, seq: self.seq.reprimed(), ..self }
    }

    /// The grid reset; playlist position and playhead stay.
    pub open spec fn soft_reset(self) -> Step {
        (self.unprimed(), seq![EffectModel::ResetClock])
    }

    /// The grid reset, and back to the first cue from its in-point.
    pub open spec fn hard_reset(self) -> Step {
        let s = then_step(self.soft_reset(), self.unprimed().sequenced(self.unprimed().seq.rewound()));
        match s.0.current {
            Some(c) => (s.0, s.1 + s.0.restart(c)),
            None => s,
        }
    }

    /// Another clock put in charge of the grid.
    pub open spec fn sync_set(self, kind: SyncKind) -> Step {
        if kind == self.sync {
            (self, seq![])
        } else {
            (AppModel { sync: kind, ..self.unprimed() }, seq![EffectModel::SwitchClock(kind)])
        }
    }

    /// The signature changed: the bar length and both cadences follow it.
    pub open spec fn time_sig_set(self, ts: TimeSig) -> Step {
        let valid = ts.spec_sanitized();
        let s = AppModel { time_sig: valid, ..self }.cadences_applied();
        (
            AppModel { seq: s.0.seq.reprimed(), ..s.0 },
            seq![
                EffectModel::SetQuantum((valid.num * 4_000_000 / valid.den as int) as MicroBeats),
            ] + s.1,
        )
    }

    /// The pool replaced by one directory's clips. Cues and probe data referred
    /// to the old pool, so playback starts over without them.
    pub open spec fn pool_replaced(self, dir: Seq<char>, clips: Seq<ClipModel>) -> Step {
        (
            AppModel {
                clips,
                clip_banks: seq![
                    ClipBankModel {
                        name: bank_name_of(Some(dir)),
                        dir: Some(dir),
                        clip_ids: clip_ids_of(clips),
                    },
                ],
                active_clip_bank: 0,
                next_clip_id: clips.len() as ClipId,
                clip_meta: Map::empty(),
                decoders: seq![],
                current: None,
                banks: seq![BankModel::empty("A"@)],
                live_bank: 0,
                edit_bank: 0,
                selected_cue: None,
                next_cue_id: 1,
                seq: SeqModel {
                    state: SeqState::Idle,
                    active: seq![],
                    phrase_len: self.seq.phrase_len,
                    prev_beat: None,
                    since: 0,
                },
                ..self
            },
            seq![EffectModel::ClearDecoders],
        )
    }

    /// The pool extended by a directory's clips as another clip bank, which is
    /// then on show. Nothing changes when there are none.
    pub open spec fn pool_extended(self, dir: Seq<char>, clips: Seq<ClipModel>) -> AppModel {
        if clips.len() == 0 {
            self
        } else {
            AppModel {
                clips: self.clips + clips,
                clip_banks: self.clip_banks.push(
                    ClipBankModel {
                        name: bank_name_of(Some(dir)),
                        dir: Some(dir),
                        clip_ids: clip_ids_of(clips),
                    },
                ),
                active_clip_bank: self.clip_banks.len() as int,
                next_clip_id: id_after(clip_ids_of(clips), 0) as ClipId,
                ..self
            }
        }
    }

    /// Whether a command can be carried out: ids and counters do not run out,
    /// and lengths can be counted in ticks.
    pub open spec fn admits(self, cmd: Command) -> bool {
        match cmd {
            Command::ToggleClipActive(_) => self.next_cue_id < u32::MAX,
            Command::AddCue(_) => self.next_cue_id < u32::MAX,
            Command::SetPhraseCadence(c) => c.fits(self.time_sig),
            Command::SetLoopCadence(c) => c matches Some(c) ==> c.fits(self.time_sig),
            Command::SetTimeSig(ts) => self.phrase_cadence.fits(ts.spec_sanitized()) && (
            self.loop_cadence matches Some(c) ==> c.fits(ts.spec_sanitized())),
            Command::CaptureShader => self.shader_pin_count < u32::MAX,
            _ => true,
        }
    }

    /// The session with the number of the newest pin free again.
    pub open spec fn pin_given_back(self) -> AppModel {
        AppModel {
            shader_pin_count: if self.shader_pin_count > 0 {
                (self.shader_pin_count - 1) as u32
            } else {
                0
            },
            ..self
        }
    }

    /// The session once an effect file was compiled for a cue.
    pub open spec fn isf_added(self, cue: CueId, path: Seq<char>) -> AppModel {
        self.edited(cue, effect_appended(ChainSlotModel::plain(SlotRefModel::Isf(path))))
    }

    /// The session without a cue's decoder.
    pub open spec fn without_decoder(self, cue: CueId) -> AppModel {
        AppModel { decoders: crate::seqs::kept(self.decoders, crate::relink::other_than(cue)), ..self }
    }

    /// The session with another frame on screen.
    pub open spec fn showing(self, pts: MicroSecs, video_mode: i32) -> AppModel {
        AppModel { current_pts: pts, video_mode, ..self }
    }

    /// The effect chain of the cue on display; empty means the live shader.
    pub open spec fn chain_on_display(self) -> Seq<ChainSlotModel> {
        match self.current_cue() {
            Some(cue) => cue.chain,
            None => seq![],
        }
    }

    /// The session once it was looked whether the shader file changed, and whether
    /// the shader is to be loaded now.
    pub open spec fn shader_checked(self, changed: bool, now: Nanos) -> (AppModel, bool) {
        let since = if changed {
            Some(now)
        } else {
            self.dirty_at
        };
        let due = since matches Some(t) && now >= t && now - t >= SHADER_DEBOUNCE;
        (
            AppModel {
                dirty_at: if due {
                    None
                } else {
                    since
                },
                ..self
            },
            due,
        )
    }

    /// A state reached without work for the shell.
    pub open spec fn quietly(self) -> Step {
        (self, seq![])
    }

    /// What a command does, at a host time and a clock tempo.
    pub open spec fn commanded(self, cmd: Command, clock_bpm: MicroBpm, now: Nanos) -> Step {
        match cmd {
            Command::SetBpm(b) => (self, seq![EffectModel::SetBpm(b)]),
            Command::BpmDelta(d) => (
                self,
                seq![EffectModel::SetBpm(saturated(clock_bpm + d) as MicroBpm)],
            ),
            Command::NudgeBpm(r) => (self, seq![EffectModel::NudgeBpm(r)]),
            Command::TapDownbeat => (self, seq![EffectModel::TapDownbeat]),
            Command::TapTempo => self.tapped(now),
            Command::SoftReset => self.soft_reset(),
            Command::HardReset => self.hard_reset(),
            Command::SetSyncSource(kind) => self.sync_set(kind),
            Command::SetTimeSig(ts) => self.time_sig_set(ts),
            Command::SetPhraseCadence(c) => AppModel { phrase_cadence: c, ..self }.cadences_applied(),
            Command::SetLoopCadence(c) => AppModel { loop_cadence: c, ..self }.cadences_applied(),
            Command::SetPreservePlayhead(on) => AppModel { preserve_playhead: on, ..self }.quietly(),
            Command::ToggleClipActive(id) => self.clip_toggled(id, self.last_beat as int),
            Command::AddCue(clip) => self.cue_added(clip),
            Command::RemoveCue(id) => self.cue_removed(id),
            Command::SelectCue(id) => AppModel { selected_cue: id, ..self }.quietly(),
            Command::SetCueIn(id, s) => self.edited(id, in_point_set(s)).quietly(),
            Command::SetCueOut(id, s) => self.edited(id, out_point_set(s)).quietly(),
            Command::SetCueInToPlayhead(id) => if self.current == Some(id) {
                self.edited(id, in_point_set(self.current_pts)).quietly()
            } else {
                self.quietly()
            },
            Command::SetCueOutToPlayhead(id) => if self.current == Some(id) {
                self.edited(
                    id,
                    out_point_set(
                        Some(
                            if self.current_pts < 0 {
                                0
                            } else {
                                self.current_pts
                            },
                        ),
                    ),
                ).quietly()
            } else {
                self.quietly()
            },
            Command::SetCuePreserve(id, v) => self.edited(id, preserve_set(v)).quietly(),
            Command::SetCueChain(id, chain) => self.edited(id, chain_set(views(chain@))).quietly(),
            Command::SetChainParam { cue, slot, name, value } => self.edited(
                cue,
                effect_param_set(slot as int, name@, value),
            ).quietly(),
            Command::LoadIsf(path) => match self.selected_cue {
                Some(cue) => (self, seq![EffectModel::CompileIsf { cue, path: path@ }]),
                None => self.quietly(),
            },
            Command::SetCueParam(id, p) => self.param_set(id, p),
            Command::MoveCue(id, to) => self.cue_moved(id, to as int),
            Command::SetClipBpm(id, bpm) => self.clip_bpm_set(id, bpm).quietly(),
            Command::SetAdvancedMode(on) => self.advanced_set(on),
            Command::AddBank => self.bank_added().quietly(),
            Command::SetLiveBank(i) => self.live_bank_set(i as int),
            Command::CycleLiveBank(d) => self.live_bank_cycled(d as int),
            Command::SetEditBank(i) => self.edit_bank_set(i as int).quietly(),
            Command::CaptureShader => (
                AppModel { shader_pin_count: (self.shader_pin_count + 1) as u32, ..self },
                seq![
                    EffectModel::CaptureShader(
                        pin_name(self.shader_path, self.shader_pin_count + 1),
                    ),
                ],
            ),
            Command::RemoveShader(id) => self.shader_removed(id),
            Command::SetClipDir(dir) => (self, seq![EffectModel::ScanPool(dir@)]),
            Command::AddClipDirAsBank(dir) => (self, seq![EffectModel::ScanBank(dir@)]),
            Command::SetActiveClipBank(i) => if i < self.clip_banks.len() {
                AppModel { active_clip_bank: i as int, ..self }.quietly()
            } else {
                self.quietly()
            },
            Command::SetShaderPath(p) => (
                AppModel { shader_path: p@, ..self },
                seq![EffectModel::WatchShader(p@), EffectModel::LoadShader(p@)],
            ),
            Command::SetAudioDevice(name) => (self, seq![EffectModel::SwitchAudio(view_opt(name))]),
            Command::ToggleFullscreen => (self, seq![EffectModel::ToggleFullscreen]),
            Command::SaveProject => match self.project_path {
                Some(p) => (self, seq![EffectModel::SaveTo(p)]),
                None => (self, seq![EffectModel::PickSavePath(None)]),
            },
            Command::SaveProjectAs => (self, seq![EffectModel::PickSavePath(self.project_path)]),
            Command::SaveProjectTo(p) => (
                AppModel { project_path: Some(p@), ..self },
                seq![EffectModel::SaveTo(p@)],
            ),
            Command::Quit => AppModel { should_quit: true, ..self }.quietly(),
        }
    }
}

fn clip_id_after(clips: &Vec<Clip>) -> (r: ClipId)
    requires
        forall|i: int| 0 <= i < clips@.len() ==> (#[trigger] clips@[i]).id < u32::MAX,
    ensures
        r == id_after(clip_ids_of(views(clips@)), 0),
{
    let ghost ids = clip_ids_of(views(clips@));
    let mut next: u32 = 0;
    let mut i: usize = 0;
    proof {
        assert(ids.take(0) =~= Seq::<u32>::empty());
    }
    while i < clips.len()
        invariant
            i <= clips@.len(),
            ids == clip_ids_of(views(clips@)),
            forall|j: int| 0 <= j < clips@.len() ==> (#[trigger] clips@[j]).id < u32::MAX,
            next == id_after(ids.take(i as int), 0),
        decreases clips@.len() - i,
    {
        proof {
            assert(ids.take(i + 1).drop_last() =~= ids.take(i as int));
            assert(ids.take(i + 1).last() == clips@[i as int].id);
        }
        if clips[i].id + 1 > next {
            next = clips[i].id + 1;
        }
        i += 1;
    }
    proof {
        assert(ids.take(clips@.len() as int) =~= ids);
    }
    next
}

/// Whether every cue id of the banks has a successor.
pub open spec fn cue_ids_bounded(banks: Seq<BankModel>) -> bool {
    forall|b: int, i: int|
        #![trigger banks[b].cues[i]]
        0 <= b < banks.len() && 0 <= i < banks[b].cues.len() ==> banks[b].cues[i].id < u32::MAX
}

fn next_id_in(bank: &Bank, least: CueId) -> (r: CueId)
    requires
        forall|i: int| 0 <= i < bank.cues@.len() ==> (#[trigger] bank.cues@[i]).id < u32::MAX,
    ensures
        r == id_after(crate::bank::ids_of(bank@.cues), least as int),
{
    let ghost ids = crate::bank::ids_of(bank@.cues);
    let mut next: u32 = least;
    let mut i: usize = 0;
    proof {
        assert(ids.take(0) =~= Seq::<u32>::empty());
    }
    while i < bank.cues.len()
        invariant
            i <= bank.cues@.len(),
            ids == crate::bank::ids_of(bank@.cues),
            forall|j: int| 0 <= j < bank.cues@.len() ==> (#[trigger] bank.cues@[j]).id < u32::MAX,
            next == id_after(ids.take(i as int), least as int),
        decreases bank.cues@.len() - i,
    {
        proof {
            assert(ids.take(i + 1).drop_last() =~= ids.take(i as int));
            assert(ids.take(i + 1).last() == bank.cues@[i as int].id);
        }
        if bank.cues[i].id + 1 > next {
            next = bank.cues[i].id + 1;
        }
        i += 1;
    }
    proof {
        assert(ids.take(bank.cues@.len() as int) =~= ids);
    }
    next
}

fn next_cue_id_of(banks: &Vec<Bank>) -> (r: CueId)
    requires
        cue_ids_bounded(views(banks@)),
    ensures
        r == cue_id_after(views(banks@)),
{
    let ghost all = views(banks@);
    let mut next: u32 = 1;
    let mut b: usize = 0;
    proof {
        assert(all.take(0) =~= Seq::<BankModel>::empty());
    }
    while b < banks.len()
        invariant
            b <= banks@.len(),
            all == views(banks@),
            cue_ids_bounded(all),
            next == cue_id_after(all.take(b as int)),
        decreases banks@.len() - b,
    {
        proof {
            assert(all.take(b + 1).drop_last() =~= all.take(b as int));
            assert(all.take(b + 1).last() == banks@[b as int]@);
            assert forall|i: int| 0 <= i < banks@[b as int].cues@.len() implies (
            #[trigger] banks@[b as int].cues@[i]).id < u32::MAX by {
                assert(all[b as int].cues[i].id < u32::MAX);
            }
        }
        next = next_id_in(&banks[b], next);
        b += 1;
    }
    proof {
        assert(all.take(banks@.len() as int) =~= all);
    }
    next
}

/// What start-up asks of its input: a valid signature, lengths that can be
/// counted, and ids that do not run out.
pub open spec fn bootable(boot: Boot) -> bool {
    &&& boot.time_sig.valid()
    &&& boot.phrase_cadence.fits(boot.time_sig)
    &&& boot.loop_cadence matches Some(c) ==> c.fits(boot.time_sig)
    &&& forall|i: int| 0 <= i < boot.clips@.len() ==> (#[trigger] boot.clips@[i]).id < u32::MAX
    &&& cue_ids_bounded(views(boot.cue_banks@))
    &&& boot.auto_active@.len() < u32::MAX
}

/// Whether the engine can start: a valid signature, cadences that ticks can
/// count, and ids that have a successor.
pub fn can_start(boot: &Boot) -> (r: bool)
    ensures
        r == bootable(*boot),
{
    let ts = boot.time_sig;
    let den: u8 = ts.den;
    if ts.num == 0 || !(den == 1 || den == 2 || den == 4 || den == 8 || den == 16) {
        return false;
    }
    if !boot.phrase_cadence.is_countable(ts) {
        return false;
    }
    if let Some(c) = boot.loop_cadence {
        if !c.is_countable(ts) {
            return false;
        }
    }
    let mut i: usize = 0;
    while i < boot.clips.len()
        invariant
            i <= boot.clips@.len(),
            forall|j: int| 0 <= j < i ==> (#[trigger] boot.clips@[j]).id < u32::MAX,
        decreases boot.clips@.len() - i,
    {
        if boot.clips[i].id == u32::MAX {
            return false;
        }
        i += 1;
    }
    let ghost banks = views(boot.cue_banks@);
    let mut b: usize = 0;
    while b < boot.cue_banks.len()
        invariant
            b <= boot.cue_banks@.len(),
            banks == views(boot.cue_banks@),
            forall|k: int, j: int|
                #![trigger banks[k].cues[j]]
                0 <= k < b && 0 <= j < banks[k].cues.len() ==> banks[k].cues[j].id < u32::MAX,
        decreases boot.cue_banks@.len() - b,
    {
        let cues = &boot.cue_banks[b].cues;
        let mut j: usize = 0;
        while j < cues.len()
            invariant
                b < boot.cue_banks@.len(),
                banks == views(boot.cue_banks@),
                cues == &boot.cue_banks@[b as int].cues,
                j <= cues@.len(),
                forall|k: int|
                    0 <= k < j ==> (#[trigger] banks[b as int].cues[k]).id < u32::MAX,
            decreases cues@.len() - j,
        {
            proof {
                assert(banks[b as int].cues[j as int] == cues@[j as int]@);
            }
            if cues[j].id == u32::MAX {
                return false;
            }
            j += 1;
        }
        b += 1;
    }
    boot.auto_active.len() < u32::MAX as usize
}

/// The state after start-up, with the work it leads to.
pub open spec fn started(boot: Boot) -> Step {
    let base = AppModel::booted(boot);
    let active = if boot.cue_banks@.len() > 0 {
        base.resynced()
    } else {
        base.clips_toggled(boot.auto_active@)
    };
    if boot.initial_sync == SyncKind::Link {
        then_step(active, active.0.sync_set(SyncKind::Link))
    } else {
        active
    }
}

impl App {
    /// The engine for a session. The first of its cue banks plays; without any
    /// it starts with one empty bank and activates the clips asked for.
    pub fn new(boot: Boot) -> (r: (App, Vec<Effect>))
        requires
            bootable(boot),
        ensures
            r.0@ == started(boot).0,
            views(r.1@) == started(boot).1,
            r.0@.wf(),
    {
        let mut fx: Vec<Effect> = Vec::new();
        let seeded = boot.cue_banks.len() > 0;
        let next_clip_id: u32 = clip_id_after(&boot.clips);
        let banks = if seeded {
            boot.cue_banks
        } else {
            let mut one: Vec<Bank> = Vec::new();
            let bank = Bank::new("A".to_owned());
            one.push(bank);
            proof {
                assert(views(one@) =~= seq![BankModel::empty("A"@)]);
            }
            one
        };
        let next_cue_id: u32 = next_cue_id_of(&banks);
        let loop_len = match boot.loop_cadence {
            Some(c) => Some(c.ticks(boot.time_sig)),
            None => None,
        };
        let mut app = App {
            sync: SyncKind::Internal,
            time_sig: boot.time_sig,
            phrase_cadence: boot.phrase_cadence,
            loop_cadence: boot.loop_cadence,
            sequencer: Sequencer::new(boot.phrase_cadence.beats(boot.time_sig)),
            clips: boot.clips,
            clip_banks: boot.clip_banks,
            active_clip_bank: 0,
            next_clip_id,
            clip_meta: boot.clip_meta,
            project_path: boot.project_path,
            banks,
            live_bank: 0,
            edit_bank: 0,
            selected_cue: None,
            next_cue_id,
            decoders: Vec::new(),
            current: None,
            current_pts: 0,
            video_mode: 0,
            last_beat: 0,
            last_bpm: boot.bpm,
            advanced: boot.advanced,
            loop_len,
            loop_tracker: BoundaryTracker::new(),
            preserve_playhead: boot.preserve_playhead,
            tap_times: Vec::new(),
            shader_path: boot.shader_path,
            dirty_at: None,
            shader_pin_count: 0,
            bpm_entry: None,
            should_quit: false,
        };
        let ghost base = AppModel::booted(boot);
        proof {
            assert(app@ =~= base);
            assert(views(fx@) =~= Seq::<EffectModel>::empty());
        }
        if !seeded {
            let ids = &boot.auto_active;
            let mut i: usize = 0;
            proof {
                assert(ids@.take(0) =~= Seq::<ClipId>::empty());
                let one = base.banks;
                assert(one =~= seq![BankModel::empty("A"@)]);
                assert(one.drop_last() =~= Seq::<BankModel>::empty());
                assert(crate::bank::ids_of(one.last().cues) =~= Seq::<u32>::empty());
                assert(cue_id_after(one.drop_last()) == 1);
                assert(id_after(Seq::<u32>::empty(), 1) == 1);
                assert(next_cue_id == 1);
            }
            while i < ids.len()
                invariant
                    i <= ids@.len(),
                    ids@.len() < u32::MAX,
                    app@.wf(),
                    app.next_cue_id <= i + 1,
                    app@ == base.clips_toggled(ids@.take(i as int)).0,
                    views(fx@) == base.clips_toggled(ids@.take(i as int)).1,
                decreases ids@.len() - i,
            {
                proof {
                    assert(ids@.take(i + 1).drop_last() =~= ids@.take(i as int));
                }
                let ghost before = app@;
                app.toggle_clip_active(ids[i], 0, &mut fx);
                proof {
                    toggling_takes_at_most_one_id(before, ids@[i as int], 0);
                }
                i += 1;
            }
            proof {
                assert(ids@.take(ids@.len() as int) =~= ids@);
            }
        } else {
            app.resync(&mut fx);
            proof {
                assert(views(fx@) =~= base.resynced().1);
            }
        }
        if let SyncKind::Link = boot.initial_sync {
            app.set_sync_source(SyncKind::Link, &mut fx);
        }
        (app, fx)
    }

    /// Hands the beat grid to another clock.
    pub fn set_sync_source(&mut self, kind: SyncKind, fx: &mut Vec<Effect>)
        requires
            old(self)@.wf(),
        ensures
            final(self)@ == old(self)@.sync_set(kind).0,
            views(final(fx)@) == listed_after(old(fx)@, old(self)@.sync_set(kind).1),
            final(self)@.wf(),
    {
        if kind == self.sync {
            proof {
                assert(views(fx@) =~= listed_after(fx@, seq![]));
            }
            return;
        }
        self.sync = kind;
        self.sequencer.reset_boundary();
        self.loop_tracker.reset();
        emit(fx, Effect::SwitchClock(kind));
    }

    /// Takes a tap of the tempo key and sets the tempo that the recent taps
    /// amount to.
    pub fn tap_tempo(&mut self, now: Nanos, fx: &mut Vec<Effect>)
        requires
            old(self)@.wf(),
        ensures
            final(self)@ == old(self)@.tapped(now).0,
            views(final(fx)@) == listed_after(old(fx)@, old(self)@.tapped(now).1),
            final(self)@.wf(),
    {
        let n: usize = self.tap_times.len();
        if n > 0 {
            let last: u64 = self.tap_times[n - 1];
            if now > last && now - last > TAP_TIMEOUT {
                self.tap_times = Vec::new();
            }
        }
        self.tap_times.push(now);
        if self.tap_times.len() > TAP_MAX {
            self.tap_times.remove(0);
        }
        proof {
            assert(self.tap_times@ =~= taps_with(old(self)@.tap_times, now));
            assert(views(fx@) =~= listed_after(fx@, seq![]));
        }
        let count: usize = self.tap_times.len();
        if count >= 2 {
            let first: u64 = self.tap_times[0];
            if now > first {
                let span: u64 = 60_000_000_000_000_000 * (count as u64 - 1);
                let raw: u64 = span / (now - first);
                let bpm: u64 = if raw < 20_000_000 {
                    20_000_000
                } else if raw > 1_000_000_000 {
                    1_000_000_000
                } else {
                    raw
                };
                emit(fx, Effect::SetBpm(bpm as i64));
            }
        }
    }

    fn apply_cadences(&mut self, fx: &mut Vec<Effect>)
        requires
            old(self)@.wf(),
        ensures
            final(self)@ == old(self)@.cadences_applied().0,
            views(final(fx)@) == listed_after(old(fx)@, old(self)@.cadences_applied().1),
            final(self)@.wf(),
    {
        let beats: i64 = self.phrase_cadence.beats(self.time_sig);
        proof {
            operations_are_orderly(self@.seq, 0, true, 0, seq![], beats, seq![]);
            playback_follows_the_sequencer(self@, self@.seq.with_phrase_len(beats));
        }
        let ev = self.sequencer.set_phrase_len(beats);
        self.apply_seq_events(&ev, fx);
        self.loop_len = match self.loop_cadence {
            Some(c) => Some(c.ticks(self.time_sig)),
            None => None,
        };
        self.loop_tracker.reset();
    }

    /// Resets the beat grid to its origin. Playlist position and playhead stay.
    pub fn soft_reset(&mut self, fx: &mut Vec<Effect>)
        requires
            old(self)@.wf(),
        ensures
            final(self)@ == old(self)@.soft_reset().0,
            views(final(fx)@) == listed_after(old(fx)@, old(self)@.soft_reset().1),
            final(self)@.wf(),
    {
        emit(fx, Effect::ResetClock);
        self.loop_tracker.reset();
        self.sequencer.reset_boundary();
    }

    /// Resets the grid, goes back to the first cue and restarts it, whatever the
    /// preserve setting.
    pub fn hard_reset(&mut self, fx: &mut Vec<Effect>)
        requires
            old(self)@.wf(),
        ensures
            final(self)@ == old(self)@.hard_reset().0,
            views(final(fx)@) == listed_after(old(fx)@, old(self)@.hard_reset().1),
            final(self)@.wf(),
    {
        self.soft_reset(fx);
        proof {
            operations_are_orderly(self@.seq, 0, true, 0, seq![], 0, seq![]);
            playback_follows_the_sequencer(self@, self@.seq.rewound());
        }
        let ev = self.sequencer.reset_to_first();
        self.apply_seq_events(&ev, fx);
        if let Some(cur) = self.current {
            self.restart(cur, fx);
        }
        proof {
            assert(views(fx@) =~= listed_after(old(fx)@, old(self)@.hard_reset().1));
        }
    }

    /// Changes the time signature; the bar length and both cadences follow it.
    pub fn set_time_sig(&mut self, ts: TimeSig, fx: &mut Vec<Effect>)
        requires
            old(self)@.wf(),
            old(self)@.admits(Command::SetTimeSig(ts)),
        ensures
            final(self)@ == old(self)@.time_sig_set(ts).0,
            views(final(fx)@) == listed_after(old(fx)@, old(self)@.time_sig_set(ts).1),
            final(self)@.wf(),
    {
        self.time_sig = ts.sanitized();
        emit(fx, Effect::SetQuantum(self.time_sig.quantum()));
        self.apply_cadences(fx);
        self.sequencer.reset_boundary();
        proof {
            assert(views(fx@) =~= listed_after(old(fx)@, old(self)@.time_sig_set(ts).1));
        }
    }

    /// Replaces the pool by the clips of one directory; playback starts over.
    pub fn set_clip_dir(&mut self, dir: String, clips: Vec<Clip>, fx: &mut Vec<Effect>)
        requires
            old(self)@.wf(),
            clips@.len() <= u32::MAX,
        ensures
            final(self)@ == old(self)@.pool_replaced(dir@, views(clips@)).0,
            views(final(fx)@) == listed_after(
                old(fx)@,
                old(self)@.pool_replaced(dir@, views(clips@)).1,
            ),
            final(self)@.wf(),
    {
        let clip_ids = clip_id_list(&clips);
        let name = dir_bank_name(dir.as_str());
        let group = ClipBank { name, dir: Some(dir), clip_ids };
        let mut clip_banks: Vec<ClipBank> = Vec::new();
        clip_banks.push(group);
        let mut banks: Vec<Bank> = Vec::new();
        let bank = Bank::new("A".to_owned());
        banks.push(bank);
        self.next_clip_id = clips.len() as u32;
        self.clips = clips;
        self.clip_banks = clip_banks;
        self.active_clip_bank = 0;
        self.clip_meta = HashMap::new();
        self.decoders = Vec::new();
        self.current = None;
        self.banks = banks;
        self.live_bank = 0;
        self.edit_bank = 0;
        self.selected_cue = None;
        self.next_cue_id = 1;
        self.sequencer = Sequencer::new(self.sequencer.phrase_len());
        emit(fx, Effect::ClearDecoders);
        proof {
            assert(views(clip_banks@) =~= seq![group@]);
            assert(views(banks@) =~= seq![bank@]);
        }
    }

    /// Appends a directory's clips as another clip bank and shows it. Existing
    /// clips and cues stay. Does nothing when there are none.
    pub fn add_clip_dir_as_bank(&mut self, dir: String, clips: Vec<Clip>)
        requires
            old(self)@.wf(),
            forall|i: int| 0 <= i < clips@.len() ==> (#[trigger] clips@[i]).id < u32::MAX,
        ensures
            final(self)@ == old(self)@.pool_extended(dir@, views(clips@)),
            final(self)@.wf(),
    {
        if clips.len() == 0 {
            return;
        }
        let ghost new = views(clips@);
        let mut more = clips;
        let clip_ids = clip_id_list(&more);
        self.next_clip_id = clip_id_after(&more);
        let ghost had = self.clips@;
        self.clips.append(&mut more);
        let name = dir_bank_name(dir.as_str());
        let group = ClipBank { name, dir: Some(dir), clip_ids };
        self.active_clip_bank = self.clip_banks.len();
        let ghost groups = self.clip_banks@;
        self.clip_banks.push(group);
        proof {
            assert(views(self.clips@) =~= views(had) + new);
            assert(views(self.clip_banks@) =~= views(groups).push(group@));
        }
    }

    /// The timing of a cue.
    pub fn step_for(&self, cue: &Cue) -> (r: CueStep)
        ensures
            r == self@.step_of(cue@),
    {
        let phrase: i64 = self.sequencer.phrase_len();
        if self.advanced {
            CueStep {
                id: cue.id,
                dwell: match cue.dwell {
                    Some(t) => t as i64 * MICRO_BEATS_PER_TICK,
                    None => phrase,
                },
                trig_delay: if cue.trig_delay.on {
                    cue.trig_delay.val as i64 * MICRO_BEATS_PER_TICK
                } else {
                    0
                },
            }
        } else {
            CueStep { id: cue.id, dwell: phrase, trig_delay: 0 }
        }
    }

    /// The timing of a bank's cues, in play order; none when there is no such
    /// bank.
    pub fn cue_steps(&self, bank: usize) -> (r: Vec<CueStep>)
        ensures
            bank >= self@.banks.len() ==> r@.len() == 0,
            bank < self@.banks.len() ==> {
                &&& r@.len() == self@.banks[bank as int].cues.len()
                &&& forall|i: int|
                    0 <= i < r@.len() ==> #[trigger] r@[i] == self@.step_of(self@.banks[bank as int].cues[i])
            },
    {
        let mut r: Vec<CueStep> = Vec::new();
        if bank < self.banks.len() {
            let b = &self.banks[bank];
            let mut i: usize = 0;
            while i < b.cues.len()
                invariant
                    bank < self.banks@.len(),
                    *b == self.banks@[bank as int],
                    i <= b.cues@.len(),
                    r@.len() == i,
                    forall|j: int|
                        0 <= j < i ==> #[trigger] r@[j] == self@.step_of(self@.banks[bank as int].cues[j]),
                decreases b.cues@.len() - i,
            {
                r.push(self.step_for(&b.cues[i]));
                i += 1;
            }
        }
        r
    }

    /// The re-loop grid in ticks and its shift in beats.
    pub fn current_loop_params(&self) -> (r: (Option<u32>, MicroBeats))
        requires
            self@.wf(),
        ensures
            r == self@.loop_params(),
    {
        if !self.advanced {
            return (self.loop_len, 0);
        }
        let cur = match self.current {
            Some(c) => c,
            None => {
                return (self.loop_len, 0);
            },
        };
        match self.any_cue(cur) {
            Some(cue) => {
                let ticks = match cue.loop_len {
                    Some(t) => if t == 0 {
                        None
                    } else {
                        Some(t)
                    },
                    None => self.loop_len,
                };
                let phase: i64 = if cue.loop_phase.on {
                    cue.loop_phase.val as i64 * MICRO_BEATS_PER_TICK
                } else {
                    0
                };
                (ticks, phase)
            },
            None => (self.loop_len, 0),
        }
    }

    fn reloop(&mut self, beat: MicroBeats, is_playing: bool, fx: &mut Vec<Effect>)
        requires
            old(self)@.wf(),
        ensures
            final(self)@ == old(self)@.relooped(beat, is_playing).0,
            views(final(fx)@) == listed_after(old(fx)@, old(self)@.relooped(beat, is_playing).1),
            final(self)@.wf(),
    {
        proof {
            assert(views(fx@) =~= listed_after(fx@, seq![]));
        }
        let (ticks, phase) = self.current_loop_params();
        if let Some(t) = ticks {
            if let Some(cur) = self.current {
                if is_playing && t > 0 {
                    let at: i64 = saturate(beat as i128 - phase as i128);
                    let grid: i64 = t as i64 * MICRO_BEATS_PER_TICK;
                    if self.loop_tracker.crossed(at, grid).is_some() {
                        self.restart(cur, fx);
                    }
                }
                return;
            }
        }
        self.loop_tracker.reset();
    }

    /// One frame of the clock: the sequencer advances, then the re-loop grid.
    pub fn update(&mut self, snap: &ClockSnapshot, fx: &mut Vec<Effect>)
        requires
            old(self)@.wf(),
        ensures
            final(self)@ == old(self)@.ticked(*snap).0,
            views(final(fx)@) == listed_after(old(fx)@, old(self)@.ticked(*snap).1),
            final(self)@.wf(),
    {
        self.last_beat = snap.beat;
        self.last_bpm = snap.bpm;
        let steps = if self.advanced {
            self.cue_steps(self.live_bank)
        } else {
            Vec::new()
        };
        proof {
            assert(steps@ =~= old(self)@.own_steps());
            operations_are_orderly(self@.seq, snap.beat as int, snap.is_playing, 0, seq![], 0, steps@);
            playback_follows_the_sequencer(
                self@,
                self@.seq.stepped(steps@, snap.beat as int, snap.is_playing),
            );
        }
        let ev = self.sequencer.tick_steps(snap, &steps);
        self.apply_seq_events(&ev, fx);
        self.reloop(snap.beat, snap.is_playing, fx);
        proof {
            assert(views(fx@) =~= listed_after(old(fx)@, old(self)@.ticked(*snap).1));
        }
    }
}

proof fn toggling_takes_at_most_one_id(m: AppModel, clip: ClipId, beat: int)
    requires
        m.wf(),
        m.next_cue_id < u32::MAX,
        i64::MIN <= beat <= i64::MAX,
    ensures
        m.clip_toggled(clip, beat).0.next_cue_id <= m.next_cue_id + 1,
{
    let b = m.banks[m.live_bank];
    let i = first_at(b.cues, crate::bank::plays(clip));
    let id = if i < b.cues.len() {
        b.cues[i].id
    } else {
        m.next_cue_id
    };
    let step = m.seq.toggled(id, beat);
    if i < b.cues.len() {
        let mid = AppModel {
            banks: m.banks.update(m.live_bank, BankModel { cues: b.cues.remove(i), ..b }),
            selected_cue: m.selection_without(id),
            ..m
        };
        crate::app::events_touch_only_playback(AppModel { seq: step.0, ..mid }, step.1);
    } else {
        let cue = CueModel::fresh(m.next_cue_id, clip, m.clip_name(clip));
        let mid = AppModel {
            banks: m.banks.update(m.live_bank, BankModel { cues: b.cues.push(cue), ..b }),
            next_cue_id: (m.next_cue_id + 1) as CueId,
            ..m
        };
        crate::app::events_touch_only_playback(AppModel { seq: step.0, ..mid }, step.1);
    }
}

impl App {
    fn pinned_name(&self, n: u32) -> (r: String)
        ensures
            r@ == pin_name(self@.shader_path, n as int),
    {
        let base = match file_name(self.shader_path.as_str()) {
            Some(f) => stem(f.as_str()),
            None => "shader".to_owned(),
        };
        let number = decimal_text(n as u64);
        let head = joined(base.as_str(), " #");
        joined(head.as_str(), number.as_str())
    }

    fn is_current(&self, id: CueId) -> (r: bool)
        ensures
            r == (self.current == Some(id)),
    {
        match self.current {
            Some(c) => c == id,
            None => false,
        }
    }

    /// Whether a command can be carried out: the counters have room for it, and
    /// the cadences it leads to can be counted in ticks.
    pub fn accepts(&self, cmd: &Command) -> (r: bool)
        requires
            self@.wf(),
        ensures
            r == self@.admits(*cmd),
    {
        match cmd {
            Command::ToggleClipActive(_) | Command::AddCue(_) => self.next_cue_id < u32::MAX,
            Command::SetPhraseCadence(c) => c.is_countable(self.time_sig),
            Command::SetLoopCadence(c) => match c {
                Some(c) => c.is_countable(self.time_sig),
                None => true,
            },
            Command::SetTimeSig(ts) => {
                let ts = ts.sanitized();
                self.phrase_cadence.is_countable(ts) && match self.loop_cadence {
                    Some(c) => c.is_countable(ts),
                    None => true,
                }
            },
            Command::CaptureShader => self.shader_pin_count < u32::MAX,
            _ => true,
        }
    }

    /// Carries out one command. `clock_bpm` is the clock's tempo and `now` the
    /// host time.
    pub fn apply_command(&mut self, cmd: Command, clock_bpm: MicroBpm, now: Nanos, fx: &mut Vec<Effect>)
        requires
            old(self)@.wf(),
            old(self)@.admits(cmd),
        ensures
            final(self)@ == old(self)@.commanded(cmd, clock_bpm, now).0,
            views(final(fx)@) == listed_after(old(fx)@, old(self)@.commanded(cmd, clock_bpm, now).1),
            final(self)@.wf(),
    {
        proof {
            assert(views(fx@) =~= listed_after(fx@, seq![]));
        }
        match cmd {
            Command::SetBpm(b) => emit(fx, Effect::SetBpm(b)),
            Command::BpmDelta(d) => emit(fx, Effect::SetBpm(saturate(clock_bpm as i128 + d as i128))),
            Command::NudgeBpm(r) => emit(fx, Effect::NudgeBpm(r)),
            Command::TapDownbeat => emit(fx, Effect::TapDownbeat),
            Command::TapTempo => self.tap_tempo(now, fx),
            Command::SoftReset => self.soft_reset(fx),
            Command::HardReset => self.hard_reset(fx),
            Command::SetSyncSource(kind) => self.set_sync_source(kind, fx),
            Command::SetTimeSig(ts) => self.set_time_sig(ts, fx),
            Command::SetPhraseCadence(c) => {
                self.phrase_cadence = c;
                self.apply_cadences(fx);
            },
            Command::SetLoopCadence(c) => {
                self.loop_cadence = c;
                self.apply_cadences(fx);
            },
            Command::SetPreservePlayhead(on) => {
                self.preserve_playhead = on;
            },
            Command::ToggleClipActive(id) => {
                let beat: i64 = self.last_beat;
                self.toggle_clip_active(id, beat, fx);
            },
            Command::AddCue(clip) => self.add_cue(clip, fx),
            Command::RemoveCue(id) => self.remove_cue(id, fx),
            Command::SelectCue(id) => {
                self.selected_cue = id;
            },
            Command::SetCueIn(id, s) => self.set_cue_in(id, s),
            Command::SetCueOut(id, s) => self.set_cue_out(id, s),
            Command::SetCueInToPlayhead(id) => {
                if self.is_current(id) {
                    let p: i64 = self.current_pts;
                    self.set_cue_in(id, p);
                }
            },
            Command::SetCueOutToPlayhead(id) => {
                if self.is_current(id) {
                    let p: i64 = if self.current_pts < 0 {
                        0
                    } else {
                        self.current_pts
                    };
                    self.set_cue_out(id, Some(p));
                }
            },
            Command::SetCuePreserve(id, v) => self.set_cue_preserve(id, v),
            Command::SetCueChain(id, chain) => self.set_cue_chain(id, chain),
            Command::SetChainParam { cue, slot, name, value } => self.set_chain_param(
                cue,
                slot,
                name,
                value,
            ),
            Command::LoadIsf(path) => {
                if let Some(cue) = self.selected_cue {
                    emit(fx, Effect::CompileIsf { cue, path });
                }
            },
            Command::SetCueParam(id, p) => self.set_cue_param(id, p, fx),
            Command::MoveCue(id, to) => self.move_cue(id, to, fx),
            Command::SetClipBpm(id, bpm) => self.set_clip_bpm(id, bpm),
            Command::SetAdvancedMode(on) => self.set_advanced(on, fx),
            Command::AddBank => self.add_bank(),
            Command::SetLiveBank(i) => self.set_live_bank(i, fx),
            Command::CycleLiveBank(d) => self.cycle_live_bank(d, fx),
            Command::SetEditBank(i) => self.set_edit_bank(i),
            Command::CaptureShader => {
                self.shader_pin_count = self.shader_pin_count + 1;
                let name = self.pinned_name(self.shader_pin_count);
                emit(fx, Effect::CaptureShader(name));
            },
            Command::RemoveShader(id) => self.remove_shader(id, fx),
            Command::SetClipDir(dir) => emit(fx, Effect::ScanPool(dir)),
            Command::AddClipDirAsBank(dir) => emit(fx, Effect::ScanBank(dir)),
            Command::SetActiveClipBank(i) => {
                if i < self.clip_banks.len() {
                    self.active_clip_bank = i;
                }
            },
            Command::SetShaderPath(p) => {
                self.shader_path = p.clone();
                emit(fx, Effect::WatchShader(p.clone()));
                emit(fx, Effect::LoadShader(p));
                proof {
                    assert(views(fx@) =~= listed_after(
                        old(fx)@,
                        seq![EffectModel::WatchShader(p@), EffectModel::LoadShader(p@)],
                    ));
                }
            },
            Command::SetAudioDevice(name) => emit(fx, Effect::SwitchAudio(name)),
            Command::ToggleFullscreen => emit(fx, Effect::ToggleFullscreen),
            Command::SaveProject => {
                match &self.project_path {
                    Some(p) => emit(fx, Effect::SaveTo(p.clone())),
                    None => emit(fx, Effect::PickSavePath(None)),
                }
            },
            Command::SaveProjectAs => emit(fx, Effect::PickSavePath(text_copy(&self.project_path))),
            Command::SaveProjectTo(p) => {
                emit(fx, Effect::SaveTo(p.clone()));
                self.project_path = Some(p);
            },
            Command::Quit => {
                self.should_quit = true;
            },
        }
    }

    /// The shell could not pin the live shader: its number is free again.
    pub fn capture_failed(&mut self)
        requires
            old(self)@.wf(),
        ensures
            final(self)@ == old(self)@.pin_given_back(),
            final(self)@.wf(),
    {
        if self.shader_pin_count > 0 {
            self.shader_pin_count = self.shader_pin_count - 1;
        }
    }

    /// The shell compiled an ISF file for a cue: it joins the cue's chain.
    pub fn isf_loaded(&mut self, cue: CueId, path: String)
        requires
            old(self)@.wf(),
        ensures
            final(self)@ == old(self)@.isf_added(cue, path@),
            final(self)@.wf(),
    {
        self.append_effect(cue, ChainSlot::new(SlotRef::Isf(path)));
    }

    /// The shell could not start a cue's decoder: the cue has none.
    pub fn decoder_failed(&mut self, cue: CueId)
        requires
            old(self)@.wf(),
        ensures
            final(self)@ == old(self)@.without_decoder(cue),
            final(self)@.wf(),
    {
        let ghost p = crate::relink::other_than(cue);
        let mut left: Vec<CueId> = Vec::new();
        let mut i: usize = 0;
        while i < self.decoders.len()
            invariant
                i <= self.decoders@.len(),
                p == crate::relink::other_than(cue),
                left@ == crate::seqs::kept(self.decoders@.take(i as int), p),
            decreases self.decoders@.len() - i,
        {
            proof {
                assert(self.decoders@.take(i + 1).drop_last() =~= self.decoders@.take(i as int));
            }
            if self.decoders[i] != cue {
                left.push(self.decoders[i]);
            }
            i += 1;
        }
        proof {
            let all = self.decoders@;
            assert(all.take(all.len() as int) =~= all);
            crate::seqs::kept_no_duplicates(all, p);
            assert forall|k: int| 0 <= k < left@.len() implies crate::app::in_use(
                self.current,
                self@.seq.armed(),
            )(#[trigger] left@[k]) by {
                let j = all.index_of(left@[k]);
                assert(crate::app::in_use(self.current, self@.seq.armed())(all[j]));
            }
        }
        self.decoders = left;
    }

    /// The shell put a frame of the cue on display on screen.
    pub fn frame_shown(&mut self, pts: MicroSecs, video_mode: i32)
        requires
            old(self)@.wf(),
        ensures
            final(self)@ == old(self)@.showing(pts, video_mode),
            final(self)@.wf(),
    {
        self.current_pts = pts;
        self.video_mode = video_mode;
    }

    /// The effect chain of the cue on display; empty means the live shader.
    pub fn active_chain(&self) -> (r: Vec<ChainSlot>)
        requires
            self@.wf(),
        ensures
            views(r@) == self@.chain_on_display(),
    {
        if let Some(c) = self.current {
            if let Some(cue) = self.any_cue(c) {
                return chain_copy(&cue.chain);
            }
        }
        let none: Vec<ChainSlot> = Vec::new();
        proof {
            assert(views(none@) =~= Seq::<ChainSlotModel>::empty());
        }
        none
    }

    /// Notes whether the shader file changed, and tells whether it is to be
    /// loaded now: once it was left alone for a while.
    pub fn shader_due(&mut self, changed: bool, now: Nanos) -> (r: bool)
        requires
            old(self)@.wf(),
        ensures
            (final(self)@, r) == old(self)@.shader_checked(changed, now),
            final(self)@.wf(),
    {
        if changed {
            self.dirty_at = Some(now);
        }
        let due = match self.dirty_at {
            Some(t) => now >= t && now - t >= SHADER_DEBOUNCE,
            None => false,
        };
        if due {
            self.dirty_at = None;
        }
        due
    }
}

} // verus!
