//! The engine: which cue plays, which decoders run, and what each command and
//! each clock tick changes. It performs no input or output itself. Every
//! operation changes the state and lists the [`Effect`]s that the shell has to
//! carry out, in order.

use std::collections::HashMap;

use vstd::prelude::*;
use vstd::string::*;

use crate::bank::{Bank, BankModel, Cue, CueId, CueModel};
use crate::clippool::{has_clip_id, Clip, ClipBank, ClipBankModel, ClipModel};
use crate::clock::BoundaryTracker;
use crate::commands::{Cadence, ClipId, ShaderId, SyncKind, TimeSig};
use crate::control_input::entry_ok;
use crate::project::ClipMeta;
use crate::seqs::{first_at, first_at_is, first_of, kept};
use crate::sequencer::{orderly, SeqModel, Sequencer, SequencerEvent};
use crate::text::{view_opt, views};
use crate::units::{
    clamp, clamped, saturate, saturated, Micro, MicroBeats, MicroBpm, MicroSecs, Nanos, MICRO,
};

verus! {

/// Slowest playback speed.
pub const SPEED_MIN: Micro = 50_000;

/// Fastest playback speed.
pub const SPEED_MAX: Micro = 20_000_000;

/// Work for the shell.
#[derive(Debug)]
pub enum Effect {
    SetBpm(MicroBpm),
    NudgeBpm(Micro),
    TapDownbeat,
    ResetClock,
    SetQuantum(MicroBeats),
    /// Drive the beat grid from another clock, carrying on from this one.
    SwitchClock(SyncKind),
    /// Start decoding for a cue.
    SpawnDecoder {
        cue: CueId,
        path: String,
        in_sec: MicroSecs,
        out_sec: Option<MicroSecs>,
        speed: Micro,
    },
    /// Drop every decoder but these.
    KeepDecoders { playing: Option<CueId>, armed: Option<CueId> },
    /// Seek a cue's decoder back to its in-point.
    RestartDecoder(CueId),
    ClearDecoders,
    /// Watch the shader file for changes.
    WatchShader(String),
    LoadShader(String),
    /// Pin the live shader into the pool under this name.
    CaptureShader(String),
    RemovePoolShader(ShaderId),
    /// Compile an ISF file for a cue.
    CompileIsf { cue: CueId, path: String },
    /// Scan a directory to replace the pool.
    ScanPool(String),
    /// Scan a directory to extend the pool.
    ScanBank(String),
    SwitchAudio(Option<String>),
    ToggleFullscreen,
    /// Ask where to save, suggesting a path.
    PickSavePath(Option<String>),
    SaveTo(String),
}

/// The mathematical content of an [`Effect`].
pub enum EffectModel {
    SetBpm(MicroBpm),
    NudgeBpm(Micro),
    TapDownbeat,
    ResetClock,
    SetQuantum(MicroBeats),
    SwitchClock(SyncKind),
    SpawnDecoder {
        cue: CueId,
        path: Seq<char>,
        in_sec: MicroSecs,
        out_sec: Option<MicroSecs>,
        speed: Micro,
    },
    KeepDecoders { playing: Option<CueId>, armed: Option<CueId> },
    RestartDecoder(CueId),
    ClearDecoders,
    WatchShader(Seq<char>),
    LoadShader(Seq<char>),
    CaptureShader(Seq<char>),
    RemovePoolShader(ShaderId),
    CompileIsf { cue: CueId, path: Seq<char> },
    ScanPool(Seq<char>),
    ScanBank(Seq<char>),
    SwitchAudio(Option<Seq<char>>),
    ToggleFullscreen,
    PickSavePath(Option<Seq<char>>),
    SaveTo(Seq<char>),
}

impl View for Effect {
    type V = EffectModel;

    open spec fn view(&self) -> EffectModel {
        match self {
            Effect::SetBpm(b) => EffectModel::SetBpm(*b),
            Effect::NudgeBpm(r) => EffectModel::NudgeBpm(*r),
            Effect::TapDownbeat => EffectModel::TapDownbeat,
            Effect::ResetClock => EffectModel::ResetClock,
            Effect::SetQuantum(q) => EffectModel::SetQuantum(*q),
            Effect::SwitchClock(k) => EffectModel::SwitchClock(*k),
            Effect::SpawnDecoder { cue, path, in_sec, out_sec, speed } => EffectModel::SpawnDecoder {
                cue: *cue,
                path: path@,
                in_sec: *in_sec,
                out_sec: *out_sec,
                speed: *speed,
            },
            Effect::KeepDecoders { playing, armed } => EffectModel::KeepDecoders {
                playing: *playing,
                armed: *armed,
            },
            Effect::RestartDecoder(c) => EffectModel::RestartDecoder(*c),
            Effect::ClearDecoders => EffectModel::ClearDecoders,
            Effect::WatchShader(p) => EffectModel::WatchShader(p@),
            Effect::LoadShader(p) => EffectModel::LoadShader(p@),
            Effect::CaptureShader(n) => EffectModel::CaptureShader(n@),
            Effect::RemovePoolShader(id) => EffectModel::RemovePoolShader(*id),
            Effect::CompileIsf { cue, path } => EffectModel::CompileIsf { cue: *cue, path: path@ },
            Effect::ScanPool(d) => EffectModel::ScanPool(d@),
            Effect::ScanBank(d) => EffectModel::ScanBank(d@),
            Effect::SwitchAudio(n) => EffectModel::SwitchAudio(view_opt(*n)),
            Effect::ToggleFullscreen => EffectModel::ToggleFullscreen,
            Effect::PickSavePath(p) => EffectModel::PickSavePath(view_opt(*p)),
            Effect::SaveTo(p) => EffectModel::SaveTo(p@),
        }
    }
}

/// The engine's state.
pub struct App {
    pub sync: SyncKind,
    pub time_sig: TimeSig,
    /// Length between automatic transitions; `time_sig` resolves it.
    pub phrase_cadence: Cadence,
    pub loop_cadence: Option<Cadence>,
    pub sequencer: Sequencer,
    pub clips: Vec<Clip>,
    pub clip_banks: Vec<ClipBank>,
    pub active_clip_bank: usize,
    pub next_clip_id: ClipId,
    /// Probe data by clip, kept for a save.
    pub clip_meta: HashMap<ClipId, ClipMeta>,
    /// Where the session was loaded from or last saved to.
    pub project_path: Option<String>,
    pub banks: Vec<Bank>,
    /// The bank the sequencer plays.
    pub live_bank: usize,
    /// The bank that edits aim at.
    pub edit_bank: usize,
    pub selected_cue: Option<CueId>,
    pub next_cue_id: CueId,
    /// The cues that have a decoder.
    pub decoders: Vec<CueId>,
    /// The cue on display.
    pub current: Option<CueId>,
    /// Playhead of the cue on display.
    pub current_pts: MicroSecs,
    pub video_mode: i32,
    pub last_beat: MicroBeats,
    pub last_bpm: MicroBpm,
    /// Whether per-cue timing and speed take effect.
    pub advanced: bool,
    /// The re-loop grid in ticks: `loop_cadence` resolved.
    pub loop_len: Option<u32>,
    pub loop_tracker: BoundaryTracker,
    /// Whether a cut carries the playhead over.
    pub preserve_playhead: bool,
    pub tap_times: Vec<Nanos>,
    pub shader_path: String,
    /// When the shader file last changed.
    pub dirty_at: Option<Nanos>,
    pub shader_pin_count: u32,
    /// Digits of a tempo being typed.
    pub bpm_entry: Option<String>,
    pub should_quit: bool,
}

/// The mathematical content of an [`App`].
#[verifier::ext_equal]
pub struct AppModel {
    pub sync: SyncKind,
    pub time_sig: TimeSig,
    pub phrase_cadence: Cadence,
    pub loop_cadence: Option<Cadence>,
    pub seq: SeqModel,
    pub clips: Seq<ClipModel>,
    pub clip_banks: Seq<ClipBankModel>,
    pub active_clip_bank: int,
    pub next_clip_id: ClipId,
    pub clip_meta: Map<ClipId, ClipMeta>,
    pub project_path: Option<Seq<char>>,
    pub banks: Seq<BankModel>,
    pub live_bank: int,
    pub edit_bank: int,
    pub selected_cue: Option<CueId>,
    pub next_cue_id: CueId,
    pub decoders: Seq<CueId>,
    pub current: Option<CueId>,
    pub current_pts: MicroSecs,
    pub video_mode: i32,
    pub last_beat: MicroBeats,
    pub last_bpm: MicroBpm,
    pub advanced: bool,
    pub loop_len: Option<u32>,
    /// The last beat the re-loop tracker saw.
    pub loop_prev: Option<int>,
    pub preserve_playhead: bool,
    pub tap_times: Seq<Nanos>,
    pub shader_path: Seq<char>,
    pub dirty_at: Option<Nanos>,
    pub shader_pin_count: u32,
    pub bpm_entry: Option<Seq<char>>,
    pub should_quit: bool,
}

impl View for App {
    type V = AppModel;

    open spec fn view(&self) -> AppModel {
        AppModel {
            sync: self.sync,
            time_sig: self.time_sig,
            phrase_cadence: self.phrase_cadence,
            loop_cadence: self.loop_cadence,
            seq: self.sequencer@,
            clips: views(self.clips@),
            clip_banks: views(self.clip_banks@),
            active_clip_bank: self.active_clip_bank as int,
            next_clip_id: self.next_clip_id,
            clip_meta: self.clip_meta@,
            project_path: view_opt(self.project_path),
            banks: views(self.banks@),
            live_bank: self.live_bank as int,
            edit_bank: self.edit_bank as int,
            selected_cue: self.selected_cue,
            next_cue_id: self.next_cue_id,
            decoders: self.decoders@,
            current: self.current,
            current_pts: self.current_pts,
            video_mode: self.video_mode,
            last_beat: self.last_beat,
            last_bpm: self.last_bpm,
            advanced: self.advanced,
            loop_len: self.loop_len,
            loop_prev: self.loop_tracker@,
            preserve_playhead: self.preserve_playhead,
            tap_times: self.tap_times@,
            shader_path: self.shader_path@,
            dirty_at: self.dirty_at,
            shader_pin_count: self.shader_pin_count,
            bpm_entry: view_opt(self.bpm_entry),
            should_quit: self.should_quit,
        }
    }
}

/// A new state with the work that leads to it.
pub type Step = (AppModel, Seq<EffectModel>);

/// One step after another.
pub open spec fn then_step(first: Step, second: Step) -> Step {
    (second.0, first.1 + second.1)
}

/// Selects the banks that hold a cue.
pub open spec fn holds(id: CueId) -> spec_fn(BankModel) -> bool {
    |b: BankModel| b.has(id)
}

/// Selects the playing and the armed cue.
pub open spec fn in_use(playing: Option<CueId>, armed: Option<CueId>) -> spec_fn(CueId) -> bool {
    |c: CueId| playing == Some(c) || armed == Some(c)
}

/// The value of `n / d` to the nearest integer, ties upwards.
pub open spec fn half_up(n: int, d: int) -> int {
    (n + d / 2) / d
}

/// A cue's playback speed: normal in simple mode; in advanced mode the session
/// tempo over the source tempo when synced and a source tempo is known, times
/// the cue's multiplier, within limits.
pub open spec fn speed_of(
    advanced: bool,
    session_bpm: MicroBpm,
    cue: CueModel,
    clip_bpm: Option<MicroBpm>,
) -> int {
    let mul = if cue.speed_mul.on {
        cue.speed_mul.val as int
    } else {
        MICRO as int
    };
    let source = match cue.bpm {
        Some(b) => Some(b),
        None => clip_bpm,
    };
    let raw = match source {
        Some(src) if cue.bpm_sync_on && src > 0 => half_up(session_bpm * mul, src as int),
        _ => mul,
    };
    if advanced {
        clamped(raw, SPEED_MIN as int, SPEED_MAX as int)
    } else {
        MICRO as int
    }
}

/// A cue's effective playback speed.
pub fn resolve_speed(
    advanced: bool,
    session_bpm: MicroBpm,
    cue: &Cue,
    clip_bpm: Option<MicroBpm>,
) -> (r: Micro)
    ensures
        r == speed_of(advanced, session_bpm, cue@, clip_bpm),
{
    if !advanced {
        return MICRO;
    }
    let mul: i64 = if cue.speed_mul.on {
        cue.speed_mul.val
    } else {
        MICRO
    };
    let source = match cue.bpm {
        Some(b) => Some(b),
        None => clip_bpm,
    };
    if cue.bpm_sync_on {
        if let Some(src) = source {
            if src > 0 {
                proof {
                    let a = session_bpm as int;
                    let b = mul as int;
                    assert(-0x5000_0000_0000_0000_0000_0000_0000_0000 <= a * b
                        <= 0x5000_0000_0000_0000_0000_0000_0000_0000) by (nonlinear_arith)
                        requires
                            -0x8000_0000_0000_0000 <= a < 0x8000_0000_0000_0000,
                            -0x8000_0000_0000_0000 <= b < 0x8000_0000_0000_0000,
                    ;
                }
                let scaled: i128 = session_bpm as i128 * mul as i128;
                let raw: i128 = crate::units::floor_div(
                    scaled + (src / 2) as i128,
                    src as i128,
                );
                return if raw < SPEED_MIN as i128 {
                    SPEED_MIN
                } else if raw > SPEED_MAX as i128 {
                    SPEED_MAX
                } else {
                    raw as i64
                };
            }
        }
    }
    clamp(mul, SPEED_MIN, SPEED_MAX)
}

impl AppModel {
    /// The invariant that every operation keeps.
    pub open spec fn wf(self) -> bool {
        &&& 0 <= self.live_bank < self.banks.len()
        &&& 0 <= self.edit_bank < self.banks.len()
        &&& self.seq.wf()
        &&& self.time_sig.valid()
        &&& self.phrase_cadence.fits(self.time_sig)
        &&& self.loop_cadence matches Some(c) ==> c.fits(self.time_sig)
        &&& self.seq.playing() == self.current
        &&& self.only_needed_decoders()
        &&& self.tap_times.len() <= 8
        &&& entry_ok(self.bpm_entry)
    }

    /// Only the playing and the armed cue have a decoder, at most one each.
    pub open spec fn only_needed_decoders(self) -> bool {
        &&& self.decoders.no_duplicates()
        &&& forall|i: int|
            0 <= i < self.decoders.len() ==> in_use(self.current, self.seq.armed())(
                #[trigger] self.decoders[i],
            )
    }

    /// The clip with an id.
    pub open spec fn clip(self, id: ClipId) -> Option<ClipModel> {
        first_of(self.clips, has_clip_id(id))
    }

    /// The name of a clip; empty when there is none.
    pub open spec fn clip_name(self, id: ClipId) -> Seq<char> {
        match self.clip(id) {
            Some(c) => c.name,
            None => seq![],
        }
    }

    /// The file of a clip.
    pub open spec fn clip_path(self, id: ClipId) -> Option<Seq<char>> {
        match self.clip(id) {
            Some(c) => c.file_path(),
            None => None,
        }
    }

    /// The source tempo of a clip.
    pub open spec fn clip_bpm(self, id: ClipId) -> Option<MicroBpm> {
        match self.clip(id) {
            Some(c) => c.bpm,
            None => None,
        }
    }

    /// A cue of the live bank.
    pub open spec fn live_cue(self, id: CueId) -> Option<CueModel> {
        self.banks[self.live_bank].cue(id)
    }

    /// A cue, whichever bank it is in.
    pub open spec fn any_cue(self, id: CueId) -> Option<CueModel> {
        match first_of(self.banks, holds(id)) {
            Some(b) => b.cue(id),
            None => None,
        }
    }

    /// Where a cue's playback starts: its in-point, nudged in advanced mode.
    pub open spec fn start_of(self, cue: CueModel) -> int {
        let nudge = if self.advanced && cue.start_nudge.on {
            cue.start_nudge.val as int
        } else {
            0
        };
        if saturated(cue.in_sec + nudge) < 0 {
            0
        } else {
            saturated(cue.in_sec + nudge)
        }
    }

    /// Gives a cue of the live bank a decoder, if it has none and its clip has a
    /// file.
    pub open spec fn with_decoder(self, id: CueId) -> Step {
        match self.live_cue(id) {
            Some(cue) if !self.decoders.contains(id) => match self.clip_path(cue.clip) {
                Some(path) => {
                    let in_sec = self.start_of(cue) as MicroSecs;
                    (
                        AppModel { decoders: self.decoders.push(id), ..self },
                        seq![
                            EffectModel::SpawnDecoder {
                                cue: id,
                                path,
                                in_sec,
                                out_sec: match cue.out_sec {
                                    Some(o) if o > in_sec => Some(o),
                                    _ => None,
                                },
                                speed: speed_of(
                                    self.advanced,
                                    self.last_bpm,
                                    cue,
                                    self.clip_bpm(cue.clip),
                                ) as Micro,
                            },
                        ],
                    )
                },
                None => (self, seq![]),
            },
            _ => (self, seq![]),
        }
    }

    /// Drops the decoders of cues that neither play nor are armed.
    pub open spec fn trimmed(self) -> Step {
        (
            AppModel { decoders: kept(self.decoders, in_use(self.current, self.seq.armed())), ..self },
            seq![
                EffectModel::KeepDecoders { playing: self.current, armed: self.seq.armed() },
            ],
        )
    }

    /// Whether a cut to a cue carries the playhead over.
    pub open spec fn preserves(self, id: CueId) -> bool {
        match self.live_cue(id) {
            Some(cue) => match cue.preserve {
                Some(p) => p,
                None => self.preserve_playhead,
            },
            None => self.preserve_playhead,
        }
    }

    /// Seeks a cue back to its start, if it has a decoder.
    pub open spec fn restart(self, id: CueId) -> Seq<EffectModel> {
        if self.decoders.contains(id) {
            seq![EffectModel::RestartDecoder(id)]
        } else {
            seq![]
        }
    }

    /// Carries out one event of the sequencer.
    pub open spec fn on_event(self, e: SequencerEvent) -> Step {
        match e {
            SequencerEvent::ArmDecoder(c) => self.with_decoder(c),
            SequencerEvent::SwapTo(c) => {
                let ready = self.with_decoder(c);
                let shown = AppModel { current: Some(c), ..ready.0 };
                let lean = shown.trimmed();
                let restart = if lean.0.preserves(c) {
                    seq![]
                } else {
                    lean.0.restart(c)
                };
                (AppModel { loop_prev: None, ..lean.0 }, ready.1 + lean.1 + restart)
            },
            SequencerEvent::DisarmDecoder => self.trimmed(),
        }
    }

    /// Carries out events of the sequencer in order.
    pub open spec fn on_events(self, events: Seq<SequencerEvent>) -> Step
        decreases events.len(),
    {
        if events.len() == 0 {
            (self, seq![])
        } else {
            let before = self.on_events(events.drop_last());
            then_step(before, before.0.on_event(events.last()))
        }
    }

    /// Takes over a sequencer step and carries out its events.
    pub open spec fn sequenced(self, step: (SeqModel, Seq<SequencerEvent>)) -> Step {
        AppModel { seq: step.0, ..self }.on_events(step.1)
    }
}

/// Events of the sequencer touch the decoders, the cue on display and the
/// re-loop tracker, and nothing else.
pub proof fn events_touch_only_playback(m: AppModel, events: Seq<SequencerEvent>)
    ensures
        m.on_events(events).0 == (AppModel {
            decoders: m.on_events(events).0.decoders,
            current: m.on_events(events).0.current,
            loop_prev: m.on_events(events).0.loop_prev,
            ..m
        }),
    decreases events.len(),
{
    if events.len() > 0 {
        events_touch_only_playback(m, events.drop_last());
    }
}

proof fn decoder_added(m: AppModel, id: CueId)
    requires
        m.decoders.no_duplicates(),
    ensures
        m.with_decoder(id).0 == (AppModel { decoders: m.with_decoder(id).0.decoders, ..m }),
        m.with_decoder(id).0.decoders.no_duplicates(),
        forall|i: int|
            0 <= i < m.with_decoder(id).0.decoders.len() ==> {
                ||| #[trigger] m.with_decoder(id).0.decoders[i] == id
                ||| m.decoders.contains(m.with_decoder(id).0.decoders[i])
            },
{
    let d = m.with_decoder(id).0.decoders;
    assert forall|i: int| 0 <= i < d.len() implies #[trigger] d[i] == id || m.decoders.contains(d[i]) by {
        if i < m.decoders.len() {
            assert(d[i] == m.decoders[i]);
        }
    }
    if d.len() > m.decoders.len() {
        assert forall|i: int, j: int| 0 <= i < d.len() && 0 <= j < d.len() && i != j implies d[i] != d[j] by {
            if i < m.decoders.len() && j < m.decoders.len() {
                assert(m.decoders[i] != m.decoders[j]);
            } else if i < m.decoders.len() {
                assert(m.decoders.contains(m.decoders[i]));
            } else {
                assert(m.decoders.contains(m.decoders[j]));
            }
        }
    }
}

proof fn decoders_trimmed(m: AppModel)
    requires
        m.decoders.no_duplicates(),
    ensures
        m.trimmed().0.only_needed_decoders(),
{
    crate::seqs::kept_satisfies(m.decoders, in_use(m.current, m.seq.armed()));
    crate::seqs::kept_no_duplicates(m.decoders, in_use(m.current, m.seq.armed()));
}

proof fn swapped(m: AppModel, c: CueId)
    requires
        m.decoders.no_duplicates(),
    ensures
        m.on_event(SequencerEvent::SwapTo(c)).0.current == Some(c),
        m.on_event(SequencerEvent::SwapTo(c)).0.only_needed_decoders(),
{
    decoder_added(m, c);
    let shown = AppModel { current: Some(c), ..m.with_decoder(c).0 };
    decoders_trimmed(shown);
    let after = m.on_event(SequencerEvent::SwapTo(c)).0;
    assert(after.decoders == shown.trimmed().0.decoders);
    assert(after.seq == shown.seq);
    assert forall|i: int| 0 <= i < after.decoders.len() implies in_use(after.current, after.seq.armed())(
        #[trigger] after.decoders[i],
    ) by {
        assert(in_use(shown.current, shown.seq.armed())(shown.trimmed().0.decoders[i]));
    }
}

/// After an orderly step of the sequencer the engine shows the cue that plays,
/// and only the playing and the armed cue have a decoder.
pub proof fn playback_follows_the_sequencer(m: AppModel, step: (SeqModel, Seq<SequencerEvent>))
    requires
        m.wf(),
        orderly(m.seq, step),
    ensures
        m.sequenced(step).0.current == step.0.playing(),
        m.sequenced(step).0.only_needed_decoders(),
        m.sequenced(step).0.wf(),
        m.sequenced(step).0 == (AppModel {
            seq: step.0,
            decoders: m.sequenced(step).0.decoders,
            current: m.sequenced(step).0.current,
            loop_prev: m.sequenced(step).0.loop_prev,
            ..m
        }),
{
    let start = AppModel { seq: step.0, ..m };
    let events = step.1;
    events_touch_only_playback(start, events);
    let none = Seq::<SequencerEvent>::empty();
    let after = m.sequenced(step).0;
    if events.len() == 0 {
        assert(events =~= none);
        assert(after == start);
        assert forall|i: int| 0 <= i < after.decoders.len() implies in_use(after.current, after.seq.armed())(
            #[trigger] after.decoders[i],
        ) by {
            assert(in_use(m.current, m.seq.armed())(m.decoders[i]));
        }
    } else {
        let first = events[0];
        assert(events.take(1) =~= seq![first]);
        assert(seq![first].drop_last() =~= none);
        assert(start.on_events(none) == (start, Seq::<EffectModel>::empty()));
        let mid = start.on_event(first).0;
        assert(start.on_events(seq![first]).0 == mid);
        match first {
            SequencerEvent::SwapTo(c) => {
                swapped(start, c);
                assert(events =~= seq![first]);
            },
            SequencerEvent::ArmDecoder(n) => {
                decoder_added(start, n);
                assert(events =~= seq![first]);
                assert forall|i: int| 0 <= i < after.decoders.len() implies in_use(
                    after.current,
                    after.seq.armed(),
                )(#[trigger] after.decoders[i]) by {
                    let d = start.with_decoder(n).0.decoders[i];
                    if d != n {
                        let k = m.decoders.index_of(d);
                        assert(in_use(m.current, m.seq.armed())(m.decoders[k]));
                    }
                }
            },
            SequencerEvent::DisarmDecoder => {
                decoders_trimmed(start);
                assert(mid.only_needed_decoders());
                if events.len() == 2 {
                    assert(events.drop_last() =~= seq![first]);
                    match events[1] {
                        SequencerEvent::SwapTo(c) => {
                            swapped(mid, c);
                        },
                        SequencerEvent::ArmDecoder(n) => {
                            decoder_added(mid, n);
                            assert forall|i: int| 0 <= i < after.decoders.len() implies in_use(
                                after.current,
                                after.seq.armed(),
                            )(#[trigger] after.decoders[i]) by {
                                let d = mid.with_decoder(n).0.decoders[i];
                                if d != n {
                                    let k = mid.decoders.index_of(d);
                                    assert(in_use(mid.current, mid.seq.armed())(mid.decoders[k]));
                                }
                            }
                        },
                        SequencerEvent::DisarmDecoder => {},
                    }
                } else {
                    assert(events =~= seq![first]);
                }
            },
        }
    }
}

/// The work listed so far, followed by more.
pub open spec fn listed_after(before: Seq<Effect>, more: Seq<EffectModel>) -> Seq<EffectModel> {
    views(before) + more
}

pub(crate) fn emit(fx: &mut Vec<Effect>, e: Effect)
    ensures
        views(final(fx)@) == listed_after(old(fx)@, seq![e@]),
{
    let ghost before = fx@;
    fx.push(e);
    proof {
        assert(views(fx@) =~= views(before) + seq![e@]);
    }
}

impl App {
    pub(crate) fn clip_position(&self, id: ClipId) -> (r: usize)
        ensures
            r <= self.clips@.len(),
            r == first_at(self@.clips, has_clip_id(id)),
    {
        let mut i: usize = 0;
        while i < self.clips.len() && self.clips[i].id != id
            invariant
                i <= self.clips@.len(),
                forall|j: int| 0 <= j < i ==> (#[trigger] self.clips@[j]).id != id,
            decreases self.clips@.len() - i,
        {
            i += 1;
        }
        proof {
            assert forall|j: int| 0 <= j < i implies !has_clip_id(id)(#[trigger] self@.clips[j]) by {
                assert(self.clips@[j].id != id);
            }
            first_at_is(self@.clips, has_clip_id(id), i as int);
        }
        i
    }

    fn clip(&self, id: ClipId) -> (r: Option<&Clip>)
        ensures
            match r {
                Some(c) => self@.clip(id) == Some(c@),
                None => self@.clip(id) is None,
            },
    {
        let i: usize = self.clip_position(id);
        if i < self.clips.len() {
            Some(&self.clips[i])
        } else {
            None
        }
    }

    /// The file a clip is read from.
    pub fn clip_path(&self, id: ClipId) -> (r: Option<String>)
        ensures
            view_opt(r) == self@.clip_path(id),
    {
        match self.clip(id) {
            Some(c) => match c.file_path() {
                Some(p) => Some(p.clone()),
                None => None,
            },
            None => None,
        }
    }

    /// The name of a clip; empty when there is none.
    pub fn clip_name(&self, id: ClipId) -> (r: String)
        ensures
            r@ == self@.clip_name(id),
    {
        match self.clip(id) {
            Some(c) => c.name.clone(),
            None => String::new(),
        }
    }

    /// The source tempo of a clip.
    pub fn clip_bpm(&self, id: ClipId) -> (r: Option<MicroBpm>)
        ensures
            r == self@.clip_bpm(id),
    {
        match self.clip(id) {
            Some(c) => c.bpm,
            None => None,
        }
    }

    /// A cue of the live bank.
    pub fn live_cue(&self, id: CueId) -> (r: Option<&Cue>)
        requires
            self.live_bank < self.banks@.len(),
        ensures
            match r {
                Some(c) => self@.live_cue(id) == Some(c@),
                None => self@.live_cue(id) is None,
            },
    {
        self.banks[self.live_bank].cue(id)
    }

    /// A cue, whichever bank it is in.
    pub fn any_cue(&self, id: CueId) -> (r: Option<&Cue>)
        ensures
            match r {
                Some(c) => self@.any_cue(id) == Some(c@),
                None => self@.any_cue(id) is None,
            },
    {
        let mut i: usize = 0;
        while i < self.banks.len()
            invariant
                i <= self.banks@.len(),
                forall|j: int| 0 <= j < i ==> !(#[trigger] self@.banks[j]).has(id),
            decreases self.banks@.len() - i,
        {
            if let Some(c) = self.banks[i].cue(id) {
                proof {
                    assert(self@.banks[i as int] == self.banks@[i as int]@);
                    first_at_is(self@.banks, holds(id), i as int);
                }
                return Some(c);
            }
            proof {
                assert(self@.banks[i as int] == self.banks@[i as int]@);
            }
            i += 1;
        }
        proof {
            first_at_is(self@.banks, holds(id), i as int);
        }
        None
    }

    /// A cue's effective playback speed.
    pub fn effective_speed(&self, cue: &Cue) -> (r: Micro)
        ensures
            r == speed_of(self.advanced, self.last_bpm, cue@, self@.clip_bpm(cue.clip)),
    {
        resolve_speed(self.advanced, self.last_bpm, cue, self.clip_bpm(cue.clip))
    }

    fn has_decoder(&self, id: CueId) -> (r: bool)
        ensures
            r == self@.decoders.contains(id),
    {
        let mut i: usize = 0;
        while i < self.decoders.len()
            invariant
                i <= self.decoders@.len(),
                forall|j: int| 0 <= j < i ==> #[trigger] self.decoders@[j] != id,
            decreases self.decoders@.len() - i,
        {
            if self.decoders[i] == id {
                proof {
                    assert(self@.decoders[i as int] == id);
                }
                return true;
            }
            i += 1;
        }
        false
    }

    pub(crate) fn ensure_decoder(&mut self, id: CueId, fx: &mut Vec<Effect>)
        requires
            old(self).live_bank < old(self).banks@.len(),
        ensures
            final(self)@ == old(self)@.with_decoder(id).0,
            views(final(fx)@) == listed_after(old(fx)@, old(self)@.with_decoder(id).1),
            final(self).live_bank < final(self).banks@.len(),
    {
        proof {
            assert(views(fx@) =~= listed_after(fx@, seq![]));
        }
        if self.has_decoder(id) {
            return;
        }
        let (clip, start, nudge, out, speed): (ClipId, i64, i64, Option<i64>, i64) = match self.live_cue(id) {
            Some(cue) => {
                let nudge: i64 = if self.advanced && cue.start_nudge.on {
                    cue.start_nudge.val
                } else {
                    0
                };
                (cue.clip, cue.in_sec, nudge, cue.out_sec, self.effective_speed(cue))
            },
            None => {
                return;
            },
        };
        let moved: i64 = saturate(start as i128 + nudge as i128);
        let in_sec: i64 = if moved < 0 {
            0
        } else {
            moved
        };
        let out_sec = match out {
            Some(o) => if o > in_sec {
                Some(o)
            } else {
                None
            },
            None => None,
        };
        if let Some(path) = self.clip_path(clip) {
            self.decoders.push(id);
            emit(fx, Effect::SpawnDecoder { cue: id, path, in_sec, out_sec, speed });
        }
    }

    pub(crate) fn retain_decoders(&mut self, fx: &mut Vec<Effect>)
        requires
            old(self).live_bank < old(self).banks@.len(),
        ensures
            final(self)@ == old(self)@.trimmed().0,
            views(final(fx)@) == listed_after(old(fx)@, old(self)@.trimmed().1),
            final(self).live_bank < final(self).banks@.len(),
    {
        let armed = self.sequencer.armed();
        let ghost p = in_use(self.current, armed);
        let mut left: Vec<CueId> = Vec::new();
        let mut i: usize = 0;
        while i < self.decoders.len()
            invariant
                i <= self.decoders@.len(),
                p == in_use(self.current, armed),
                left@ == kept(self.decoders@.take(i as int), p),
            decreases self.decoders@.len() - i,
        {
            let c: u32 = self.decoders[i];
            proof {
                assert(self.decoders@.take(i + 1).drop_last() =~= self.decoders@.take(i as int));
            }
            let playing = match self.current {
                Some(x) => x == c,
                None => false,
            };
            let next = match armed {
                Some(x) => x == c,
                None => false,
            };
            if playing || next {
                left.push(c);
            }
            i += 1;
        }
        proof {
            assert(self.decoders@.take(self.decoders@.len() as int) =~= self.decoders@);
        }
        self.decoders = left;
        emit(fx, Effect::KeepDecoders { playing: self.current, armed });
    }

    pub(crate) fn restart(&self, id: CueId, fx: &mut Vec<Effect>)
        ensures
            views(final(fx)@) == listed_after(old(fx)@, self@.restart(id)),
    {
        if self.has_decoder(id) {
            emit(fx, Effect::RestartDecoder(id));
        } else {
            proof {
                assert(views(fx@) =~= listed_after(fx@, seq![]));
            }
        }
    }

    fn apply_seq_event(&mut self, e: SequencerEvent, fx: &mut Vec<Effect>)
        requires
            old(self).live_bank < old(self).banks@.len(),
        ensures
            final(self)@ == old(self)@.on_event(e).0,
            views(final(fx)@) == listed_after(old(fx)@, old(self)@.on_event(e).1),
            final(self).live_bank < final(self).banks@.len(),
    {
        match e {
            SequencerEvent::ArmDecoder(c) => self.ensure_decoder(c, fx),
            SequencerEvent::SwapTo(c) => {
                self.ensure_decoder(c, fx);
                self.current = Some(c);
                self.retain_decoders(fx);
                let preserve = match self.live_cue(c) {
                    Some(cue) => match cue.preserve {
                        Some(p) => p,
                        None => self.preserve_playhead,
                    },
                    None => self.preserve_playhead,
                };
                if !preserve {
                    self.restart(c, fx);
                }
                self.loop_tracker.reset();
                proof {
                    assert(views(fx@) =~= listed_after(old(fx)@, old(self)@.on_event(e).1));
                }
            },
            SequencerEvent::DisarmDecoder => self.retain_decoders(fx),
        }
    }

    pub(crate) fn apply_seq_events(&mut self, events: &Vec<SequencerEvent>, fx: &mut Vec<Effect>)
        requires
            old(self).live_bank < old(self).banks@.len(),
        ensures
            final(self)@ == old(self)@.on_events(events@).0,
            views(final(fx)@) == listed_after(old(fx)@, old(self)@.on_events(events@).1),
            final(self).live_bank < final(self).banks@.len(),
    {
        let mut i: usize = 0;
        proof {
            assert(events@.take(0) =~= Seq::<SequencerEvent>::empty());
            assert(views(fx@) =~= listed_after(fx@, seq![]));
        }
        while i < events.len()
            invariant
                i <= events@.len(),
                self@ == old(self)@.on_events(events@.take(i as int)).0,
                views(fx@) == listed_after(old(fx)@, old(self)@.on_events(events@.take(i as int)).1),
                self.live_bank < self.banks@.len(),
            decreases events@.len() - i,
        {
            let ghost done = events@.take(i as int);
            proof {
                assert(events@.take(i + 1).drop_last() =~= done);
                assert(events@.take(i + 1).last() == events@[i as int]);
            }
            self.apply_seq_event(events[i], fx);
            proof {
                assert(views(fx@) =~= listed_after(old(fx)@, old(self)@.on_events(events@.take(i + 1)).1));
            }
            i += 1;
        }
        proof {
            assert(events@.take(events@.len() as int) =~= events@);
        }
    }
}

} // verus!
