//! The contract between input surfaces and the engine: what can be asked of
//! it, and the display state it publishes.

use vstd::prelude::*;

use crate::bank::{CueId, CueModel, Toggle};
use crate::isf::{IsfInput, IsfValue};
use crate::seqs::{first_at, first_at_bounds, first_at_is, first_of};
use crate::text::{same, views};
use crate::units::{Micro, MicroBeats, MicroBpm, MicroSecs, Single};

verus! {

/// Identifies a source clip in the pool.
pub type ClipId = u32;

/// Identifies a compiled shader pinned into the pool.
pub type ShaderId = u32;

/// Which shader runs at one position of a cue's effect chain.
///
/// `Builtin` carries the effect's stable name and `Isf` its file path; both
/// can be saved. `Pinned` is a pool id that only lives as long as the session.
/// `Live` is the shader being edited right now.
#[derive(Debug, PartialEq, Eq)]
pub enum SlotRef {
    Live,
    Builtin(String),
    Pinned(ShaderId),
    Isf(String),
}

/// The mathematical content of a [`SlotRef`].
pub enum SlotRefModel {
    Live,
    Builtin(Seq<char>),
    Pinned(ShaderId),
    Isf(Seq<char>),
}

impl View for SlotRef {
    type V = SlotRefModel;

    open spec fn view(&self) -> SlotRefModel {
        match self {
            SlotRef::Live => SlotRefModel::Live,
            SlotRef::Builtin(n) => SlotRefModel::Builtin(n@),
            SlotRef::Pinned(id) => SlotRefModel::Pinned(*id),
            SlotRef::Isf(p) => SlotRefModel::Isf(p@),
        }
    }
}

impl Clone for SlotRef {
    fn clone(&self) -> (r: Self)
        ensures
            r@ == self@,
    {
        match self {
            SlotRef::Live => SlotRef::Live,
            SlotRef::Builtin(n) => SlotRef::Builtin(n.clone()),
            SlotRef::Pinned(id) => SlotRef::Pinned(*id),
            SlotRef::Isf(p) => SlotRef::Isf(p.clone()),
        }
    }
}

/// One entry of a cue's effect chain: a shader and the effect inputs whose
/// value differs from the schema default.
#[derive(Debug, PartialEq)]
pub struct ChainSlot {
    pub shader: SlotRef,
    pub params: Vec<(String, IsfValue)>,
}

/// An effect input override: input name and value.
pub type ParamModel = (Seq<char>, IsfValue);

/// The mathematical content of a [`ChainSlot`].
pub struct ChainSlotModel {
    pub shader: SlotRefModel,
    pub params: Seq<ParamModel>,
}

/// The overrides of a slot, by input name and value.
pub open spec fn param_models(params: Seq<(String, IsfValue)>) -> Seq<ParamModel> {
    Seq::new(params.len(), |i: int| (params[i].0@, params[i].1))
}

impl View for ChainSlot {
    type V = ChainSlotModel;

    open spec fn view(&self) -> ChainSlotModel {
        ChainSlotModel { shader: self.shader@, params: param_models(self.params@) }
    }
}

/// Selects the overrides of the input called `name`.
pub open spec fn named(name: Seq<char>) -> spec_fn(ParamModel) -> bool {
    |p: ParamModel| p.0 == name
}

impl ChainSlotModel {
    /// A slot with every input at its default.
    pub open spec fn plain(shader: SlotRefModel) -> ChainSlotModel {
        ChainSlotModel { shader, params: seq![] }
    }

    /// The override of the input called `name`, if there is one.
    pub open spec fn param(self, name: Seq<char>) -> Option<IsfValue> {
        match first_of(self.params, named(name)) {
            Some(p) => Some(p.1),
            None => None,
        }
    }

    /// The slot with the input called `name` set to `value`: an existing
    /// override changes in place, a new one comes last.
    pub open spec fn with_param(self, name: Seq<char>, value: IsfValue) -> ChainSlotModel {
        let i = first_at(self.params, named(name));
        ChainSlotModel {
            params: if i < self.params.len() {
                self.params.update(i, (self.params[i].0, value))
            } else {
                self.params.push((name, value))
            },
            ..self
        }
    }
}

impl ChainSlot {
    /// A slot referencing `shader` with every input at its default.
    pub fn new(shader: SlotRef) -> (r: ChainSlot)
        ensures
            r@ == ChainSlotModel::plain(shader@),
    {
        let r = ChainSlot { shader, params: Vec::new() };
        proof {
            assert(r@.params =~= Seq::<ParamModel>::empty());
        }
        r
    }

    /// Where the override of `name` stands, or the number of overrides.
    fn param_index(&self, name: &str) -> (r: usize)
        ensures
            r == first_at(self@.params, named(name@)),
            r <= self.params@.len(),
    {
        let mut i: usize = 0;
        while i < self.params.len() && !same(self.params[i].0.as_str(), name)
            invariant
                i <= self.params@.len(),
                forall|j: int| 0 <= j < i ==> self.params@[j].0@ != name@,
            decreases self.params@.len() - i,
        {
            i += 1;
        }
        proof {
            first_at_is(self@.params, named(name@), i as int);
        }
        i
    }

    /// The value of an effect input on this slot, if overridden.
    pub fn param(&self, name: &str) -> (r: Option<&IsfValue>)
        ensures
            match r {
                Some(v) => self@.param(name@) == Some(*v),
                None => self@.param(name@) is None,
            },
    {
        let i: usize = self.param_index(name);
        if i < self.params.len() {
            Some(&self.params[i].1)
        } else {
            None
        }
    }

    /// Sets (or replaces) an effect input override on this slot.
    pub fn set_param(&mut self, name: String, value: IsfValue)
        ensures
            final(self)@ == old(self)@.with_param(name@, value),
    {
        let ghost before = self@;
        let i: usize = self.param_index(name.as_str());
        if i < self.params.len() {
            let kept = self.params[i].0.clone();
            self.params[i] = (kept, value);
        } else {
            self.params.push((name, value));
        }
        proof {
            assert(self@.params =~= before.with_param(name@, value).params);
        }
    }
}

impl Clone for ChainSlot {
    fn clone(&self) -> (r: Self)
        ensures
            r@ == self@,
    {
        let mut params: Vec<(String, IsfValue)> = Vec::new();
        let mut i: usize = 0;
        while i < self.params.len()
            invariant
                i <= self.params@.len(),
                params@.len() == i,
                forall|j: int| 0 <= j < i ==> #[trigger] params@[j].0@ == self.params@[j].0@ && params@[j].1 == self.params@[j].1,
            decreases self.params@.len() - i,
        {
            params.push((self.params[i].0.clone(), self.params[i].1));
            i += 1;
        }
        let r = ChainSlot { shader: self.shader.clone(), params };
        proof {
            assert(r@.params =~= self@.params);
        }
        r
    }
}

/// A copy of an effect chain.
pub fn chain_copy(chain: &Vec<ChainSlot>) -> (r: Vec<ChainSlot>)
    ensures
        views(r@) == views(chain@),
{
    let mut r: Vec<ChainSlot> = Vec::new();
    let mut i: usize = 0;
    while i < chain.len()
        invariant
            i <= chain@.len(),
            r@.len() == i,
            forall|j: int| 0 <= j < i ==> #[trigger] r@[j]@ == chain@[j]@,
        decreases chain@.len() - i,
    {
        r.push(chain[i].clone());
        i += 1;
    }
    proof {
        assert(views(r@) =~= views(chain@));
    }
    r
}

/// An override just set is the one read back, and no other input changes.
pub proof fn set_param_is_read_back(slot: ChainSlotModel, name: Seq<char>, other: Seq<char>, value: IsfValue)
    ensures
        slot.with_param(name, value).param(name) == Some(value),
        other != name ==> slot.with_param(name, value).param(other) == slot.param(other),
{
    let after = slot.with_param(name, value);
    let i = first_at(slot.params, named(name));
    first_at_bounds(slot.params, named(name));
    assert(after.params[i].0 == name);
    assert forall|j: int| 0 <= j < i implies !named(name)(#[trigger] after.params[j]) by {
        assert(!named(name)(slot.params[j]));
    }
    first_at_is(after.params, named(name), i);
    if other != name {
        let k = first_at(slot.params, named(other));
        first_at_bounds(slot.params, named(other));
        assert forall|j: int| 0 <= j < k implies !named(other)(#[trigger] after.params[j]) by {
            assert(!named(other)(slot.params[j]));
        }
        if k < slot.params.len() {
            assert(k != i);
            first_at_is(after.params, named(other), k);
        } else if i < slot.params.len() {
            first_at_is(after.params, named(other), k);
        } else {
            first_at_is(after.params, named(other), k + 1);
        }
    }
}

/// Ticks per beat on the re-loop grid: an eighth note is 16 ticks and a bar of
/// 4/4 is 128.
pub const LOOP_TICKS_PER_BEAT: u32 = 32;

/// Millionths of a beat in one tick.
pub const MICRO_BEATS_PER_TICK: i64 = 31_250;

/// Musical time signature: `num` notes of `1/den` each per bar. Tempo always
/// counts quarter notes, so the signature only changes the bar length.
#[derive(Clone, Copy, Debug, PartialEq, Eq, Structural)]
pub struct TimeSig {
    pub num: u8,
    pub den: u8,
}

/// The denominators on offer. A bar is a whole number of ticks for each.
pub const TIME_SIG_DENS: [u8; 5] = [1, 2, 4, 8, 16];

/// Whether `den` is one of [`TIME_SIG_DENS`].
pub open spec fn allowed_den(den: int) -> bool {
    den == 1 || den == 2 || den == 4 || den == 8 || den == 16
}

/// The distance between two denominators.
pub open spec fn den_gap(a: int, b: int) -> int {
    if a < b {
        b - a
    } else {
        a - b
    }
}

/// The denominator on offer nearest to `d`; the smaller on a tie.
pub open spec fn nearest_den(d: int) -> int {
    if d <= 1 {
        1
    } else if d <= 3 {
        2
    } else if d <= 6 {
        4
    } else if d <= 12 {
        8
    } else {
        16
    }
}

impl TimeSig {
    /// The nearest valid signature.
    pub open spec fn spec_sanitized(self) -> TimeSig {
        TimeSig {
            num: if self.num == 0 {
                1
            } else {
                self.num
            },
            den: nearest_den(self.den as int) as u8,
        }
    }

    /// At least one note per bar, and a denominator on offer.
    pub open spec fn valid(self) -> bool {
        self.num >= 1 && allowed_den(self.den as int)
    }

    /// Ticks per bar.
    pub open spec fn spec_bar_ticks(self) -> int {
        self.num * (128int / self.den as int)
    }

    /// Beats (quarter notes) per bar: `num * 4 / den`. Fractional for some
    /// signatures: 7/8 is 3.5 beats.
    pub fn quantum(self) -> (r: MicroBeats)
        requires
            self.den > 0,
        ensures
            r == self.num * 4_000_000 / self.den as int,
            self.valid() ==> r > 0,
    {
        let notes: i64 = self.num as i64 * 4_000_000;
        let r: i64 = notes / self.den as i64;
        proof {
            if self.valid() {
                let n = self.num as int * 4_000_000;
                assert(n / 1 >= 1 && n / 2 >= 1 && n / 4 >= 1 && n / 8 >= 1 && n / 16 >= 1);
            }
        }
        r
    }

    /// Ticks per bar, a whole number for every denominator on offer.
    pub fn bar_ticks(self) -> (r: u32)
        requires
            self.den > 0,
        ensures
            r == self.spec_bar_ticks(),
            r <= 32_640,
    {
        let per_note: u32 = 4 * LOOP_TICKS_PER_BEAT / self.den as u32;
        proof {
            let d = self.den as int;
            assert(0 <= 128int / d <= 128) by (nonlinear_arith)
                requires
                    d > 0,
            ;
            let p = per_note as int;
            let n = self.num as int;
            assert(0 <= n * p <= 255 * 128) by (nonlinear_arith)
                requires
                    0 <= n <= 255,
                    0 <= p <= 128,
            ;
        }
        self.num as u32 * per_note
    }

    /// The nearest valid signature: at least one note per bar, and the
    /// denominator snapped to the nearest on offer (the smaller on a tie).
    pub fn sanitized(self) -> (r: TimeSig)
        ensures
            r == self.spec_sanitized(),
            r.valid(),
    {
        let num: u8 = if self.num == 0 {
            1
        } else {
            self.num
        };
        let mut best: usize = 0;
        let mut i: usize = 1;
        while i < 5
            invariant
                1 <= i <= 5,
                best < i,
                forall|j: int| 0 <= j < i ==> {
                    ||| den_gap(TIME_SIG_DENS[best as int] as int, self.den as int) < den_gap(#[trigger] TIME_SIG_DENS[j] as int, self.den as int)
                    ||| den_gap(TIME_SIG_DENS[best as int] as int, self.den as int) == den_gap(TIME_SIG_DENS[j] as int, self.den as int) && best <= j
                },
            decreases 5 - i,
        {
            if gap(TIME_SIG_DENS[i], self.den) < gap(TIME_SIG_DENS[best], self.den) {
                best = i;
            }
            i += 1;
        }
        let r = TimeSig { num, den: TIME_SIG_DENS[best] };
        proof {
            assert(TIME_SIG_DENS[0] == 1 && TIME_SIG_DENS[1] == 2 && TIME_SIG_DENS[2] == 4
                && TIME_SIG_DENS[3] == 8 && TIME_SIG_DENS[4] == 16);
        }
        r
    }
}

fn gap(a: u8, b: u8) -> (r: u8)
    ensures
        r == den_gap(a as int, b as int),
{
    if a < b {
        b - a
    } else {
        a - b
    }
}

impl Default for TimeSig {
    fn default() -> (r: Self)
        ensures
            r == (TimeSig { num: 4, den: 4 }),
    {
        TimeSig { num: 4, den: 4 }
    }
}

/// A musical length for the auto-advance and re-loop grids: an absolute note
/// value, or bars of the current [`TimeSig`], which follow the signature when
/// it changes.
#[derive(Clone, Copy, Debug, PartialEq, Eq, Structural)]
pub enum Cadence {
    /// Absolute length in ticks.
    Note(u32),
    /// Whole bars of the current time signature.
    Bars(u32),
}

impl Cadence {
    /// The length in ticks under a signature.
    pub open spec fn spec_ticks(self, ts: TimeSig) -> int {
        match self {
            Cadence::Note(t) => t as int,
            Cadence::Bars(n) => n * ts.spec_bar_ticks(),
        }
    }

    /// Whether the length can be counted in ticks under a signature.
    pub open spec fn fits(self, ts: TimeSig) -> bool {
        self.spec_ticks(ts) <= u32::MAX
    }

    /// Whether the length can be counted in ticks under a signature.
    pub fn is_countable(self, ts: TimeSig) -> (r: bool)
        requires
            self is Bars ==> ts.den > 0,
        ensures
            r == self.fits(ts),
    {
        match self {
            Cadence::Note(_) => true,
            Cadence::Bars(n) => {
                let bar: u32 = ts.bar_ticks();
                assert(0 <= n * bar <= u32::MAX * u32::MAX) by (nonlinear_arith);
                n as u64 * bar as u64 <= u32::MAX as u64
            },
        }
    }

    /// Resolves to ticks against a time signature.
    pub fn ticks(self, ts: TimeSig) -> (r: u32)
        requires
            self is Bars ==> ts.den > 0,
            self.fits(ts),
        ensures
            r == self.spec_ticks(ts),
    {
        match self {
            Cadence::Note(t) => t,
            Cadence::Bars(n) => {
                let bar: u32 = ts.bar_ticks();
                assert(0 <= n * bar) by (nonlinear_arith);
                n * bar
            },
        }
    }

    /// Resolves to beats (quarter notes) against a time signature.
    pub fn beats(self, ts: TimeSig) -> (r: MicroBeats)
        requires
            self is Bars ==> ts.den > 0,
            self.fits(ts),
        ensures
            r == self.spec_ticks(ts) * MICRO_BEATS_PER_TICK,
            r >= 0,
    {
        self.ticks(ts) as i64 * MICRO_BEATS_PER_TICK
    }
}

impl Default for Cadence {
    /// Four bars: sixteen beats of 4/4.
    fn default() -> (r: Self)
        ensures
            r == Cadence::Bars(4),
    {
        Cadence::Bars(4)
    }
}

/// A sanitised signature is valid, keeps a valid one as it is, and has the
/// denominator on offer that is nearest to the one asked for.
pub proof fn sanitizing_finds_the_nearest(ts: TimeSig, d: int)
    ensures
        ts.spec_sanitized().valid(),
        ts.valid() ==> ts.spec_sanitized() == ts,
        allowed_den(d) ==> {
            let found = ts.spec_sanitized().den as int;
            let gap = den_gap(found, ts.den as int);
            gap < den_gap(d, ts.den as int) || gap == den_gap(d, ts.den as int) && found <= d
        },
{
}

/// A note value is its own length under every signature; bars are counted:
/// none is no length, one is the length of a bar, and lengths add up.
pub proof fn cadences_count_bars(ts: TimeSig, t: u32, a: u32, b: u32)
    requires
        a + b <= u32::MAX,
    ensures
        Cadence::Note(t).spec_ticks(ts) == t,
        Cadence::Bars(0).spec_ticks(ts) == 0,
        Cadence::Bars(1).spec_ticks(ts) == ts.spec_bar_ticks(),
        Cadence::Bars((a + b) as u32).spec_ticks(ts) == Cadence::Bars(a).spec_ticks(ts) + Cadence::Bars(b).spec_ticks(
            ts,
        ),
{
    let bar = ts.spec_bar_ticks() as int;
    assert(0 * bar == 0 && 1 * bar == bar && (a + b) * bar == a * bar + b * bar) by (nonlinear_arith);
}

/// A bar holds a whole number of ticks under every valid signature, and ticks
/// and beats measure the same length.
pub proof fn bar_ticks_measure_the_quantum(ts: TimeSig)
    requires
        ts.valid(),
    ensures
        ts.spec_bar_ticks() * ts.den == ts.num * 4 * LOOP_TICKS_PER_BEAT,
        ts.spec_bar_ticks() * MICRO_BEATS_PER_TICK == ts.num * 4_000_000 / ts.den as int,
        ts.spec_bar_ticks() > 0,
{
    let n = ts.num as int;
    let d = ts.den as int;
    let per = 128int / d;
    assert(128int / 1 == 128 && 128int / 2 == 64 && 128int / 4 == 32 && 128int / 8 == 16 && 128int / 16
        == 8);
    assert(d == 1 && per == 128 || d == 2 && per == 64 || d == 4 && per == 32 || d == 8 && per == 16 || d
        == 16 && per == 8);
    assert(n * per * d == n * 128) by (nonlinear_arith)
        requires
            per * d == 128,
    ;
    assert(n * per > 0) by (nonlinear_arith)
        requires
            n >= 1,
            per >= 1,
    ;
    assert(n * 4_000_000 == n * per * 31_250 * d) by (nonlinear_arith)
        requires
            per * d == 128,
    ;
    vstd::arithmetic::div_mod::lemma_div_by_multiple(n * per * 31_250, d);
}

/// A note value is the same length under every signature; a length in bars is
/// proportional to the bar.
pub proof fn note_cadence_ignores_the_signature(t: u32, n: u32, a: TimeSig, b: TimeSig)
    ensures
        Cadence::Note(t).spec_ticks(a) == Cadence::Note(t).spec_ticks(b),
        Cadence::Bars(n).spec_ticks(a) == n * a.spec_bar_ticks(),
{
}

/// Which clock drives the beat grid.
#[derive(Clone, Copy, Debug, PartialEq, Eq, Structural)]
pub enum SyncKind {
    Internal,
    Link,
}

impl Default for SyncKind {
    fn default() -> (r: Self)
        ensures
            r == SyncKind::Internal,
    {
        SyncKind::Internal
    }
}

/// A clip or cue's live-playback role.
#[derive(Clone, Copy, Debug, PartialEq, Eq, Structural)]
pub enum ClipRole {
    /// Neither on screen nor armed.
    Idle,
    Playing,
    Armed,
}

/// One advanced per-cue knob; lengths are in ticks.
#[derive(Clone, Copy, Debug, PartialEq, Eq, Structural)]
pub enum CueParam {
    /// Length that the cue plays before the rotation advances; absent stands for
    /// the phrase length.
    Dwell(Option<u32>),
    /// Re-loop grid; absent inherits the global grid.
    Loop(Option<u32>),
    LoopPhase(Toggle<i32>),
    StartNudge(Toggle<MicroSecs>),
    /// Length that the previous cue is held before this one cuts in.
    TrigDelay(Toggle<u32>),
    /// Source tempo; absent inherits the clip's.
    Bpm(Option<MicroBpm>),
    BpmSync(bool),
    SpeedMul(Toggle<Micro>),
}

/// Everything an input surface can ask of the engine. Cue edits aim at the
/// edit bank.
#[derive(Debug)]
pub enum Command {
    SetBpm(MicroBpm),
    BpmDelta(MicroBpm),
    /// Change of tempo as a ratio.
    NudgeBpm(Micro),
    /// Snap the downbeat to now, at the same tempo.
    TapDownbeat,
    /// Derive the tempo from the intervals between taps.
    TapTempo,
    /// Reset the beat grid to its origin.
    SoftReset,
    /// Soft reset, and back to the first cue from its start.
    HardReset,
    SetSyncSource(SyncKind),
    SetTimeSig(TimeSig),
    SetPhraseCadence(Cadence),
    /// Forced re-loop grid; absent means loop at the clip's end only.
    SetLoopCadence(Option<Cadence>),
    /// Whether a cut carries the playhead over.
    SetPreservePlayhead(bool),
    ToggleClipActive(ClipId),
    AddCue(ClipId),
    RemoveCue(CueId),
    SelectCue(Option<CueId>),
    SetCueIn(CueId, MicroSecs),
    SetCueOut(CueId, Option<MicroSecs>),
    SetCueInToPlayhead(CueId),
    SetCueOutToPlayhead(CueId),
    SetCuePreserve(CueId, Option<bool>),
    SetCueChain(CueId, Vec<ChainSlot>),
    /// Set one input of one effect, leaving the rest of the chain alone.
    SetChainParam { cue: CueId, slot: usize, name: String, value: IsfValue },
    /// Compile an ISF file and append it to the selected cue's chain.
    LoadIsf(String),
    SetCueParam(CueId, CueParam),
    /// Move a cue to a position in the edit bank.
    MoveCue(CueId, usize),
    SetClipBpm(ClipId, Option<MicroBpm>),
    SetAdvancedMode(bool),
    AddBank,
    SetLiveBank(usize),
    /// Step the live bank, wrapping.
    CycleLiveBank(i32),
    SetEditBank(usize),
    /// Pin the live shader into the pool.
    CaptureShader,
    RemoveShader(ShaderId),
    /// Replace the pool by one directory's clips.
    SetClipDir(String),
    /// Append a directory's clips as another clip bank.
    AddClipDirAsBank(String),
    SetActiveClipBank(usize),
    SetShaderPath(String),
    SetAudioDevice(Option<String>),
    ToggleFullscreen,
    /// Save where the session was loaded from, or ask where.
    SaveProject,
    SaveProjectAs,
    SaveProjectTo(String),
    Quit,
}

/// One clip of the pool as it is shown.
#[derive(Debug)]
pub struct ClipEntry {
    pub id: ClipId,
    pub name: String,
    /// Whether the live bank has a cue for it.
    pub active: bool,
    pub role: ClipRole,
    pub has_thumb: bool,
    pub bpm: Option<MicroBpm>,
    /// The clip bank this entry is shown under.
    pub bank: usize,
}

/// The mathematical content of a [`ClipEntry`].
pub struct ClipEntryModel {
    pub id: ClipId,
    pub name: Seq<char>,
    pub active: bool,
    pub role: ClipRole,
    pub has_thumb: bool,
    pub bpm: Option<MicroBpm>,
    pub bank: usize,
}

impl View for ClipEntry {
    type V = ClipEntryModel;

    open spec fn view(&self) -> ClipEntryModel {
        ClipEntryModel {
            id: self.id,
            name: self.name@,
            active: self.active,
            role: self.role,
            has_thumb: self.has_thumb,
            bpm: self.bpm,
            bank: self.bank,
        }
    }
}

/// A clip bank as the bar above the pool shows it.
#[derive(Debug)]
pub struct ClipBankView {
    pub name: String,
    pub clip_count: usize,
}

/// A cue bank as the bank bar shows it.
#[derive(Debug)]
pub struct BankView {
    pub name: String,
    pub cue_count: usize,
}

/// A pool shader as the pickers show it.
#[derive(Debug)]
pub struct ShaderPoolView {
    pub id: ShaderId,
    pub name: String,
    /// A bundled effect, which goes by its name and can be saved.
    pub builtin: bool,
    /// Input schema; empty for shaders without one.
    pub inputs: Vec<IsfInput>,
}

/// One cue of the edit bank as it is shown.
#[derive(Debug)]
pub struct CueView {
    pub id: CueId,
    pub clip: ClipId,
    pub name: String,
    pub in_sec: MicroSecs,
    pub out_sec: Option<MicroSecs>,
    pub preserve: Option<bool>,
    pub chain: Vec<ChainSlot>,
    pub role: ClipRole,
    pub has_thumb: bool,
    pub dwell: Option<u32>,
    pub loop_len: Option<u32>,
    pub loop_phase: Toggle<i32>,
    pub start_nudge: Toggle<MicroSecs>,
    pub trig_delay: Toggle<u32>,
    /// The cue's own source tempo.
    pub bpm: Option<MicroBpm>,
    /// The source clip's tempo, which the cue inherits.
    pub clip_bpm: Option<MicroBpm>,
    pub bpm_sync_on: bool,
    pub speed_mul: Toggle<Micro>,
    /// Effective playback speed.
    pub speed: Micro,
}

/// The mathematical content of a [`CueView`]: the cue, and what is shown with
/// it.
pub struct CueViewModel {
    pub cue: CueModel,
    pub role: ClipRole,
    pub has_thumb: bool,
    pub clip_bpm: Option<MicroBpm>,
    pub speed: Micro,
}

impl View for CueView {
    type V = CueViewModel;

    open spec fn view(&self) -> CueViewModel {
        CueViewModel {
            cue: CueModel {
                id: self.id,
                clip: self.clip,
                name: self.name@,
                in_sec: self.in_sec,
                out_sec: self.out_sec,
                preserve: self.preserve,
                chain: views(self.chain@),
                dwell: self.dwell,
                loop_len: self.loop_len,
                loop_phase: self.loop_phase,
                start_nudge: self.start_nudge,
                trig_delay: self.trig_delay,
                bpm: self.bpm,
                bpm_sync_on: self.bpm_sync_on,
                speed_mul: self.speed_mul,
            },
            role: self.role,
            has_thumb: self.has_thumb,
            clip_bpm: self.clip_bpm,
            speed: self.speed,
        }
    }
}

/// What the engine publishes for the control surface each tick.
#[derive(Debug)]
pub struct UiMirror {
    pub bpm: MicroBpm,
    /// Digits of a tempo being typed.
    pub bpm_entry: Option<String>,
    pub beat: MicroBeats,
    pub phase: MicroBeats,
    pub quantum: MicroBeats,
    pub time_sig: TimeSig,
    pub phrase_cadence: Cadence,
    pub loop_cadence: Option<Cadence>,
    pub bar_in_phrase: u32,
    pub bars_per_phrase: u32,
    pub phrase_beats: MicroBeats,
    /// Re-loop grid in ticks; absent means loop at the clip's end only.
    pub loop_len: Option<u32>,
    pub preserve_playhead: bool,
    pub advanced: bool,
    pub sync: Option<SyncKind>,
    pub peers: u64,
    pub can_set_tempo: bool,
    pub can_set_phase: bool,
    pub audio_devices: Vec<String>,
    pub current_device: Option<String>,
    pub audio_error: Option<String>,
    pub shader_name: Option<String>,
    pub shader_error: Option<String>,
    /// The directory of the clip bank on show.
    pub clip_dir: Option<String>,
    pub clip_banks: Vec<ClipBankView>,
    pub active_clip_bank: usize,
    /// The clips of the clip bank on show.
    pub clips: Vec<ClipEntry>,
    pub banks: Vec<BankView>,
    pub live_bank: usize,
    pub edit_bank: usize,
    /// The cues of the edit bank.
    pub cues: Vec<CueView>,
    pub selected_cue: Option<CueId>,
    pub shader_pool: Vec<ShaderPoolView>,
    pub playhead_sec: MicroSecs,
    /// Perceptual frequency bands.
    pub levels: Vec<Single>,
    /// Linear spectrum, one byte per bin.
    pub spectrum_linear: Vec<u8>,
    pub level: Single,
    pub fullscreen: bool,
}

} // verus!
