//! The project save format (`.viproj`).
//!
//! The types that are written to disk are separate from the runtime types: the
//! file owns a flat clip-id space and holds a switched-off knob as an absent
//! value, so the format can change without the engine and the other way round.

use std::collections::HashMap;

use vstd::prelude::*;
use vstd::string::*;

use crate::bank::{Bank, BankModel, Cue, CueId, CueModel, Toggle};
use crate::clippool::{Clip, ClipBank, ClipBankModel, ClipModel, ClipSource, ClipSourceModel};
use crate::commands::{
    param_models, Cadence, ChainSlot, ChainSlotModel, ClipId, ParamModel, SlotRef, SlotRefModel,
    TimeSig, LOOP_TICKS_PER_BEAT,
};
use crate::isf::{IsfValue, Point2, Rgba};
use crate::paths::{
    absolute, is_slash, join, joined_path, lead, names, names_of_join, parts, relative_to, slashed, some_part,
    strip_prefix, tail_after, tail_is_relative, tail_of_join, trimmed,
};
use crate::seqs::{first_at_is, first_of};
use crate::text::{chars_of, same, view_opt, views};
use crate::units::{Double, Micro, MicroBeats, MicroBpm, MicroSecs, Single, MICRO};

verus! {

/// Version written into new files; older ones go through [`migrate`].
pub const FORMAT_VERSION: u32 = 1;

/// A cadence as it is saved.
#[derive(Clone, Copy, Debug, PartialEq, Eq, Structural)]
pub enum CadenceSpec {
    Note(u32),
    Bars(u32),
}

impl From<Cadence> for CadenceSpec {
    fn from(c: Cadence) -> (r: Self) {
        match c {
            Cadence::Note(t) => CadenceSpec::Note(t),
            Cadence::Bars(n) => CadenceSpec::Bars(n),
        }
    }
}

impl vstd::std_specs::convert::FromSpecImpl<Cadence> for CadenceSpec {
    open spec fn obeys_from_spec() -> bool {
        true
    }

    open spec fn from_spec(c: Cadence) -> Self {
        saved_cadence(c)
    }
}

impl From<CadenceSpec> for Cadence {
    fn from(c: CadenceSpec) -> (r: Self) {
        match c {
            CadenceSpec::Note(t) => Cadence::Note(t),
            CadenceSpec::Bars(n) => Cadence::Bars(n),
        }
    }
}

impl vstd::std_specs::convert::FromSpecImpl<CadenceSpec> for Cadence {
    open spec fn obeys_from_spec() -> bool {
        true
    }

    open spec fn from_spec(c: CadenceSpec) -> Self {
        loaded_cadence(c)
    }
}

/// How a cadence is saved.
pub open spec fn saved_cadence(c: Cadence) -> CadenceSpec {
    match c {
        Cadence::Note(t) => CadenceSpec::Note(t),
        Cadence::Bars(n) => CadenceSpec::Bars(n),
    }
}

/// The cadence a saved one stands for.
pub open spec fn loaded_cadence(c: CadenceSpec) -> Cadence {
    match c {
        CadenceSpec::Note(t) => Cadence::Note(t),
        CadenceSpec::Bars(n) => Cadence::Bars(n),
    }
}

/// Saving a cadence loses nothing.
pub proof fn cadences_survive_saving(c: Cadence, s: CadenceSpec)
    ensures
        loaded_cadence(saved_cadence(c)) == c,
        saved_cadence(loaded_cadence(s)) == s,
{
}

/// The sync source as it is saved.
#[derive(Clone, Copy, Debug, PartialEq, Eq, Structural)]
pub enum SyncSpec {
    Internal,
    Link,
}

impl Default for SyncSpec {
    fn default() -> (r: Self)
        ensures
            r == SyncSpec::Internal,
    {
        SyncSpec::Internal
    }
}

/// Session-wide playback defaults.
///
/// `quantum`, `phrase_len` and `loop_len` are what a file without a time
/// signature resolves through: `ts_num == 0` marks such a file, and an absent
/// `phrase_cadence` or an unset `loop_cadence_set` means that the cadence is
/// derived from those fields.
#[derive(Debug)]
pub struct SessionDefaults {
    pub bpm: MicroBpm,
    pub quantum: MicroBeats,
    pub phrase_len: u32,
    pub sync: SyncSpec,
    pub preserve_playhead: bool,
    /// Forced re-loop grid in ticks; absent means loop at the end only.
    pub loop_len: Option<u32>,
    pub advanced: bool,
    /// Time signature numerator; zero when none was written.
    pub ts_num: u8,
    pub ts_den: u8,
    pub phrase_cadence: Option<CadenceSpec>,
    /// Whether `loop_cadence` counts; it may still be absent, which means off.
    pub loop_cadence_set: bool,
    pub loop_cadence: Option<CadenceSpec>,
    /// The live shader file.
    pub shader_path: Option<String>,
}

/// The mathematical content of [`SessionDefaults`].
pub struct SessionDefaultsModel {
    pub bpm: MicroBpm,
    pub quantum: MicroBeats,
    pub phrase_len: u32,
    pub sync: SyncSpec,
    pub preserve_playhead: bool,
    pub loop_len: Option<u32>,
    pub advanced: bool,
    pub ts_num: u8,
    pub ts_den: u8,
    pub phrase_cadence: Option<CadenceSpec>,
    pub loop_cadence_set: bool,
    pub loop_cadence: Option<CadenceSpec>,
    pub shader_path: Option<Seq<char>>,
}

impl View for SessionDefaults {
    type V = SessionDefaultsModel;

    open spec fn view(&self) -> SessionDefaultsModel {
        SessionDefaultsModel {
            bpm: self.bpm,
            quantum: self.quantum,
            phrase_len: self.phrase_len,
            sync: self.sync,
            preserve_playhead: self.preserve_playhead,
            loop_len: self.loop_len,
            advanced: self.advanced,
            ts_num: self.ts_num,
            ts_den: self.ts_den,
            phrase_cadence: self.phrase_cadence,
            loop_cadence_set: self.loop_cadence_set,
            loop_cadence: self.loop_cadence,
            shader_path: view_opt(self.shader_path),
        }
    }
}

impl SessionDefaultsModel {
    /// The nearest valid signature to the one written, or 4/4 where none was.
    pub open spec fn time_sig(self) -> TimeSig {
        if self.ts_num > 0 {
            TimeSig {
                num: self.ts_num,
                den: if self.ts_den == 0 {
                    1
                } else {
                    self.ts_den
                },
            }.spec_sanitized()
        } else {
            TimeSig { num: 4, den: 4 }
        }
    }

    /// The phrase length a file without a cadence plays at.
    pub open spec fn phrase_cadence(self) -> Cadence {
        match self.phrase_cadence {
            Some(c) => loaded_cadence(c),
            None => Cadence::Note(
                ((if self.phrase_len == 0 { 1 } else { self.phrase_len as int }) * LOOP_TICKS_PER_BEAT) as u32,
            ),
        }
    }

    /// The re-loop cadence; absent means loop at the end only.
    pub open spec fn loop_cadence(self) -> Option<Cadence> {
        if self.loop_cadence_set {
            match self.loop_cadence {
                Some(c) => Some(loaded_cadence(c)),
                None => None,
            }
        } else {
            match self.loop_len {
                Some(t) => Some(Cadence::Note(t)),
                None => None,
            }
        }
    }
}

impl SessionDefaults {
    /// The time signature: the nearest valid one to the one written, or 4/4
    /// where none was.
    pub fn time_sig(&self) -> (r: TimeSig)
        ensures
            r == self@.time_sig(),
            r.valid(),
    {
        if self.ts_num > 0 {
            let den: u8 = if self.ts_den == 0 {
                1
            } else {
                self.ts_den
            };
            TimeSig { num: self.ts_num, den }.sanitized()
        } else {
            TimeSig { num: 4, den: 4 }
        }
    }

    /// The length between automatic transitions.
    pub fn phrase_cadence(&self) -> (r: Cadence)
        requires
            self.phrase_cadence is None ==> self.phrase_len * LOOP_TICKS_PER_BEAT <= u32::MAX,
        ensures
            r == self@.phrase_cadence(),
    {
        match self.phrase_cadence {
            Some(c) => Cadence::from(c),
            None => {
                let beats: u32 = if self.phrase_len == 0 {
                    1
                } else {
                    self.phrase_len
                };
                Cadence::Note(beats * LOOP_TICKS_PER_BEAT)
            },
        }
    }

    /// The re-loop cadence; absent means loop at the end only.
    pub fn loop_cadence(&self) -> (r: Option<Cadence>)
        ensures
            r == self@.loop_cadence(),
    {
        if self.loop_cadence_set {
            match self.loop_cadence {
                Some(c) => Some(Cadence::from(c)),
                None => None,
            }
        } else {
            match self.loop_len {
                Some(t) => Some(Cadence::Note(t)),
                None => None,
            }
        }
    }
}

/// How a baked clip was carved out of its source. `out_frame` is exclusive.
#[derive(Debug, PartialEq)]
pub struct SpanProvenance {
    pub original_path: String,
    pub in_frame: u64,
    pub out_frame: u64,
    pub in_sec: Double,
    pub out_sec: Double,
}

/// The mathematical content of a [`SpanProvenance`].
pub struct SpanProvenanceModel {
    pub original_path: Seq<char>,
    pub in_frame: u64,
    pub out_frame: u64,
    pub in_sec: Double,
    pub out_sec: Double,
}

impl View for SpanProvenance {
    type V = SpanProvenanceModel;

    open spec fn view(&self) -> SpanProvenanceModel {
        SpanProvenanceModel {
            original_path: self.original_path@,
            in_frame: self.in_frame,
            out_frame: self.out_frame,
            in_sec: self.in_sec,
            out_sec: self.out_sec,
        }
    }
}

impl Clone for SpanProvenance {
    fn clone(&self) -> (r: Self)
        ensures
            r@ == self@,
    {
        SpanProvenance {
            original_path: self.original_path.clone(),
            in_frame: self.in_frame,
            out_frame: self.out_frame,
            in_sec: self.in_sec,
            out_sec: self.out_sec,
        }
    }
}

fn span_copy(s: &Option<SpanProvenance>) -> (r: Option<SpanProvenance>)
    ensures
        view_opt(r) == view_opt(*s),
{
    match s {
        Some(p) => Some(p.clone()),
        None => None,
    }
}

/// Probe data of a clip that its runtime form does not hold.
#[derive(Debug)]
pub struct ClipMeta {
    pub fps: Option<Double>,
    pub frames: Option<u64>,
    pub duration_sec: Option<Double>,
    pub source: Option<SpanProvenance>,
}

/// The mathematical content of a [`ClipMeta`].
pub struct ClipMetaModel {
    pub fps: Option<Double>,
    pub frames: Option<u64>,
    pub duration_sec: Option<Double>,
    pub source: Option<SpanProvenanceModel>,
}

impl View for ClipMeta {
    type V = ClipMetaModel;

    open spec fn view(&self) -> ClipMetaModel {
        ClipMetaModel {
            fps: self.fps,
            frames: self.frames,
            duration_sec: self.duration_sec,
            source: view_opt(self.source),
        }
    }
}

impl ClipMetaModel {
    /// Nothing known.
    pub open spec fn blank() -> ClipMetaModel {
        ClipMetaModel { fps: None, frames: None, duration_sec: None, source: None }
    }
}

impl Default for ClipMeta {
    fn default() -> (r: Self)
        ensures
            r@ == ClipMetaModel::blank(),
    {
        ClipMeta { fps: None, frames: None, duration_sec: None, source: None }
    }
}

impl Clone for ClipMeta {
    fn clone(&self) -> (r: Self)
        ensures
            r@ == self@,
    {
        ClipMeta {
            fps: self.fps,
            frames: self.frames,
            duration_sec: self.duration_sec,
            source: span_copy(&self.source),
        }
    }
}

/// One source clip as it is saved. `path` is relative to the file's directory,
/// or absolute.
#[derive(Debug)]
pub struct ClipSpec {
    pub id: ClipId,
    pub path: String,
    pub name: String,
    pub bpm: Option<MicroBpm>,
    pub fps: Option<Double>,
    pub frames: Option<u64>,
    pub duration_sec: Option<Double>,
    /// How the clip was cut, if it was baked from a larger source.
    pub source: Option<SpanProvenance>,
}

/// The mathematical content of a [`ClipSpec`].
pub struct ClipSpecModel {
    pub id: ClipId,
    pub path: Seq<char>,
    pub name: Seq<char>,
    pub bpm: Option<MicroBpm>,
    pub fps: Option<Double>,
    pub frames: Option<u64>,
    pub duration_sec: Option<Double>,
    pub source: Option<SpanProvenanceModel>,
}

impl View for ClipSpec {
    type V = ClipSpecModel;

    open spec fn view(&self) -> ClipSpecModel {
        ClipSpecModel {
            id: self.id,
            path: self.path@,
            name: self.name@,
            bpm: self.bpm,
            fps: self.fps,
            frames: self.frames,
            duration_sec: self.duration_sec,
            source: view_opt(self.source),
        }
    }
}

impl Clone for ClipSpec {
    fn clone(&self) -> (r: Self)
        ensures
            r@ == self@,
    {
        ClipSpec {
            id: self.id,
            path: self.path.clone(),
            name: self.name.clone(),
            bpm: self.bpm,
            fps: self.fps,
            frames: self.frames,
            duration_sec: self.duration_sec,
            source: span_copy(&self.source),
        }
    }
}

/// A named group of clips as it is saved.
#[derive(Debug)]
pub struct ClipBankSpec {
    pub name: String,
    pub clip_ids: Vec<ClipId>,
}

/// The mathematical content of a [`ClipBankSpec`].
pub struct ClipBankSpecModel {
    pub name: Seq<char>,
    pub clip_ids: Seq<ClipId>,
}

impl View for ClipBankSpec {
    type V = ClipBankSpecModel;

    open spec fn view(&self) -> ClipBankSpecModel {
        ClipBankSpecModel { name: self.name@, clip_ids: self.clip_ids@ }
    }
}

impl Clone for ClipBankSpec {
    fn clone(&self) -> (r: Self)
        ensures
            r@ == self@,
    {
        let clip_ids = self.clip_ids.clone();
        proof {
            assert(clip_ids@ =~= self.clip_ids@);
        }
        ClipBankSpec { name: self.name.clone(), clip_ids }
    }
}

/// The value of an effect input as it is saved.
#[derive(Clone, Copy, Debug, PartialEq, Eq, Structural)]
pub enum IsfValueSpec {
    Float(Single),
    Bool(bool),
    Long(i32),
    Color(Single, Single, Single, Single),
    Point2D(Single, Single),
}

/// How the value of an effect input is saved.
pub open spec fn saved_value(v: IsfValue) -> IsfValueSpec {
    match v {
        IsfValue::Float(f) => IsfValueSpec::Float(f),
        IsfValue::Bool(b) => IsfValueSpec::Bool(b),
        IsfValue::Long(i) => IsfValueSpec::Long(i),
        IsfValue::Color(c) => IsfValueSpec::Color(c.r, c.g, c.b, c.a),
        IsfValue::Point2D(p) => IsfValueSpec::Point2D(p.x, p.y),
    }
}

/// The value a saved one stands for.
pub open spec fn loaded_value(v: IsfValueSpec) -> IsfValue {
    match v {
        IsfValueSpec::Float(f) => IsfValue::Float(f),
        IsfValueSpec::Bool(b) => IsfValue::Bool(b),
        IsfValueSpec::Long(i) => IsfValue::Long(i),
        IsfValueSpec::Color(r, g, b, a) => IsfValue::Color(Rgba { r, g, b, a }),
        IsfValueSpec::Point2D(x, y) => IsfValue::Point2D(Point2 { x, y }),
    }
}

/// Saving the value of an effect input loses nothing.
pub proof fn values_survive_saving(v: IsfValue, s: IsfValueSpec)
    ensures
        loaded_value(saved_value(v)) == v,
        saved_value(loaded_value(s)) == s,
{
}

impl IsfValueSpec {
    /// The saved form of a runtime value.
    pub fn from_runtime(v: &IsfValue) -> (r: IsfValueSpec)
        ensures
            r == saved_value(*v),
    {
        match *v {
            IsfValue::Float(f) => IsfValueSpec::Float(f),
            IsfValue::Bool(b) => IsfValueSpec::Bool(b),
            IsfValue::Long(i) => IsfValueSpec::Long(i),
            IsfValue::Color(c) => IsfValueSpec::Color(c.r, c.g, c.b, c.a),
            IsfValue::Point2D(p) => IsfValueSpec::Point2D(p.x, p.y),
        }
    }

    /// The runtime value a saved one stands for.
    pub fn to_runtime(&self) -> (r: IsfValue)
        ensures
            r == loaded_value(*self),
    {
        match *self {
            IsfValueSpec::Float(f) => IsfValue::Float(f),
            IsfValueSpec::Bool(b) => IsfValue::Bool(b),
            IsfValueSpec::Long(i) => IsfValue::Long(i),
            IsfValueSpec::Color(r, g, b, a) => IsfValue::Color(Rgba { r, g, b, a }),
            IsfValueSpec::Point2D(x, y) => IsfValue::Point2D(Point2 { x, y }),
        }
    }
}

/// One entry of a cue's effect chain as it is saved. Built-in effects go by
/// name, ISF effects by file path with their input values; a pinned capture has
/// no lasting source and is not saved.
#[derive(Debug, PartialEq)]
pub enum CueEffectSpec {
    Live,
    Builtin(String),
    Isf { path: String, params: Vec<(String, IsfValueSpec)> },
}

/// An effect input override as it is saved.
pub type ParamSpecModel = (Seq<char>, IsfValueSpec);

/// The mathematical content of a [`CueEffectSpec`].
#[verifier::ext_equal]
pub enum CueEffectModel {
    Live,
    Builtin(Seq<char>),
    Isf { path: Seq<char>, params: Seq<ParamSpecModel> },
}

/// The saved overrides, by input name and value.
pub open spec fn param_spec_models(params: Seq<(String, IsfValueSpec)>) -> Seq<ParamSpecModel> {
    Seq::new(params.len(), |i: int| (params[i].0@, params[i].1))
}

impl View for CueEffectSpec {
    type V = CueEffectModel;

    open spec fn view(&self) -> CueEffectModel {
        match self {
            CueEffectSpec::Live => CueEffectModel::Live,
            CueEffectSpec::Builtin(n) => CueEffectModel::Builtin(n@),
            CueEffectSpec::Isf { path, params } => CueEffectModel::Isf {
                path: path@,
                params: param_spec_models(params@),
            },
        }
    }
}

/// A cue as it is saved: without its id, and with a switched-off knob absent.
#[derive(Debug)]
pub struct CueSpec {
    pub clip: ClipId,
    pub name: String,
    pub in_sec: MicroSecs,
    pub out_sec: Option<MicroSecs>,
    pub preserve: Option<bool>,
    pub dwell: Option<u32>,
    pub loop_len: Option<u32>,
    pub loop_phase: Option<i32>,
    pub start_nudge: Option<MicroSecs>,
    pub trig_delay: Option<u32>,
    pub bpm: Option<MicroBpm>,
    pub bpm_sync_on: bool,
    pub speed_mul: Option<Micro>,
    pub chain: Vec<CueEffectSpec>,
}

/// The mathematical content of a [`CueSpec`].
#[verifier::ext_equal]
pub struct CueSpecModel {
    pub clip: ClipId,
    pub name: Seq<char>,
    pub in_sec: MicroSecs,
    pub out_sec: Option<MicroSecs>,
    pub preserve: Option<bool>,
    pub dwell: Option<u32>,
    pub loop_len: Option<u32>,
    pub loop_phase: Option<i32>,
    pub start_nudge: Option<MicroSecs>,
    pub trig_delay: Option<u32>,
    pub bpm: Option<MicroBpm>,
    pub bpm_sync_on: bool,
    pub speed_mul: Option<Micro>,
    pub chain: Seq<CueEffectModel>,
}

impl View for CueSpec {
    type V = CueSpecModel;

    open spec fn view(&self) -> CueSpecModel {
        CueSpecModel {
            clip: self.clip,
            name: self.name@,
            in_sec: self.in_sec,
            out_sec: self.out_sec,
            preserve: self.preserve,
            dwell: self.dwell,
            loop_len: self.loop_len,
            loop_phase: self.loop_phase,
            start_nudge: self.start_nudge,
            trig_delay: self.trig_delay,
            bpm: self.bpm,
            bpm_sync_on: self.bpm_sync_on,
            speed_mul: self.speed_mul,
            chain: views(self.chain@),
        }
    }
}

impl CueSpecModel {
    /// A whole-clip cue with everything inherited.
    pub open spec fn full_length(clip: ClipId, name: Seq<char>) -> CueSpecModel {
        CueSpecModel {
            clip,
            name,
            in_sec: 0,
            out_sec: None,
            preserve: None,
            dwell: None,
            loop_len: None,
            loop_phase: None,
            start_nudge: None,
            trig_delay: None,
            bpm: None,
            bpm_sync_on: false,
            speed_mul: None,
            chain: seq![],
        }
    }
}

impl Default for CueSpec {
    fn default() -> (r: Self)
        ensures
            r@ == CueSpecModel::full_length(0, seq![]),
    {
        CueSpec::full_length(0, String::new())
    }
}

/// The value of a knob, if it is on.
pub open spec fn if_on<T>(t: Toggle<T>) -> Option<T> {
    if t.on {
        Some(t.val)
    } else {
        None
    }
}

/// A knob that is on with the given value, or off with a default.
pub open spec fn knob<T>(v: Option<T>, default: T) -> Toggle<T> {
    match v {
        Some(val) => Toggle { on: true, val },
        None => Toggle { on: false, val: default },
    }
}

fn on_value<T: Copy>(t: &Toggle<T>) -> (r: Option<T>)
    ensures
        r == if_on(*t),
{
    if t.on {
        Some(t.val)
    } else {
        None
    }
}

/// A knob that is on with the given value, or off with a default.
pub fn toggle<T>(opt: Option<T>, default: T) -> (r: Toggle<T>)
    ensures
        r == knob(opt, default),
{
    match opt {
        Some(val) => Toggle { on: true, val },
        None => Toggle { on: false, val: default },
    }
}

/// Absolute forms of paths, as the file system knows them.
pub type PathTable = Vec<(String, String)>;

/// The pairs of a [`PathTable`].
pub open spec fn path_pairs(table: Seq<(String, String)>) -> Seq<(Seq<char>, Seq<char>)> {
    Seq::new(table.len(), |i: int| (table[i].0@, table[i].1@))
}

/// Selects the entry for a path.
pub open spec fn for_path(p: Seq<char>) -> spec_fn((Seq<char>, Seq<char>)) -> bool {
    |e: (Seq<char>, Seq<char>)| e.0 == p
}

/// The absolute form of a path; a path that the table does not list is kept.
pub open spec fn absolute_form(table: Seq<(Seq<char>, Seq<char>)>, p: Seq<char>) -> Seq<char> {
    match first_of(table, for_path(p)) {
        Some(e) => e.1,
        None => p,
    }
}

/// The absolute form of a path.
pub fn absolute_path(table: &PathTable, p: &str) -> (r: String)
    ensures
        r@ == absolute_form(path_pairs(table@), p@),
{
    let mut i: usize = 0;
    while i < table.len() && !same(table[i].0.as_str(), p)
        invariant
            i <= table@.len(),
            forall|j: int| 0 <= j < i ==> (#[trigger] table@[j]).0@ != p@,
        decreases table@.len() - i,
    {
        i += 1;
    }
    proof {
        let pairs = path_pairs(table@);
        assert forall|j: int| 0 <= j < i implies !for_path(p@)(#[trigger] pairs[j]) by {
            assert(table@[j].0@ != p@);
        }
        first_at_is(pairs, for_path(p@), i as int);
    }
    if i < table.len() {
        table[i].1.clone()
    } else {
        p.to_owned()
    }
}

/// Resolves a stored path against the project directory: an absolute path
/// passes through, a relative one is joined to the directory.
pub fn resolve_path(project_dir: &str, stored: &str) -> (r: String)
    ensures
        r@ == joined_path(project_dir@, stored@),
{
    join(project_dir, stored)
}

/// The form of `abs` to store in a file that lives in `project_dir`: relative
/// with forward slashes when it lies below the directory, else unchanged.
pub fn relativize(project_dir: &str, abs: &str) -> (r: String)
    ensures
        r@ == relative_to(project_dir@, abs@),
{
    match strip_prefix(abs, project_dir) {
        Some(rel) => {
            let v = chars_of(rel.as_str());
            let mut r = String::new();
            let mut i: usize = 0;
            while i < v.len()
                invariant
                    i <= v@.len(),
                    r@ == slashed(v@).take(i as int),
                decreases v@.len() - i,
            {
                let c: char = if v[i] == '\\' {
                    '/'
                } else {
                    v[i]
                };
                r.push(c);
                proof {
                    assert(slashed(v@).take(i + 1) =~= slashed(v@).take(i as int).push(c));
                }
                i += 1;
            }
            proof {
                assert(slashed(v@).take(v@.len() as int) =~= slashed(v@));
            }
            r
        },
        None => abs.to_owned(),
    }
}

/// The saved form of effect input overrides.
pub open spec fn saved_params(params: Seq<ParamModel>) -> Seq<ParamSpecModel> {
    Seq::new(params.len(), |i: int| (params[i].0, saved_value(params[i].1)))
}

/// The overrides that saved ones stand for.
pub open spec fn loaded_params(params: Seq<ParamSpecModel>) -> Seq<ParamModel> {
    Seq::new(params.len(), |i: int| (params[i].0, loaded_value(params[i].1)))
}

/// The saved form of an effect, if it has one.
pub open spec fn saved_slot(
    slot: ChainSlotModel,
    dir: Seq<char>,
    table: Seq<(Seq<char>, Seq<char>)>,
) -> Option<CueEffectModel> {
    match slot.shader {
        SlotRefModel::Live => Some(CueEffectModel::Live),
        SlotRefModel::Builtin(name) => Some(CueEffectModel::Builtin(name)),
        SlotRefModel::Isf(path) => Some(
            CueEffectModel::Isf {
                path: relative_to(dir, absolute_form(table, path)),
                params: saved_params(slot.params),
            },
        ),
        SlotRefModel::Pinned(_) => None,
    }
}

/// The saved form of an effect chain: pinned captures are left out.
pub open spec fn saved_chain(
    chain: Seq<ChainSlotModel>,
    dir: Seq<char>,
    table: Seq<(Seq<char>, Seq<char>)>,
) -> Seq<CueEffectModel>
    decreases chain.len(),
{
    if chain.len() == 0 {
        seq![]
    } else {
        let before = saved_chain(chain.drop_last(), dir, table);
        match saved_slot(chain.last(), dir, table) {
            Some(e) => before.push(e),
            None => before,
        }
    }
}

/// The saved form of a cue.
pub open spec fn saved_cue(
    c: CueModel,
    dir: Seq<char>,
    table: Seq<(Seq<char>, Seq<char>)>,
) -> CueSpecModel {
    CueSpecModel {
        clip: c.clip,
        name: c.name,
        in_sec: c.in_sec,
        out_sec: c.out_sec,
        preserve: c.preserve,
        dwell: c.dwell,
        loop_len: c.loop_len,
        loop_phase: if_on(c.loop_phase),
        start_nudge: if_on(c.start_nudge),
        trig_delay: if_on(c.trig_delay),
        bpm: c.bpm,
        bpm_sync_on: c.bpm_sync_on,
        speed_mul: if_on(c.speed_mul),
        chain: saved_chain(c.chain, dir, table),
    }
}

/// The effect that a saved one stands for.
pub open spec fn loaded_slot(e: CueEffectModel, dir: Seq<char>) -> ChainSlotModel {
    match e {
        CueEffectModel::Live => ChainSlotModel::plain(SlotRefModel::Live),
        CueEffectModel::Builtin(name) => ChainSlotModel::plain(SlotRefModel::Builtin(name)),
        CueEffectModel::Isf { path, params } => ChainSlotModel {
            shader: SlotRefModel::Isf(joined_path(dir, path)),
            params: loaded_params(params),
        },
    }
}

/// The effect chain that a saved one stands for.
pub open spec fn loaded_chain(chain: Seq<CueEffectModel>, dir: Seq<char>) -> Seq<ChainSlotModel> {
    Seq::new(chain.len(), |i: int| loaded_slot(chain[i], dir))
}

/// The cue that a saved one stands for.
pub open spec fn loaded_cue(s: CueSpecModel, id: CueId, dir: Seq<char>) -> CueModel {
    CueModel {
        id,
        clip: s.clip,
        name: s.name,
        in_sec: s.in_sec,
        out_sec: s.out_sec,
        preserve: s.preserve,
        chain: loaded_chain(s.chain, dir),
        dwell: s.dwell,
        loop_len: s.loop_len,
        loop_phase: knob(s.loop_phase, 0),
        start_nudge: knob(s.start_nudge, 0),
        trig_delay: knob(s.trig_delay, 0),
        bpm: s.bpm,
        bpm_sync_on: s.bpm_sync_on,
        speed_mul: knob(s.speed_mul, MICRO),
    }
}

fn save_params(params: &Vec<(String, IsfValue)>) -> (r: Vec<(String, IsfValueSpec)>)
    ensures
        param_spec_models(r@) == saved_params(param_models(params@)),
{
    let mut r: Vec<(String, IsfValueSpec)> = Vec::new();
    let mut i: usize = 0;
    while i < params.len()
        invariant
            i <= params@.len(),
            r@.len() == i,
            forall|j: int|
                0 <= j < i ==> (#[trigger] r@[j]).0@ == params@[j].0@ && r@[j].1 == saved_value(params@[j].1),
        decreases params@.len() - i,
    {
        r.push((params[i].0.clone(), IsfValueSpec::from_runtime(&params[i].1)));
        i += 1;
    }
    proof {
        assert(param_spec_models(r@) =~= saved_params(param_models(params@)));
    }
    r
}

fn load_params(params: &Vec<(String, IsfValueSpec)>) -> (r: Vec<(String, IsfValue)>)
    ensures
        param_models(r@) == loaded_params(param_spec_models(params@)),
{
    let mut r: Vec<(String, IsfValue)> = Vec::new();
    let mut i: usize = 0;
    while i < params.len()
        invariant
            i <= params@.len(),
            r@.len() == i,
            forall|j: int|
                0 <= j < i ==> (#[trigger] r@[j]).0@ == params@[j].0@ && r@[j].1 == loaded_value(params@[j].1),
        decreases params@.len() - i,
    {
        r.push((params[i].0.clone(), params[i].1.to_runtime()));
        i += 1;
    }
    proof {
        assert(param_models(r@) =~= loaded_params(param_spec_models(params@)));
    }
    r
}

fn save_slot(slot: &ChainSlot, dir: &str, table: &PathTable) -> (r: Option<CueEffectSpec>)
    ensures
        view_opt(r) == saved_slot(slot@, dir@, path_pairs(table@)),
{
    match &slot.shader {
        SlotRef::Live => Some(CueEffectSpec::Live),
        SlotRef::Builtin(name) => Some(CueEffectSpec::Builtin(name.clone())),
        SlotRef::Isf(path) => {
            let abs = absolute_path(table, path.as_str());
            Some(
                CueEffectSpec::Isf {
                    path: relativize(dir, abs.as_str()),
                    params: save_params(&slot.params),
                },
            )
        },
        SlotRef::Pinned(_) => None,
    }
}

fn load_slot(e: &CueEffectSpec, dir: &str) -> (r: ChainSlot)
    ensures
        r@ == loaded_slot(e@, dir@),
{
    match e {
        CueEffectSpec::Live => ChainSlot::new(SlotRef::Live),
        CueEffectSpec::Builtin(name) => ChainSlot::new(SlotRef::Builtin(name.clone())),
        CueEffectSpec::Isf { path, params } => ChainSlot {
            shader: SlotRef::Isf(resolve_path(dir, path.as_str())),
            params: load_params(params),
        },
    }
}

impl CueSpec {
    /// A whole-clip cue: no trim, every override inherited, no effect chain.
    pub fn full_length(clip: ClipId, name: String) -> (r: CueSpec)
        ensures
            r@ == CueSpecModel::full_length(clip, name@),
    {
        let r = CueSpec {
            clip,
            name,
            in_sec: 0,
            out_sec: None,
            preserve: None,
            dwell: None,
            loop_len: None,
            loop_phase: None,
            start_nudge: None,
            trig_delay: None,
            bpm: None,
            bpm_sync_on: false,
            speed_mul: None,
            chain: Vec::new(),
        };
        proof {
            assert(r@.chain =~= Seq::<CueEffectModel>::empty());
        }
        r
    }

    /// The saved form of a runtime cue. A knob is written when it is on; ISF
    /// paths are stored relative to `dir`, from the absolute form in `table`;
    /// pinned captures are dropped.
    pub fn from_cue(c: &Cue, dir: &str, table: &PathTable) -> (r: CueSpec)
        ensures
            r@ == saved_cue(c@, dir@, path_pairs(table@)),
    {
        let mut chain: Vec<CueEffectSpec> = Vec::new();
        let mut i: usize = 0;
        proof {
            assert(views(chain@) =~= saved_chain(c@.chain.take(0), dir@, path_pairs(table@)));
        }
        while i < c.chain.len()
            invariant
                i <= c.chain@.len(),
                views(chain@) == saved_chain(c@.chain.take(i as int), dir@, path_pairs(table@)),
            decreases c.chain@.len() - i,
        {
            proof {
                let seen = c@.chain.take(i + 1);
                assert(seen.drop_last() =~= c@.chain.take(i as int));
                assert(seen.last() == c.chain@[i as int]@);
            }
            if let Some(e) = save_slot(&c.chain[i], dir, table) {
                let ghost before = chain@;
                chain.push(e);
                proof {
                    assert(views(chain@) =~= views(before).push(e@));
                }
            }
            i += 1;
        }
        proof {
            assert(c@.chain.take(c.chain@.len() as int) =~= c@.chain);
        }
        CueSpec {
            clip: c.clip,
            name: c.name.clone(),
            in_sec: c.in_sec,
            out_sec: c.out_sec,
            preserve: c.preserve,
            dwell: c.dwell,
            loop_len: c.loop_len,
            loop_phase: on_value(&c.loop_phase),
            start_nudge: on_value(&c.start_nudge),
            trig_delay: on_value(&c.trig_delay),
            bpm: c.bpm,
            bpm_sync_on: c.bpm_sync_on,
            speed_mul: on_value(&c.speed_mul),
            chain,
        }
    }

    /// The runtime cue a saved one stands for, under the given id. An absent
    /// knob comes back off, and ISF paths are resolved against `dir`.
    pub fn to_cue(&self, id: CueId, dir: &str) -> (r: Cue)
        ensures
            r@ == loaded_cue(self@, id, dir@),
    {
        let mut chain: Vec<ChainSlot> = Vec::new();
        let mut i: usize = 0;
        while i < self.chain.len()
            invariant
                i <= self.chain@.len(),
                chain@.len() == i,
                forall|j: int| 0 <= j < i ==> #[trigger] chain@[j]@ == loaded_slot(self.chain@[j]@, dir@),
            decreases self.chain@.len() - i,
        {
            chain.push(load_slot(&self.chain[i], dir));
            i += 1;
        }
        proof {
            assert(views(chain@) =~= loaded_chain(self@.chain, dir@));
        }
        Cue {
            id,
            clip: self.clip,
            name: self.name.clone(),
            in_sec: self.in_sec,
            out_sec: self.out_sec,
            preserve: self.preserve,
            chain,
            dwell: self.dwell,
            loop_len: self.loop_len,
            loop_phase: toggle(self.loop_phase, 0),
            start_nudge: toggle(self.start_nudge, 0),
            trig_delay: toggle(self.trig_delay, 0),
            bpm: self.bpm,
            bpm_sync_on: self.bpm_sync_on,
            speed_mul: toggle(self.speed_mul, MICRO),
        }
    }
}

/// A named, ordered set of cues as it is saved.
#[derive(Debug)]
pub struct CueBankSpec {
    pub name: String,
    pub cues: Vec<CueSpec>,
}

/// The mathematical content of a [`CueBankSpec`].
pub struct CueBankSpecModel {
    pub name: Seq<char>,
    pub cues: Seq<CueSpecModel>,
}

impl View for CueBankSpec {
    type V = CueBankSpecModel;

    open spec fn view(&self) -> CueBankSpecModel {
        CueBankSpecModel { name: self.name@, cues: views(self.cues@) }
    }
}

/// The saved form of a cue bank.
pub open spec fn saved_bank(
    b: BankModel,
    dir: Seq<char>,
    table: Seq<(Seq<char>, Seq<char>)>,
) -> CueBankSpecModel {
    CueBankSpecModel {
        name: b.name,
        cues: Seq::new(b.cues.len(), |i: int| saved_cue(b.cues[i], dir, table)),
    }
}

impl CueBankSpec {
    /// The saved form of a runtime cue bank.
    pub fn from_bank(b: &Bank, dir: &str, table: &PathTable) -> (r: CueBankSpec)
        ensures
            r@ == saved_bank(b@, dir@, path_pairs(table@)),
    {
        let mut cues: Vec<CueSpec> = Vec::new();
        let mut i: usize = 0;
        while i < b.cues.len()
            invariant
                i <= b.cues@.len(),
                cues@.len() == i,
                forall|j: int|
                    0 <= j < i ==> #[trigger] cues@[j]@ == saved_cue(b.cues@[j]@, dir@, path_pairs(table@)),
            decreases b.cues@.len() - i,
        {
            cues.push(CueSpec::from_cue(&b.cues[i], dir, table));
            i += 1;
        }
        let r = CueBankSpec { name: b.name.clone(), cues };
        proof {
            assert(r@.cues =~= saved_bank(b@, dir@, path_pairs(table@)).cues);
        }
        r
    }
}

impl ClipBankSpec {
    /// The saved form of a runtime clip bank: its name and its clips. The
    /// directory it was scanned from is not saved.
    pub fn from_bank(b: &ClipBank) -> (r: ClipBankSpec)
        ensures
            r@ == saved_clip_bank(b@),
    {
        let clip_ids = b.clip_ids.clone();
        proof {
            assert(clip_ids@ =~= b.clip_ids@);
        }
        ClipBankSpec { name: b.name.clone(), clip_ids }
    }
}

/// The saved form of a clip bank.
pub open spec fn saved_clip_bank(b: ClipBankModel) -> ClipBankSpecModel {
    ClipBankSpecModel { name: b.name, clip_ids: b.clip_ids }
}

/// The saved form of a clip.
pub open spec fn saved_clip(
    c: ClipModel,
    dir: Seq<char>,
    table: Seq<(Seq<char>, Seq<char>)>,
    meta: ClipMetaModel,
) -> ClipSpecModel {
    ClipSpecModel {
        id: c.id,
        path: match c.file_path() {
            Some(p) => relative_to(dir, absolute_form(table, p)),
            None => seq![],
        },
        name: c.name,
        bpm: c.bpm,
        fps: meta.fps,
        frames: meta.frames,
        duration_sec: meta.duration_sec,
        source: meta.source,
    }
}

/// The clip that a saved one stands for, read from `resolved`.
pub open spec fn loaded_clip(s: ClipSpecModel, resolved: Seq<char>) -> ClipModel {
    ClipModel { id: s.id, source: ClipSourceModel::File(resolved), name: s.name, bpm: s.bpm }
}

impl ClipSpec {
    /// The saved form of a runtime clip. Its path is made absolute first, since
    /// a clip scanned from a relative directory would otherwise be saved with a
    /// path that resolves against the wrong root. A camera clip has no file.
    pub fn from_clip(c: &Clip, project_dir: &str, table: &PathTable, meta: ClipMeta) -> (r: ClipSpec)
        ensures
            r@ == saved_clip(c@, project_dir@, path_pairs(table@), meta@),
    {
        let path = match c.file_path() {
            Some(p) => {
                let abs = absolute_path(table, p.as_str());
                relativize(project_dir, abs.as_str())
            },
            None => String::new(),
        };
        ClipSpec {
            id: c.id,
            path,
            name: c.name.clone(),
            bpm: c.bpm,
            fps: meta.fps,
            frames: meta.frames,
            duration_sec: meta.duration_sec,
            source: meta.source,
        }
    }

    /// The runtime clip a saved one stands for, with its path resolved.
    pub fn to_clip(&self, resolved: String) -> (r: Clip)
        ensures
            r@ == loaded_clip(self@, resolved@),
    {
        Clip {
            id: self.id,
            source: ClipSource::File(resolved),
            name: self.name.clone(),
            bpm: self.bpm,
        }
    }
}

/// A whole saved session: a flat clip pool, named groupings over it, and the
/// cue banks the sequencer plays.
#[derive(Debug)]
pub struct Project {
    pub version: u32,
    pub defaults: SessionDefaults,
    pub clips: Vec<ClipSpec>,
    pub clip_banks: Vec<ClipBankSpec>,
    pub cue_banks: Vec<CueBankSpec>,
}

/// The mathematical content of a [`Project`].
#[verifier::ext_equal]
pub struct ProjectModel {
    pub version: u32,
    pub defaults: SessionDefaultsModel,
    pub clips: Seq<ClipSpecModel>,
    pub clip_banks: Seq<ClipBankSpecModel>,
    pub cue_banks: Seq<CueBankSpecModel>,
}

impl View for Project {
    type V = ProjectModel;

    open spec fn view(&self) -> ProjectModel {
        ProjectModel {
            version: self.version,
            defaults: self.defaults@,
            clips: views(self.clips@),
            clip_banks: views(self.clip_banks@),
            cue_banks: views(self.cue_banks@),
        }
    }
}

/// Probe data by clip; blank for a clip that has none.
pub open spec fn meta_for(meta: Map<ClipId, ClipMeta>, id: ClipId) -> ClipMetaModel {
    if meta.contains_key(id) {
        meta[id]@
    } else {
        ClipMetaModel::blank()
    }
}

/// The project that saves a session.
pub open spec fn saved_project(
    dir: Seq<char>,
    table: Seq<(Seq<char>, Seq<char>)>,
    clips: Seq<ClipModel>,
    clip_banks: Seq<ClipBankModel>,
    cue_banks: Seq<BankModel>,
    meta: Map<ClipId, ClipMeta>,
    defaults: SessionDefaultsModel,
) -> ProjectModel {
    ProjectModel {
        version: FORMAT_VERSION,
        defaults,
        clips: Seq::new(
            clips.len(),
            |i: int| saved_clip(clips[i], dir, table, meta_for(meta, clips[i].id)),
        ),
        clip_banks: Seq::new(clip_banks.len(), |i: int| saved_clip_bank(clip_banks[i])),
        cue_banks: Seq::new(cue_banks.len(), |i: int| saved_bank(cue_banks[i], dir, table)),
    }
}

impl Project {
    /// Assembles a project from runtime state. `clip_meta` supplies probe data
    /// that a runtime clip does not hold; a clip without an entry is saved with
    /// none. `table` gives the absolute form of every path that is saved.
    pub fn from_runtime(
        dir: &str,
        table: &PathTable,
        clips: &Vec<Clip>,
        clip_banks: &Vec<ClipBank>,
        cue_banks: &Vec<Bank>,
        clip_meta: &HashMap<ClipId, ClipMeta>,
        defaults: SessionDefaults,
    ) -> (r: Project)
        ensures
            r@ == saved_project(
                dir@,
                path_pairs(table@),
                views(clips@),
                views(clip_banks@),
                views(cue_banks@),
                clip_meta@,
                defaults@,
            ),
    {
        broadcast use vstd::std_specs::hash::group_hash_axioms;

        let ghost pairs = path_pairs(table@);
        let mut saved_clips: Vec<ClipSpec> = Vec::new();
        let mut i: usize = 0;
        while i < clips.len()
            invariant
                i <= clips@.len(),
                pairs == path_pairs(table@),
                saved_clips@.len() == i,
                forall|j: int|
                    0 <= j < i ==> #[trigger] saved_clips@[j]@ == saved_clip(
                        clips@[j]@,
                        dir@,
                        pairs,
                        meta_for(clip_meta@, clips@[j].id),
                    ),
            decreases clips@.len() - i,
        {
            broadcast use vstd::std_specs::hash::group_hash_axioms;

            let meta = match clip_meta.get(&clips[i].id) {
                Some(m) => m.clone(),
                None => ClipMeta::default(),
            };
            saved_clips.push(ClipSpec::from_clip(&clips[i], dir, table, meta));
            i += 1;
        }
        let mut saved_groups: Vec<ClipBankSpec> = Vec::new();
        let mut g: usize = 0;
        while g < clip_banks.len()
            invariant
                g <= clip_banks@.len(),
                saved_groups@.len() == g,
                forall|j: int| 0 <= j < g ==> #[trigger] saved_groups@[j]@ == saved_clip_bank(clip_banks@[j]@),
            decreases clip_banks@.len() - g,
        {
            saved_groups.push(ClipBankSpec::from_bank(&clip_banks[g]));
            g += 1;
        }
        let mut saved_cues: Vec<CueBankSpec> = Vec::new();
        let mut b: usize = 0;
        while b < cue_banks.len()
            invariant
                b <= cue_banks@.len(),
                pairs == path_pairs(table@),
                saved_cues@.len() == b,
                forall|j: int| 0 <= j < b ==> #[trigger] saved_cues@[j]@ == saved_bank(cue_banks@[j]@, dir@, pairs),
            decreases cue_banks@.len() - b,
        {
            saved_cues.push(CueBankSpec::from_bank(&cue_banks[b], dir, table));
            b += 1;
        }
        let r = Project {
            version: FORMAT_VERSION,
            defaults,
            clips: saved_clips,
            clip_banks: saved_groups,
            cue_banks: saved_cues,
        };
        proof {
            let want = saved_project(
                dir@,
                pairs,
                views(clips@),
                views(clip_banks@),
                views(cue_banks@),
                clip_meta@,
                defaults@,
            );
            assert(r@.clips =~= want.clips);
            assert(r@.clip_banks =~= want.clip_banks);
            assert(r@.cue_banks =~= want.cue_banks);
        }
        r
    }
}

/// A project in the current format. One that was written before versions were
/// counted is of the first.
pub open spec fn migrated(p: ProjectModel) -> ProjectModel {
    ProjectModel {
        version: if p.version == 0 {
            FORMAT_VERSION
        } else {
            p.version
        },
        ..p
    }
}

/// Brings a project read from an older file up to date. A file without a
/// version counts as current.
pub fn migrate(p: &mut Project)
    ensures
        final(p)@ == migrated(old(p)@),
{
    if p.version == 0 {
        p.version = FORMAT_VERSION;
    }
}

/// A path as a save stores it below the project directory: it starts and ends
/// with a name and holds no backslash.
pub open spec fn stored_form(p: Seq<char>) -> bool {
    &&& !absolute(p)
    &&& tail_after(p, 0) == p
    &&& trimmed(p) == p
    &&& p.len() > 0
    &&& !p.contains('\\')
}

/// Whether an entry of a saved chain is written the same way again: a file is in
/// stored form, and its resolved path is absolute already.
pub open spec fn resaved(e: CueEffectModel, dir: Seq<char>, table: Seq<(Seq<char>, Seq<char>)>) -> bool {
    e matches CueEffectModel::Isf { path, .. } ==> stored_form(path) && absolute_form(
        table,
        joined_path(dir, path),
    ) == joined_path(dir, path)
}

/// A path stored below the project directory is stored the same way again
/// after it was resolved.
pub proof fn a_stored_path_is_stored_again(dir: Seq<char>, p: Seq<char>)
    requires
        stored_form(p),
    ensures
        relative_to(dir, joined_path(dir, p)) == p,
{
    let whole = joined_path(dir, p);
    let none = Seq::<char>::empty();
    first_at_is(none, is_slash(), 0);
    assert(names(none) =~= Seq::<Seq<char>>::empty());
    assert forall|k: int| 0 <= k < p.len() implies p[k] != '\\' by {
        assert(p.contains(p[k]));
    }
    assert(slashed(p) =~= p);
    if dir.len() == 0 {
        assert(dir =~= none);
        assert(whole =~= p);
        assert(parts(dir) =~= Seq::<Seq<char>>::empty());
        tail_is_relative(p, 0);
    } else {
        let base = if dir.last() == '/' {
            dir.drop_last()
        } else {
            dir
        };
        assert(whole =~= base.push('/') + p);
        names_of_join(base, p);
        tail_of_join(base, p, 0);
        if dir.last() == '/' {
            assert(dir =~= base.push('/') + none);
            names_of_join(base, none);
            assert(names(dir) =~= names(base));
        }
        assert(whole[0] == dir[0]);
        if dir.len() > 1 {
            assert(whole[1] == dir[1]);
        }
        assert(lead(whole) == lead(dir));
        assert(parts(whole) =~= parts(dir) + names(p));
        assert(parts(dir).is_prefix_of(parts(whole)));
        some_part(dir);
        assert(tail_after(whole, names(dir).len() as int) == p);
    }
}

/// Saving a cue that was loaded from a project writes the same entry again: a
/// knob that was absent stays absent, and the effect chain keeps every entry.
/// The live shader and built-in effects need nothing for that.
pub proof fn a_loaded_cue_is_saved_again(
    s: CueSpecModel,
    id: CueId,
    dir: Seq<char>,
    table: Seq<(Seq<char>, Seq<char>)>,
)
    requires
        forall|i: int| 0 <= i < s.chain.len() ==> resaved(#[trigger] s.chain[i], dir, table),
    ensures
        saved_cue(loaded_cue(s, id, dir), dir, table) == s,
{
    a_loaded_chain_is_saved_again(s.chain, dir, table);
    assert(saved_cue(loaded_cue(s, id, dir), dir, table) =~= s);
}

proof fn a_loaded_chain_is_saved_again(
    chain: Seq<CueEffectModel>,
    dir: Seq<char>,
    table: Seq<(Seq<char>, Seq<char>)>,
)
    requires
        forall|i: int| 0 <= i < chain.len() ==> resaved(#[trigger] chain[i], dir, table),
    ensures
        saved_chain(loaded_chain(chain, dir), dir, table) == chain,
    decreases chain.len(),
{
    let slots = loaded_chain(chain, dir);
    if chain.len() > 0 {
        let front = chain.drop_last();
        assert forall|i: int| 0 <= i < front.len() implies resaved(#[trigger] front[i], dir, table) by {
            assert(front[i] == chain[i]);
        }
        a_loaded_chain_is_saved_again(front, dir, table);
        assert(slots.drop_last() =~= loaded_chain(front, dir));
        let e = chain[chain.len() - 1];
        let slot = loaded_slot(e, dir);
        assert(slots.last() == slot);
        match e {
            CueEffectModel::Isf { path, params } => {
                a_stored_path_is_stored_again(dir, path);
                assert(saved_params(loaded_params(params)) =~= params) by {
                    assert forall|i: int| 0 <= i < params.len() implies saved_params(loaded_params(params))[i]
                        == #[trigger] params[i] by {
                        values_survive_saving(loaded_value(params[i].1), params[i].1);
                    }
                }
            },
            _ => {},
        }
        assert(saved_slot(slot, dir, table) == Some(e));
        assert(chain =~= front.push(e));
    } else {
        assert(slots =~= Seq::<ChainSlotModel>::empty());
        assert(chain =~= Seq::<CueEffectModel>::empty());
    }
}

/// A cue whose switched-off knobs hold their defaults, and whose chain holds
/// only the live shader and built-in effects, comes back from a save as it was.
pub proof fn a_saved_cue_is_loaded_again(c: CueModel, dir: Seq<char>, table: Seq<(Seq<char>, Seq<char>)>)
    requires
        !c.loop_phase.on ==> c.loop_phase.val == 0,
        !c.start_nudge.on ==> c.start_nudge.val == 0,
        !c.trig_delay.on ==> c.trig_delay.val == 0,
        !c.speed_mul.on ==> c.speed_mul.val == MICRO,
        forall|i: int|
            0 <= i < c.chain.len() ==> ((#[trigger] c.chain[i]).shader is Live || c.chain[i].shader is Builtin)
                && c.chain[i].params.len() == 0,
    ensures
        loaded_cue(saved_cue(c, dir, table), c.id, dir) == c,
{
    a_saved_chain_is_loaded_again(c.chain, dir, table);
}

proof fn a_saved_chain_is_loaded_again(
    chain: Seq<ChainSlotModel>,
    dir: Seq<char>,
    table: Seq<(Seq<char>, Seq<char>)>,
)
    requires
        forall|i: int|
            0 <= i < chain.len() ==> ((#[trigger] chain[i]).shader is Live || chain[i].shader is Builtin)
                && chain[i].params.len() == 0,
    ensures
        loaded_chain(saved_chain(chain, dir, table), dir) == chain,
    decreases chain.len(),
{
    let saved = saved_chain(chain, dir, table);
    if chain.len() > 0 {
        let front = chain.drop_last();
        assert forall|i: int| 0 <= i < front.len() implies ((#[trigger] front[i]).shader is Live || front[i].shader is Builtin)
            && front[i].params.len() == 0 by {
            assert(front[i] == chain[i]);
        }
        a_saved_chain_is_loaded_again(front, dir, table);
        let slot = chain[chain.len() - 1];
        assert(slot.params =~= Seq::<ParamModel>::empty());
        let e = saved_slot(slot, dir, table)->0;
        assert(loaded_slot(e, dir) == slot);
        assert(loaded_chain(saved, dir) =~= loaded_chain(saved_chain(front, dir, table), dir).push(slot));
        assert(chain =~= front.push(slot));
    } else {
        assert(loaded_chain(saved, dir) =~= chain);
    }
}

} // verus!
