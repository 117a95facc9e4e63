//! The cue editor: trim, playhead rule, effect chain, and the advanced knobs
//! of the selected cue.

use vstd::prelude::*;
use vstd::string::*;

use crate::bank::{CueId, Toggle};
use crate::commands::{
    chain_copy, ChainSlot, ChainSlotModel, ClipRole, Command, CueParam, CueView, ShaderId, ShaderPoolView, SlotRef,
    SlotRefModel, UiMirror, MICRO_BEATS_PER_TICK,
};
use crate::isf::{IsfInput, IsfInputKind, IsfInputKindModel, IsfInputModel, IsfValue, Point2, Rgba};
use crate::paths::{file_name, file_name_of, stem, stem_of};
use crate::seqs::{first_at, first_at_is, first_of};
use crate::text::{decimal, decimal_text, push_decimal, same, two_places, two_places_text, view_opt, views};
use crate::ui::library::{beats_text, fmt_beats};
use crate::ui::transport::{loop_label, loop_text, LOOP_CADENCE};
use crate::ui::{fmt_time, time_text};
use crate::units::{round, rounded, saturate, saturated, Micro, MicroBeats, MicroBpm, MicroSecs, Single, MICRO};

verus! {

/// The word for a cue's role.
pub fn role_text(role: ClipRole) -> (r: &'static str)
    ensures
        r@ == match role {
            ClipRole::Playing => "playing"@,
            ClipRole::Armed => "armed"@,
            ClipRole::Idle => "idle"@,
        },
{
    match role {
        ClipRole::Playing => "playing",
        ClipRole::Armed => "armed",
        ClipRole::Idle => "idle",
    }
}

/// The tag with a cue's id.
pub fn id_text(id: CueId) -> (r: String)
    ensures
        r@ == "#"@ + decimal(id as nat),
{
    let mut r = "#".to_owned();
    push_decimal(&mut r, id as u64);
    r
}

/// The playhead readout.
pub fn playhead_text(m: &UiMirror) -> (r: String)
    ensures
        r@ == "⏱ "@ + time_text(m.playhead_sec as int),
{
    let mut r = "⏱ ".to_owned();
    r.append(fmt_time(m.playhead_sec).as_str());
    r
}

/// The out-point that its switch sets: one second after the in-point, or the
/// clip's end.
pub open spec fn out_switched(in_sec: MicroSecs, on: bool) -> Option<MicroSecs> {
    if on {
        Some(saturated(in_sec + 1_000_000) as MicroSecs)
    } else {
        None
    }
}

/// The command of the out-point's switch: on trims the clip one second after
/// the in-point, off plays to the clip's end.
pub fn trim_out(cue: &CueView, on: bool) -> (r: Command)
    ensures
        r == Command::SetCueOut(cue.id, out_switched(cue.in_sec, on)),
{
    if on {
        Command::SetCueOut(cue.id, Some(saturate(cue.in_sec as i128 + 1_000_000)))
    } else {
        Command::SetCueOut(cue.id, None)
    }
}

/// The place of a playhead rule in its selector: inherit, on, off.
pub open spec fn preserve_place(p: Option<bool>) -> int {
    match p {
        None => 0,
        Some(true) => 1,
        Some(false) => 2,
    }
}

/// The place of a cue's playhead rule in its selector.
pub fn preserve_index(p: Option<bool>) -> (r: usize)
    ensures
        r == preserve_place(p),
{
    match p {
        None => 0,
        Some(keep) => if keep {
            1
        } else {
            2
        },
    }
}

/// The playhead rule at a place of the selector.
pub open spec fn preserve_at(i: int) -> Option<bool> {
    if i == 0 {
        None
    } else {
        Some(i == 1)
    }
}

/// The command of the playhead selector's place `i`.
pub fn preserve_choice(cue: CueId, i: usize) -> (r: Command)
    ensures
        r == Command::SetCuePreserve(cue, preserve_at(i as int)),
{
    if i == 0 {
        Command::SetCuePreserve(cue, None)
    } else {
        Command::SetCuePreserve(cue, Some(i == 1))
    }
}

/// Choosing the place that a playhead rule stands at chooses that rule.
pub proof fn the_preserve_selector_is_consistent(p: Option<bool>)
    ensures
        preserve_at(preserve_place(p)) == p,
{
}

/// Selects the pool shader with this id.
pub open spec fn has_shader_id(id: ShaderId) -> spec_fn(ShaderPoolView) -> bool {
    |s: ShaderPoolView| s.id == id
}

/// Selects the pool shaders with this name.
pub open spec fn has_shader_name(name: Seq<char>) -> spec_fn(ShaderPoolView) -> bool {
    |s: ShaderPoolView| s.name@ == name
}

/// What an effect file is called: its name without the extension, or the whole
/// path when it has no file name.
pub open spec fn effect_name(path: Seq<char>) -> Seq<char> {
    match file_name_of(path) {
        Some(name) => "ISF: "@ + stem_of(name),
        None => "ISF: "@ + path,
    }
}

/// What an effect file is called.
pub fn effect_label(path: &str) -> (r: String)
    ensures
        r@ == effect_name(path@),
{
    let mut r = "ISF: ".to_owned();
    match file_name(path) {
        Some(name) => r.append(stem(name.as_str()).as_str()),
        None => r.append(path),
    }
    r
}

/// What a slot of an effect chain is called.
pub open spec fn slot_text(slot: SlotRefModel, pool: Seq<ShaderPoolView>) -> Seq<char> {
    match slot {
        SlotRefModel::Live => "Live shader"@,
        SlotRefModel::Builtin(name) => name,
        SlotRefModel::Pinned(id) => match first_of(pool, has_shader_id(id)) {
            Some(s) => s.name@,
            None => "pin #"@ + decimal(id as nat),
        },
        SlotRefModel::Isf(path) => effect_name(path),
    }
}

/// What a slot of an effect chain is called.
pub fn slot_label(slot: &SlotRef, m: &UiMirror) -> (r: String)
    ensures
        r@ == slot_text(slot@, m.shader_pool@),
{
    match slot {
        SlotRef::Live => "Live shader".to_owned(),
        SlotRef::Builtin(name) => name.clone(),
        SlotRef::Pinned(id) => {
            let mut i: usize = 0;
            while i < m.shader_pool.len() && m.shader_pool[i].id != *id
                invariant
                    i <= m.shader_pool@.len(),
                    forall|j: int| 0 <= j < i ==> #[trigger] m.shader_pool@[j].id != *id,
                decreases m.shader_pool@.len() - i,
            {
                i += 1;
            }
            proof {
                first_at_is(m.shader_pool@, has_shader_id(*id), i as int);
            }
            if i < m.shader_pool.len() {
                m.shader_pool[i].name.clone()
            } else {
                let mut r = "pin #".to_owned();
                push_decimal(&mut r, *id as u64);
                r
            }
        },
        SlotRef::Isf(path) => effect_label(path.as_str()),
    }
}

/// What the append menu calls a pool shader: effects with inputs go by their
/// file, the others by their name.
pub fn pool_label(s: &ShaderPoolView) -> (r: String)
    ensures
        r@ == if s.inputs@.len() == 0 {
            s.name@
        } else {
            effect_name(s.name@)
        },
{
    if s.inputs.len() == 0 {
        s.name.clone()
    } else {
        effect_label(s.name.as_str())
    }
}

/// How a chain refers to a pool shader.
pub fn pool_slot(s: &ShaderPoolView) -> (r: SlotRef)
    ensures
        r@ == if s.inputs@.len() > 0 {
            SlotRefModel::Isf(s.name@)
        } else if s.builtin {
            SlotRefModel::Builtin(s.name@)
        } else {
            SlotRefModel::Pinned(s.id)
        },
{
    if s.inputs.len() > 0 {
        SlotRef::Isf(s.name.clone())
    } else if s.builtin {
        SlotRef::Builtin(s.name.clone())
    } else {
        SlotRef::Pinned(s.id)
    }
}

/// The pool entry whose inputs an effect slot offers: the first of its name.
pub fn schema_of(slot: &SlotRef, m: &UiMirror) -> (r: Option<usize>)
    ensures
        match slot@ {
            SlotRefModel::Isf(path) => {
                let i = first_at(m.shader_pool@, has_shader_name(path));
                match r {
                    Some(k) => k == i && i < m.shader_pool@.len(),
                    None => i == m.shader_pool@.len(),
                }
            },
            _ => r is None,
        },
{
    match slot {
        SlotRef::Isf(path) => {
            let mut i: usize = 0;
            while i < m.shader_pool.len() && !same(m.shader_pool[i].name.as_str(), path.as_str())
                invariant
                    i <= m.shader_pool@.len(),
                    forall|j: int| 0 <= j < i ==> #[trigger] m.shader_pool@[j].name@ != path@,
                decreases m.shader_pool@.len() - i,
            {
                i += 1;
            }
            proof {
                first_at_is(m.shader_pool@, has_shader_name(path@), i as int);
            }
            if i < m.shader_pool.len() {
                Some(i)
            } else {
                None
            }
        },
        _ => None,
    }
}

/// A chain with the slots at `i` and `i + 1` exchanged.
pub open spec fn exchanged(chain: Seq<ChainSlotModel>, i: int) -> Seq<ChainSlotModel> {
    chain.update(i, chain[i + 1]).update(i + 1, chain[i])
}

fn exchange(cue: &CueView, i: usize) -> (r: Vec<ChainSlot>)
    requires
        i + 1 < cue.chain@.len(),
    ensures
        views(r@) == exchanged(views(cue.chain@), i as int),
{
    let mut c = chain_copy(&cue.chain);
    let ghost before = c@;
    proof {
        assert(views(before).len() == before.len() && views(cue.chain@).len() == cue.chain@.len());
    }
    let n: usize = c.len();
    assert(i + 1 < n);
    let slot = c.remove(i + 1);
    c.insert(i, slot);
    proof {
        assert(views(c@) =~= exchanged(views(before), i as int));
    }
    c
}

/// The command that moves the effect at `i` one place back; the last effect
/// has nowhere to go.
pub fn move_down(cue: &CueView, i: usize) -> (r: Option<Command>)
    requires
        i < cue.chain@.len(),
    ensures
        match r {
            Some(Command::SetCueChain(id, chain)) => id == cue.id && i + 1 < cue.chain@.len() && views(chain@)
                == exchanged(views(cue.chain@), i as int),
            Some(_) => false,
            None => i + 1 == cue.chain@.len(),
        },
{
    let n: usize = cue.chain.len();
    if i < n - 1 {
        Some(Command::SetCueChain(cue.id, exchange(cue, i)))
    } else {
        None
    }
}

/// The command that moves the effect at `i` one place forward; the first
/// effect has nowhere to go.
pub fn move_up(cue: &CueView, i: usize) -> (r: Option<Command>)
    requires
        i < cue.chain@.len(),
    ensures
        match r {
            Some(Command::SetCueChain(id, chain)) => id == cue.id && i > 0 && views(chain@) == exchanged(
                views(cue.chain@),
                i - 1,
            ),
            Some(_) => false,
            None => i == 0,
        },
{
    if i > 0 {
        Some(Command::SetCueChain(cue.id, exchange(cue, i - 1)))
    } else {
        None
    }
}

/// Moving an effect down and its neighbour down again restores the chain.
pub proof fn exchanging_twice_restores_the_chain(chain: Seq<ChainSlotModel>, i: int)
    requires
        0 <= i,
        i + 1 < chain.len(),
    ensures
        exchanged(exchanged(chain, i), i) == chain,
{
    assert(exchanged(exchanged(chain, i), i) =~= chain);
}

/// The command that takes the effect at `i` out of the chain.
pub fn remove_effect(cue: &CueView, i: usize) -> (r: Command)
    requires
        i < cue.chain@.len(),
    ensures
        match r {
            Command::SetCueChain(id, chain) => id == cue.id && views(chain@) == views(cue.chain@).remove(i as int),
            _ => false,
        },
{
    let mut c = chain_copy(&cue.chain);
    let ghost before = c@;
    proof {
        assert(views(before).len() == before.len() && views(cue.chain@).len() == cue.chain@.len());
    }
    let _gone = c.remove(i);
    proof {
        assert(views(c@) =~= views(before).remove(i as int));
    }
    Command::SetCueChain(cue.id, c)
}

/// The command that puts a shader at the end of the chain, with every input at
/// its default.
pub fn append_slot(cue: &CueView, slot: SlotRef) -> (r: Command)
    ensures
        match r {
            Command::SetCueChain(id, chain) => id == cue.id && views(chain@) == views(cue.chain@).push(
                ChainSlotModel::plain(slot@),
            ),
            _ => false,
        },
{
    let mut c = chain_copy(&cue.chain);
    let ghost before = c@;
    let new = ChainSlot::new(slot);
    c.push(new);
    proof {
        assert(views(c@) =~= views(before).push(new@));
    }
    Command::SetCueChain(cue.id, c)
}

/// A choice on offer: its value and its name.
#[derive(Debug)]
pub struct ChoiceOption {
    pub value: i32,
    pub label: String,
}

/// The mathematical content of a [`ChoiceOption`].
pub struct ChoiceOptionModel {
    pub value: i32,
    pub label: Seq<char>,
}

impl View for ChoiceOption {
    type V = ChoiceOptionModel;

    open spec fn view(&self) -> ChoiceOptionModel {
        ChoiceOptionModel { value: self.value, label: self.label@ }
    }
}

/// How an effect input is edited, with its current value.
#[allow(inconsistent_fields)]
#[derive(Debug)]
pub enum ControlKind {
    Slider { value: Single, min: Single, max: Single },
    Checkbox { value: bool },
    Choice { value: i32, shown: String, options: Vec<ChoiceOption> },
    ColorPicker { value: Rgba },
    Point { value: Point2, min: Point2, max: Point2 },
    /// Sends `true` when pressed.
    Trigger,
}

/// The mathematical content of a [`ControlKind`].
#[allow(inconsistent_fields)]
pub enum ControlKindModel {
    Slider { value: Single, min: Single, max: Single },
    Checkbox { value: bool },
    Choice { value: i32, shown: Seq<char>, options: Seq<ChoiceOptionModel> },
    ColorPicker { value: Rgba },
    Point { value: Point2, min: Point2, max: Point2 },
    Trigger,
}

impl View for ControlKind {
    type V = ControlKindModel;

    open spec fn view(&self) -> ControlKindModel {
        match self {
            ControlKind::Slider { value, min, max } => ControlKindModel::Slider {
                value: *value,
                min: *min,
                max: *max,
            },
            ControlKind::Checkbox { value } => ControlKindModel::Checkbox { value: *value },
            ControlKind::Choice { value, shown, options } => ControlKindModel::Choice {
                value: *value,
                shown: shown@,
                options: views(options@),
            },
            ControlKind::ColorPicker { value } => ControlKindModel::ColorPicker { value: *value },
            ControlKind::Point { value, min, max } => ControlKindModel::Point {
                value: *value,
                min: *min,
                max: *max,
            },
            ControlKind::Trigger => ControlKindModel::Trigger,
        }
    }
}

/// A control for one effect input.
#[derive(Debug)]
pub struct Control {
    /// The input that the control sets.
    pub name: String,
    pub label: String,
    pub kind: ControlKind,
}

/// The mathematical content of a [`Control`].
pub struct ControlModel {
    pub name: Seq<char>,
    pub label: Seq<char>,
    pub kind: ControlKindModel,
}

impl View for Control {
    type V = ControlModel;

    open spec fn view(&self) -> ControlModel {
        ControlModel { name: self.name@, label: self.label@, kind: self.kind@ }
    }
}

/// Selects a choice value.
pub open spec fn is_value(v: i32) -> spec_fn(i32) -> bool {
    |x: i32| x == v
}

/// The name of the choice at `i`, or what stands in for a missing one.
pub open spec fn label_at(labels: Seq<Seq<char>>, i: int, missing: Seq<char>) -> Seq<char> {
    if 0 <= i < labels.len() {
        labels[i]
    } else {
        missing
    }
}

/// The name of the current choice; a dash when the value is not on offer or
/// has no name.
pub open spec fn shown_choice(values: Seq<i32>, labels: Seq<Seq<char>>, value: i32) -> Seq<char> {
    let i = first_at(values, is_value(value));
    if i < values.len() {
        label_at(labels, i, "—"@)
    } else {
        "—"@
    }
}

/// The choices on offer.
pub open spec fn choice_options(values: Seq<i32>, labels: Seq<Seq<char>>) -> Seq<ChoiceOptionModel> {
    Seq::new(
        values.len(),
        |i: int| ChoiceOptionModel { value: values[i], label: label_at(labels, i, "?"@) },
    )
}

/// How an input is edited: its value is the slot's override where that is of
/// the input's kind, and the schema default otherwise. Images are not edited.
pub open spec fn control_kind(kind: IsfInputKindModel, set: Option<IsfValue>) -> Option<ControlKindModel> {
    match kind {
        IsfInputKindModel::Float { min, max, default } => Some(
            ControlKindModel::Slider {
                value: match set {
                    Some(IsfValue::Float(v)) => v,
                    _ => default,
                },
                min,
                max,
            },
        ),
        IsfInputKindModel::Bool { default } => Some(
            ControlKindModel::Checkbox {
                value: match set {
                    Some(IsfValue::Bool(v)) => v,
                    _ => default,
                },
            },
        ),
        IsfInputKindModel::Long { values, labels, default } => {
            let value = match set {
                Some(IsfValue::Long(v)) => v,
                _ => default,
            };
            Some(
                ControlKindModel::Choice {
                    value,
                    shown: shown_choice(values, labels, value),
                    options: choice_options(values, labels),
                },
            )
        },
        IsfInputKindModel::Color { default } => Some(
            ControlKindModel::ColorPicker {
                value: match set {
                    Some(IsfValue::Color(v)) => v,
                    _ => default,
                },
            },
        ),
        IsfInputKindModel::Point2D { min, max, default } => Some(
            ControlKindModel::Point {
                value: match set {
                    Some(IsfValue::Point2D(v)) => v,
                    _ => default,
                },
                min,
                max,
            },
        ),
        IsfInputKindModel::Event => Some(ControlKindModel::Trigger),
        IsfInputKindModel::Image => None,
    }
}

/// The controls of an effect slot: one per declared input, in order, without
/// the images.
pub open spec fn controls(slot: ChainSlotModel, inputs: Seq<IsfInputModel>) -> Seq<ControlModel>
    decreases inputs.len(),
{
    if inputs.len() == 0 {
        seq![]
    } else {
        let input = inputs.last();
        let before = controls(slot, inputs.drop_last());
        match control_kind(input.kind, slot.param(input.name)) {
            Some(kind) => before.push(
                ControlModel {
                    name: input.name,
                    label: match input.label {
                        Some(l) => l,
                        None => input.name,
                    },
                    kind,
                },
            ),
            None => before,
        }
    }
}

fn choice_label(labels: &Vec<String>, i: usize, missing: &str) -> (r: String)
    ensures
        r@ == label_at(views(labels@), i as int, missing@),
{
    if i < labels.len() {
        labels[i].clone()
    } else {
        missing.to_owned()
    }
}

fn choice_shown(values: &Vec<i32>, labels: &Vec<String>, value: i32) -> (r: String)
    ensures
        r@ == shown_choice(values@, views(labels@), value),
{
    let mut i: usize = 0;
    while i < values.len() && values[i] != value
        invariant
            i <= values@.len(),
            forall|j: int| 0 <= j < i ==> #[trigger] values@[j] != value,
        decreases values@.len() - i,
    {
        i += 1;
    }
    proof {
        first_at_is(values@, is_value(value), i as int);
    }
    if i < values.len() {
        choice_label(labels, i, "—")
    } else {
        "—".to_owned()
    }
}

fn choice_list(values: &Vec<i32>, labels: &Vec<String>) -> (r: Vec<ChoiceOption>)
    ensures
        views(r@) == choice_options(values@, views(labels@)),
{
    let mut r: Vec<ChoiceOption> = Vec::new();
    let mut i: usize = 0;
    let ghost all = choice_options(values@, views(labels@));
    while i < values.len()
        invariant
            i <= values@.len(),
            all == choice_options(values@, views(labels@)),
            views(r@) == all.take(i as int),
        decreases values@.len() - i,
    {
        let ghost before = r@;
        let option = ChoiceOption { value: values[i], label: choice_label(labels, i, "?") };
        r.push(option);
        proof {
            assert(views(r@) =~= views(before).push(option@));
            assert(all.take(i + 1) =~= all.take(i as int).push(all[i as int]));
        }
        i += 1;
    }
    proof {
        assert(all.take(values@.len() as int) =~= all);
    }
    r
}

fn control_of(kind: &IsfInputKind, set: Option<IsfValue>) -> (r: Option<ControlKind>)
    ensures
        view_opt(r) == control_kind(kind@, set),
{
    match kind {
        IsfInputKind::Float { min, max, default } => {
            let value = match set {
                Some(IsfValue::Float(v)) => v,
                _ => *default,
            };
            Some(ControlKind::Slider { value, min: *min, max: *max })
        },
        IsfInputKind::Bool { default } => {
            let value = match set {
                Some(IsfValue::Bool(v)) => v,
                _ => *default,
            };
            Some(ControlKind::Checkbox { value })
        },
        IsfInputKind::Long { values, labels, default } => {
            let value: i32 = match set {
                Some(IsfValue::Long(v)) => v,
                _ => *default,
            };
            Some(
                ControlKind::Choice {
                    value,
                    shown: choice_shown(values, labels, value),
                    options: choice_list(values, labels),
                },
            )
        },
        IsfInputKind::Color { default } => {
            let value = match set {
                Some(IsfValue::Color(v)) => v,
                _ => *default,
            };
            Some(ControlKind::ColorPicker { value })
        },
        IsfInputKind::Point2D { min, max, default } => {
            let value = match set {
                Some(IsfValue::Point2D(v)) => v,
                _ => *default,
            };
            Some(ControlKind::Point { value, min: *min, max: *max })
        },
        IsfInputKind::Event => Some(ControlKind::Trigger),
        IsfInputKind::Image => None,
    }
}

/// The controls of an effect slot's declared inputs.
pub fn isf_controls(slot: &ChainSlot, inputs: &Vec<IsfInput>) -> (r: Vec<Control>)
    ensures
        views(r@) == controls(slot@, views(inputs@)),
{
    let mut r: Vec<Control> = Vec::new();
    let mut i: usize = 0;
    let ghost all = views(inputs@);
    proof {
        assert(views(r@) =~= controls(slot@, all.take(0)));
    }
    while i < inputs.len()
        invariant
            i <= inputs@.len(),
            all == views(inputs@),
            views(r@) == controls(slot@, all.take(i as int)),
        decreases inputs@.len() - i,
    {
        let input = &inputs[i];
        let set = match slot.param(input.name.as_str()) {
            Some(v) => Some(*v),
            None => None,
        };
        let ghost before = r@;
        proof {
            assert(all.take(i + 1).drop_last() =~= all.take(i as int));
            assert(all.take(i + 1).last() == input@);
        }
        match control_of(&input.kind, set) {
            Some(kind) => {
                let label = match &input.label {
                    Some(l) => l.clone(),
                    None => input.name.clone(),
                };
                let control = Control { name: input.name.clone(), label, kind };
                r.push(control);
                proof {
                    assert(views(r@) =~= views(before).push(control@));
                }
            },
            None => {},
        }
        i += 1;
    }
    proof {
        assert(all.take(inputs@.len() as int) =~= all);
    }
    r
}

/// The command that sets one input of the effect at `slot`.
pub fn set_input(cue: CueId, slot: usize, name: &str, value: IsfValue) -> (r: Command)
    ensures
        r matches Command::SetChainParam { cue: c, slot: s, name: n, value: v } && c == cue && s == slot && n@ == name@
            && v == value,
{
    Command::SetChainParam { cue, slot, name: name.to_owned(), value }
}

/// The ticks nearest to a length in beats.
pub open spec fn nearest_ticks(beats: int) -> int {
    rounded(beats, 31_250)
}

/// `x` limited to the range of a tick count, `lo` at least.
pub open spec fn tick_count(x: int, lo: int) -> int {
    if x < lo {
        lo
    } else if x > u32::MAX {
        u32::MAX as int
    } else {
        x
    }
}

fn count_ticks(x: i128, lo: u32) -> (r: u32)
    ensures
        r == tick_count(x as int, lo as int),
{
    if x < lo as i128 {
        lo
    } else if x > u32::MAX as i128 {
        u32::MAX
    } else {
        x as u32
    }
}

/// The command of the dwell's inherit switch: off starts from the phrase
/// length, one beat at least.
pub fn inherit_dwell(m: &UiMirror, cue: &CueView, inherit: bool) -> (r: Command)
    ensures
        r matches Command::SetCueParam(id, CueParam::Dwell(d)) && id == cue.id && match d {
            Some(t) => !inherit && t == tick_count(nearest_ticks(m.phrase_beats as int), 32),
            None => inherit,
        },
{
    if inherit {
        Command::SetCueParam(cue.id, CueParam::Dwell(None))
    } else {
        let ticks: u32 = count_ticks(round(m.phrase_beats, MICRO_BEATS_PER_TICK), 32);
        Command::SetCueParam(cue.id, CueParam::Dwell(Some(ticks)))
    }
}

/// The command of the dwell field: the nearest tick, one at least.
pub fn set_dwell(cue: CueId, beats: MicroBeats) -> (r: Command)
    ensures
        r matches Command::SetCueParam(id, CueParam::Dwell(Some(t))) && id == cue && t == tick_count(
            nearest_ticks(beats as int),
            1,
        ),
{
    let ticks: u32 = count_ticks(round(beats, MICRO_BEATS_PER_TICK), 1);
    Command::SetCueParam(cue, CueParam::Dwell(Some(ticks)))
}

/// What stands in the dwell field of a cue that inherits: the phrase length.
pub fn inherited_dwell_text(m: &UiMirror) -> (r: String)
    ensures
        r@ == beats_text(tick_count(nearest_ticks(m.phrase_beats as int), 0)) + " b (global)"@,
{
    let ticks: u32 = count_ticks(round(m.phrase_beats, MICRO_BEATS_PER_TICK), 0);
    let mut r = fmt_beats(ticks);
    r.append(" b (global)");
    r
}

/// Whether a loop length is on offer.
pub open spec fn offered_loop(ticks: int) -> bool {
    ticks == 16 || ticks == 32 || ticks == 64 || ticks == 128 || ticks == 256 || ticks == 512 || ticks == 1024
        || ticks == 2048
}

/// The text of a cue's loop rate.
pub open spec fn loop_rate_text(loop_len: Option<u32>) -> Seq<char> {
    match loop_len {
        None => "inherit"@,
        Some(t) => if t == 0 {
            "off"@
        } else if offered_loop(t as int) {
            loop_text(t as int)
        } else {
            decimal(t as nat) + " tk"@
        },
    }
}

/// The text of a cue's loop rate.
pub fn loop_rate_label(loop_len: Option<u32>) -> (r: String)
    ensures
        r@ == loop_rate_text(loop_len),
{
    match loop_len {
        None => "inherit".to_owned(),
        Some(t) => {
            if t == 0 {
                return "off".to_owned();
            }
            let mut i: usize = 0;
            while i < 8
                invariant
                    i <= 8,
                    t != 0,
                    loop_len == Some(t),
                    forall|j: int| 0 <= j < i ==> #[trigger] LOOP_CADENCE[j] != t,
                decreases 8 - i,
            {
                if LOOP_CADENCE[i] == t {
                    return loop_label(t);
                }
                i += 1;
            }
            proof {
                assert(LOOP_CADENCE[0] != t && LOOP_CADENCE[1] != t && LOOP_CADENCE[2] != t && LOOP_CADENCE[3] != t
                    && LOOP_CADENCE[4] != t && LOOP_CADENCE[5] != t && LOOP_CADENCE[6] != t && LOOP_CADENCE[7]
                    != t);
            }
            let mut r = decimal_text(t as u64);
            r.append(" tk");
            r
        },
    }
}

/// The command of the swing row, from a value in ticks: the nearest tick.
pub fn set_swing(cue: CueId, on: bool, ticks: Micro) -> (r: Command)
    ensures
        r matches Command::SetCueParam(id, CueParam::LoopPhase(t)) && id == cue && t.on == on && t.val == {
            let n = rounded(ticks as int, 1_000_000);
            if n > i32::MAX {
                i32::MAX as int
            } else if n < i32::MIN {
                i32::MIN as int
            } else {
                n
            }
        },
{
    let n: i128 = round(ticks, MICRO);
    let val: i32 = if n > i32::MAX as i128 {
        i32::MAX
    } else if n < i32::MIN as i128 {
        i32::MIN
    } else {
        n as i32
    };
    Command::SetCueParam(cue, CueParam::LoopPhase(Toggle { on, val }))
}

/// The command of the nudge row.
pub fn set_nudge(cue: CueId, on: bool, secs: MicroSecs) -> (r: Command)
    ensures
        r == Command::SetCueParam(cue, CueParam::StartNudge(Toggle { on, val: secs })),
{
    Command::SetCueParam(cue, CueParam::StartNudge(Toggle { on, val: secs }))
}

/// The command of the delay row, from a length in beats: the nearest tick.
pub fn set_delay(cue: CueId, on: bool, beats: MicroBeats) -> (r: Command)
    ensures
        r matches Command::SetCueParam(id, CueParam::TrigDelay(t)) && id == cue && t.on == on && t.val == tick_count(
            nearest_ticks(beats as int),
            0,
        ),
{
    let val: u32 = count_ticks(round(beats, MICRO_BEATS_PER_TICK), 0);
    Command::SetCueParam(cue, CueParam::TrigDelay(Toggle { on, val }))
}

/// A length in ticks that is shown in beats and typed back is the same length.
pub proof fn ticks_survive_the_beat_field(ticks: int)
    requires
        0 <= ticks <= u32::MAX,
    ensures
        tick_count(nearest_ticks(ticks * MICRO_BEATS_PER_TICK), 0) == ticks,
{
    assert((2 * (ticks * 31_250) + 31_250) / 62_500 == ticks);
}

/// The tempo that a tempo switch starts from when none is known.
pub const SEED_BPM: MicroBpm = 120_000_000;

/// The source tempo of a cue: its own, or the clip's.
pub open spec fn source_tempo(cue: CueView) -> Option<MicroBpm> {
    match cue.bpm {
        Some(b) => Some(b),
        None => cue.clip_bpm,
    }
}

/// The command of the clip tempo's switch.
pub fn switch_clip_bpm(cue: &CueView, on: bool) -> (r: Command)
    ensures
        r == Command::SetClipBpm(
            cue.clip,
            if on {
                Some(match cue.clip_bpm {
                    Some(b) => b,
                    None => SEED_BPM,
                })
            } else {
                None
            },
        ),
{
    if on {
        let bpm: MicroBpm = match cue.clip_bpm {
            Some(b) => b,
            None => SEED_BPM,
        };
        Command::SetClipBpm(cue.clip, Some(bpm))
    } else {
        Command::SetClipBpm(cue.clip, None)
    }
}

/// The command of the cue tempo's switch: on starts from the tempo that the
/// cue has or inherits.
pub fn switch_cue_bpm(cue: &CueView, on: bool) -> (r: Command)
    ensures
        r == Command::SetCueParam(
            cue.id,
            CueParam::Bpm(
                if on {
                    Some(match source_tempo(*cue) {
                        Some(b) => b,
                        None => SEED_BPM,
                    })
                } else {
                    None
                },
            ),
        ),
{
    if on {
        let bpm: MicroBpm = match cue.bpm {
            Some(b) => b,
            None => match cue.clip_bpm {
                Some(b) => b,
                None => SEED_BPM,
            },
        };
        Command::SetCueParam(cue.id, CueParam::Bpm(Some(bpm)))
    } else {
        Command::SetCueParam(cue.id, CueParam::Bpm(None))
    }
}

/// Whether tempo sync can be switched: a source tempo has to be known.
pub fn can_sync(cue: &CueView) -> (r: bool)
    ensures
        r == (source_tempo(*cue) is Some),
{
    cue.bpm.is_some() || cue.clip_bpm.is_some()
}

/// The command of the multiplier row.
pub fn set_multiplier(cue: CueId, on: bool, val: Micro) -> (r: Command)
    ensures
        r == Command::SetCueParam(cue, CueParam::SpeedMul(Toggle { on, val })),
{
    Command::SetCueParam(cue, CueParam::SpeedMul(Toggle { on, val }))
}

/// The readout of the resolved speed.
pub fn speed_text(cue: &CueView) -> (r: String)
    ensures
        r@ == "→ "@ + two_places(cue.speed as int) + "× effective"@,
{
    let mut r = "→ ".to_owned();
    r.append(two_places_text(cue.speed).as_str());
    r.append("× effective");
    r
}

} // verus!
