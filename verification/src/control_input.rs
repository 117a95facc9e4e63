//! Keys and mapped controls: which command a key press or a control action
//! stands for, and the typing of a tempo.

use vstd::prelude::*;
use vstd::string::*;

use crate::app::{App, AppModel};
use crate::commands::Command;
use crate::text::{chars_of, code, lowercase, same, to_lowercase, view_opt};
use crate::units::{clamped, floor_div, Micro, MicroBpm, Nanos, MICRO};

verus! {

/// What a mapped control can trigger.
#[derive(Clone, Copy, Debug, PartialEq, Eq, Structural)]
pub enum Action {
    /// Masks a key's built-in meaning.
    Nothing,
    TapDownbeat,
    TapTempo,
    SoftReset,
    HardReset,
    CaptureShader,
    ToggleFullscreen,
    SaveProject,
    BpmDelta { amount: MicroBpm },
    NudgeBpm { ratio: Micro },
    CycleLiveBank { delta: i32 },
    SetLiveBank { index: u32 },
    SetEditBank { index: u32 },
    /// A tempo between two limits, by the control's position.
    SetBpm { min: MicroBpm, max: MicroBpm },
}

/// The tempo at a control position between two limits, between 20 and 1000 BPM.
pub open spec fn bpm_between(min: int, max: int, value: int) -> int {
    clamped(min + (max - min) * value / 1_000_000, 20_000_000, 1_000_000_000)
}

/// The command an action stands for at a control position.
pub open spec fn command_of(action: Action, value: Micro) -> Option<Command> {
    match action {
        Action::Nothing => None,
        Action::TapDownbeat => Some(Command::TapDownbeat),
        Action::TapTempo => Some(Command::TapTempo),
        Action::SoftReset => Some(Command::SoftReset),
        Action::HardReset => Some(Command::HardReset),
        Action::CaptureShader => Some(Command::CaptureShader),
        Action::ToggleFullscreen => Some(Command::ToggleFullscreen),
        Action::SaveProject => Some(Command::SaveProject),
        Action::BpmDelta { amount } => Some(Command::BpmDelta(amount)),
        Action::NudgeBpm { ratio } => Some(Command::NudgeBpm(ratio)),
        Action::CycleLiveBank { delta } => Some(Command::CycleLiveBank(delta)),
        Action::SetLiveBank { index } => Some(Command::SetLiveBank(index as usize)),
        Action::SetEditBank { index } => Some(Command::SetEditBank(index as usize)),
        Action::SetBpm { min, max } => Some(
            Command::SetBpm(bpm_between(min as int, max as int, value as int) as MicroBpm),
        ),
    }
}

/// The command an action stands for. `value` is the control's position, in
/// millionths of its range, and matters for tempo only.
pub fn to_command(action: &Action, value: Micro) -> (r: Option<Command>)
    ensures
        r == command_of(*action, value),
{
    match *action {
        Action::Nothing => None,
        Action::TapDownbeat => Some(Command::TapDownbeat),
        Action::TapTempo => Some(Command::TapTempo),
        Action::SoftReset => Some(Command::SoftReset),
        Action::HardReset => Some(Command::HardReset),
        Action::CaptureShader => Some(Command::CaptureShader),
        Action::ToggleFullscreen => Some(Command::ToggleFullscreen),
        Action::SaveProject => Some(Command::SaveProject),
        Action::BpmDelta { amount } => Some(Command::BpmDelta(amount)),
        Action::NudgeBpm { ratio } => Some(Command::NudgeBpm(ratio)),
        Action::CycleLiveBank { delta } => Some(Command::CycleLiveBank(delta)),
        Action::SetLiveBank { index } => Some(Command::SetLiveBank(index as usize)),
        Action::SetEditBank { index } => Some(Command::SetEditBank(index as usize)),
        Action::SetBpm { min, max } => {
            let range: i128 = max as i128 - min as i128;
            proof {
                let a = range as int;
                let b = value as int;
                assert(-0x8000_0000_0000_0000_0000_0000_0000_0000 <= a * b
                    <= 0x7fff_ffff_ffff_ffff_ffff_ffff_ffff_ffff) by (nonlinear_arith)
                    requires
                        -0xffff_ffff_ffff_ffff <= a <= 0xffff_ffff_ffff_ffff,
                        -0x8000_0000_0000_0000 <= b <= 0x7fff_ffff_ffff_ffff,
                ;
            }
            let part: i128 = floor_div(range * value as i128, MICRO as i128);
            let bpm: i128 = min as i128 + part;
            Some(
                Command::SetBpm(
                    if bpm < 20_000_000 {
                        20_000_000
                    } else if bpm > 1_000_000_000 {
                        1_000_000_000
                    } else {
                        bpm as i64
                    },
                ),
            )
        },
    }
}

/// A key as the window system reports it.
#[derive(Debug)]
pub enum Key {
    /// A key that types a text.
    Character(String),
    /// A key with a name, such as `Enter` or `ArrowLeft`.
    Named(String),
    /// A key without a stable identity.
    Dead,
}

/// The name under which a key is bound: single characters in lower case, other
/// names as they are; none for a key without a stable identity.
pub open spec fn key_name(key: Key) -> Option<Seq<char>> {
    match key {
        Key::Character(c) => Some(canonical(c@)),
        Key::Named(n) => Some(canonical(n@)),
        Key::Dead => None,
    }
}

/// A key name in its canonical form.
pub open spec fn canonical(name: Seq<char>) -> Seq<char> {
    if name.len() == 1 {
        lowercase(name)
    } else {
        name
    }
}

fn canon(name: &str) -> (r: String)
    ensures
        r@ == canonical(name@),
{
    if name.unicode_len() == 1 {
        to_lowercase(name)
    } else {
        name.to_owned()
    }
}

/// The name under which a key is bound.
pub fn canon_key(key: &Key) -> (r: Option<String>)
    ensures
        view_opt(r) == key_name(*key),
{
    match key {
        Key::Character(c) => Some(canon(c.as_str())),
        Key::Named(n) => Some(canon(n.as_str())),
        Key::Dead => None,
    }
}

/// How often the connected controllers are looked for.
pub const RESCAN_INTERVAL: Nanos = 2_000_000_000;

/// The mapped controls of a session.
#[derive(Clone, Copy, Debug, PartialEq, Eq, Structural)]
pub struct ControlInput {
    /// When the controllers were last looked for.
    pub last_rescan: Option<Nanos>,
}

/// The commands that actions stand for, in order; each comes with its control's
/// position.
pub open spec fn fired(actions: Seq<(Action, Micro)>) -> Seq<Command>
    decreases actions.len(),
{
    if actions.len() == 0 {
        seq![]
    } else {
        let before = fired(actions.drop_last());
        match command_of(actions.last().0, actions.last().1) {
            Some(c) => before.push(c),
            None => before,
        }
    }
}

/// Whether a key press is taken by the mapping, and what it triggers, given what
/// the key and its modifiers are bound to.
pub open spec fn offered(binding: Option<Action>, repeat: bool) -> (bool, Option<Command>) {
    (
        binding is Some,
        match binding {
            Some(a) if !repeat => command_of(a, MICRO),
            _ => None,
        },
    )
}

impl ControlInput {
    /// No controller was looked for yet.
    pub fn new() -> (r: ControlInput)
        ensures
            r.last_rescan is None,
    {
        ControlInput { last_rescan: None }
    }

    /// Whether it is time to look for controllers; at the start it is.
    pub open spec fn due(self, now: Nanos) -> bool {
        match self.last_rescan {
            Some(t) => now >= t + RESCAN_INTERVAL,
            None => true,
        }
    }

    /// The state after a round: it notes when the controllers were looked for.
    pub open spec fn pumped(self, now: Nanos) -> ControlInput {
        ControlInput {
            last_rescan: if self.due(now) {
                Some(now)
            } else {
                self.last_rescan
            },
        }
    }

    /// One round: whether to look for controllers now, and the commands for the
    /// actions that the mapping made of the pending events.
    pub fn pump(&mut self, now: Nanos, actions: &Vec<(Action, Micro)>) -> (r: (bool, Vec<Command>))
        ensures
            r.0 == old(self).due(now),
            *final(self) == old(self).pumped(now),
            r.1@ == fired(actions@),
    {
        let due = match self.last_rescan {
            Some(t) => now >= t && now - t >= RESCAN_INTERVAL,
            None => true,
        };
        if due {
            self.last_rescan = Some(now);
        }
        let mut cmds: Vec<Command> = Vec::new();
        let mut i: usize = 0;
        proof {
            assert(actions@.take(0) =~= Seq::<(Action, Micro)>::empty());
        }
        while i < actions.len()
            invariant
                i <= actions@.len(),
                cmds@ == fired(actions@.take(i as int)),
            decreases actions@.len() - i,
        {
            proof {
                assert(actions@.take(i + 1).drop_last() =~= actions@.take(i as int));
            }
            if let Some(c) = to_command(&actions[i].0, actions[i].1) {
                cmds.push(c);
            }
            i += 1;
        }
        proof {
            assert(actions@.take(actions@.len() as int) =~= actions@);
        }
        (due, cmds)
    }

    /// Whether a key press is taken by the mapping, and what it triggers.
    /// `binding` is what the key and its modifiers are bound to. A bound key is
    /// always taken, so its built-in meaning is suppressed even while it
    /// repeats; only a fresh press triggers.
    pub fn offer_key(&self, binding: Option<Action>, repeat: bool) -> (r: (bool, Option<Command>))
        ensures
            r == offered(binding, repeat),
    {
        match binding {
            None => (false, None),
            Some(a) => if repeat {
                (true, None)
            } else {
                (true, to_command(&a, MICRO))
            },
        }
    }
}

/// A key press with what else matters about it.
#[derive(Debug)]
pub struct KeyPress {
    pub key: Key,
    /// Whether the key is held and repeating.
    pub repeat: bool,
    pub super_key: bool,
    pub control_key: bool,
}

/// Whether a text is one decimal digit.
pub open spec fn is_digit(s: Seq<char>) -> bool {
    s.len() == 1 && 48 <= s[0] as int <= 57
}

/// The number that decimal digits spell.
pub open spec fn spelled(digits: Seq<char>) -> int
    decreases digits.len(),
{
    if digits.len() == 0 {
        0
    } else {
        spelled(digits.drop_last()) * 10 + (digits.last() as int - 48)
    }
}

/// Whether a pending tempo entry is what typing can produce: up to five digits.
pub open spec fn entry_ok(entry: Option<Seq<char>>) -> bool {
    entry matches Some(e) ==> e.len() <= 5 && forall|i: int|
        0 <= i < e.len() ==> 48 <= #[trigger] e[i] as int <= 57
}

/// The built-in command of a character key.
pub open spec fn builtin(c: Seq<char>, p: KeyPress) -> Option<Command> {
    if c == "t"@ && !p.repeat {
        Some(Command::TapDownbeat)
    } else if c == "b"@ && !p.repeat {
        Some(Command::TapTempo)
    } else if c == "+"@ || c == "="@ {
        Some(Command::BpmDelta(1_000_000))
    } else if c == "-"@ {
        Some(Command::BpmDelta((-1_000_000) as i64))
    } else if c == "["@ {
        Some(Command::NudgeBpm((-1_000) as i64))
    } else if c == "]"@ {
        Some(Command::NudgeBpm(1_000))
    } else if c == "r"@ && !p.repeat {
        Some(Command::SoftReset)
    } else if c == "R"@ && !p.repeat {
        Some(Command::HardReset)
    } else if c == "c"@ && !p.repeat {
        Some(Command::CaptureShader)
    } else if c == ","@ && !p.repeat {
        Some(Command::CycleLiveBank((-1) as i32))
    } else if c == "."@ && !p.repeat {
        Some(Command::CycleLiveBank(1))
    } else if c == "f"@ && !p.repeat {
        Some(Command::ToggleFullscreen)
    } else if c == "q"@ && p.super_key {
        Some(Command::Quit)
    } else if c == "s"@ && (p.super_key || p.control_key) {
        Some(Command::SaveProject)
    } else {
        None
    }
}

fn builtin_command(c: &str, p: &KeyPress) -> (r: Option<Command>)
    ensures
        r == builtin(c@, *p),
{
    if same(c, "t") && !p.repeat {
        Some(Command::TapDownbeat)
    } else if same(c, "b") && !p.repeat {
        Some(Command::TapTempo)
    } else if same(c, "+") || same(c, "=") {
        Some(Command::BpmDelta(1_000_000))
    } else if same(c, "-") {
        Some(Command::BpmDelta(-1_000_000))
    } else if same(c, "[") {
        Some(Command::NudgeBpm(-1_000))
    } else if same(c, "]") {
        Some(Command::NudgeBpm(1_000))
    } else if same(c, "r") && !p.repeat {
        Some(Command::SoftReset)
    } else if same(c, "R") && !p.repeat {
        Some(Command::HardReset)
    } else if same(c, "c") && !p.repeat {
        Some(Command::CaptureShader)
    } else if same(c, ",") && !p.repeat {
        Some(Command::CycleLiveBank(-1))
    } else if same(c, ".") && !p.repeat {
        Some(Command::CycleLiveBank(1))
    } else if same(c, "f") && !p.repeat {
        Some(Command::ToggleFullscreen)
    } else if same(c, "q") && p.super_key {
        Some(Command::Quit)
    } else if same(c, "s") && (p.super_key || p.control_key) {
        Some(Command::SaveProject)
    } else {
        None
    }
}

/// The tempo entry once a character key was pressed: a digit is appended while
/// there is room.
pub open spec fn entry_typed(entry: Option<Seq<char>>, c: Seq<char>) -> Option<Seq<char>> {
    if is_digit(c) {
        let so_far = match entry {
            Some(e) => e,
            None => seq![],
        };
        if so_far.len() < 5 {
            Some(so_far + c)
        } else {
            Some(so_far)
        }
    } else {
        entry
    }
}

/// The command that a finished tempo entry stands for: a tempo from 20 to 1000.
pub open spec fn entered(entry: Option<Seq<char>>) -> Option<Command> {
    match entry {
        Some(e) if e.len() > 0 && 20 <= spelled(e) <= 1000 => Some(
            Command::SetBpm((spelled(e) * 1_000_000) as MicroBpm),
        ),
        _ => None,
    }
}

/// The number that up to five digits spell.
fn read_digits(v: &Vec<char>) -> (r: u64)
    requires
        entry_ok(Some(v@)),
    ensures
        r == spelled(v@),
{
    let mut n: u64 = 0;
    let mut i: usize = 0;
    let mut top: u64 = 1;
    proof {
        assert(v@.take(0) =~= Seq::<char>::empty());
    }
    while i < v.len()
        invariant
            i <= v@.len() <= 5,
            entry_ok(Some(v@)),
            n == spelled(v@.take(i as int)),
            0 <= n < top,
            top <= 100_000,
            i == 0 ==> top == 1,
            i == 1 ==> top == 10,
            i == 2 ==> top == 100,
            i == 3 ==> top == 1_000,
            i == 4 ==> top == 10_000,
        decreases v@.len() - i,
    {
        proof {
            assert(v@.take(i + 1).drop_last() =~= v@.take(i as int));
            assert(48 <= v@[i as int] as int <= 57);
        }
        n = n * 10 + (code(v[i]) as u64 - 48);
        top = top * 10;
        i += 1;
    }
    proof {
        assert(v@.take(v@.len() as int) =~= v@);
    }
    n
}

impl AppModel {
    /// The session after a key press, and the command that it stands for.
    pub open spec fn keyed(self, p: KeyPress) -> (AppModel, Option<Command>) {
        match p.key {
            Key::Character(c) => (
                AppModel { bpm_entry: entry_typed(self.bpm_entry, c@), ..self },
                builtin(c@, p),
            ),
            Key::Named(n) => if n@ == "Enter"@ {
                (AppModel { bpm_entry: None, ..self }, entered(self.bpm_entry))
            } else if n@ == "Escape"@ {
                (AppModel { bpm_entry: None, ..self }, None)
            } else {
                (self, None)
            },
            Key::Dead => (self, None),
        }
    }
}

impl App {
    /// Takes a key press: returns the command it stands for, if any. Digits type
    /// a tempo; Enter sets it, and Escape drops it.
    pub fn handle_key(&mut self, p: &KeyPress) -> (r: Option<Command>)
        requires
            old(self)@.wf(),
        ensures
            final(self)@.wf(),
            final(self)@ == old(self)@.keyed(*p).0,
            r == old(self)@.keyed(*p).1,
    {
        match &p.key {
            Key::Character(c) => {
                let v = chars_of(c.as_str());
                if v.len() == 1 && code(v[0]) >= 48 && code(v[0]) <= 57 {
                    let mut e = match &self.bpm_entry {
                        Some(e) => e.clone(),
                        None => String::new(),
                    };
                    if e.as_str().unicode_len() < 5 {
                        let ghost before = e@;
                        e.append(c.as_str());
                        proof {
                            assert(e@ =~= before + c@);
                        }
                    }
                    self.bpm_entry = Some(e);
                    proof {
                        digits_are_not_commands(c@, *p);
                    }
                    return None;
                }
                builtin_command(c.as_str(), p)
            },
            Key::Named(n) => {
                proof {
                    reveal_strlit("Enter");
                    reveal_strlit("Escape");
                    assert("Enter"@.len() != "Escape"@.len());
                }
                if same(n.as_str(), "Enter") {
                    let entry = self.bpm_entry.take();
                    match entry {
                        Some(e) => {
                            let v = chars_of(e.as_str());
                            let n: u64 = read_digits(&v);
                            if v.len() > 0 && n >= 20 && n <= 1000 {
                                Some(Command::SetBpm(n as i64 * 1_000_000))
                            } else {
                                None
                            }
                        },
                        None => None,
                    }
                } else if same(n.as_str(), "Escape") {
                    self.bpm_entry = None;
                    None
                } else {
                    None
                }
            },
            Key::Dead => None,
        }
    }
}

proof fn digits_are_not_commands(c: Seq<char>, p: KeyPress)
    requires
        is_digit(c),
    ensures
        builtin(c, p) is None,
{
    reveal_strlit("t");
    reveal_strlit("b");
    reveal_strlit("+");
    reveal_strlit("=");
    reveal_strlit("-");
    reveal_strlit("[");
    reveal_strlit("]");
    reveal_strlit("r");
    reveal_strlit("R");
    reveal_strlit("c");
    reveal_strlit(",");
    reveal_strlit(".");
    reveal_strlit("f");
    reveal_strlit("q");
    reveal_strlit("s");
    let d = c[0] as int;
    assert(c != "t"@ && c != "b"@ && c != "+"@ && c != "="@ && c != "-"@) by {
        assert("t"@[0] == 't' && "b"@[0] == 'b' && "+"@[0] == '+' && "="@[0] == '=' && "-"@[0] == '-');
    }
    assert(c != "["@ && c != "]"@ && c != "r"@ && c != "R"@ && c != "c"@) by {
        assert("["@[0] == '[' && "]"@[0] == ']' && "r"@[0] == 'r' && "R"@[0] == 'R' && "c"@[0] == 'c');
    }
    assert(c != ","@ && c != "."@ && c != "f"@ && c != "q"@ && c != "s"@) by {
        assert(","@[0] == ',' && "."@[0] == '.' && "f"@[0] == 'f' && "q"@[0] == 'q' && "s"@[0] == 's');
    }
}

/// A pending entry never grows past five digits, whatever is typed.
pub proof fn entries_stay_short(entry: Option<Seq<char>>, c: Seq<char>)
    requires
        entry_ok(entry),
    ensures
        entry_ok(entry_typed(entry, c)),
{
}

} // verus!
