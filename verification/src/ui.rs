//! The control surface without its drawing: the texts it shows, and the
//! command that each control sends.

use vstd::prelude::*;
use vstd::string::*;

use crate::bank::CueId;
use crate::commands::{Command, CueView, UiMirror};
use crate::seqs::{first_at, first_at_is};
use crate::text::{chars_of, decimal, decimal_text, push_two_digits, text_of, two_digits};
use crate::units::{half_even, round_half_even, MicroSecs, Nanos};

pub mod editor;
pub mod library;
pub mod status;
pub mod transport;
pub mod widgets;

verus! {

/// `s` cut to `max` characters, the last of them an ellipsis where something
/// was cut.
pub open spec fn ellipsized(s: Seq<char>, max: int) -> Seq<char> {
    if s.len() <= max {
        s
    } else {
        s.take(if max == 0 {
            0
        } else {
            max - 1
        }).push('…')
    }
}

/// Cuts a text to `max` characters, with an ellipsis where something was cut.
pub fn ellipsize(s: &str, max: usize) -> (r: String)
    ensures
        r@ == ellipsized(s@, max as int),
{
    let v = chars_of(s);
    if v.len() <= max {
        s.to_owned()
    } else {
        let keep: usize = if max == 0 {
            0
        } else {
            max - 1
        };
        let mut r = text_of(&v, 0, keep);
        r.push('…');
        proof {
            assert(r@ =~= ellipsized(s@, max as int));
        }
        r
    }
}

/// Minutes and seconds of a time, to the hundredth of a second; a time before
/// zero counts as zero.
pub open spec fn time_text(secs: int) -> Seq<char> {
    let t = if secs < 0 {
        0
    } else {
        secs
    };
    let hundredths = half_even(t % 60_000_000, 10_000);
    decimal((t / 60_000_000) as nat) + seq![':'] + two_digits(hundredths / 100) + seq!['.'] + two_digits(
        hundredths % 100,
    )
}

/// A time as minutes and seconds.
pub fn fmt_time(secs: MicroSecs) -> (r: String)
    ensures
        r@ == time_text(secs as int),
{
    let t: u64 = if secs < 0 {
        0
    } else {
        secs as u64
    };
    let hundredths: u64 = round_half_even(t % 60_000_000, 10_000);
    let mut r = decimal_text(t / 60_000_000);
    r.push(':');
    push_two_digits(&mut r, hundredths / 100);
    r.push('.');
    push_two_digits(&mut r, hundredths % 100);
    proof {
        assert(r@ =~= time_text(secs as int));
    }
    r
}

/// The text of a cue's trim: from its in-point to its out-point, or to the
/// clip's end.
pub open spec fn trim_text(in_sec: int, out_sec: Option<MicroSecs>) -> Seq<char> {
    time_text(in_sec) + "–"@ + match out_sec {
        Some(o) => time_text(o as int),
        None => "end"@,
    }
}

/// The text of a cue's trim.
pub fn trim_label(cue: &CueView) -> (r: String)
    ensures
        r@ == trim_text(cue.in_sec as int, cue.out_sec),
{
    let mut r = fmt_time(cue.in_sec);
    r.append("–");
    match cue.out_sec {
        Some(o) => r.append(fmt_time(o).as_str()),
        None => r.append("end"),
    }
    r
}

/// A number of bars in words.
pub open spec fn bars_text(bars: nat) -> Seq<char> {
    if bars == 1 {
        "1 bar"@
    } else {
        decimal(bars) + " bars"@
    }
}

/// A number of bars in words.
pub fn bars_label(bars: u32) -> (r: String)
    ensures
        r@ == bars_text(bars as nat),
{
    if bars == 1 {
        "1 bar".to_owned()
    } else {
        let mut r = decimal_text(bars as u64);
        r.append(" bars");
        r
    }
}

/// Selects the view of the cue with this id.
pub open spec fn shows(id: CueId) -> spec_fn(CueView) -> bool {
    |c: CueView| c.id == id
}

/// Where the selected cue stands in a list of cues, if it is there.
pub open spec fn selection(cues: Seq<CueView>, selected: Option<CueId>) -> Option<int> {
    match selected {
        Some(id) => if first_at(cues, shows(id)) < cues.len() {
            Some(first_at(cues, shows(id)))
        } else {
            None
        },
        None => None,
    }
}

/// Where the cue that the editor shows stands in the edit bank. Nothing is
/// shown when no cue is selected, or when the selected cue is not in the bank.
pub fn selected_cue(m: &UiMirror) -> (r: Option<usize>)
    ensures
        match r {
            Some(i) => selection(m.cues@, m.selected_cue) == Some(i as int),
            None => selection(m.cues@, m.selected_cue) is None,
        },
{
    match m.selected_cue {
        Some(id) => {
            let mut i: usize = 0;
            while i < m.cues.len() && m.cues[i].id != id
                invariant
                    i <= m.cues@.len(),
                    forall|j: int| 0 <= j < i ==> #[trigger] m.cues@[j].id != id,
                decreases m.cues@.len() - i,
            {
                i += 1;
            }
            proof {
                first_at_is(m.cues@, shows(id), i as int);
            }
            if i < m.cues.len() {
                Some(i)
            } else {
                None
            }
        },
        None => None,
    }
}

/// When the control window is painted again.
#[derive(Clone, Copy, Debug, PartialEq, Eq, Structural)]
pub enum Repaint {
    Now,
    /// After this many nanoseconds.
    After(Nanos),
    /// Only when something happens.
    Idle,
}

/// Delays this long or longer mean that nothing is waiting: an hour.
pub const REPAINT_HORIZON: Nanos = 3_600_000_000_000;

/// When to paint again, given the delay that the surface asks for.
pub open spec fn painted_after(delay: Nanos) -> Repaint {
    if delay == 0 {
        Repaint::Now
    } else if delay < REPAINT_HORIZON {
        Repaint::After(delay)
    } else {
        Repaint::Idle
    }
}

/// When to paint again, given the delay that the surface asks for.
pub fn repaint(delay: Nanos) -> (r: Repaint)
    ensures
        r == painted_after(delay),
{
    if delay == 0 {
        Repaint::Now
    } else if delay < REPAINT_HORIZON {
        Repaint::After(delay)
    } else {
        Repaint::Idle
    }
}

/// What a file dialog was opened for.
#[derive(Clone, Copy, Debug, PartialEq, Eq, Structural)]
pub enum PickKind {
    /// A folder that replaces the pool.
    ClipDir,
    /// A folder that becomes another clip bank.
    ClipBankDir,
    Shader,
    Isf,
}

/// The command for a path chosen in a dialog.
pub fn picked(kind: PickKind, path: String) -> (r: Command)
    ensures
        match kind {
            PickKind::ClipDir => r == Command::SetClipDir(path),
            PickKind::ClipBankDir => r == Command::AddClipDirAsBank(path),
            PickKind::Shader => r == Command::SetShaderPath(path),
            PickKind::Isf => r == Command::LoadIsf(path),
        },
{
    match kind {
        PickKind::ClipDir => Command::SetClipDir(path),
        PickKind::ClipBankDir => Command::AddClipDirAsBank(path),
        PickKind::Shader => Command::SetShaderPath(path),
        PickKind::Isf => Command::LoadIsf(path),
    }
}

} // verus!
