//! Controls as text on a character grid: brackets, tags, tracks and meters.

use vstd::prelude::*;
use vstd::string::*;

use crate::units::{clamp, clamped, Micro, MICRO};

verus! {

/// A label in a one-of-many selector; the selected one wears the brackets.
pub fn segment_text(label: &str, selected: bool) -> (r: String)
    ensures
        r@ == if selected {
            "["@ + label@ + "]"@
        } else {
            " "@ + label@ + " "@
        },
{
    if selected {
        wrapped("[", label, "]")
    } else {
        wrapped(" ", label, " ")
    }
}

fn wrapped(before: &str, label: &str, after: &str) -> (r: String)
    ensures
        r@ == before@ + label@ + after@,
{
    let mut r = before.to_owned();
    r.append(label);
    r.append(after);
    r
}

/// A tag in parentheses, with a cross when it can be removed.
pub fn chip_text(text: &str, removable: bool) -> (r: String)
    ensures
        r@ == if removable {
            "("@ + text@ + " ×)"@
        } else {
            "("@ + text@ + ")"@
        },
{
    if removable {
        wrapped("(", text, " ×)")
    } else {
        wrapped("(", text, ")")
    }
}

/// Whether a click on a tag counts as a click on its text: not when it hit the
/// cross.
pub fn chip_clicked(clicked: bool, removed: bool) -> (r: bool)
    ensures
        r == (clicked && !removed),
{
    clicked && !removed
}

/// The text of a button.
pub fn button_text(label: &str) -> (r: String)
    ensures
        r@ == "[ "@ + label@ + " ]"@,
{
    wrapped("[ ", label, " ]")
}

/// The text of a checkbox.
pub fn checkbox_text(checked: bool, label: &str) -> (r: String)
    ensures
        r@ == (if checked {
            "[x]"@
        } else {
            "[ ]"@
        }) + (if label@.len() == 0 {
            seq![]
        } else {
            " "@ + label@
        }),
{
    let mut r = if checked {
        "[x]".to_owned()
    } else {
        "[ ]".to_owned()
    };
    let ghost head = r@;
    if label.unicode_len() > 0 {
        r.append(" ");
        r.append(label);
        proof {
            assert(r@ =~= head + (" "@ + label@));
        }
    }
    proof {
        assert(head + Seq::<char>::empty() =~= head);
    }
    r
}

/// How many cells a fader's track has.
pub open spec fn track_cells(cells: int) -> int {
    if cells < 4 {
        4
    } else {
        cells
    }
}

/// A fader's track: ticks at every quarter between two ends.
pub open spec fn track(n: int) -> Seq<char> {
    seq!['├'] + Seq::new(
        n as nat,
        |k: int|
            if k > 0 && k % (n / 4) == 0 {
                '┼'
            } else {
                '─'
            },
    ) + seq!['┤']
}

/// The track of a fader, four cells long at least.
pub fn fader_track(cells: usize) -> (r: String)
    ensures
        r@ == track(track_cells(cells as int)),
{
    let n: usize = if cells < 4 {
        4
    } else {
        cells
    };
    let quarter: usize = n / 4;
    let mut r = String::new();
    r.push('├');
    let mut k: usize = 0;
    let ghost middle = track(n as int).subrange(1, n + 1);
    while k < n
        invariant
            n >= 4,
            quarter == n / 4,
            quarter >= 1,
            k <= n,
            middle == track(n as int).subrange(1, n + 1),
            r@ == seq!['├'] + middle.take(k as int),
        decreases n - k,
    {
        let tick = k > 0 && k % quarter == 0;
        r.push(
            if tick {
                '┼'
            } else {
                '─'
            },
        );
        proof {
            assert(middle[k as int] == track(n as int)[k + 1]);
            assert(middle.take(k + 1) =~= middle.take(k as int).push(middle[k as int]));
            assert(r@ =~= seq!['├'] + middle.take(k + 1));
        }
        k += 1;
    }
    r.push('┤');
    proof {
        assert(r@ =~= track(n as int));
    }
    r
}

/// The eight heights of a meter column.
pub open spec fn block(i: int) -> char {
    if i <= 0 {
        '▁'
    } else if i == 1 {
        '▂'
    } else if i == 2 {
        '▃'
    } else if i == 3 {
        '▄'
    } else if i == 4 {
        '▅'
    } else if i == 5 {
        '▆'
    } else if i == 6 {
        '▇'
    } else {
        '█'
    }
}

/// The height of a magnitude: eight steps over `0..=1`.
pub open spec fn height(mag: int) -> int {
    clamped(mag, 0, 1_000_000) * 799 / 100_000_000
}

/// The column of a spectrum for a magnitude.
pub fn meter_column(mag: Micro) -> (r: char)
    ensures
        r == block(height(mag as int)),
{
    let m: i64 = clamp(mag, 0, MICRO);
    let i: i64 = m * 799 / 100_000_000;
    if i <= 0 {
        '▁'
    } else if i == 1 {
        '▂'
    } else if i == 2 {
        '▃'
    } else if i == 3 {
        '▄'
    } else if i == 4 {
        '▅'
    } else if i == 5 {
        '▆'
    } else if i == 6 {
        '▇'
    } else {
        '█'
    }
}

/// A level meter: every cell shows its own share of the magnitude.
pub open spec fn meter(mag: int, cells: int) -> Seq<char> {
    Seq::new(
        cells as nat,
        |k: int| block(height(clamped(mag, 0, 1_000_000) * cells - k * 1_000_000)),
    )
}

/// A level meter of `cells` cells.
pub fn level_text(mag: Micro, cells: usize) -> (r: String)
    ensures
        r@ == meter(mag as int, cells as int),
{
    let m: i64 = clamp(mag, 0, MICRO);
    proof {
        let (a, c) = (m as int, cells as int);
        assert(0 <= a * c <= 1_000_000 * 0xffff_ffff_ffff_ffff) by (nonlinear_arith)
            requires
                0 <= a <= 1_000_000,
                0 <= c <= 0xffff_ffff_ffff_ffff,
        ;
    }
    let filled: i128 = m as i128 * cells as i128;
    let mut r = String::new();
    let mut k: usize = 0;
    while k < cells
        invariant
            k <= cells,
            0 <= filled <= 1_000_000 * 0xffff_ffff_ffff_ffff,
            filled == clamped(mag as int, 0, 1_000_000) * cells,
            r@ == meter(mag as int, cells as int).take(k as int),
        decreases cells - k,
    {
        let rest: i128 = filled - k as i128 * 1_000_000;
        let part: i64 = if rest <= 0 {
            0
        } else if rest >= 1_000_000 {
            MICRO
        } else {
            rest as i64
        };
        r.push(meter_column(part));
        proof {
            let all = meter(mag as int, cells as int);
            assert(all.take(k + 1) =~= all.take(k as int).push(all[k as int]));
        }
        k += 1;
    }
    proof {
        let all = meter(mag as int, cells as int);
        assert(all.take(cells as int) =~= all);
    }
    r
}

/// How loud a level is.
#[derive(Clone, Copy, Debug, PartialEq, Eq, Structural)]
pub enum Loudness {
    /// At most half scale.
    Normal,
    /// Above half scale.
    High,
    /// Close to clipping.
    Clipping,
}

/// The loudness that a level meter's colour shows.
pub open spec fn loudness_of(mag: int) -> Loudness {
    if mag > 850_000 {
        Loudness::Clipping
    } else if mag > 500_000 {
        Loudness::High
    } else {
        Loudness::Normal
    }
}

/// The loudness that a level meter's colour shows.
pub fn loudness(mag: Micro) -> (r: Loudness)
    ensures
        r == loudness_of(mag as int),
{
    if mag > 850_000 {
        Loudness::Clipping
    } else if mag > 500_000 {
        Loudness::High
    } else {
        Loudness::Normal
    }
}

} // verus!
