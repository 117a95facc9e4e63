//! The bottom panel: shader and device names, the spectrum, and the status
//! line.

use vstd::prelude::*;
use vstd::string::*;

use crate::commands::UiMirror;
use crate::text::{decimal, one_place, one_place_text, push_decimal, view_opt};

verus! {

/// What the status line reports.
#[derive(Clone, Copy, Debug, PartialEq, Eq, Structural)]
pub enum Mode {
    Normal,
    /// A tempo is being typed.
    Entry,
    /// The shader did not compile.
    Error,
}

impl Mode {
    /// The word shown for the mode.
    pub fn word(self) -> (r: &'static str)
        ensures
            r@ == match self {
                Mode::Normal => "NORMAL"@,
                Mode::Entry => "ENTRY"@,
                Mode::Error => "ERROR"@,
            },
    {
        match self {
            Mode::Normal => "NORMAL",
            Mode::Entry => "ENTRY",
            Mode::Error => "ERROR",
        }
    }
}

/// The mode of the status line; a shader error goes before a tempo entry.
pub open spec fn mode_of(broken: bool, typing: bool) -> Mode {
    if broken {
        Mode::Error
    } else if typing {
        Mode::Entry
    } else {
        Mode::Normal
    }
}

/// The mode of the status line.
pub fn mode(m: &UiMirror) -> (r: Mode)
    ensures
        r == mode_of(m.shader_error is Some, m.bpm_entry is Some),
{
    if m.shader_error.is_some() {
        Mode::Error
    } else if m.bpm_entry.is_some() {
        Mode::Entry
    } else {
        Mode::Normal
    }
}

/// A text, or what stands in for it.
pub open spec fn text_or(t: Option<Seq<char>>, other: Seq<char>) -> Seq<char> {
    match t {
        Some(s) => s,
        None => other,
    }
}

/// A text, or what stands in for it.
fn or_text(t: &Option<String>, other: &str) -> (r: String)
    ensures
        r@ == text_or(view_opt(*t), other@),
{
    match t {
        Some(s) => s.clone(),
        None => other.to_owned(),
    }
}

/// The name of the loaded shader.
pub fn shader_text(m: &UiMirror) -> (r: String)
    ensures
        r@ == text_or(view_opt(m.shader_name), "<none>"@),
{
    or_text(&m.shader_name, "<none>")
}

/// The name of the audio device in use.
pub fn device_text(m: &UiMirror) -> (r: String)
    ensures
        r@ == text_or(view_opt(m.current_device), "default"@),
{
    or_text(&m.current_device, "default")
}

/// The session summary of the status line.
pub fn summary(m: &UiMirror) -> (r: String)
    ensures
        r@ == text_or(view_opt(m.shader_name), "—"@) + "   "@ + decimal(m.clips@.len()) + " clips · "@ + decimal(
            m.cues@.len(),
        ) + " cues · "@ + one_place(m.bpm as int) + " bpm"@,
{
    let mut r = or_text(&m.shader_name, "—");
    r.append("   ");
    push_decimal(&mut r, m.clips.len() as u64);
    r.append(" clips · ");
    push_decimal(&mut r, m.cues.len() as u64);
    r.append(" cues · ");
    r.append(one_place_text(m.bpm).as_str());
    r.append(" bpm");
    r
}

/// The label of the spectrum's view switch.
pub fn spectrum_label(linear: bool) -> (r: &'static str)
    ensures
        r@ == if linear {
            "512·lin"@
        } else {
            "21·log"@
        },
{
    if linear {
        "512·lin"
    } else {
        "21·log"
    }
}

/// The first bin of column `c` of `cols` over `n` bins.
pub open spec fn first_bin(c: int, n: int, cols: int) -> int {
    c * n / cols
}

/// The bin after the last one of column `c`: a column covers one bin at least.
pub open spec fn end_bin(c: int, n: int, cols: int) -> int {
    let hi = (c + 1) * n / cols;
    if hi < first_bin(c, n, cols) + 1 {
        first_bin(c, n, cols) + 1
    } else {
        hi
    }
}

/// The largest byte of a sequence, zero for an empty one.
pub open spec fn largest(s: Seq<u8>) -> u8
    decreases s.len(),
{
    if s.len() == 0 {
        0
    } else if largest(s.drop_last()) > s.last() {
        largest(s.drop_last())
    } else {
        s.last()
    }
}

/// A spectrum pooled to `cols` columns: each shows the largest bin it covers.
/// Without bins every column is zero.
pub open spec fn pooled(spectrum: Seq<u8>, cols: int) -> Seq<u8> {
    Seq::new(
        cols as nat,
        |c: int|
            if spectrum.len() == 0 {
                0
            } else {
                largest(
                    spectrum.subrange(
                        first_bin(c, spectrum.len() as int, cols),
                        end_bin(c, spectrum.len() as int, cols),
                    ),
                )
            },
    )
}

/// Every column covers bins of the spectrum, one at least.
pub proof fn columns_cover_bins(c: int, n: int, cols: int)
    requires
        n > 0,
        0 <= c < cols,
    ensures
        0 <= first_bin(c, n, cols) < end_bin(c, n, cols) <= n,
{
    let a = c * n;
    let b = (c + 1) * n;
    assert(0 <= a && b == a + n && b <= cols * n && a <= cols * n - n) by (nonlinear_arith)
        requires
            a == c * n,
            b == (c + 1) * n,
            n > 0,
            0 <= c < cols,
    ;
    assert(cols * n / cols == n) by {
        vstd::arithmetic::div_mod::lemma_div_multiples_vanish(n, cols);
        assert(cols * n == n * cols) by (nonlinear_arith);
    }
    vstd::arithmetic::div_mod::lemma_div_is_ordered(b, cols * n, cols);
    vstd::arithmetic::div_mod::lemma_fundamental_div_mod(a, cols);
    let q = a / cols;
    assert(0 <= q < n) by (nonlinear_arith)
        requires
            a == cols * q + a % cols,
            0 <= a % cols,
            0 <= a <= cols * n - n,
            n > 0,
            cols > 0,
            q == a / cols,
    ;
}

/// The largest of the bytes `from..to`.
fn largest_in(v: &Vec<u8>, from: usize, to: usize) -> (r: u8)
    requires
        from <= to <= v@.len(),
    ensures
        r == largest(v@.subrange(from as int, to as int)),
{
    let mut r: u8 = 0;
    let mut i: usize = from;
    while i < to
        invariant
            from <= i <= to <= v@.len(),
            r == largest(v@.subrange(from as int, i as int)),
        decreases to - i,
    {
        proof {
            let next = v@.subrange(from as int, i + 1);
            assert(next.drop_last() =~= v@.subrange(from as int, i as int));
        }
        if v[i] >= r {
            r = v[i];
        }
        i += 1;
    }
    r
}

/// Pools a spectrum to `cols` columns.
pub fn pool(spectrum: &Vec<u8>, cols: usize) -> (r: Vec<u8>)
    ensures
        r@ == pooled(spectrum@, cols as int),
{
    let n: usize = spectrum.len();
    let mut r: Vec<u8> = Vec::new();
    let mut c: usize = 0;
    while c < cols
        invariant
            c <= cols,
            n == spectrum@.len(),
            r@ == pooled(spectrum@, cols as int).take(c as int),
        decreases cols - c,
    {
        if n == 0 {
            r.push(0);
        } else {
            proof {
                let (ci, ni) = (c as int, n as int);
                columns_cover_bins(ci, ni, cols as int);
                assert(0 <= ci * ni && 0 <= (ci + 1) * ni <= 0xffff_ffff_ffff_ffff * 0xffff_ffff_ffff_ffff)
                    by (nonlinear_arith)
                    requires
                        0 <= ci < 0xffff_ffff_ffff_ffff,
                        0 <= ni <= 0xffff_ffff_ffff_ffff,
                ;
                assert((ci + 1) * ni == ci * ni + ni) by (nonlinear_arith);
            }
            let lo: u128 = c as u128 * n as u128 / cols as u128;
            let hi: u128 = (c as u128 + 1) * n as u128 / cols as u128;
            let end: u128 = if hi < lo + 1 {
                lo + 1
            } else {
                hi
            };
            r.push(largest_in(spectrum, lo as usize, end as usize));
        }
        proof {
            let all = pooled(spectrum@, cols as int);
            assert(all.take(c + 1) =~= all.take(c as int).push(all[c as int]));
        }
        c += 1;
    }
    proof {
        let all = pooled(spectrum@, cols as int);
        assert(all.take(cols as int) =~= all);
    }
    r
}

} // verus!
