//! What the control surface writes: numbers, times and lengths read back as what
//! they stand for, meters and columns show what they measure.

use vstd::prelude::*;
use vstd::string::*;

use crate::bank::CueId;
use crate::commands::{Cadence, ChainSlotModel, Command, CueView, ShaderId, ShaderPoolView, SlotRefModel, SyncKind};
use crate::isf::{IsfInputKindModel, IsfInputModel, IsfValue, Point2, Rgba};
use crate::paths::{file_name_of, stem_of};
use crate::seqs::{first_at, first_at_bounds};
use crate::text::{
    decimal, decimal_value, decimals_stand_for_their_number, digit, one_place, right_aligned, sign, two_places,
};
use crate::ui::editor::{
    control_kind, controls, exchanged, has_shader_id, is_value, loop_rate_text, nearest_ticks, out_switched, slot_text,
    source_tempo, tick_count, ControlKindModel,
};
use crate::ui::library::{
    badge_texts, beats_text, border_of, dwell_tags, is_retimed, loop_tags, moved_earlier, moved_onto, tag_if,
    tile_texts,
};
use crate::ui::status::{columns_cover_bins, end_bin, first_bin, largest, mode_of, pooled, text_or};
use crate::ui::transport::{
    dot_at, dot_count, loop_at, loop_text, phrase_at, phrase_fraction, strip_bars, sync_at, sync_place, CADENCE_BARS,
    LOOP_CADENCE,
};
use crate::ui::widgets::{block, height, loudness_of, meter, track};
use crate::ui::{bars_text, ellipsized, painted_after, selection, shows, time_text, trim_text, Repaint};
use crate::units::{half_even, magnitude, rounded, MicroSecs, Nanos, Single};

verus! {

/// Rounding finds the nearest number; halfway between two it takes the even one.
pub proof fn ties_go_to_even(n: int, d: int)
    requires
        0 <= n,
        0 < d,
    ensures
        ({
            let h = half_even(n, d);
            &&& 0 <= h
            &&& -d <= 2 * (h * d - n) <= d
            &&& 2 * (h * d - n) == d || 2 * (n - h * d) == d ==> h % 2 == 0
        }),
{
    let (q, m) = (n / d, n % d);
    assert(n == q * d + m && 0 <= m < d && 0 <= q) by (nonlinear_arith)
        requires
            0 <= n,
            0 < d,
            q == n / d,
            m == n % d,
    ;
    assert((q + 1) * d == q * d + d) by (nonlinear_arith);
}

/// Rounding finds the nearest number; halfway between two it goes away from zero.
pub proof fn ties_go_away_from_zero(x: int, d: int)
    requires
        0 < d,
    ensures
        ({
            let r = rounded(x, d);
            &&& -d <= 2 * (r * d - x) <= d
            &&& x >= 0 ==> r >= 0 && 2 * (x - r * d) < d
            &&& x <= 0 ==> r <= 0 && 2 * (r * d - x) < d
        }),
{
    let a = magnitude(x);
    let k = (2 * a + d) / (2 * d);
    assert(k * (2 * d) <= 2 * a + d < (k + 1) * (2 * d) && 0 <= k) by (nonlinear_arith)
        requires
            0 <= a,
            0 < d,
            k == (2 * a + d) / (2 * d),
    ;
    assert(k * (2 * d) == 2 * (k * d) && (k + 1) * (2 * d) == 2 * (k * d) + 2 * d && (-k) * d == -(k * d))
        by (nonlinear_arith);
    if x == 0 {
        assert(k == 0) by (nonlinear_arith)
            requires
                2 * (k * d) <= d,
                0 <= k,
                0 < d,
        ;
    }
}

proof fn one_more_digit(s: Seq<char>, d: int)
    requires
        0 <= d < 10,
    ensures
        decimal_value(s.push(digit(d))) == decimal_value(s) * 10 + d,
        48 <= digit(d) as int <= 57,
{
    assert(s.push(digit(d)).drop_last() =~= s);
}

/// A number with one decimal place is written as its sign, its whole part, a
/// point and a digit; read back, it is within half a tenth.
pub proof fn one_place_is_the_nearest_tenth(v: int)
    ensures
        ({
            let s = one_place(v);
            let n = s.len() as int;
            let from = if v < 0 {
                1int
            } else {
                0int
            };
            let tenths = decimal_value(s.subrange(from, n - 2).push(s[n - 1]));
            &&& n >= from + 3
            &&& v < 0 ==> s[0] == '-'
            &&& s[n - 2] == '.'
            &&& -50_000 <= tenths * 100_000 - magnitude(v) <= 50_000
        }),
{
    let t = half_even(magnitude(v), 100_000);
    ties_go_to_even(magnitude(v), 100_000);
    let s = one_place(v);
    let n = s.len() as int;
    let whole = decimal((t / 10) as nat);
    decimals_stand_for_their_number((t / 10) as nat);
    let from = sign(v).len() as int;
    assert(s.subrange(from, n - 2) =~= whole);
    assert(s[n - 1] == digit(t % 10));
    one_more_digit(whole, t % 10);
}

/// A number with two decimal places, read back, is within half a hundredth.
pub proof fn two_places_are_the_nearest_hundredth(v: int)
    ensures
        ({
            let s = two_places(v);
            let n = s.len() as int;
            let from = if v < 0 {
                1int
            } else {
                0int
            };
            let hundredths = decimal_value(s.subrange(from, n - 3).push(s[n - 2]).push(s[n - 1]));
            &&& n >= from + 4
            &&& v < 0 ==> s[0] == '-'
            &&& s[n - 3] == '.'
            &&& -5_000 <= hundredths * 10_000 - magnitude(v) <= 5_000
        }),
{
    let t = half_even(magnitude(v), 10_000);
    ties_go_to_even(magnitude(v), 10_000);
    let s = two_places(v);
    let n = s.len() as int;
    let whole = decimal((t / 100) as nat);
    decimals_stand_for_their_number((t / 100) as nat);
    let from = sign(v).len() as int;
    assert(s.subrange(from, n - 3) =~= whole);
    let d = t % 100;
    assert(s[n - 2] == digit(d / 10) && s[n - 1] == digit(d % 10));
    one_more_digit(whole, d / 10);
    one_more_digit(whole.push(digit(d / 10)), d % 10);
}

/// An aligned text ends with the text, is as wide as asked at least, and has
/// nothing but spaces before.
pub proof fn aligned_texts_end_with_their_text(s: Seq<char>, width: int, i: int)
    requires
        0 <= width,
    ensures
        ({
            let r = right_aligned(s, width);
            &&& r.len() == if s.len() < width {
                width
            } else {
                s.len() as int
            }
            &&& r.skip(r.len() - s.len()) == s
            &&& 0 <= i < r.len() - s.len() ==> r[i] == ' '
        }),
{
    let r = right_aligned(s, width);
    assert(r.skip(r.len() - s.len()) =~= s);
}

/// A time is written as minutes, a colon, two digits of seconds, a point and two
/// more; read back, it is within half a hundredth of a second. A time before zero
/// reads as zero.
pub proof fn times_read_back(t: int)
    requires
        0 <= t,
    ensures
        ({
            let s = time_text(t);
            let n = s.len() as int;
            let minutes = decimal_value(s.take(n - 6));
            let hundredths = decimal_value(seq![s[n - 5], s[n - 4], s[n - 2], s[n - 1]]);
            &&& n >= 7
            &&& s[n - 6] == ':'
            &&& s[n - 3] == '.'
            &&& minutes * 60_000_000 <= t < (minutes + 1) * 60_000_000
            &&& -5_000 <= minutes * 60_000_000 + hundredths * 10_000 - t <= 5_000
        }),
        time_text(-t) == time_text(0),
{
    let part = t % 60_000_000;
    let h = half_even(part, 10_000);
    ties_go_to_even(part, 10_000);
    assert(h <= 6000);
    let s = time_text(t);
    let n = s.len() as int;
    let whole = decimal((t / 60_000_000) as nat);
    decimals_stand_for_their_number((t / 60_000_000) as nat);
    assert(s.take(n - 6) =~= whole);
    let (a, b) = (h / 100, h % 100);
    assert(s[n - 5] == digit(a / 10) && s[n - 4] == digit(a % 10) && s[n - 2] == digit(b / 10) && s[n - 1] == digit(
        b % 10,
    ));
    let none = Seq::<char>::empty();
    assert(decimal_value(none) == 0);
    one_more_digit(none, a / 10);
    one_more_digit(none.push(digit(a / 10)), a % 10);
    one_more_digit(none.push(digit(a / 10)).push(digit(a % 10)), b / 10);
    one_more_digit(none.push(digit(a / 10)).push(digit(a % 10)).push(digit(b / 10)), b % 10);
    assert(seq![s[n - 5], s[n - 4], s[n - 2], s[n - 1]] =~= none.push(digit(a / 10)).push(digit(a % 10)).push(
        digit(b / 10),
    ).push(digit(b % 10)));
}

/// A trim reads from its in-point to its out-point, or to the end.
pub proof fn trims_read_from_in_to_out(in_sec: int, out_sec: MicroSecs)
    ensures
        ({
            let (open, closed) = (trim_text(in_sec, None), trim_text(in_sec, Some(out_sec)));
            let n = time_text(in_sec).len() as int;
            &&& open.take(n) == time_text(in_sec)
            &&& closed.take(n) == time_text(in_sec)
            &&& open.skip(n) == "–"@ + "end"@
            &&& closed.skip(n) == "–"@ + time_text(out_sec as int)
        }),
{
    let n = time_text(in_sec).len() as int;
    assert(trim_text(in_sec, None).take(n) =~= time_text(in_sec));
    assert(trim_text(in_sec, Some(out_sec)).take(n) =~= time_text(in_sec));
    assert(trim_text(in_sec, None).skip(n) =~= "–"@ + "end"@);
    assert(trim_text(in_sec, Some(out_sec)).skip(n) =~= "–"@ + time_text(out_sec as int));
}

/// Bars are counted in words; one bar is not plural.
pub proof fn bars_are_named(bars: nat)
    ensures
        bars == 1 ==> bars_text(bars) == decimal(1) + " bar"@,
        bars != 1 ==> bars_text(bars) == decimal(bars) + " bars"@,
{
    reveal_strlit("1 bar");
    reveal_strlit(" bar");
    reveal_with_fuel(decimal, 2);
    assert(bars == 1 ==> bars_text(bars) =~= decimal(1) + " bar"@);
}

/// A text that is cut keeps its beginning and ends in an ellipsis, within the
/// width; one that fits is kept.
pub proof fn cut_texts_keep_their_beginning(s: Seq<char>, max: int, i: int)
    requires
        0 < max,
    ensures
        s.len() <= max ==> ellipsized(s, max) == s,
        s.len() > max ==> {
            let r = ellipsized(s, max);
            &&& r.len() == max
            &&& r.last() == '…'
            &&& 0 <= i < max - 1 ==> r[i] == s[i]
        },
{
}

/// The editor shows the selected cue where it is among those listed, and nothing
/// where it is not.
pub proof fn the_selected_cue_is_shown(cues: Seq<CueView>, selected: Option<CueId>)
    ensures
        selected is None ==> selection(cues, selected) is None,
        selection(cues, selected) matches Some(i) ==> 0 <= i < cues.len() && cues[i].id == selected->0,
        selected is Some && selection(cues, selected) is None ==> forall|i: int|
            0 <= i < cues.len() ==> (#[trigger] cues[i]).id != selected->0,
        selected is Some && selection(cues, selected) is Some ==> forall|i: int|
            0 <= i < selection(cues, selected)->0 ==> (#[trigger] cues[i]).id != selected->0,
{
    if selected is Some {
        let id = selected->0;
        first_at_bounds(cues, shows(id));
        assert forall|i: int| 0 <= i < first_at(cues, shows(id)) implies (#[trigger] cues[i]).id != id by {
            assert(!shows(id)(cues[i]));
        }
    }
}

/// A tick count reads as beats, thirty-two ticks to the beat, to the nearest
/// hundredth; whole beats have no point, and no fraction ends in a zero.
pub proof fn ticks_read_as_beats(ticks: int)
    requires
        0 <= ticks,
    ensures
        ({
            let s = beats_text(ticks);
            let whole = decimal((ticks / 32) as nat);
            let n = whole.len() as int;
            let f = s.skip(n + 1);
            let hundredths = if f.len() == 1 {
                decimal_value(f) * 10
            } else {
                decimal_value(f)
            };
            &&& ticks % 32 == 0 ==> s == whole
            &&& ticks % 32 != 0 ==> s.take(n) == whole && s[n] == '.' && 1 <= f.len() <= 2 && f.last() != '0'
            &&& ticks % 32 != 0 ==> -16 <= hundredths * 32 - ticks % 32 * 100 <= 16
        }),
{
    let s = beats_text(ticks);
    let whole = decimal((ticks / 32) as nat);
    let n = whole.len() as int;
    if ticks % 32 != 0 {
        let rest = ticks % 32 * 100;
        let h = half_even(rest, 32);
        ties_go_to_even(rest, 32);
        assert(3 <= h <= 97);
        let none = Seq::<char>::empty();
        assert(decimal_value(none) == 0);
        assert(s.take(n) =~= whole);
        one_more_digit(none, h / 10);
        one_more_digit(none.push(digit(h / 10)), h % 10);
        if h % 10 == 0 {
            assert(s.skip(n + 1) =~= none.push(digit(h / 10)));
        } else {
            assert(s.skip(n + 1) =~= none.push(digit(h / 10)).push(digit(h % 10)));
        }
    }
}

/// A cue wears a tag for its own dwell, one for its own loop, one for any offset,
/// and one for a speed more than a thousandth off, in that order, and no other.
pub proof fn tags_tell_what_was_set(cue: CueView)
    ensures
        ({
            let tags = badge_texts(cue);
            let dwell = if cue.dwell is Some {
                1int
            } else {
                0int
            };
            let looped = if cue.loop_len is Some {
                1int
            } else {
                0int
            };
            let offset = if cue.loop_phase.on || cue.start_nudge.on || cue.trig_delay.on {
                1int
            } else {
                0int
            };
            let retimed = if cue.speed > 1_001_000 || cue.speed < 999_000 {
                1int
            } else {
                0int
            };
            &&& tags.len() == dwell + looped + offset + retimed
            &&& cue.dwell matches Some(t) ==> tags[0] == "⌛"@ + beats_text(t as int) + "b"@
            &&& cue.loop_len matches Some(t) ==> tags[dwell] == if t == 0 {
                "loop off"@
            } else {
                "↻"@ + beats_text(t as int) + "b"@
            }
            &&& offset == 1 ==> tags[dwell + looped] == "offset"@
            &&& retimed == 1 ==> tags[dwell + looped + offset] == two_places(cue.speed as int) + "×"@
        }),
{
    let tags = badge_texts(cue);
    let (a, b) = (dwell_tags(cue.dwell), loop_tags(cue.loop_len));
    let c = tag_if(cue.loop_phase.on || cue.start_nudge.on || cue.trig_delay.on, "offset"@);
    assert(tags.len() == a.len() + b.len() + c.len() + tag_if(
        is_retimed(cue.speed as int),
        two_places(cue.speed as int) + "×"@,
    ).len());
}

/// A tile says the trim first, then whether the cue keeps its playhead or cuts,
/// where it says so itself, then whether it has effects.
pub proof fn tiles_tell_trim_rule_and_effects(cue: CueView)
    ensures
        ({
            let tags = tile_texts(cue);
            let rule = if cue.preserve is Some {
                1int
            } else {
                0int
            };
            &&& tags.len() == 1 + rule + (if cue.chain@.len() > 0 {
                1int
            } else {
                0int
            })
            &&& tags[0] == trim_text(cue.in_sec as int, cue.out_sec)
            &&& cue.preserve == Some(true) ==> tags[1] == "keep"@
            &&& cue.preserve == Some(false) ==> tags[1] == "cut"@
            &&& cue.chain@.len() > 0 ==> tags.last() == "fx"@
        }),
{
}

proof fn largest_bounds(s: Seq<u8>)
    ensures
        forall|i: int| 0 <= i < s.len() ==> #[trigger] s[i] <= largest(s),
        s.len() > 0 ==> s.contains(largest(s)),
    decreases s.len(),
{
    if s.len() > 0 {
        let front = s.drop_last();
        largest_bounds(front);
        assert forall|i: int| 0 <= i < s.len() implies #[trigger] s[i] <= largest(s) by {
            if i < front.len() {
                assert(front[i] == s[i]);
            }
        }
        if largest(front) > s.last() {
            let i = choose|i: int| 0 <= i < front.len() && front[i] == largest(front);
            assert(front.len() > 0) by {
                if front.len() == 0 {
                    assert(largest(front) == 0);
                }
            }
            assert(s[i] == largest(s));
        } else {
            assert(s[s.len() - 1] == largest(s));
        }
    }
}

/// A column of a pooled spectrum shows the largest of the bins it covers; the
/// first column starts at the first bin and the last ends at the last, and each
/// goes on where the one before it ended, wherever there are bins enough.
pub proof fn columns_show_their_largest_bin(spectrum: Seq<u8>, cols: int, c: int, i: int)
    requires
        0 <= c < cols,
    ensures
        pooled(spectrum, cols).len() == cols,
        spectrum.len() == 0 ==> pooled(spectrum, cols)[c] == 0,
        spectrum.len() > 0 ==> {
            let (lo, hi) = (first_bin(c, spectrum.len() as int, cols), end_bin(c, spectrum.len() as int, cols));
            &&& lo <= i < hi ==> spectrum[i] <= pooled(spectrum, cols)[c]
            &&& exists|k: int| lo <= k < hi && #[trigger] spectrum[k] == pooled(spectrum, cols)[c]
            &&& c == 0 ==> lo == 0
            &&& c == cols - 1 && cols <= spectrum.len() ==> hi == spectrum.len()
            &&& c + 1 < cols <= spectrum.len() ==> first_bin(c + 1, spectrum.len() as int, cols) == hi
        },
{
    let n = spectrum.len() as int;
    if n > 0 {
        columns_cover_bins(c, n, cols);
        let (lo, hi) = (first_bin(c, n, cols), end_bin(c, n, cols));
        let bins = spectrum.subrange(lo, hi);
        largest_bounds(bins);
        if lo <= i < hi {
            assert(bins[i - lo] == spectrum[i]);
        }
        let k = choose|k: int| 0 <= k < bins.len() && bins[k] == largest(bins);
        assert(bins.contains(largest(bins)));
        assert(spectrum[lo + k] == largest(bins));
        assert(0 * n == 0);
        if cols <= n {
            let (q, m) = (c * n / cols, (c + 1) * n / cols);
            assert(m >= q + 1) by (nonlinear_arith)
                requires
                    q == c * n / cols,
                    m == (c + 1) * n / cols,
                    0 < cols <= n,
                    0 <= c,
            ;
            if c == cols - 1 {
                assert(cols * n / cols == n) by (nonlinear_arith)
                    requires
                        cols > 0,
                ;
            }
        }
    }
}

/// A bar has a dot for every beat, to the nearest, and one at least.
pub proof fn a_bar_has_a_dot_per_beat(quantum: int)
    ensures
        dot_count(quantum) >= 1,
        quantum >= 1_000_000 ==> -500_000 <= dot_count(quantum) * 1_000_000 - quantum <= 500_000,
        quantum <= 0 ==> dot_count(quantum) == 1,
{
    ties_go_away_from_zero(quantum, 1_000_000);
}

/// The strip shows how much of the phrase is over: nothing at its start, all of it
/// at its end, and in between the bars that are over and the part of this one.
pub proof fn the_strip_shows_what_is_over(bar: int, quantum: int, phase: int, phrase: int)
    requires
        1_000_000 <= quantum,
        1_000_000 <= phrase,
        0 <= bar,
        0 <= phase,
        bar * quantum + phase <= phrase,
    ensures
        ({
            let f = phrase_fraction(bar, quantum, phase, phrase);
            &&& 0 <= f <= 1_000_000
            &&& f * phrase <= (bar * quantum + phase) * 1_000_000 < (f + 1) * phrase
            &&& bar == 0 && phase == 0 ==> f == 0
            &&& bar * quantum + phase == phrase ==> f == 1_000_000
        }),
{
    let p = bar * quantum + phase;
    let f = p * 1_000_000 / phrase;
    assert(0 <= p) by (nonlinear_arith)
        requires
            p == bar * quantum + phase,
            0 <= bar,
            0 <= quantum,
            0 <= phase,
    ;
    assert(0 <= f <= 1_000_000 && f * phrase <= p * 1_000_000 < (f + 1) * phrase) by (nonlinear_arith)
        requires
            0 <= p <= phrase,
            0 < phrase,
            f == p * 1_000_000 / phrase,
    ;
    assert(0 * quantum == 0);
    if p == phrase {
        assert(f == 1_000_000) by (nonlinear_arith)
            requires
                f == phrase * 1_000_000 / phrase,
                phrase > 0,
        ;
    }
}

/// Loop lengths below a bar are named by their note, longer ones by their bars.
pub proof fn loops_are_named_by_length(ticks: int)
    requires
        ticks == 16 || ticks == 32 || ticks == 64 || ticks >= 128,
    ensures
        ticks == 16 ==> loop_text(ticks) == "1/8"@,
        ticks == 32 ==> loop_text(ticks) == "1/4"@,
        ticks == 64 ==> loop_text(ticks) == "1/2"@,
        ticks >= 256 ==> loop_text(ticks) == decimal((ticks / 128) as nat) + " bars"@,
        128 <= ticks < 256 ==> loop_text(ticks) == "1 bar"@,
{
}

/// A text stands for itself where there is one.
pub proof fn texts_stand_for_themselves(t: Seq<char>, other: Seq<char>)
    ensures
        text_or(Some(t), other) == t,
        text_or(None, other) == other,
{
}

/// A track has a mark at every quarter between its ends.
pub proof fn tracks_are_marked_at_the_quarters(n: int, k: int)
    requires
        4 <= n,
        n % 4 == 0,
        0 <= k < n,
    ensures
        track(n).len() == n + 2,
        track(n)[0] == '├',
        track(n).last() == '┤',
        track(n)[k + 1] == '┼' <==> k == n / 4 || k == n / 2 || k == 3 * (n / 4),
        track(n)[k + 1] == '┼' || track(n)[k + 1] == '─',
{
    let q = n / 4;
    assert(k % q == 0 && k > 0 <==> k == q || k == 2 * q || k == 3 * q) by (nonlinear_arith)
        requires
            q >= 1,
            0 <= k < 4 * q,
    ;
}

/// A column rises with its magnitude, from the lowest block for silence to the
/// full block at full scale, in eight steps.
pub proof fn columns_rise_with_the_level(low: int, high: int)
    requires
        low <= high,
    ensures
        0 <= height(low) <= height(high) <= 7,
        low <= 0 ==> height(low) == 0,
        high >= 1_000_000 ==> height(high) == 7,
        block(0) == '▁' && block(1) == '▂' && block(2) == '▃' && block(3) == '▄',
        block(4) == '▅' && block(5) == '▆' && block(6) == '▇' && block(7) == '█',
{
}

/// A meter fills from its first cell: cells that the level has passed are full,
/// those it has not reached are empty.
pub proof fn meters_fill_from_the_first_cell(mag: int, cells: int, k: int)
    requires
        0 <= k < cells,
        0 <= mag <= 1_000_000,
    ensures
        meter(mag, cells).len() == cells,
        mag * cells >= (k + 1) * 1_000_000 ==> meter(mag, cells)[k] == '█',
        mag * cells <= k * 1_000_000 ==> meter(mag, cells)[k] == '▁',
{
}

/// A control shows the value that its input was set to, and the input's default
/// before; its limits are the input's.
pub proof fn controls_show_what_is_set(
    min: Single,
    max: Single,
    number: Single,
    default: Single,
    on: bool,
    initially: bool,
    colour: Rgba,
    black: Rgba,
)
    ensures
        ({
            let kind = IsfInputKindModel::Float { min, max, default };
            &&& control_kind(kind, Some(IsfValue::Float(number))) == Some(
                ControlKindModel::Slider { value: number, min, max },
            )
            &&& control_kind(kind, None) == Some(ControlKindModel::Slider { value: default, min, max })
            &&& control_kind(kind, Some(IsfValue::Bool(on))) == control_kind(kind, None)
        }),
        control_kind(IsfInputKindModel::Bool { default: initially }, Some(IsfValue::Bool(on))) == Some(
            ControlKindModel::Checkbox { value: on },
        ),
        control_kind(IsfInputKindModel::Bool { default: initially }, None) == Some(
            ControlKindModel::Checkbox { value: initially },
        ),
        control_kind(IsfInputKindModel::Color { default: black }, Some(IsfValue::Color(colour))) == Some(
            ControlKindModel::ColorPicker { value: colour },
        ),
        control_kind(IsfInputKindModel::Color { default: black }, None) == Some(
            ControlKindModel::ColorPicker { value: black },
        ),
{
}

/// A point control shows the point that was set within the input's corners, a
/// momentary input is a trigger, and an image has no control.
pub proof fn points_and_triggers_have_controls(min: Point2, max: Point2, at: Point2, default: Point2, set: IsfValue)
    ensures
        control_kind(IsfInputKindModel::Point2D { min, max, default }, Some(IsfValue::Point2D(at))) == Some(
            ControlKindModel::Point { value: at, min, max },
        ),
        control_kind(IsfInputKindModel::Point2D { min, max, default }, None) == Some(
            ControlKindModel::Point { value: default, min, max },
        ),
        control_kind(IsfInputKindModel::Event, Some(set)) is Some,
        control_kind(IsfInputKindModel::Event, Some(set))->0 is Trigger,
        control_kind(IsfInputKindModel::Image, Some(set)) is None,
{
}

/// A choice offers every value under its own label and shows the label of the one
/// that is picked; a value that is not on offer, or has no label, shows none.
pub proof fn choices_are_shown_by_label(values: Seq<i32>, labels: Seq<Seq<char>>, default: i32, value: i32, i: int)
    requires
        values.no_duplicates(),
    ensures
        ({
            let kind = IsfInputKindModel::Long { values, labels, default };
            let c = control_kind(kind, Some(IsfValue::Long(value)));
            &&& c is Some && c->0 is Choice
            &&& c->0->Choice_value == value
            &&& c->0->options.len() == values.len()
            &&& 0 <= i < values.len() ==> c->0->options[i].value == values[i]
            &&& 0 <= i < values.len() && i < labels.len() ==> c->0->options[i].label == labels[i]
            &&& 0 <= i < values.len() && i >= labels.len() ==> c->0->options[i].label == "?"@
            &&& 0 <= i < values.len() && values[i] == value && i < labels.len() ==> c->0->shown == labels[i]
            &&& !values.contains(value) ==> c->0->shown == "—"@
            &&& control_kind(kind, None) == control_kind(kind, Some(IsfValue::Long(default)))
        }),
{
    first_at_bounds(values, is_value(value));
    let at = first_at(values, is_value(value));
    if at < values.len() {
        assert(is_value(value)(values[at]));
    }
    if 0 <= i < values.len() && values[i] == value {
        assert(is_value(value)(values[i]));
        assert(i >= at);
        assert(values[at] == values[i]);
    }
}

/// Every input but an image has its control, in the order of the inputs, under
/// its label or else its name.
pub proof fn inputs_have_their_controls(slot: ChainSlotModel, inputs: Seq<IsfInputModel>, input: IsfInputModel)
    ensures
        ({
            let (before, after) = (controls(slot, inputs), controls(slot, inputs.push(input)));
            &&& input.kind is Image ==> after == before
            &&& !(input.kind is Image) ==> {
                &&& after.len() == before.len() + 1
                &&& after.drop_last() == before
                &&& after.last().name == input.name
                &&& input.label is Some ==> after.last().label == input.label->0
                &&& input.label is None ==> after.last().label == input.name
                &&& Some(after.last().kind) == control_kind(input.kind, slot.param(input.name))
            }
        }),
        controls(slot, Seq::<IsfInputModel>::empty()).len() == 0,
{
    assert(inputs.push(input).drop_last() =~= inputs);
    let (before, after) = (controls(slot, inputs), controls(slot, inputs.push(input)));
    if !(input.kind is Image) {
        assert(after.drop_last() =~= before);
    }
}

/// A stage is named by what it draws with: the live shader, the effect's name, the
/// name of the pin while there is one and its number afterwards, or the name of
/// the effect file without its extension.
pub proof fn stages_are_named(pool: Seq<ShaderPoolView>, id: ShaderId, name: Seq<char>, path: Seq<char>, i: int)
    requires
        forall|a: int, b: int| 0 <= a < b < pool.len() ==> (#[trigger] pool[a]).id != (#[trigger] pool[b]).id,
    ensures
        slot_text(SlotRefModel::Live, pool) == "Live shader"@,
        slot_text(SlotRefModel::Builtin(name), pool) == name,
        0 <= i < pool.len() && pool[i].id == id ==> slot_text(SlotRefModel::Pinned(id), pool) == pool[i].name@,
        (forall|k: int| 0 <= k < pool.len() ==> (#[trigger] pool[k]).id != id) ==> slot_text(
            SlotRefModel::Pinned(id),
            pool,
        ) == "pin #"@ + decimal(id as nat),
        file_name_of(path) matches Some(file) ==> slot_text(SlotRefModel::Isf(path), pool) == "ISF: "@ + stem_of(file),
        file_name_of(path) is None ==> slot_text(SlotRefModel::Isf(path), pool) == "ISF: "@ + path,
{
    first_at_bounds(pool, has_shader_id(id));
    let at = first_at(pool, has_shader_id(id));
    if at < pool.len() {
        assert(has_shader_id(id)(pool[at]));
        assert(pool[at].id == id);
    }
    if 0 <= i < pool.len() && pool[i].id == id {
        assert(has_shader_id(id)(pool[i]));
        assert(at <= i);
    }
}

/// A cue's own loop reads as the choice it is, or in ticks where it is none.
pub proof fn loop_rates_are_named(ticks: u32)
    ensures
        loop_rate_text(None) == "inherit"@,
        loop_rate_text(Some(0)) == "off"@,
        ticks == 16 || ticks == 32 || ticks == 64 || ticks == 128 || ticks == 256 || ticks == 512 || ticks == 1024
            || ticks == 2048 ==> loop_rate_text(Some(ticks)) == loop_text(ticks as int),
        ticks != 0 && ticks != 16 && ticks != 32 && ticks != 64 && ticks != 128 && ticks != 256 && ticks != 512
            && ticks != 1024 && ticks != 2048 ==> loop_rate_text(Some(ticks)) == decimal(ticks as nat) + " tk"@,
{
}

/// A cue's tempo is its own, or else its clip's.
pub proof fn a_cue_has_its_clips_tempo(cue: CueView)
    ensures
        cue.bpm is Some ==> source_tempo(cue) == cue.bpm,
        cue.bpm is None ==> source_tempo(cue) == cue.clip_bpm,
{
}

/// Beats become the nearest number of ticks, thirty-two to the beat, from the
/// least that is asked for.
pub proof fn beats_become_the_nearest_ticks(beats: int, lo: int)
    requires
        0 <= beats < 4_000_000_000 * 31_250,
        0 <= lo <= 32,
    ensures
        ({
            let t = tick_count(nearest_ticks(beats), lo);
            &&& t >= lo
            &&& beats >= lo * 31_250 ==> -31_250 <= 2 * (t * 31_250 - beats) <= 31_250
            &&& beats * 2 < (2 * lo - 1) * 31_250 ==> t == lo
        }),
{
    ties_go_away_from_zero(beats, 31_250);
}

/// Exchanging two neighbours of a chain moves those two and no other stage.
pub proof fn neighbours_change_places(chain: Seq<ChainSlotModel>, i: int, k: int)
    requires
        0 <= i < chain.len() - 1,
        0 <= k < chain.len(),
    ensures
        exchanged(chain, i).len() == chain.len(),
        exchanged(chain, i)[i] == chain[i + 1],
        exchanged(chain, i)[i + 1] == chain[i],
        k != i && k != i + 1 ==> exchanged(chain, i)[k] == chain[k],
{
}

/// The choices of the phrase row are one, two, four, eight and sixteen bars.
pub proof fn phrase_choices_double(i: int)
    requires
        0 <= i < 5,
    ensures
        phrase_at(0) == Cadence::Bars(1),
        i > 0 ==> phrase_at(i) is Bars && phrase_at(i)->Bars_0 == 2 * phrase_at(i - 1)->Bars_0,
{
    assert(CADENCE_BARS[0] == 1 && CADENCE_BARS[1] == 2 && CADENCE_BARS[2] == 4 && CADENCE_BARS[3] == 8
        && CADENCE_BARS[4] == 16);
}

/// The loop row starts with "off"; each choice after it is twice as long as the one
/// before, from an eighth of a bar of 4/4, and those from a bar on count bars.
pub proof fn loop_choices_double(i: int)
    requires
        0 < i <= 8,
    ensures
        loop_at(0) is None,
        loop_at(i) is Some,
        loop_at(1) == Some(Cadence::Note(16)),
        i <= 3 ==> loop_at(i)->0 is Note,
        1 < i <= 3 ==> loop_at(i)->0->Note_0 == 2 * loop_at(i - 1)->0->Note_0,
        loop_at(4) == Some(Cadence::Bars(1)),
        i > 4 ==> loop_at(i)->0 is Bars && loop_at(i)->0->Bars_0 == 2 * loop_at(i - 1)->0->Bars_0,
{
    assert(LOOP_CADENCE[0] == 16 && LOOP_CADENCE[1] == 32 && LOOP_CADENCE[2] == 64 && LOOP_CADENCE[3] == 128
        && LOOP_CADENCE[4] == 256 && LOOP_CADENCE[5] == 512 && LOOP_CADENCE[6] == 1024 && LOOP_CADENCE[7] == 2048);
}

/// The dot of the beat goes along the bar, from the first on the downbeat.
pub proof fn dots_follow_the_beat(phase: int, beats: int)
    requires
        0 < beats,
        0 <= phase < beats * 1_000_000,
    ensures
        dot_count(beats * 1_000_000) == beats,
        dot_at(phase, beats * 1_000_000) * 1_000_000 <= phase < (dot_at(phase, beats * 1_000_000) + 1) * 1_000_000,
{
    assert((2 * (beats * 1_000_000) + 1_000_000) / 2_000_000 == beats);
    let k = phase / 1_000_000;
    vstd::arithmetic::div_mod::lemma_small_mod(k as nat, beats as nat);
}

/// A phrase of whole bars has a mark for each.
pub proof fn strips_mark_their_bars(bars: int, quantum: int)
    requires
        0 < bars,
        1_000_000 <= quantum,
    ensures
        strip_bars(bars * quantum, quantum) == bars,
{
    let p = bars * quantum;
    assert(p >= quantum) by (nonlinear_arith)
        requires
            p == bars * quantum,
            0 < bars,
            0 < quantum,
    ;
    ties_go_away_from_zero(p, quantum);
    let r = rounded(p, quantum);
    assert(r == bars) by (nonlinear_arith)
        requires
            -quantum <= 2 * (r * quantum - bars * quantum) <= quantum,
            0 < quantum,
    ;
}

/// The place of a sync source is the one that chooses it; an unknown source shows
/// as the internal clock.
pub proof fn sync_places_choose_their_source(kind: SyncKind)
    ensures
        sync_at(sync_place(Some(kind))) == kind,
        sync_place(Some(SyncKind::Internal)) == 0,
        sync_at(sync_place(None)) == SyncKind::Internal,
{
}

/// The border tells selection first, then use, then hovering.
pub proof fn borders_tell_selection_first(selected: bool, active: bool, hovered: bool)
    ensures
        border_of(selected, active, hovered) is Selected <==> selected,
        border_of(selected, active, hovered) is Active <==> active && !selected,
        border_of(selected, active, hovered) is Hovered <==> hovered && !active && !selected,
{
}

/// A cue moves one place forward, except the first; one that is dropped on another
/// takes its place, and one dropped on itself stays.
pub proof fn tiles_move_their_cue(cue: CueId, other: CueId, index: usize)
    ensures
        index > 0 ==> moved_earlier(cue, index) == Some(Command::MoveCue(cue, (index - 1) as usize)),
        moved_earlier(cue, 0) is None,
        cue != other ==> moved_onto(cue, other, index) == Some(Command::MoveCue(cue, index)),
        moved_onto(cue, cue, index) is None,
{
}

/// The status line reports a broken shader before a tempo that is being typed.
pub proof fn errors_are_reported_first(typing: bool)
    ensures
        mode_of(true, typing) is Error,
        mode_of(false, true) is Entry,
        mode_of(false, false) is Normal,
{
}

/// A level is high above half scale, and close to clipping above 85 hundredths.
pub proof fn levels_are_told_apart(mag: int)
    ensures
        loudness_of(mag) is Clipping <==> mag > 850_000,
        loudness_of(mag) is High <==> 500_000 < mag <= 850_000,
        loudness_of(mag) is Normal <==> mag <= 500_000,
{
}

/// The window is painted after the delay that was asked for, at once without one,
/// and not at all within the hour when nothing is waiting.
pub proof fn the_window_is_painted_when_asked(delay: Nanos)
    ensures
        painted_after(delay) is Now <==> delay == 0,
        painted_after(delay) is Idle <==> delay >= 3_600_000_000_000,
        0 < delay < 3_600_000_000_000 ==> painted_after(delay) == Repaint::After(delay),
{
}

/// The out-point's switch trims a second after the in-point, or not at all.
pub proof fn the_out_switch_leaves_a_second(in_sec: MicroSecs)
    requires
        in_sec <= i64::MAX - 1_000_000,
    ensures
        out_switched(in_sec, false) is None,
        out_switched(in_sec, true) is Some,
        out_switched(in_sec, true)->0 == in_sec + 1_000_000,
{
}

} // verus!
