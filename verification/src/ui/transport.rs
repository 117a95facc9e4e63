//! The transport panel: tempo readout, beat indicator, sync source and the
//! two cadence rows.

use vstd::prelude::*;
use vstd::string::*;

use crate::commands::{
    bar_ticks_measure_the_quantum, Cadence, Command, SyncKind, TimeSig, UiMirror, MICRO_BEATS_PER_TICK,
};
use crate::seqs::{first_at, first_at_is};
use crate::text::{align_right, decimal, one_place, one_place_text, push_decimal, right_aligned};
use crate::ui::{bars_label, bars_text};
use crate::units::{clamped, floor_div, rounded, Micro, MicroBeats, MicroBpm, MICRO};

verus! {

/// Choices of the "next every" row, in bars.
pub const CADENCE_BARS: [u32; 5] = [1, 2, 4, 8, 16];

/// Choices of the "loop every" row, in ticks; a bar of 4/4 is 128.
pub const LOOP_CADENCE: [u32; 8] = [16, 32, 64, 128, 256, 512, 1024, 2048];

/// The name of a loop length.
pub open spec fn loop_text(ticks: int) -> Seq<char> {
    if ticks == 16 {
        "1/8"@
    } else if ticks == 32 {
        "1/4"@
    } else if ticks == 64 {
        "1/2"@
    } else {
        bars_text((ticks / 128) as nat)
    }
}

/// The name of a choice of the "loop every" row.
pub fn loop_label(ticks: u32) -> (r: String)
    ensures
        r@ == loop_text(ticks as int),
{
    if ticks == 16 {
        "1/8".to_owned()
    } else if ticks == 32 {
        "1/4".to_owned()
    } else if ticks == 64 {
        "1/2".to_owned()
    } else {
        bars_label(ticks / 128)
    }
}

/// The cadence behind a loop length: a note below a bar, bars from there on.
pub open spec fn loop_cadence(ticks: u32) -> Cadence {
    if ticks < 128 {
        Cadence::Note(ticks)
    } else {
        Cadence::Bars((ticks / 128) as u32)
    }
}

/// The length of the phrase choice at `i` under a signature, in beats.
pub open spec fn next_beats(i: int, ts: TimeSig) -> int {
    Cadence::Bars(CADENCE_BARS[i]).spec_ticks(ts) * MICRO_BEATS_PER_TICK
}

/// The phrase choices under a signature, in beats.
pub open spec fn next_lengths(ts: TimeSig) -> Seq<int> {
    Seq::new(5, |i: int| next_beats(i, ts))
}

/// The loop choices under a signature, in ticks.
pub open spec fn loop_lengths(ts: TimeSig) -> Seq<int> {
    Seq::new(8, |i: int| loop_cadence(LOOP_CADENCE[i]).spec_ticks(ts))
}

/// Selects a length.
pub open spec fn is_length(x: int) -> spec_fn(int) -> bool {
    |y: int| y == x
}

proof fn bars_fit(n: int, ts: TimeSig)
    requires
        0 <= n <= 16,
        ts.den > 0,
    ensures
        0 <= n * ts.spec_bar_ticks() <= 522_240,
{
    let d = ts.den as int;
    let k = ts.num as int;
    assert(0 <= 128int / d <= 128) by (nonlinear_arith)
        requires
            d > 0,
    ;
    let p = 128int / d;
    assert(0 <= k * p <= 255 * 128) by (nonlinear_arith)
        requires
            0 <= k <= 255,
            0 <= p <= 128,
    ;
    let b = k * p;
    assert(0 <= n * b <= 16 * 32_640) by (nonlinear_arith)
        requires
            0 <= n <= 16,
            0 <= b <= 32_640,
    ;
}

/// The choice of the "next every" row that the phrase length is at, if any.
pub fn next_selected(m: &UiMirror) -> (r: Option<usize>)
    requires
        m.time_sig.den > 0,
    ensures
        match r {
            Some(i) => i == first_at(next_lengths(m.time_sig), is_length(m.phrase_beats as int)) && i < 5,
            None => first_at(next_lengths(m.time_sig), is_length(m.phrase_beats as int)) == 5,
        },
{
    let mut i: usize = 0;
    while i < 5
        invariant
            i <= 5,
            m.time_sig.den > 0,
            forall|j: int| 0 <= j < i ==> #[trigger] next_lengths(m.time_sig)[j] != m.phrase_beats,
        decreases 5 - i,
    {
        let bars: u32 = CADENCE_BARS[i];
        proof {
            bars_fit(bars as int, m.time_sig);
        }
        let beats: MicroBeats = Cadence::Bars(bars).beats(m.time_sig);
        assert(next_lengths(m.time_sig)[i as int] == beats);
        if beats == m.phrase_beats {
            proof {
                first_at_is(next_lengths(m.time_sig), is_length(m.phrase_beats as int), i as int);
            }
            return Some(i);
        }
        i += 1;
    }
    proof {
        first_at_is(next_lengths(m.time_sig), is_length(m.phrase_beats as int), 5);
    }
    None
}

/// The phrase of a choice of the "next every" row.
pub open spec fn phrase_at(i: int) -> Cadence {
    Cadence::Bars(CADENCE_BARS[i])
}

/// The command of a choice of the "next every" row.
pub fn next_choice(i: usize) -> (r: Command)
    requires
        i < 5,
    ensures
        r == Command::SetPhraseCadence(phrase_at(i as int)),
{
    Command::SetPhraseCadence(Cadence::Bars(CADENCE_BARS[i]))
}

/// The phrase length that a choice sets is marked with that choice.
pub proof fn the_chosen_phrase_is_marked(i: int, ts: TimeSig)
    requires
        ts.valid(),
        0 <= i < 5,
    ensures
        first_at(next_lengths(ts), is_length(Cadence::Bars(CADENCE_BARS[i]).spec_ticks(ts) * MICRO_BEATS_PER_TICK))
            == i,
{
    bar_ticks_measure_the_quantum(ts);
    let b = ts.spec_bar_ticks();
    let x = next_beats(i, ts);
    assert forall|j: int| 0 <= j < i implies !is_length(x)(#[trigger] next_lengths(ts)[j]) by {
        let m = CADENCE_BARS[j] as int;
        let n = CADENCE_BARS[i] as int;
        assert(CADENCE_BARS[0] == 1 && CADENCE_BARS[1] == 2 && CADENCE_BARS[2] == 4 && CADENCE_BARS[3] == 8
            && CADENCE_BARS[4] == 16);
        assert(m < n);
        assert(m * b < n * b) by (nonlinear_arith)
            requires
                m < n,
                b > 0,
        ;
    }
    first_at_is(next_lengths(ts), is_length(x), i);
}

/// The choice of the "loop every" row that the loop length is at; the first,
/// "off", also stands for a length that is not on offer.
pub fn loop_selected(m: &UiMirror) -> (r: usize)
    requires
        m.time_sig.den > 0,
    ensures
        r == match m.loop_len {
            Some(t) => {
                let i = first_at(loop_lengths(m.time_sig), is_length(t as int));
                if i < 8 {
                    i + 1
                } else {
                    0
                }
            },
            None => 0,
        },
{
    match m.loop_len {
        Some(t) => {
            let mut i: usize = 0;
            while i < 8
                invariant
                    i <= 8,
                    m.time_sig.den > 0,
                    m.loop_len == Some(t),
                    forall|j: int| 0 <= j < i ==> #[trigger] loop_lengths(m.time_sig)[j] != t,
                decreases 8 - i,
            {
                let c = loop_cadence_of(LOOP_CADENCE[i]);
                proof {
                    let k = LOOP_CADENCE[i as int];
                    bars_fit((k / 128) as int, m.time_sig);
                }
                let ticks: u32 = c.ticks(m.time_sig);
                assert(loop_lengths(m.time_sig)[i as int] == ticks);
                if ticks == t {
                    proof {
                        first_at_is(loop_lengths(m.time_sig), is_length(t as int), i as int);
                    }
                    return i + 1;
                }
                i += 1;
            }
            proof {
                first_at_is(loop_lengths(m.time_sig), is_length(t as int), 8);
            }
            0
        },
        None => 0,
    }
}

fn loop_cadence_of(ticks: u32) -> (r: Cadence)
    ensures
        r == loop_cadence(ticks),
{
    if ticks < 128 {
        Cadence::Note(ticks)
    } else {
        Cadence::Bars(ticks / 128)
    }
}

/// The loop of a choice of the "loop every" row; the first is "off".
pub open spec fn loop_at(i: int) -> Option<Cadence> {
    if i == 0 {
        None
    } else {
        Some(loop_cadence(LOOP_CADENCE[i - 1]))
    }
}

/// The command of a choice of the "loop every" row.
pub fn loop_choice(i: usize) -> (r: Command)
    requires
        i <= 8,
    ensures
        r == Command::SetLoopCadence(loop_at(i as int)),
{
    if i == 0 {
        Command::SetLoopCadence(None)
    } else {
        Command::SetLoopCadence(Some(loop_cadence_of(LOOP_CADENCE[i - 1])))
    }
}

/// In 4/4 every loop choice lasts as many ticks as its list entry says.
pub proof fn loop_choices_count_common_time(i: int)
    requires
        0 <= i < 8,
    ensures
        loop_lengths(TimeSig { num: 4, den: 4 })[i] == LOOP_CADENCE[i],
{
    let ts = TimeSig { num: 4, den: 4 };
    assert(128int / ts.den as int == 32);
    assert(ts.num as int * 32 == 128);
    assert(LOOP_CADENCE[0] == 16 && LOOP_CADENCE[1] == 32 && LOOP_CADENCE[2] == 64 && LOOP_CADENCE[3] == 128
        && LOOP_CADENCE[4] == 256 && LOOP_CADENCE[5] == 512 && LOOP_CADENCE[6] == 1024 && LOOP_CADENCE[7]
        == 2048);
    let t = LOOP_CADENCE[i];
    if t >= 128 {
        assert(loop_cadence(t).spec_ticks(ts) == (t / 128) * 128);
    }
}

/// The tempo readout: one decimal place, six characters wide.
pub fn bpm_text(bpm: MicroBpm) -> (r: String)
    ensures
        r@ == right_aligned(one_place(bpm as int), 6),
{
    align_right(one_place_text(bpm).as_str(), 6)
}

/// The readout while a tempo is being typed.
pub fn entry_text(entry: &str) -> (r: String)
    ensures
        r@ == entry@ + "▏"@,
{
    let mut r = entry.to_owned();
    r.append("▏");
    r
}

/// The bar counter.
pub fn bar_text(m: &UiMirror) -> (r: String)
    ensures
        r@ == "bar "@ + decimal((m.bar_in_phrase + 1) as nat) + "/"@ + decimal(
            if m.bars_per_phrase == 0 {
                1
            } else {
                m.bars_per_phrase as nat
            },
        ),
{
    let mut r = "bar ".to_owned();
    push_decimal(&mut r, m.bar_in_phrase as u64 + 1);
    r.append("/");
    let bars: u64 = if m.bars_per_phrase == 0 {
        1
    } else {
        m.bars_per_phrase as u64
    };
    push_decimal(&mut r, bars);
    r
}

/// One dot per beat of the bar, and the dot of the current beat. The first dot
/// is the downbeat.
#[derive(Clone, Copy, Debug, PartialEq, Eq, Structural)]
pub struct BeatDots {
    pub count: u64,
    pub current: u64,
}

/// How many dots a bar of `quantum` beats has: the nearest number, one at
/// least.
pub open spec fn dot_count(quantum: int) -> int {
    if rounded(quantum, 1_000_000) < 1 {
        1
    } else {
        rounded(quantum, 1_000_000)
    }
}

/// The dot of the beat that a bar is in.
pub open spec fn dot_at(phase: int, quantum: int) -> int {
    (if phase < 0 {
        0
    } else {
        phase / 1_000_000
    }) % dot_count(quantum)
}

/// The row of beat dots.
pub fn beat_dots(m: &UiMirror) -> (r: BeatDots)
    ensures
        r.count == dot_count(m.quantum as int),
        r.current == dot_at(m.phase as int, m.quantum as int),
        r.current < r.count,
{
    let n: i128 = crate::units::round(m.quantum, MICRO);
    let count: u64 = if n < 1 {
        1
    } else {
        n as u64
    };
    let beat: u64 = if m.phase < 0 {
        0
    } else {
        m.phase as u64 / 1_000_000
    };
    BeatDots { count, current: beat % count }
}

/// How far the phrase has come, as a ratio, and how many bars mark the strip.
#[derive(Clone, Copy, Debug, PartialEq, Eq, Structural)]
pub struct PhraseStrip {
    pub fraction: Micro,
    pub bars: u64,
}

/// A length in beats, one beat at least.
pub open spec fn at_least_a_beat(beats: int) -> int {
    if beats < 1_000_000 {
        1_000_000
    } else {
        beats
    }
}

/// The progress of the phrase in millionths.
pub open spec fn phrase_fraction(bar: int, quantum: int, phase: int, phrase: int) -> int {
    clamped(
        (bar * at_least_a_beat(quantum) + phase) * 1_000_000 / at_least_a_beat(phrase),
        0,
        1_000_000,
    )
}

/// How many bars mark the strip of a phrase: the nearest number, one at least.
pub open spec fn strip_bars(phrase: int, quantum: int) -> int {
    let n = rounded(at_least_a_beat(phrase), at_least_a_beat(quantum));
    if n < 1 {
        1
    } else {
        n
    }
}

/// The strip that shows the time to the next cut.
pub fn phrase_strip(m: &UiMirror) -> (r: PhraseStrip)
    ensures
        r.fraction == phrase_fraction(
            m.bar_in_phrase as int,
            m.quantum as int,
            m.phase as int,
            m.phrase_beats as int,
        ),
        r.bars == strip_bars(m.phrase_beats as int, m.quantum as int),
{
    let phrase: i64 = if m.phrase_beats < 1_000_000 {
        1_000_000
    } else {
        m.phrase_beats
    };
    let quantum: i64 = if m.quantum < 1_000_000 {
        1_000_000
    } else {
        m.quantum
    };
    proof {
        let (b, q) = (m.bar_in_phrase as int, quantum as int);
        assert(0 <= b * q <= 0xffff_ffff * 0x7fff_ffff_ffff_ffff) by (nonlinear_arith)
            requires
                0 <= b <= 0xffff_ffff,
                0 <= q <= 0x7fff_ffff_ffff_ffff,
        ;
    }
    let progressed: i128 = m.bar_in_phrase as i128 * quantum as i128 + m.phase as i128;
    let f: i128 = floor_div(progressed * 1_000_000, phrase as i128);
    let fraction: i64 = if f < 0 {
        0
    } else if f > 1_000_000 {
        1_000_000
    } else {
        f as i64
    };
    let n: i128 = crate::units::round(phrase, quantum);
    proof {
        let (p, q) = (phrase as int, quantum as int);
        let k = (2 * p + q) / (2 * q);
        vstd::arithmetic::div_mod::lemma_fundamental_div_mod(2 * p + q, 2 * q);
        assert(k <= p + 1) by (nonlinear_arith)
            requires
                p >= 0,
                q >= 1,
                2 * q * k <= 2 * p + q,
        ;
    }
    let bars: u64 = if n < 1 {
        1
    } else {
        n as u64
    };
    PhraseStrip { fraction, bars }
}

/// The sync source as the selector shows it; internal when unknown.
pub open spec fn shown_sync(sync: Option<SyncKind>) -> SyncKind {
    match sync {
        Some(k) => k,
        None => SyncKind::Internal,
    }
}

/// The place of a sync source in the selector.
pub open spec fn sync_place(sync: Option<SyncKind>) -> int {
    if shown_sync(sync) == SyncKind::Internal {
        0
    } else {
        1
    }
}

/// The sync source at a place of the selector.
pub open spec fn sync_at(i: int) -> SyncKind {
    if i == 0 {
        SyncKind::Internal
    } else {
        SyncKind::Link
    }
}

/// The place of the current sync source in the selector.
pub fn sync_index(m: &UiMirror) -> (r: usize)
    ensures
        r == sync_place(m.sync),
{
    match m.sync {
        Some(SyncKind::Link) => 1,
        _ => 0,
    }
}

/// The command of the selector's place `i`.
pub fn sync_choice(i: usize) -> (r: Command)
    ensures
        r == Command::SetSyncSource(sync_at(i as int)),
{
    Command::SetSyncSource(if i == 0 {
        SyncKind::Internal
    } else {
        SyncKind::Link
    })
}

/// The tag that counts the other participants of a shared session, shown only
/// while there are any.
pub fn peers_text(m: &UiMirror) -> (r: Option<String>)
    ensures
        match r {
            Some(t) => m.sync == Some(SyncKind::Link) && m.peers > 0 && t@ == decimal(m.peers as nat)
                + " peers"@,
            None => m.sync != Some(SyncKind::Link) || m.peers == 0,
        },
{
    match m.sync {
        Some(SyncKind::Link) => {
            if m.peers > 0 {
                let mut t = crate::text::decimal_text(m.peers);
                t.append(" peers");
                Some(t)
            } else {
                None
            }
        },
        _ => None,
    }
}

} // verus!
