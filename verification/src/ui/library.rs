//! The clip pool, the bank bars and the tiles of the edit bank.

use vstd::prelude::*;
use vstd::string::*;

use crate::bank::CueId;
use crate::commands::{BankView, ClipRole, Command, CueView, LOOP_TICKS_PER_BEAT};
use crate::text::{decimal, decimal_text, digit, push_decimal, push_two_digits, two_digits, two_places, two_places_text, views};
use crate::ui::{trim_label, trim_text};
use crate::units::{half_even, magnitude, round_half_even, Micro};

verus! {

/// Hundredths of a beat beyond the whole beats of `ticks`.
pub open spec fn beat_hundredths(ticks: int) -> int {
    half_even(ticks % 32 * 100, 32)
}

/// A tick count in beats, to the hundredth, without trailing zeros.
pub open spec fn beats_text(ticks: int) -> Seq<char> {
    let whole = decimal((ticks / 32) as nat);
    let h = beat_hundredths(ticks);
    if ticks % 32 == 0 {
        whole
    } else if h % 10 == 0 {
        whole + seq!['.', digit(h / 10)]
    } else {
        whole + seq!['.'] + two_digits(h)
    }
}

/// A tick count as a compact beat count: 512 ticks are `16`, 48 are `1.5`.
pub fn fmt_beats(ticks: u32) -> (r: String)
    ensures
        r@ == beats_text(ticks as int),
{
    let mut r = decimal_text((ticks / LOOP_TICKS_PER_BEAT) as u64);
    let rest: u64 = (ticks % LOOP_TICKS_PER_BEAT) as u64;
    if rest != 0 {
        let h: u64 = round_half_even(rest * 100, 32);
        r.push('.');
        if h % 10 == 0 {
            push_decimal(&mut r, h / 10);
        } else {
            push_two_digits(&mut r, h);
        }
    }
    proof {
        assert(r@ =~= beats_text(ticks as int));
    }
    r
}

/// The marker before a tile's name.
pub fn role_marker(role: ClipRole) -> (r: &'static str)
    ensures
        r@ == match role {
            ClipRole::Playing => "▶"@,
            ClipRole::Armed => "○"@,
            ClipRole::Idle => " "@,
        },
{
    match role {
        ClipRole::Playing => "▶",
        ClipRole::Armed => "○",
        ClipRole::Idle => " ",
    }
}

/// What a tile's border tells.
#[derive(Clone, Copy, Debug, PartialEq, Eq, Structural)]
pub enum TileBorder {
    /// Selected for editing.
    Selected,
    /// In use by a cue.
    Active,
    Hovered,
    Plain,
}

/// The border of a tile: selection beats use, and use beats hovering.
pub open spec fn border_of(selected: bool, active: bool, hovered: bool) -> TileBorder {
    if selected {
        TileBorder::Selected
    } else if active {
        TileBorder::Active
    } else if hovered {
        TileBorder::Hovered
    } else {
        TileBorder::Plain
    }
}

/// The border of a tile.
pub fn tile_border(selected: bool, active: bool, hovered: bool) -> (r: TileBorder)
    ensures
        r == border_of(selected, active, hovered),
{
    if selected {
        TileBorder::Selected
    } else if active {
        TileBorder::Active
    } else if hovered {
        TileBorder::Hovered
    } else {
        TileBorder::Plain
    }
}

/// The text of a bank's tab: a dot on the live bank, the name and the number
/// of cues.
pub fn bank_label(bank: &BankView, live: bool) -> (r: String)
    ensures
        r@ == (if live {
            "● "@
        } else {
            seq![]
        }) + bank.name@ + " ("@ + decimal(bank.cue_count as nat) + ")"@,
{
    let mut r = String::new();
    if live {
        r.append("● ");
    }
    r.append(bank.name.as_str());
    r.append(" (");
    push_decimal(&mut r, bank.cue_count as u64);
    r.append(")");
    proof {
        assert(r@ =~= (if live {
            "● "@
        } else {
            seq![]
        }) + bank.name@ + " ("@ + decimal(bank.cue_count as nat) + ")"@);
    }
    r
}

/// The count shown beside a tab's name.
pub fn count_text(n: usize) -> (r: String)
    ensures
        r@ == "("@ + decimal(n as nat) + ")"@,
{
    let mut r = "(".to_owned();
    push_decimal(&mut r, n as u64);
    r.append(")");
    r
}

/// The command that moves the cue at `index` one place forward; the first cue
/// has nowhere to go.
pub open spec fn moved_earlier(cue: CueId, index: usize) -> Option<Command> {
    if index > 0 {
        Some(Command::MoveCue(cue, (index - 1) as usize))
    } else {
        None
    }
}

/// The command that moves the cue at `index` one place forward.
pub fn move_earlier(cue: CueId, index: usize) -> (r: Option<Command>)
    ensures
        r == moved_earlier(cue, index),
{
    if index > 0 {
        Some(Command::MoveCue(cue, index - 1))
    } else {
        None
    }
}

/// The command that moves the cue at `index` one place back.
pub fn move_later(cue: CueId, index: usize) -> (r: Command)
    requires
        index < usize::MAX,
    ensures
        r == Command::MoveCue(cue, (index + 1) as usize),
{
    Command::MoveCue(cue, index + 1)
}

/// The command for dropping a dragged cue on the tile of another at `index`;
/// a cue dropped on itself stays.
pub open spec fn moved_onto(dragged: CueId, onto: CueId, index: usize) -> Option<Command> {
    if dragged != onto {
        Some(Command::MoveCue(dragged, index))
    } else {
        None
    }
}

/// The command for dropping a dragged cue on the tile of another at `index`.
pub fn dropped(dragged: CueId, onto: CueId, index: usize) -> (r: Option<Command>)
    ensures
        r == moved_onto(dragged, onto, index),
{
    if dragged != onto {
        Some(Command::MoveCue(dragged, index))
    } else {
        None
    }
}

/// A tag when a condition holds.
pub open spec fn tag_if(on: bool, text: Seq<char>) -> Seq<Seq<char>> {
    if on {
        seq![text]
    } else {
        seq![]
    }
}

/// The tag of a cue's own dwell.
pub open spec fn dwell_tags(dwell: Option<u32>) -> Seq<Seq<char>> {
    match dwell {
        Some(t) => seq!["⌛"@ + beats_text(t as int) + "b"@],
        None => seq![],
    }
}

/// The tag of a cue's own loop rate.
pub open spec fn loop_tags(loop_len: Option<u32>) -> Seq<Seq<char>> {
    match loop_len {
        Some(t) => if t == 0 {
            seq!["loop off"@]
        } else {
            seq!["↻"@ + beats_text(t as int) + "b"@]
        },
        None => seq![],
    }
}

/// Whether a speed is shown: it differs from normal by more than a
/// thousandth.
pub open spec fn is_retimed(speed: int) -> bool {
    magnitude(speed - 1_000_000) > 1_000
}

/// The tags of a cue's advanced knobs; only what was set is shown.
pub open spec fn badge_texts(cue: CueView) -> Seq<Seq<char>> {
    dwell_tags(cue.dwell) + loop_tags(cue.loop_len) + tag_if(
        cue.loop_phase.on || cue.start_nudge.on || cue.trig_delay.on,
        "offset"@,
    ) + tag_if(is_retimed(cue.speed as int), two_places(cue.speed as int) + "×"@)
}

fn push_tag(tags: &mut Vec<String>, tag: String)
    ensures
        views(final(tags)@) == views(old(tags)@) + seq![tag@],
{
    tags.push(tag);
    proof {
        assert(views(tags@) =~= views(old(tags)@) + seq![tag@]);
    }
}

/// The tags of a cue's advanced knobs.
pub fn advanced_badges(cue: &CueView) -> (r: Vec<String>)
    ensures
        views(r@) == badge_texts(*cue),
{
    let mut r: Vec<String> = Vec::new();
    proof {
        assert(views(r@) =~= Seq::<Seq<char>>::empty());
    }
    match cue.dwell {
        Some(t) => {
            let mut tag = "⌛".to_owned();
            tag.append(fmt_beats(t).as_str());
            tag.append("b");
            push_tag(&mut r, tag);
        },
        None => {},
    }
    proof {
        assert(views(r@) =~= dwell_tags(cue.dwell));
    }
    match cue.loop_len {
        Some(t) => {
            if t == 0 {
                push_tag(&mut r, "loop off".to_owned());
            } else {
                let mut tag = "↻".to_owned();
                tag.append(fmt_beats(t).as_str());
                tag.append("b");
                push_tag(&mut r, tag);
            }
        },
        None => {},
    }
    proof {
        assert(views(r@) =~= dwell_tags(cue.dwell) + loop_tags(cue.loop_len));
    }
    if cue.loop_phase.on || cue.start_nudge.on || cue.trig_delay.on {
        push_tag(&mut r, "offset".to_owned());
    }
    let speed: Micro = cue.speed;
    if speed > 1_001_000 || speed < 999_000 {
        let mut tag = two_places_text(speed);
        tag.append("×");
        push_tag(&mut r, tag);
    }
    proof {
        assert(views(r@) =~= badge_texts(*cue));
    }
    r
}

/// The tags under every cue tile: the trim, the cue's own playhead rule, and
/// whether it has effects.
pub open spec fn tile_texts(cue: CueView) -> Seq<Seq<char>> {
    seq![trim_text(cue.in_sec as int, cue.out_sec)] + (match cue.preserve {
        Some(keep) => seq![if keep {
            "keep"@
        } else {
            "cut"@
        }],
        None => seq![],
    }) + tag_if(cue.chain@.len() > 0, "fx"@)
}

/// The tags under a cue tile.
pub fn tile_tags(cue: &CueView) -> (r: Vec<String>)
    ensures
        views(r@) == tile_texts(*cue),
{
    let mut r: Vec<String> = Vec::new();
    proof {
        assert(views(r@) =~= Seq::<Seq<char>>::empty());
    }
    push_tag(&mut r, trim_label(cue));
    match cue.preserve {
        Some(keep) => {
            if keep {
                push_tag(&mut r, "keep".to_owned());
            } else {
                push_tag(&mut r, "cut".to_owned());
            }
        },
        None => {},
    }
    if cue.chain.len() > 0 {
        push_tag(&mut r, "fx".to_owned());
    }
    proof {
        assert(views(r@) =~= tile_texts(*cue));
    }
    r
}

} // verus!
