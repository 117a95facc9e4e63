//! The controls of a session: what keys and mapped controls do, how a tempo is
//! typed, and what the control surface is shown.

use vstd::prelude::*;
use vstd::string::*;

use crate::app::AppModel;
use crate::bank::{plays, CueId};
use crate::clippool::has_clip_id;
use crate::clock::ClockSnapshot;
use crate::commands::{ClipId, Command, UiMirror};
use crate::control_input::{builtin, command_of, fired, key_name, offered, spelled, Action, ControlInput, Key, KeyPress};
use crate::mirror::{bar_at, bars_in, mirrors, MirrorInputs};
use crate::seqs::{any, first_at, first_at_bounds};
use crate::text::{decimal, decimal_value, decimals_stand_for_their_number, lowercase, views};
use crate::units::{Micro, MicroBeats, Nanos};

verus! {

/// The press of a key that types one character.
pub open spec fn types(p: KeyPress, ch: char) -> bool {
    p.key is Character && p.key->Character_0@ == seq![ch]
}

proof fn one_character_keys()
    ensures
        "t"@ == seq!['t'],
        "b"@ == seq!['b'],
        "+"@ == seq!['+'],
        "="@ == seq!['='],
        "-"@ == seq!['-'],
        "["@ == seq!['['],
        "]"@ == seq![']'],
        "r"@ == seq!['r'],
        "R"@ == seq!['R'],
        "c"@ == seq!['c'],
        ","@ == seq![','],
        "."@ == seq!['.'],
        "f"@ == seq!['f'],
        "q"@ == seq!['q'],
        "s"@ == seq!['s'],
{
    reveal_strlit("t");
    reveal_strlit("b");
    reveal_strlit("+");
    reveal_strlit("=");
    reveal_strlit("-");
    reveal_strlit("[");
    reveal_strlit("]");
    reveal_strlit("r");
    reveal_strlit("R");
    reveal_strlit("c");
    reveal_strlit(",");
    reveal_strlit(".");
    reveal_strlit("f");
    reveal_strlit("q");
    reveal_strlit("s");
    assert("t"@ =~= seq!['t'] && "b"@ =~= seq!['b'] && "+"@ =~= seq!['+'] && "="@ =~= seq!['=']);
    assert("-"@ =~= seq!['-'] && "["@ =~= seq!['['] && "]"@ =~= seq![']'] && "r"@ =~= seq!['r']);
    assert("R"@ =~= seq!['R'] && "c"@ =~= seq!['c'] && ","@ =~= seq![','] && "."@ =~= seq!['.']);
    assert("f"@ =~= seq!['f'] && "q"@ =~= seq!['q'] && "s"@ =~= seq!['s']);
}

proof fn apart(a: char, b: char)
    ensures
        seq![a] == seq![b] <==> a == b,
{
    assert(seq![a][0] == a && seq![b][0] == b);
}

proof fn keyed_by(m: AppModel, p: KeyPress, ch: char)
    requires
        types(p, ch),
    ensures
        m.keyed(p).1 == builtin(seq![ch], p),
        forall|a: char, b: char| #![trigger seq![a], seq![b]] seq![a] == seq![b] <==> a == b,
{
    assert forall|a: char, b: char| #![trigger seq![a], seq![b]] seq![a] == seq![b] <==> a == b by {
        apart(a, b);
    }
}

/// The tempo keys step the tempo by one either way, and nudge it by a
/// thousandth either way; held down, they go on doing so.
pub proof fn tempo_keys_step_both_ways(m: AppModel, p: KeyPress)
    ensures
        types(p, '+') || types(p, '=') ==> m.keyed(p).1 == Some(Command::BpmDelta(1_000_000)),
        types(p, '-') ==> m.keyed(p).1 == Some(Command::BpmDelta((-1_000_000) as i64)),
        types(p, ']') ==> m.keyed(p).1 == Some(Command::NudgeBpm(1_000)),
        types(p, '[') ==> m.keyed(p).1 == Some(Command::NudgeBpm((-1_000) as i64)),
{
    one_character_keys();
    if types(p, '+') {
        keyed_by(m, p, '+');
    }
    if types(p, '=') {
        keyed_by(m, p, '=');
    }
    if types(p, '-') {
        keyed_by(m, p, '-');
    }
    if types(p, ']') {
        keyed_by(m, p, ']');
    }
    if types(p, '[') {
        keyed_by(m, p, '[');
    }
}

/// The other keys act once when pressed and not again while they are held;
/// quitting and saving need their modifier.
pub proof fn keys_act_once(m: AppModel, p: KeyPress)
    ensures
        types(p, 't') ==> m.keyed(p).1 == if p.repeat { None } else { Some(Command::TapDownbeat) },
        types(p, 'b') ==> m.keyed(p).1 == if p.repeat { None } else { Some(Command::TapTempo) },
        types(p, 'r') ==> m.keyed(p).1 == if p.repeat { None } else { Some(Command::SoftReset) },
        types(p, 'R') ==> m.keyed(p).1 == if p.repeat { None } else { Some(Command::HardReset) },
        types(p, 'c') ==> m.keyed(p).1 == if p.repeat { None } else { Some(Command::CaptureShader) },
        types(p, ',') ==> m.keyed(p).1 == if p.repeat { None } else { Some(Command::CycleLiveBank((-1) as i32)) },
        types(p, '.') ==> m.keyed(p).1 == if p.repeat { None } else { Some(Command::CycleLiveBank(1)) },
        types(p, 'f') ==> m.keyed(p).1 == if p.repeat { None } else { Some(Command::ToggleFullscreen) },
        types(p, 'q') ==> m.keyed(p).1 == if p.super_key { Some(Command::Quit) } else { None },
        types(p, 's') ==> m.keyed(p).1 == if p.super_key || p.control_key { Some(Command::SaveProject) } else { None },
{
    one_character_keys();
    if p.key is Character && p.key->Character_0@.len() == 1 {
        let ch = p.key->Character_0@[0];
        assert(p.key->Character_0@ =~= seq![ch]);
        keyed_by(m, p, ch);
        let c = p.key->Character_0@;
        assert(c[0] == ch);
    }
}

/// No other character stands for a command, and no key but a digit, Enter and
/// Escape touches anything of the session.
pub proof fn other_keys_do_nothing(m: AppModel, p: KeyPress)
    requires
        p.key is Character ==> forall|i: int|
            #![trigger "tb+=-[]rRc,.fqs"@[i]]
            0 <= i < "tb+=-[]rRc,.fqs"@.len() ==> !types(p, "tb+=-[]rRc,.fqs"@[i]),
        p.key is Named ==> p.key->Named_0@ != "Enter"@,
    ensures
        m.keyed(p).1 is None,
{
    one_character_keys();
    reveal_strlit("tb+=-[]rRc,.fqs");
    let all = "tb+=-[]rRc,.fqs"@;
    if p.key is Character {
        assert(!types(p, all[0]) && !types(p, all[1]) && !types(p, all[2]) && !types(p, all[3]) && !types(p, all[4]));
        assert(!types(p, all[5]) && !types(p, all[6]) && !types(p, all[7]) && !types(p, all[8]) && !types(p, all[9]));
        assert(!types(p, all[10]) && !types(p, all[11]) && !types(p, all[12]) && !types(p, all[13]) && !types(
            p,
            all[14],
        ));
    }
}

/// A key press changes the tempo being typed and nothing else of the session.
pub proof fn keys_change_only_the_entry(m: AppModel, p: KeyPress)
    ensures
        m.keyed(p).0 == (AppModel { bpm_entry: m.keyed(p).0.bpm_entry, ..m }),
        p.key is Dead ==> m.keyed(p).0 == m,
{
}

proof fn spelled_is_its_value(digits: Seq<char>)
    ensures
        spelled(digits) == decimal_value(digits),
    decreases digits.len(),
{
    if digits.len() > 0 {
        spelled_is_its_value(digits.drop_last());
    }
}

/// A typed digit comes behind those typed before it, until there are five;
/// then it is dropped. Other characters leave the entry alone, and Enter and
/// Escape end it.
pub proof fn digits_are_typed_in_order(m: AppModel, p: KeyPress, digit: char)
    ensures
        ({
            let before = match m.bpm_entry {
                Some(e) => e,
                None => seq![],
            };
            let after = m.keyed(p).0.bpm_entry;
            &&& types(p, digit) && 48 <= digit as int <= 57 && before.len() < 5 ==> after == Some(before.push(digit))
            &&& types(p, digit) && 48 <= digit as int <= 57 && before.len() >= 5 ==> after == Some(before)
            &&& types(p, digit) && !(48 <= digit as int <= 57) ==> after == m.bpm_entry
            &&& p.key is Named && (p.key->Named_0@ == "Enter"@ || p.key->Named_0@ == "Escape"@) ==> after is None
            &&& p.key is Named && p.key->Named_0@ != "Enter"@ && p.key->Named_0@ != "Escape"@ ==> after == m.bpm_entry
        }),
{
    let before = match m.bpm_entry {
        Some(e) => e,
        None => seq![],
    };
    if types(p, digit) {
        assert(p.key->Character_0@[0] == digit);
        assert(before + seq![digit] =~= before.push(digit));
    }
}

/// A number that was typed in is the tempo that Enter sets, if it lies from 20
/// to 1000; another one sets none, and neither does Escape.
pub proof fn a_typed_tempo_is_set(m: AppModel, p: KeyPress, n: nat)
    requires
        m.bpm_entry == Some(decimal(n)),
        p.key is Named,
    ensures
        p.key->Named_0@ == "Enter"@ && 20 <= n <= 1000 ==> m.keyed(p).1 == Some(
            Command::SetBpm((n * 1_000_000) as i64),
        ),
        !(20 <= n <= 1000) ==> m.keyed(p).1 is None,
        p.key->Named_0@ != "Enter"@ ==> m.keyed(p).1 is None,
{
    decimals_stand_for_their_number(n);
    spelled_is_its_value(decimal(n));
}

/// With nothing typed, Enter sets no tempo.
pub proof fn nothing_typed_sets_nothing(m: AppModel, p: KeyPress)
    requires
        m.bpm_entry is None,
        p.key is Named,
    ensures
        m.keyed(p).1 is None,
{
}

/// A key is bound under the text it types, a single character in lower case, or
/// under its name; one without identity is not bound.
pub proof fn keys_are_bound_by_name(key: Key)
    ensures
        key is Dead ==> key_name(key) is None,
        key is Character && key->Character_0@.len() != 1 ==> key_name(key) == Some(key->Character_0@),
        key is Named && key->Named_0@.len() != 1 ==> key_name(key) == Some(key->Named_0@),
        key is Character && key->Character_0@.len() == 1 ==> key_name(key) == Some(lowercase(key->Character_0@)),
        key is Named && key->Named_0@.len() == 1 ==> key_name(key) == Some(lowercase(key->Named_0@)),
{
}

/// A bound key is always taken, and triggers on a fresh press only, with its
/// control all the way up; an unbound one is left to its built-in meaning.
pub proof fn bound_keys_are_taken(action: Action, repeat: bool)
    ensures
        offered(None, repeat) == (false, None::<Command>),
        offered(Some(action), repeat).0,
        offered(Some(action), true).1 is None,
        offered(Some(action), false).1 == command_of(action, 1_000_000),
{
}

/// A mapped control sends the command of its name with the amount it was given;
/// one that is mapped to nothing sends none.
pub proof fn mapped_controls_send_their_command(value: Micro, amount: i64, delta: i32, index: u32)
    ensures
        command_of(Action::Nothing, value) is None,
        command_of(Action::TapDownbeat, value) == Some(Command::TapDownbeat),
        command_of(Action::TapTempo, value) == Some(Command::TapTempo),
        command_of(Action::SoftReset, value) == Some(Command::SoftReset),
        command_of(Action::HardReset, value) == Some(Command::HardReset),
        command_of(Action::CaptureShader, value) == Some(Command::CaptureShader),
        command_of(Action::ToggleFullscreen, value) == Some(Command::ToggleFullscreen),
        command_of(Action::SaveProject, value) == Some(Command::SaveProject),
        command_of(Action::BpmDelta { amount }, value) == Some(Command::BpmDelta(amount)),
        command_of(Action::NudgeBpm { ratio: amount }, value) == Some(Command::NudgeBpm(amount)),
        command_of(Action::CycleLiveBank { delta }, value) == Some(Command::CycleLiveBank(delta)),
        command_of(Action::SetLiveBank { index }, value) == Some(Command::SetLiveBank(index as usize)),
        command_of(Action::SetEditBank { index }, value) == Some(Command::SetEditBank(index as usize)),
{
}

/// A tempo control goes from its lower limit to its upper one as it is turned
/// up, never down on the way, and stays between 20 and 1000; the tempo that is
/// sent is the position's share of the way, rounded down.
pub proof fn a_tempo_control_spans_its_limits(min: i64, max: i64, value: Micro, more: Micro)
    requires
        20_000_000 <= min <= max <= 1_000_000_000,
        0 <= value <= more <= 1_000_000,
    ensures
        command_of(Action::SetBpm { min, max }, 0) == Some(Command::SetBpm(min)),
        command_of(Action::SetBpm { min, max }, 1_000_000) == Some(Command::SetBpm(max)),
        ({
            let low = command_of(Action::SetBpm { min, max }, value)->0->SetBpm_0;
            let high = command_of(Action::SetBpm { min, max }, more)->0->SetBpm_0;
            &&& min <= low <= high <= max
            &&& (low - min) * 1_000_000 <= (max - min) * value < (low - min + 1) * 1_000_000
        }),
{
    let (a, v, w) = (max - min, value as int, more as int);
    assert(0 <= a * v <= a * w <= a * 1_000_000) by (nonlinear_arith)
        requires
            0 <= a,
            0 <= v <= w <= 1_000_000,
    ;
    assert(a * 0 == 0);
    assert(a * 1_000_000 / 1_000_000 == a);
}

/// A tempo outside 20 to 1000 is never sent, whatever a control's limits are.
pub proof fn tempo_controls_stay_in_range(min: i64, max: i64, value: Micro)
    ensures
        command_of(Action::SetBpm { min, max }, value) is Some,
        command_of(Action::SetBpm { min, max }, value)->0 is SetBpm,
        20_000_000 <= command_of(Action::SetBpm { min, max }, value)->0->SetBpm_0 <= 1_000_000_000,
{
}

/// Actions are carried out in the order in which they came.
pub proof fn actions_fire_in_order(a: Seq<(Action, Micro)>, b: Seq<(Action, Micro)>)
    ensures
        fired(a + b) == fired(a) + fired(b),
        forall|x: (Action, Micro)|
            #![trigger fired(seq![x])]
            fired(seq![x]) == match command_of(x.0, x.1) {
                Some(c) => seq![c],
                None => seq![],
            },
        fired(Seq::<(Action, Micro)>::empty()).len() == 0,
    decreases b.len(),
{
    if b.len() == 0 {
        assert(a + b =~= a);
        assert(fired(a) + fired(b) =~= fired(a));
    } else {
        actions_fire_in_order(a, b.drop_last());
        assert((a + b).drop_last() =~= a + b.drop_last());
        assert((a + b).last() == b.last());
        assert(fired(a + b) =~= fired(a) + fired(b));
    }
    assert forall|x: (Action, Micro)| #![trigger fired(seq![x])] fired(seq![x]) == match command_of(x.0, x.1) {
        Some(c) => seq![c],
        None => seq![],
    } by {
        let one = seq![x];
        assert(one.drop_last() =~= Seq::<(Action, Micro)>::empty());
        assert(one.last() == x);
        assert(fired(one.drop_last()) =~= Seq::<Command>::empty());
        assert(fired(one) =~= match command_of(x.0, x.1) {
            Some(c) => seq![c],
            None => seq![],
        });
    }
}

/// Controllers are looked for at the start, and again two seconds after they
/// last were; a round in between leaves that time as it was.
pub proof fn controllers_are_looked_for(c: ControlInput, now: Nanos, later: Nanos)
    requires
        c.due(now),
    ensures
        ({
            let after = c.pumped(now);
            &&& after.due(later) <==> later - now >= 2_000_000_000
            &&& !after.due(later) ==> after.pumped(later) == after
            &&& after.due(later) ==> after.pumped(later).last_rescan == Some(later)
        }),
        (ControlInput { last_rescan: None }).due(now),
{
}

/// Bars are counted from the phrase's length to the nearest bar, and the bar on
/// show is the one that the beat is in.
pub proof fn bars_are_counted(beat: MicroBeats, phrase: MicroBeats, quantum: MicroBeats)
    requires
        quantum >= 250_000,
        phrase > 0,
    ensures
        ({
            let n = bars_in(phrase as int, quantum);
            let k = bar_at(beat as int, phrase as int, quantum);
            let into = beat as int % phrase as int;
            &&& 1 <= n
            &&& phrase >= quantum && phrase < 4_000_000_000 * quantum ==> -quantum <= 2 * (n * quantum - phrase) <= quantum
            &&& phrase < quantum ==> n == 1
            &&& 0 <= k
            &&& phrase < 4_000_000_000 * quantum ==> k * quantum <= into < (k + 1) * quantum
        }),
{
    let (p, q) = (phrase as int, quantum as int);
    let into = beat as int % p;
    let m = (2 * p + q) / (2 * q);
    let k = into / q;
    assert(m * (2 * q) <= 2 * p + q < (m + 1) * (2 * q) && k * q <= into < (k + 1) * q && 0 <= k) by (nonlinear_arith)
        requires
            q > 0,
            p > 0,
            0 <= into < p,
            m == (2 * p + q) / (2 * q),
            k == into / q,
    ;
    assert(m * (2 * q) == 2 * (m * q) && (m + 1) * (2 * q) == 2 * (m * q) + 2 * q && (k + 1) * q == k * q + q)
        by (nonlinear_arith);
    if p >= q {
        assert(m >= 1) by (nonlinear_arith)
            requires
                2 * p + q < 2 * (m * q) + 2 * q,
                p >= q > 0,
        ;
    } else {
        assert(m <= 1) by (nonlinear_arith)
            requires
                2 * (m * q) <= 2 * p + q,
                0 < p < q,
        ;
    }
    if p < 4_000_000_000 * q {
        assert(m <= 4_000_000_000) by (nonlinear_arith)
            requires
                2 * (m * q) <= 2 * p + q,
                p < 4_000_000_000 * q,
                q > 0,
        ;
        assert(k < 4_000_000_000) by (nonlinear_arith)
            requires
                k * q <= into < p,
                p < 4_000_000_000 * q,
                q > 0,
        ;
    }
}

/// A cue is shown as playing just when it is on display, and as armed just when
/// it is next in turn and not on display; a clip is shown by the cues that play
/// it.
pub proof fn roles_say_what_plays(m: AppModel, cue: CueId, clip: ClipId)
    ensures
        m.cue_role(cue) is Playing <==> m.current == Some(cue),
        m.cue_role(cue) is Armed <==> m.current != Some(cue) && m.seq.armed() == Some(cue),
        m.clip_role(clip) is Playing <==> (m.current is Some && m.any_cue(m.current->0) is Some && m.any_cue(
            m.current->0,
        )->0.clip == clip),
        m.clip_role(clip) is Armed ==> m.seq.armed() is Some && m.any_cue(m.seq.armed()->0) is Some && m.any_cue(
            m.seq.armed()->0,
        )->0.clip == clip,
        m.clip_role(clip) is Idle ==> !(m.seq.armed() is Some && m.any_cue(m.seq.armed()->0) is Some && m.any_cue(
            m.seq.armed()->0,
        )->0.clip == clip),
{
}

/// The clips on show are those of the list, in its order, each under its own
/// name and tempo; one is lit just when a cue of the live bank plays it, and
/// has a picture just when there is a thumbnail of it.
pub proof fn shown_clips_are_those_listed(m: AppModel, ids: Seq<ClipId>, thumbs: Seq<ClipId>)
    requires
        forall|i: int| 0 <= i < ids.len() ==> m.clip(#[trigger] ids[i]) is Some,
    ensures
        m.entries(ids, thumbs).len() == ids.len(),
        forall|i: int|
            0 <= i < ids.len() ==> {
                let e = #[trigger] m.entries(ids, thumbs)[i];
                &&& e.id == ids[i]
                &&& e.name == m.clip(ids[i])->0.name
                &&& e.bpm == m.clip(ids[i])->0.bpm
                &&& e.role == m.clip_role(ids[i])
                &&& e.has_thumb <==> thumbs.contains(ids[i])
                &&& e.active <==> exists|k: int|
                    0 <= k < m.banks[m.live_bank].cues.len() && (#[trigger] m.banks[m.live_bank].cues[k]).clip
                        == ids[i]
            },
    decreases ids.len(),
{
    if ids.len() > 0 {
        let before = ids.drop_last();
        let id = ids.last();
        assert forall|i: int| 0 <= i < before.len() implies m.clip(#[trigger] before[i]) is Some by {
            assert(before[i] == ids[i]);
        }
        shown_clips_are_those_listed(m, before, thumbs);
        assert(m.clip(ids[ids.len() - 1]) is Some);
        first_at_bounds(m.clips, has_clip_id(id));
        let c = m.clip(id)->0;
        assert(has_clip_id(id)(c));
        let cues = m.banks[m.live_bank].cues;
        first_at_bounds(cues, plays(id));
        let at = first_at(cues, plays(id));
        if at < cues.len() {
            assert(plays(id)(cues[at]));
            assert(cues[at].clip == id);
        }
        assert forall|k: int| 0 <= k < cues.len() && (#[trigger] cues[k]).clip == id implies any(cues, plays(id)) by {
            assert(plays(id)(cues[k]));
        }
        assert(m.entries(ids, thumbs) == m.entries(before, thumbs).push(m.clip_entry(c, thumbs)));
        assert forall|i: int| 0 <= i < ids.len() implies {
            let e = #[trigger] m.entries(ids, thumbs)[i];
            &&& e.id == ids[i]
            &&& e.name == m.clip(ids[i])->0.name
            &&& e.bpm == m.clip(ids[i])->0.bpm
            &&& e.role == m.clip_role(ids[i])
            &&& e.has_thumb <==> thumbs.contains(ids[i])
            &&& e.active <==> exists|k: int|
                0 <= k < m.banks[m.live_bank].cues.len() && (#[trigger] m.banks[m.live_bank].cues[k]).clip == ids[i]
        } by {
            if i < before.len() {
                assert(before[i] == ids[i]);
                assert(m.entries(ids, thumbs)[i] == m.entries(before, thumbs)[i]);
            }
        }
    }
}

/// A listed clip that is not in the pool is left out, and what comes behind it
/// moves up.
pub proof fn lost_clips_are_not_shown(m: AppModel, ids: Seq<ClipId>, thumbs: Seq<ClipId>, id: ClipId)
    requires
        m.clip(id) is None,
    ensures
        m.entries(ids.push(id), thumbs) == m.entries(ids, thumbs),
{
    assert(ids.push(id).drop_last() =~= ids);
}

/// The control surface shows the session: the clock as it stands, the session's
/// own settings, the banks with their names and sizes, and the cues of the bank
/// under edit with their roles, clip tempos and thumbnails.
pub proof fn the_surface_shows_the_session(m: AppModel, snap: ClockSnapshot, input: MirrorInputs, r: UiMirror, i: int)
    requires
        mirrors(m, snap, input, r),
    ensures
        r.bpm == snap.bpm,
        r.beat == snap.beat,
        r.phase == snap.phase,
        r.quantum == snap.quantum,
        r.time_sig == m.time_sig,
        r.phrase_beats == m.seq.phrase_len,
        r.loop_len == m.loop_len,
        r.phrase_cadence == m.phrase_cadence,
        r.loop_cadence == m.loop_cadence,
        r.preserve_playhead == m.preserve_playhead,
        r.advanced == m.advanced,
        r.sync == Some(m.sync),
        r.live_bank == m.live_bank,
        r.edit_bank == m.edit_bank,
        r.active_clip_bank == m.active_clip_bank,
        r.selected_cue == m.selected_cue,
        r.playhead_sec == m.current_pts,
        r.bpm_entry is Some <==> m.bpm_entry is Some,
        r.bpm_entry is Some ==> r.bpm_entry->0@ == m.bpm_entry->0,
        r.peers == input.caps.peers,
        r.can_set_tempo == input.caps.can_set_tempo,
        r.can_set_phase == input.caps.can_set_phase,
        r.audio_devices == input.audio_devices,
        r.current_device == input.current_device,
        r.audio_error == input.audio_error,
        r.shader_error == input.shader_error,
        r.shader_pool == input.shader_pool,
        r.levels == input.levels,
        r.level == input.level,
        r.fullscreen == input.fullscreen,
        r.spectrum_linear@.len() == 512 || input.audio_tex@.len() < 512,
        0 <= i < 512 <= input.audio_tex@.len() ==> r.spectrum_linear@[i] == input.audio_tex@[i],
        r.banks@.len() == m.banks.len(),
        0 <= i < m.banks.len() ==> r.banks@[i].name@ == m.banks[i].name && r.banks@[i].cue_count
            == m.banks[i].cues.len(),
        r.clip_banks@.len() == m.clip_banks.len(),
        0 <= i < m.clip_banks.len() ==> r.clip_banks@[i].name@ == m.clip_banks[i].name && r.clip_banks@[i].clip_count
            == m.clip_banks[i].clip_ids.len(),
        r.cues@.len() == m.banks[m.edit_bank].cues.len(),
        0 <= i < r.cues@.len() ==> {
            let shown = r.cues@[i]@;
            let cue = m.banks[m.edit_bank].cues[i];
            &&& shown.cue == cue
            &&& shown.role == m.cue_role(cue.id)
            &&& shown.has_thumb <==> input.thumbs@.contains(cue.clip)
            &&& m.clip(cue.clip) is Some ==> shown.clip_bpm == m.clip(cue.clip)->0.bpm
            &&& m.clip(cue.clip) is None ==> shown.clip_bpm is None
        },
        0 <= m.active_clip_bank < m.clip_banks.len() ==> {
            &&& r.clips@.len() == m.entries(m.clip_banks[m.active_clip_bank].clip_ids, input.thumbs@).len()
            &&& 0 <= i < r.clips@.len() ==> r.clips@[i]@ == m.entries(
                m.clip_banks[m.active_clip_bank].clip_ids,
                input.thumbs@,
            )[i]
        },
{
    if 0 <= m.active_clip_bank < m.clip_banks.len() && 0 <= i < r.clips@.len() {
        assert(views(r.clips@)[i] == r.clips@[i]@);
    }
}

} // verus!
