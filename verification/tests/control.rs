//! Key bindings and controller actions.

use vidiotic::commands::Command;
use vidiotic::control_input::{canon_key, to_command, Action, ControlInput, Key};

fn micro(x: f64) -> i64 {
    (x * 1e6).round() as i64
}

#[test]
fn nothing_yields_no_command() {
    assert!(to_command(&Action::Nothing, micro(0.0)).is_none());
}

#[test]
fn trigger_actions_map_to_same_name_commands() {
    let one = micro(1.0);
    assert!(matches!(to_command(&Action::TapDownbeat, one), Some(Command::TapDownbeat)));
    assert!(matches!(to_command(&Action::TapTempo, one), Some(Command::TapTempo)));
    assert!(matches!(to_command(&Action::SoftReset, one), Some(Command::SoftReset)));
    assert!(matches!(to_command(&Action::HardReset, one), Some(Command::HardReset)));
    assert!(matches!(to_command(&Action::CaptureShader, one), Some(Command::CaptureShader)));
    assert!(matches!(
        to_command(&Action::ToggleFullscreen, one),
        Some(Command::ToggleFullscreen)
    ));
    assert!(matches!(to_command(&Action::SaveProject, one), Some(Command::SaveProject)));
}

#[test]
fn parameterized_triggers_carry_their_params() {
    let one = micro(1.0);
    assert!(matches!(
        to_command(&Action::BpmDelta { amount: micro(2.0) }, one),
        Some(Command::BpmDelta(a)) if a == micro(2.0)
    ));
    assert!(matches!(
        to_command(&Action::NudgeBpm { ratio: micro(0.01) }, one),
        Some(Command::NudgeBpm(r)) if r == micro(0.01)
    ));
    assert!(matches!(
        to_command(&Action::CycleLiveBank { delta: -1 }, one),
        Some(Command::CycleLiveBank(d)) if d == -1
    ));
    assert!(matches!(
        to_command(&Action::SetLiveBank { index: 3 }, one),
        Some(Command::SetLiveBank(i)) if i == 3
    ));
    assert!(matches!(
        to_command(&Action::SetEditBank { index: 2 }, one),
        Some(Command::SetEditBank(i)) if i == 2
    ));
}

#[test]
fn set_bpm_lerps_value_between_min_and_max() {
    let action = Action::SetBpm { min: micro(60.0), max: micro(180.0) };
    let cmd = to_command(&action, micro(0.5));
    assert!(matches!(cmd, Some(Command::SetBpm(b)) if (b as f64 / 1e6 - 120.0).abs() < 1e-9));
}

#[test]
fn set_bpm_clamps_out_of_range_lerp() {
    let action = Action::SetBpm { min: micro(60.0), max: micro(180.0) };
    let cmd = to_command(&action, micro(-10.0));
    assert!(matches!(cmd, Some(Command::SetBpm(b)) if (b as f64 / 1e6 - 20.0).abs() < 1e-9));
}

#[test]
fn keys_have_one_spelling() {
    // Letters fold to lower case, beyond ASCII too.
    assert_eq!(canon_key(&Key::Character("T".to_string())), Some("t".to_string()));
    assert_eq!(canon_key(&Key::Character("Ä".to_string())), Some("ä".to_string()));
    assert_eq!(canon_key(&Key::Named("ArrowLeft".to_string())), Some("ArrowLeft".to_string()));
    assert_eq!(canon_key(&Key::Dead), None);
}

#[test]
fn a_held_key_is_taken_but_fires_once() {
    let (taken, cmd) = ControlInput::new().offer_key(Some(Action::TapTempo), false);
    assert!(taken && matches!(cmd, Some(Command::TapTempo)));
    let (taken, cmd) = ControlInput::new().offer_key(Some(Action::TapTempo), true);
    assert!(taken && cmd.is_none());
    let (taken, cmd) = ControlInput::new().offer_key(None, false);
    assert!(!taken && cmd.is_none());
}

#[test]
fn controllers_are_looked_for_every_two_seconds() {
    let mut input = ControlInput::new();
    let none = vec![];
    assert!(input.pump(5, &none).0);
    assert!(!input.pump(5, &none).0);
    assert!(!input.pump(2_000_000_004, &none).0);
    assert!(input.pump(2_000_000_005, &none).0);
    assert!(!input.pump(7, &none).0);
    assert_eq!(input.last_rescan, Some(2_000_000_005));
}

#[test]
fn pending_actions_fire_in_order() {
    let actions = vec![
        (Action::TapTempo, 1_000_000),
        (Action::Nothing, 1_000_000),
        (Action::SetBpm { min: 60_000_000, max: 180_000_000 }, 500_000),
    ];
    let cmds = ControlInput::new().pump(0, &actions).1;
    assert_eq!(cmds.len(), 2);
    assert!(matches!(cmds[0], Command::TapTempo));
    assert!(matches!(cmds[1], Command::SetBpm(120_000_000)));
}
