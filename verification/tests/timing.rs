//! Time signatures, clocks and playback speed.

use vidiotic::app::resolve_speed;
use vidiotic::bank::{Cue, Toggle};
use vidiotic::clock::{
    limit_bpm, nudge, BoundaryTracker, ClockSnapshot, ClockSource, InternalClock, BPM_MAX, BPM_MIN,
};
use vidiotic::commands::{Cadence, SyncKind, TimeSig, LOOP_TICKS_PER_BEAT, MICRO_BEATS_PER_TICK};
use vidiotic::units::{floor_div, floor_mod, round, round_half_even, snap_to_multiple};

/// A quantity in millionths.
fn micro(x: f64) -> i64 {
    (x * 1e6).round() as i64
}

/// A quantity in whole units.
fn units(x: i64) -> f64 {
    x as f64 / 1e6
}

const MS: u64 = 1_000_000;

fn cue() -> Cue {
    Cue::new(1, 0, "c".to_string())
}

#[test]
fn speed_is_unity_in_simple_mode() {
    let mut c = cue();
    c.bpm_sync_on = true;
    c.speed_mul = Toggle { on: true, val: micro(2.0) };
    // Simple mode: every knob is inert, playback is native speed.
    assert_eq!(units(resolve_speed(false, micro(140.0), &c, Some(micro(70.0)))), 1.0);
}

#[test]
fn bpm_sync_uses_session_over_source() {
    let mut c = cue();
    c.bpm_sync_on = true;
    // A clip of 70 bpm in a session at 140 plays twice as fast.
    assert_eq!(units(resolve_speed(true, micro(140.0), &c, Some(micro(70.0)))), 2.0);
    // The cue's own tempo goes before the clip's.
    c.bpm = Some(micro(140.0));
    assert_eq!(units(resolve_speed(true, micro(140.0), &c, Some(micro(70.0)))), 1.0);
}

#[test]
fn bpm_sync_without_source_is_unity() {
    let mut c = cue();
    c.bpm_sync_on = true;
    assert_eq!(units(resolve_speed(true, micro(140.0), &c, None)), 1.0);
}

#[test]
fn sync_and_multiplier_stack() {
    let mut c = cue();
    c.bpm_sync_on = true;
    c.speed_mul = Toggle { on: true, val: micro(1.5) };
    assert_eq!(units(resolve_speed(true, micro(140.0), &c, Some(micro(70.0)))), 3.0);
    c.bpm_sync_on = false;
    assert_eq!(units(resolve_speed(true, micro(140.0), &c, Some(micro(70.0)))), 1.5);
}

#[test]
fn speed_is_limited() {
    let mut c = cue();
    c.speed_mul = Toggle { on: true, val: micro(1000.0) };
    let fast = resolve_speed(true, micro(120.0), &c, None);
    assert_eq!(fast, vidiotic::app::SPEED_MAX);
    c.speed_mul = Toggle { on: true, val: 0 };
    assert_eq!(resolve_speed(true, micro(120.0), &c, None), vidiotic::app::SPEED_MIN);
}

#[test]
fn first_frame_never_fires() {
    let mut t = BoundaryTracker::new();
    assert_eq!(t.crossed(micro(0.0), micro(16.0)), None);
}

#[test]
fn forward_cross_fires_once() {
    let mut t = BoundaryTracker::new();
    assert_eq!(t.crossed(micro(15.0), micro(16.0)), None);
    assert_eq!(t.crossed(micro(15.9), micro(16.0)), None);
    assert_eq!(t.crossed(micro(16.1), micro(16.0)), Some(1));
    assert_eq!(t.crossed(micro(16.5), micro(16.0)), None);
}

#[test]
fn backward_jump_does_not_fire() {
    let mut t = BoundaryTracker::new();
    assert_eq!(t.crossed(micro(31.5), micro(16.0)), None);
    // A tap snaps the beat back within the same phrase.
    assert_eq!(t.crossed(micro(30.0), micro(16.0)), None);
    assert_eq!(t.crossed(micro(32.2), micro(16.0)), Some(2));
}

#[test]
fn multi_phrase_skip_fires_once() {
    let mut t = BoundaryTracker::new();
    assert_eq!(t.crossed(micro(1.0), micro(16.0)), None);
    assert_eq!(t.crossed(micro(50.0), micro(16.0)), Some(3));
}

#[test]
fn a_reset_tracker_starts_over() {
    let mut t = BoundaryTracker::new();
    t.crossed(micro(15.0), micro(16.0));
    t.reset();
    assert_eq!(t.crossed(micro(17.0), micro(16.0)), None);
    let mut d = BoundaryTracker::default();
    assert_eq!(d.crossed(micro(40.0), micro(16.0)), None);
}

#[test]
fn internal_clock_bpm_change_is_continuous() {
    let mut c = InternalClock::new(micro(120.0), micro(4.0), 1000 * MS);
    let b0 = units(c.snapshot(1730 * MS).beat);
    c.set_bpm(micro(174.0), 1730 * MS);
    let b1 = units(c.snapshot(1730 * MS).beat);
    assert!((b1 - b0).abs() < 0.05, "beat jumped by {}", b1 - b0);
    assert_eq!(units(c.snapshot(1730 * MS).bpm), 174.0);
    // And the new tempo takes over from there.
    let b2 = units(c.snapshot(2730 * MS).beat);
    assert!((b2 - b1 - 2.9).abs() < 1e-5);
}

#[test]
fn tap_snaps_phase_to_boundary() {
    let mut c = InternalClock::new(micro(120.0), micro(4.0), 0);
    c.tap_downbeat(5 * MS);
    let phase = units(c.snapshot(5 * MS).phase);
    assert!(phase < 0.05 || phase > 3.95, "phase not near boundary: {phase}");
}

#[test]
fn reset_returns_to_grid_origin() {
    let mut c = InternalClock::new(micro(600.0), micro(4.0), 0);
    assert!(units(c.snapshot(30 * MS).beat) > 0.1, "expected the beat to advance first");
    c.reset(30 * MS);
    let beat = units(c.snapshot(30 * MS).beat);
    assert!(beat < 0.05, "beat not at origin after reset: {beat}");
}

#[test]
fn a_tap_goes_to_the_nearest_bar() {
    let mut c = InternalClock::new(micro(120.0), micro(4.0), 0);
    // 2.9 s at 120 bpm is beat 5.8: the nearest bar starts at beat 4.
    c.tap_downbeat(2900 * MS);
    assert_eq!(c.snapshot(2900 * MS).beat, micro(4.0));
    // 3.1 s is beat 6.2 from the start: the nearest bar is at 8.
    let mut d = InternalClock::new(micro(120.0), micro(4.0), 0);
    d.tap_downbeat(3100 * MS);
    assert_eq!(d.snapshot(3100 * MS).beat, micro(8.0));
}

#[test]
fn a_clock_carries_on_from_a_snapshot() {
    let s = ClockSnapshot {
        bpm: micro(90.0),
        beat: micro(17.25),
        phase: micro(1.25),
        quantum: micro(4.0),
        is_playing: true,
    };
    let mut c = InternalClock::from_snapshot(&s, 500 * MS);
    assert_eq!(c.snapshot(500 * MS), s);
    // One minute is ninety beats.
    assert_eq!(c.snapshot(60_500 * MS).beat, micro(107.25));
    let caps = c.caps();
    assert!(caps.can_set_tempo && caps.can_set_phase);
    assert_eq!(caps.peers, 0);
}

#[test]
fn tempo_is_limited_and_nudged() {
    assert_eq!(limit_bpm(micro(5.0)), BPM_MIN);
    assert_eq!(limit_bpm(micro(5000.0)), BPM_MAX);
    assert_eq!(limit_bpm(micro(128.5)), micro(128.5));
    assert_eq!(nudge(micro(120.0), micro(0.001)), micro(120.12));
    let mut c = InternalClock::new(micro(100.0), micro(4.0), 0);
    c.nudge_bpm(micro(-0.01), 0);
    assert_eq!(c.snapshot(0).bpm, micro(99.0));
}

#[test]
fn the_quantum_can_follow_the_signature() {
    let mut c = InternalClock::new(micro(60.0), micro(4.0), 0);
    c.set_quantum(micro(3.5));
    let s = c.snapshot(8000 * MS);
    assert_eq!(s.beat, micro(8.0));
    assert_eq!(s.phase, micro(1.0));
    assert_eq!(s.quantum, micro(3.5));
}

#[test]
fn time_sig_quantum_and_bar_ticks() {
    let cases = [
        (TimeSig { num: 4, den: 4 }, 4.0, 128),
        (TimeSig { num: 7, den: 8 }, 3.5, 112),
        (TimeSig { num: 3, den: 4 }, 3.0, 96),
        (TimeSig { num: 5, den: 16 }, 1.25, 40),
        (TimeSig { num: 2, den: 1 }, 8.0, 256),
    ];
    for (ts, quantum, ticks) in cases {
        assert_eq!(units(ts.quantum()), quantum, "{ts:?} quantum");
        assert_eq!(ts.bar_ticks(), ticks, "{ts:?} bar_ticks");
    }
}

#[test]
fn time_sig_sanitized_clamps() {
    assert_eq!(TimeSig { num: 0, den: 4 }.sanitized(), TimeSig { num: 1, den: 4 });
    assert_eq!(TimeSig { num: 4, den: 3 }.sanitized().den, 2);
    assert_eq!(TimeSig { num: 4, den: 32 }.sanitized().den, 16);
    assert_eq!(TimeSig { num: 4, den: 0 }.sanitized().den, 1);
}

#[test]
fn cadence_note_is_signature_independent() {
    let sig_4_4 = TimeSig { num: 4, den: 4 };
    let sig_7_8 = TimeSig { num: 7, den: 8 };
    assert_eq!(Cadence::Note(32).ticks(sig_4_4), 32);
    // A note value does not look at the signature.
    let none = TimeSig { num: 3, den: 0 };
    assert_eq!((Cadence::Note(32).ticks(none), Cadence::Note(32).beats(none)), (32, micro(1.0)));
    assert!(Cadence::Note(u32::MAX).is_countable(none));
    // Bars add up.
    assert_eq!(Cadence::Bars(0).ticks(sig_4_4), 0);
    assert_eq!(Cadence::Bars(5).ticks(sig_4_4), Cadence::Bars(2).ticks(sig_4_4) + Cadence::Bars(3).ticks(sig_4_4));
    assert_eq!(Cadence::Note(32).ticks(sig_7_8), 32);
}

#[test]
fn cadence_bars_tracks_signature() {
    let sig_7_8 = TimeSig { num: 7, den: 8 };
    assert_eq!(Cadence::Bars(2).ticks(sig_7_8), 224);
    assert_eq!(units(Cadence::Bars(2).beats(sig_7_8)), 7.0);
}

#[test]
fn ticks_and_beats_measure_the_same_bar() {
    for den in [1u8, 2, 4, 8, 16] {
        for num in [1u8, 3, 7, 255] {
            let ts = TimeSig { num, den };
            assert_eq!(ts.bar_ticks() as i64 * MICRO_BEATS_PER_TICK, ts.quantum());
            assert_eq!(ts.sanitized(), ts);
        }
    }
    assert_eq!(LOOP_TICKS_PER_BEAT as i64 * MICRO_BEATS_PER_TICK, 1_000_000);
}

#[test]
fn defaults_are_common_time_and_four_bars() {
    assert_eq!(TimeSig::default(), TimeSig { num: 4, den: 4 });
    assert_eq!(Cadence::default(), Cadence::Bars(4));
    assert_eq!(SyncKind::default(), SyncKind::Internal);
}

#[test]
fn rounding_helpers() {
    assert_eq!(floor_div(-7, 2), -4);
    assert_eq!(floor_div(7, 2), 3);
    assert_eq!(floor_mod(-1, 4), 3);
    assert_eq!(snap_to_multiple(6, 4), 8);
    assert_eq!(snap_to_multiple(-6, 4), -8);
    assert_eq!(snap_to_multiple(5, 4), 4);
    assert_eq!(round(5, 2), 3);
    assert_eq!(round(-5, 2), -3);
    assert_eq!(round_half_even(5, 2), 2);
    assert_eq!(round_half_even(7, 2), 4);
}
