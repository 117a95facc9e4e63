//! The round-robin of cues.

use vidiotic::clock::ClockSnapshot;
use vidiotic::sequencer::{CueStep, Sequencer, SequencerEvent};

fn micro(x: f64) -> i64 {
    (x * 1e6).round() as i64
}

fn snap(beat: f64) -> ClockSnapshot {
    ClockSnapshot {
        bpm: micro(120.0),
        beat: micro(beat),
        phase: micro(beat.rem_euclid(4.0)),
        quantum: micro(4.0),
        is_playing: true,
    }
}

#[test]
fn idle_starts_first_active_clip() {
    let mut s = Sequencer::new(micro(16.0));
    assert_eq!(s.toggle_active(1, micro(0.0)), vec![SequencerEvent::SwapTo(1)]);
    assert_eq!(s.playing(), Some(1));
}

#[test]
fn arms_one_bar_early_then_cuts_on_boundary() {
    let mut s = Sequencer::new(micro(16.0));
    s.toggle_active(1, micro(0.0));
    s.toggle_active(2, micro(0.0));
    assert!(s.tick(&snap(1.0)).is_empty());
    assert_eq!(s.tick(&snap(12.0)), vec![SequencerEvent::ArmDecoder(2)]);
    assert_eq!(s.armed(), Some(2));
    assert_eq!(s.tick(&snap(16.1)), vec![SequencerEvent::SwapTo(2)]);
    assert_eq!(s.playing(), Some(2));
}

#[test]
fn solo_clip_loops_without_swap() {
    let mut s = Sequencer::new(micro(16.0));
    s.toggle_active(1, micro(0.0));
    s.tick(&snap(1.0));
    assert!(s.tick(&snap(12.0)).is_empty());
    assert!(s.tick(&snap(16.1)).is_empty());
    assert_eq!(s.playing(), Some(1));
}

#[test]
fn reset_to_first_disarms_a_pending_swap() {
    let mut s = Sequencer::new(micro(16.0));
    for c in [1, 2, 3] {
        s.toggle_active(c, micro(0.0));
    }
    s.tick(&snap(1.0));
    assert_eq!(s.tick(&snap(12.0)), vec![SequencerEvent::ArmDecoder(2)]);
    assert_eq!(s.armed(), Some(2));

    // Cue 1 is on screen already: the pending swap goes, nothing else moves.
    let ev = s.reset_to_first();
    assert_eq!(ev, vec![SequencerEvent::DisarmDecoder]);
    assert_eq!(s.playing(), Some(1));
    assert_eq!(s.armed(), None);
}

#[test]
fn reset_to_first_swaps_back_from_a_later_cue() {
    let mut s = Sequencer::new(micro(16.0));
    for c in [1, 2, 3] {
        s.toggle_active(c, micro(0.0));
    }
    s.tick(&snap(1.0));
    s.tick(&snap(12.0));
    assert_eq!(s.tick(&snap(16.1)), vec![SequencerEvent::SwapTo(2)]);
    assert_eq!(s.playing(), Some(2));

    let ev = s.reset_to_first();
    assert_eq!(ev, vec![SequencerEvent::SwapTo(1)]);
    assert_eq!(s.playing(), Some(1));
}

#[test]
fn reset_to_first_on_first_cue_is_a_no_op() {
    let mut s = Sequencer::new(micro(16.0));
    s.toggle_active(1, micro(0.0));
    assert_eq!(s.reset_to_first(), vec![]);
    assert_eq!(s.playing(), Some(1));
}

#[test]
fn reset_to_first_with_no_active_cues_is_a_no_op() {
    let mut s = Sequencer::new(micro(16.0));
    assert_eq!(s.reset_to_first(), vec![]);
    assert_eq!(s.playing(), None);
}

#[test]
fn removing_armed_clip_rearms_replacement() {
    let mut s = Sequencer::new(micro(16.0));
    for c in [1, 2, 3] {
        s.toggle_active(c, micro(0.0));
    }
    s.tick(&snap(1.0));
    assert_eq!(s.tick(&snap(12.0)), vec![SequencerEvent::ArmDecoder(2)]);
    // The armed cue leaves with a full bar to go: the next one is armed.
    let ev = s.toggle_active(2, micro(12.0));
    assert_eq!(
        ev,
        vec![SequencerEvent::DisarmDecoder, SequencerEvent::ArmDecoder(3)]
    );
    assert_eq!(s.armed(), Some(3));
}

#[test]
fn a_full_round_shows_every_cue() {
    let mut s = Sequencer::new(micro(16.0));
    for c in [1, 2, 3] {
        s.toggle_active(c, micro(0.0));
    }
    s.tick(&snap(1.0));
    let mut shown = vec![];
    for phrase in 1..=6 {
        let start = phrase as f64 * 16.0;
        s.tick(&snap(start - 1.0));
        for e in s.tick(&snap(start + 0.1)) {
            if let SequencerEvent::SwapTo(c) = e {
                shown.push(c);
            }
        }
    }
    assert_eq!(shown, vec![2, 3, 1, 2, 3, 1]);
}

#[test]
fn a_pause_moves_nothing() {
    let mut s = Sequencer::new(micro(16.0));
    s.toggle_active(1, micro(0.0));
    s.toggle_active(2, micro(0.0));
    s.tick(&snap(1.0));
    let mut paused = snap(40.0);
    paused.is_playing = false;
    assert!(s.tick(&paused).is_empty());
    assert_eq!(s.playing(), Some(1));
    assert_eq!(s.armed(), None);
}

#[test]
fn toggling_a_waiting_cue_twice_changes_nothing() {
    let mut s = Sequencer::new(micro(16.0));
    s.toggle_active(1, micro(0.0));
    assert!(s.toggle_active(5, micro(3.0)).is_empty());
    assert!(s.toggle_active(5, micro(3.0)).is_empty());
    s.tick(&snap(1.0));
    assert!(s.tick(&snap(12.0)).is_empty());
}

#[test]
fn removing_the_playing_cue_keeps_it_until_the_boundary() {
    let mut s = Sequencer::new(micro(16.0));
    for c in [1, 2] {
        s.toggle_active(c, micro(0.0));
    }
    s.tick(&snap(1.0));
    let ev = s.toggle_active(1, micro(2.0));
    assert!(!ev.contains(&SequencerEvent::SwapTo(2)));
    assert_eq!(s.playing(), Some(1));
    s.tick(&snap(13.0));
    assert_eq!(s.tick(&snap(16.0)), vec![SequencerEvent::SwapTo(2)]);
}

#[test]
fn phrases_last_a_beat_at_least() {
    assert_eq!(Sequencer::new(0).phrase_len(), micro(1.0));
    let mut s = Sequencer::new(micro(16.0));
    assert_eq!(s.phrase_len(), micro(16.0));
    s.set_phrase_len(micro(0.25));
    assert_eq!(s.phrase_len(), micro(1.0));
    s.set_phrase_len(micro(8.0));
    assert_eq!(s.phrase_len(), micro(8.0));
}

#[test]
fn a_new_active_set_starts_an_idle_sequencer() {
    let mut s = Sequencer::new(micro(16.0));
    assert_eq!(s.set_active_set(vec![7, 8]), vec![SequencerEvent::SwapTo(7)]);
    s.reset_boundary();
    assert_eq!((s.playing(), s.armed()), (Some(7), None));
    assert!(s.tick(&snap(20.0)).is_empty());
    assert_eq!((s.playing(), s.armed()), (Some(7), None));
    assert_eq!(s.tick(&snap(28.0)), vec![SequencerEvent::ArmDecoder(8)]);
    assert_eq!((s.playing(), s.armed()), (Some(7), Some(8)));
    assert_eq!(s.tick(&snap(32.0)), vec![SequencerEvent::SwapTo(8)]);
}

fn step(id: u32, dwell: f64, delay: f64) -> CueStep {
    CueStep { id, dwell: micro(dwell), trig_delay: micro(delay) }
}

#[test]
fn a_dwell_counts_from_the_beat_a_cue_came_on() {
    let mut s = Sequencer::new(micro(16.0));
    s.toggle_active(1, 0);
    s.toggle_active(2, 0);
    let steps = vec![step(1, 6.0, 0.0), step(2, 10.0, 2.0)];
    assert!(s.tick_steps(&snap(1.0), &steps).is_empty());
    // Six beats, and two more that the second cue holds the first.
    assert!(s.tick_steps(&snap(3.9), &steps).is_empty());
    assert_eq!(s.tick_steps(&snap(4.0), &steps), vec![SequencerEvent::ArmDecoder(2)]);
    assert!(s.tick_steps(&snap(7.9), &steps).is_empty());
    assert_eq!(s.tick_steps(&snap(8.1), &steps), vec![SequencerEvent::SwapTo(2)]);
    // Ten beats from the eighth.
    assert!(s.tick_steps(&snap(13.9), &steps).is_empty());
    assert_eq!(s.tick_steps(&snap(14.0), &steps), vec![SequencerEvent::ArmDecoder(1)]);
    assert!(s.tick_steps(&snap(16.5), &steps).is_empty());
    assert_eq!(s.tick_steps(&snap(18.0), &steps), vec![SequencerEvent::SwapTo(1)]);
}

#[test]
fn a_dwell_lasts_a_tick_at_least() {
    let mut s = Sequencer::new(micro(16.0));
    s.toggle_active(1, 0);
    s.toggle_active(2, 0);
    let steps = vec![step(1, 0.0, -3.0), step(2, -5.0, 0.0)];
    assert_eq!(s.tick_steps(&snap(0.0), &steps), vec![SequencerEvent::ArmDecoder(2)]);
    assert!(s.tick_steps(&snap(0.03), &steps).is_empty());
    assert_eq!(s.tick_steps(&snap(0.03125), &steps), vec![SequencerEvent::SwapTo(2)]);
}

#[test]
fn equal_dwells_make_the_phrase_grid() {
    let mut plain = Sequencer::new(micro(8.0));
    let mut timed = Sequencer::new(micro(8.0));
    for c in [1, 2, 3] {
        plain.toggle_active(c, 0);
        timed.toggle_active(c, 0);
    }
    let steps = vec![step(1, 8.0, 0.0), step(2, 8.0, 0.0), step(3, 8.0, 0.0)];
    for i in 0..300 {
        let at = snap(f64::from(i) / 4.0);
        assert_eq!(plain.tick(&at), timed.tick_steps(&at, &steps));
    }
    assert_eq!(plain.playing(), timed.playing());
}

#[test]
fn a_clock_set_back_aims_anew() {
    let mut s = Sequencer::new(micro(16.0));
    s.toggle_active(1, 0);
    s.toggle_active(2, 0);
    let steps = vec![step(1, 6.0, 0.0), step(2, 6.0, 0.0)];
    s.tick_steps(&snap(3.0), &steps);
    s.tick_steps(&snap(6.0), &steps);
    assert_eq!(s.playing(), Some(2));
    assert_eq!(s.tick_steps(&snap(9.0), &steps), vec![SequencerEvent::ArmDecoder(1)]);
    // Back to the start of the grid: the cut is due at the sixth beat again.
    assert!(s.tick_steps(&snap(1.0), &steps).is_empty());
    assert!(s.tick_steps(&snap(5.9), &steps).is_empty());
    assert_eq!(s.tick_steps(&snap(6.0), &steps), vec![SequencerEvent::SwapTo(1)]);
}
