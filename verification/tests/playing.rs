//! The engine: commands, ticks and the work they lead to.

use std::collections::HashMap;

use vidiotic::app::{App, Effect};
use vidiotic::bank::{Bank, Cue, Toggle};
use vidiotic::clippool::{Clip, ClipBank, ClipSource};
use vidiotic::clock::{ClockCaps, ClockSnapshot};
use vidiotic::commands::{Cadence, ChainSlot, ClipRole, Command, CueParam, SlotRef, SyncKind, TimeSig};
use vidiotic::control_input::{Key, KeyPress};
use vidiotic::engine::{can_start, Boot};
use vidiotic::isf::IsfValue;
use vidiotic::mirror::MirrorInputs;
use vidiotic::project::{ClipMeta, SyncSpec};
use vidiotic::relink::resolve;
use vidiotic::saving::save_dir;
use vidiotic::sequencer::CueStep;
use vidiotic::session::{load_from_project, StartOptions};
use vidiotic::units::Single;

fn micro(x: f64) -> i64 {
    (x * 1e6).round() as i64
}

const MS: u64 = 1_000_000;

fn clip(id: u32, bpm: Option<f64>) -> Clip {
    Clip {
        id,
        source: ClipSource::File(format!("/clips/{id}.mov")),
        name: format!("clip {id}"),
        bpm: bpm.map(micro),
    }
}

fn boot(clips: Vec<Clip>, auto_active: Vec<u32>) -> Boot {
    let ids = clips.iter().map(|c| c.id).collect();
    Boot {
        shader_path: "/s/demo.frag".into(),
        windowed: true,
        monitor: None,
        bpm: micro(120.0),
        time_sig: TimeSig { num: 4, den: 4 },
        phrase_cadence: Cadence::Bars(4),
        initial_sync: SyncKind::Internal,
        clips,
        clip_banks: vec![ClipBank { name: "clips".into(), dir: Some("/clips".into()), clip_ids: ids }],
        cue_banks: vec![],
        auto_active,
        clip_meta: HashMap::new(),
        project_path: None,
        preserve_playhead: false,
        loop_cadence: None,
        advanced: false,
    }
}

fn started(n: u32, auto_active: Vec<u32>) -> (App, Vec<Effect>) {
    App::new(boot((0..n).map(|i| clip(i, None)).collect(), auto_active))
}

fn snap(beat: f64) -> ClockSnapshot {
    ClockSnapshot {
        bpm: micro(120.0),
        beat: micro(beat),
        phase: micro(beat.rem_euclid(4.0)),
        quantum: micro(4.0),
        is_playing: true,
    }
}

fn apply(app: &mut App, cmd: Command) -> Vec<Effect> {
    let mut fx = vec![];
    app.apply_command(cmd, micro(120.0), 0, &mut fx);
    fx
}

fn tick(app: &mut App, beat: f64) -> Vec<Effect> {
    let mut fx = vec![];
    app.update(&snap(beat), &mut fx);
    fx
}

#[test]
fn an_activated_clip_starts_at_once() {
    let (app, fx) = started(2, vec![1]);
    assert_eq!(app.banks.len(), 1);
    assert_eq!(app.banks[0].cues.len(), 1);
    assert_eq!(app.banks[0].cues[0].clip, 1);
    assert_eq!(app.current, Some(app.banks[0].cues[0].id));
    assert!(fx.iter().any(|e| matches!(e, Effect::SpawnDecoder { path, .. } if path == "/clips/1.mov")));
}

#[test]
fn cues_follow_each_other_at_the_phrase() {
    let (mut app, _) = started(2, vec![0, 1]);
    let first = app.current;
    tick(&mut app, 1.0);
    // One bar early the next cue's decoder starts.
    let fx = tick(&mut app, 12.5);
    assert!(fx.iter().any(|e| matches!(e, Effect::SpawnDecoder { path, .. } if path == "/clips/1.mov")));
    assert_eq!(app.current, first);
    let fx = tick(&mut app, 16.0);
    assert_ne!(app.current, first);
    assert!(fx.iter().any(|e| matches!(e, Effect::KeepDecoders { .. })));
    assert_eq!(app.decoders.len(), 1);
}

#[test]
fn editing_another_bank_leaves_playback_alone() {
    let (mut app, _) = started(2, vec![0]);
    apply(&mut app, Command::AddBank);
    apply(&mut app, Command::SetEditBank(1));
    assert_eq!(app.edit_bank, 1);
    assert_eq!(app.banks[1].name, "B");
    let current = app.current;
    let fx = apply(&mut app, Command::AddCue(1));
    assert!(fx.is_empty());
    assert_eq!(app.current, current);
    assert_eq!(app.banks[1].cues.len(), 1);
    assert_eq!(app.selected_cue, Some(app.banks[1].cues[0].id));
}

#[test]
fn advanced_mode_keeps_the_rotation_of_the_live_bank() {
    let (mut app, _) = started(2, vec![0, 1]);
    apply(&mut app, Command::AddBank);
    apply(&mut app, Command::SetEditBank(1));
    tick(&mut app, 1.0);
    let first = app.current;
    assert!(apply(&mut app, Command::SetAdvancedMode(true)).is_empty());
    assert_eq!(app.current, first);
    tick(&mut app, 12.5);
    tick(&mut app, 16.0);
    assert_eq!(app.current, Some(app.banks[0].cues[1].id));
}

#[test]
fn going_live_does_not_cut() {
    let (mut app, _) = started(2, vec![0]);
    apply(&mut app, Command::AddBank);
    apply(&mut app, Command::SetEditBank(1));
    apply(&mut app, Command::AddCue(1));
    let current = app.current;
    apply(&mut app, Command::SetLiveBank(1));
    assert_eq!(app.live_bank, 1);
    assert_eq!(app.current, current);
    apply(&mut app, Command::CycleLiveBank(1));
    assert_eq!(app.live_bank, 0);
    apply(&mut app, Command::CycleLiveBank(-1));
    assert_eq!(app.live_bank, 1);
}

#[test]
fn tempo_commands_only_reach_the_clock() {
    let (mut app, _) = started(1, vec![0]);
    let fx = apply(&mut app, Command::SetBpm(micro(99.0)));
    assert!(matches!(fx[..], [Effect::SetBpm(b)] if b == micro(99.0)));
    let fx = apply(&mut app, Command::BpmDelta(micro(1.0)));
    assert!(matches!(fx[..], [Effect::SetBpm(b)] if b == micro(121.0)));
    let fx = apply(&mut app, Command::NudgeBpm(micro(0.001)));
    assert!(matches!(fx[..], [Effect::NudgeBpm(r)] if r == micro(0.001)));
    let fx = apply(&mut app, Command::TapDownbeat);
    assert!(matches!(fx[..], [Effect::TapDownbeat]));
}

#[test]
fn tapping_measures_the_tempo() {
    let (mut app, _) = started(1, vec![]);
    let mut fx = vec![];
    for i in 0..4u64 {
        app.tap_tempo(i * 500 * MS, &mut fx);
    }
    assert!(matches!(fx.last(), Some(Effect::SetBpm(b)) if *b == micro(120.0)));
    // A long gap starts over.
    let before = fx.len();
    app.tap_tempo(10_000 * MS, &mut fx);
    assert_eq!(fx.len(), before);
    assert_eq!(app.tap_times.len(), 1);
}

#[test]
fn a_hard_reset_starts_over() {
    let (mut app, _) = started(2, vec![0, 1]);
    tick(&mut app, 1.0);
    tick(&mut app, 12.5);
    tick(&mut app, 16.0);
    let fx = apply(&mut app, Command::HardReset);
    assert_eq!(app.current, Some(app.banks[0].cues[0].id));
    assert!(fx.iter().any(|e| matches!(e, Effect::ResetClock)));
    let fx = apply(&mut app, Command::SoftReset);
    assert!(matches!(fx[..], [Effect::ResetClock]));
}

#[test]
fn trims_stay_in_order() {
    let (mut app, _) = started(1, vec![0]);
    let id = app.banks[0].cues[0].id;
    apply(&mut app, Command::SetCueIn(id, micro(3.0)));
    apply(&mut app, Command::SetCueOut(id, Some(micro(1.0))));
    let c = &app.banks[0].cues[0];
    assert!(c.in_sec >= 0);
    assert!(c.out_sec.map_or(true, |o| o > c.in_sec));
    app.frame_shown(micro(4.5), 0);
    apply(&mut app, Command::SetCueInToPlayhead(id));
    assert_eq!(app.banks[0].cues[0].in_sec, micro(4.5));
}

#[test]
fn chains_are_edited_slot_by_slot() {
    let (mut app, _) = started(1, vec![0]);
    let id = app.banks[0].cues[0].id;
    let chain = vec![ChainSlot::new(SlotRef::Live), ChainSlot::new(SlotRef::Pinned(7))];
    apply(&mut app, Command::SetCueChain(id, chain));
    apply(
        &mut app,
        Command::SetChainParam { cue: id, slot: 0, name: "gain".into(), value: IsfValue::Bool(true) },
    );
    assert_eq!(app.banks[0].cues[0].chain[0].param("gain"), Some(&IsfValue::Bool(true)));
    assert_eq!(app.active_chain().len(), 2);
    // Dropping a pinned shader takes it out of every chain.
    let fx = apply(&mut app, Command::RemoveShader(7));
    assert!(matches!(fx[..], [Effect::RemovePoolShader(7)]));
    assert_eq!(app.banks[0].cues[0].chain, vec![{
        let mut s = ChainSlot::new(SlotRef::Live);
        s.set_param("gain".into(), IsfValue::Bool(true));
        s
    }]);
}

#[test]
fn an_effect_file_is_compiled_for_the_selected_cue() {
    let (mut app, _) = started(1, vec![]);
    assert!(apply(&mut app, Command::LoadIsf("/fx/a.fs".into())).is_empty());
    apply(&mut app, Command::AddCue(0));
    let id = app.selected_cue.unwrap();
    let fx = apply(&mut app, Command::LoadIsf("/fx/a.fs".into()));
    assert!(matches!(&fx[..], [Effect::CompileIsf { cue, path }] if *cue == id && path == "/fx/a.fs"));
    app.isf_loaded(id, "/fx/a.fs".into());
    assert_eq!(app.banks[0].cues[0].chain[0].shader, SlotRef::Isf("/fx/a.fs".into()));
    assert_eq!(app.referenced_isf(), vec!["/fx/a.fs".to_string()]);
}

#[test]
fn simple_mode_ignores_the_knobs() {
    let (mut app, _) = App::new(boot(vec![clip(0, Some(60.0))], vec![0]));
    let id = app.banks[0].cues[0].id;
    apply(&mut app, Command::SetCueParam(id, CueParam::BpmSync(true)));
    apply(&mut app, Command::SetCueParam(id, CueParam::Dwell(Some(64))));
    tick(&mut app, 1.0);
    assert_eq!(app.effective_speed(&app.banks[0].cues[0]), micro(1.0));
    assert_eq!(app.step_for(&app.banks[0].cues[0]).dwell, micro(16.0));
    apply(&mut app, Command::SetAdvancedMode(true));
    assert_eq!(app.effective_speed(&app.banks[0].cues[0]), micro(2.0));
    assert_eq!(
        app.step_for(&app.banks[0].cues[0]),
        CueStep { id, dwell: micro(2.0), trig_delay: 0 }
    );
    assert_eq!(app.cue_steps(0).len(), 1);
}

#[test]
fn loops_restart_the_playing_cue() {
    let (mut app, _) = started(1, vec![0]);
    let id = app.current.unwrap();
    apply(&mut app, Command::SetLoopCadence(Some(Cadence::Note(32))));
    assert_eq!(app.current_loop_params(), (Some(32), 0));
    tick(&mut app, 1.1);
    let fx = tick(&mut app, 2.1);
    assert!(fx.iter().any(|e| matches!(e, Effect::RestartDecoder(c) if *c == id)));
    assert!(tick(&mut app, 2.2).is_empty());
}

#[test]
fn a_new_signature_changes_the_bar() {
    let (mut app, _) = started(1, vec![0]);
    let fx = apply(&mut app, Command::SetTimeSig(TimeSig { num: 7, den: 8 }));
    assert!(fx.iter().any(|e| matches!(e, Effect::SetQuantum(q) if *q == micro(3.5))));
    assert_eq!(app.sequencer.phrase_len(), micro(14.0));
    apply(&mut app, Command::SetPhraseCadence(Cadence::Note(64)));
    assert_eq!(app.sequencer.phrase_len(), micro(2.0));
}

#[test]
fn a_decoder_that_fails_is_forgotten() {
    let (mut app, _) = started(1, vec![0]);
    let id = app.current.unwrap();
    assert_eq!(app.decoders, vec![id]);
    app.decoder_failed(id);
    assert!(app.decoders.is_empty());
}

#[test]
fn cue_edits_keep_ids_apart() {
    let (mut app, _) = started(3, vec![]);
    for c in [0, 1, 2, 1] {
        apply(&mut app, Command::AddCue(c));
    }
    let ids: Vec<u32> = app.banks[0].cues.iter().map(|c| c.id).collect();
    let mut sorted = ids.clone();
    sorted.sort();
    sorted.dedup();
    assert_eq!(sorted.len(), 4);
    apply(&mut app, Command::MoveCue(ids[3], 0));
    assert_eq!(app.banks[0].cues[0].id, ids[3]);
    apply(&mut app, Command::RemoveCue(ids[0]));
    assert_eq!(app.banks[0].cues.len(), 3);
    apply(&mut app, Command::AddCue(0));
    assert!(!ids.contains(&app.banks[0].cues[3].id));
}

#[test]
fn a_bigger_pool_keeps_its_ids() {
    let (mut app, _) = started(2, vec![]);
    app.add_clip_dir_as_bank("/more".into(), vec![clip(2, None), clip(3, None)]);
    assert_eq!(app.clips.len(), 4);
    assert_eq!(app.clip_banks[1].name, "more");
    assert_eq!(app.clip_banks[1].clip_ids, vec![2, 3]);
    assert_eq!(app.next_clip_id, 4);
    let fx = apply(&mut app, Command::SetClipDir("/other".into()));
    assert!(matches!(&fx[..], [Effect::ScanPool(d)] if d == "/other"));
    let mut fx = vec![];
    app.set_clip_dir("/other".into(), vec![clip(0, None)], &mut fx);
    assert_eq!(app.clips.len(), 1);
    assert_eq!(app.clip_banks.len(), 1);
}

fn banked(names: &[(&str, &[u32])]) -> Vec<Bank> {
    let mut id = 0;
    names
        .iter()
        .map(|(name, clips)| {
            let mut b = Bank::new((*name).to_string());
            for c in clips.iter() {
                id += 1;
                b.cues.push(Cue::new(id, *c, format!("cue {id}")));
            }
            b
        })
        .collect()
}

fn with_banks(names: &[(&str, &[u32])]) -> (App, Vec<Effect>) {
    let mut b = boot((0..4).map(|i| clip(i, None)).collect(), vec![]);
    b.cue_banks = banked(names);
    App::new(b)
}

fn meta(frames: u64) -> ClipMeta {
    ClipMeta { fps: None, frames: Some(frames), duration_sec: None, source: None }
}

#[test]
fn the_first_cue_bank_plays_from_the_start() {
    let (mut app, fx) = with_banks(&[("A", &[0, 1]), ("B", &[2])]);
    assert_eq!(app.current, Some(1));
    assert!(fx.iter().any(|e| matches!(e, Effect::SpawnDecoder { cue: 1, .. })));
    tick(&mut app, 12.5);
    tick(&mut app, 16.0);
    assert_eq!(app.current, Some(2));
    tick(&mut app, 28.5);
    tick(&mut app, 32.0);
    assert_eq!(app.current, Some(1));
    // Taking a clip out of the live bank takes its cue out of the rotation.
    apply(&mut app, Command::ToggleClipActive(1));
    tick(&mut app, 44.5);
    tick(&mut app, 48.0);
    assert_eq!(app.current, Some(1));
    // And putting it back puts a cue at the end.
    apply(&mut app, Command::ToggleClipActive(1));
    tick(&mut app, 60.5);
    tick(&mut app, 64.0);
    assert_eq!(app.current, Some(app.banks[0].cues[1].id));
}

#[test]
fn a_bank_that_goes_live_takes_over_at_the_next_phrase() {
    let (mut app, _) = with_banks(&[("A", &[0, 1]), ("B", &[2, 3])]);
    tick(&mut app, 1.0);
    apply(&mut app, Command::SetLiveBank(1));
    assert_eq!(app.current, Some(1));
    tick(&mut app, 12.5);
    assert_eq!(app.current, Some(1));
    let mut seen = vec![];
    for beat in [16.0, 28.5, 32.0, 44.5, 48.0] {
        tick(&mut app, beat);
        if seen.last() != app.current.as_ref() {
            seen.extend(app.current);
        }
    }
    assert_eq!(seen, vec![3, 4, 3]);
}

#[test]
fn the_cue_on_display_keeps_its_own_when_another_bank_goes_live() {
    let mut b = boot((0..4).map(|i| clip(i, None)).collect(), vec![]);
    b.cue_banks = banked(&[("A", &[0]), ("B", &[2])]);
    b.cue_banks[0].cues[0].chain = vec![ChainSlot::new(SlotRef::Builtin("kaleido".into()))];
    b.cue_banks[0].cues[0].loop_len = Some(64);
    b.advanced = true;
    let (mut app, _) = App::new(b);
    apply(&mut app, Command::SetLiveBank(1));
    assert_eq!(app.current, Some(1));
    assert_eq!(app.active_chain(), vec![ChainSlot::new(SlotRef::Builtin("kaleido".into()))]);
    assert_eq!(app.current_loop_params(), (Some(64), 0));
    let input = MirrorInputs {
        caps: ClockCaps { can_set_tempo: true, can_set_phase: true, peers: 0 },
        thumbs: vec![],
        audio_devices: vec![],
        current_device: None,
        audio_error: None,
        shader_error: None,
        shader_pool: vec![],
        levels: vec![Single(0); 21],
        audio_tex: vec![0; 1024],
        level: Single(0),
        fullscreen: false,
    };
    let m = app.build_mirror(&snap(1.0), input);
    assert_eq!(m.clips[0].role, ClipRole::Playing);
    assert_eq!(m.clips[2].role, ClipRole::Idle);
}

#[test]
fn another_pool_has_no_probe_data_yet() {
    let mut b = boot(vec![clip(0, None)], vec![]);
    b.clip_meta.insert(0, meta(7));
    let (mut app, _) = App::new(b);
    let mut fx = vec![];
    app.set_clip_dir("/other".into(), vec![clip(0, None)], &mut fx);
    assert!(app.clip_meta.is_empty());
    assert_eq!(app.to_project(micro(120.0), "/p", &vec![]).clips[0].frames, None);
}

#[test]
fn cues_play_their_own_dwell_in_advanced_mode() {
    let mut b = boot((0..4).map(|i| clip(i, None)).collect(), vec![]);
    b.cue_banks = banked(&[("A", &[0, 1, 2])]);
    // Two bars, then half a bar; the third follows the phrase and is held back a
    // beat.
    b.cue_banks[0].cues[0].dwell = Some(8 * 32);
    b.cue_banks[0].cues[1].dwell = Some(2 * 32);
    b.cue_banks[0].cues[2].trig_delay = Toggle { on: true, val: 32 };
    b.advanced = true;
    let (mut app, _) = App::new(b);
    let mut cuts = vec![];
    for i in 0..400 {
        let beat = f64::from(i) / 8.0;
        let before = app.current;
        tick(&mut app, beat);
        if app.current != before {
            cuts.push((beat, app.current.unwrap()));
        }
    }
    assert_eq!(cuts, vec![(8.0, 2), (11.0, 3), (27.0, 1), (35.0, 2), (38.0, 3)]);
    // In simple mode the same cues keep to the phrase.
    apply(&mut app, Command::SetAdvancedMode(false));
    tick(&mut app, 60.5);
    tick(&mut app, 64.0);
    assert_eq!(app.current, Some(1));
}

#[test]
fn a_saved_session_opens_with_what_it_had() {
    let mut b = boot((0..3).map(|i| clip(i, Some(100.0))).collect(), vec![]);
    b.clip_meta.insert(1, meta(64));
    b.cue_banks = banked(&[("A", &[0, 1]), ("Fills", &[2])]);
    b.cue_banks[1].cues[0].in_sec = micro(1.5);
    b.cue_banks[1].cues[0].trig_delay = Toggle { on: true, val: 16 };
    b.cue_banks[1].cues[0].chain = vec![
        ChainSlot::new(SlotRef::Pinned(3)),
        ChainSlot {
            shader: SlotRef::Isf("/proj/fx/blur.fs".into()),
            params: vec![("amount".into(), IsfValue::Float(Single(0.5f32.to_bits())))],
        },
    ];
    let (app, _) = App::new(b);
    let p = app.to_project(micro(99.0), "/proj", &vec![]);
    let r = resolve(p, "/proj", &vec![true; 3]);
    let opts = StartOptions {
        bpm: micro(120.0),
        phrase_len: 16,
        sync: SyncKind::Internal,
        shader: None,
    };
    let l = load_from_project(&r, "/proj/a.viproj", &opts).unwrap();
    assert_eq!(l.shader, "/s/demo.frag");
    assert_eq!(l.bpm, micro(99.0));
    for (a, b) in l.clips.iter().zip(&app.clips) {
        assert_eq!((a.id, &a.name, a.bpm, a.file_path()), (b.id, &b.name, b.bpm, b.file_path()));
    }
    assert_eq!(l.clip_meta[&1].frames, Some(64));
    assert_eq!(l.clip_meta[&0].frames, None);
    assert_eq!(l.clip_banks[0].clip_ids, vec![0, 1, 2]);
    let names: Vec<&str> = l.cue_banks.iter().map(|b| b.name.as_str()).collect();
    assert_eq!(names, vec!["A", "Fills"]);
    let (c, d) = (&app.banks[1].cues[0], &l.cue_banks[1].cues[0]);
    assert_eq!((d.clip, &d.name, d.in_sec, d.trig_delay), (c.clip, &c.name, c.in_sec, c.trig_delay));
    assert_eq!(d.chain, vec![app.banks[1].cues[0].chain[1].clone()]);
}

fn press(text: &str) -> KeyPress {
    KeyPress { key: Key::Character(text.into()), repeat: false, super_key: false, control_key: false }
}

fn named(name: &str) -> KeyPress {
    KeyPress { key: Key::Named(name.into()), repeat: false, super_key: false, control_key: false }
}

#[test]
fn typing_a_tempo() {
    let (mut app, _) = started(1, vec![]);
    for d in ["1", "2", "8"] {
        assert!(app.handle_key(&press(d)).is_none());
    }
    assert_eq!(app.bpm_entry, Some("128".to_string()));
    let cmd = app.handle_key(&named("Enter"));
    assert!(matches!(cmd, Some(Command::SetBpm(b)) if b == micro(128.0)));
    assert_eq!(app.bpm_entry, None);
    // Out of range: nothing happens.
    app.handle_key(&press("5"));
    assert!(app.handle_key(&named("Enter")).is_none());
    // Five digits at most.
    for _ in 0..9 {
        app.handle_key(&press("7"));
    }
    assert_eq!(app.bpm_entry.as_deref(), Some("77777"));
    app.handle_key(&named("Escape"));
    assert_eq!(app.bpm_entry, None);
}

#[test]
fn keys_stand_for_commands() {
    let (mut app, _) = started(1, vec![]);
    assert!(matches!(app.handle_key(&press("t")), Some(Command::TapDownbeat)));
    assert!(matches!(app.handle_key(&press("R")), Some(Command::HardReset)));
    assert!(matches!(app.handle_key(&press("]")), Some(Command::NudgeBpm(1000))));
    let mut held = press("t");
    held.repeat = true;
    assert!(app.handle_key(&held).is_none());
    assert!(app.handle_key(&press("s")).is_none());
    let mut save = press("s");
    save.control_key = true;
    assert!(matches!(app.handle_key(&save), Some(Command::SaveProject)));
}

#[test]
fn a_session_is_saved_with_its_timing() {
    let (mut app, _) = started(1, vec![0]);
    apply(&mut app, Command::SetTimeSig(TimeSig { num: 3, den: 4 }));
    apply(&mut app, Command::SetLoopCadence(Some(Cadence::Note(16))));
    let fx = apply(&mut app, Command::SaveProject);
    assert!(matches!(fx[..], [Effect::PickSavePath(None)]));
    let mut paths = app.paths_to_save();
    paths.sort();
    assert_eq!(paths, vec!["/clips/0.mov".to_string(), "/s/demo.frag".to_string()]);
    let p = app.to_project(micro(123.0), "/proj", &vec![]);
    assert_eq!(p.defaults.bpm, micro(123.0));
    assert_eq!(p.defaults.time_sig(), TimeSig { num: 3, den: 4 });
    assert_eq!(p.defaults.phrase_cadence(), Cadence::Bars(4));
    assert_eq!(p.defaults.loop_cadence(), Some(Cadence::Note(16)));
    assert_eq!(p.defaults.sync, SyncSpec::Internal);
    assert_eq!(p.clips[0].path, "/clips/0.mov");
    assert_eq!(save_dir("/a/b.viproj"), "/a");
    app.project_path = Some("/a/b.viproj".into());
    let fx = apply(&mut app, Command::SaveProject);
    assert!(matches!(&fx[..], [Effect::SaveTo(p)] if p == "/a/b.viproj"));
}

#[test]
fn a_changed_shader_is_loaded_once_it_rests() {
    let (mut app, _) = started(1, vec![]);
    assert!(!app.shader_due(true, 1000 * MS));
    assert!(!app.shader_due(false, 1050 * MS));
    assert!(app.shader_due(false, 1080 * MS));
    assert!(!app.shader_due(false, 1200 * MS));
}

#[test]
fn pins_are_counted() {
    let (mut app, _) = started(1, vec![]);
    let fx = apply(&mut app, Command::CaptureShader);
    assert!(matches!(&fx[..], [Effect::CaptureShader(n)] if n == "demo #1"));
    app.capture_failed();
    let fx = apply(&mut app, Command::CaptureShader);
    assert!(matches!(&fx[..], [Effect::CaptureShader(n)] if n == "demo #1"));
}

#[test]
fn the_mirror_shows_the_engine() {
    let (mut app, _) = started(2, vec![0, 1]);
    let id = app.banks[0].cues[1].id;
    apply(&mut app, Command::SelectCue(Some(id)));
    tick(&mut app, 21.0);
    let input = MirrorInputs {
        caps: ClockCaps { can_set_tempo: true, can_set_phase: true, peers: 2 },
        thumbs: vec![1],
        audio_devices: vec!["mic".into()],
        current_device: None,
        audio_error: None,
        shader_error: None,
        shader_pool: vec![],
        levels: vec![Single(0); 21],
        audio_tex: (0..1024).map(|i| (i % 251) as u8).collect(),
        level: Single(0),
        fullscreen: false,
    };
    let m = app.build_mirror(&snap(21.0), input);
    assert_eq!(m.clips.len(), 2);
    assert_eq!(m.clips[0].role, ClipRole::Playing);
    assert_eq!(m.clips[1].role, ClipRole::Idle);
    assert!(!m.clips[0].has_thumb && m.clips[1].has_thumb);
    assert_eq!((m.bar_in_phrase, m.bars_per_phrase), (1, 4));
    assert_eq!(m.spectrum_linear.len(), 512);
    assert_eq!(m.selected_cue, Some(id));
    assert_eq!(m.shader_name.as_deref(), Some("demo.frag"));
    assert_eq!(m.peers, 2);
}

#[test]
fn banks_find_their_cues() {
    let mut b = Bank::new("A".into());
    b.cues.push(Cue::new(4, 9, "x".into()));
    b.cues.push(Cue::new(6, 9, "y".into()));
    assert_eq!(b.position(6), 1);
    assert_eq!(b.position(5), 2);
    assert_eq!(b.position_of_clip(9), 0);
    assert_eq!(b.ids(), vec![4, 6]);
    b.cue_mut(6).unwrap().loop_phase = Toggle { on: true, val: 3 };
    assert_eq!(b.cue(6).unwrap().loop_phase.val, 3);
    assert!(b.cue_mut(5).is_none());
    let mut c = Cue::new(1, 1, "t".into());
    c.in_sec = 5;
    c.out_sec = Some(5);
    c.normalize_trim();
    assert_eq!(c.out_sec, None);
    c.out_sec = Some(6);
    c.normalize_trim();
    assert_eq!(c.out_sec, Some(6));
}

#[test]
fn sessions_out_of_range_do_not_start() {
    assert!(can_start(&boot(vec![], vec![])));
    let mut b = boot(vec![], vec![]);
    b.time_sig = TimeSig { num: 4, den: 3 };
    assert!(!can_start(&b));
    let mut b = boot(vec![], vec![]);
    b.time_sig = TimeSig { num: 0, den: 4 };
    assert!(!can_start(&b));
    let mut b = boot(vec![], vec![]);
    b.loop_cadence = Some(Cadence::Bars(u32::MAX));
    assert!(!can_start(&b));
    let mut b = boot(vec![], vec![]);
    b.cue_banks = vec![Bank::new("A".into())];
    b.cue_banks[0].cues.push(Cue::new(u32::MAX, 0, "last".into()));
    assert!(!can_start(&b));
    b.cue_banks[0].cues[0].id = u32::MAX - 1;
    assert!(can_start(&b));
}

#[test]
fn commands_out_of_range_are_not_accepted() {
    let (mut app, _) = App::new(boot(vec![], vec![]));
    assert!(app.accepts(&Command::SetPhraseCadence(Cadence::Bars(33_554_431))));
    assert!(!app.accepts(&Command::SetPhraseCadence(Cadence::Bars(33_554_432))));
    assert!(app.accepts(&Command::SetLoopCadence(Some(Cadence::Note(u32::MAX)))));
    let mut fx = Vec::new();
    app.apply_command(Command::SetPhraseCadence(Cadence::Bars(33_554_431)), 120_000_000, 0, &mut fx);
    assert!(!app.accepts(&Command::SetTimeSig(TimeSig { num: 5, den: 4 })));
    assert!(app.accepts(&Command::SetTimeSig(TimeSig { num: 7, den: 8 })));
    assert!(app.accepts(&Command::CaptureShader) && app.accepts(&Command::Quit));
}
