//! What the control surface shows and sends.

use vidiotic::bank::Toggle;
use vidiotic::commands::{
    BankView, Cadence, ChainSlot, ClipRole, Command, CueParam, CueView, ShaderPoolView, SlotRef, SyncKind, TimeSig,
    UiMirror,
};
use vidiotic::isf::{IsfInput, IsfInputKind, IsfValue};
use vidiotic::ui::editor::{
    append_slot, can_sync, id_text, inherit_dwell, inherited_dwell_text, isf_controls, loop_rate_label, move_down,
    move_up, playhead_text, pool_label, pool_slot, preserve_choice, preserve_index, remove_effect, role_text,
    schema_of, set_delay, set_dwell, set_input, set_multiplier, set_nudge, set_swing, slot_label, speed_text,
    switch_clip_bpm, switch_cue_bpm, trim_out, ControlKind,
};
use vidiotic::ui::library::{
    advanced_badges, bank_label, count_text, dropped, fmt_beats, move_earlier, move_later, role_marker, tile_border,
    tile_tags, TileBorder,
};
use vidiotic::ui::status::{device_text, mode, pool, shader_text, spectrum_label, summary, Mode};
use vidiotic::ui::transport::{
    bar_text, beat_dots, bpm_text, entry_text, loop_choice, loop_label, loop_selected, next_choice, next_selected,
    peers_text, phrase_strip, sync_choice, sync_index, BeatDots, CADENCE_BARS, LOOP_CADENCE,
};
use vidiotic::ui::widgets::{
    button_text, checkbox_text, chip_clicked, chip_text, meter_column, fader_track, level_text, loudness, segment_text,
    Loudness,
};
use vidiotic::ui::{
    bars_label, ellipsize, fmt_time, picked, repaint, selected_cue, trim_label, PickKind, Repaint,
};
use vidiotic::units::Single;

fn micro(x: f64) -> i64 {
    (x * 1e6).round() as i64
}

fn cue(id: u32) -> CueView {
    CueView {
        id,
        clip: 3,
        name: format!("cue {id}"),
        in_sec: micro(1.5),
        out_sec: None,
        preserve: None,
        chain: vec![],
        role: ClipRole::Idle,
        has_thumb: false,
        dwell: None,
        loop_len: None,
        loop_phase: Toggle { on: false, val: 0 },
        start_nudge: Toggle { on: false, val: 0 },
        trig_delay: Toggle { on: false, val: 0 },
        bpm: None,
        clip_bpm: None,
        bpm_sync_on: false,
        speed_mul: Toggle { on: false, val: micro(1.0) },
        speed: micro(1.0),
    }
}

fn mirror() -> UiMirror {
    UiMirror {
        bpm: micro(128.04),
        bpm_entry: None,
        beat: micro(21.25),
        phase: micro(1.25),
        quantum: micro(4.0),
        time_sig: TimeSig { num: 4, den: 4 },
        phrase_cadence: Cadence::Bars(4),
        loop_cadence: None,
        bar_in_phrase: 1,
        bars_per_phrase: 4,
        phrase_beats: micro(16.0),
        loop_len: None,
        preserve_playhead: false,
        advanced: false,
        sync: None,
        peers: 0,
        can_set_tempo: true,
        can_set_phase: true,
        audio_devices: vec![],
        current_device: None,
        audio_error: None,
        shader_name: Some("demo.frag".into()),
        shader_error: None,
        clip_dir: None,
        clip_banks: vec![],
        active_clip_bank: 0,
        clips: vec![],
        banks: vec![],
        live_bank: 0,
        edit_bank: 0,
        cues: vec![cue(4), cue(9)],
        selected_cue: None,
        shader_pool: vec![],
        playhead_sec: micro(65.125),
        levels: vec![],
        spectrum_linear: vec![],
        level: Single(0),
        fullscreen: false,
    }
}

#[test]
fn texts_are_cut_with_an_ellipsis() {
    assert_eq!(ellipsize("kick.mov", 16), "kick.mov");
    assert_eq!(ellipsize("kick.mov", 8), "kick.mov");
    assert_eq!(ellipsize("kick.mov", 5), "kick…");
    assert_eq!(ellipsize("kick.mov", 0), "…");
    assert_eq!(ellipsize("äöü…", 3), "äö…");
}

#[test]
fn times_are_minutes_and_seconds() {
    assert_eq!(fmt_time(0), "0:00.00");
    assert_eq!(fmt_time(micro(-3.0)), "0:00.00");
    assert_eq!(fmt_time(micro(65.125)), format!("1:{:05.2}", 5.125));
    assert_eq!(fmt_time(micro(59.5)), "0:59.50");
    assert_eq!(fmt_time(micro(754.339)), "12:34.34");
}

#[test]
fn trims_and_bars_in_words() {
    let mut c = cue(1);
    assert_eq!(trim_label(&c), "0:01.50–end");
    c.out_sec = Some(micro(4.0));
    assert_eq!(trim_label(&c), "0:01.50–0:04.00");
    assert_eq!(bars_label(1), "1 bar");
    assert_eq!(bars_label(16), "16 bars");
}

#[test]
fn the_editor_shows_the_selected_cue() {
    let mut m = mirror();
    assert_eq!(selected_cue(&m), None);
    m.selected_cue = Some(9);
    assert_eq!(selected_cue(&m), Some(1));
    m.selected_cue = Some(5);
    assert_eq!(selected_cue(&m), None);
}

#[test]
fn painting_again() {
    assert_eq!(repaint(0), Repaint::Now);
    assert_eq!(repaint(5_000), Repaint::After(5_000));
    assert_eq!(repaint(3_600_000_000_000), Repaint::Idle);
}

#[test]
fn dialogs_answer_with_a_command() {
    let p = || "/x".to_string();
    assert!(matches!(picked(PickKind::ClipDir, p()), Command::SetClipDir(d) if d == "/x"));
    assert!(matches!(picked(PickKind::ClipBankDir, p()), Command::AddClipDirAsBank(d) if d == "/x"));
    assert!(matches!(picked(PickKind::Shader, p()), Command::SetShaderPath(d) if d == "/x"));
    assert!(matches!(picked(PickKind::Isf, p()), Command::LoadIsf(d) if d == "/x"));
}

#[test]
fn cadence_rows_mark_and_set_lengths() {
    let mut m = mirror();
    assert_eq!(next_selected(&m), Some(2));
    assert!(matches!(next_choice(2), Command::SetPhraseCadence(Cadence::Bars(4))));
    m.phrase_beats = micro(3.0);
    assert_eq!(next_selected(&m), None);
    m.time_sig = TimeSig { num: 3, den: 4 };
    assert_eq!(next_selected(&m), Some(0));
    assert_eq!(loop_selected(&m), 0);
    m.time_sig = TimeSig { num: 4, den: 4 };
    for i in 0..8 {
        m.loop_len = Some(LOOP_CADENCE[i]);
        assert_eq!(loop_selected(&m), i + 1);
    }
    m.loop_len = Some(17);
    assert_eq!(loop_selected(&m), 0);
    assert!(matches!(loop_choice(0), Command::SetLoopCadence(None)));
    assert!(matches!(loop_choice(1), Command::SetLoopCadence(Some(Cadence::Note(16)))));
    assert!(matches!(loop_choice(5), Command::SetLoopCadence(Some(Cadence::Bars(2)))));
    let labels: Vec<String> = LOOP_CADENCE.iter().map(|t| loop_label(*t)).collect();
    assert_eq!(labels, vec!["1/8", "1/4", "1/2", "1 bar", "2 bars", "4 bars", "8 bars", "16 bars"]);
    assert_eq!(CADENCE_BARS, [1, 2, 4, 8, 16]);
}

#[test]
fn transport_readouts() {
    let mut m = mirror();
    assert_eq!(bpm_text(m.bpm), format!("{:6.1}", 128.04));
    assert_eq!(bpm_text(micro(99.96)), " 100.0");
    assert_eq!(bpm_text(micro(1234.5)), "1234.5");
    assert_eq!(entry_text("12"), "12▏");
    assert_eq!(bar_text(&m), "bar 2/4");
    m.bars_per_phrase = 0;
    assert_eq!(bar_text(&m), "bar 2/1");
    assert_eq!(beat_dots(&m), BeatDots { count: 4, current: 1 });
    m.quantum = micro(3.5);
    m.phase = micro(3.25);
    assert_eq!(beat_dots(&m), BeatDots { count: 4, current: 3 });
    m.quantum = 0;
    assert_eq!(beat_dots(&m), BeatDots { count: 1, current: 0 });
}

#[test]
fn the_strip_fills_towards_the_cut() {
    let m = mirror();
    let s = phrase_strip(&m);
    // Bar 1 of 4 beats plus 1.25 beats, of 16.
    assert_eq!(s.fraction, 328_125);
    assert_eq!(s.bars, 4);
    let mut late = mirror();
    late.bar_in_phrase = 9;
    assert_eq!(phrase_strip(&late).fraction, 1_000_000);
}

#[test]
fn sync_selector() {
    let mut m = mirror();
    assert_eq!(sync_index(&m), 0);
    assert_eq!(peers_text(&m), None);
    m.sync = Some(SyncKind::Link);
    assert_eq!(sync_index(&m), 1);
    assert_eq!(peers_text(&m), None);
    m.peers = 2;
    assert_eq!(peers_text(&m), Some("2 peers".into()));
    assert!(matches!(sync_choice(0), Command::SetSyncSource(SyncKind::Internal)));
    assert!(matches!(sync_choice(1), Command::SetSyncSource(SyncKind::Link)));
}

#[test]
fn beats_are_compact() {
    assert_eq!(fmt_beats(512), "16");
    assert_eq!(fmt_beats(48), "1.5");
    for t in 0..200u32 {
        let b = t as f64 / 32.0;
        let want = if b.fract() == 0.0 {
            format!("{}", b as i64)
        } else {
            format!("{b:.2}").trim_end_matches('0').trim_end_matches('.').to_string()
        };
        assert_eq!(fmt_beats(t), want);
    }
}

#[test]
fn library_tags() {
    let mut c = cue(1);
    assert!(advanced_badges(&c).is_empty());
    assert_eq!(tile_tags(&c), vec!["0:01.50–end"]);
    c.dwell = Some(48);
    c.loop_len = Some(0);
    c.trig_delay.on = true;
    c.speed = micro(1.25);
    assert_eq!(advanced_badges(&c), vec!["⌛1.5b", "loop off", "offset", "1.25×"]);
    c.loop_len = Some(16);
    c.trig_delay.on = false;
    c.speed = micro(1.0005);
    assert_eq!(advanced_badges(&c), vec!["⌛1.5b", "↻0.5b"]);
    c.preserve = Some(true);
    c.chain.push(ChainSlot::new(SlotRef::Live));
    assert_eq!(tile_tags(&c), vec!["0:01.50–end", "keep", "fx"]);
    c.preserve = Some(false);
    assert_eq!(tile_tags(&c)[1], "cut");
    assert_eq!(role_marker(ClipRole::Playing), "▶");
    assert_eq!(role_marker(ClipRole::Armed), "○");
    assert_eq!(role_marker(ClipRole::Idle), " ");
}

#[test]
fn bank_tabs_and_moves() {
    let b = BankView { name: "A".into(), cue_count: 3 };
    assert_eq!(bank_label(&b, true), "● A (3)");
    assert_eq!(bank_label(&b, false), "A (3)");
    assert_eq!(count_text(12), "(12)");
    assert!(move_earlier(4, 0).is_none());
    assert!(matches!(move_earlier(4, 2), Some(Command::MoveCue(4, 1))));
    assert!(matches!(move_later(4, 2), Command::MoveCue(4, 3)));
    assert!(matches!(dropped(4, 5, 7), Some(Command::MoveCue(4, 7))));
    assert!(dropped(4, 4, 7).is_none());
    assert_eq!(tile_border(true, true, true), TileBorder::Selected);
    assert_eq!(tile_border(false, true, true), TileBorder::Active);
    assert_eq!(tile_border(false, false, true), TileBorder::Hovered);
    assert_eq!(tile_border(false, false, false), TileBorder::Plain);
}

#[test]
fn the_status_line() {
    let mut m = mirror();
    assert_eq!(mode(&m), Mode::Normal);
    m.bpm_entry = Some("1".into());
    assert_eq!(mode(&m), Mode::Entry);
    m.shader_error = Some("no".into());
    assert_eq!(mode(&m), Mode::Error);
    assert_eq!(mode(&m).word(), "ERROR");
    assert_eq!(summary(&m), "demo.frag   0 clips · 2 cues · 128.0 bpm");
    m.shader_name = None;
    assert_eq!(summary(&m), "—   0 clips · 2 cues · 128.0 bpm");
    assert_eq!(shader_text(&m), "<none>");
    assert_eq!(device_text(&m), "default");
    m.current_device = Some("mic".into());
    assert_eq!(device_text(&m), "mic");
    assert_eq!(spectrum_label(true), "512·lin");
    assert_eq!(spectrum_label(false), "21·log");
}

#[test]
fn spectra_are_pooled() {
    assert_eq!(pool(&vec![1, 9, 3, 4, 8, 2], 3), vec![9, 4, 8]);
    assert_eq!(pool(&vec![5, 6], 4), vec![5, 5, 6, 6]);
    assert_eq!(pool(&vec![], 2), vec![0, 0]);
    assert_eq!(pool(&vec![7; 512], 48).len(), 48);
}

#[test]
fn widgets_in_text() {
    assert_eq!(segment_text("Link", true), "[Link]");
    assert_eq!(segment_text("Link", false), " Link ");
    assert_eq!(chip_text("2 peers", false), "(2 peers)");
    assert_eq!(chip_text("pin", true), "(pin ×)");
    assert_eq!(button_text("save"), "[ save ]");
    assert_eq!(checkbox_text(true, "sync"), "[x] sync");
    assert_eq!(checkbox_text(false, ""), "[ ]");
    assert!(chip_clicked(true, false) && !chip_clicked(true, true));
    assert_eq!(fader_track(8), "├──┼─┼─┼─┤");
    assert_eq!(fader_track(0), "├─┼┼┼┤");
    assert_eq!(meter_column(micro(-1.0)), '▁');
    assert_eq!(meter_column(micro(0.5)), '▄');
    assert_eq!(meter_column(micro(2.0)), '█');
    assert_eq!(level_text(micro(0.5), 4), "██▁▁");
    assert_eq!(level_text(micro(0.375), 4), "█▄▁▁");
    assert_eq!(loudness(micro(0.5)), Loudness::Normal);
    assert_eq!(loudness(micro(0.6)), Loudness::High);
    assert_eq!(loudness(micro(0.9)), Loudness::Clipping);
}

#[test]
fn trim_and_playhead_controls() {
    let c = cue(7);
    assert!(matches!(trim_out(&c, true), Command::SetCueOut(7, Some(o)) if o == micro(2.5)));
    assert!(matches!(trim_out(&c, false), Command::SetCueOut(7, None)));
    for p in [None, Some(true), Some(false)] {
        assert!(matches!(preserve_choice(7, preserve_index(p)), Command::SetCuePreserve(7, q) if q == p));
    }
    assert_eq!(role_text(ClipRole::Armed), "armed");
    assert_eq!(id_text(7), "#7");
    assert_eq!(playhead_text(&mirror()), "⏱ 1:05.12");
}

fn shaders(c: &Command) -> Vec<SlotRef> {
    match c {
        Command::SetCueChain(_, chain) => chain.iter().map(|s| s.shader.clone()).collect(),
        other => panic!("not a chain: {other:?}"),
    }
}

#[test]
fn effects_move_in_the_chain() {
    let mut c = cue(7);
    c.chain = vec![
        ChainSlot::new(SlotRef::Live),
        ChainSlot::new(SlotRef::Pinned(2)),
        ChainSlot::new(SlotRef::Builtin("k".into())),
    ];
    let k = || SlotRef::Builtin("k".into());
    assert_eq!(shaders(&move_down(&c, 0).unwrap()), vec![SlotRef::Pinned(2), SlotRef::Live, k()]);
    assert!(move_down(&c, 2).is_none());
    assert_eq!(shaders(&move_up(&c, 2).unwrap()), vec![SlotRef::Live, k(), SlotRef::Pinned(2)]);
    assert!(move_up(&c, 0).is_none());
    assert_eq!(shaders(&remove_effect(&c, 1)), vec![SlotRef::Live, k()]);
    assert_eq!(
        shaders(&append_slot(&c, SlotRef::Isf("f.fs".into()))),
        vec![SlotRef::Live, SlotRef::Pinned(2), k(), SlotRef::Isf("f.fs".into())]
    );
}

fn pool_entry(id: u32, name: &str, builtin: bool, inputs: Vec<IsfInput>) -> ShaderPoolView {
    ShaderPoolView { id, name: name.into(), builtin, inputs }
}

fn input(name: &str, label: Option<&str>, kind: IsfInputKind) -> IsfInput {
    IsfInput { name: name.into(), label: label.map(|l| l.to_string()), kind }
}

#[test]
fn slots_have_names() {
    let mut m = mirror();
    m.shader_pool = vec![pool_entry(2, "demo #1", false, vec![])];
    assert_eq!(slot_label(&SlotRef::Live, &m), "Live shader");
    assert_eq!(slot_label(&SlotRef::Builtin("kaleido".into()), &m), "kaleido");
    assert_eq!(slot_label(&SlotRef::Pinned(2), &m), "demo #1");
    assert_eq!(slot_label(&SlotRef::Pinned(3), &m), "pin #3");
    assert_eq!(slot_label(&SlotRef::Isf("/fx/hue.fs".into()), &m), "ISF: hue");
    let isf = pool_entry(4, "/fx/hue.fs", false, vec![input("gain", None, IsfInputKind::Event)]);
    assert_eq!(pool_label(&isf), "ISF: hue");
    assert_eq!(pool_slot(&isf), SlotRef::Isf("/fx/hue.fs".into()));
    let built = pool_entry(5, "kaleido", true, vec![]);
    assert_eq!(pool_label(&built), "kaleido");
    assert_eq!(pool_slot(&built), SlotRef::Builtin("kaleido".into()));
    assert_eq!(pool_slot(&m.shader_pool[0]), SlotRef::Pinned(2));
    m.shader_pool.push(isf);
    assert_eq!(schema_of(&SlotRef::Isf("/fx/hue.fs".into()), &m), Some(1));
    assert_eq!(schema_of(&SlotRef::Isf("/fx/other.fs".into()), &m), None);
    assert_eq!(schema_of(&SlotRef::Pinned(2), &m), None);
}

#[test]
fn effect_inputs_become_controls() {
    let inputs = vec![
        input("picture", None, IsfInputKind::Image),
        input("gain", Some("Gain"), IsfInputKind::Float { min: Single(0), max: Single(9), default: Single(5) }),
        input(
            "mode",
            None,
            IsfInputKind::Long { values: vec![10, 20], labels: vec!["ten".into()], default: 10 },
        ),
        input("flip", None, IsfInputKind::Bool { default: false }),
        input("hit", None, IsfInputKind::Event),
    ];
    let mut slot = ChainSlot::new(SlotRef::Isf("x.fs".into()));
    let controls = isf_controls(&slot, &inputs);
    assert_eq!(controls.len(), 4);
    assert_eq!(controls[0].label, "Gain");
    assert!(matches!(controls[0].kind, ControlKind::Slider { value: Single(5), .. }));
    assert_eq!(controls[1].label, "mode");
    match &controls[1].kind {
        ControlKind::Choice { value, shown, options } => {
            assert_eq!((*value, shown.as_str()), (10, "ten"));
            let names: Vec<&str> = options.iter().map(|o| o.label.as_str()).collect();
            assert_eq!(names, vec!["ten", "?"]);
        }
        other => panic!("not a choice: {other:?}"),
    }
    assert!(matches!(controls[3].kind, ControlKind::Trigger));
    slot.set_param("gain".into(), IsfValue::Float(Single(8)));
    slot.set_param("mode".into(), IsfValue::Long(20));
    // A value of the wrong kind does not count.
    slot.set_param("flip".into(), IsfValue::Long(1));
    let controls = isf_controls(&slot, &inputs);
    assert!(matches!(controls[0].kind, ControlKind::Slider { value: Single(8), .. }));
    assert!(matches!(&controls[1].kind, ControlKind::Choice { value: 20, shown, .. } if shown == "—"));
    assert!(matches!(controls[2].kind, ControlKind::Checkbox { value: false }));
    let cmd = set_input(7, 2, "gain", IsfValue::Bool(true));
    assert!(matches!(
        cmd,
        Command::SetChainParam { cue: 7, slot: 2, name, value: IsfValue::Bool(true) } if name == "gain"
    ));
}

#[test]
fn timing_knobs_round_to_ticks() {
    let m = mirror();
    let c = cue(7);
    assert!(matches!(inherit_dwell(&m, &c, true), Command::SetCueParam(7, CueParam::Dwell(None))));
    assert!(matches!(inherit_dwell(&m, &c, false), Command::SetCueParam(7, CueParam::Dwell(Some(512)))));
    assert!(matches!(set_dwell(7, micro(1.5)), Command::SetCueParam(7, CueParam::Dwell(Some(48)))));
    assert!(matches!(set_dwell(7, 0), Command::SetCueParam(7, CueParam::Dwell(Some(1)))));
    assert_eq!(inherited_dwell_text(&m), "16 b (global)");
    assert_eq!(loop_rate_label(None), "inherit");
    assert_eq!(loop_rate_label(Some(0)), "off");
    assert_eq!(loop_rate_label(Some(64)), "1/2");
    assert_eq!(loop_rate_label(Some(100)), "100 tk");
    assert!(matches!(
        set_swing(7, true, micro(-2.5)),
        Command::SetCueParam(7, CueParam::LoopPhase(Toggle { on: true, val: -3 }))
    ));
    assert!(matches!(
        set_nudge(7, false, micro(0.5)),
        Command::SetCueParam(7, CueParam::StartNudge(Toggle { on: false, val: 500_000 }))
    ));
    assert!(matches!(
        set_delay(7, true, micro(2.0)),
        Command::SetCueParam(7, CueParam::TrigDelay(Toggle { on: true, val: 64 }))
    ));
    assert!(matches!(
        set_multiplier(7, true, micro(2.0)),
        Command::SetCueParam(7, CueParam::SpeedMul(Toggle { on: true, val: 2_000_000 }))
    ));
}

#[test]
fn tempo_switches_start_from_what_is_known() {
    let mut c = cue(7);
    assert!(!can_sync(&c));
    assert!(matches!(switch_clip_bpm(&c, true), Command::SetClipBpm(3, Some(b)) if b == micro(120.0)));
    assert!(matches!(switch_clip_bpm(&c, false), Command::SetClipBpm(3, None)));
    c.clip_bpm = Some(micro(90.0));
    assert!(can_sync(&c));
    assert!(matches!(
        switch_cue_bpm(&c, true),
        Command::SetCueParam(7, CueParam::Bpm(Some(b))) if b == micro(90.0)
    ));
    assert!(matches!(switch_cue_bpm(&c, false), Command::SetCueParam(7, CueParam::Bpm(None))));
    c.speed = micro(0.875);
    assert_eq!(speed_text(&c), format!("→ {:.2}× effective", 0.875));
}
