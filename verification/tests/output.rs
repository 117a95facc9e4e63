//! Shaders, textures, surfaces and the audio window.

use vidiotic::analysis::{analysis_step, band, band_width, hop, slide, AnalysisStep, FFT_SIZE};
use vidiotic::clock::ClockSnapshot;
use vidiotic::commands::{ChainSlot, SlotRef};
use vidiotic::gfx::{
    acquire, pick_format, pick_monitor, redraw, RedrawPlan, SurfaceAction, SurfaceSize, SurfaceStatus,
};
use vidiotic::render::{
    beat_uniforms, block_bytes, pad, set_bands, texture_format, BeatUniforms, DrawWith, Pass, PassInput, Program,
    Renderer, ShaderLang, TextureFormat, UploadLayout,
};
use vidiotic::shaderwatch::{EventKind, ShaderWatch};
use vidiotic::units::Single;
use vidiotic::video::{DecodedFrame, HapTextureFormat, PixelData};

#[test]
fn a_broken_shader_keeps_the_last_good() {
    let mut r = Renderer::new();
    assert_eq!(r.draw_with(), DrawWith::Passthrough);
    r.set_shader("bad".into(), ShaderLang::Glsl, Err("line 1".into()));
    assert_eq!(r.draw_with(), DrawWith::Passthrough);
    assert_eq!(r.shader_error(), Some("line 1"));
    r.set_shader("good".into(), ShaderLang::Wgsl, Ok(()));
    assert_eq!(r.draw_with(), DrawWith::Live);
    assert_eq!(r.shader_error(), None);
    r.set_shader("bad".into(), ShaderLang::Glsl, Err("line 2".into()));
    assert_eq!(r.draw_with(), DrawWith::Live);
    assert_eq!(r.capture_source(), Some(("good".to_string(), ShaderLang::Wgsl)));
}

#[test]
fn pins_stand_in_for_the_live_shader() {
    let mut r = Renderer::new();
    assert_eq!(r.capture_current("x".into(), true), None);
    r.set_shader("good".into(), ShaderLang::Glsl, Ok(()));
    assert_eq!(r.capture_current("x".into(), false), None);
    assert_eq!(r.capture_current("one".into(), true), Some(1));
    assert_eq!(r.capture_current("two".into(), true), Some(2));
    let names: Vec<(u32, String)> = r.pool_view().into_iter().map(|p| (p.id, p.name)).collect();
    assert_eq!(names, vec![(1, "one".to_string()), (2, "two".to_string())]);
    r.set_active_shader(Some(2));
    assert_eq!(r.draw_with(), DrawWith::Pinned(2));
    r.remove_pool_shader(2);
    assert_eq!(r.draw_with(), DrawWith::Live);
    r.set_active_shader(Some(2));
    assert_eq!(r.draw_with(), DrawWith::Live);
    // Ids are not given out twice.
    assert_eq!(r.capture_current("three".into(), true), Some(3));
    r.set_active_shader(None);
    assert_eq!(r.draw_with(), DrawWith::Live);
}

fn pass(program: Program, prev: PassInput) -> Pass {
    Pass { program, prev }
}

#[test]
fn each_stage_of_a_chain_reads_the_one_before() {
    let mut r = Renderer::new();
    let shader = |d| Program::Shader(d);
    assert_eq!(r.passes(), vec![pass(shader(DrawWith::Passthrough), PassInput::Picture)]);
    r.set_shader("good".into(), ShaderLang::Glsl, Ok(()));
    assert_eq!(r.passes(), vec![pass(shader(DrawWith::Live), PassInput::Picture)]);
    assert_eq!(r.capture_current("one".into(), true), Some(1));
    r.set_active_chain(&vec![
        ChainSlot::new(SlotRef::Live),
        ChainSlot::new(SlotRef::Builtin("blur".into())),
        ChainSlot::new(SlotRef::Pinned(1)),
        ChainSlot::new(SlotRef::Isf("/fx/glow.fs".into())),
    ]);
    let stages = |third| {
        vec![
            pass(Program::Shader(DrawWith::Passthrough), PassInput::Picture),
            pass(Program::Shader(DrawWith::Live), PassInput::Pass(0)),
            pass(Program::Builtin("blur".into()), PassInput::Pass(1)),
            pass(Program::Shader(third), PassInput::Pass(2)),
            pass(Program::Isf("/fx/glow.fs".into()), PassInput::Pass(3)),
        ]
    };
    assert_eq!(r.passes(), stages(DrawWith::Pinned(1)));
    // A pin that is gone leaves its stage to the live shader.
    r.remove_pool_shader(1);
    assert_eq!(r.passes(), stages(DrawWith::Live));
    r.set_active_chain(&vec![]);
    assert_eq!(r.passes(), vec![pass(shader(DrawWith::Live), PassInput::Picture)]);
}

fn bc(w: u32, h: u32, format: HapTextureFormat, alpha: bool) -> DecodedFrame {
    DecodedFrame {
        pixels: PixelData::Bc {
            format,
            data: vec![],
            alpha: if alpha { Some(vec![]) } else { None },
            video_mode: 0,
        },
        w,
        h,
        pts_sec: 0,
    }
}

#[test]
fn frames_are_planned_into_textures() {
    let mut r = Renderer::new();
    assert!(!r.has_picture());
    let plan = r.upload_frame(&bc(64, 32, HapTextureFormat::Bc1, false));
    assert!(plan.create && r.has_picture());
    assert_eq!(plan.texture.format, TextureFormat::Bc1RgbaUnorm);
    assert_eq!(plan.main, UploadLayout { bytes_per_row: 128, rows: 8 });
    assert_eq!(plan.alpha, None);
    assert!(!r.upload_frame(&bc(64, 32, HapTextureFormat::Bc1, false)).create);
    // Another format, or an alpha plane, needs another texture.
    assert!(r.upload_frame(&bc(64, 32, HapTextureFormat::Bc3YCoCg, false)).create);
    let plan = r.upload_frame(&bc(64, 32, HapTextureFormat::Bc3, true));
    assert!(plan.create);
    assert_eq!(plan.main, UploadLayout { bytes_per_row: 256, rows: 8 });
    assert_eq!(plan.alpha, Some(UploadLayout { bytes_per_row: 128, rows: 8 }));
    // Sizes are padded to whole blocks.
    let plan = r.upload_frame(&bc(61, 30, HapTextureFormat::Bc7, false));
    assert_eq!((plan.texture.w, plan.texture.h), (64, 32));
    assert!(!r.upload_frame(&bc(61, 30, HapTextureFormat::Bc7, false)).create);
    assert!(!r.upload_frame(&bc(64, 32, HapTextureFormat::Bc7, false)).create);
    assert!(r.upload_frame(&bc(65, 32, HapTextureFormat::Bc7, false)).create);
    let rgba = DecodedFrame {
        pixels: PixelData::Rgba { data: vec![0; 80], stride: 20 },
        w: 5,
        h: 4,
        pts_sec: 0,
    };
    let plan = r.upload_frame(&rgba);
    assert_eq!(plan.main, UploadLayout { bytes_per_row: 20, rows: 4 });
    assert_eq!((plan.texture.w, plan.texture.h), (5, 4));
    assert!(!r.upload_frame(&rgba).create);
}

#[test]
fn block_formats() {
    assert_eq!(texture_format(HapTextureFormat::Bc3YCoCg), TextureFormat::Bc3RgbaUnorm);
    assert_eq!(texture_format(HapTextureFormat::Bc4), TextureFormat::Bc4RUnorm);
    assert_eq!(block_bytes(HapTextureFormat::Bc1), 8);
    assert_eq!(block_bytes(HapTextureFormat::Bc7), 16);
    assert_eq!((pad(0), pad(1), pad(4), pad(5)), (0, 4, 4, 8));
}

#[test]
fn bands_fill_the_front_of_their_block() {
    let mut freqs = vec![Single(7); 24];
    set_bands(&mut freqs, &(0..21).map(Single).collect());
    assert_eq!(freqs[20], Single(20));
    assert_eq!(freqs[21], Single(7));
    assert_eq!(freqs.len(), 24);
}

#[test]
fn surfaces() {
    assert_eq!(pick_format(&vec![true, false, false]), 1);
    assert_eq!(pick_format(&vec![true, true]), 0);
    let mut s = SurfaceSize::new(0, 7);
    assert_eq!((s.width, s.height), (1, 7));
    assert!(!s.resize(0, 100));
    assert_eq!((s.width, s.height), (1, 7));
    assert!(s.resize(640, 480));
    assert_eq!((s.width, s.height), (640, 480));
    assert_eq!(acquire(SurfaceStatus::Suboptimal), SurfaceAction::Draw);
    assert_eq!(acquire(SurfaceStatus::Lost), SurfaceAction::Reconfigure);
    assert_eq!(acquire(SurfaceStatus::Occluded), SurfaceAction::Skip);
    assert_eq!(acquire(SurfaceStatus::Validation), SurfaceAction::Report);
}

#[test]
fn the_output_goes_to_the_second_monitor() {
    assert_eq!(pick_monitor(2, Some(0), None), Some(1));
    assert_eq!(pick_monitor(2, Some(1), None), Some(0));
    assert_eq!(pick_monitor(1, Some(0), None), Some(0));
    assert_eq!(pick_monitor(0, None, None), None);
    assert_eq!(pick_monitor(2, Some(0), Some(0)), Some(0));
    assert_eq!(pick_monitor(2, Some(0), Some(5)), None);
}

#[test]
fn shader_edits_are_noticed() {
    let w = ShaderWatch::new("/s/demo.frag").unwrap();
    assert_eq!((w.dir.as_str(), w.target.as_str()), ("/s", "demo.frag"));
    let paths = |p: &str| vec!["/s/other".to_string(), p.to_string()];
    assert!(w.relevant(EventKind::Modify, &paths("/s/demo.frag")));
    assert!(w.relevant(EventKind::Create, &paths("/elsewhere/demo.frag")));
    assert!(!w.relevant(EventKind::Other, &paths("/s/demo.frag")));
    assert!(!w.relevant(EventKind::Modify, &paths("/s/demo.frag~")));
    assert_eq!(ShaderWatch::new("demo.frag").unwrap().dir, ".");
    assert!(ShaderWatch::new("/s/..").is_none());
}

#[test]
fn the_analysis_window_slides() {
    assert_eq!(hop(48_000), 800);
    assert_eq!(hop(1_000), 64);
    assert_eq!(analysis_step(None, 800), AnalysisStep::AwaitSource);
    assert_eq!(analysis_step(Some(799), 800), AnalysisStep::AwaitSamples);
    assert_eq!(analysis_step(Some(800), 800), AnalysisStep::Analyse);
    let mut w = vec![1, 2, 3, 4, 5];
    slide(&mut w, &vec![6, 7]);
    assert_eq!(w, vec![3, 4, 5, 6, 7]);
    assert_eq!(band(0, 1), (1, 1));
    assert_eq!(band(3, 3), (3, 4));
    assert_eq!(band(900, 5000), (900, FFT_SIZE / 2));
    assert_eq!(band_width(3, 9), 6);
    assert_eq!(band_width(2000, 1024), 1);
}

#[test]
fn shaders_see_the_beat_grid() {
    let mut snap = ClockSnapshot {
        bpm: 120_000_000,
        beat: 22_000_000,
        phase: 2_000_000,
        quantum: 4_000_000,
        is_playing: true,
    };
    let seen = beat_uniforms(&snap, 16_000_000);
    assert_eq!(seen, BeatUniforms { beat: 22_000_000, bar_phase: 500_000, phrase_phase: 375_000 });
    // The beat wraps, also below zero.
    snap.beat = 16_384_000_000 + 1;
    assert_eq!(beat_uniforms(&snap, 16_000_000).beat, 1);
    snap.beat = -1_000_000;
    let seen = beat_uniforms(&snap, 16_000_000);
    assert_eq!((seen.beat, seen.phrase_phase), (16_383_000_000, 937_500));
}

#[test]
fn hidden_windows_are_not_drawn() {
    assert_eq!(redraw(false, false), RedrawPlan { output: true, control: true, rest: false });
    assert_eq!(redraw(true, false), RedrawPlan { output: false, control: true, rest: false });
    assert_eq!(redraw(false, true), RedrawPlan { output: true, control: false, rest: false });
    assert_eq!(redraw(true, true), RedrawPlan { output: false, control: false, rest: true });
}
