//! Saving, loading, relinking and gathering.

use std::collections::HashMap;

use vidiotic::bank::Bank;
use vidiotic::clippool::{Clip, ClipBank, ClipSource};
use vidiotic::commands::{Cadence, SlotRef, SyncKind, TimeSig, LOOP_TICKS_PER_BEAT};
use vidiotic::isf::{IsfValue, Rgba};
use vidiotic::project::{
    absolute_path, migrate, relativize, resolve_path, CadenceSpec, ClipBankSpec, ClipMeta, ClipSpec, CueBankSpec,
    CueEffectSpec, CueSpec, IsfValueSpec, Project, SessionDefaults, SpanProvenance, SyncSpec, FORMAT_VERSION,
};
use vidiotic::relink::{
    apply_relink, gather_paths, gather_plan, relink_all, relink_by_root, resolve,
};
use vidiotic::session::{check_sources, load_from_flags, load_from_project, LoadError, StartOptions};
use vidiotic::units::{Double, Single};

fn micro(x: f64) -> i64 {
    (x * 1e6).round() as i64
}

fn double(x: f64) -> Double {
    Double(x.to_bits())
}

fn single(x: f32) -> Single {
    Single(x.to_bits())
}

fn sample_cue() -> CueSpec {
    CueSpec {
        clip: 0,
        name: "kick".into(),
        in_sec: 0,
        out_sec: Some(micro(2.0)),
        preserve: Some(false),
        dwell: Some(64),
        loop_len: None,
        loop_phase: Some(-4),
        start_nudge: None,
        trig_delay: None,
        bpm: Some(micro(128.0)),
        bpm_sync_on: true,
        speed_mul: Some(micro(1.5)),
        chain: vec![CueEffectSpec::Builtin("kaleido".into()), CueEffectSpec::Live],
    }
}

fn provenance() -> SpanProvenance {
    SpanProvenance {
        original_path: "/src/drums.mov".into(),
        in_frame: 10,
        out_frame: 74,
        in_sec: double(0.333),
        out_sec: double(2.466),
    }
}

fn sample() -> Project {
    Project {
        version: FORMAT_VERSION,
        defaults: SessionDefaults {
            bpm: micro(128.0),
            quantum: micro(3.5),
            phrase_len: 16,
            sync: SyncSpec::Link,
            preserve_playhead: true,
            loop_len: Some(128),
            advanced: false,
            ts_num: 7,
            ts_den: 8,
            phrase_cadence: Some(CadenceSpec::Bars(2)),
            loop_cadence_set: true,
            loop_cadence: Some(CadenceSpec::Note(16)),
            shader_path: Some("shaders/demo.frag".into()),
        },
        clips: vec![ClipSpec {
            id: 0,
            path: "clips/kick.mov".into(),
            name: "kick.mov".into(),
            bpm: Some(micro(128.0)),
            fps: Some(double(30.0)),
            frames: Some(64),
            duration_sec: Some(double(2.133)),
            source: Some(provenance()),
        }],
        clip_banks: vec![ClipBankSpec { name: "drums".into(), clip_ids: vec![0] }],
        cue_banks: vec![CueBankSpec { name: "A".into(), cues: vec![sample_cue()] }],
    }
}

#[test]
fn saved_defaults_resolve() {
    let p = sample();
    assert_eq!(p.defaults.time_sig(), TimeSig { num: 7, den: 8 });
    assert_eq!(p.defaults.phrase_cadence(), Cadence::Bars(2));
    assert_eq!(p.defaults.loop_cadence(), Some(Cadence::Note(16)));
}

#[test]
fn cue_toggle_round_trip() {
    let project = sample();
    let cue = &project.cue_banks[0].cues[0];
    let dir = "/proj";
    let runtime = cue.to_cue(7, dir);
    assert_eq!(runtime.id, 7);
    assert!(runtime.loop_phase.on && runtime.loop_phase.val == -4);
    assert!(!runtime.start_nudge.on && runtime.start_nudge.val == micro(0.0));
    assert!(runtime.speed_mul.on && runtime.speed_mul.val == micro(1.5));
    let back = CueSpec::from_cue(&runtime, dir, &vec![]);
    assert_eq!(back.loop_phase, Some(-4));
    assert_eq!(back.start_nudge, None);
    assert_eq!(back.speed_mul, Some(micro(1.5)));
}

#[test]
fn isf_effect_spec_round_trips() {
    let dir = "/proj";
    let mut spec = CueSpec::full_length(0, String::new());
    spec.chain = vec![CueEffectSpec::Isf {
        path: "fx/hue.fs".into(),
        params: vec![
            ("gain".into(), IsfValueSpec::Float(single(1.5))),
            (
                "tint".into(),
                IsfValueSpec::Color(single(0.1), single(0.2), single(0.3), single(1.0)),
            ),
        ],
    }];

    // The path becomes absolute, so that the pool can load it.
    let runtime = spec.to_cue(9, dir);
    match &runtime.chain[0].shader {
        SlotRef::Isf(p) => assert_eq!(p, "/proj/fx/hue.fs"),
        other => panic!("expected ISF slot, got {other:?}"),
    }
    assert_eq!(runtime.chain[0].param("gain"), Some(&IsfValue::Float(single(1.5))));
    assert_eq!(
        runtime.chain[0].param("tint"),
        Some(&IsfValue::Color(Rgba { r: single(0.1), g: single(0.2), b: single(0.3), a: single(1.0) }))
    );

    // Saved again, the path is relative to the directory of the save.
    let back = CueSpec::from_cue(&runtime, dir, &vec![]);
    assert_eq!(back.chain, spec.chain);
}

#[test]
fn from_runtime_round_trips_through_save() {
    let dir = "/tmp/vidiotic_proj_test_from_runtime";
    let clips = vec![Clip {
        id: 0,
        source: ClipSource::File(format!("{dir}/clips/kick.mov")),
        name: "kick.mov".into(),
        bpm: Some(micro(128.0)),
    }];
    let clip_banks = vec![ClipBank { name: "drums".into(), dir: None, clip_ids: vec![0] }];
    let cue = sample().cue_banks[0].cues[0].to_cue(1, dir);
    let cue_banks = vec![Bank { name: "A".into(), cues: vec![cue] }];
    let clip_meta = HashMap::from([(
        0,
        ClipMeta {
            fps: Some(double(30.0)),
            frames: Some(64),
            duration_sec: Some(double(2.133)),
            source: Some(provenance()),
        },
    )]);
    let defaults = SessionDefaults {
        bpm: micro(128.0),
        quantum: micro(4.0),
        phrase_len: 16,
        sync: SyncSpec::Link,
        preserve_playhead: true,
        loop_len: Some(128),
        advanced: false,
        ts_num: 4,
        ts_den: 4,
        phrase_cadence: Some(CadenceSpec::Bars(4)),
        loop_cadence_set: true,
        loop_cadence: Some(CadenceSpec::Bars(4)),
        shader_path: Some("shaders/demo.frag".into()),
    };

    let back = Project::from_runtime(dir, &vec![], &clips, &clip_banks, &cue_banks, &clip_meta, defaults);
    // The clip's path is relative to the save; the probe data survives.
    assert_eq!(back.clips[0].path, "clips/kick.mov");
    assert_eq!(back.clips[0].fps, Some(double(30.0)));
    assert_eq!(back.clips[0].source.as_ref().unwrap().in_frame, 10);
    assert_eq!(back.clip_banks[0].clip_ids, vec![0]);
    assert_eq!(
        back.cue_banks[0].cues[0].chain,
        vec![CueEffectSpec::Builtin("kaleido".into()), CueEffectSpec::Live]
    );
    assert_eq!(back.defaults.bpm, micro(128.0));
    assert_eq!(back.defaults.sync, SyncSpec::Link);
    // Without probe data the clip is saved with none.
    let bare = Project::from_runtime(
        dir,
        &vec![],
        &clips,
        &clip_banks,
        &cue_banks,
        &HashMap::new(),
        sample().defaults,
    );
    assert_eq!(bare.clips[0].fps, None);
    assert!(bare.clips[0].source.is_none());
}

#[test]
fn from_clip_absolutizes_relative_path() {
    // A clip scanned from a relative directory, saved somewhere else: what the
    // host makes of the path goes into the project, not the path as it stands.
    let clip = Clip {
        id: 0,
        source: ClipSource::File("some/relative/clip.mov".into()),
        name: "clip.mov".into(),
        bpm: None,
    };
    let meta = ClipMeta { fps: None, frames: None, duration_sec: None, source: None };
    let table = vec![("some/relative/clip.mov".to_string(), "/work/some/relative/clip.mov".to_string())];
    let spec = ClipSpec::from_clip(&clip, "/elsewhere/proj", &table, meta);
    assert!(
        vidiotic::paths::is_absolute(&spec.path),
        "expected absolute path, got {:?}",
        spec.path
    );
    assert!(spec.path.ends_with("some/relative/clip.mov"));
}

#[test]
fn missing_default_version_is_current() {
    let mut p = Project {
        version: 0,
        defaults: SessionDefaults {
            bpm: micro(120.0),
            quantum: micro(4.0),
            phrase_len: 16,
            sync: SyncSpec::Internal,
            preserve_playhead: false,
            loop_len: None,
            advanced: false,
            ts_num: 0,
            ts_den: 0,
            phrase_cadence: None,
            loop_cadence_set: false,
            loop_cadence: None,
            shader_path: None,
        },
        clips: vec![],
        clip_banks: vec![],
        cue_banks: vec![],
    };
    migrate(&mut p);
    assert_eq!(p.version, FORMAT_VERSION);
    assert!(p.clips.is_empty());
    // Nothing of the newer fields is there: the older ones decide.
    assert_eq!(p.defaults.time_sig(), TimeSig::default());
    assert_eq!(p.defaults.phrase_cadence(), Cadence::Note(16 * LOOP_TICKS_PER_BEAT));
    assert_eq!(p.defaults.loop_cadence(), None);
}

#[test]
fn resolve_flags_missing_and_relinks() {
    let dir = "/tmp/vidiotic_proj_test_relink";
    let mut project = sample();
    project.clips[0].source = None;
    // clips/kick.mov is not there; the file is under moved/.
    let mut r = resolve(project, dir, &vec![false]);
    assert_eq!(r.missing, vec![0]);

    let files = vec![format!("{dir}/moved/kick.mov")];
    let cands = relink_by_root(&r, &files);
    assert_eq!(cands.len(), 1);
    let found = cands[0].found.clone().expect("re-matched kick.mov");

    apply_relink(&mut r, 0, found);
    assert!(r.missing.is_empty());
    assert!(r.clip_paths[&0].ends_with("moved/kick.mov"));
}

#[test]
fn relinking_everything_leaves_what_was_not_found() {
    let mut project = sample();
    project.clips.push(ClipSpec {
        id: 5,
        path: "clips/snare.mov".into(),
        name: "snare.mov".into(),
        bpm: None,
        fps: None,
        frames: None,
        duration_sec: None,
        source: None,
    });
    let mut r = resolve(project, "/p", &vec![false, false]);
    relink_all(&mut r, &vec!["/q/deep/kick.mov".to_string(), "/q/other.mov".to_string()]);
    assert_eq!(r.missing, vec![5]);
    assert_eq!(r.clip_paths[&0], "/q/deep/kick.mov");
}

#[test]
fn present_clips_are_not_missing() {
    let r = resolve(sample(), "/p", &vec![true]);
    assert!(r.missing.is_empty());
    assert_eq!(r.clip_paths[&0], "/p/clips/kick.mov");
}

#[test]
fn gathering_gives_each_copy_its_own_name() {
    let mut project = sample();
    project.clips.push(ClipSpec {
        id: 9,
        path: "/elsewhere/kick.mov".into(),
        name: "other kick".into(),
        bpm: None,
        fps: None,
        frames: None,
        duration_sec: None,
        source: None,
    });
    let r = resolve(project, "/p", &vec![true, true]);
    let plan = gather_plan(&r, &vec![true, true]);
    let names: Vec<&str> = plan.iter().map(|s| s.file_name.as_str()).collect();
    assert_eq!(names, vec!["kick.mov", "9_kick.mov"]);
    assert_eq!(plan[1].from, "/elsewhere/kick.mov");
    let mut project = r.project;
    gather_paths(&mut project, &plan);
    assert_eq!(project.clips[0].path, "clips/kick.mov");
    assert_eq!(project.clips[1].path, "clips/9_kick.mov");
}

fn clip_file(id: u32, path: &str) -> ClipSpec {
    ClipSpec {
        id,
        path: path.into(),
        name: format!("clip {id}"),
        bpm: None,
        fps: None,
        frames: None,
        duration_sec: None,
        source: None,
    }
}

#[test]
fn a_gathered_name_avoids_every_earlier_copy() {
    let mut project = sample();
    project.clips = vec![
        clip_file(1, "/a/k.mov"),
        clip_file(2, "/b/k.mov"),
        clip_file(3, "/c/2_k.mov"),
        clip_file(4, "/d/4_k.mov"),
        clip_file(4, "/e/k.mov"),
    ];
    let here = vec![true; 5];
    let r = resolve(project, "/p", &here);
    let plan = gather_plan(&r, &here);
    let names: Vec<&str> = plan.iter().map(|s| s.file_name.as_str()).collect();
    assert_eq!(names, vec!["k.mov", "2_k.mov", "3_2_k.mov", "4_k.mov", "4_4_k.mov"]);
}

#[test]
fn stored_paths() {
    assert_eq!(resolve_path("/proj", "clips/a.mov"), "/proj/clips/a.mov");
    assert_eq!(resolve_path("/proj", "/abs/a.mov"), "/abs/a.mov");
    assert_eq!(relativize("/proj", "/proj/clips/a.mov"), "clips/a.mov");
    assert_eq!(relativize("/proj", "/other/a.mov"), "/other/a.mov");
    let table = vec![("a.mov".to_string(), "/w/a.mov".to_string())];
    assert_eq!(absolute_path(&table, "a.mov"), "/w/a.mov");
    assert_eq!(absolute_path(&table, "b.mov"), "b.mov");
    // Loading what was stored gives the path back.
    let stored = relativize("/proj", "/proj/x/y.mov");
    assert_eq!(resolve_path("/proj", &stored), "/proj/x/y.mov");
}

#[test]
fn cadences_and_values_survive_saving() {
    for c in [Cadence::Note(16), Cadence::Bars(3)] {
        assert_eq!(Cadence::from(CadenceSpec::from(c)), c);
    }
    let v = IsfValue::Long(-3);
    assert_eq!(IsfValueSpec::from_runtime(&v).to_runtime(), v);
    assert_eq!(ClipBankSpec::from_bank(&ClipBank { name: "b".into(), dir: None, clip_ids: vec![4, 2] }).clip_ids, vec![4, 2]);
}

fn options(shader: Option<&str>) -> StartOptions {
    StartOptions {
        shader: shader.map(|s| s.to_string()),
        bpm: micro(120.0),
        phrase_len: 16,
        sync: SyncKind::Internal,
    }
}

#[test]
fn flags_need_a_clip_and_a_shader() {
    let none = load_from_flags(None, vec![], None, &options(Some("s.frag")));
    assert_eq!(none.err(), Some(LoadError::NoClips));
    let bare = load_from_flags(None, vec![], Some("a/b.mov".into()), &options(None));
    assert_eq!(bare.err(), Some(LoadError::NoShader));
    let ok = load_from_flags(None, vec![], Some("a/b.mov".into()), &options(Some("s.frag"))).unwrap();
    assert_eq!(ok.clips.len(), 1);
    assert_eq!(ok.clips[0].name, "b.mov");
    assert_eq!(ok.auto_active, vec![0]);
    assert_eq!(ok.clip_banks[0].name, "clips");
    assert_eq!(ok.clip_banks[0].clip_ids, vec![0]);
    assert!(ok.cue_banks.is_empty());
    assert_eq!(ok.shader, "s.frag");
    assert!(ok.preserve_playhead);
}

#[test]
fn sources_exclude_each_other() {
    assert_eq!(check_sources(true, true, false).err(), Some(LoadError::ProjectAndClips));
    assert_eq!(check_sources(true, false, true).err(), Some(LoadError::ProjectAndClips));
    assert!(check_sources(true, false, false).is_ok());
    assert!(check_sources(false, true, true).is_ok());
}

#[test]
fn load_errors_say_what_is_wrong() {
    assert_eq!(
        LoadError::NoClips.message(),
        "provide --clip <file>, --clip-dir <dir>, or --project <file.viproj>"
    );
    assert_eq!(
        LoadError::NoShader.message(),
        "--shader is required (or load a --project that supplies one)"
    );
    assert_eq!(LoadError::ProjectWithoutShader.message(), "project has no shader; pass --shader");
    assert_eq!(
        LoadError::MissingClips(vec!["a".into(), "b".into()]).message(),
        "missing clip files (pass --relink-root <dir> to re-locate): a, b"
    );
    assert_eq!(
        LoadError::ProjectAndClips.message(),
        "--project is mutually exclusive with --clip/--clip-dir"
    );
}

#[test]
fn a_project_loads_with_fresh_cue_ids() {
    let mut project = sample();
    project.cue_banks.push(CueBankSpec { name: "B".into(), cues: vec![sample_cue(), sample_cue()] });
    let r = resolve(project, "/p", &vec![true]);
    let l = load_from_project(&r, "/p/x.viproj", &options(None)).unwrap();
    let ids: Vec<u32> = l.cue_banks.iter().flat_map(|b| b.cues.iter().map(|c| c.id)).collect();
    assert_eq!(ids, vec![1, 2, 3]);
    assert_eq!(l.bpm, micro(128.0));
    assert_eq!(l.time_sig, TimeSig { num: 7, den: 8 });
    assert_eq!(l.phrase_cadence, Cadence::Bars(2));
    assert_eq!(l.sync, SyncKind::Link);
    assert_eq!(l.shader, "/p/shaders/demo.frag");
    assert_eq!(l.project_path, Some("/p/x.viproj".to_string()));
    assert_eq!(l.clip_meta[&0].frames, Some(64));
}

#[test]
fn a_project_with_holes_does_not_load() {
    let r = resolve(sample(), "/p", &vec![false]);
    let e = load_from_project(&r, "/p/x.viproj", &options(None)).err().unwrap();
    assert_eq!(e, LoadError::MissingClips(vec!["kick.mov".into()]));
    let mut project = sample();
    project.defaults.shader_path = None;
    let r = resolve(project, "/p", &vec![true]);
    assert_eq!(
        load_from_project(&r, "/p/x.viproj", &options(None)).err(),
        Some(LoadError::ProjectWithoutShader)
    );
    assert_eq!(load_from_project(&r, "/p/x.viproj", &options(Some("s.fs"))).unwrap().shader, "s.fs");
}
