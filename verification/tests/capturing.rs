//! Cameras: devices, formats, the delay ring and its readers.

use vidiotic::capture::{
    after_session, authorization, enumerate, frame_rates, open_plan, pick_format, request_access, size_text, slew,
    AccessRequest, AirChange, Authorization, CameraTap, CaptureError, CaptureRegistry, DeviceFormat, DeviceInfo,
    RingFrame, RingState, ServiceStatus, Shape, WorkerStep,
};

fn micro(x: f64) -> i64 {
    (x * 1e6).round() as i64
}

const SEC: u64 = 1_000_000_000;
const MS: u64 = 1_000_000;
const T0: u64 = 100 * SEC;

/// Bytes of an NV12 frame: a full luma plane and half as much chroma.
fn nv12_bytes(w: u32, h: u32) -> usize {
    (w * h * 3 / 2) as usize
}

fn nv12(wall: u64, pts: f64, w: u32, h: u32) -> RingFrame<u32> {
    RingFrame {
        wall,
        pts_sec: micro(pts),
        shape: Shape { width: w, height: h, format: 23 },
        frame: 0,
        bytes: nv12_bytes(w, h),
    }
}

fn ring_for_test() -> RingState<u32> {
    RingState::new(3 * SEC, usize::MAX)
}

#[test]
fn ring_evicts_by_age_keeping_window() {
    let mut r = ring_for_test();
    for i in 0..10u64 {
        r.push(nv12(T0 + i * 500 * MS, i as f64 * 0.5, 4, 4));
    }
    let newest = T0 + 9 * 500 * MS;
    assert!(r.frames.iter().all(|f| (newest - f.wall) as f64 / 1e9 <= 3.0));
    assert!(r.frames.len() >= 6);
}

#[test]
fn ring_evicts_by_byte_cap() {
    let per_frame = nv12_bytes(16, 16);
    let mut r = RingState::new(60 * SEC, per_frame * 3);
    for i in 0..10u64 {
        r.push(nv12(T0 + i * 10 * MS, 0.0, 16, 16));
    }
    assert_eq!(r.frames.len(), 3);
    assert!(r.bytes <= per_frame * 3);
}

#[test]
fn ring_flushes_on_format_change() {
    let mut r = ring_for_test();
    r.push(nv12(T0, 0.0, 16, 16));
    r.push(nv12(T0 + 10 * MS, 0.01, 16, 16));
    r.push(nv12(T0 + 20 * MS, 0.02, 8, 8));
    assert_eq!(r.frames.len(), 1);
    assert_eq!(r.bytes, nv12_bytes(8, 8));
}

#[test]
fn ring_never_evicts_the_only_frame() {
    let mut r = RingState::new(MS, 1);
    r.push(nv12(T0, 0.0, 16, 16));
    r.push(nv12(T0 + 5 * SEC, 5.0, 16, 16));
    assert_eq!(r.frames.len(), 1);
}

#[test]
fn peek_selects_newest_at_or_before_target() {
    let mut r = ring_for_test();
    for i in 0..3u64 {
        r.push(nv12(T0 + i * SEC, i as f64, 4, 4));
    }
    let hit = &r.frames[r.peek_at(T0 + 1500 * MS).unwrap()];
    assert!((hit.pts_sec as f64 / 1e6 - 1.0).abs() < 1e-9);
    // A target past the newest frame gets the newest.
    let hit = &r.frames[r.peek_at(T0 + 10 * SEC).unwrap()];
    assert!((hit.pts_sec as f64 / 1e6 - 2.0).abs() < 1e-9);
}

#[test]
fn peek_clamps_to_oldest_during_warmup() {
    let mut r = ring_for_test();
    r.push(nv12(T0 + SEC, 1.0, 4, 4));
    let hit = &r.frames[r.peek_at(T0).unwrap()];
    assert!((hit.pts_sec as f64 / 1e6 - 1.0).abs() < 1e-9);
}

#[test]
fn an_empty_ring_has_nothing_to_show() {
    assert_eq!(ring_for_test().peek_at(T0), None);
    assert_eq!(CameraTap::new().poll(&ring_for_test(), T0), None);
}

#[test]
fn slew_steps_and_lands() {
    let go = |current: f64, target: f64, dt: f64, rate: f64| {
        slew(micro(current), micro(target), micro(dt), micro(rate)) as f64 / 1e6
    };
    assert!((go(0.0, 1.0, 0.1, 1.0) - 0.1).abs() < 1e-9);
    assert!((go(0.9, 1.0, 0.5, 1.0) - 1.0).abs() < 1e-9);
    assert!((go(2.0, 1.0, 0.1, 1.0) - 1.9).abs() < 1e-9);
    // Zero rate holds position.
    assert!((go(0.5, 1.0, 0.1, 0.0) - 0.5).abs() < 1e-9);
}

#[test]
fn a_tap_reads_behind_the_live_edge() {
    let mut r = ring_for_test();
    for i in 0..4u64 {
        r.push(nv12(T0 + i * 500 * MS, i as f64 * 0.5, 4, 4));
    }
    let mut tap = CameraTap::new();
    let now = T0 + 1500 * MS;
    assert_eq!(tap.poll(&r, now), Some(3));
    tap.shown(r.frames[3].wall);
    // The same frame is not handed out twice.
    assert_eq!(tap.poll(&r, now), None);
    tap.delay_eff = micro(1.0);
    assert_eq!(tap.poll(&r, now), Some(1));
    // A delay that reaches back before everything gets the oldest frame.
    tap.delay_eff = i64::MAX;
    assert_eq!(tap.poll(&r, now), Some(0));
}

fn format(width: u32, height: u32, max_fps: f64) -> DeviceFormat {
    DeviceFormat { width, height, fourcc: (52, 50, 48, 118), min_fps: micro(1.0), max_fps: micro(max_fps) }
}

#[test]
fn formats_fit_under_the_cap() {
    let formats = vec![format(3840, 2160, 30.0), format(1280, 720, 60.0), format(1920, 1080, 30.0)];
    let best = pick_format(&formats, 1080).unwrap();
    assert_eq!(formats[best].height, 1080);
    // When nothing fits, the smallest will do.
    let tall = vec![format(3840, 2160, 30.0), format(2560, 1440, 30.0)];
    let best = pick_format(&tall, 1080).unwrap();
    assert_eq!(tall[best].height, 1440);
    assert_eq!(pick_format(&vec![], 1080), None);
}

#[test]
fn the_faster_of_two_equal_sizes_is_picked() {
    let fractional = vec![format(1280, 720, 30.5), format(1280, 720, 30.0)];
    assert_eq!(pick_format(&fractional, 720), Some(0));
    let ntsc = vec![format(1280, 720, 30.0), format(1280, 720, 29.97)];
    assert_eq!(pick_format(&ntsc, 720), Some(0));
    // Above the cap the slower of the smallest will do.
    assert_eq!(pick_format(&fractional, 480), Some(1));
    // A rate below zero counts as zero, and the last of equal formats wins.
    let odd = vec![format(1280, 720, 0.0), format(1280, 720, -1.0)];
    assert_eq!(pick_format(&odd, 720), Some(1));
    assert_eq!(pick_format(&odd, 480), Some(0));
}

#[test]
fn four_character_codes() {
    let f = format(4, 4, 30.0);
    assert_eq!(f.fourcc_str(), "420v");
    assert_eq!(f.ffmpeg_pixel_format(), Some("nv12"));
    let odd = DeviceFormat { fourcc: (0, 65, 200, 66), ..f };
    assert_eq!(odd.fourcc_str(), "?A?B");
    assert_eq!(odd.ffmpeg_pixel_format(), None);
    assert_eq!(frame_rates(&vec![(5, 30), (1, 60)]), (1, 60));
    assert_eq!(frame_rates(&vec![]), (0, 0));
    assert_eq!(size_text(1920, 1080), "1920x1080");
}

fn device(uid: &str, formats: Vec<DeviceFormat>) -> DeviceInfo {
    DeviceInfo {
        index: 77,
        uid: uid.into(),
        name: uid.to_uppercase(),
        model_id: String::new(),
        device_type: String::new(),
        muxed: false,
        formats,
    }
}

#[test]
fn devices_are_numbered_in_order() {
    let all = enumerate(vec![device("a", vec![]), device("b", vec![])], vec![device("m", vec![])]);
    let seen: Vec<(usize, &str, bool)> = all.iter().map(|d| (d.index, d.uid.as_str(), d.muxed)).collect();
    assert_eq!(seen, vec![(0, "a", false), (1, "b", false), (2, "m", true)]);
}

#[test]
fn a_device_opens_or_says_why_not() {
    let all = enumerate(vec![device("a", vec![]), device("b", vec![format(640, 480, 30.0)])], vec![]);
    assert_eq!(open_plan(&all, "zz").err(), Some(CaptureError::NotConnected));
    assert_eq!(open_plan(&all, "a").err(), Some(CaptureError::NoFormats));
    assert_eq!(open_plan(&all, "b").unwrap().index, 1);
    assert_eq!(CaptureError::NotConnected.message(), "device not connected");
    assert_eq!(CaptureError::NoFormats.message(), "device reports no formats");
}

#[test]
fn access_is_asked_for_once() {
    assert_eq!(authorization(0), Authorization::NotDetermined);
    assert_eq!(authorization(1), Authorization::Restricted);
    assert_eq!(authorization(2), Authorization::Denied);
    assert_eq!(authorization(3), Authorization::Authorized);
    assert!(request_access(Authorization::NotDetermined) != request_access(Authorization::Authorized));
    assert_eq!(request_access(Authorization::Denied), AccessRequest::Answered(false));
}

#[test]
fn devices_go_on_and_off_air() {
    let mut reg = CaptureRegistry::new();
    assert_eq!(reg.set_on_air("cam", true), AirChange::Start);
    assert_eq!(reg.set_on_air("cam", true), AirChange::Keep);
    assert!(reg.is_on_air("cam"));
    assert!(reg.tap("cam").is_some());
    assert!(reg.tap("other").is_none());
    assert_eq!(reg.set_on_air("cam", false), AirChange::Stop);
    assert_eq!(reg.set_on_air("cam", false), AirChange::Keep);
    assert!(!reg.is_on_air("cam"));
}

#[test]
fn a_failed_session_is_tried_again() {
    let (step, status) = after_session(false, Some("gone".into()));
    assert_eq!(step, WorkerStep::Retry);
    assert!(matches!(status, Some(ServiceStatus::Failed(m)) if m == "gone"));
    assert_eq!(after_session(true, None).0, WorkerStep::Stop);
    assert_eq!(after_session(false, None).0, WorkerStep::Reopen);
}
