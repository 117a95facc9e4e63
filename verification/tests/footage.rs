//! Clips on disk, decoding and baking.

use texpresso::{Algorithm, Format, Params};
use vidiotic::capture::{CameraTap, RingState};
use vidiotic::clippool::{is_video_name, pack_rows, scan, scan_from};
use vidiotic::hap::{decode_frame, encode_hap1_frame, HapError};
use vidiotic::paths::{components, extension, file_name, is_absolute, join, parent, stem, strip_prefix};
use vidiotic::transcode::{
    baked_size, compress_frame, frame_rate, plan, pts_millis, rescale, run, run_span, run_span_with, Bake,
    BakeAction, BakeError, BakeEvent, BakePhase, BakePlan, BakeQuality, BakeUpdate, TranscodeReport,
};
use vidiotic::video::{
    frame_time, seek_target, texture_count, DecodeHandle, DecodedFrame, HapTextureFormat, Newest, PixelData,
    SourceHandle, Worker, WorkerAction, WorkerEvent,
};

fn micro(x: f64) -> i64 {
    (x * 1e6).round() as i64
}

#[test]
fn folders_are_scanned_in_name_order() {
    let entries: Vec<String> = ["b.mov", "A.MP4", "notes.txt", "c.mkv", ".hidden.mov"]
        .iter()
        .map(|s| s.to_string())
        .collect();
    let clips = scan("/d", &entries);
    let names: Vec<&str> = clips.iter().map(|c| c.name.as_str()).collect();
    assert_eq!(names, vec![".hidden.mov", "A.MP4", "b.mov", "c.mkv"]);
    let ids: Vec<u32> = clips.iter().map(|c| c.id).collect();
    assert_eq!(ids, (0..clips.len() as u32).collect::<Vec<_>>());
    assert_eq!(clips[0].file_path().unwrap(), &format!("/d/{}", names[0]));
    // The listing's order does not matter.
    let mut shuffled = entries.clone();
    shuffled.reverse();
    let again: Vec<(u32, String)> = scan("/d", &shuffled).into_iter().map(|c| (c.id, c.name)).collect();
    assert_eq!(again, clips.iter().map(|c| (c.id, c.name.clone())).collect::<Vec<_>>());
    let later = scan_from("/d", &entries, 40);
    assert_eq!(later[0].id, 40);
    assert!(is_video_name("x.MoV"));
    assert!(!is_video_name("mov"));
}

#[test]
fn rows_are_packed() {
    let src: Vec<u8> = (0..12).collect();
    assert_eq!(pack_rows(&src, 5, 3, 2), vec![0, 1, 2, 5, 6, 7]);
    assert_eq!(pack_rows(&src, 5, 3, 0), Vec::<u8>::new());
}

#[test]
fn path_pieces() {
    assert!(is_absolute("/a"));
    assert!(!is_absolute("a/b"));
    assert_eq!(components("/a//b/./c"), vec!["/".to_string(), "a".into(), "b".into(), "c".into()]);
    assert_eq!(join("/a", "b"), "/a/b");
    assert_eq!(join("/a", "/b"), "/b");
    assert_eq!(file_name("/a/b.mov"), Some("b.mov".into()));
    assert_eq!(file_name("/a/.."), None);
    assert_eq!(parent("/a/b.mov"), Some("/a".into()));
    assert_eq!(parent("b.mov"), Some("".into()));
    assert_eq!(stem("b.tar.gz"), "b.tar");
    assert_eq!(stem(".hidden"), ".hidden");
    assert_eq!(extension("b.tar.gz"), Some("gz".into()));
    assert_eq!(extension("b"), None);
    assert_eq!(strip_prefix("/a/b/c", "/a"), Some("b/c".into()));
    assert_eq!(strip_prefix("/ab/c", "/a"), None);
}

const VIDEO: WorkerEvent = WorkerEvent::Packet { stop: false, restart: false, video: true };

#[test]
fn a_pass_shows_the_trimmed_frames() {
    let mut w = Worker::new(micro(1.0), Some(micro(2.0)), micro(2.0));
    let start = WorkerAction::Seek(1_000_000);
    assert_eq!(w.on_event(WorkerEvent::Ready), start);
    assert_eq!(w.on_event(WorkerEvent::Ready), WorkerAction::Read);
    let other = WorkerEvent::Packet { stop: false, restart: false, video: false };
    assert_eq!(w.on_event(other), WorkerAction::Read);
    assert_eq!(w.on_event(VIDEO), WorkerAction::Feed);
    assert_eq!(w.on_event(WorkerEvent::Frame(micro(0.5))), WorkerAction::Receive);
    assert_eq!(w.on_event(WorkerEvent::Frame(micro(1.0))), WorkerAction::Show { after: 0 });
    assert_eq!(w.on_event(WorkerEvent::Full { stop: false }), WorkerAction::Retry);
    assert_eq!(w.on_event(WorkerEvent::Sent), WorkerAction::Receive);
    // Half a second later, at twice the speed.
    assert_eq!(w.on_event(WorkerEvent::Frame(micro(1.5))), WorkerAction::Show { after: 250_000_000 });
    assert_eq!(w.on_event(WorkerEvent::Unreadable), WorkerAction::Receive);
    assert_eq!(w.on_event(WorkerEvent::NoFrame), WorkerAction::Read);
    assert_eq!(w.on_event(WorkerEvent::EndOfInput), WorkerAction::Flush);
    assert_eq!(w.on_event(WorkerEvent::Frame(micro(2.0))), start);
    assert_eq!(w.on_event(WorkerEvent::Ready), WorkerAction::Read);
    // Nothing shown in this pass: it rests before the next one.
    assert_eq!(w.on_event(WorkerEvent::EndOfInput), WorkerAction::Flush);
    assert_eq!(w.on_event(WorkerEvent::NoFrame), WorkerAction::Rest);
    assert_eq!(w.on_event(WorkerEvent::Ready), start);
}

#[test]
fn workers_obey_their_flags() {
    let reading = || {
        let mut w = Worker::new(micro(-1.0), None, micro(1.0));
        assert_eq!(w.on_event(WorkerEvent::Ready), WorkerAction::Seek(0));
        w.on_event(WorkerEvent::Ready);
        w
    };
    let mut w = reading();
    let stop = WorkerEvent::Packet { stop: true, restart: true, video: true };
    assert_eq!(w.on_event(stop), WorkerAction::Stop);
    assert_eq!(w.on_event(VIDEO), WorkerAction::Stop);
    let mut w = reading();
    w.on_event(VIDEO);
    assert_eq!(w.on_event(WorkerEvent::Unreadable), WorkerAction::Read);
    w.on_event(VIDEO);
    w.on_event(WorkerEvent::Frame(0));
    w.on_event(WorkerEvent::Sent);
    w.on_event(WorkerEvent::NoFrame);
    let restart = WorkerEvent::Packet { stop: false, restart: true, video: true };
    assert_eq!(w.on_event(restart), WorkerAction::Seek(0));
    w.on_event(WorkerEvent::Ready);
    assert_eq!(w.on_event(restart), WorkerAction::Rest);
    let mut w = reading();
    w.on_event(VIDEO);
    w.on_event(WorkerEvent::Frame(0));
    assert_eq!(w.on_event(WorkerEvent::Full { stop: true }), WorkerAction::Stop);
    let mut w = reading();
    w.on_event(VIDEO);
    w.on_event(WorkerEvent::Frame(0));
    assert_eq!(w.on_event(WorkerEvent::Disconnected), WorkerAction::Stop);
    assert_eq!(frame_time(Some(90_000), 1, 30_000), micro(3.0));
    assert_eq!(frame_time(None, 1, 30_000), 0);
    assert_eq!(frame_time(Some(1), 1_001, 30_000), 33_367);
    assert_eq!(frame_time(Some(2), 1_001, 30_000), 66_733);
    assert_eq!(frame_time(Some(-1), 1_001, 30_000), -33_367);
    assert_eq!(frame_time(Some(i64::MAX), 1_001, 30_000), i64::MAX);
    assert_eq!(seek_target(micro(-1.0)), 0);
    assert_eq!(seek_target(micro(1.5)), 1_500_000);
    assert_eq!(texture_count((b'H', b'a', b'p', b'M')), 2);
    assert_eq!(texture_count((b'H', b'a', b'p', b'1')), 1);
}

fn frame(pts: f64) -> DecodedFrame {
    DecodedFrame {
        pixels: PixelData::Rgba { data: vec![0; 4], stride: 4 },
        w: 1,
        h: 1,
        pts_sec: micro(pts),
    }
}

#[test]
fn the_newest_frame_wins() {
    let ring: RingState<u8> = RingState::new(1, 1);
    let mut s = SourceHandle::File(DecodeHandle { frames: vec![frame(0.1), frame(0.2)], restart: false });
    s.request_restart();
    assert!(matches!(s.poll_newest(&ring, 0), Some(Newest::Frame(f)) if f.pts_sec == micro(0.2)));
    assert!(s.poll_newest(&ring, 0).is_none());
    assert!(matches!(&s, SourceHandle::File(h) if h.restart && h.frames.is_empty()));
    assert!(s.camera_mut().is_none());
    let mut c = SourceHandle::Camera(CameraTap::new());
    c.camera_mut().unwrap().delay_eff = 5;
    assert!(matches!(&c, SourceHandle::Camera(t) if t.delay_eff == 5));
    let bc = PixelData::Bc {
        format: vidiotic::video::HapTextureFormat::Bc3,
        data: vec![],
        alpha: None,
        video_mode: 2,
    };
    assert_eq!(bc.video_mode(), 2);
    assert_eq!(frame(0.0).pixels.video_mode(), 0);
}

#[test]
fn baking_crops_to_whole_blocks() {
    assert_eq!(baked_size(1921, 1083), Some((1920, 1080)));
    assert_eq!(baked_size(3, 100), None);
    assert_eq!(frame_rate(25, 1), (25, 1));
    assert_eq!(frame_rate(0, 1), (30, 1));
    assert_eq!(pts_millis(1, 30, 1), 33);
    assert_eq!(pts_millis(2, 30, 1), 67);
    assert_eq!(pts_millis(2, 30_000, 1001), 67);
    assert_eq!(pts_millis(1, -30, 1), -33);
    assert_eq!(rescale(1000, (1, 1000), (1, 15360)), 15360);
    assert_eq!(rescale(7, (1, 25), (1, 25)), 7);
}

#[test]
fn a_bake_numbers_the_frames_of_its_span() {
    let mut b = Bake::new(micro(1.0), Some(micro(2.0)));
    assert_eq!(b.on_event(BakeEvent::Packet { video: false }), (BakeAction::Read, None));
    assert_eq!(b.on_event(BakeEvent::Packet { video: true }), (BakeAction::Feed, None));
    let at = |emitted, t| Some(BakeUpdate { emitted, src_sec: micro(t) });
    assert_eq!(b.on_event(BakeEvent::Frame(micro(0.9))), (BakeAction::Receive, at(0, 0.9)));
    assert_eq!(b.on_event(BakeEvent::Frame(micro(1.0))), (BakeAction::Write(0), at(0, 1.0)));
    assert_eq!(b.on_event(BakeEvent::NoFrame), (BakeAction::Read, None));
    assert_eq!(b.on_event(BakeEvent::EndOfInput), (BakeAction::Flush, None));
    assert_eq!(b.on_event(BakeEvent::Frame(micro(1.5))), (BakeAction::Write(1), at(1, 1.5)));
    assert_eq!(b.on_event(BakeEvent::Frame(micro(2.0))), (BakeAction::Finish, at(2, 2.0)));
    assert_eq!(b.on_event(BakeEvent::Frame(micro(1.5))), (BakeAction::Finish, None));
    assert_eq!((b.emitted, b.skipped, b.phase), (2, 1, BakePhase::Done));
    let p = BakePlan { width: 8, height: 4, fps: (30, 1), seek: None };
    assert_eq!(
        b.report(&p),
        TranscodeReport { width: 8, height: 4, fps: (30, 1), frames: 2, duration_sec: 66_667 }
    );
    let mut c = Bake::new(0, None);
    c.on_event(BakeEvent::EndOfInput);
    assert_eq!(c.on_event(BakeEvent::NoFrame), (BakeAction::Finish, None));
    let whole = run("a.mp4", "b.mov");
    assert_eq!((whole.in_sec, whole.out_sec), (0, None));
    assert_eq!(whole.quality, BakeQuality::High);
    let part = run_span("a.mp4", "b.mov", 5, Some(9));
    assert_eq!((part.in_sec, part.out_sec), (5, Some(9)));
    assert_eq!((part.input.as_str(), part.output.as_str()), ("a.mp4", "b.mov"));
    let draft = run_span_with("a.mp4", "b.mov", 5, None, BakeQuality::Draft);
    assert_eq!(draft.quality, BakeQuality::default());
    assert_eq!(
        plan(&draft, 1921, 1083, (25, 1)),
        Ok(BakePlan { width: 1920, height: 1080, fps: (25, 1), seek: Some(5) })
    );
    assert_eq!(plan(&whole, 4, 4, (0, 0)), Ok(BakePlan { width: 4, height: 4, fps: (30, 1), seek: None }));
    let small = plan(&whole, 3, 100, (25, 1));
    assert_eq!(small, Err(BakeError::TooSmall { width: 3, height: 100 }));
    assert_eq!(small.unwrap_err().message(), "video too small to transcode: 3x100");
}

/// A picture with gaps between its rows, and the same picture without.
fn picture(w: usize, h: usize, stride: usize) -> (Vec<u8>, Vec<u8>) {
    let mut padded = vec![0xEE; stride * h];
    let mut tight = vec![];
    for y in 0..h {
        for x in 0..w * 4 {
            let v = (x * 7 + y * 31) as u8;
            padded[y * stride + x] = v;
            tight.push(v);
        }
    }
    (padded, tight)
}

#[test]
fn frames_are_compressed_to_blocks() {
    let (w, h, stride) = (8usize, 12usize, 40usize);
    let (padded, tight) = picture(w, h, stride);
    for (quality, algorithm) in
        [(BakeQuality::Draft, Algorithm::RangeFit), (BakeQuality::High, Algorithm::ClusterFit)]
    {
        let mut want = vec![0; Format::Bc1.compressed_size(w, h)];
        let params = Params { algorithm, ..Params::default() };
        Format::Bc1.compress(&tight, w, h, params, &mut want);
        let got = compress_frame(&padded, stride, w as u32, h as u32, quality);
        assert_eq!(got.len(), 2 * 3 * 8);
        assert_eq!(got, want);
        assert_ne!(got, vec![0; 48]);
    }
}

#[test]
fn a_bake_writes_the_frames_of_the_span() {
    let times = [0.2, 0.9, 1.0, 1.4, 1.4, 2.9, 3.0, 3.2];
    let mut b = Bake::new(micro(1.0), Some(micro(3.0)));
    let mut written = vec![];
    b.on_event(BakeEvent::Packet { video: true });
    for t in times {
        if let (BakeAction::Write(n), _) = b.on_event(BakeEvent::Frame(micro(t))) {
            written.push((n, micro(t)));
        }
    }
    let span = [1.0, 1.4, 1.4, 2.9];
    let numbered: Vec<(u64, i64)> = (0..).zip(span.map(micro)).collect();
    assert_eq!(written, numbered);
    assert_eq!((b.emitted, b.skipped), (4, 2));
    assert_eq!(b.phase, BakePhase::Done);
}

#[test]
fn hap_frames_are_read_back() {
    for len in [0, 8, 0xff_ffff, 0x100_0000] {
        let blocks: Vec<u8> = (0..len).map(|i| (i % 251) as u8).collect();
        let bytes = encode_hap1_frame(&blocks);
        let frame = decode_frame(&bytes, 1).unwrap();
        assert_eq!((frame.format, frame.video_mode), (HapTextureFormat::Bc1, 0));
        assert!(frame.alpha.is_none() && frame.data == blocks);
    }
    assert_eq!(encode_hap1_frame(&vec![7, 9]), vec![2, 0, 0, 0xAB, 7, 9]);
    assert_eq!(encode_hap1_frame(&vec![]), vec![0, 0, 0, 0xAB, 0, 0, 0, 0]);
}

#[test]
fn hap_frames_of_two_textures() {
    let colour = vec![3, 0, 0, 0xAF, 1, 2, 3];
    let alpha = vec![2, 0, 0, 0xA1, 4, 5];
    let mut bytes = vec![13, 0, 0, 0x0D];
    bytes.extend(&colour);
    bytes.extend(&alpha);
    let frame = decode_frame(&bytes, 2).unwrap();
    assert_eq!((frame.format, frame.video_mode), (HapTextureFormat::Bc3YCoCg, 3));
    assert_eq!((frame.data, frame.alpha), (vec![1, 2, 3], Some(vec![4, 5])));
    // With one texture announced the container is of an unknown kind.
    assert_eq!(decode_frame(&bytes, 1), Err(HapError::Unsupported(0x0D)));
    assert_eq!(decode_frame(&bytes[..12].to_vec(), 2), Err(HapError::Truncated));
    assert_eq!(decode_frame(&vec![0, 0, 0, 0xAB], 1), Err(HapError::Truncated));
    assert_eq!(decode_frame(&vec![1, 0, 0, 0xBB, 0], 1), Err(HapError::Unsupported(0xBB)));
    assert_eq!(HapError::Truncated.message(), "truncated section");
    assert_eq!(HapError::Unsupported(0x0D).message(), "unsupported section type 0x0d");
}
