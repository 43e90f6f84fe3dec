use cam_record_sim::recorder::{
    is_valid_stream, make_recording_filename, RecorderError, VideoRecorder,
};
use cam_record_sim::virtual_camera::VirtualCamera;

#[test]
fn filename_pattern() {
    assert_eq!(
        make_recording_filename(3, "20240101_120000"),
        "camera_3__20240101_120000.mp4"
    );
    assert_eq!(make_recording_filename(0, "x"), "camera_0__x.mp4");
    assert_eq!(
        make_recording_filename(4294967295, "s"),
        "camera_4294967295__s.mp4"
    );
}

#[test]
fn short_frame_is_refused() {
    let mut rec = VideoRecorder::with_timestamp(1, 4, 2, 30, "20240101_120000");
    let short = vec![0u8; 4 * 2 * 3 - 1];
    match rec.write_frame(&short) {
        Err(RecorderError::WriteError(_)) => {}
        _ => panic!("short frame accepted"),
    }
    assert_eq!(rec.get_frame_count(), 0);
    let empty: Vec<u8> = Vec::new();
    assert!(rec.write_frame(&empty).is_err());
}

#[test]
fn frames_are_cut_and_timed() {
    let mut rec = VideoRecorder::with_timestamp(1, 2, 1, 30, "t");
    let long: Vec<u8> = (0u8..10).collect();
    let f0 = rec.write_frame(&long).ok().unwrap();
    assert_eq!(f0.data, vec![0, 1, 2, 3, 4, 5]);
    assert_eq!(f0.pts_ns, 0);
    let f1 = rec.write_frame(&long[..6]).ok().unwrap();
    assert_eq!(f1.pts_ns, 33_333_333);
    let f2 = rec.write_frame(&long).ok().unwrap();
    assert_eq!(f2.pts_ns, 66_666_666);
    assert_eq!(rec.get_frame_count(), 3);
}

#[test]
fn metadata_of_finished_stream() {
    let rec = VideoRecorder::with_timestamp(9, 640, 480, 25, "20250102_030405");
    assert_eq!(rec.get_filename(), "camera_9__20250102_030405.mp4");
    let meta = rec.finalize_at(1500, "2025-01-02T03:04:06+01:00".to_string());
    assert_eq!(meta.camera_id, 9);
    assert_eq!(meta.duration_ms, 1500);
    assert_eq!(meta.fps, 25);
    assert_eq!((meta.width, meta.height), (640, 480));
    assert_eq!(meta.filename, "camera_9__20250102_030405.mp4");
    assert_eq!(meta.timestamp, "2025-01-02T03:04:06+01:00");
}

#[test]
fn recorder_named_after_local_time() {
    let rec = VideoRecorder::new(5, 8, 8, 30);
    let name = rec.get_filename().clone();
    assert!(name.starts_with("camera_5__"));
    assert!(name.ends_with(".mp4"));
    let stamp = &name["camera_5__".len()..name.len() - 4];
    assert_eq!(stamp.len(), 15);
    assert_eq!(&stamp[8..9], "_");
    assert!(stamp.chars().enumerate().all(|(i, c)| i == 8 || c.is_ascii_digit()));
    let meta = rec.finalize();
    assert_eq!(meta.camera_id, 5);
    assert!(!meta.timestamp.is_empty());
}

#[test]
fn two_synthetic_streams_for_two_seconds() {
    let left = VirtualCamera::new(0, 640, 480, 30);
    let right = VirtualCamera::new(1, 640, 480, 30);
    let mut enc_l = VideoRecorder::with_timestamp(0, 640, 480, 30, "20260101_120000");
    let mut enc_r = VideoRecorder::with_timestamp(1, 640, 480, 30, "20260101_120000");
    for _ in 0..60 {
        let fl = left.get_frame().ok().unwrap();
        let fr = right.get_frame().ok().unwrap();
        assert!(enc_l.write_frame(&fl).is_ok());
        assert!(enc_r.write_frame(&fr).is_ok());
    }
    assert_eq!(enc_l.get_frame_count(), 60);
    let ml = enc_l.finalize_at(2000, "2026-01-01T12:00:02+00:00".to_string());
    let mr = enc_r.finalize_at(2010, "2026-01-01T12:00:02+00:00".to_string());
    for m in [&ml, &mr] {
        let secs = m.duration_ms as f64 / 1000.0;
        assert!((secs - 2.0).abs() < 0.1);
        assert_eq!(m.fps, 30);
    }
    assert_eq!(ml.filename, "camera_0__20260101_120000.mp4");
    assert_eq!(mr.filename, "camera_1__20260101_120000.mp4");
}

#[test]
fn duration_taken_before_teardown() {
    let rec = VideoRecorder::with_timestamp(2, 4, 4, 10, "s");
    let meta = rec.finalize_after(1234);
    assert_eq!(meta.duration_ms, 1234);
    assert_eq!(meta.camera_id, 2);
    assert!(is_valid_stream(640, 480, 30));
    assert!(!is_valid_stream(640, 480, 0));
    assert!(!is_valid_stream(u32::MAX, 2, 30));
}
