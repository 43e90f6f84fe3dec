use cam_record_sim::dual_recorder::{CameraSource, DualCameraRecorder, DualRecorderError};

#[test]
fn second_start_is_refused() {
    let mut rec = DualCameraRecorder::new();
    assert!(!rec.is_recording());
    let s = rec.start_recording(&CameraSource::Virtual, 30, 2).ok().unwrap();
    assert!(rec.is_recording());
    assert_eq!((s.left_id, s.right_id, s.synthetic), (0, 1, true));
    assert_eq!((s.fps, s.duration_secs, s.width, s.height), (30, 2, 640, 480));
    rec.publish_left(vec![1, 2, 3]);
    match rec.start_recording(&CameraSource::Real(2, 3), 30, 5) {
        Err(DualRecorderError::RecorderError(_)) => {}
        _ => panic!("second session started"),
    }
    assert!(rec.is_recording());
    assert_eq!(rec.get_left_frame(), Some(vec![1, 2, 3]));
}

#[test]
fn real_and_mixed_sources() {
    let mut rec = DualCameraRecorder::new();
    match rec.start_recording(&CameraSource::Mixed(0, true), 30, 5) {
        Err(DualRecorderError::RecorderError(_)) => {}
        _ => panic!("mixed source started"),
    }
    assert!(!rec.is_recording());
    assert!(rec.start_recording(&CameraSource::Virtual, 0, 5).is_err());
    assert!(!rec.is_recording());
    let s = rec.start_recording(&CameraSource::Real(4, 6), 15, 9).ok().unwrap();
    assert_eq!((s.left_id, s.right_id, s.synthetic), (4, 6, false));
    assert_eq!(s.frame_delay_ms(), 66);
}

#[test]
fn stop_ends_the_session() {
    let mut rec = DualCameraRecorder::new();
    let s = rec.start_recording(&CameraSource::Virtual, 30, 60).ok().unwrap();
    assert!(s.should_continue(rec.is_recording(), 500));
    rec.stop_recording();
    assert!(!rec.is_recording());
    assert!(!s.should_continue(rec.is_recording(), 500));
    let (l, r) = s.make_encoders();
    assert_eq!(l.get_camera_id(), 0);
    assert_eq!(r.get_camera_id(), 1);
    let ml = l.finalize();
    let mr = r.finalize();
    assert_eq!(ml.camera_id, 0);
    assert_eq!(mr.camera_id, 1);
    assert!(rec.start_recording(&CameraSource::Virtual, 30, 1).is_ok());
}

#[test]
fn session_length_in_whole_seconds() {
    let mut rec = DualCameraRecorder::new();
    let s = rec.start_recording(&CameraSource::Virtual, 30, 2).ok().unwrap();
    assert!(s.should_continue(true, 0));
    assert!(s.should_continue(true, 1999));
    assert!(!s.should_continue(true, 2000));
    assert!(!s.should_continue(false, 0));
}

#[test]
fn newest_frames_overwrite() {
    let mut rec = DualCameraRecorder::new();
    assert_eq!(rec.get_left_frame(), None);
    assert_eq!(rec.get_right_frame(), None);
    rec.publish_right(vec![1]);
    rec.publish_right(vec![2, 2]);
    assert_eq!(rec.get_right_frame(), Some(vec![2, 2]));
    assert_eq!(rec.get_left_frame(), None);
}

#[test]
fn session_cameras() {
    let mut rec = DualCameraRecorder::new();
    let s = rec.start_recording(&CameraSource::Virtual, 30, 2).ok().unwrap();
    let (a, b) = s.make_virtual_cameras();
    assert_eq!((a.get_id(), b.get_id()), (0, 1));
    assert_eq!(a.get_frame().ok().unwrap().len(), 640 * 480 * 3);
}

#[test]
fn old_session_end_keeps_newer_session() {
    let mut rec = DualCameraRecorder::new();
    let first = rec.start_recording(&CameraSource::Virtual, 30, 2).ok().unwrap();
    rec.stop_recording();
    let second = rec.start_recording(&CameraSource::Virtual, 30, 2).ok().unwrap();
    assert_ne!(first.id, second.id);
    rec.finish_session(first.id);
    assert!(rec.is_recording());
    rec.finish_session(second.id);
    assert!(!rec.is_recording());
}
