use cam_record_sim::playback_camera::{
    file_name_of, filter_recordings, fits_frame, frames_in_duration, is_recording_file,
    plan_stereo_sources, recordings_in_listing, select_sources, PlaybackCamera,
    PlaybackCameraError, PlaybackStep, StereoPlaybackSystem,
};

/// A decoder over frames held in memory, placed by the camera's counter.
struct Stream {
    frames: Vec<Vec<u8>>,
    pos: usize,
}

impl Stream {
    fn pull(&mut self) -> Option<Vec<u8>> {
        let f = self.frames.get(self.pos).cloned();
        if f.is_some() {
            self.pos += 1;
        }
        f
    }
}

fn next_frame(cam: &mut PlaybackCamera, s: &mut Stream) -> Result<Vec<u8>, PlaybackCameraError> {
    let first = s.pull();
    match cam.on_sample(first, false) {
        PlaybackStep::Frame(f) => Ok(f),
        PlaybackStep::Fail(e) => Err(e),
        PlaybackStep::Rewind => {
            s.pos = 0;
            let second = s.pull();
            match cam.on_sample(second, true) {
                PlaybackStep::Frame(f) => Ok(f),
                PlaybackStep::Fail(e) => Err(e),
                PlaybackStep::Rewind => panic!("second rewind"),
            }
        }
    }
}

fn three_frames() -> Stream {
    Stream { frames: vec![vec![1, 1, 1], vec![2, 2, 2], vec![3, 3, 3]], pos: 0 }
}

#[test]
fn looping_playback_wraps_to_first_frame() {
    let mut s = three_frames();
    let mut cam = PlaybackCamera::new(0, "rec/a.mp4", true, 3, 1, 1);
    let mut got = Vec::new();
    for _ in 0..4 {
        got.push(next_frame(&mut cam, &mut s).ok().unwrap());
    }
    assert_eq!(got[0], vec![1, 1, 1]);
    assert_eq!(got[2], vec![3, 3, 3]);
    assert_eq!(got[3], got[0]);
    assert_eq!(cam.get_current_frame(), 1);
    assert!(!cam.is_finished());
}

#[test]
fn single_pass_playback_ends() {
    let mut s = three_frames();
    let mut cam = PlaybackCamera::new(0, "rec/a.mp4", false, 3, 1, 1);
    assert!(!cam.is_finished());
    for k in 1..=3u64 {
        assert!(next_frame(&mut cam, &mut s).is_ok());
        assert_eq!(cam.is_finished(), k == 3);
    }
    match next_frame(&mut cam, &mut s) {
        Err(PlaybackCameraError::ReadError(_)) => {}
        _ => panic!("read past the end"),
    }
    assert!(cam.is_finished());
    // finished stays finished, even if the decoder had more
    match cam.on_sample(Some(vec![9, 9, 9]), false) {
        PlaybackStep::Fail(PlaybackCameraError::ReadError(_)) => {}
        _ => panic!("finished camera gave a frame"),
    }
}

#[test]
fn empty_looping_stream_fails() {
    let mut s = Stream { frames: Vec::new(), pos: 0 };
    let mut cam = PlaybackCamera::new(0, "x.mkv", true, 0, 1, 1);
    match next_frame(&mut cam, &mut s) {
        Err(PlaybackCameraError::ReadError(_)) => {}
        _ => panic!("empty stream gave a frame"),
    }
}

#[test]
fn reset_goes_back_to_start() {
    let mut s = three_frames();
    let mut cam = PlaybackCamera::new(4, "/data/b.avi", false, 3, 1, 1);
    for _ in 0..4 {
        let _ = next_frame(&mut cam, &mut s);
    }
    assert!(cam.is_finished());
    cam.reset();
    s.pos = 0;
    assert_eq!(cam.get_current_frame(), 0);
    assert!(!cam.is_finished());
    assert_eq!(next_frame(&mut cam, &mut s).ok().unwrap(), vec![1, 1, 1]);
    assert_eq!(cam.get_camera_id(), 4);
    assert_eq!(cam.get_video_path(), "/data/b.avi");
    assert_eq!(cam.get_frame_count(), 3);
    assert_eq!(cam.get_fps(), 30);
}

#[test]
fn recording_file_names() {
    assert!(is_recording_file("camera_0__20240101_120000.mp4"));
    assert!(is_recording_file("a.avi"));
    assert!(is_recording_file("b.mkv"));
    assert!(!is_recording_file("camera_0.json"));
    assert!(!is_recording_file(".mp4"));
    assert!(!is_recording_file("mp4"));
    assert!(!is_recording_file("a.MP4"));
    let names = vec![
        "b.mp4".to_string(),
        "notes.txt".to_string(),
        "a.mkv".to_string(),
        "c.json".to_string(),
    ];
    assert_eq!(filter_recordings(&names), vec!["b.mp4".to_string(), "a.mkv".to_string()]);
}

#[test]
fn stereo_selection_from_listing() {
    let none: Vec<String> = Vec::new();
    match select_sources(&none) {
        Err(PlaybackCameraError::OpenError(_)) => {}
        _ => panic!("empty directory accepted"),
    }
    let one = vec!["d/a.mp4".to_string()];
    let (l, r) = select_sources(&one).ok().unwrap();
    assert_eq!(l, "d/a.mp4");
    assert_eq!(r, "d/a.mp4");
    let three = vec!["d/a.mp4".to_string(), "d/b.mp4".to_string(), "d/c.mp4".to_string()];
    let (l, r) = select_sources(&three).ok().unwrap();
    assert_eq!(l, "d/a.mp4");
    assert_eq!(r, "d/b.mp4");
}

#[test]
fn file_names_of_paths() {
    assert_eq!(file_name_of("recordings/camera_0__x.mp4"), "camera_0__x.mp4");
    assert_eq!(file_name_of("a.mp4"), "a.mp4");
    assert_eq!(file_name_of("/a/b/"), "");
}

#[test]
fn stereo_status_and_sides() {
    let mut sys = StereoPlaybackSystem::new();
    assert_eq!(sys.get_status(), "Links: Nicht geladen\nRechts: Nicht geladen");
    match sys.left_step(Some(vec![1, 1, 1]), false) {
        PlaybackStep::Fail(PlaybackCameraError::OpenError(_)) => {}
        _ => panic!("unloaded side gave a frame"),
    }
    sys.set_left_camera(PlaybackCamera::new(0, "rec/a.mp4", true, 10, 1, 1));
    sys.set_right_camera(PlaybackCamera::new(1, "rec/b.mp4", true, 12, 1, 1));
    match sys.left_step(Some(vec![5, 6, 7]), false) {
        PlaybackStep::Frame(f) => assert_eq!(f, vec![5, 6, 7]),
        _ => panic!("no frame"),
    }
    assert_eq!(sys.get_status(), "Links: a.mp4 (1/10)\nRechts: b.mp4 (0/12)");
    match sys.right_step(None, false) {
        PlaybackStep::Rewind => {}
        _ => panic!("looping side did not rewind"),
    }
    sys.reset();
    assert_eq!(sys.get_status(), "Links: a.mp4 (0/10)\nRechts: b.mp4 (0/12)");
    assert!(sys.get_left_camera().is_some());
    assert_eq!(sys.get_right_camera().as_ref().unwrap().get_camera_id(), 1);
}

#[test]
fn recordings_are_sorted() {
    let names = vec![
        "camera_1__20240101_120000.mp4".to_string(),
        "camera_0__20240101_120000.json".to_string(),
        "camera_0__20240101_120000.mp4".to_string(),
        "b.mkv".to_string(),
        "B.avi".to_string(),
        "b.avi".to_string(),
    ];
    assert_eq!(
        recordings_in_listing(&names),
        vec![
            "B.avi".to_string(),
            "b.avi".to_string(),
            "b.mkv".to_string(),
            "camera_0__20240101_120000.mp4".to_string(),
            "camera_1__20240101_120000.mp4".to_string(),
        ]
    );
    let empty: Vec<String> = Vec::new();
    assert!(recordings_in_listing(&empty).is_empty());
}

#[test]
fn wrong_size_frame_is_refused() {
    let mut cam = PlaybackCamera::new(0, "a.mp4", false, 5, 2, 1);
    match cam.on_sample(Some(vec![1, 2, 3, 4, 5]), false) {
        PlaybackStep::Fail(PlaybackCameraError::ReadError(_)) => {}
        _ => panic!("short frame passed"),
    }
    assert_eq!(cam.get_current_frame(), 0);
    assert!(!cam.is_finished());
    match cam.on_sample(Some(vec![1, 2, 3, 4, 5, 6]), false) {
        PlaybackStep::Frame(f) => assert_eq!(f.len(), 6),
        _ => panic!("good frame refused"),
    }
    assert_eq!(cam.get_current_frame(), 1);
    assert!(fits_frame(640 * 480 * 3, 640, 480));
    assert!(!fits_frame(640 * 480 * 3 + 1, 640, 480));
}

#[test]
fn stereo_plan_from_directory_names() {
    let names = vec![
        "z.mp4".to_string(),
        "notes.txt".to_string(),
        "m.mkv".to_string(),
        "a.avi".to_string(),
    ];
    let (l, r) = plan_stereo_sources(&names).ok().unwrap();
    assert_eq!((l.as_str(), r.as_str()), ("a.avi", "m.mkv"));
    let one = vec!["x.json".to_string(), "only.mp4".to_string()];
    let (l, r) = plan_stereo_sources(&one).ok().unwrap();
    assert_eq!((l.as_str(), r.as_str()), ("only.mp4", "only.mp4"));
    let none = vec!["x.json".to_string()];
    match plan_stereo_sources(&none) {
        Err(PlaybackCameraError::OpenError(_)) => {}
        _ => panic!("no recordings accepted"),
    }
}

#[test]
fn frame_count_from_duration() {
    assert_eq!(frames_in_duration(2_000_000_000, 30, 1), 60);
    assert_eq!(frames_in_duration(1_000_000_000, 30000, 1001), 29);
    assert_eq!(frames_in_duration(0, 30, 1), 0);
    assert_eq!(frames_in_duration(u64::MAX, u32::MAX, 1), u64::MAX);
}
