use cam_record_sim::virtual_camera::{
    create_virtual_cameras, frame_delay_ms, is_valid_frame_size, render_pattern, VirtualCamera,
};

#[test]
fn synthetic_frame_has_full_size() {
    let cam = VirtualCamera::new(0, 640, 480, 30);
    let frame = cam.get_frame().ok().unwrap();
    assert_eq!(frame.len(), 640 * 480 * 3);
    let small = VirtualCamera::new(2, 4, 1, 10);
    assert_eq!(small.get_frame().ok().unwrap().len(), 12);
}

#[test]
fn synthetic_pattern_is_deterministic() {
    let a = render_pattern(1, 320, 240, 12_345);
    let b = render_pattern(1, 320, 240, 12_345);
    assert_eq!(a, b);
    let c = render_pattern(1, 320, 240, 12_365);
    assert_ne!(a, c);
}

#[test]
fn synthetic_pattern_bytes() {
    // width 48: bar period 12, pixels 0..9 of each period coloured
    let f = render_pattern(1, 48, 2, 0);
    assert_eq!(f.len(), 48 * 2 * 3);
    assert_eq!(&f[0..3], &[0, 255, 0]);
    assert_eq!(&f[9 * 3..9 * 3 + 3], &[0, 255, 0]);
    assert_eq!(&f[10 * 3..10 * 3 + 3], &[50, 50, 50]);
    // second row starts over
    assert_eq!(&f[48 * 3..48 * 3 + 3], &[0, 255, 0]);
    let red = render_pattern(3, 48, 1, 0);
    assert_eq!(&red[0..3], &[255, 0, 0]);
    let blue = render_pattern(5, 48, 1, 0);
    assert_eq!(&blue[0..3], &[0, 0, 255]);
    // after one second the bar has moved 50 pixels: offset 50 mod 48 = 2
    let moved = render_pattern(1, 48, 1, 1000);
    assert_eq!(&moved[8 * 3..8 * 3 + 3], &[50, 50, 50]);
    assert_eq!(&moved[7 * 3..7 * 3 + 3], &[0, 255, 0]);
}

#[test]
fn virtual_camera_accessors() {
    let cam = VirtualCamera::new(7, 64, 32, 25);
    assert_eq!(cam.get_id(), 7);
    assert_eq!(cam.get_resolution(), (64, 32));
    assert_eq!(cam.get_fps(), 25);
    assert_eq!(cam.frame_delay_ms(), 40);
}

#[test]
fn pacing_delay() {
    assert_eq!(frame_delay_ms(30), 33);
    assert_eq!(frame_delay_ms(1), 1000);
    assert_eq!(frame_delay_ms(2000), 0);
}

#[test]
fn two_test_cameras() {
    let cams = create_virtual_cameras();
    assert_eq!(cams.len(), 2);
    assert_eq!(cams[0].get_id(), 0);
    assert_eq!(cams[1].get_id(), 1);
    assert_eq!(cams[1].get_resolution(), (640, 480));
    assert_eq!(cams[0].get_fps(), 30);
}

#[test]
fn frame_size_limits() {
    assert!(is_valid_frame_size(640, 480));
    assert!(is_valid_frame_size(4, 0));
    assert!(!is_valid_frame_size(3, 10));
    assert!(!is_valid_frame_size(u32::MAX, u32::MAX));
}
