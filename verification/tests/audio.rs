use track_rs::audio::write_frames;

#[test]
fn stereo_interleaves_left_and_right() {
    let mut out = [0i16; 6];
    write_frames(&mut out, 2, &[(1, 2), (3, 4), (5, 6)]);
    assert_eq!(out, [1, 2, 3, 4, 5, 6]);
}

#[test]
fn extra_channels_alternate() {
    let mut out = [0u16; 8];
    write_frames(&mut out, 4, &[(1, 2), (3, 4)]);
    assert_eq!(out, [1, 2, 1, 2, 3, 4, 3, 4]);
}

#[test]
fn mono_takes_left() {
    let mut out = [0.0f32; 3];
    write_frames(&mut out, 1, &[(0.5, -0.5), (0.25, -0.25), (1.0, -1.0)]);
    assert_eq!(out, [0.5, 0.25, 1.0]);
}

#[test]
fn last_frame_may_be_cut_short() {
    let mut out = [0u8; 5];
    write_frames(&mut out, 3, &[(1, 2), (3, 4)]);
    assert_eq!(out, [1, 2, 1, 3, 4]);
}

#[test]
fn empty_buffer_is_left_empty() {
    let mut out: [u8; 0] = [];
    write_frames(&mut out, 2, &[]);
    assert!(out.is_empty());
}
