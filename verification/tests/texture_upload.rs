use i420_viewer::frame::FrameDims;
use i420_viewer::upload::{upload_frame, UploadError};

fn numbered(n: usize) -> Vec<u8> {
    (0..n).map(|i| (i + 1) as u8).collect()
}

#[test]
fn upload_with_pitch_equal_to_width_copies_the_frame() {
    let d = FrameDims::new(4, 2).unwrap();
    let frame = numbered(12);
    let mut texture = vec![0xEE; 12];
    assert_eq!(upload_frame(&d, &frame, 4, &mut texture), Ok(()));
    assert_eq!(texture, frame);
}

#[test]
fn upload_honours_the_pitch() {
    // 4x2 frame: Y = 1..=8, U = 9, 10, V = 11, 12; pitch 6, chroma stride 3
    let d = FrameDims::new(4, 2).unwrap();
    let frame = numbered(12);
    let mut texture = vec![0xEE; 6 * 2 + 2 * 3];
    assert_eq!(upload_frame(&d, &frame, 6, &mut texture), Ok(()));
    assert_eq!(
        texture,
        vec![
            1, 2, 3, 4, 0xEE, 0xEE, // luma row 0
            5, 6, 7, 8, 0xEE, 0xEE, // luma row 1
            9, 10, 0xEE, // U row 0
            11, 12, 0xEE, // V row 0
        ]
    );
}

#[test]
fn upload_with_two_chroma_rows() {
    // 2x4 frame: Y = 1..=8, U = 9, 10, V = 11, 12; pitch 4, chroma stride 2
    let d = FrameDims::new(2, 4).unwrap();
    let frame = numbered(12);
    let mut texture = vec![0; 4 * 4 + 2 * (2 * 2)];
    assert_eq!(upload_frame(&d, &frame, 4, &mut texture), Ok(()));
    assert_eq!(
        texture,
        vec![
            1, 2, 0, 0, 3, 4, 0, 0, 5, 6, 0, 0, 7, 8, 0, 0, // luma
            9, 0, 10, 0, // U
            11, 0, 12, 0, // V
        ]
    );
}

#[test]
fn upload_with_an_odd_pitch_halves_it_for_chroma() {
    // 2x2 frame, pitch 5: luma rows at 0 and 5, U at 10, V at 10 + 2 * 1 = 12
    let d = FrameDims::new(2, 2).unwrap();
    let frame = numbered(6);
    let mut texture = vec![0; 5 * 2 + 2 * 2];
    assert_eq!(upload_frame(&d, &frame, 5, &mut texture), Ok(()));
    assert_eq!(texture, vec![1, 2, 0, 0, 0, 3, 4, 0, 0, 0, 5, 0, 6, 0]);
}

#[test]
fn upload_leaves_bytes_behind_the_planes() {
    let d = FrameDims::new(2, 2).unwrap();
    let frame = numbered(6);
    let mut texture = vec![0x55; 9];
    assert_eq!(upload_frame(&d, &frame, 2, &mut texture), Ok(()));
    assert_eq!(texture, vec![1, 2, 3, 4, 5, 6, 0x55, 0x55, 0x55]);
}

#[test]
fn upload_twice_gives_the_same_texture() {
    let d = FrameDims::new(4, 4).unwrap();
    let frame = numbered(24);
    let mut once = vec![0xAA; 7 * 4 + 2 * (3 * 2)];
    assert_eq!(upload_frame(&d, &frame, 7, &mut once), Ok(()));
    let mut twice = once.clone();
    assert_eq!(upload_frame(&d, &frame, 7, &mut twice), Ok(()));
    assert_eq!(once, twice);
}

#[test]
fn upload_overwrites_the_previous_picture() {
    let d = FrameDims::new(4, 2).unwrap();
    let first = numbered(12);
    let second: Vec<u8> = (0..12).map(|i| 200 - i as u8).collect();
    let mut a = vec![0; 18];
    let mut b = vec![0; 18];
    assert_eq!(upload_frame(&d, &first, 6, &mut a), Ok(()));
    assert_eq!(upload_frame(&d, &second, 6, &mut a), Ok(()));
    assert_eq!(upload_frame(&d, &second, 6, &mut b), Ok(()));
    assert_eq!(a, b);
}

#[test]
fn upload_rejects_a_frame_of_the_wrong_length() {
    let d = FrameDims::new(4, 2).unwrap();
    let mut texture = vec![7; 12];
    assert_eq!(upload_frame(&d, &numbered(11), 4, &mut texture), Err(UploadError::FrameLength));
    assert_eq!(upload_frame(&d, &numbered(13), 4, &mut texture), Err(UploadError::FrameLength));
    assert_eq!(texture, vec![7; 12]);
}

#[test]
fn upload_rejects_a_pitch_below_the_width() {
    let d = FrameDims::new(4, 2).unwrap();
    let mut texture = vec![7; 64];
    assert_eq!(upload_frame(&d, &numbered(12), 3, &mut texture), Err(UploadError::Pitch));
    assert_eq!(upload_frame(&d, &numbered(12), 0, &mut texture), Err(UploadError::Pitch));
    assert_eq!(texture, vec![7; 64]);
}

#[test]
fn upload_rejects_a_texture_that_is_too_short() {
    let d = FrameDims::new(4, 2).unwrap();
    let mut texture = vec![7; 17];
    assert_eq!(upload_frame(&d, &numbered(12), 6, &mut texture), Err(UploadError::TextureLength));
    assert_eq!(texture, vec![7; 17]);
    let mut texture = vec![7; 12];
    assert_eq!(
        upload_frame(&d, &numbered(12), usize::MAX, &mut texture),
        Err(UploadError::TextureLength)
    );
}

#[test]
fn upload_checks_frame_then_pitch_then_texture() {
    let d = FrameDims::new(4, 2).unwrap();
    let mut texture = vec![7; 1];
    assert_eq!(upload_frame(&d, &numbered(1), 1, &mut texture), Err(UploadError::FrameLength));
    assert_eq!(upload_frame(&d, &numbered(12), 1, &mut texture), Err(UploadError::Pitch));
    assert_eq!(upload_frame(&d, &numbered(12), 4, &mut texture), Err(UploadError::TextureLength));
}

#[test]
fn upload_places_every_sample_where_the_layout_says() {
    let (w, h, pitch) = (6usize, 4usize, 9usize);
    let d = FrameDims::new(w as u32, h as u32).unwrap();
    let frame = numbered(d.frame_len());
    let half = pitch / 2;
    let mut texture = vec![0xEE; pitch * h + 2 * (half * (h / 2))];
    assert_eq!(upload_frame(&d, &frame, pitch, &mut texture), Ok(()));
    let mut written = vec![false; texture.len()];
    for y in 0..h {
        for x in 0..w {
            assert_eq!(texture[y * pitch + x], frame[y * w + x]);
            written[y * pitch + x] = true;
        }
    }
    for y in 0..h / 2 {
        for x in 0..w / 2 {
            let u = pitch * h + y * half + x;
            let v = pitch * h + half * (h / 2) + y * half + x;
            assert_eq!(texture[u], frame[d.luma_len() + y * (w / 2) + x]);
            assert_eq!(texture[v], frame[d.v_offset() + y * (w / 2) + x]);
            written[u] = true;
            written[v] = true;
        }
    }
    for (i, &seen) in written.iter().enumerate() {
        if !seen {
            assert_eq!(texture[i], 0xEE);
        }
    }
}
