use screenshare::capture::{
    capture, capture_frame, pack_rows, place_rows, CaptureError, Frame, Grab, RawImage,
};

fn padded() -> RawImage {
    RawImage {
        width: 1,
        height: 2,
        bytes_per_row: 6,
        data: vec![1, 2, 3, 4, 9, 9, 5, 6, 7, 8],
    }
}

#[test]
fn padding_after_rows_is_removed() {
    let raw = padded();
    assert!(raw.is_readable());
    let frame = capture_frame(Some(raw)).unwrap();
    assert_eq!(frame.data, vec![1, 2, 3, 4, 5, 6, 7, 8]);
    assert_eq!((frame.width, frame.height), (1, 2));
}

#[test]
fn unpadded_image_is_kept() {
    let raw = RawImage { width: 2, height: 1, bytes_per_row: 8, data: vec![1, 2, 3, 4, 5, 6, 7, 8] };
    assert!(raw.is_readable());
    assert_eq!(raw.into_frame().data, vec![1, 2, 3, 4, 5, 6, 7, 8]);
}

#[test]
fn every_pixel_keeps_its_place() {
    let (width, height, stride) = (3usize, 4usize, 20usize);
    let data: Vec<u8> = (0..(height * stride) as u32).map(|i| i as u8).collect();
    let packed = pack_rows(&data, stride, width * 4, height);
    assert_eq!(packed.len(), width * 4 * height);
    for row in 0..height {
        for column in 0..width * 4 {
            assert_eq!(packed[row * width * 4 + column], data[row * stride + column]);
        }
    }
}

#[test]
fn empty_image_gives_empty_frame() {
    let raw = RawImage { width: 0, height: 0, bytes_per_row: 0, data: vec![] };
    assert!(raw.is_readable());
    let frame = raw.into_frame();
    assert_eq!((frame.data.len(), frame.width, frame.height), (0, 0, 0));
}

#[test]
fn last_row_may_lack_padding_but_no_pixel() {
    let mut raw = padded();
    raw.data.pop();
    assert!(!raw.is_readable());
    let wide = RawImage { width: 1 << 30, height: 0, bytes_per_row: 0, data: vec![] };
    assert!(!wide.is_readable());
}

#[test]
fn size_is_taken_modulo_32_bits() {
    let raw = RawImage {
        width: (1usize << 32) + 1,
        height: 1,
        bytes_per_row: 4,
        data: vec![1, 2, 3, 4],
    };
    assert!(raw.is_readable());
    let frame = raw.into_frame();
    assert_eq!((frame.width, frame.height), (1, 1));
}

#[test]
fn capture_follows_the_platform() {
    assert_eq!(capture(Grab::MacOs(Some(padded()))).unwrap().data, vec![1, 2, 3, 4, 5, 6, 7, 8]);
    assert!(matches!(capture(Grab::MacOs(None)), Err(CaptureError::NoImage)));
    assert!(matches!(capture(Grab::Unsupported), Err(CaptureError::UnsupportedPlatform)));
    let done = Frame { data: vec![0; 4], width: 1, height: 1 };
    assert_eq!(capture(Grab::Windows(Ok(done))).unwrap().data, vec![0; 4]);
}

#[test]
fn capture_errors_have_their_texts() {
    assert_eq!(CaptureError::UnsupportedPlatform.message(), "plataforma nao suportada");
    assert_eq!(
        CaptureError::NoImage.message(),
        "CGDisplay::image() retornou None — permissao de Screen Recording concedida?"
    );
}

#[test]
fn rows_that_were_placed_are_packed_again() {
    let data: Vec<u8> = (1..=24).collect();
    for (stride, len) in [(12, 24), (13, 26), (16, 28), (16, 40)] {
        let placed = place_rows(&data, stride, 12, 2, len);
        assert_eq!(placed.len(), len);
        assert_eq!(&placed[..12], &data[..12]);
        assert_eq!(&placed[stride..stride + 12], &data[12..]);
        assert!(placed[12..stride].iter().all(|byte| *byte == 0));
        assert!(placed[stride + 12..].iter().all(|byte| *byte == 0));
        assert_eq!(pack_rows(&placed, stride, 12, 2), data);
    }
    assert_eq!(place_rows(&[], 0, 0, 0, 3), vec![0, 0, 0]);
}

#[test]
fn frames_are_placed_only_where_they_fit() {
    let frame = Frame { data: vec![7; 8], width: 1, height: 2 };
    assert!(frame.can_be_placed(4, 8));
    assert!(frame.can_be_placed(6, 10));
    assert!(!frame.can_be_placed(6, 9));
    assert!(!frame.can_be_placed(3, 100));
    assert!(!Frame { data: vec![7; 9], width: 1, height: 2 }.can_be_placed(4, 9));
    assert_eq!(frame.place(5, 9), vec![7, 7, 7, 7, 0, 7, 7, 7, 7]);
}
