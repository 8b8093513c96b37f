use webp_animator::{EncodingError, FrameRect, Params, WebPAnimator};

fn params(width: u32, height: u32) -> Params {
    Params {
        width,
        height,
        background_bgra: [255, 255, 255, 255],
        loop_count: 0,
        has_alpha: false,
    }
}

fn vp8l_payload(extra: &[u8]) -> Vec<u8> {
    let mut v = b"VP8L".to_vec();
    v.extend_from_slice(extra);
    v
}

fn le32(b: &[u8]) -> u32 {
    u32::from_le_bytes([b[0], b[1], b[2], b[3]])
}

fn le24(b: &[u8]) -> u32 {
    b[0] as u32 | (b[1] as u32) << 8 | (b[2] as u32) << 16
}

#[test]
fn new_accepts_valid_canvas() {
    assert!(WebPAnimator::new(params(1, 1)).is_ok());
    assert!(WebPAnimator::new(params(64, 64)).is_ok());
    assert!(WebPAnimator::new(params(0x1000000, 1)).is_ok());
    assert!(WebPAnimator::new(params(0x10000, 0xFFFF)).is_ok());
    assert!(WebPAnimator::new(params(0xFFFF, 0x10000)).is_ok());
}

#[test]
fn new_rejects_invalid_canvas() {
    for (w, h) in [
        (0, 64),
        (64, 0),
        (0x1000001, 1),
        (1, 0x1000001),
        (0x10000, 0x10000),
        (0x1000000, 0x1000000),
        (u32::MAX, u32::MAX),
    ] {
        assert!(matches!(
            WebPAnimator::new(params(w, h)),
            Err(EncodingError::InvalidDimensions)
        ));
    }
}

#[test]
fn empty_animation_layout() {
    let mut a = WebPAnimator::new(Params {
        width: 300,
        height: 2,
        background_bgra: [1, 2, 3, 4],
        loop_count: 0x0102,
        has_alpha: true,
    })
    .unwrap();
    let b = a.to_bytes();
    let expected: Vec<u8> = [
        b"RIFF".as_slice(),
        &36u32.to_le_bytes(),
        b"WEBP",
        b"VP8X",
        &10u32.to_le_bytes(),
        &[0x12, 0, 0, 0],
        &[43, 1, 0],
        &[1, 0, 0],
        b"ANIM",
        &6u32.to_le_bytes(),
        &[1, 2, 3, 4],
        &[2, 1],
    ]
    .concat();
    assert_eq!(b, expected);
    let mut out = Vec::new();
    a.write(&mut out).unwrap();
    assert_eq!(out, expected);
}

#[test]
fn frame_chunk_fields() {
    let mut a = WebPAnimator::new(params(64, 64)).unwrap();
    let payload = vp8l_payload(&[9, 8, 7, 6]);
    let rect = FrameRect { x: 2, y: 4, width: 10, height: 12 };
    a.add_webp_chunk(&payload, Some(rect), 500).unwrap();
    let b = a.to_bytes();
    let f = &b[44..];
    assert_eq!(&f[0..4], b"ANMF");
    assert_eq!(le32(&f[4..8]), 16 + payload.len() as u32);
    assert_eq!(le24(&f[8..11]), 1);
    assert_eq!(le24(&f[11..14]), 2);
    assert_eq!(le24(&f[14..17]), 9);
    assert_eq!(le24(&f[17..20]), 11);
    assert_eq!(le24(&f[20..23]), 500);
    assert_eq!(f[23], 0);
    assert_eq!(&f[24..], payload.as_slice());
    assert_eq!(le32(&b[4..8]) as usize, b.len() - 8);
}

#[test]
fn full_canvas_frames_in_order() {
    let mut a = WebPAnimator::new(params(64, 64)).unwrap();
    let p1 = vp8l_payload(&[1, 1, 1, 1]);
    let p2 = b"VP8 \x02\x02".to_vec();
    a.add_webp_chunk(&p1, None, 500).unwrap();
    a.add_webp_chunk(&p2, None, 250).unwrap();
    let b = a.to_bytes();
    assert_eq!(le32(&b[4..8]), 36 + (24 + 8) + (24 + 6));
    let mut at = 44;
    for (p, d) in [(&p1, 500), (&p2, 250)] {
        let f = &b[at..];
        assert_eq!(&f[0..4], b"ANMF");
        let len = le32(&f[4..8]) as usize;
        assert_eq!(len, 16 + p.len());
        assert_eq!(le24(&f[8..11]), 0);
        assert_eq!(le24(&f[11..14]), 0);
        assert_eq!(le24(&f[14..17]), 63);
        assert_eq!(le24(&f[17..20]), 63);
        assert_eq!(le24(&f[20..23]), d);
        assert_eq!(&f[24..8 + len], p.as_slice());
        at += 8 + len;
    }
    assert_eq!(at, b.len());
}

#[test]
fn two_frame_scenario_size_field() {
    let mut a = WebPAnimator::new(params(64, 64)).unwrap();
    let payload = vp8l_payload(&[0; 20]);
    let mut image = b"RIFF\x20\0\0\0WEBP".to_vec();
    image.extend_from_slice(&payload);
    a.add_webp_image(&image, None, 500).unwrap();
    a.add_webp_image(&image, None, 500).unwrap();
    let b = a.to_bytes();
    let pl = payload.len() as u32;
    assert_eq!(le32(&b[4..8]), 36 + 2 * (8 + 16 + pl));
    assert_eq!(b.len() as u32, 8 + 36 + 2 * (8 + 16 + pl));
    assert_eq!(&b[44 + 24..44 + 24 + payload.len()], payload.as_slice());
}

#[test]
fn finalize_twice_is_identical() {
    let mut a = WebPAnimator::new(params(16, 16)).unwrap();
    a.set_exif_metadata(vec![1, 2, 3]);
    a.add_webp_chunk(&vp8l_payload(&[5]), None, 10).unwrap();
    let first = a.to_bytes();
    let second = a.to_bytes();
    assert_eq!(first, second);
    let mut w1 = Vec::new();
    let mut w2 = Vec::new();
    a.write(&mut w1).unwrap();
    a.write(&mut w2).unwrap();
    assert_eq!(w1, w2);
    assert_eq!(w1, first);
}

#[test]
fn odd_offset_rejected() {
    let mut a = WebPAnimator::new(params(64, 64)).unwrap();
    let p = vp8l_payload(&[0; 4]);
    for (x, y) in [(1, 0), (0, 1), (3, 5), (63, 2)] {
        let r = a.add_webp_chunk(&p, Some(FrameRect { x, y, width: 1, height: 1 }), 100);
        assert!(matches!(r, Err(EncodingError::InvalidDimensions)));
    }
    let before = a.to_bytes();
    assert_eq!(before.len(), 44);
}

#[test]
fn tag_is_checked_before_geometry() {
    let mut a = WebPAnimator::new(params(64, 64)).unwrap();
    let r = a.add_webp_chunk(b"VP8Xabcd", Some(FrameRect { x: 1, y: 0, width: 1, height: 1 }), 0x1000000);
    assert!(matches!(r, Err(EncodingError::UnrecognizedImage)));
    let r = a.add_webp_chunk(b"VP8L", Some(FrameRect { x: 1, y: 0, width: 1, height: 1 }), 0x1000000);
    assert!(matches!(r, Err(EncodingError::InvalidDuration)));
}

#[test]
fn unrecognized_tag_rejected() {
    let mut a = WebPAnimator::new(params(64, 64)).unwrap();
    for p in [&b"VP8X\0\0\0\0"[..], b"vp8l\0\0\0\0", b"ALPH", b"VP8", b"", b"RIFFVP8L"] {
        let r = a.add_webp_chunk(p, None, 100);
        assert!(matches!(r, Err(EncodingError::UnrecognizedImage)));
    }
    assert!(a.add_webp_chunk(b"VP8L", None, 100).is_ok());
    assert!(a.add_webp_chunk(b"VP8 ", None, 100).is_ok());
}

#[test]
fn duration_bounds() {
    let mut a = WebPAnimator::new(params(64, 64)).unwrap();
    let p = vp8l_payload(&[0; 4]);
    let r = a.add_webp_chunk(&p, None, 0x1000000);
    assert!(matches!(r, Err(EncodingError::InvalidDuration)));
    let r = a.add_webp_chunk(&p, None, u32::MAX);
    assert!(matches!(r, Err(EncodingError::InvalidDuration)));
    assert!(a.add_webp_chunk(&p, None, 0xFFFFFF).is_ok());
    let b = a.to_bytes();
    assert_eq!(le24(&b[44 + 20..44 + 23]), 0xFFFFFF);
}

#[test]
fn rect_must_lie_on_canvas() {
    let mut a = WebPAnimator::new(params(64, 32)).unwrap();
    let p = vp8l_payload(&[0; 4]);
    // bottom edge is bounded by y + height, not by x + height
    assert!(a.add_webp_chunk(&p, Some(FrameRect { x: 40, y: 0, width: 8, height: 30 }), 1).is_ok());
    assert!(a.add_webp_chunk(&p, Some(FrameRect { x: 0, y: 10, width: 8, height: 22 }), 1).is_ok());
    for r in [
        FrameRect { x: 0, y: 10, width: 8, height: 23 },
        FrameRect { x: 58, y: 0, width: 8, height: 2 },
        FrameRect { x: 0, y: 0, width: 0, height: 2 },
        FrameRect { x: 0, y: 0, width: 2, height: 0 },
        FrameRect { x: 0, y: 0, width: u32::MAX, height: 2 },
        FrameRect { x: 0xFFFFFFFE, y: 0, width: 4, height: 2 },
        FrameRect { x: 0, y: 0xFFFFFFFE, width: 2, height: 4 },
    ] {
        let res = a.add_webp_chunk(&p, Some(r), 1);
        assert!(matches!(res, Err(EncodingError::InvalidDimensions)));
    }
}

#[test]
fn full_canvas_with_odd_size_accepted() {
    let mut a = WebPAnimator::new(params(63, 17)).unwrap();
    assert!(a.add_webp_chunk(&vp8l_payload(&[1]), None, 1).is_ok());
    let b = a.to_bytes();
    assert_eq!(le24(&b[44 + 14..44 + 17]), 62);
    assert_eq!(le24(&b[44 + 17..44 + 20]), 16);
}

#[test]
fn short_image_rejected() {
    let mut a = WebPAnimator::new(params(8, 8)).unwrap();
    for d in [&b""[..], b"RIFF", b"RIFF\0\0\0\0WEBP", b"RIFF\0\0\0\0WEBPVP8"] {
        let r = a.add_webp_image(d, None, 1);
        assert!(matches!(r, Err(EncodingError::UnrecognizedImage)));
    }
    assert!(a.add_webp_image(b"RIFF\0\0\0\0WEBPVP8L", None, 1).is_ok());
}

#[test]
fn icc_profile_flag_and_placement() {
    let mut a = WebPAnimator::new(params(4, 4)).unwrap();
    let icc = b"ICCP\x02\0\0\0ab".to_vec();
    a.set_icc_profile(icc.clone());
    let b = a.to_bytes();
    assert_eq!(b[20] & 0x20, 0x20);
    assert_eq!(b[20], 0x22);
    assert_eq!(&b[30..30 + icc.len()], icc.as_slice());
    assert_eq!(&b[30 + icc.len()..34 + icc.len()], b"ANIM");
    assert_eq!(le32(&b[4..8]) as usize, 36 + icc.len());
    a.set_icc_profile(Vec::new());
    let b = a.to_bytes();
    assert_eq!(b[20], 0x02);
    assert_eq!(&b[30..34], b"ANIM");
}

#[test]
fn metadata_flags_and_trailer() {
    let mut a = WebPAnimator::new(params(4, 4)).unwrap();
    a.set_exif_metadata(vec![0xE1, 0xE2]);
    a.set_xmp_metadata(vec![0xA1, 0xA2, 0xA3]);
    a.add_webp_chunk(b"VP8L", None, 7).unwrap();
    let b = a.to_bytes();
    assert_eq!(b[20], 0x02 | 0x08 | 0x04);
    let n = b.len();
    assert_eq!(&b[n - 5..], &[0xE1, 0xE2, 0xA1, 0xA2, 0xA3]);
    assert_eq!(&b[44..48], b"ANMF");
    assert_eq!(le32(&b[4..8]) as usize, n - 8);
}

#[test]
fn alpha_flag() {
    let mut p = params(4, 4);
    p.has_alpha = true;
    let a = WebPAnimator::new(p).unwrap();
    assert_eq!(a.to_bytes()[20], 0x12);
}

struct FailingSink;

impl std::io::Write for FailingSink {
    fn write(&mut self, _buf: &[u8]) -> std::io::Result<usize> {
        Err(std::io::Error::new(std::io::ErrorKind::Other, "sink closed"))
    }
    fn flush(&mut self) -> std::io::Result<()> {
        Ok(())
    }
}

#[test]
fn sink_failure_is_io_error() {
    let mut a = WebPAnimator::new(params(4, 4)).unwrap();
    let r = a.write(&mut FailingSink);
    match r {
        Err(e @ EncodingError::Io(_)) => assert_eq!(e.to_string(), "sink closed"),
        _ => panic!("expected an I/O error"),
    }
}

#[test]
fn error_messages() {
    assert_eq!(EncodingError::InvalidDimensions.to_string(), "invalid dimensions");
    assert_eq!(EncodingError::InvalidDuration.to_string(), "invalid duration");
    assert_eq!(EncodingError::UnrecognizedImage.to_string(), "unrecognized image");
    let e: EncodingError = std::io::Error::new(std::io::ErrorKind::Other, "x").into();
    assert!(matches!(e, EncodingError::Io(_)));
}

#[test]
fn u24_encoding() {
    assert_eq!(webp_animator::codec::u24_bytes(0), [0, 0, 0]);
    assert_eq!(webp_animator::codec::u24_bytes(0x123456), [0x56, 0x34, 0x12]);
    assert_eq!(webp_animator::codec::u24_bytes(0xFFFFFF), [0xFF, 0xFF, 0xFF]);
    assert_eq!(webp_animator::codec::u32_bytes(0x01020304), [4, 3, 2, 1]);
    assert_eq!(webp_animator::codec::u16_bytes(0xABCD), [0xCD, 0xAB]);
}
