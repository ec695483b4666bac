use grabwin::frame::{convert, unpack_rows, Frame, PixelFormat};
use grabwin::{Error, InvalidArgument};

// 2x1 image: pixel0 = B1 G2 R3 A4, pixel1 = B5 G6 R7 A8
const BGRA: [u8; 8] = [1, 2, 3, 4, 5, 6, 7, 8];

#[test]
fn parse_formats() {
    assert!(matches!(PixelFormat::parse("bgra"), Ok(PixelFormat::Bgra)));
    assert!(matches!(PixelFormat::parse("RGB"), Ok(PixelFormat::Rgb)));
    assert!(matches!(PixelFormat::parse("rgba"), Ok(PixelFormat::Rgba)));
    assert!(matches!(PixelFormat::parse("bgr"), Ok(PixelFormat::Bgr)));
    assert!(PixelFormat::parse("yuv").is_err());
}

#[test]
fn channels() {
    assert_eq!(PixelFormat::Bgra.channels(), 4);
    assert_eq!(PixelFormat::Rgba.channels(), 4);
    assert_eq!(PixelFormat::Rgb.channels(), 3);
    assert_eq!(PixelFormat::Bgr.channels(), 3);
}

#[test]
fn convert_bgra_is_copy() {
    assert_eq!(convert(&BGRA, PixelFormat::Bgra), BGRA.to_vec());
}

#[test]
fn convert_rgba_swaps_r_b() {
    assert_eq!(
        convert(&BGRA, PixelFormat::Rgba),
        vec![3, 2, 1, 4, 7, 6, 5, 8]
    );
}

#[test]
fn convert_rgb_drops_alpha_and_swaps() {
    assert_eq!(convert(&BGRA, PixelFormat::Rgb), vec![3, 2, 1, 7, 6, 5]);
}

#[test]
fn convert_bgr_drops_alpha() {
    assert_eq!(convert(&BGRA, PixelFormat::Bgr), vec![1, 2, 3, 5, 6, 7]);
}

#[test]
fn unpack_rows_strips_pitch_padding() {
    // width 1 px (4 bytes), height 2, pitch 8 (4 bytes padding per row)
    let src = [1, 2, 3, 4, 99, 99, 99, 99, 5, 6, 7, 8, 99, 99, 99, 99];
    assert_eq!(unpack_rows(&src, 8, 1, 2), vec![1, 2, 3, 4, 5, 6, 7, 8]);
}

#[test]
fn unpack_rows_tight_pitch_is_identity() {
    let src = [1, 2, 3, 4, 5, 6, 7, 8];
    assert_eq!(unpack_rows(&src, 4, 1, 2), src.to_vec());
}

#[test]
fn frame_to_format() {
    let f = Frame {
        bgra: BGRA.to_vec(),
        width: 2,
        height: 1,
    };
    assert_eq!(f.to_format(PixelFormat::Rgb), vec![3, 2, 1, 7, 6, 5]);
}

#[test]
fn parse_ignores_ascii_case_only() {
    assert!(matches!(PixelFormat::parse("BgRa"), Ok(PixelFormat::Bgra)));
    assert!(matches!(PixelFormat::parse("RGBA"), Ok(PixelFormat::Rgba)));
    assert!(matches!(PixelFormat::parse("Bgr"), Ok(PixelFormat::Bgr)));
    assert!(PixelFormat::parse("rgb ").is_err());
    assert!(PixelFormat::parse("").is_err());
    assert!(PixelFormat::parse("bgrab").is_err());
}

#[test]
fn parse_error_holds_lowercased_name() {
    match PixelFormat::parse("YUV") {
        Err(Error::Invalid(InvalidArgument::PixelFormat(name))) => assert_eq!(name, "yuv"),
        other => panic!("unexpected {:?}", other),
    }
}

#[test]
fn rgba_twice_gives_back_bgra() {
    let src: Vec<u8> = (0u8..23).collect();
    let once = convert(&src, PixelFormat::Rgba);
    assert_eq!(convert(&once, PixelFormat::Rgba), src);
}

#[test]
fn rgb_is_bgr_reversed_per_pixel() {
    let src: Vec<u8> = (10u8..30).collect();
    let rgb = convert(&src, PixelFormat::Rgb);
    let bgr = convert(&src, PixelFormat::Bgr);
    assert_eq!(rgb.len(), 15);
    for p in 0..5 {
        for c in 0..3 {
            assert_eq!(rgb[3 * p + c], bgr[3 * p + 2 - c]);
        }
    }
}

#[test]
fn partial_trailing_pixel() {
    let src = [1u8, 2, 3, 4, 5, 6];
    assert_eq!(convert(&src, PixelFormat::Bgra), vec![1, 2, 3, 4, 5, 6]);
    assert_eq!(convert(&src, PixelFormat::Rgba), vec![3, 2, 1, 4, 5, 6]);
    assert_eq!(convert(&src, PixelFormat::Rgb), vec![3, 2, 1]);
    assert_eq!(convert(&src, PixelFormat::Bgr), vec![1, 2, 3]);
    assert_eq!(convert(&[], PixelFormat::Rgb), Vec::<u8>::new());
}

#[test]
fn unpack_rows_two_by_three_with_padding() {
    // width 2 px (8 bytes), height 3, pitch 10
    let mut src = Vec::new();
    for y in 0..3u8 {
        for x in 0..8u8 {
            src.push(y * 16 + x);
        }
        src.push(200);
        src.push(201);
    }
    let out = unpack_rows(&src, 10, 2, 3);
    assert_eq!(out.len(), 24);
    for y in 0..3usize {
        for x in 0..8usize {
            assert_eq!(out[y * 8 + x], src[y * 10 + x]);
        }
    }
    // the last row need not be followed by padding
    assert_eq!(unpack_rows(&src[..28], 10, 2, 3), out);
    assert_eq!(unpack_rows(&src, 10, 0, 3), Vec::<u8>::new());
    assert_eq!(unpack_rows(&src, 10, 2, 0), Vec::<u8>::new());
}

#[test]
fn packed_frame_sizes() {
    let f = Frame {
        bgra: vec![7u8; 3 * 2 * 4],
        width: 3,
        height: 2,
    };
    for (fmt, ch) in [
        (PixelFormat::Bgra, 4),
        (PixelFormat::Rgba, 4),
        (PixelFormat::Rgb, 3),
        (PixelFormat::Bgr, 3),
    ] {
        assert_eq!(f.to_format(fmt).len(), 3 * 2 * ch);
    }
}
