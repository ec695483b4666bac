use grabwin::pngenc::{check_compression, encodable, encode_png, encoded_png, png_settings, PngCompression, PngFilter};
use grabwin::{Error, InvalidArgument};

fn decode(data: &[u8]) -> (u32, u32, png::ColorType, Vec<u8>) {
    let decoder = png::Decoder::new(std::io::Cursor::new(data));
    let mut reader = decoder.read_info().unwrap();
    let mut buf = vec![0; reader.output_buffer_size().unwrap()];
    let info = reader.next_frame(&mut buf).unwrap();
    buf.truncate(info.buffer_size());
    (info.width, info.height, info.color_type, buf)
}

// 2x2 BGRA: red, green / blue, white
const BGRA: [u8; 16] = [
    0, 0, 255, 255, 0, 255, 0, 255, //
    255, 0, 0, 255, 255, 255, 255, 255,
];
const RGB: [u8; 12] = [255, 0, 0, 0, 255, 0, 0, 0, 255, 255, 255, 255];

#[test]
fn roundtrip_all_levels() {
    for level in [0u8, 1, 3, 9] {
        let data = encode_png(&BGRA, 2, 2, level).unwrap();
        assert_eq!(&data[..8], b"\x89PNG\r\n\x1a\n", "level {level}");
        let (w, h, ct, px) = decode(&data);
        assert_eq!((w, h), (2, 2));
        assert_eq!(ct, png::ColorType::Rgb);
        assert_eq!(px, RGB.to_vec(), "level {level}");
    }
}

#[test]
fn level_above_nine_is_rejected() {
    assert!(encode_png(&BGRA, 2, 2, 10).is_err());
}

#[test]
fn size_mismatch_is_rejected() {
    assert!(encode_png(&BGRA, 3, 2, 1).is_err());
}

#[test]
fn rejection_reasons() {
    match encode_png(&BGRA, 2, 2, 10) {
        Err(Error::Invalid(InvalidArgument::Compression(10))) => {}
        other => panic!("unexpected {:?}", other),
    }
    match encode_png(&BGRA, 3, 2, 1) {
        Err(Error::Invalid(InvalidArgument::BufferSize { len, expected, width, height })) => {
            assert_eq!((len, expected, width, height), (16, 24, 3, 2));
        }
        other => panic!("unexpected {:?}", other),
    }
    // an empty image passes the size check but the encoder refuses it
    assert!(matches!(encode_png(&[], 0, 0, 1), Err(Error::Encode(_))));
    assert!(matches!(encode_png(&[], 0, 5, 1), Err(Error::Encode(_))));
}

#[test]
fn header_declares_size_and_rgb8() {
    let data = encode_png(&BGRA, 2, 2, 1).unwrap();
    assert_eq!(&data[8..16], &[0, 0, 0, 13, b'I', b'H', b'D', b'R']);
    assert_eq!(&data[16..24], &[0, 0, 0, 2, 0, 0, 0, 2]);
    assert_eq!(&data[24..26], &[8, 2]);
    let wide = vec![9u8; 300 * 1 * 4];
    let data = encode_png(&wide, 300, 1, 6).unwrap();
    assert_eq!(&data[16..24], &[0, 0, 1, 44, 0, 0, 0, 1]);
    let (w, h, _, px) = decode(&data);
    assert_eq!((w, h), (300, 1));
    assert_eq!(px, vec![9u8; 900]);
}

#[test]
fn levels_map_to_settings() {
    assert_eq!(png_settings(0), (PngCompression::NoCompression, PngFilter::Sub));
    assert_eq!(png_settings(1), (PngCompression::Fast, PngFilter::Sub));
    for l in 2..=5 {
        assert_eq!(png_settings(l), (PngCompression::Balanced, PngFilter::Adaptive));
    }
    for l in 6..=9 {
        assert_eq!(png_settings(l), (PngCompression::High, PngFilter::Adaptive));
    }
}

#[test]
fn encoder_outcome_is_passed_on() {
    assert!(matches!(encoded_png(Err(png::EncodingError::LimitsExceeded)), Err(Error::Encode(_))));
    assert_eq!(encoded_png(Ok(vec![1, 2, 3])).unwrap(), vec![1, 2, 3]);
}

#[test]
fn every_level_decodes_to_the_rgb_pixels() {
    let src: Vec<u8> = (0..(5 * 3 * 4)).map(|i| (i * 7 % 256) as u8).collect();
    for level in 0u8..=9 {
        let data = encode_png(&src, 5, 3, level).unwrap();
        let (w, h, ct, px) = decode(&data);
        assert_eq!((w, h, ct), (5, 3, png::ColorType::Rgb));
        assert_eq!(px, grabwin::frame::convert(&src, grabwin::frame::PixelFormat::Rgb));
    }
}

#[test]
fn compression_check() {
    assert!(check_compression(0).is_ok());
    assert!(check_compression(9).is_ok());
    assert!(matches!(
        check_compression(10),
        Err(Error::Invalid(InvalidArgument::Compression(10)))
    ));
}

#[test]
fn alpha_does_not_reach_the_png() {
    let a: Vec<u8> = (0..(4 * 3 * 4)).map(|i| (i * 11 % 256) as u8).collect();
    let mut b = a.clone();
    for i in (3..b.len()).step_by(4) {
        b[i] = 255 - b[i];
    }
    for level in [0u8, 1, 4, 9] {
        assert_eq!(encode_png(&a, 4, 3, level).unwrap(), encode_png(&b, 4, 3, level).unwrap());
    }
}

#[test]
fn encodable_sizes() {
    assert!(encodable(1920, 1080));
    assert!(encodable(0, 0));
    assert!(!encodable(u32::MAX, u32::MAX));
}
