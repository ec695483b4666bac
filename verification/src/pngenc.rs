use vstd::prelude::*;

use crate::error::{Error, InvalidArgument};
use crate::frame::{convert, converted, PixelFormat};

verus! {

/// The error type of the `png` encoder, carried through opaquely.
#[verifier::external_type_specification]
#[verifier::external_body]
pub struct ExEncodingError(png::EncodingError);

/// DEFLATE effort used for the image data.
#[derive(Debug, Clone, Copy, PartialEq, Eq, Structural)]
pub enum PngCompression {
    NoCompression,
    Fast,
    Balanced,
    High,
}

/// Row filter applied before compression.
#[derive(Debug, Clone, Copy, PartialEq, Eq, Structural)]
pub enum PngFilter {
    Sub,
    Adaptive,
}

/// The encoder settings a compression level stands for:
/// 0 = stored, 1 = fast, 2–5 = balanced, 6–9 (and above) = high.
pub open spec fn spec_png_settings(compression: u8) -> (PngCompression, PngFilter) {
    if compression == 0 {
        (PngCompression::NoCompression, PngFilter::Sub)
    } else if compression == 1 {
        (PngCompression::Fast, PngFilter::Sub)
    } else if compression <= 5 {
        (PngCompression::Balanced, PngFilter::Adaptive)
    } else {
        (PngCompression::High, PngFilter::Adaptive)
    }
}

/// Compression levels: 0 stores without compression and filters rows with `Sub`, 1 is the
/// fast compressor with `Sub`, 2 to 5 are balanced and 6 and above high, both with adaptive
/// filtering.
pub proof fn law_compression_levels(compression: u8)
    ensures
        compression == 0 ==> spec_png_settings(compression) == (
            PngCompression::NoCompression,
            PngFilter::Sub,
        ),
        compression == 1 ==> spec_png_settings(compression) == (PngCompression::Fast, PngFilter::Sub),
        2 <= compression <= 5 ==> spec_png_settings(compression) == (
            PngCompression::Balanced,
            PngFilter::Adaptive,
        ),
        6 <= compression ==> spec_png_settings(compression) == (
            PngCompression::High,
            PngFilter::Adaptive,
        ),
{
}

/// The eight bytes every PNG file starts with.
pub open spec fn png_signature() -> Seq<u8> {
    seq![137u8, 80, 78, 71, 13, 10, 26, 10]
}

/// `v` as four big-endian bytes.
pub open spec fn be_bytes(v: u32) -> Seq<u8> {
    seq![
        (v / 0x100_0000) as u8,
        ((v / 0x1_0000) % 0x100) as u8,
        ((v / 0x100) % 0x100) as u8,
        (v % 0x100) as u8,
    ]
}

/// The first chunk of a PNG file up to its colour type: length 13, type `IHDR`, width,
/// height, bit depth 8 and colour type 2 (RGB).
pub open spec fn rgb8_header(width: u32, height: u32) -> Seq<u8> {
    seq![0u8, 0, 0, 13, 73, 72, 68, 82] + be_bytes(width) + be_bytes(height) + seq![8u8, 2]
}

/// The PNG file the `png` crate writes for 8-bit RGB rows `rgb` of a `width` x `height`
/// image with the given settings.
pub uninterp spec fn png_encoding(
    rgb: Seq<u8>,
    width: u32,
    height: u32,
    compression: PngCompression,
    filter: PngFilter,
) -> Seq<u8>;

/// Whether an RGB image of this size can be encoded in memory: the encoder's row and
/// buffer-size arithmetic (`3 * width + 1` bytes per filtered row, times `height`, and the
/// stored-block estimate of `fdeflate`) and its output vector must stay within `isize`.
pub open spec fn encodable_size(width: u32, height: u32) -> bool {
    (width * 3 + 1) * height <= isize::MAX / 2
}

/// Encodes with `png::Encoder` (`new`, `set_color(Rgb)`, `set_depth(Eight)`,
/// `set_compression`, `set_filter`, `write_header`, `Writer::write_image_data`,
/// `Writer::finish`) into a fresh vector. Claimed: on success the bytes are the named
/// encoding of the arguments; they start with the PNG signature followed by the IHDR chunk
/// that `Writer::init`/`encode_header` write first (width and height big-endian, depth 8,
/// colour type 2). A zero width or height is refused by `Writer::init`. With a non-zero
/// size and exactly `3 * width * height` bytes the encoding succeeds: sequence validation
/// is off by default, 8-bit RGB is a valid combination, `write_image_data` refuses only a
/// length other than `3 * width * height`, and writes into a `Vec` cannot fail. Not
/// claimed: which failure a wrong data length gives.
#[verifier::external_body]
fn encode_rgb8(
    rgb: &[u8],
    width: u32,
    height: u32,
    compression: PngCompression,
    filter: PngFilter,
) -> (r: Result<Vec<u8>, png::EncodingError>)
    requires
        encodable_size(width, height),
    ensures
        width > 0 && height > 0 && rgb@.len() == width * height * 3 ==> r is Ok,
        r matches Ok(out) ==> {
            &&& out@ == png_encoding(rgb@, width, height, compression, filter)
            &&& out@.len() >= 26
            &&& out@.subrange(0, 8) == png_signature()
            &&& out@.subrange(8, 26) == rgb8_header(width, height)
        },
        (width == 0 || height == 0) ==> r is Err,
{
    let mut out = Vec::new();
    let mut enc = png::Encoder::new(&mut out, width, height);
    enc.set_color(png::ColorType::Rgb);
    enc.set_depth(png::BitDepth::Eight);
    enc.set_compression(match compression {
        PngCompression::NoCompression => png::Compression::NoCompression,
        PngCompression::Fast => png::Compression::Fast,
        PngCompression::Balanced => png::Compression::Balanced,
        PngCompression::High => png::Compression::High,
    });
    enc.set_filter(match filter { PngFilter::Sub => png::Filter::Sub, PngFilter::Adaptive => png::Filter::Adaptive });
    let mut writer = enc.write_header()?;
    writer.write_image_data(rgb)?;
    writer.finish()?;
    Ok(out)
}

/// The message of a `png::EncodingError`, from its `Display` impl.
#[verifier::external_body]
fn encoding_error_text(e: &png::EncodingError) -> String {
    e.to_string()
}

/// The encoder settings for a compression level.
pub fn png_settings(compression: u8) -> (r: (PngCompression, PngFilter))
    ensures
        r == spec_png_settings(compression),
{
    match compression {
        0 => (PngCompression::NoCompression, PngFilter::Sub),
        1 => (PngCompression::Fast, PngFilter::Sub),
        2..=5 => (PngCompression::Balanced, PngFilter::Adaptive),
        _ => (PngCompression::High, PngFilter::Adaptive),
    }
}

/// Hands back the encoder's bytes, or its failure as an `Encode` error.
pub fn encoded_png(result: Result<Vec<u8>, png::EncodingError>) -> (r: Result<Vec<u8>, Error>)
    ensures
        match result {
            Ok(bytes) => r == Ok::<Vec<u8>, Error>(bytes),
            Err(_) => r matches Err(Error::Encode(_)),
        },
{
    match result {
        Ok(bytes) => Ok(bytes),
        Err(e) => Err(Error::Encode(encoding_error_text(&e))),
    }
}

/// Whether a frame of this size can be handed to [`encode_png`]: its BGRA byte count fits
/// in `usize` and its RGB image can be encoded in memory.
pub fn encodable(width: u32, height: u32) -> (r: bool)
    ensures
        r == (width * height * 4 <= usize::MAX && encodable_size(width, height)),
{
    let w = width as u128;
    let h = height as u128;
    proof {
        assert(w * h * 4 <= 0x1_0000_0000 * 0x1_0000_0000 * 4) by (nonlinear_arith)
            requires
                w < 0x1_0000_0000,
                h < 0x1_0000_0000,
        ;
        assert((w * 3 + 1) * h <= 0x3_0000_0001 * 0x1_0000_0000) by (nonlinear_arith)
            requires
                w < 0x1_0000_0000,
                h < 0x1_0000_0000,
        ;
    }
    w * h * 4 <= usize::MAX as u128 && (w * 3 + 1) * h <= (isize::MAX / 2) as u128
}

/// Refuses a compression level above 9.
pub fn check_compression(compression: u8) -> (r: Result<(), Error>)
    ensures
        compression <= 9 ==> r is Ok,
        compression > 9 ==> (r matches Err(Error::Invalid(InvalidArgument::Compression(c)))
            && c == compression),
{
    if compression > 9 {
        Err(Error::Invalid(InvalidArgument::Compression(compression)))
    } else {
        Ok(())
    }
}

/// Encodes tightly packed BGRA as an RGB PNG (alpha dropped).
///
/// `compression`: 0 = stored, 1 = fast (default), 2–5 = balanced, 6–9 = high.
pub fn encode_png(bgra: &[u8], width: u32, height: u32, compression: u8) -> (r: Result<
    Vec<u8>,
    Error,
>)
    requires
        width * height * 4 <= usize::MAX,
        bgra@.len() == width * height * 4 ==> encodable_size(width, height),
    ensures
        compression > 9 ==> (r matches Err(Error::Invalid(InvalidArgument::Compression(c)))
            && c == compression),
        compression <= 9 && bgra@.len() != width * height * 4 ==> (r matches Err(
            Error::Invalid(InvalidArgument::BufferSize { len, expected, width: w, height: h }),
        ) && len == bgra@.len() && expected == width * height * 4 && w == width && h == height),
        compression <= 9 && bgra@.len() == width * height * 4 && width > 0 && height > 0
            ==> (r is Ok && r->Ok_0@ == png_encoding(
            converted(bgra@, PixelFormat::Rgb),
            width,
            height,
            spec_png_settings(compression).0,
            spec_png_settings(compression).1,
        )),
        compression <= 9 && bgra@.len() == width * height * 4 && (width == 0 || height == 0)
            ==> r matches Err(Error::Encode(_)),
        r matches Ok(png) ==> png@.len() >= 26 && png@.subrange(0, 8) == png_signature()
            && png@.subrange(8, 26) == rgb8_header(width, height),
{
    check_compression(compression)?;
    proof {
        assert(width * height <= width * height * 4);
    }
    let expected = width as usize * height as usize * 4;
    if bgra.len() != expected {
        return Err(
            Error::Invalid(
                InvalidArgument::BufferSize { len: bgra.len(), expected, width, height },
            ),
        );
    }
    let rgb = convert(bgra, PixelFormat::Rgb);
    proof {
        assert((bgra@.len() / 4) * 3 == width * height * 3);
    }
    let (level, filter) = png_settings(compression);
    encoded_png(encode_rgb8(rgb.as_slice(), width, height, level, filter))
}

/// Alpha never reaches the PNG: two frames that differ only in their alpha bytes have the
/// same RGB pixels, so `encode_png` (which encodes exactly those) gives both the same bytes.
pub proof fn law_alpha_is_dropped(a: Seq<u8>, b: Seq<u8>)
    requires
        a.len() == b.len(),
        forall|i: int| 0 <= i < a.len() && i % 4 != 3 ==> a[i] == b[i],
    ensures
        converted(a, PixelFormat::Rgb) == converted(b, PixelFormat::Rgb),
{
    let ra = converted(a, PixelFormat::Rgb);
    let rb = converted(b, PixelFormat::Rgb);
    assert forall|i: int| 0 <= i < ra.len() implies ra[i] == rb[i] by {
        let p = i / 3;
        let c = i % 3;
        assert(0 <= p < a.len() / 4);
        assert(4 * p + 2 - c < a.len());
        assert((4 * p + 2 - c) % 4 == 2 - c);
    }
    assert(ra =~= rb);
}

} // verus!
