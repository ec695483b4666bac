use vstd::prelude::*;
use vstd::string::StrSliceExecFns;

use crate::error::{Error, InvalidArgument};

verus! {

/// Byte layouts a captured frame can be handed out in.
#[derive(Debug, Clone, Copy, PartialEq, Eq, Structural)]
pub enum PixelFormat {
    Bgra,
    Rgba,
    Rgb,
    Bgr,
}

/// `c` with the ASCII letters `A`..`Z` mapped to `a`..`z`, everything else unchanged.
pub open spec fn ascii_lower_char(c: char) -> char {
    if 65 <= (c as u32) && (c as u32) <= 90 {
        ((c as u32) + 32) as char
    } else {
        c
    }
}

/// ASCII lower case of a whole string.
pub open spec fn ascii_lower(s: Seq<char>) -> Seq<char> {
    s.map_values(|c: char| ascii_lower_char(c))
}

/// The name a pixel format is known by.
pub open spec fn format_name(f: PixelFormat) -> Seq<char> {
    match f {
        PixelFormat::Bgra => seq!['b', 'g', 'r', 'a'],
        PixelFormat::Rgba => seq!['r', 'g', 'b', 'a'],
        PixelFormat::Rgb => seq!['r', 'g', 'b'],
        PixelFormat::Bgr => seq!['b', 'g', 'r'],
    }
}

/// The format a name denotes, compared without regard to ASCII case.
pub open spec fn spec_parse(s: Seq<char>) -> Option<PixelFormat> {
    let l = ascii_lower(s);
    if l == format_name(PixelFormat::Bgra) {
        Some(PixelFormat::Bgra)
    } else if l == format_name(PixelFormat::Rgba) {
        Some(PixelFormat::Rgba)
    } else if l == format_name(PixelFormat::Rgb) {
        Some(PixelFormat::Rgb)
    } else if l == format_name(PixelFormat::Bgr) {
        Some(PixelFormat::Bgr)
    } else {
        None
    }
}

/// Bytes per pixel of a format.
pub open spec fn spec_channels(f: PixelFormat) -> nat {
    match f {
        PixelFormat::Bgra | PixelFormat::Rgba => 4,
        PixelFormat::Rgb | PixelFormat::Bgr => 3,
    }
}

/// `str::to_ascii_lowercase`: std documents that it maps `A`..`Z` to `a`..`z` and leaves
/// every other character unchanged; this contract claims exactly that of the result.
#[verifier::external_body]
fn to_ascii_lowercase(s: &str) -> (r: String)
    ensures
        r@ == ascii_lower(s@),
{
    s.to_ascii_lowercase()
}

/// Whether two strings hold the same characters.
pub(crate) fn same_chars(a: &str, b: &str) -> (r: bool)
    ensures
        r == (a@ == b@),
{
    let n = a.unicode_len();
    if n != b.unicode_len() {
        return false;
    }
    let mut i: usize = 0;
    while i < n
        invariant
            n == a@.len(),
            n == b@.len(),
            i <= n,
            forall|j: int| 0 <= j < i ==> a@[j] == b@[j],
        decreases n - i,
    {
        if a.get_char(i) != b.get_char(i) {
            return false;
        }
        i = i + 1;
    }
    assert(a@ =~= b@);
    true
}

impl PixelFormat {
    /// Parses a format name (`bgra`, `rgba`, `rgb`, `bgr`), ignoring ASCII case.
    pub fn parse(s: &str) -> (r: Result<Self, Error>)
        ensures
            match spec_parse(s@) {
                Some(f) => r == Ok::<PixelFormat, Error>(f),
                None => r matches Err(Error::Invalid(InvalidArgument::PixelFormat(name)))
                    && name@ == ascii_lower(s@),
            },
    {
        let lower = to_ascii_lowercase(s);
        proof {
            reveal_strlit("bgra");
            reveal_strlit("rgba");
            reveal_strlit("rgb");
            reveal_strlit("bgr");
            assert("bgra"@ =~= format_name(PixelFormat::Bgra));
            assert("rgba"@ =~= format_name(PixelFormat::Rgba));
            assert("rgb"@ =~= format_name(PixelFormat::Rgb));
            assert("bgr"@ =~= format_name(PixelFormat::Bgr));
        }
        if same_chars(lower.as_str(), "bgra") {
            Ok(PixelFormat::Bgra)
        } else if same_chars(lower.as_str(), "rgba") {
            Ok(PixelFormat::Rgba)
        } else if same_chars(lower.as_str(), "rgb") {
            Ok(PixelFormat::Rgb)
        } else if same_chars(lower.as_str(), "bgr") {
            Ok(PixelFormat::Bgr)
        } else {
            Err(Error::Invalid(InvalidArgument::PixelFormat(lower)))
        }
    }

    /// Bytes per pixel: 4 for `bgra`/`rgba`, 3 for `rgb`/`bgr`.
    pub fn channels(self) -> (n: usize)
        ensures
            n == spec_channels(self),
    {
        match self {
            PixelFormat::Bgra | PixelFormat::Rgba => 4,
            PixelFormat::Rgb | PixelFormat::Bgr => 3,
        }
    }
}


/// `b` with the first and third byte of every whole 4-byte pixel exchanged; the bytes
/// of a trailing partial pixel are kept as they are.
pub open spec fn swap_red_blue(b: Seq<u8>) -> Seq<u8> {
    Seq::new(
        b.len(),
        |i: int|
            if i < (b.len() / 4) * 4 {
                if i % 4 == 0 {
                    b[i + 2]
                } else if i % 4 == 2 {
                    b[i - 2]
                } else {
                    b[i]
                }
            } else {
                b[i]
            },
    )
}

/// The first three bytes of every whole 4-byte pixel of `b`, in reverse order when
/// `reversed` (B G R A becomes R G B) and in their own order otherwise (B G R); the
/// alpha byte and a trailing partial pixel are dropped.
pub open spec fn drop_alpha(b: Seq<u8>, reversed: bool) -> Seq<u8> {
    Seq::new(
        (b.len() / 4) * 3,
        |i: int|
            if reversed {
                b[4 * (i / 3) + 2 - i % 3]
            } else {
                b[4 * (i / 3) + i % 3]
            },
    )
}

/// Tightly packed BGRA bytes in the layout of `fmt`.
pub open spec fn converted(b: Seq<u8>, fmt: PixelFormat) -> Seq<u8> {
    match fmt {
        PixelFormat::Bgra => b,
        PixelFormat::Rgba => swap_red_blue(b),
        PixelFormat::Rgb => drop_alpha(b, true),
        PixelFormat::Bgr => drop_alpha(b, false),
    }
}

proof fn lemma_pixel_in_bounds(k: int, len: int)
    requires
        0 <= k < len / 4,
        0 <= len,
    ensures
        4 * k + 4 <= len,
        4 * k + 4 <= (len / 4) * 4,
{
}

proof fn lemma_index_of_pixel_byte(k: int, j: int)
    requires
        0 <= k,
        0 <= j < 3,
    ensures
        (3 * k + j) / 3 == k,
        (3 * k + j) % 3 == j,
{
}

proof fn lemma_pixel_of_byte(i: int)
    requires
        0 <= i,
    ensures
        i % 4 == i - 4 * (i / 4),
        0 <= i % 4 < 4,
{
}

/// Copies the bytes of `b` into a new vector.
fn copy_bytes(b: &[u8]) -> (out: Vec<u8>)
    ensures
        out@ == b@,
{
    vstd::slice::slice_to_vec(b)
}

/// Converts tightly packed BGRA bytes into the requested layout.
pub fn convert(bgra: &[u8], fmt: PixelFormat) -> (out: Vec<u8>)
    ensures
        out@ == converted(bgra@, fmt),
{
    let len = bgra.len();
    let n = len / 4;
    match fmt {
        PixelFormat::Bgra => copy_bytes(bgra),
        PixelFormat::Rgba => {
            let mut out = copy_bytes(bgra);
            let mut k: usize = 0;
            while k < n
                invariant
                    n == len / 4,
                    len == bgra@.len(),
                    out@.len() == len,
                    k <= n,
                    forall|i: int|
                        0 <= i < len ==> #[trigger] out@[i] == (if i < 4 * k {
                            swap_red_blue(bgra@)[i]
                        } else {
                            bgra@[i]
                        }),
                decreases n - k,
            {
                proof {
                    lemma_pixel_in_bounds(k as int, len as int);
                }
                let base = 4 * k;
                let blue = out[base];
                let red = out[base + 2];
                out.set(base, red);
                out.set(base + 2, blue);
                proof {
                    assert forall|i: int| 0 <= i < len implies #[trigger] out@[i] == (if i < 4 * (
                    k + 1) {
                        swap_red_blue(bgra@)[i]
                    } else {
                        bgra@[i]
                    }) by {
                        lemma_pixel_of_byte(i);
                        if 4 * k <= i < 4 * k + 4 {
                            assert(i / 4 == k);
                        }
                    }
                }
                k = k + 1;
            }
            assert(out@ =~= swap_red_blue(bgra@)) by {
                assert forall|i: int| 0 <= i < len implies out@[i] == swap_red_blue(bgra@)[i] by {
                    if i >= 4 * n {
                        assert(!(i < (len / 4) * 4));
                    }
                }
            }
            out
        },
        PixelFormat::Rgb | PixelFormat::Bgr => {
            let reversed = match fmt {
                PixelFormat::Rgb => true,
                _ => false,
            };
            let mut out: Vec<u8> = Vec::with_capacity(n * 3);
            let mut k: usize = 0;
            while k < n
                invariant
                    n == len / 4,
                    len == bgra@.len(),
                    out@.len() == 3 * k,
                    k <= n,
                    forall|i: int|
                        0 <= i < 3 * k ==> #[trigger] out@[i] == drop_alpha(bgra@, reversed)[i],
                decreases n - k,
            {
                proof {
                    lemma_pixel_in_bounds(k as int, len as int);
                    lemma_index_of_pixel_byte(k as int, 0);
                    lemma_index_of_pixel_byte(k as int, 1);
                    lemma_index_of_pixel_byte(k as int, 2);
                }
                let base = 4 * k;
                if reversed {
                    out.push(bgra[base + 2]);
                    out.push(bgra[base + 1]);
                    out.push(bgra[base]);
                } else {
                    out.push(bgra[base]);
                    out.push(bgra[base + 1]);
                    out.push(bgra[base + 2]);
                }
                k = k + 1;
            }
            assert(out@ =~= drop_alpha(bgra@, reversed));
            out
        },
    }
}


/// `rows` rows of `row_bytes` bytes each, row `y` taken from `src` at offset
/// `y * pitch`: the tightly packed image inside a buffer with row stride `pitch`.
pub open spec fn unpacked(src: Seq<u8>, pitch: int, row_bytes: int, rows: int) -> Seq<u8> {
    Seq::new(
        (row_bytes * rows) as nat,
        |i: int| src[(i / row_bytes) * pitch + i % row_bytes],
    )
}

/// Byte `x` of row `y` in a buffer whose rows start `stride` bytes apart.
pub open spec fn pixel_byte(s: Seq<u8>, stride: int, y: int, x: int) -> u8 {
    s[y * stride + x]
}

proof fn lemma_unpacked_grows(src: Seq<u8>, pitch: int, row_bytes: int, y: int)
    requires
        0 <= row_bytes,
        0 <= y,
        0 <= pitch,
        y * pitch + row_bytes <= src.len(),
    ensures
        unpacked(src, pitch, row_bytes, y + 1) =~= unpacked(src, pitch, row_bytes, y) + src.subrange(
            y * pitch,
            y * pitch + row_bytes,
        ),
{
    assert(row_bytes * (y + 1) == row_bytes * y + row_bytes) by (nonlinear_arith);
    assert(0 <= row_bytes * y) by (nonlinear_arith)
        requires
            0 <= row_bytes,
            0 <= y,
    ;
    if row_bytes > 0 {
        assert forall|i: int|
            row_bytes * y <= i < row_bytes * y + row_bytes implies #[trigger] (i / row_bytes) == y
            && i % row_bytes == i - row_bytes * y by {
            assert(i == y * row_bytes + (i - row_bytes * y)) by (nonlinear_arith);
            vstd::arithmetic::div_mod::lemma_fundamental_div_mod_converse(
                i,
                row_bytes,
                y,
                i - row_bytes * y,
            );
        }
    }
}

proof fn lemma_unpacked_tight(src: Seq<u8>, row_bytes: int, rows: int)
    requires
        0 <= row_bytes,
        0 <= rows,
        row_bytes * rows <= src.len(),
    ensures
        unpacked(src, row_bytes, row_bytes, rows) =~= src.subrange(0, row_bytes * rows),
{
    assert(0 <= row_bytes * rows) by (nonlinear_arith)
        requires
            0 <= row_bytes,
            0 <= rows,
    ;
    assert forall|i: int| 0 <= i < row_bytes * rows implies #[trigger] src[(i / row_bytes)
        * row_bytes + i % row_bytes] == src[i] by {
        vstd::arithmetic::div_mod::lemma_fundamental_div_mod(i, row_bytes);
        assert((i / row_bytes) * row_bytes == row_bytes * (i / row_bytes)) by (nonlinear_arith);
    }
}

/// Copies `height` rows of `width * 4` bytes out of a mapped buffer whose rows start
/// `row_pitch` bytes apart, and packs them tightly.
pub fn unpack_rows(src: &[u8], row_pitch: usize, width: u32, height: u32) -> (out: Vec<u8>)
    requires
        width * 4 * height <= usize::MAX,
        width * 4 <= usize::MAX,
        height == 0 || (height - 1) * row_pitch + width * 4 <= src@.len(),
    ensures
        out@ == unpacked(src@, row_pitch as int, width * 4, height as int),
{
    let row_bytes = width as usize * 4;
    let len = src.len();
    if row_pitch == row_bytes {
        proof {
            assert(row_bytes * height <= src@.len()) by (nonlinear_arith)
                requires
                    height == 0 || (height - 1) * row_bytes + row_bytes <= src@.len(),
                    row_bytes >= 0,
            ;
            lemma_unpacked_tight(src@, row_bytes as int, height as int);
        }
        return copy_bytes(vstd::slice::slice_subrange(src, 0, row_bytes * height as usize));
    }
    let mut out: Vec<u8> = Vec::with_capacity(row_bytes * height as usize);
    let mut y: usize = 0;
    while y < height as usize
        invariant
            row_bytes == width * 4,
            len == src@.len(),
            height == 0 || (height - 1) * row_pitch + row_bytes <= src@.len(),
            y <= height,
            out@ == unpacked(src@, row_pitch as int, row_bytes as int, y as int),
        decreases height - y,
    {
        proof {
            assert(y * row_pitch + row_bytes <= src@.len()) by (nonlinear_arith)
                requires
                    y < height,
                    (height - 1) * row_pitch + row_bytes <= src@.len(),
            ;
            lemma_unpacked_grows(src@, row_pitch as int, row_bytes as int, y as int);
        }
        let start = y * row_pitch;
        let mut row = copy_bytes(vstd::slice::slice_subrange(src, start, start + row_bytes));
        out.append(&mut row);
        y = y + 1;
    }
    out
}

/// A tightly packed BGRA frame (row stride == width * 4).
#[derive(Debug, Clone)]
pub struct Frame {
    pub bgra: Vec<u8>,
    pub width: u32,
    pub height: u32,
}

impl Frame {
    /// Whether the buffer holds exactly `width * height` pixels of 4 bytes.
    pub open spec fn is_packed(&self) -> bool {
        self.bgra@.len() == self.width * self.height * 4
    }

    /// The frame's pixels in the layout of `fmt`.
    pub fn to_format(&self, fmt: PixelFormat) -> (out: Vec<u8>)
        ensures
            out@ == converted(self.bgra@, fmt),
    {
        convert(self.bgra.as_slice(), fmt)
    }
}

/// Every whole pixel keeps its position: for pixel `k`, RGBA output bytes `4k..4k+4` are
/// input bytes `4k+2, 4k+1, 4k, 4k+3` (whatever the alpha), RGB output bytes `3k..3k+3` are
/// input bytes `4k+2, 4k+1, 4k`, BGR output bytes are input bytes `4k, 4k+1, 4k+2`, and BGRA
/// output is the input. The four-byte layouts keep a trailing partial pixel unchanged.
pub proof fn law_pixel_layouts(b: Seq<u8>, k: int)
    requires
        0 <= k < b.len() / 4,
    ensures
        converted(b, PixelFormat::Bgra) == b,
        converted(b, PixelFormat::Rgba).len() == b.len(),
        converted(b, PixelFormat::Rgba)[4 * k] == b[4 * k + 2],
        converted(b, PixelFormat::Rgba)[4 * k + 1] == b[4 * k + 1],
        converted(b, PixelFormat::Rgba)[4 * k + 2] == b[4 * k],
        converted(b, PixelFormat::Rgba)[4 * k + 3] == b[4 * k + 3],
        forall|i: int|
            (b.len() / 4) * 4 <= i < b.len() ==> #[trigger] converted(b, PixelFormat::Rgba)[i]
                == b[i],
        converted(b, PixelFormat::Rgb).len() == (b.len() / 4) * 3,
        converted(b, PixelFormat::Rgb)[3 * k] == b[4 * k + 2],
        converted(b, PixelFormat::Rgb)[3 * k + 1] == b[4 * k + 1],
        converted(b, PixelFormat::Rgb)[3 * k + 2] == b[4 * k],
        converted(b, PixelFormat::Bgr).len() == (b.len() / 4) * 3,
        converted(b, PixelFormat::Bgr)[3 * k] == b[4 * k],
        converted(b, PixelFormat::Bgr)[3 * k + 1] == b[4 * k + 1],
        converted(b, PixelFormat::Bgr)[3 * k + 2] == b[4 * k + 2],
{
    lemma_pixel_in_bounds(k, b.len() as int);
    lemma_index_of_pixel_byte(k, 0);
    lemma_index_of_pixel_byte(k, 1);
    lemma_index_of_pixel_byte(k, 2);
    assert((4 * k) % 4 == 0 && (4 * k + 1) % 4 == 1 && (4 * k + 2) % 4 == 2 && (4 * k + 3) % 4 == 3);
    assert(3 * k + 3 <= (b.len() / 4) * 3);
}

/// Converting to RGBA exchanges red and blue, so converting the result again gives back
/// the original bytes.
pub proof fn law_rgba_swap_is_involution(b: Seq<u8>)
    ensures
        swap_red_blue(swap_red_blue(b)) == b,
{
    let s = swap_red_blue(b);
    assert forall|i: int| 0 <= i < b.len() implies #[trigger] swap_red_blue(s)[i] == b[i] by {
        lemma_pixel_of_byte(i);
        if i < (b.len() / 4) * 4 {
            if i % 4 == 0 {
                assert((i + 2) % 4 == 2 && i + 2 < (b.len() / 4) * 4);
            } else if i % 4 == 2 {
                assert((i - 2) % 4 == 0);
            }
        }
    }
    assert(swap_red_blue(s) =~= b);
}

/// RGB output is BGR output with the three bytes of every pixel in reverse order, and both
/// hold three bytes for every whole pixel of the input.
pub proof fn law_rgb_is_reversed_bgr(b: Seq<u8>, p: int, c: int)
    requires
        0 <= p < b.len() / 4,
        0 <= c < 3,
    ensures
        drop_alpha(b, true).len() == drop_alpha(b, false).len(),
        drop_alpha(b, true).len() == (b.len() / 4) * 3,
        drop_alpha(b, true)[3 * p + c] == drop_alpha(b, false)[3 * p + 2 - c],
        drop_alpha(b, true)[3 * p + c] == b[4 * p + 2 - c],
{
    lemma_index_of_pixel_byte(p, c);
    lemma_index_of_pixel_byte(p, 2 - c);
    assert(3 * p + 3 <= (b.len() / 4) * 3);
}

/// Every layout holds `channels` bytes per whole input pixel; the four-byte layouts also
/// keep a trailing partial pixel, so for a buffer of whole pixels the output always has
/// `pixels * channels` bytes.
pub proof fn law_converted_len(b: Seq<u8>, fmt: PixelFormat)
    ensures
        spec_channels(fmt) == 4 ==> converted(b, fmt).len() == b.len(),
        spec_channels(fmt) == 3 ==> converted(b, fmt).len() == (b.len() / 4) * 3,
        b.len() % 4 == 0 ==> converted(b, fmt).len() == (b.len() / 4) * spec_channels(fmt),
{
}

/// Byte `x` of row `y` of the packed image is byte `x` of row `y` of the source buffer.
pub proof fn law_unpacked_rows(src: Seq<u8>, pitch: int, row_bytes: int, rows: int, y: int, x: int)
    requires
        0 <= y < rows,
        0 <= x < row_bytes,
    ensures
        unpacked(src, pitch, row_bytes, rows).len() == row_bytes * rows,
        unpacked(src, pitch, row_bytes, rows)[y * row_bytes + x] == pixel_byte(src, pitch, y, x),
{
    assert(0 <= y * row_bytes + x < row_bytes * rows) by (nonlinear_arith)
        requires
            0 <= y < rows,
            0 <= x < row_bytes,
    ;
    vstd::arithmetic::div_mod::lemma_fundamental_div_mod_converse(y * row_bytes + x, row_bytes, y, x);
}

/// When the row pitch equals the row length the buffer is already packed: unpacking
/// gives back its first `row_bytes * rows` bytes unchanged.
pub proof fn law_tight_pitch_is_identity(src: Seq<u8>, row_bytes: int, rows: int)
    requires
        0 <= row_bytes,
        0 <= rows,
        row_bytes * rows <= src.len(),
    ensures
        unpacked(src, row_bytes, row_bytes, rows) == src.subrange(0, row_bytes * rows),
{
    lemma_unpacked_tight(src, row_bytes, rows);
}

/// A packed frame converts to exactly `width * height * channels` bytes.
pub proof fn law_packed_frame_size(f: Frame, fmt: PixelFormat)
    requires
        f.is_packed(),
    ensures
        converted(f.bgra@, fmt).len() == f.width * f.height * spec_channels(fmt),
{
    let n = f.width * f.height;
    assert(f.bgra@.len() == n * 4);
    assert((n * 4) / 4 == n);
    assert((n * 4) % 4 == 0);
    law_converted_len(f.bgra@, fmt);
    assert(n * 3 == f.width * f.height * 3) by (nonlinear_arith)
        requires n == f.width * f.height;
    assert(n * 4 == f.width * f.height * 4) by (nonlinear_arith)
        requires n == f.width * f.height;
}

/// Format names parse back to their format, in any ASCII case of the name.
pub proof fn law_parse_names(f: PixelFormat)
    ensures
        spec_parse(format_name(f)) == Some(f),
        spec_channels(f) == 3 || spec_channels(f) == 4,
{
    let n = format_name(f);
    assert(ascii_lower(n) =~= n);
    assert(format_name(PixelFormat::Bgra) != format_name(PixelFormat::Rgba));
    assert(format_name(PixelFormat::Bgra)[0] != format_name(PixelFormat::Rgba)[0]);
    assert(format_name(PixelFormat::Rgb)[0] != format_name(PixelFormat::Bgra)[0]);
    assert(format_name(PixelFormat::Bgr).len() != format_name(PixelFormat::Bgra).len());
    assert(format_name(PixelFormat::Rgb).len() != format_name(PixelFormat::Rgba).len());
}

/// Parsing ignores ASCII case: a name and its lower-case form denote the same format.
pub proof fn law_parse_ignores_case(s: Seq<char>)
    ensures
        spec_parse(s) == spec_parse(ascii_lower(s)),
{
    assert(ascii_lower(ascii_lower(s)) =~= ascii_lower(s));
}

} // verus!
