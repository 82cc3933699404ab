//! Device-independent bitmaps, the form in which Windows hands out clipboard
//! images, and their way to PNG.
use vstd::prelude::*;

verus! {

/// The compression code of plain BGR or BGRX pixels.
pub const BI_RGB: u32 = 0;

/// The compression code of pixels that are laid out by colour masks.
pub const BI_BITFIELDS: u32 = 3;

/// The largest width and the largest height that is read.
pub const MAX_DIB_DIMENSION: u32 = 30_000;

/// The largest number of bytes that the pixels of an image may take.
pub const MAX_DIB_PIXELS_BYTES: u64 = 268_435_456;

/// The little-endian 16-bit number at `at`.
pub open spec fn le_u16(s: Seq<u8>, at: int) -> int {
    s[at] + 256 * s[at + 1]
}

/// The little-endian 32-bit number at `at`.
pub open spec fn le_u32(s: Seq<u8>, at: int) -> int {
    s[at] + 256 * s[at + 1] + 65_536 * s[at + 2] + 16_777_216 * s[at + 3]
}

/// The little-endian 32-bit two's complement number at `at`.
pub open spec fn le_i32(s: Seq<u8>, at: int) -> int {
    let raw = le_u32(s, at);
    if raw < 0x8000_0000 {
        raw
    } else {
        raw - 0x1_0000_0000
    }
}

/// Where the pixels of a bitmap lie, and how.
#[derive(Debug, Clone, Copy, PartialEq, Eq, Structural)]
pub struct DibLayout {
    /// The number of pixels in a row.
    pub width: u32,
    /// The number of rows.
    pub height: u32,
    /// Whether the first row in memory is the lowest one of the image.
    pub bottom_up: bool,
    /// The number of bytes of a pixel: blue, green, red and, with four, alpha.
    pub pixel_bytes: u64,
    /// Whether the fourth byte of a pixel is defined to be its alpha.
    pub has_alpha: bool,
    /// The number of bytes from one row to the next.
    pub stride: u64,
    /// The position of the first row in memory.
    pub pixel_start: u64,
}

/// The header's size as the header gives it.
pub open spec fn header_size(s: Seq<u8>) -> int {
    le_u32(s, 0)
}

/// The width as the header gives it.
pub open spec fn header_width(s: Seq<u8>) -> int {
    le_i32(s, 4)
}

/// The number of rows: the header's height without its sign.
pub open spec fn header_rows(s: Seq<u8>) -> int {
    if le_i32(s, 8) < 0 {
        -le_i32(s, 8)
    } else {
        le_i32(s, 8)
    }
}

/// The number of bits of a pixel.
pub open spec fn header_bits(s: Seq<u8>) -> int {
    le_u16(s, 14)
}

/// The compression code.
pub open spec fn header_compression(s: Seq<u8>) -> int {
    le_u32(s, 16)
}

/// Whether the header is whole and its image has a size that is read.
pub open spec fn header_readable(s: Seq<u8>) -> bool {
    &&& s.len() >= 40
    &&& header_size(s) >= 40
    &&& 0 < header_width(s) <= MAX_DIB_DIMENSION
    &&& 0 < header_rows(s) <= MAX_DIB_DIMENSION
    &&& header_width(s) * header_rows(s) * 4 <= MAX_DIB_PIXELS_BYTES
}

/// Whether the pixels are in one of the forms that are read: 24 or 32 bits
/// without masks, or 32 bits with the masks of blue, green, red.
pub open spec fn pixels_readable(s: Seq<u8>) -> bool {
    ||| header_bits(s) == 24 && header_compression(s) == BI_RGB
    ||| header_bits(s) == 32 && header_compression(s) == BI_RGB
    ||| {
        &&& header_bits(s) == 32
        &&& header_compression(s) == BI_BITFIELDS
        &&& s.len() >= 52
        &&& le_u32(s, 40) == 0x00FF_0000
        &&& le_u32(s, 44) == 0x0000_FF00
        &&& le_u32(s, 48) == 0x0000_00FF
    }
}

/// The number of bytes from one row to the next: a row's bits, rounded up to
/// whole groups of four bytes.
pub open spec fn row_stride(bits: int, width: int) -> int {
    (bits * width + 31) / 32 * 4
}

/// The number of bytes that all rows take.
pub open spec fn pixel_array_size(s: Seq<u8>) -> int {
    row_stride(header_bits(s), header_width(s)) * header_rows(s)
}

/// The size of the mask table between header and pixels. A 40-byte header with
/// masks needs it. A longer one embeds the masks, and a table that repeats them
/// is taken to be there where the bytes suffice for it.
pub open spec fn mask_table_size(s: Seq<u8>) -> int {
    if header_compression(s) == BI_BITFIELDS && (header_size(s) == 40 || s.len() >= header_size(s)
        + 12 + pixel_array_size(s)) {
        12
    } else {
        0
    }
}

/// The position of the first row.
pub open spec fn pixel_array_start(s: Seq<u8>) -> int {
    header_size(s) + mask_table_size(s)
}

/// The layout of the bitmap `s`, where it is one that is read and all of its
/// pixels are there.
pub open spec fn layout_of(s: Seq<u8>) -> Option<DibLayout> {
    if header_readable(s) && pixels_readable(s) && pixel_array_start(s) + pixel_array_size(s)
        <= s.len() {
        Some(
            DibLayout {
                width: header_width(s) as u32,
                height: header_rows(s) as u32,
                bottom_up: le_i32(s, 8) > 0,
                pixel_bytes: (header_bits(s) / 8) as u64,
                has_alpha: header_compression(s) == BI_BITFIELDS,
                stride: row_stride(header_bits(s), header_width(s)) as u64,
                pixel_start: pixel_array_start(s) as u64,
            },
        )
    } else {
        None
    }
}

/// The position of the pixel in column `x` of row `y`, counted from the top.
pub open spec fn pixel_offset(layout: DibLayout, x: int, y: int) -> int {
    let row = if layout.bottom_up {
        layout.height - 1 - y
    } else {
        y
    };
    layout.pixel_start + row * layout.stride + x * layout.pixel_bytes
}

/// Whether every pixel is shown opaque: there is no defined alpha, or it is zero
/// throughout, as screenshots leave it.
pub open spec fn shown_opaque(s: Seq<u8>, layout: DibLayout) -> bool {
    ||| !layout.has_alpha
    ||| forall|x: int, y: int|
        0 <= x < layout.width && 0 <= y < layout.height ==> s[#[trigger] pixel_offset(layout, x, y)
            + 3] == 0
}

/// The red, green, blue and alpha of the pixel in column `x` of row `y`.
pub open spec fn pixel_rgba(s: Seq<u8>, layout: DibLayout, x: int, y: int) -> Seq<u8> {
    let at = pixel_offset(layout, x, y);
    seq![
        s[at + 2],
        s[at + 1],
        s[at],
        if shown_opaque(s, layout) {
            255
        } else {
            s[at + 3]
        },
    ]
}

/// The first `n` pixels of row `y`, from left to right.
pub open spec fn row_rgba(s: Seq<u8>, layout: DibLayout, y: int, n: nat) -> Seq<u8>
    decreases n,
{
    if n == 0 {
        Seq::empty()
    } else {
        row_rgba(s, layout, y, (n - 1) as nat) + pixel_rgba(s, layout, n - 1, y)
    }
}

/// The first `n` rows, from top to bottom.
pub open spec fn rows_rgba(s: Seq<u8>, layout: DibLayout, n: nat) -> Seq<u8>
    decreases n,
{
    if n == 0 {
        Seq::empty()
    } else {
        rows_rgba(s, layout, (n - 1) as nat) + row_rgba(s, layout, n - 1, layout.width as nat)
    }
}

/// All pixels of the bitmap `s`, row by row from the top left.
pub open spec fn dib_rgba(s: Seq<u8>, layout: DibLayout) -> Seq<u8> {
    rows_rgba(s, layout, layout.height as nat)
}

proof fn lemma_row_len(s: Seq<u8>, layout: DibLayout, y: int, n: nat)
    ensures
        row_rgba(s, layout, y, n).len() == 4 * n,
    decreases n,
{
    if n > 0 {
        lemma_row_len(s, layout, y, (n - 1) as nat);
    }
}

proof fn lemma_rows_len(s: Seq<u8>, layout: DibLayout, n: nat)
    ensures
        rows_rgba(s, layout, n).len() == 4 * (n * layout.width),
    decreases n,
{
    if n > 0 {
        lemma_rows_len(s, layout, (n - 1) as nat);
        lemma_row_len(s, layout, n - 1, layout.width as nat);
        assert((n - 1) * layout.width + layout.width == n * layout.width) by (nonlinear_arith)
            requires
                n > 0,
        ;
    } else {
        assert(n * layout.width == 0) by (nonlinear_arith)
            requires
                n == 0,
        ;
    }
}

proof fn lemma_row_pixel(s: Seq<u8>, layout: DibLayout, y: int, n: nat, x: int)
    requires
        0 <= x < n,
    ensures
        row_rgba(s, layout, y, n).subrange(4 * x, 4 * x + 4) == pixel_rgba(s, layout, x, y),
        row_rgba(s, layout, y, n).len() == 4 * n,
    decreases n,
{
    lemma_row_len(s, layout, y, n);
    lemma_row_len(s, layout, y, (n - 1) as nat);
    let before = row_rgba(s, layout, y, (n - 1) as nat);
    if x < n - 1 {
        lemma_row_pixel(s, layout, y, (n - 1) as nat, x);
        assert(row_rgba(s, layout, y, n).subrange(4 * x, 4 * x + 4) =~= before.subrange(
            4 * x,
            4 * x + 4,
        ));
    } else {
        assert(row_rgba(s, layout, y, n).subrange(4 * x, 4 * x + 4) =~= pixel_rgba(
            s,
            layout,
            x,
            y,
        ));
    }
}

proof fn lemma_rows_pixel(s: Seq<u8>, layout: DibLayout, n: nat, x: int, y: int)
    requires
        0 <= x < layout.width,
        0 <= y < n,
    ensures
        0 <= 4 * (y * layout.width + x),
        4 * (y * layout.width + x) + 4 <= rows_rgba(s, layout, n).len(),
        rows_rgba(s, layout, n).subrange(
            4 * (y * layout.width + x),
            4 * (y * layout.width + x) + 4,
        ) == pixel_rgba(s, layout, x, y),
    decreases n,
{
    let w = layout.width as int;
    let at = 4 * (y * w + x);
    let before = rows_rgba(s, layout, (n - 1) as nat);
    let row = row_rgba(s, layout, n - 1, layout.width as nat);
    lemma_rows_len(s, layout, (n - 1) as nat);
    lemma_rows_len(s, layout, n);
    lemma_row_len(s, layout, n - 1, layout.width as nat);
    assert(0 <= y * w) by (nonlinear_arith)
        requires
            0 <= y,
            0 <= w,
    ;
    if y < n - 1 {
        lemma_rows_pixel(s, layout, (n - 1) as nat, x, y);
        assert(rows_rgba(s, layout, n).subrange(at, at + 4) =~= before.subrange(at, at + 4));
    } else {
        assert(y * w == (n - 1) * w);
        lemma_row_pixel(s, layout, y, layout.width as nat, x);
        assert(rows_rgba(s, layout, n).subrange(at, at + 4) =~= row.subrange(4 * x, 4 * x + 4));
    }
}

/// A converted bitmap has four bytes for each of its pixels.
pub proof fn law_dib_rgba_length(s: Seq<u8>, layout: DibLayout)
    ensures
        dib_rgba(s, layout).len() == 4 * (layout.width * layout.height),
{
    lemma_rows_len(s, layout, layout.height as nat);
    assert(layout.height * layout.width == layout.width * layout.height) by (nonlinear_arith);
}

/// The pixel in column `x` of row `y`, counted from the top left, stands at place
/// `y * width + x` of a converted bitmap, whatever the order of its rows in memory.
pub proof fn law_dib_rgba_pixel(s: Seq<u8>, layout: DibLayout, x: int, y: int)
    requires
        0 <= x < layout.width,
        0 <= y < layout.height,
    ensures
        0 <= 4 * (y * layout.width + x),
        4 * (y * layout.width + x) + 4 <= dib_rgba(s, layout).len(),
        dib_rgba(s, layout).subrange(
            4 * (y * layout.width + x),
            4 * (y * layout.width + x) + 4,
        ) == pixel_rgba(s, layout, x, y),
{
    lemma_rows_pixel(s, layout, layout.height as nat, x, y);
}

fn read_u16(dib: &[u8], at: usize) -> (res: u16)
    requires
        at + 2 <= dib@.len(),
    ensures
        res == le_u16(dib@, at as int),
{
    let total: usize = dib.len();
    dib[at] as u16 + 256 * (dib[at + 1] as u16)
}

fn read_u32(dib: &[u8], at: usize) -> (res: u32)
    requires
        at + 4 <= dib@.len(),
    ensures
        res == le_u32(dib@, at as int),
{
    let total: usize = dib.len();
    dib[at] as u32 + 256 * (dib[at + 1] as u32) + 65_536 * (dib[at + 2] as u32) + 16_777_216 * (
    dib[at + 3] as u32)
}

/// The layout of the bitmap `dib`.
pub fn dib_layout(dib: &[u8]) -> (res: Option<DibLayout>)
    ensures
        res == layout_of(dib@),
{
    let total: u64 = dib.len() as u64;
    if total < 40 {
        return None;
    }
    let size = read_u32(dib, 0);
    let width = read_u32(dib, 4);
    let height_raw = read_u32(dib, 8);
    let bits = read_u16(dib, 14);
    let compression = read_u32(dib, 16);
    if size < 40 || width == 0 || width > MAX_DIB_DIMENSION {
        return None;
    }
    let bottom_up = height_raw < 0x8000_0000;
    let height: u32 = if bottom_up {
        height_raw
    } else {
        0xFFFF_FFFF - height_raw + 1
    };
    if height == 0 || height > MAX_DIB_DIMENSION {
        return None;
    }
    assert(width * height <= 30_000 * 30_000) by (nonlinear_arith)
        requires
            width <= 30_000,
            height <= 30_000,
    ;
    let area: u64 = width as u64 * height as u64;
    if area * 4 > MAX_DIB_PIXELS_BYTES {
        return None;
    }
    let pixel_bytes: u64 = if bits == 24 && compression == BI_RGB {
        3
    } else if bits == 32 && compression == BI_RGB {
        4
    } else if bits == 32 && compression == BI_BITFIELDS {
        if total < 52 || read_u32(dib, 40) != 0x00FF_0000 || read_u32(dib, 44) != 0x0000_FF00
            || read_u32(dib, 48) != 0x0000_00FF {
            return None;
        }
        4
    } else {
        return None;
    };
    assert(bits * width <= 32 * 30_000) by (nonlinear_arith)
        requires
            bits <= 32,
            width <= 30_000,
    ;
    let stride: u64 = (bits as u64 * width as u64 + 31) / 32 * 4;
    assert(stride * height <= 120_004 * 30_000) by (nonlinear_arith)
        requires
            stride <= 120_004,
            height <= 30_000,
    ;
    let pixels: u64 = stride * height as u64;
    let masks: u64 = if compression == BI_BITFIELDS && (size == 40 || total >= size as u64 + 12
        + pixels) {
        12
    } else {
        0
    };
    let pixel_start: u64 = size as u64 + masks;
    if total < pixel_start + pixels {
        return None;
    }
    Some(
        DibLayout {
            width,
            height,
            bottom_up,
            pixel_bytes,
            has_alpha: compression == BI_BITFIELDS,
            stride,
            pixel_start,
        },
    )
}

/// The pixels of a layout lie within the bitmap.
proof fn lemma_pixel_in_bounds(s: Seq<u8>, layout: DibLayout, x: int, y: int)
    requires
        layout_of(s) == Some(layout),
        0 <= x < layout.width,
        0 <= y < layout.height,
    ensures
        0 <= pixel_offset(layout, x, y),
        pixel_offset(layout, x, y) + layout.pixel_bytes <= s.len(),
{
    let w = layout.width as int;
    let h = layout.height as int;
    let stride = layout.stride as int;
    let row = if layout.bottom_up {
        h - 1 - y
    } else {
        y
    };
    assert(header_bits(s) * w <= 32 * 30_000) by (nonlinear_arith)
        requires
            0 <= header_bits(s) <= 32,
            0 <= w <= 30_000,
    ;
    assert(header_bits(s) * w == (if layout.pixel_bytes == 3 {
        24 * w
    } else {
        32 * w
    }));
    if layout.pixel_bytes == 3 {
        assert(x * layout.pixel_bytes == 3 * x) by (nonlinear_arith)
            requires
                layout.pixel_bytes == 3,
        ;
    } else {
        assert(x * layout.pixel_bytes == 4 * x) by (nonlinear_arith)
            requires
                layout.pixel_bytes == 4,
        ;
    }
    assert(x * layout.pixel_bytes + layout.pixel_bytes <= stride);
    assert(0 <= row * stride && row * stride + stride <= h * stride) by (nonlinear_arith)
        requires
            0 <= row < h,
            0 <= stride,
    ;
    assert(stride * h == h * stride) by (nonlinear_arith);
    assert(0 <= x * layout.pixel_bytes);
}

fn offset_of(dib: &[u8], layout: &DibLayout, x: u32, y: u32) -> (res: usize)
    requires
        layout_of(dib@) == Some(*layout),
        x < layout.width,
        y < layout.height,
    ensures
        res == pixel_offset(*layout, x as int, y as int),
        res + layout.pixel_bytes <= dib@.len(),
{
    proof {
        lemma_pixel_in_bounds(dib@, *layout, x as int, y as int);
    }
    let total: usize = dib.len();
    let row: u64 = if layout.bottom_up {
        layout.height as u64 - 1 - y as u64
    } else {
        y as u64
    };
    assert(0 <= row * layout.stride) by (nonlinear_arith)
        requires
            0 <= row,
            0 <= layout.stride,
    ;
    assert(0 <= x * layout.pixel_bytes) by (nonlinear_arith)
        requires
            0 <= x,
            0 <= layout.pixel_bytes,
    ;
    (layout.pixel_start + row * layout.stride + x as u64 * layout.pixel_bytes) as usize
}

/// Whether the fourth byte of every pixel is zero.
fn alpha_is_zero(dib: &[u8], layout: &DibLayout) -> (res: bool)
    requires
        layout_of(dib@) == Some(*layout),
        layout.has_alpha,
    ensures
        res == shown_opaque(dib@, *layout),
{
    let mut y: u32 = 0;
    while y < layout.height
        invariant
            layout_of(dib@) == Some(*layout),
            layout.has_alpha,
            y <= layout.height,
            forall|a: int, b: int|
                0 <= a < layout.width && 0 <= b < y ==> dib@[#[trigger] pixel_offset(*layout, a, b)
                    + 3] == 0,
        decreases layout.height - y,
    {
        let mut x: u32 = 0;
        while x < layout.width
            invariant
                layout_of(dib@) == Some(*layout),
                layout.has_alpha,
                y < layout.height,
                x <= layout.width,
                forall|a: int, b: int|
                    0 <= a < layout.width && 0 <= b < y ==> dib@[#[trigger] pixel_offset(
                        *layout,
                        a,
                        b,
                    ) + 3] == 0,
                forall|a: int|
                    0 <= a < x ==> dib@[#[trigger] pixel_offset(*layout, a, y as int) + 3] == 0,
            decreases layout.width - x,
        {
            let at = offset_of(dib, layout, x, y);
            let total: usize = dib.len();
            if dib[at + 3] != 0 {
                return false;
            }
            x = x + 1;
        }
        y = y + 1;
    }
    true
}

/// An image as rows of red, green, blue and alpha bytes, from the top left.
#[derive(Debug, Clone)]
pub struct RgbaImage {
    /// The number of pixels in a row.
    pub width: u32,
    /// The number of rows.
    pub height: u32,
    /// The pixels.
    pub pixels: Vec<u8>,
}

/// The image that the bitmap `dib` shows, where it is one that is read.
pub fn dib_to_rgba(dib: &[u8]) -> (res: Option<RgbaImage>)
    ensures
        res is Some <==> layout_of(dib@) is Some,
        res matches Some(image) ==> {
            &&& image.width == layout_of(dib@).unwrap().width
            &&& image.height == layout_of(dib@).unwrap().height
            &&& image.pixels@ == dib_rgba(dib@, layout_of(dib@).unwrap())
        },
{
    let layout = match dib_layout(dib) {
        Some(layout) => layout,
        None => return None,
    };
    let opaque = !layout.has_alpha || alpha_is_zero(dib, &layout);
    let mut pixels: Vec<u8> = Vec::new();
    let mut y: u32 = 0;
    while y < layout.height
        invariant
            layout_of(dib@) == Some(layout),
            opaque == shown_opaque(dib@, layout),
            y <= layout.height,
            pixels@ == rows_rgba(dib@, layout, y as nat),
        decreases layout.height - y,
    {
        let ghost above = pixels@;
        let mut x: u32 = 0;
        assert(above + row_rgba(dib@, layout, y as int, 0) =~= above);
        while x < layout.width
            invariant
                layout_of(dib@) == Some(layout),
                opaque == shown_opaque(dib@, layout),
                y < layout.height,
                x <= layout.width,
                pixels@ == above + row_rgba(dib@, layout, y as int, x as nat),
            decreases layout.width - x,
        {
            let ghost before = pixels@;
            let at = offset_of(dib, &layout, x, y);
            let total: usize = dib.len();
            pixels.push(dib[at + 2]);
            pixels.push(dib[at + 1]);
            pixels.push(dib[at]);
            let alpha: u8 = if opaque {
                255
            } else {
                dib[at + 3]
            };
            pixels.push(alpha);
            proof {
                let pixel = pixel_rgba(dib@, layout, x as int, y as int);
                assert(pixels@ =~= before + pixel);
                assert(row_rgba(dib@, layout, y as int, (x + 1) as nat) == row_rgba(
                    dib@,
                    layout,
                    y as int,
                    x as nat,
                ) + pixel);
                assert(above + row_rgba(dib@, layout, y as int, (x + 1) as nat) =~= before + pixel);
            }
            x = x + 1;
        }
        y = y + 1;
    }
    Some(RgbaImage { width: layout.width, height: layout.height, pixels })
}

/// What the `png` crate writes for an image of 8-bit RGBA pixels.
pub uninterp spec fn png_rgba8(width: u32, height: u32, pixels: Seq<u8>) -> Seq<u8>;

/// The big-endian 32-bit number at `at`.
pub open spec fn be_u32(s: Seq<u8>, at: int) -> int {
    16_777_216 * s[at] + 65_536 * s[at + 1] + 256 * s[at + 2] + s[at + 3]
}

/// Whether `s` begins as a PNG file of 8-bit RGBA pixels of that size does: with
/// the file signature and the header chunk.
pub open spec fn png_starts_with_header(s: Seq<u8>, width: u32, height: u32) -> bool {
    &&& s.len() >= 33
    &&& s.take(16) == seq![137u8, 80, 78, 71, 13, 10, 26, 10, 0, 0, 0, 13, 73, 72, 68, 82]
    &&& be_u32(s, 16) == width
    &&& be_u32(s, 20) == height
    &&& s.subrange(24, 29) == seq![8u8, 6, 0, 0, 0]
}

/// `png::Encoder` with colour type RGBA and eight bits, its `write_header` and its
/// writer's `write_image_data`, into memory. With both sides positive, four bytes for
/// each pixel and a size that no counter overflows at there is nothing that they
/// refuse. What is written is a function of the image, of which only the beginning is
/// said here.
#[verifier::external_body]
pub(crate) fn encode_png(width: u32, height: u32, pixels: &[u8]) -> (res: Option<Vec<u8>>)
    requires
        width > 0,
        height > 0,
        pixels@.len() == 4 * (width * height),
        pixels@.len() <= MAX_DIB_PIXELS_BYTES,
    ensures
        res is Some,
        res matches Some(png) ==> png@ == png_rgba8(width, height, pixels@)
            && png_starts_with_header(png@, width, height),
{
    let mut out: Vec<u8> = Vec::new();
    let mut encoder = png::Encoder::new(&mut out, width, height);
    encoder.set_color(png::ColorType::Rgba);
    encoder.set_depth(png::BitDepth::Eight);
    let mut writer = encoder.write_header().ok()?;
    writer.write_image_data(pixels).ok()?;
    drop(writer);
    Some(out)
}

/// The PNG file of the image that the bitmap `dib` shows, where it is one that is
/// read.
pub fn dib_to_png(dib: &[u8]) -> (res: Option<Vec<u8>>)
    ensures
        res is Some <==> layout_of(dib@) is Some,
        res matches Some(png) ==> {
            let layout = layout_of(dib@).unwrap();
            &&& png@ == png_rgba8(layout.width, layout.height, dib_rgba(dib@, layout))
            &&& png_starts_with_header(png@, layout.width, layout.height)
        },
{
    match dib_to_rgba(dib) {
        Some(image) => {
            proof {
                law_dib_rgba_length(dib@, layout_of(dib@).unwrap());
            }
            encode_png(image.width, image.height, image.pixels.as_slice())
        },
        None => None,
    }
}

/// Numbers are read back from their bytes, the lowest first, wherever they stand.
pub proof fn law_little_endian_reads_back(front: Seq<u8>, n: u32, back: Seq<u8>)
    ensures
        ({
            let bytes = seq![
                (n % 256) as u8,
                (n / 256 % 256) as u8,
                (n / 65_536 % 256) as u8,
                (n / 16_777_216) as u8,
            ];
            let s = front + bytes + back;
            &&& le_u32(s, front.len() as int) == n
            &&& le_u16(s, front.len() as int) == n % 65_536
            &&& n < 0x8000_0000 ==> le_i32(s, front.len() as int) == n
            &&& n >= 0x8000_0000 ==> le_i32(s, front.len() as int) == n - 0x1_0000_0000
        }),
{
    let bytes = seq![
        (n % 256) as u8,
        (n / 256 % 256) as u8,
        (n / 65_536 % 256) as u8,
        (n / 16_777_216) as u8,
    ];
    let s = front + bytes + back;
    let at = front.len() as int;
    assert(s[at] == bytes[0] && s[at + 1] == bytes[1] && s[at + 2] == bytes[2] && s[at + 3]
        == bytes[3]);
}

/// Pixels lie side by side in a row and rows one stride apart. The row that is first in
/// memory is the lowest one of the image where the bitmap is stored bottom up, and the
/// highest one otherwise.
pub proof fn law_pixel_positions(layout: DibLayout, x: int, y: int)
    ensures
        layout.bottom_up ==> pixel_offset(layout, 0, layout.height - 1) == layout.pixel_start,
        !layout.bottom_up ==> pixel_offset(layout, 0, 0) == layout.pixel_start,
        pixel_offset(layout, x + 1, y) == pixel_offset(layout, x, y) + layout.pixel_bytes,
        layout.bottom_up ==> pixel_offset(layout, x, y) == pixel_offset(layout, x, y + 1)
            + layout.stride,
        !layout.bottom_up ==> pixel_offset(layout, x, y + 1) == pixel_offset(layout, x, y)
            + layout.stride,
        pixel_offset(layout, x, y) == layout.pixel_start + (if layout.bottom_up {
            (layout.height - 1 - y) * layout.stride
        } else {
            y * layout.stride
        }) + x * layout.pixel_bytes,
{
    let stride = layout.stride as int;
    let width = layout.pixel_bytes as int;
    let up = layout.height - 1 - y;
    assert((x + 1) * width == x * width + width) by (nonlinear_arith);
    assert((y + 1) * stride == y * stride + stride) by (nonlinear_arith);
    assert(up * stride == (up - 1) * stride + stride) by (nonlinear_arith);
    assert(0 * width == 0 && 0 * stride == 0);
}

/// Every pixel of a converted bitmap has the red, green and blue of its three bytes,
/// which stand in the bitmap in the opposite order.
pub proof fn law_colours_are_kept(s: Seq<u8>, layout: DibLayout, x: int, y: int)
    requires
        0 <= x < layout.width,
        0 <= y < layout.height,
    ensures
        ({
            let to = 4 * (y * layout.width + x);
            let from = pixel_offset(layout, x, y);
            &&& 0 <= to && to + 4 <= dib_rgba(s, layout).len()
            &&& dib_rgba(s, layout)[to] == s[from + 2]
            &&& dib_rgba(s, layout)[to + 1] == s[from + 1]
            &&& dib_rgba(s, layout)[to + 2] == s[from]
        }),
{
    lemma_pixel_at(s, layout, x, y);
    let from = pixel_offset(layout, x, y);
    assert(pixel_rgba(s, layout, x, y)[0] == s[from + 2]);
    assert(pixel_rgba(s, layout, x, y)[1] == s[from + 1]);
    assert(pixel_rgba(s, layout, x, y)[2] == s[from]);
}

proof fn lemma_pixel_at(s: Seq<u8>, layout: DibLayout, x: int, y: int)
    requires
        0 <= x < layout.width,
        0 <= y < layout.height,
    ensures
        ({
            let to = 4 * (y * layout.width + x);
            &&& 0 <= to && to + 4 <= dib_rgba(s, layout).len()
            &&& forall|i: int|
                0 <= i < 4 ==> dib_rgba(s, layout)[to + i] == #[trigger] pixel_rgba(
                    s,
                    layout,
                    x,
                    y,
                )[i]
        }),
{
    law_dib_rgba_pixel(s, layout, x, y);
    let to = 4 * (y * layout.width + x);
    let shown = dib_rgba(s, layout).subrange(to, to + 4);
    assert forall|i: int| 0 <= i < 4 implies dib_rgba(s, layout)[to + i] == #[trigger] pixel_rgba(
        s,
        layout,
        x,
        y,
    )[i] by {
        assert(shown[i] == dib_rgba(s, layout)[to + i]);
    }
}

/// Where the fourth byte of a pixel is defined to be its alpha and one pixel, whichever,
/// has an alpha other than zero, every pixel keeps its own alpha, also where that is zero.
pub proof fn law_alpha_is_kept(
    s: Seq<u8>,
    layout: DibLayout,
    x: int,
    y: int,
    seen_x: int,
    seen_y: int,
)
    requires
        0 <= x < layout.width,
        0 <= y < layout.height,
        0 <= seen_x < layout.width,
        0 <= seen_y < layout.height,
        layout.has_alpha,
        s[pixel_offset(layout, seen_x, seen_y) + 3] != 0,
    ensures
        dib_rgba(s, layout)[4 * (y * layout.width + x) + 3] == s[pixel_offset(layout, x, y) + 3],
{
    lemma_pixel_at(s, layout, x, y);
    assert(pixel_rgba(s, layout, x, y)[3] == s[pixel_offset(layout, x, y) + 3]);
}

/// Where no alpha is defined, or it is zero in every pixel, every pixel is shown opaque.
pub proof fn law_missing_alpha_is_opaque(s: Seq<u8>, layout: DibLayout, x: int, y: int)
    requires
        0 <= x < layout.width,
        0 <= y < layout.height,
        !layout.has_alpha || forall|a: int, b: int|
            0 <= a < layout.width && 0 <= b < layout.height ==> s[#[trigger] pixel_offset(
                layout,
                a,
                b,
            ) + 3] == 0,
    ensures
        dib_rgba(s, layout)[4 * (y * layout.width + x) + 3] == 255,
{
    lemma_pixel_at(s, layout, x, y);
    assert(pixel_rgba(s, layout, x, y)[3] == 255);
}

/// The number of bytes of a row, with those that fill it up to whole groups of four.
pub open spec fn filled_row(bytes: int) -> int {
    if bytes % 4 == 0 {
        bytes
    } else {
        bytes + 4 - bytes % 4
    }
}

/// A bitmap is read with the size that its header tells. Its rows are filled up to whole
/// groups of four bytes, its first row in memory is the lowest one exactly where the
/// header's height is positive, its fourth bytes are alpha exactly where it has colour
/// masks, and all of its rows lie within it, behind the header.
pub proof fn law_layout_tells_the_header(s: Seq<u8>, layout: DibLayout)
    requires
        layout_of(s) == Some(layout),
    ensures
        s.len() >= 40,
        le_u32(s, 0) >= 40,
        layout.width == le_i32(s, 4),
        0 < layout.width <= 30_000,
        0 < layout.height <= 30_000,
        layout.width * layout.height <= 67_108_864,
        layout.bottom_up ==> layout.height == le_i32(s, 8),
        !layout.bottom_up ==> layout.height == -le_i32(s, 8),
        layout.pixel_bytes == 3 || layout.pixel_bytes == 4,
        8 * layout.pixel_bytes == le_u16(s, 14),
        layout.has_alpha <==> le_u32(s, 16) == 3,
        !layout.has_alpha <==> le_u32(s, 16) == 0,
        layout.has_alpha ==> layout.pixel_bytes == 4 && le_u32(s, 40) == 0xFF_0000 && le_u32(s, 44)
            == 0xFF00 && le_u32(s, 48) == 0xFF,
        layout.stride == filled_row(layout.width * layout.pixel_bytes),
        !layout.has_alpha ==> layout.pixel_start == le_u32(s, 0),
        layout.has_alpha ==> layout.pixel_start == le_u32(s, 0) || layout.pixel_start == le_u32(
            s,
            0,
        ) + 12,
        layout.has_alpha && le_u32(s, 0) == 40 ==> layout.pixel_start == 52,
        layout.pixel_start >= 40,
        layout.pixel_start + layout.stride * layout.height <= s.len(),
{
    let w = header_width(s);
    let h = header_rows(s);
    let bits = header_bits(s);
    assert(bits * w <= 32 * 30_000) by (nonlinear_arith)
        requires
            0 <= bits <= 32,
            0 <= w <= 30_000,
    ;
    if bits == 24 {
        assert(bits * w == 24 * w) by (nonlinear_arith)
            requires
                bits == 24,
        ;
        assert(layout.width * layout.pixel_bytes == 3 * w) by (nonlinear_arith)
            requires
                layout.width == w,
                layout.pixel_bytes == 3,
        ;
    } else {
        assert(bits * w == 32 * w) by (nonlinear_arith)
            requires
                bits == 32,
        ;
        assert(layout.width * layout.pixel_bytes == 4 * w) by (nonlinear_arith)
            requires
                layout.width == w,
                layout.pixel_bytes == 4,
        ;
    }
    assert(layout.stride == row_stride(bits, w));
}

/// A bitmap without colour masks is read where its size is one that is read, its pixels
/// take three or four bytes and its rows are all there.
pub proof fn law_plain_bitmap_is_read(s: Seq<u8>, rows: int, pixel_bytes: int)
    requires
        s.len() >= 40,
        le_u32(s, 0) >= 40,
        0 < le_i32(s, 4) <= 30_000,
        le_i32(s, 8) == rows || le_i32(s, 8) == -rows,
        0 < rows <= 30_000,
        le_i32(s, 4) * rows <= 67_108_864,
        pixel_bytes == 3 || pixel_bytes == 4,
        le_u16(s, 14) == 8 * pixel_bytes,
        le_u32(s, 16) == 0,
        le_u32(s, 0) + filled_row(le_i32(s, 4) * pixel_bytes) * rows <= s.len(),
    ensures
        layout_of(s) is Some,
{
    lemma_stride_is_filled_row(s, pixel_bytes);
    assert(header_rows(s) == rows);
    assert(header_width(s) * header_rows(s) * 4 <= MAX_DIB_PIXELS_BYTES) by {
        assert(header_width(s) * header_rows(s) == le_i32(s, 4) * rows);
    }
}

proof fn lemma_stride_is_filled_row(s: Seq<u8>, pixel_bytes: int)
    requires
        pixel_bytes == 3 || pixel_bytes == 4,
        le_u16(s, 14) == 8 * pixel_bytes,
        0 < le_i32(s, 4) <= 30_000,
    ensures
        row_stride(header_bits(s), header_width(s)) == filled_row(le_i32(s, 4) * pixel_bytes),
{
    let w = header_width(s);
    let bits = header_bits(s);
    if pixel_bytes == 3 {
        assert(bits * w == 24 * w && w * pixel_bytes == 3 * w) by (nonlinear_arith)
            requires
                bits == 24,
                pixel_bytes == 3,
        ;
    } else {
        assert(bits * w == 32 * w && w * pixel_bytes == 4 * w) by (nonlinear_arith)
            requires
                bits == 32,
                pixel_bytes == 4,
        ;
    }
}

/// A bitmap with colour masks is read where its size is one that is read, its masks are
/// those of blue, green, red bytes and its rows are all there. With a header of 40 bytes
/// the rows follow the masks. With a longer one they follow the header, or a repetition of
/// the masks where the bytes suffice for that too.
pub proof fn law_masked_bitmap_is_read(s: Seq<u8>, rows: int)
    requires
        s.len() >= 52,
        le_u32(s, 0) >= 40,
        0 < le_i32(s, 4) <= 30_000,
        le_i32(s, 8) == rows || le_i32(s, 8) == -rows,
        0 < rows <= 30_000,
        le_i32(s, 4) * rows <= 67_108_864,
        le_u16(s, 14) == 32,
        le_u32(s, 16) == 3,
        le_u32(s, 40) == 0xFF_0000,
        le_u32(s, 44) == 0xFF00,
        le_u32(s, 48) == 0xFF,
    ensures
        ({
            let size = le_u32(s, 0);
            let pixels = le_i32(s, 4) * 4 * rows;
            &&& size + 12 + pixels <= s.len() ==> layout_of(s) is Some
                && layout_of(s)->Some_0.pixel_start == size + 12
            &&& size > 40 && size + pixels <= s.len() < size + 12 + pixels ==> layout_of(s) is Some
                && layout_of(s)->Some_0.pixel_start == size
            &&& size == 40 && s.len() < 52 + pixels ==> layout_of(s) is None
            &&& s.len() < size + pixels ==> layout_of(s) is None
        }),
{
    lemma_stride_is_filled_row(s, 4);
    assert(header_rows(s) == rows);
    let w = header_width(s);
    assert(w * 4 * rows == row_stride(header_bits(s), w) * rows);
    assert(0 <= w * 4 * rows <= 4_000_000_000) by (nonlinear_arith)
        requires
            0 <= w <= 30_000,
            0 <= rows <= 30_000,
    ;
    assert(header_width(s) * header_rows(s) * 4 <= MAX_DIB_PIXELS_BYTES) by {
        assert(header_width(s) * header_rows(s) == le_i32(s, 4) * rows);
    }
}

} // verus!
