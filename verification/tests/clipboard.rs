use herdr_windows::clipboard::{
    after_write_call, image_format, png_image, read_clipboard_image, read_clipboard_text,
    write_clipboard, WriteCall, WriteStep, CF_DIB, CF_DIBV5,
};
use herdr_windows::dib::{dib_layout, dib_to_png, dib_to_rgba, BI_BITFIELDS, BI_RGB};

fn dib_header(width: i32, height: i32, bit_count: u16, compression: u32) -> [u8; 40] {
    let mut header = [0u8; 40];
    header[0..4].copy_from_slice(&40u32.to_le_bytes());
    header[4..8].copy_from_slice(&width.to_le_bytes());
    header[8..12].copy_from_slice(&height.to_le_bytes());
    header[12..14].copy_from_slice(&1u16.to_le_bytes()); // biPlanes
    header[14..16].copy_from_slice(&bit_count.to_le_bytes());
    header[16..20].copy_from_slice(&compression.to_le_bytes());
    header
}

fn decode_png(bytes: &[u8]) -> (u32, u32, Vec<u8>) {
    let decoder = png::Decoder::new(std::io::Cursor::new(bytes));
    let mut reader = decoder.read_info().expect("decode png header");
    let mut buf = vec![0u8; reader.output_buffer_size()];
    let info = reader.next_frame(&mut buf).expect("decode png frame");
    buf.truncate(info.buffer_size());
    (info.width, info.height, buf)
}

#[test]
fn dib_to_png_bottom_up_32bpp_zero_alpha_forces_opaque() {
    let mut dib = dib_header(2, 2, 32, BI_RGB).to_vec();
    // Bottom-up: first row in memory is the bottom (visual) row.
    // Bottom row (memory row 0): red, green
    dib.extend_from_slice(&[0, 0, 255, 0]); // B,G,R,A = red, alpha 0
    dib.extend_from_slice(&[0, 255, 0, 0]); // green, alpha 0
    // Top row (memory row 1): blue, white
    dib.extend_from_slice(&[255, 0, 0, 0]); // blue, alpha 0
    dib.extend_from_slice(&[255, 255, 255, 0]); // white, alpha 0

    let png_bytes = dib_to_png(&dib).expect("valid 32bpp dib");
    let (width, height, pixels) = decode_png(&png_bytes);
    assert_eq!((width, height), (2, 2));

    // Visual row 0 (top of image) must be the top memory row: blue, white.
    assert_eq!(&pixels[0..4], &[0, 0, 255, 255]);
    assert_eq!(&pixels[4..8], &[255, 255, 255, 255]);
    // Visual row 1 (bottom of image): red, green.
    assert_eq!(&pixels[8..12], &[255, 0, 0, 255]);
    assert_eq!(&pixels[12..16], &[0, 255, 0, 255]);
}

#[test]
fn dib_to_png_24bpp_with_row_padding() {
    let mut dib = dib_header(2, 2, 24, BI_RGB).to_vec();
    // stride = ((24*2+31)/32)*4 = 8, so each 6-byte row has 2 padding bytes.
    // Bottom-up, memory row 0 = bottom visual row.
    dib.extend_from_slice(&[0, 0, 255, 0, 255, 0, 0xAA, 0xBB]); // red, green + padding
    dib.extend_from_slice(&[255, 0, 0, 255, 255, 255, 0xCC, 0xDD]); // blue, white + padding

    let png_bytes = dib_to_png(&dib).expect("valid 24bpp dib");
    let (width, height, pixels) = decode_png(&png_bytes);
    assert_eq!((width, height), (2, 2));

    assert_eq!(&pixels[0..4], &[0, 0, 255, 255]);
    assert_eq!(&pixels[4..8], &[255, 255, 255, 255]);
    assert_eq!(&pixels[8..12], &[255, 0, 0, 255]);
    assert_eq!(&pixels[12..16], &[0, 255, 0, 255]);
}

#[test]
fn dib_to_png_top_down_negative_height_no_flip() {
    let mut dib = dib_header(2, -2, 32, BI_RGB).to_vec();
    // Top-down: memory row 0 is the visual top row.
    dib.extend_from_slice(&[0, 0, 255, 0]); // red
    dib.extend_from_slice(&[0, 255, 0, 0]); // green
    dib.extend_from_slice(&[255, 0, 0, 0]); // blue
    dib.extend_from_slice(&[255, 255, 255, 0]); // white

    let png_bytes = dib_to_png(&dib).expect("valid top-down dib");
    let (_, _, pixels) = decode_png(&png_bytes);

    assert_eq!(&pixels[0..4], &[255, 0, 0, 255]); // red
    assert_eq!(&pixels[4..8], &[0, 255, 0, 255]); // green
    assert_eq!(&pixels[8..12], &[0, 0, 255, 255]); // blue
    assert_eq!(&pixels[12..16], &[255, 255, 255, 255]); // white
}

#[test]
fn dib_to_png_preserves_genuine_alpha() {
    // BI_RGB has no defined alpha channel, so genuine (non-zero) alpha is
    // only meaningful with BI_BITFIELDS and standard BGRA masks.
    let mut dib = dib_header(1, 1, 32, BI_BITFIELDS).to_vec();
    dib.extend_from_slice(&0x00FF_0000u32.to_le_bytes()); // R mask
    dib.extend_from_slice(&0x0000_FF00u32.to_le_bytes()); // G mask
    dib.extend_from_slice(&0x0000_00FFu32.to_le_bytes()); // B mask
    dib.extend_from_slice(&[0, 0, 255, 128]); // red, alpha 128

    let png_bytes = dib_to_png(&dib).expect("valid dib with alpha");
    let (_, _, pixels) = decode_png(&png_bytes);
    assert_eq!(&pixels[0..4], &[255, 0, 0, 128]);
}

/// Builds a BITMAPV5HEADER-sized (124-byte) header with the standard
/// BGRA masks embedded at their struct offset (40), as V4/V5 headers do.
fn v5_header(width: i32, height: i32, bit_count: u16, compression: u32) -> Vec<u8> {
    let mut header = vec![0u8; 124];
    header[0..4].copy_from_slice(&124u32.to_le_bytes());
    header[4..8].copy_from_slice(&width.to_le_bytes());
    header[8..12].copy_from_slice(&height.to_le_bytes());
    header[12..14].copy_from_slice(&1u16.to_le_bytes());
    header[14..16].copy_from_slice(&bit_count.to_le_bytes());
    header[16..20].copy_from_slice(&compression.to_le_bytes());
    header[40..44].copy_from_slice(&0x00FF_0000u32.to_le_bytes());
    header[44..48].copy_from_slice(&0x0000_FF00u32.to_le_bytes());
    header[48..52].copy_from_slice(&0x0000_00FFu32.to_le_bytes());
    header
}

#[test]
fn dib_to_png_v5_header_with_redundant_external_mask_table() {
    // Some producers emit a BITMAPV5HEADER, which already embeds the colour
    // masks, and append a redundant 12-byte mask triple before the pixel array.
    let mut dib = v5_header(1, 1, 32, BI_BITFIELDS);
    dib.extend_from_slice(&0x00FF_0000u32.to_le_bytes()); // redundant R mask
    dib.extend_from_slice(&0x0000_FF00u32.to_le_bytes()); // redundant G mask
    dib.extend_from_slice(&0x0000_00FFu32.to_le_bytes()); // redundant B mask
    dib.extend_from_slice(&[0, 0, 255, 128]); // red, alpha 128

    let png_bytes = dib_to_png(&dib).expect("valid v5 dib with redundant mask table");
    let (_, _, pixels) = decode_png(&png_bytes);
    assert_eq!(&pixels[0..4], &[255, 0, 0, 128]);
}

#[test]
fn dib_to_png_v5_header_without_redundant_mask_table() {
    // The compliant layout: BITMAPV5HEADER's embedded masks are used and the
    // pixel array follows the header immediately.
    let mut dib = v5_header(1, 1, 32, BI_BITFIELDS);
    dib.extend_from_slice(&[0, 0, 255, 128]); // red, alpha 128

    let png_bytes = dib_to_png(&dib).expect("valid v5 dib without redundant mask table");
    let (_, _, pixels) = decode_png(&png_bytes);
    assert_eq!(&pixels[0..4], &[255, 0, 0, 128]);
}

#[test]
fn dib_to_png_rejects_indexed_color() {
    let dib = dib_header(2, 2, 8, BI_RGB).to_vec();
    assert!(dib_to_png(&dib).is_none());
}

#[test]
fn dib_to_png_rejects_truncated_buffer() {
    let mut dib = dib_header(4, 4, 32, BI_RGB).to_vec();
    dib.extend_from_slice(&[0u8; 8]); // way short of the 4*4*4 = 64 bytes needed
    assert!(dib_to_png(&dib).is_none());
}

#[test]
fn dib_to_png_rejects_unsupported_bit_depth() {
    let dib = dib_header(2, 2, 16, BI_RGB).to_vec();
    assert!(dib_to_png(&dib).is_none());
}

#[test]
fn bitmaps_beyond_the_limits_are_rejected() {
    assert!(dib_layout(&[0; 39]).is_none());
    let mut short = dib_header(1, 1, 32, BI_RGB).to_vec();
    short[0] = 39;
    short.extend_from_slice(&[1, 2, 3, 4]);
    assert!(dib_layout(&short).is_none());
    for (width, height) in [(0, 1), (-1, 1), (1, 0), (1, i32::MIN), (30_001, 1), (1, 30_001)] {
        let mut dib = dib_header(width, height, 24, BI_RGB).to_vec();
        dib.extend_from_slice(&vec![0; 100_000]);
        assert!(dib_layout(&dib).is_none());
    }
    assert!(dib_layout(&dib_header(30_000, 30_000, 24, BI_RGB)).is_none());
    let mut masks = dib_header(1, 1, 32, BI_BITFIELDS).to_vec();
    masks.extend_from_slice(&[0; 16]);
    assert!(dib_layout(&masks).is_none());
}

#[test]
fn layouts_tell_where_the_pixels_are() {
    let mut dib = v5_header(1, -2, 32, BI_BITFIELDS);
    dib.extend_from_slice(&[9; 12]);
    dib.extend_from_slice(&[1, 2, 3, 0, 4, 5, 6, 0]);
    dib.extend_from_slice(b"trailing");
    let layout = dib_layout(&dib).unwrap();
    assert_eq!(layout.pixel_start, 136);
    assert_eq!((layout.width, layout.height), (1, 2));
    assert!(!layout.bottom_up);
    let image = dib_to_rgba(&dib).unwrap();
    assert_eq!(image.pixels, [3, 2, 1, 255, 6, 5, 4, 255]);
}

#[test]
fn images_are_read_up_to_the_limit() {
    let mut dib = dib_header(1, 1, 24, BI_RGB).to_vec();
    dib.extend_from_slice(&[10, 20, 30, 0]);
    let png = dib_to_png(&dib).unwrap();
    let image = read_clipboard_image(&dib, png.len()).unwrap();
    assert_eq!(image.extension, "png");
    assert_eq!(image.bytes, png);
    assert_eq!(decode_png(&image.bytes).2, [30, 20, 10, 255]);
    assert!(read_clipboard_image(&dib, png.len() - 1).is_none());
    assert!(read_clipboard_image(&dib[..40], png.len()).is_none());
    assert!(png_image(vec![1, 2], 1).is_none());
    assert_eq!(png_image(vec![1, 2], 2).unwrap().bytes, [1, 2]);
    assert_eq!(image_format(true, true), Some(CF_DIBV5));
    assert_eq!(image_format(false, true), Some(CF_DIB));
    assert_eq!(image_format(false, false), None);
    assert!(read_clipboard_text().is_none());
}

#[test]
fn clipboard_text_ends_with_a_nul() {
    let text = write_clipboard("h\u{e9}\u{1f600}".as_bytes()).unwrap();
    assert_eq!(text.units, [0x68, 0xe9, 0xd83d, 0xde00, 0]);
    assert_eq!(text.byte_len, 10);
    assert_eq!(write_clipboard(b"").unwrap().units, [0]);
    assert!(write_clipboard(b"a\0b").is_none());
    assert!(write_clipboard(b"a\xff").is_none());
}

#[test]
fn clipboard_calls_follow_each_other() {
    let order = [
        WriteCall::Owner,
        WriteCall::Open,
        WriteCall::Empty,
        WriteCall::Allocate,
        WriteCall::Lock,
        WriteCall::Publish,
    ];
    for pair in order.windows(2) {
        assert_eq!(after_write_call(pair[0], true), WriteStep::Call(pair[1]));
    }
    assert_eq!(
        after_write_call(WriteCall::Publish, true),
        WriteStep::End { written: true, free: false, close: true }
    );
    let end = |free, close| WriteStep::End { written: false, free, close };
    assert_eq!(after_write_call(WriteCall::Owner, false), end(false, false));
    assert_eq!(after_write_call(WriteCall::Open, false), end(false, false));
    assert_eq!(after_write_call(WriteCall::Empty, false), end(false, true));
    assert_eq!(after_write_call(WriteCall::Allocate, false), end(false, true));
    assert_eq!(after_write_call(WriteCall::Lock, false), end(true, true));
    assert_eq!(after_write_call(WriteCall::Publish, false), end(true, true));
}
