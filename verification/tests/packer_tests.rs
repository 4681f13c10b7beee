use bongo_display::canvas::{luminance, Canvas};
use bongo_display::packer::{pack, row_stride, unpack};

fn solid_canvas(width: u32, height: u32, rgba: [u8; 4]) -> Canvas {
    let mut pixels = Vec::new();
    for _ in 0..(width as usize * height as usize) {
        pixels.extend_from_slice(&rgba);
    }
    Canvas { width, height, pixels }
}

fn checker_canvas(width: u32, height: u32) -> Canvas {
    let mut pixels = Vec::new();
    for y in 0..height {
        for x in 0..width {
            if (x + y) % 2 == 0 {
                pixels.extend_from_slice(&[0, 0, 0, 255]);
            } else {
                pixels.extend_from_slice(&[255, 255, 255, 255]);
            }
        }
    }
    Canvas { width, height, pixels }
}

#[test]
fn luminance_formula_exact_values() {
    assert_eq!(luminance(255, 255, 255), 255);
    assert_eq!(luminance(0, 0, 0), 0);
    // (299*10 + 587*20 + 114*30) / 1000 = 18150 / 1000 = 18
    assert_eq!(luminance(10, 20, 30), 18);
    assert_eq!(luminance(128, 128, 128), 128);
    assert_eq!(luminance(127, 127, 127), 127);
}

#[test]
fn row_stride_rounds_up() {
    assert_eq!(row_stride(1), 1);
    assert_eq!(row_stride(8), 1);
    assert_eq!(row_stride(9), 2);
    assert_eq!(row_stride(10), 2);
    assert_eq!(row_stride(16), 2);
    assert_eq!(row_stride(60), 8);
}

#[test]
fn pack_is_msb_first() {
    // 8x1, only the leftmost pixel is black: bit 7 of the byte.
    let mut c = solid_canvas(8, 1, [255, 255, 255, 255]);
    c.pixels[0] = 0;
    c.pixels[1] = 0;
    c.pixels[2] = 0;
    let p = pack(&c);
    assert_eq!(p.bytes, vec![0x80]);

    // Only the rightmost pixel black: bit 0.
    let mut c = solid_canvas(8, 1, [255, 255, 255, 255]);
    c.pixels[7 * 4] = 0;
    c.pixels[7 * 4 + 1] = 0;
    c.pixels[7 * 4 + 2] = 0;
    let p = pack(&c);
    assert_eq!(p.bytes, vec![0x01]);
}

#[test]
fn pack_length_and_row_padding() {
    // Width 10 is not a multiple of 8: stride is 2, the low 6 bits of
    // the second byte of every row stay clear even for all-ink rows.
    let c = solid_canvas(10, 4, [0, 0, 0, 255]);
    let p = pack(&c);
    assert_eq!(p.bytes.len(), 2 * 4);
    for y in 0..4 {
        assert_eq!(p.bytes[y * 2], 0xFF);
        assert_eq!(p.bytes[y * 2 + 1], 0xC0);
        assert_eq!(p.bytes[y * 2 + 1] & 0x3F, 0);
    }
}

#[test]
fn pack_threshold_boundary() {
    // Luminance exactly 128 packs to paper, 127 packs to ink.
    let at_threshold = solid_canvas(1, 1, [128, 128, 128, 255]);
    let p = pack(&at_threshold);
    assert_eq!(p.bytes, vec![0x00]);

    let below_threshold = solid_canvas(1, 1, [127, 127, 127, 255]);
    let p = pack(&below_threshold);
    assert_eq!(p.bytes, vec![0x80]);
}

#[test]
fn bit_at_reads_packed_bits() {
    let c = checker_canvas(10, 3);
    let p = pack(&c);
    for y in 0..3 {
        for x in 0..10 {
            assert_eq!(p.bit_at(x, y), (x + y) % 2 == 0);
        }
        // Padding bits read clear.
        for x in 10..16 {
            assert!(!p.bit_at(x, y));
        }
    }
}

#[test]
fn unpack_expands_bits_to_pixels() {
    let c = solid_canvas(3, 1, [255, 255, 255, 255]);
    let mut c = c;
    // Make the middle pixel black.
    c.pixels[4] = 0;
    c.pixels[5] = 0;
    c.pixels[6] = 0;
    let p = pack(&c);
    let back = unpack(&p);
    assert_eq!(back.pixels, vec![
        255, 255, 255, 255, // paper
        0, 0, 0, 255, // ink
        255, 255, 255, 255, // paper
    ]);
}

#[test]
fn pack_unpack_round_trip() {
    // A black-and-white canvas survives the round trip exactly,
    // including at a width that is not a multiple of 8.
    let c = checker_canvas(13, 5);
    let p = pack(&c);
    assert_eq!(p.bytes.len(), 2 * 5);
    let back = unpack(&p);
    assert_eq!(back.width, c.width);
    assert_eq!(back.height, c.height);
    assert_eq!(back.pixels, c.pixels);
}

#[test]
fn pack_empty_and_single_pixel() {
    let empty = solid_canvas(0, 0, [0, 0, 0, 255]);
    let p = pack(&empty);
    assert_eq!(p.bytes.len(), 0);

    let one = solid_canvas(1, 1, [0, 0, 0, 255]);
    let p = pack(&one);
    assert_eq!(p.bytes, vec![0x80]);
}
