use papirus::packing::{pack, reverse_bits_u8};
use papirus::pixels::PixelBuffer;

#[test]
fn pack_len_is_one_bit_per_pixel_for_aligned_width() {
    let image = PixelBuffer::new(16, 4);
    let data = pack(&image);
    assert_eq!(data.len(), 16 * 4 / 8);
}

#[test]
fn pack_len_for_panel_geometry() {
    let image = PixelBuffer::new(200, 90);
    let data = pack(&image);
    assert_eq!(data.len(), 200 * 90 / 8);
}

#[test]
fn pack_unaligned_width_flushes_each_row() {
    // 10-pixel rows flush a short second byte at the row boundary
    let image = PixelBuffer::new(10, 2);
    let data = pack(&image);
    assert_eq!(data.len(), 4);
}

#[test]
fn pack_all_zero_gives_zero_bytes() {
    let image = PixelBuffer::new(200, 90);
    let data = pack(&image);
    assert_eq!(data.len(), 2250);
    assert!(data.iter().all(|&b| b == 0));
}

#[test]
fn pack_all_nonzero_gives_ff_bytes() {
    let mut image = PixelBuffer::new(16, 4);
    for y in 0..4 {
        for x in 0..16 {
            image.put_pixel(x, y, 255);
        }
    }
    let data = pack(&image);
    assert_eq!(data.len(), 8);
    assert!(data.iter().all(|&b| b == 0xFF));
}

#[test]
fn pack_first_pixel_lands_in_low_bit() {
    // accumulated MSB-first then bit-reversed: the first pixel of a group
    // ends up in the least significant bit of the output byte
    let mut image = PixelBuffer::new(8, 1);
    image.put_pixel(0, 0, 1);
    let data = pack(&image);
    assert_eq!(data, vec![0x01]);
}

#[test]
fn pack_last_pixel_lands_in_high_bit() {
    let mut image = PixelBuffer::new(8, 1);
    image.put_pixel(7, 0, 200);
    let data = pack(&image);
    assert_eq!(data, vec![0x80]);
}

#[test]
fn pack_short_trailing_group_defaults_to_zero_bits() {
    // width 10: columns 8 and 9 form a short group; its bits land in the
    // low end of the second byte and the rest stay 0
    let mut image = PixelBuffer::new(10, 1);
    image.put_pixel(8, 0, 9);
    image.put_pixel(9, 0, 17);
    let data = pack(&image);
    assert_eq!(data, vec![0x00, 0x03]);
}

#[test]
fn pack_each_row_starts_a_fresh_byte() {
    let mut image = PixelBuffer::new(4, 2);
    image.put_pixel(0, 0, 255);
    image.put_pixel(1, 1, 255);
    let data = pack(&image);
    assert_eq!(data, vec![0x01, 0x02]);
}

#[test]
fn pack_mixed_pattern_exact_bytes() {
    // row: on off on off off on on off -> output bit i = pixel i
    let mut image = PixelBuffer::new(8, 1);
    let on = [0usize, 2, 5, 6];
    for &x in on.iter() {
        image.put_pixel(x as u32, 0, 128);
    }
    let data = pack(&image);
    assert_eq!(data, vec![0b0110_0101]);
}

#[test]
fn reverse_bits_table() {
    assert_eq!(reverse_bits_u8(0b1000_0000), 0b0000_0001);
    assert_eq!(reverse_bits_u8(0b0000_0001), 0b1000_0000);
    assert_eq!(reverse_bits_u8(0b1010_0000), 0b0000_0101);
    assert_eq!(reverse_bits_u8(0b1100_1000), 0b0001_0011);
    assert_eq!(reverse_bits_u8(0x00), 0x00);
    assert_eq!(reverse_bits_u8(0xFF), 0xFF);
    assert_eq!(reverse_bits_u8(0x0F), 0xF0);
}

#[test]
fn reverse_bits_is_involutive_on_samples() {
    for b in [0u8, 1, 3, 7, 42, 128, 200, 255] {
        assert_eq!(reverse_bits_u8(reverse_bits_u8(b)), b);
    }
}

#[test]
fn pixel_buffer_get_put_roundtrip() {
    let mut image = PixelBuffer::new(5, 3);
    assert_eq!(image.width(), 5);
    assert_eq!(image.height(), 3);
    assert_eq!(image.get_pixel(4, 2), 0);
    image.put_pixel(4, 2, 77);
    assert_eq!(image.get_pixel(4, 2), 77);
    assert_eq!(image.get_pixel(3, 2), 0);
}
