use papirus::packing::pack;
use papirus::pixels::{Glyph, PixelBuffer};
use papirus::text::split_lines;
use papirus::text_rendering::{render_image, render_text, set_line, ImageSize};

fn solid_glyph(min_x: i32, min_y: i32, width: u32, height: u32) -> Glyph {
    let coverage = vec![255u8; (width * height) as usize];
    Glyph::new(min_x, min_y, width, height, coverage).expect("coverage matches the box")
}

#[test]
fn rendering_no_glyphs_packs_like_a_blank_buffer() {
    let size = ImageSize::new(200, 90);
    let glyphs: Vec<Glyph> = Vec::new();
    let data = render_text(&size, &glyphs);
    let blank = pack(&PixelBuffer::new(200, 90));
    assert_eq!(data, blank);
    assert!(data.iter().all(|&b| b == 0));
}

#[test]
fn newline_only_text_has_only_empty_lines() {
    let lines = split_lines("\n\n\n");
    assert_eq!(lines.len(), 4);
    assert!(lines.iter().all(|l| l.is_empty()));
}

#[test]
fn empty_text_is_one_empty_line() {
    let lines = split_lines("");
    assert_eq!(lines, vec![String::new()]);
}

#[test]
fn split_lines_keeps_order_and_empty_lines() {
    assert_eq!(split_lines("Hi"), vec!["Hi".to_string()]);
    assert_eq!(split_lines("a\nb"), vec!["a".to_string(), "b".to_string()]);
    assert_eq!(
        split_lines("one\n\ntwo\n"),
        vec!["one".to_string(), "".to_string(), "two".to_string(), "".to_string()]
    );
}

#[test]
fn rendering_is_deterministic_and_differs_from_blank() {
    // a short line on the 200x90 panel, as two hand-made glyph patches
    let size = ImageSize::new(200, 90);
    let glyphs = vec![solid_glyph(3, 20, 8, 12), solid_glyph(13, 20, 2, 12)];
    let first = render_text(&size, &glyphs);
    let second = render_text(&size, &glyphs);
    assert_eq!(first, second);
    assert_eq!(first.len(), 200 * 90 / 8);
    let blank = pack(&PixelBuffer::new(200, 90));
    assert_ne!(first, blank);
    assert!(first.iter().any(|&b| b != 0));
}

#[test]
fn fully_offscreen_glyphs_are_dropped() {
    let size = ImageSize::new(16, 8);
    let offscreen = vec![
        solid_glyph(-20, 2, 10, 4),
        solid_glyph(16, 0, 5, 5),
        solid_glyph(2, -9, 4, 8),
        solid_glyph(0, 8, 16, 2),
    ];
    let data = render_text(&size, &offscreen);
    let blank = pack(&PixelBuffer::new(16, 8));
    assert_eq!(data, blank);
}

#[test]
fn partially_offscreen_glyph_is_clipped_without_corruption() {
    let size = ImageSize::new(8, 4);
    // box spans x in [-2, 2) and y in [-1, 1): only (0,0), (1,0) land
    let glyphs = vec![solid_glyph(-2, -1, 4, 2)];
    let image = render_image(&size, &glyphs);
    assert_eq!(image.get_pixel(0, 0), 255);
    assert_eq!(image.get_pixel(1, 0), 255);
    assert_eq!(image.get_pixel(2, 0), 0);
    assert_eq!(image.get_pixel(0, 1), 0);
    let data = pack(&image);
    assert_eq!(data, vec![0x03, 0x00, 0x00, 0x00]);
}

#[test]
fn later_glyphs_overwrite_earlier_ones() {
    let size = ImageSize::new(8, 1);
    let dark = solid_glyph(0, 0, 3, 1);
    let light = Glyph::new(1, 0, 1, 1, vec![0u8]).expect("coverage matches the box");
    let image = render_image(&size, &vec![dark, light]);
    assert_eq!(image.get_pixel(0, 0), 255);
    assert_eq!(image.get_pixel(1, 0), 0);
    assert_eq!(image.get_pixel(2, 0), 255);
}

#[test]
fn set_line_stamps_onto_existing_canvas() {
    let mut image = PixelBuffer::new(8, 2);
    image.put_pixel(7, 1, 9);
    let glyphs = vec![solid_glyph(0, 0, 2, 1)];
    set_line(&mut image, &glyphs);
    assert_eq!(image.get_pixel(0, 0), 255);
    assert_eq!(image.get_pixel(1, 0), 255);
    assert_eq!(image.get_pixel(7, 1), 9);
}

#[test]
fn glyph_new_rejects_mismatched_coverage() {
    assert!(Glyph::new(0, 0, 2, 2, vec![0u8; 3]).is_none());
    assert!(Glyph::new(0, 0, 2, 2, vec![0u8; 4]).is_some());
}

#[test]
fn image_size_accessors() {
    let size = ImageSize::new(200, 90);
    assert_eq!(size.x_size(), 200);
    assert_eq!(size.y_size(), 90);
}
