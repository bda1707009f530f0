use iv2c::error::Error;
use iv2c::frames::Frame;
use iv2c::maps::CharMap;
use iv2c::pipeline::GrayFrame;
use iv2c::pipeline::ImagePipeline;
use iv2c::pipeline::Resolution;

fn pipeline(res: Resolution, map: &str, new_lines: bool) -> ImagePipeline {
    ImagePipeline::new(res, CharMap::custom(map), new_lines)
}

fn gray(width: u32, height: u32, data: Vec<u8>) -> GrayFrame {
    assert_eq!(data.len(), (width * height) as usize);
    GrayFrame { width, height, data }
}

#[test]
fn charmap_presets_are_nonempty_and_ordered() {
    assert_eq!(CharMap::Chars1.chars().len(), 10);
    assert_eq!(CharMap::Chars2.chars().len(), 67);
    assert_eq!(CharMap::Chars3.chars().len(), 92);
    assert_eq!(CharMap::Solid.chars(), vec!['\u{2588}']);
    assert_eq!(CharMap::Dotted.chars(), vec!['\u{28ff}']);
    assert_eq!(CharMap::Gradient.chars().len(), 5);
    assert_eq!(CharMap::BlackWhite.chars(), vec![' ', '\u{2588}']);
    assert_eq!(CharMap::BwDotted.chars(), vec![' ', '\u{28ff}']);
    assert_eq!(CharMap::Braille.chars().len(), 18);
    let c1 = CharMap::Chars1.chars();
    assert_eq!(c1.first(), Some(&' '));
    assert_eq!(c1.last(), Some(&'@'));
}

#[test]
fn charmap_custom_keeps_order() {
    let m = CharMap::custom("xyz");
    assert_eq!(m.chars(), vec!['x', 'y', 'z']);
}

#[test]
fn resolution_calc_fixed_ignores_source() {
    let img = Frame::new(4, 4, vec![0; 48]).unwrap();
    assert_eq!(Resolution::Fixed(10, 5).calc(&img), (10, 5));
}

#[test]
fn resolution_calc_divisor_scales_source() {
    let img = Frame::new(4, 4, vec![0; 48]).unwrap();
    assert_eq!(Resolution::Divisor(2).calc(&img), (2, 2));
    let wide = Frame::new(9, 5, vec![0; 135]).unwrap();
    assert_eq!(Resolution::Divisor(2).calc(&wide), (4, 2));
}

#[test]
fn to_ascii_boundary_luminances() {
    let p = pipeline(Resolution::Fixed(1, 1), "ab", false);
    assert_eq!(p.to_ascii(&gray(1, 1, vec![0])), "a");
    assert_eq!(p.to_ascii(&gray(1, 1, vec![255])), "b");
    let ten = ImagePipeline::new(Resolution::Fixed(1, 1), CharMap::Chars1, false);
    assert_eq!(ten.to_ascii(&gray(1, 1, vec![0])), " ");
    assert_eq!(ten.to_ascii(&gray(1, 1, vec![255])), "@");
}

#[test]
fn to_ascii_uses_equal_width_bins() {
    // With 4 glyphs the index is floor(4 * v / 256).
    let p = pipeline(Resolution::Fixed(1, 1), "abcd", false);
    assert_eq!(p.to_ascii(&gray(1, 1, vec![63])), "a");
    assert_eq!(p.to_ascii(&gray(1, 1, vec![64])), "b");
    assert_eq!(p.to_ascii(&gray(1, 1, vec![120])), "b");
    assert_eq!(p.to_ascii(&gray(1, 1, vec![128])), "c");
    assert_eq!(p.to_ascii(&gray(1, 1, vec![250])), "d");
}

#[test]
fn to_ascii_top_bin_of_a_table_wider_than_256() {
    // With more glyphs than luminance bins the brightest value cannot reach
    // the last glyph: floor(300 * 255 / 256) = 298.
    let table: String = (0..300u32)
        .map(|i| char::from_u32(0x4e00 + i).unwrap())
        .collect();
    let chars: Vec<char> = table.chars().collect();
    let p = pipeline(Resolution::Fixed(1, 1), &table, false);
    let out = p.to_ascii(&gray(1, 1, vec![255]));
    assert_eq!(out.chars().next(), Some(chars[298]));
}

#[test]
fn to_ascii_rows_without_line_terminators() {
    let p = pipeline(Resolution::Fixed(2, 2), "ab", false);
    assert_eq!(p.to_ascii(&gray(2, 2, vec![0, 255, 255, 0])), "abba");
}

#[test]
fn to_ascii_terminates_every_row_but_the_last() {
    let p = pipeline(Resolution::Fixed(2, 2), "ab", true);
    assert_eq!(p.to_ascii(&gray(2, 2, vec![0, 255, 255, 0])), "ab\r\nba");
}

#[test]
fn resize_divisor_halves_a_four_by_four_frame() {
    let p = pipeline(Resolution::Divisor(2), "ab", false);
    let img = Frame::new(4, 4, vec![9; 48]).unwrap();
    let out = p.resize(&img).unwrap();
    assert_eq!(out.width, 2);
    assert_eq!(out.height, 2);
    assert_eq!(out.data, vec![9; 12]);
}

#[test]
fn resize_fixed_ignores_source_size() {
    let p = pipeline(Resolution::Fixed(10, 5), "ab", false);
    let small = Frame::new(4, 4, vec![3; 48]).unwrap();
    let out = p.resize(&small).unwrap();
    assert_eq!(out.width, 10);
    assert_eq!(out.height, 5);
    assert_eq!(out.data, vec![3; 150]);
    let large = Frame::new(20, 20, vec![5; 1200]).unwrap();
    let out = p.resize(&large).unwrap();
    assert_eq!(out.width, 10);
    assert_eq!(out.height, 5);
    assert_eq!(out.data.len(), 150);
}

#[test]
fn resize_picks_nearest_pixels() {
    // A 2x2 checkerboard scaled down to 1x1 must hold one of the source
    // pixels, not a blend and not the source buffer itself.
    let p = pipeline(Resolution::Fixed(1, 1), "ab", false);
    let img = Frame::new(
        2,
        2,
        vec![0, 0, 0, 200, 200, 200, 200, 200, 200, 0, 0, 0],
    )
    .unwrap();
    let out = p.resize(&img).unwrap();
    assert_eq!(out.data.len(), 3);
    assert!(out.data == vec![0, 0, 0] || out.data == vec![200, 200, 200]);
}

#[test]
fn resize_divisor_larger_than_source_yields_empty_output() {
    let p = pipeline(Resolution::Divisor(8), "ab", false);
    let img = Frame::new(4, 4, vec![7; 48]).unwrap();
    let out = p.resize(&img).unwrap();
    assert_eq!(out.width, 0);
    assert_eq!(out.height, 0);
    assert!(out.data.is_empty());
    assert_eq!(p.to_ascii(&gray(0, 0, vec![])), "");
}

#[test]
fn resize_reports_oversized_target() {
    let p = pipeline(Resolution::Fixed(u32::MAX, u32::MAX), "ab", false);
    let img = Frame::new(1, 1, vec![0, 0, 0]).unwrap();
    match p.resize(&img) {
        Err(Error::Pipeline(_)) => {},
        _ => panic!("an impossible target size must be reported"),
    }
}

#[test]
fn set_resolution_takes_effect_on_next_resize() {
    let mut p = pipeline(Resolution::Fixed(4, 4), "ab", false);
    let img = Frame::new(8, 8, vec![1; 192]).unwrap();
    assert_eq!(p.resize(&img).unwrap().width, 4);
    p.set_resolution(Resolution::Fixed(2, 2));
    let out = p.resize(&img).unwrap();
    assert_eq!(out.width, 2);
    assert_eq!(out.height, 2);
}

#[test]
fn error_message_carries_the_cause() {
    let e = Error::Application(String::from("why"));
    assert_eq!(e.message(), "why");
    let e = Error::Pipeline(String::from("how"));
    assert_eq!(e.message(), "how");
}
