use olc_pixel::context::Context;
use olc_pixel::error::ErrorKind;
use olc_pixel::pixel::{Pixel, PixelMode};
use olc_pixel::sprite::{Flip, Mode, Sprite};

fn lit_cells(c: &Context, col: Pixel) -> Vec<(usize, usize)> {
    let t = c.draw_target();
    let mut v = Vec::new();
    for y in 0..t.height() {
        for x in 0..t.width() {
            if t.get_pixel(x, y).unwrap() == col {
                v.push((x, y));
            }
        }
    }
    v
}

#[test]
fn new_context_state() {
    let c = Context::new(20, 10);
    assert_eq!(c.screen_width(), 20);
    assert_eq!(c.screen_height(), 10);
    assert_eq!(c.draw_target().width(), 20);
    assert_eq!(c.draw_target().get_pixel(19, 9).unwrap(), Pixel::WHITE());
    assert_eq!(c.pixel_mode(), PixelMode::NORMAL);
    assert_eq!(c.pixel_blend(), 255);
    assert_eq!(c.mouse_state().mouse_x(), 0);
}

#[test]
fn clear_fills_target() {
    let mut c = Context::new(5, 4);
    c.clear(Pixel::DARK_BLUE()).unwrap();
    assert_eq!(lit_cells(&c, Pixel::DARK_BLUE()).len(), 20);
}

#[test]
fn normal_draw_overwrites() {
    let mut c = Context::new(4, 4);
    let p = Pixel::rgba(1, 2, 3, 4);
    c.draw(2, 3, p).unwrap();
    assert_eq!(c.draw_target().get_pixel(2, 3).unwrap(), p);
    assert_eq!(c.draw(4, 0, p).unwrap_err().kind(), ErrorKind::OutOfBounds { x: 4, y: 0 });
}

#[test]
fn mask_draw_opaque_overwrites() {
    let mut c = Context::new(4, 4);
    c.set_pixel_mode(PixelMode::MASK);
    c.draw(1, 1, Pixel::RED()).unwrap();
    assert_eq!(c.draw_target().get_pixel(1, 1).unwrap(), Pixel::RED());
}

#[test]
fn mask_draw_translucent_leaves_pixel() {
    let mut c = Context::new(4, 4);
    c.set_pixel_mode(PixelMode::MASK);
    c.draw(1, 1, Pixel::rgba(255, 0, 0, 254)).unwrap();
    assert_eq!(c.draw_target().get_pixel(1, 1).unwrap(), Pixel::WHITE());
    // Nothing is written, so nothing can be out of bounds either.
    assert!(c.draw(40, 40, Pixel::rgba(0, 0, 0, 0)).is_ok());
}

#[test]
fn alpha_draw_full_factor_opaque_is_overwrite() {
    let mut c = Context::new(4, 4);
    c.set_pixel_mode(PixelMode::ALPHA);
    c.draw(0, 0, Pixel::rgb(12, 34, 56)).unwrap();
    assert_eq!(c.draw_target().get_pixel(0, 0).unwrap(), Pixel::rgb(12, 34, 56));
}

#[test]
fn alpha_draw_half_transparent() {
    let mut c = Context::new(4, 4);
    c.set_pixel_mode(PixelMode::ALPHA);
    c.draw(0, 0, Pixel::rgba(200, 100, 0, 128)).unwrap();
    assert_eq!(c.draw_target().get_pixel(0, 0).unwrap(), Pixel::rgba(227, 177, 127, 128));
}

#[test]
fn alpha_draw_zero_factor_keeps_colour() {
    let mut c = Context::new(4, 4);
    c.set_pixel_mode(PixelMode::ALPHA);
    c.set_pixel_blend(-7);
    assert_eq!(c.pixel_blend(), 0);
    c.draw(0, 0, Pixel::BLACK()).unwrap();
    assert_eq!(c.draw_target().get_pixel(0, 0).unwrap(), Pixel::rgba(255, 255, 255, 0));
    assert!(c.draw(4, 4, Pixel::BLACK()).is_err());
}

#[test]
fn blend_factor_clamps() {
    let mut c = Context::new(1, 1);
    c.set_pixel_blend(300);
    assert_eq!(c.pixel_blend(), 255);
    c.set_pixel_blend(100);
    assert_eq!(c.pixel_blend(), 100);
}

#[test]
fn horizontal_line_excludes_far_end() {
    let mut c = Context::new(8, 2);
    c.draw_line(0, 0, 5, 0, Pixel::BLACK(), 0xFFFF_FFFF).unwrap();
    assert_eq!(lit_cells(&c, Pixel::BLACK()), vec![(0, 0), (1, 0), (2, 0), (3, 0), (4, 0)]);
}

#[test]
fn vertical_line_runs_from_smaller_end() {
    let mut c = Context::new(2, 8);
    c.draw_line0(1, 6, 1, 3, Pixel::BLACK()).unwrap();
    assert_eq!(lit_cells(&c, Pixel::BLACK()), vec![(1, 3), (1, 4), (1, 5)]);
}

#[test]
fn single_point_line_draws_nothing() {
    let mut c = Context::new(2, 2);
    c.draw_line0(1, 1, 1, 1, Pixel::BLACK()).unwrap();
    assert!(lit_cells(&c, Pixel::BLACK()).is_empty());
}

#[test]
fn diagonal_line_includes_both_ends() {
    let mut c = Context::new(5, 5);
    c.draw_line0(3, 3, 0, 0, Pixel::BLACK()).unwrap();
    assert_eq!(lit_cells(&c, Pixel::BLACK()), vec![(0, 0), (1, 1), (2, 2), (3, 3)]);
}

#[test]
fn shallow_line_bresenham() {
    let mut c = Context::new(5, 3);
    c.draw_line0(0, 0, 4, 2, Pixel::BLACK()).unwrap();
    assert_eq!(lit_cells(&c, Pixel::BLACK()), vec![(0, 0), (1, 1), (2, 1), (3, 2), (4, 2)]);
}

#[test]
fn shallow_line_going_up() {
    let mut c = Context::new(5, 3);
    c.draw_line0(4, 0, 0, 2, Pixel::BLACK()).unwrap();
    let mut got = lit_cells(&c, Pixel::BLACK());
    got.sort();
    assert_eq!(got, vec![(0, 2), (1, 1), (2, 1), (3, 0), (4, 0)]);
}

#[test]
fn steep_line_bresenham() {
    let mut c = Context::new(3, 5);
    c.draw_line0(0, 0, 2, 4, Pixel::BLACK()).unwrap();
    let mut got = lit_cells(&c, Pixel::BLACK());
    got.sort();
    assert_eq!(got, vec![(0, 0), (0, 1), (1, 2), (1, 3), (2, 4)]);
}

#[test]
fn stipple_pattern_skips_pixels() {
    let mut c = Context::new(8, 1);
    c.draw_line(0, 0, 8, 0, Pixel::BLACK(), 0xAAAA_AAAA).unwrap();
    assert_eq!(lit_cells(&c, Pixel::BLACK()), vec![(0, 0), (2, 0), (4, 0), (6, 0)]);
}

#[test]
fn zero_pattern_draws_nothing() {
    let mut c = Context::new(4, 4);
    c.draw_line(0, 0, 3, 3, Pixel::BLACK(), 0).unwrap();
    assert!(lit_cells(&c, Pixel::BLACK()).is_empty());
}

#[test]
fn line_stops_at_edge() {
    let mut c = Context::new(3, 1);
    let e = c.draw_line0(0, 0, 6, 0, Pixel::BLACK()).unwrap_err();
    assert_eq!(e.kind(), ErrorKind::OutOfBounds { x: 3, y: 0 });
    assert_eq!(lit_cells(&c, Pixel::BLACK()), vec![(0, 0), (1, 0), (2, 0)]);
}

#[test]
fn rect_outline_pixels() {
    let mut c = Context::new(12, 7);
    c.draw_rect(0, 0, 10, 5, Pixel::RED()).unwrap();
    let mut expected = Vec::new();
    for x in 0..10 {
        expected.push((x, 0));
        expected.push((x, 5));
    }
    for y in 0..5 {
        expected.push((10, y));
        if y > 0 {
            expected.push((0, y));
        }
    }
    expected.sort();
    let mut got = lit_cells(&c, Pixel::RED());
    got.sort();
    assert_eq!(got, expected);
    for x in 1..10 {
        for y in 1..5 {
            assert_eq!(c.draw_target().get_pixel(x, y).unwrap(), Pixel::WHITE());
        }
    }
    assert_eq!(c.draw_target().get_pixel(10, 5).unwrap(), Pixel::WHITE());
}

fn glyph_rows(c: &Context, ox: usize, oy: usize) -> Vec<String> {
    let t = c.draw_target();
    (0..8)
        .map(|j| (0..8).map(|i| if t.get_pixel(ox + i, oy + j).unwrap() == Pixel::BLACK() { '#' } else { '.' }).collect())
        .collect()
}

#[test]
fn string_newline_moves_down() {
    let mut c = Context::new(16, 16);
    c.draw_string(0, 0, "A\nB", Pixel::BLACK(), 1).unwrap();
    let a = ["..###...", ".##.##..", "##...##.", "##...##.", "#######.", "##...##.", "##...##.", "........"];
    let b = ["######..", "##...##.", "##...##.", "######..", "##...##.", "##...##.", "######..", "........"];
    assert_eq!(glyph_rows(&c, 0, 0), a);
    assert_eq!(glyph_rows(&c, 0, 8), b);
    for x in 8..16 {
        for y in 0..16 {
            assert_eq!(c.draw_target().get_pixel(x, y).unwrap(), Pixel::WHITE());
        }
    }
    assert_eq!(c.pixel_mode(), PixelMode::NORMAL);
}

#[test]
fn string_advances_right() {
    let mut c = Context::new(16, 8);
    c.draw_string(0, 0, "BA", Pixel::BLACK(), 1).unwrap();
    assert_eq!(glyph_rows(&c, 8, 0)[0], "..###...");
    assert_eq!(glyph_rows(&c, 0, 0)[0], "######..");
}

#[test]
fn string_scale_two() {
    let mut c = Context::new(16, 16);
    c.draw_string(0, 0, "A", Pixel::BLACK(), 2).unwrap();
    let t = c.draw_target();
    // Font pixel (2, 0) of 'A' is lit: it becomes the block at (4..6, 0..2).
    for (x, y) in [(4, 0), (5, 0), (4, 1), (5, 1)] {
        assert_eq!(t.get_pixel(x, y).unwrap(), Pixel::BLACK());
    }
    assert_eq!(t.get_pixel(3, 0).unwrap(), Pixel::WHITE());
}

#[test]
fn string_translucent_uses_alpha() {
    let mut c = Context::new(8, 8);
    c.set_pixel_mode(PixelMode::MASK);
    c.draw_string(0, 0, "A", Pixel::rgba(0, 0, 0, 0), 1).unwrap();
    assert_eq!(c.pixel_mode(), PixelMode::MASK);
    // Alpha 0 keeps the colour and stores alpha 0 where the glyph is lit.
    assert_eq!(c.draw_target().get_pixel(2, 0).unwrap(), Pixel::rgba(255, 255, 255, 0));
    assert_eq!(c.draw_target().get_pixel(0, 0).unwrap(), Pixel::WHITE());
}

#[test]
fn string_without_glyph_fails() {
    let mut c = Context::new(8, 8);
    let e = c.draw_string(0, 0, "\u{1}", Pixel::BLACK(), 1).unwrap_err();
    assert_eq!(e.kind(), ErrorKind::NoGlyph { code: 1 });
    assert!(c.draw_string(0, 0, "\u{e9}", Pixel::BLACK(), 1).is_err());
    assert_eq!(c.pixel_mode(), PixelMode::NORMAL);
}

fn source() -> Sprite {
    let mut s = Sprite::new(2, 2);
    s.set_pixel(0, 0, Pixel::RED()).unwrap();
    s.set_pixel(1, 0, Pixel::GREEN()).unwrap();
    s.set_pixel(0, 1, Pixel::BLUE()).unwrap();
    s.set_pixel(1, 1, Pixel::BLACK()).unwrap();
    s
}

#[test]
fn partial_sprite_copies_region() {
    let mut c = Context::new(4, 4);
    c.draw_partial_sprite(1, 1, &source(), 1, 0, 1, 2, 1, Flip::NONE).unwrap();
    let t = c.draw_target();
    assert_eq!(t.get_pixel(1, 1).unwrap(), Pixel::GREEN());
    assert_eq!(t.get_pixel(1, 2).unwrap(), Pixel::BLACK());
    assert_eq!(t.get_pixel(2, 1).unwrap(), Pixel::WHITE());
}

#[test]
fn partial_sprite_flips_horizontally() {
    let mut c = Context::new(2, 2);
    c.draw_partial_sprite(0, 0, &source(), 0, 0, 2, 2, 1, Flip::HORIZ).unwrap();
    let t = c.draw_target();
    assert_eq!(t.get_pixel(0, 0).unwrap(), Pixel::GREEN());
    assert_eq!(t.get_pixel(1, 0).unwrap(), Pixel::RED());
    assert_eq!(t.get_pixel(0, 1).unwrap(), Pixel::BLACK());
}

#[test]
fn partial_sprite_flips_vertically() {
    let mut c = Context::new(2, 2);
    c.draw_partial_sprite(0, 0, &source(), 0, 0, 2, 2, 0, Flip::VERT).unwrap();
    let t = c.draw_target();
    assert_eq!(t.get_pixel(0, 0).unwrap(), Pixel::BLUE());
    assert_eq!(t.get_pixel(1, 1).unwrap(), Pixel::GREEN());
}

#[test]
fn partial_sprite_scales() {
    let mut c = Context::new(4, 4);
    c.draw_partial_sprite(0, 0, &source(), 0, 0, 2, 2, 2, Flip::NONE).unwrap();
    let t = c.draw_target();
    assert_eq!(t.get_pixel(1, 1).unwrap(), Pixel::RED());
    assert_eq!(t.get_pixel(3, 0).unwrap(), Pixel::GREEN());
    assert_eq!(t.get_pixel(0, 3).unwrap(), Pixel::BLUE());
    assert_eq!(t.get_pixel(2, 2).unwrap(), Pixel::BLACK());
}

#[test]
fn partial_sprite_source_out_of_bounds() {
    let mut c = Context::new(4, 4);
    let e = c.draw_partial_sprite(0, 0, &source(), 1, 0, 2, 1, 1, Flip::NONE).unwrap_err();
    assert_eq!(e.kind(), ErrorKind::OutOfBounds { x: 2, y: 0 });
    assert_eq!(c.draw_target().get_pixel(0, 0).unwrap(), Pixel::GREEN());
}

#[test]
fn draw_target_mut_changes_target() {
    let mut c = Context::new(3, 3);
    c.draw_target_mut().set_pixel(2, 2, Pixel::YELLOW()).unwrap();
    c.draw_target_mut().set_sample_mode(Mode::PERIODIC);
    assert_eq!(c.draw_target().get_pixel(5, 5).unwrap(), Pixel::YELLOW());
}
