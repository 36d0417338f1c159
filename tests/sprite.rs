use olc_pixel::error::ErrorKind;
use olc_pixel::font::load_font;
use olc_pixel::pixel::Pixel;
use olc_pixel::sprite::{Mode, SourceLayout, Sprite};

#[test]
fn new_sprite_is_opaque_white() {
    let s = Sprite::new(3, 2);
    assert_eq!(s.width(), 3);
    assert_eq!(s.height(), 2);
    assert_eq!(s.pitch(), 12);
    assert_eq!(s.mode(), Mode::NORMAL);
    for x in 0..3 {
        for y in 0..2 {
            assert_eq!(s.get_pixel(x, y).unwrap(), Pixel::WHITE());
        }
    }
}

#[test]
fn set_then_get_round_trip() {
    let mut s = Sprite::new(4, 3);
    let p = Pixel::rgba(9, 8, 7, 6);
    s.set_pixel(3, 2, p).unwrap();
    assert_eq!(s.get_pixel(3, 2).unwrap(), p);
    assert_eq!(s.get_pixel(2, 2).unwrap(), Pixel::WHITE());
    assert_eq!(s.get_pixel(3, 1).unwrap(), Pixel::WHITE());
}

#[test]
fn normal_mode_rejects_edges() {
    let mut s = Sprite::new(4, 3);
    assert_eq!(s.get_pixel(4, 0).unwrap_err().kind(), ErrorKind::OutOfBounds { x: 4, y: 0 });
    assert_eq!(s.get_pixel(0, 3).unwrap_err().kind(), ErrorKind::OutOfBounds { x: 0, y: 3 });
    assert!(s.set_pixel(4, 0, Pixel::RED()).is_err());
    assert!(s.set_pixel(0, 3, Pixel::RED()).is_err());
    assert!(s.get_pixel(100, 100).is_err());
}

#[test]
fn out_of_bounds_message() {
    let s = Sprite::new(4, 3);
    assert_eq!(s.get_pixel(5, 0).unwrap_err().msg(), "Out of bound: (5, 0)");
}

#[test]
fn periodic_mode_wraps() {
    let mut s = Sprite::new(4, 3);
    s.set_pixel(1, 2, Pixel::RED()).unwrap();
    s.set_sample_mode(Mode::PERIODIC);
    assert_eq!(s.mode(), Mode::PERIODIC);
    assert_eq!(s.get_pixel(5, 5).unwrap(), Pixel::RED());
    assert_eq!(s.get_pixel(9, 8).unwrap(), s.get_pixel(9 % 4, 8 % 3).unwrap());
    s.set_pixel(4, 3, Pixel::BLUE()).unwrap();
    assert_eq!(s.get_pixel(0, 0).unwrap(), Pixel::BLUE());
}

#[test]
fn rgb24_import_gets_alpha_zero() {
    let bytes = [10u8, 20, 30];
    let s = Sprite::from_image(&bytes, SourceLayout::RGB24, 1, 1, 3).unwrap();
    assert_eq!(s.get_pixel(0, 0).unwrap(), Pixel::rgba(10, 20, 30, 0));
}

#[test]
fn abgr_import_reorders_bytes() {
    let bytes = [4u8, 3, 2, 1, 40, 30, 20, 10];
    let s = Sprite::from_image(&bytes, SourceLayout::ABGR8888, 2, 1, 8).unwrap();
    assert_eq!(s.get_pixel(0, 0).unwrap(), Pixel::rgba(1, 2, 3, 4));
    assert_eq!(s.get_pixel(1, 0).unwrap(), Pixel::rgba(10, 20, 30, 40));
}

#[test]
fn rgba_import_skips_row_padding() {
    // Two rows of one pixel each, rows six bytes apart.
    let bytes = [1u8, 2, 3, 4, 99, 99, 5, 6, 7, 8, 99, 99];
    let s = Sprite::from_image(&bytes, SourceLayout::RGBA8888, 1, 2, 6).unwrap();
    assert_eq!(s.get_pixel(0, 0).unwrap(), Pixel::rgba(1, 2, 3, 4));
    assert_eq!(s.get_pixel(0, 1).unwrap(), Pixel::rgba(5, 6, 7, 8));
    assert_eq!(s.mode(), Mode::NORMAL);
}

#[test]
fn import_rejects_other_layout() {
    let bytes = [0u8; 16];
    let e = Sprite::from_image(&bytes, SourceLayout::OTHER, 2, 2, 8).unwrap_err();
    assert_eq!(e.kind(), ErrorKind::UnsupportedFormat);
}

#[test]
fn import_rejects_short_buffer() {
    let bytes = [0u8; 7];
    assert!(Sprite::from_image(&bytes, SourceLayout::RGBA8888, 2, 1, 8).is_err());
    assert!(Sprite::from_image(&bytes, SourceLayout::RGB24, 3, 1, 7).is_err());
}

#[test]
fn sample_at_clamps() {
    let mut s = Sprite::new(2, 2);
    s.set_pixel(1, 1, Pixel::GREEN()).unwrap();
    assert_eq!(s.sample_at(7, 9).unwrap(), Pixel::GREEN());
    assert_eq!(s.sample_at(0, 0).unwrap(), Pixel::WHITE());
    assert!(Sprite::new(0, 3).sample_at(0, 0).is_err());
}

#[test]
fn clone_keeps_pixels() {
    let mut s = Sprite::new(2, 1);
    s.set_pixel(1, 0, Pixel::CYAN()).unwrap();
    let t = s.clone();
    assert_eq!(t.get_pixel(1, 0).unwrap(), Pixel::CYAN());
    assert_eq!(t.width(), 2);
}

#[test]
fn font_glyph_a() {
    let font = load_font();
    assert_eq!((font.width(), font.height()), (128, 48));
    // 'A' is code 65: column 1, row 2 of the glyph grid.
    let rows = ["..###...", ".##.##..", "##...##.", "##...##.", "#######.", "##...##.", "##...##.", "........"];
    for (j, row) in rows.iter().enumerate() {
        for (i, ch) in row.chars().enumerate() {
            let p = font.get_pixel(8 + i, 16 + j).unwrap();
            if ch == '#' {
                assert_eq!(p, Pixel::rgba(255, 255, 255, 255));
            } else {
                assert_eq!(p, Pixel::rgba(0, 0, 0, 0));
            }
        }
    }
}

#[test]
fn font_lit_count() {
    let font = load_font();
    let mut lit = 0;
    for x in 0..128 {
        for y in 0..48 {
            if font.get_pixel(x, y).unwrap().r() > 0 {
                lit += 1;
            }
        }
    }
    assert_eq!(lit, 2004);
}
