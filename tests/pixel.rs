use olc_pixel::pixel::{Pixel, PixelMode};

#[test]
fn rgba_keeps_channels() {
    let p = Pixel::rgba(1, 2, 3, 4);
    assert_eq!((p.r(), p.g(), p.b(), p.a()), (1, 2, 3, 4));
}

#[test]
fn rgb_is_opaque() {
    let p = Pixel::rgb(10, 20, 30);
    assert_eq!(p, Pixel::rgba(10, 20, 30, 255));
}

#[test]
fn palette_values() {
    assert_eq!(Pixel::GREY(), Pixel::rgb(192, 192, 192));
    assert_eq!(Pixel::DARK_GREY(), Pixel::rgb(128, 128, 128));
    assert_eq!(Pixel::VERY_DARK_GREY(), Pixel::rgb(64, 64, 64));
    assert_eq!(Pixel::RED(), Pixel::rgb(255, 0, 0));
    assert_eq!(Pixel::DARK_RED(), Pixel::rgb(128, 0, 0));
    assert_eq!(Pixel::VERY_DARK_RED(), Pixel::rgb(64, 0, 0));
    assert_eq!(Pixel::YELLOW(), Pixel::rgb(255, 255, 0));
    assert_eq!(Pixel::DARK_YELLOW(), Pixel::rgb(128, 128, 0));
    assert_eq!(Pixel::VERY_DARK_YELLOW(), Pixel::rgb(64, 64, 0));
    assert_eq!(Pixel::GREEN(), Pixel::rgb(0, 255, 0));
    assert_eq!(Pixel::DARK_GREEN(), Pixel::rgb(0, 128, 0));
    assert_eq!(Pixel::VERY_DARK_GREEN(), Pixel::rgb(0, 64, 0));
    assert_eq!(Pixel::CYAN(), Pixel::rgb(0, 255, 255));
    assert_eq!(Pixel::DARK_CYAN(), Pixel::rgb(0, 128, 128));
    assert_eq!(Pixel::VERY_DARK_CYAN(), Pixel::rgb(0, 64, 64));
    assert_eq!(Pixel::BLUE(), Pixel::rgb(0, 0, 255));
    assert_eq!(Pixel::DARK_BLUE(), Pixel::rgb(0, 0, 128));
    assert_eq!(Pixel::VERY_DARK_BLUE(), Pixel::rgb(0, 0, 64));
    assert_eq!(Pixel::MAGENTA(), Pixel::rgb(255, 0, 255));
    assert_eq!(Pixel::DARK_MAGENTA(), Pixel::rgb(128, 0, 128));
    assert_eq!(Pixel::VERY_DARK_MAGENTA(), Pixel::rgb(64, 0, 64));
    assert_eq!(Pixel::WHITE(), Pixel::rgb(255, 255, 255));
    assert_eq!(Pixel::BLACK(), Pixel::rgb(0, 0, 0));
    assert_eq!(Pixel::BLANK(), Pixel::rgba(0, 0, 0, 0));
}

#[test]
fn pixel_modes_differ() {
    assert_ne!(PixelMode::NORMAL, PixelMode::MASK);
    assert_ne!(PixelMode::MASK, PixelMode::ALPHA);
}
