//! Colours and the blend modes used when they are written.
use vstd::prelude::*;

verus! {

/// How a colour is combined with the pixel it is drawn over.
#[derive(Clone, Copy, Debug, PartialEq, Eq, Structural)]
pub enum PixelMode {
    /// The drawn colour replaces the pixel.
    NORMAL,
    /// The drawn colour replaces the pixel only when it is fully opaque.
    MASK,
    /// The drawn colour is composited over the pixel by its alpha.
    ALPHA,
}

/// An RGBA colour, 8 bits per channel; alpha 0 is transparent, 255 opaque.
#[derive(Clone, Copy, Debug, PartialEq, Eq, Structural)]
pub struct Pixel {
    r: u8,
    g: u8,
    b: u8,
    a: u8,
}

impl Pixel {
    /// The colour with the given four channels.
    pub closed spec fn spec_rgba(r: u8, g: u8, b: u8, a: u8) -> Pixel {
        Pixel { r, g, b, a }
    }

    pub closed spec fn spec_r(&self) -> u8 {
        self.r
    }

    pub closed spec fn spec_g(&self) -> u8 {
        self.g
    }

    pub closed spec fn spec_b(&self) -> u8 {
        self.b
    }

    pub closed spec fn spec_a(&self) -> u8 {
        self.a
    }

    /// The channels of a colour built from four channels are those four.
    pub broadcast proof fn lemma_channels(r: u8, g: u8, b: u8, a: u8)
        ensures
            #[trigger] Self::spec_rgba(r, g, b, a).spec_r() == r,
            Self::spec_rgba(r, g, b, a).spec_g() == g,
            Self::spec_rgba(r, g, b, a).spec_b() == b,
            Self::spec_rgba(r, g, b, a).spec_a() == a,
    {
    }

    /// A colour is determined by its four channels.
    pub broadcast proof fn lemma_from_channels(p: Pixel)
        ensures
            #[trigger] Self::spec_rgba(p.spec_r(), p.spec_g(), p.spec_b(), p.spec_a()) == p,
    {
    }

    /// Returns the colour with channels `r`, `g`, `b` and alpha `a`.
    pub fn rgba(r: u8, g: u8, b: u8, a: u8) -> (p: Self)
        ensures
            p == Self::spec_rgba(r, g, b, a),
    {
        Self { r, g, b, a }
    }

    /// Returns the fully opaque colour with channels `r`, `g`, `b`.
    pub fn rgb(r: u8, g: u8, b: u8) -> (p: Self)
        ensures
            p == Self::spec_rgba(r, g, b, 255),
    {
        Self::rgba(r, g, b, 255)
    }

    /// Red channel.
    #[verifier::when_used_as_spec(spec_r)]
    pub fn r(&self) -> (v: u8)
        ensures
            v == self.spec_r(),
    {
        self.r
    }

    /// Green channel.
    #[verifier::when_used_as_spec(spec_g)]
    pub fn g(&self) -> (v: u8)
        ensures
            v == self.spec_g(),
    {
        self.g
    }

    /// Blue channel.
    #[verifier::when_used_as_spec(spec_b)]
    pub fn b(&self) -> (v: u8)
        ensures
            v == self.spec_b(),
    {
        self.b
    }

    /// Alpha channel.
    #[verifier::when_used_as_spec(spec_a)]
    pub fn a(&self) -> (v: u8)
        ensures
            v == self.spec_a(),
    {
        self.a
    }

    // The named palette.

    #[allow(non_snake_case)]
    pub fn GREY() -> (p: Pixel)
        ensures
            p == Self::spec_rgba(192, 192, 192, 255),
    {
        Pixel::rgb(192, 192, 192)
    }

    #[allow(non_snake_case)]
    pub fn DARK_GREY() -> (p: Pixel)
        ensures
            p == Self::spec_rgba(128, 128, 128, 255),
    {
        Pixel::rgb(128, 128, 128)
    }

    #[allow(non_snake_case)]
    pub fn VERY_DARK_GREY() -> (p: Pixel)
        ensures
            p == Self::spec_rgba(64, 64, 64, 255),
    {
        Pixel::rgb(64, 64, 64)
    }

    #[allow(non_snake_case)]
    pub fn RED() -> (p: Pixel)
        ensures
            p == Self::spec_rgba(255, 0, 0, 255),
    {
        Pixel::rgb(255, 0, 0)
    }

    #[allow(non_snake_case)]
    pub fn DARK_RED() -> (p: Pixel)
        ensures
            p == Self::spec_rgba(128, 0, 0, 255),
    {
        Pixel::rgb(128, 0, 0)
    }

    #[allow(non_snake_case)]
    pub fn VERY_DARK_RED() -> (p: Pixel)
        ensures
            p == Self::spec_rgba(64, 0, 0, 255),
    {
        Pixel::rgb(64, 0, 0)
    }

    #[allow(non_snake_case)]
    pub fn YELLOW() -> (p: Pixel)
        ensures
            p == Self::spec_rgba(255, 255, 0, 255),
    {
        Pixel::rgb(255, 255, 0)
    }

    #[allow(non_snake_case)]
    pub fn DARK_YELLOW() -> (p: Pixel)
        ensures
            p == Self::spec_rgba(128, 128, 0, 255),
    {
        Pixel::rgb(128, 128, 0)
    }

    #[allow(non_snake_case)]
    pub fn VERY_DARK_YELLOW() -> (p: Pixel)
        ensures
            p == Self::spec_rgba(64, 64, 0, 255),
    {
        Pixel::rgb(64, 64, 0)
    }

    #[allow(non_snake_case)]
    pub fn GREEN() -> (p: Pixel)
        ensures
            p == Self::spec_rgba(0, 255, 0, 255),
    {
        Pixel::rgb(0, 255, 0)
    }

    #[allow(non_snake_case)]
    pub fn DARK_GREEN() -> (p: Pixel)
        ensures
            p == Self::spec_rgba(0, 128, 0, 255),
    {
        Pixel::rgb(0, 128, 0)
    }

    #[allow(non_snake_case)]
    pub fn VERY_DARK_GREEN() -> (p: Pixel)
        ensures
            p == Self::spec_rgba(0, 64, 0, 255),
    {
        Pixel::rgb(0, 64, 0)
    }

    #[allow(non_snake_case)]
    pub fn CYAN() -> (p: Pixel)
        ensures
            p == Self::spec_rgba(0, 255, 255, 255),
    {
        Pixel::rgb(0, 255, 255)
    }

    #[allow(non_snake_case)]
    pub fn DARK_CYAN() -> (p: Pixel)
        ensures
            p == Self::spec_rgba(0, 128, 128, 255),
    {
        Pixel::rgb(0, 128, 128)
    }

    #[allow(non_snake_case)]
    pub fn VERY_DARK_CYAN() -> (p: Pixel)
        ensures
            p == Self::spec_rgba(0, 64, 64, 255),
    {
        Pixel::rgb(0, 64, 64)
    }

    #[allow(non_snake_case)]
    pub fn BLUE() -> (p: Pixel)
        ensures
            p == Self::spec_rgba(0, 0, 255, 255),
    {
        Pixel::rgb(0, 0, 255)
    }

    #[allow(non_snake_case)]
    pub fn DARK_BLUE() -> (p: Pixel)
        ensures
            p == Self::spec_rgba(0, 0, 128, 255),
    {
        Pixel::rgb(0, 0, 128)
    }

    #[allow(non_snake_case)]
    pub fn VERY_DARK_BLUE() -> (p: Pixel)
        ensures
            p == Self::spec_rgba(0, 0, 64, 255),
    {
        Pixel::rgb(0, 0, 64)
    }

    #[allow(non_snake_case)]
    pub fn MAGENTA() -> (p: Pixel)
        ensures
            p == Self::spec_rgba(255, 0, 255, 255),
    {
        Pixel::rgb(255, 0, 255)
    }

    #[allow(non_snake_case)]
    pub fn DARK_MAGENTA() -> (p: Pixel)
        ensures
            p == Self::spec_rgba(128, 0, 128, 255),
    {
        Pixel::rgb(128, 0, 128)
    }

    #[allow(non_snake_case)]
    pub fn VERY_DARK_MAGENTA() -> (p: Pixel)
        ensures
            p == Self::spec_rgba(64, 0, 64, 255),
    {
        Pixel::rgb(64, 0, 64)
    }

    #[allow(non_snake_case)]
    pub fn WHITE() -> (p: Pixel)
        ensures
            p == Self::spec_rgba(255, 255, 255, 255),
    {
        Pixel::rgb(255, 255, 255)
    }

    #[allow(non_snake_case)]
    pub fn BLACK() -> (p: Pixel)
        ensures
            p == Self::spec_rgba(0, 0, 0, 255),
    {
        Pixel::rgb(0, 0, 0)
    }

    /// Fully transparent black.
    #[allow(non_snake_case)]
    pub fn BLANK() -> (p: Pixel)
        ensures
            p == Self::spec_rgba(0, 0, 0, 0),
    {
        Pixel::rgba(0, 0, 0, 0)
    }
}

pub broadcast group group_pixel {
    Pixel::lemma_channels,
    Pixel::lemma_from_channels,
}

} // verus!
