//! The one error of the library: a failed bounds or format check, with a
//! human-readable message.
use vstd::prelude::*;
use vstd::string::*;

verus! {

/// What went wrong.
#[derive(Clone, Copy, Debug, PartialEq, Eq, Structural)]
pub enum ErrorKind {
    /// A pixel access at `(x, y)` fell outside a sprite.
    OutOfBounds { x: usize, y: usize },
    /// Image bytes came in a layout that cannot be imported, or did not fit
    /// the declared size.
    UnsupportedFormat,
    /// Text held a character that the font has no glyph for.
    NoGlyph { code: u32 },
    /// A screen or pixel size that the host loop cannot run with.
    InvalidSize { width: usize, height: usize },
}

/// Error of the drawing and sprite operations.
#[derive(Clone, Debug)]
pub struct PGError {
    kind: ErrorKind,
    msg: String,
}

pub type Result<T> = core::result::Result<T, PGError>;

/// Names the text that std's formatting writes for `"{what}: ({x}, {y})"`.
pub uninterp spec fn pair_text(what: Seq<char>, x: usize, y: usize) -> Seq<char>;

/// Relies on std's `format!`, which writes the label, then the two numbers
/// in decimal between parentheses; the text depends on the arguments alone.
#[verifier::external_body]
fn describe_pair(what: &str, x: usize, y: usize) -> (r: String)
    ensures
        r@ == pair_text(what@, x, y),
{
    format!("{}: ({}, {})", what, x, y)
}

impl PGError {
    pub closed spec fn spec_kind(&self) -> ErrorKind {
        self.kind
    }

    pub closed spec fn spec_msg(&self) -> Seq<char> {
        self.msg@
    }

    /// The error of a pixel access at `(x, y)` outside a sprite.
    pub fn out_of_bounds(x: usize, y: usize) -> (e: Self)
        ensures
            e.spec_kind() == (ErrorKind::OutOfBounds { x, y }),
            e.spec_msg() == pair_text("Out of bound"@, x, y),
    {
        PGError { kind: ErrorKind::OutOfBounds { x, y }, msg: describe_pair("Out of bound", x, y) }
    }

    /// The error of image bytes that cannot be imported.
    pub fn unsupported_format() -> (e: Self)
        ensures
            e.spec_kind() == ErrorKind::UnsupportedFormat,
    {
        PGError { kind: ErrorKind::UnsupportedFormat, msg: String::from_str("Unsupported pixel format") }
    }

    /// The error of a character without a glyph.
    pub fn no_glyph(c: char) -> (e: Self)
        ensures
            e.spec_kind() == (ErrorKind::NoGlyph { code: c as u32 }),
    {
        PGError { kind: ErrorKind::NoGlyph { code: c as u32 }, msg: String::from_str("No glyph for character") }
    }

    /// The error of a screen or pixel size that cannot be used; `what` names
    /// which of the two it is.
    pub fn invalid_size(what: &str, width: usize, height: usize) -> (e: Self)
        ensures
            e.spec_kind() == (ErrorKind::InvalidSize { width, height }),
            e.spec_msg() == pair_text(what@, width, height),
    {
        PGError { kind: ErrorKind::InvalidSize { width, height }, msg: describe_pair(what, width, height) }
    }

    /// What went wrong.
    #[verifier::when_used_as_spec(spec_kind)]
    pub fn kind(&self) -> (k: ErrorKind)
        ensures
            k == self.spec_kind(),
    {
        self.kind
    }

    /// The message, for people.
    pub fn msg(&self) -> (m: &str)
        ensures
            m@ == self.spec_msg(),
    {
        self.msg.as_str()
    }
}

} // verus!
