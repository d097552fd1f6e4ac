//! Loading a font from its file's bytes.
//!
//! The parsed font itself is opaque here: measuring and drawing glyphs take
//! a fractional scale, which this library does not handle, and stay with the
//! surrounding program. What is decided here is only whether the bytes parse
//! as a font at all — the pipeline's format failure.

use vstd::prelude::*;

verus! {

#[verifier::external_type_specification]
#[verifier::external_body]
pub struct ExFont<'a>(rusttype::Font<'a>);

/// Whether the bytes parse as a supported font format. Parsing reads the
/// bytes alone, so the same bytes always parse, or always fail.
pub uninterp spec fn font_parses(bytes: Seq<u8>) -> bool;

/// Relies on rusttype's `Font::try_from_bytes`: creates a font from
/// byte-slice data, and returns `None` for invalid data.
#[verifier::external_body]
fn parse_font(bytes: &[u8]) -> (r: Option<rusttype::Font<'_>>)
    ensures
        r is Some <==> font_parses(bytes@),
{
    rusttype::Font::try_from_bytes(bytes)
}

/// The font file's bytes did not parse as a supported font format: the
/// pipeline's fatal format failure.
#[derive(Clone, Copy, Debug, PartialEq, Eq, Structural)]
pub enum FontError {
    InvalidFontData,
}

/// Parses a font file's bytes into a font handle for the caller to measure
/// and draw with; fails exactly when the bytes do not parse as a supported
/// font format.
pub fn load_font(bytes: &[u8]) -> (r: Result<rusttype::Font<'_>, FontError>)
    ensures
        r is Ok <==> font_parses(bytes@),
        r is Err ==> r == Result::<rusttype::Font<'_>, FontError>::Err(
            FontError::InvalidFontData,
        ),
{
    match parse_font(bytes) {
        Some(font) => Ok(font),
        None => Err(FontError::InvalidFontData),
    }
}

} // verus!
