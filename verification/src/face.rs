//! What the crate reads from a parsed font face.
//!
//! Fonts are parsed and queried by the `owned_ttf_parser` crate, which
//! holds a `ttf_parser::Face` beside the data that it was parsed from.
//! Nothing in this file is proved: every function here makes one call into
//! that crate, on the face that `OwnedFace::as_face_ref` gives, and its
//! contract gives the answer a name, so that the rest of the crate can say
//! which answers it used. A face is not changed once a font holds it, so
//! the same question has the same answer every time.

use owned_ttf_parser::AsFaceRef;
use owned_ttf_parser::FaceParsingError;
use owned_ttf_parser::GlyphId;
use owned_ttf_parser::OwnedFace;
use vstd::prelude::*;

verus! {

#[verifier::external_type_specification]
#[verifier::external_body]
pub struct ExOwnedFace(OwnedFace);

#[verifier::external_type_specification]
pub struct ExFaceParsingError(FaceParsingError);

/// The box around a glyph's outline, in font units. Nothing is promised
/// about the order of its corners.
#[derive(Clone, Copy, Debug, PartialEq, Eq, Structural)]
pub struct GlyphBounds {
    pub x_min: i16,
    pub y_min: i16,
    pub x_max: i16,
    pub y_max: i16,
}

/// What `OwnedFace::from_vec` makes of `data` and the face number `index`.
pub uninterp spec fn face_parsed(data: Seq<u8>, index: u32) -> Result<OwnedFace, FaceParsingError>;

/// What `Face::units_per_em` answers for `face`.
pub uninterp spec fn face_units_per_em(face: OwnedFace) -> u16;

/// What `Face::ascender` answers for `face`.
pub uninterp spec fn face_ascender(face: OwnedFace) -> i16;

/// What `Face::descender` answers for `face`.
pub uninterp spec fn face_descender(face: OwnedFace) -> i16;

/// What `Face::glyph_index` answers for `face` and `code_point`.
pub uninterp spec fn face_glyph_index(face: OwnedFace, code_point: char) -> Option<u16>;

/// What `Face::glyph_bounding_box` answers for `face` and `glyph`.
pub uninterp spec fn face_bounding_box(face: OwnedFace, glyph: u16) -> Option<GlyphBounds>;

/// What `Face::glyph_hor_advance` answers for `face` and `glyph`.
pub uninterp spec fn face_hor_advance(face: OwnedFace, glyph: u16) -> Option<u16>;

/// What `Face::glyph_ver_advance` answers for `face` and `glyph`.
pub uninterp spec fn face_ver_advance(face: OwnedFace, glyph: u16) -> Option<u16>;

/// `owned_ttf_parser::OwnedFace::from_vec`: parses the face number `index`
/// of the font in `data`.
#[verifier::external_body]
pub(crate) fn parse(data: Vec<u8>, index: u32) -> (r: Result<OwnedFace, FaceParsingError>)
    ensures
        r == face_parsed(data@, index),
{
    OwnedFace::from_vec(data, index)
}

/// `ttf_parser::Face::units_per_em`, which is documented to lie between 16
/// and 16384: a face with another value does not parse.
#[verifier::external_body]
pub(crate) fn units_per_em(face: &OwnedFace) -> (r: u16)
    ensures
        r == face_units_per_em(*face),
        16 <= r <= 16384,
{
    face.as_face_ref().units_per_em()
}

/// `ttf_parser::Face::ascender`.
#[verifier::external_body]
pub(crate) fn ascender(face: &OwnedFace) -> (r: i16)
    ensures
        r == face_ascender(*face),
{
    face.as_face_ref().ascender()
}

/// `ttf_parser::Face::descender`.
#[verifier::external_body]
pub(crate) fn descender(face: &OwnedFace) -> (r: i16)
    ensures
        r == face_descender(*face),
{
    face.as_face_ref().descender()
}

/// `ttf_parser::Face::glyph_index`: the glyph that the face's character map
/// gives to `code_point`, if any.
#[verifier::external_body]
pub(crate) fn glyph_index(face: &OwnedFace, code_point: char) -> (r: Option<u16>)
    ensures
        r == face_glyph_index(*face, code_point),
{
    face.as_face_ref().glyph_index(code_point).map(|id| id.0)
}

/// `ttf_parser::Face::glyph_bounding_box`: the box around the outline of
/// `glyph`, if it has an outline.
#[verifier::external_body]
pub(crate) fn bounding_box(face: &OwnedFace, glyph: u16) -> (r: Option<GlyphBounds>)
    ensures
        r == face_bounding_box(*face, glyph),
{
    face.as_face_ref().glyph_bounding_box(GlyphId(glyph)).map(
        |b| GlyphBounds { x_min: b.x_min, y_min: b.y_min, x_max: b.x_max, y_max: b.y_max },
    )
}

/// `ttf_parser::Face::glyph_hor_advance`: how far the pen moves to the right
/// after `glyph`, if the face says.
#[verifier::external_body]
pub(crate) fn hor_advance(face: &OwnedFace, glyph: u16) -> (r: Option<u16>)
    ensures
        r == face_hor_advance(*face, glyph),
{
    face.as_face_ref().glyph_hor_advance(GlyphId(glyph))
}

/// `ttf_parser::Face::glyph_ver_advance`: how far the pen moves down after
/// `glyph`, if the face says.
#[verifier::external_body]
pub(crate) fn ver_advance(face: &OwnedFace, glyph: u16) -> (r: Option<u16>)
    ensures
        r == face_ver_advance(*face, glyph),
{
    face.as_face_ref().glyph_ver_advance(GlyphId(glyph))
}

} // verus!
