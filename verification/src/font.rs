//! A font and the metrics of its glyphs.
//!
//! Lengths are kept exact, as a count of font units beside the number of
//! units in one em; the length in ems is the first divided by the second.

use crate::face;
use crate::face::GlyphBounds;
use owned_ttf_parser::FaceParsingError;
use owned_ttf_parser::OwnedFace;
use std::sync::Arc;
use vstd::prelude::*;

verus! {

/// The number of a glyph within its font.
pub type GlyphId = u16;

/// A pair of lengths in ems: `x / units_per_em` and `y / units_per_em`.
#[derive(Clone, Copy, Debug, PartialEq, Eq, Structural)]
pub struct EmVec2 {
    pub x: i32,
    pub y: i32,
    pub units_per_em: u16,
}

/// A length in ems: `units / units_per_em`.
#[derive(Clone, Copy, Debug, PartialEq, Eq, Structural)]
pub struct EmLength {
    pub units: i32,
    pub units_per_em: u16,
}

impl EmLength {
    /// The height of a line whose top lies `ascender` font units above the
    /// baseline and whose bottom lies `descender` above it, which is below
    /// it where `descender` is negative.
    pub open spec fn between(ascender: i16, descender: i16, units_per_em: u16) -> EmLength {
        EmLength { units: (ascender - descender) as i32, units_per_em }
    }

    /// The height of a line from its ascender and descender.
    pub fn from_ascent(ascender: i16, descender: i16, units_per_em: u16) -> (r: EmLength)
        ensures
            r == EmLength::between(ascender, descender, units_per_em),
    {
        EmLength { units: ascender as i32 - descender as i32, units_per_em }
    }
}

/// The metrics of one glyph, in ems.
#[derive(Clone, Copy, Debug, PartialEq, Eq, Structural)]
pub struct GlyphInfo {
    pub id: GlyphId,
    /// How far the pen moves after the glyph, horizontally and vertically.
    pub advance: EmVec2,
    /// The lower left corner of the box around the outline.
    pub offset: EmVec2,
    /// Width and height of the box around the outline.
    pub size: EmVec2,
}

impl GlyphInfo {
    /// The metrics of the glyph `id` of a font with `units_per_em` units to
    /// the em: each length is the count of font units that the font gives,
    /// over `units_per_em`. A glyph without a box has one of size zero at
    /// the origin; an advance that the font does not give is zero.
    pub open spec fn of(
        id: GlyphId,
        units_per_em: u16,
        bounds: Option<GlyphBounds>,
        hor_advance: Option<u16>,
        ver_advance: Option<u16>,
    ) -> GlyphInfo {
        let b = match bounds {
            Some(b) => b,
            None => GlyphBounds { x_min: 0, y_min: 0, x_max: 0, y_max: 0 },
        };
        GlyphInfo {
            id,
            advance: EmVec2 {
                x: match hor_advance {
                    Some(a) => a as i32,
                    None => 0,
                },
                y: match ver_advance {
                    Some(a) => a as i32,
                    None => 0,
                },
                units_per_em,
            },
            offset: EmVec2 { x: b.x_min as i32, y: b.y_min as i32, units_per_em },
            size: EmVec2 {
                x: (b.x_max - b.x_min) as i32,
                y: (b.y_max - b.y_min) as i32,
                units_per_em,
            },
        }
    }

    /// The metrics of the glyph `id` from what its font says of it.
    pub fn new(
        id: GlyphId,
        units_per_em: u16,
        bounds: Option<GlyphBounds>,
        hor_advance: Option<u16>,
        ver_advance: Option<u16>,
    ) -> (info: GlyphInfo)
        ensures
            info == GlyphInfo::of(id, units_per_em, bounds, hor_advance, ver_advance),
    {
        let b = match bounds {
            Some(b) => b,
            None => GlyphBounds { x_min: 0, y_min: 0, x_max: 0, y_max: 0 },
        };
        let advance_x: i32 = match hor_advance {
            Some(a) => a as i32,
            None => 0,
        };
        let advance_y: i32 = match ver_advance {
            Some(a) => a as i32,
            None => 0,
        };
        GlyphInfo {
            id,
            advance: EmVec2 { x: advance_x, y: advance_y, units_per_em },
            offset: EmVec2 { x: b.x_min as i32, y: b.y_min as i32, units_per_em },
            size: EmVec2 {
                x: b.x_max as i32 - b.x_min as i32,
                y: b.y_max as i32 - b.y_min as i32,
                units_per_em,
            },
        }
    }
}

/// The metrics of a glyph are its font's counts of units, each over the
/// units in one em.
pub proof fn lemma_metrics_normalized(
    id: GlyphId,
    units_per_em: u16,
    bounds: GlyphBounds,
    hor_advance: u16,
    ver_advance: u16,
)
    ensures
        ({
            let info = GlyphInfo::of(
                id,
                units_per_em,
                Some(bounds),
                Some(hor_advance),
                Some(ver_advance),
            );
            &&& info.id == id
            &&& info.advance.x == hor_advance
            &&& info.advance.y == ver_advance
            &&& info.offset.x == bounds.x_min
            &&& info.offset.y == bounds.y_min
            &&& info.size.x == bounds.x_max - bounds.x_min
            &&& info.size.y == bounds.y_max - bounds.y_min
            &&& info.advance.units_per_em == units_per_em
            &&& info.offset.units_per_em == units_per_em
            &&& info.size.units_per_em == units_per_em
        }),
{
}

/// Why font data could not be loaded.
#[derive(Clone, Copy, Debug, PartialEq, Eq, Structural)]
pub enum FontLoaderError {
    /// The data could not be read. Reading is the host's part: this
    /// library never answers so, but the host can.
    Io,
    /// The data is not a font that can be parsed.
    FontInvalid(FontInvalid),
}

/// What is wrong with font data that cannot be parsed.
#[derive(Clone, Copy, Debug, PartialEq, Eq, Structural)]
pub enum FontInvalid {
    MalformedFont,
    UnknownMagic,
    FaceIndexOutOfBounds,
    NoHeadTable,
    NoHheaTable,
    NoMaxpTable,
}

impl FontInvalid {
    pub open spec fn of(error: FaceParsingError) -> FontInvalid {
        match error {
            FaceParsingError::MalformedFont => FontInvalid::MalformedFont,
            FaceParsingError::UnknownMagic => FontInvalid::UnknownMagic,
            FaceParsingError::FaceIndexOutOfBounds => FontInvalid::FaceIndexOutOfBounds,
            FaceParsingError::NoHeadTable => FontInvalid::NoHeadTable,
            FaceParsingError::NoHheaTable => FontInvalid::NoHheaTable,
            FaceParsingError::NoMaxpTable => FontInvalid::NoMaxpTable,
        }
    }

    pub fn from_parsing_error(error: FaceParsingError) -> (r: FontInvalid)
        ensures
            r == FontInvalid::of(error),
    {
        match error {
            FaceParsingError::MalformedFont => FontInvalid::MalformedFont,
            FaceParsingError::UnknownMagic => FontInvalid::UnknownMagic,
            FaceParsingError::FaceIndexOutOfBounds => FontInvalid::FaceIndexOutOfBounds,
            FaceParsingError::NoHeadTable => FontInvalid::NoHeadTable,
            FaceParsingError::NoHheaTable => FontInvalid::NoHheaTable,
            FaceParsingError::NoMaxpTable => FontInvalid::NoMaxpTable,
        }
    }
}

/// A parsed font, shared by its clones.
#[derive(Clone)]
pub struct Font {
    face: Arc<OwnedFace>,
}

impl Font {
    /// The face that the font holds.
    pub closed spec fn face(&self) -> OwnedFace {
        *self.face
    }

    /// The font units in one em.
    pub open spec fn spec_units_per_em(&self) -> u16 {
        face::face_units_per_em(self.face())
    }

    /// The glyph that the font gives to `code_point`, if any.
    pub open spec fn spec_glyph_index(&self, code_point: char) -> Option<GlyphId> {
        face::face_glyph_index(self.face(), code_point)
    }

    /// The box around the outline of `glyph`, if it has an outline.
    pub open spec fn spec_bounding_box(&self, glyph: GlyphId) -> Option<GlyphBounds> {
        face::face_bounding_box(self.face(), glyph)
    }

    /// The metrics of the glyph of `code_point`, if the font has one.
    pub open spec fn spec_glyph(&self, code_point: char) -> Option<GlyphInfo> {
        match self.spec_glyph_index(code_point) {
            None => None,
            Some(id) => Some(
                GlyphInfo::of(
                    id,
                    self.spec_units_per_em(),
                    self.spec_bounding_box(id),
                    face::face_hor_advance(self.face(), id),
                    face::face_ver_advance(self.face(), id),
                ),
            ),
        }
    }

    /// The distance between two lines of text: ascender less descender.
    pub open spec fn spec_line_gap(&self) -> EmLength {
        EmLength::between(
            face::face_ascender(self.face()),
            face::face_descender(self.face()),
            self.spec_units_per_em(),
        )
    }

    pub fn from(face: OwnedFace) -> (font: Font)
        ensures
            font.face() == face,
    {
        Font { face: Arc::new(face) }
    }

    /// The face that the font holds, for what only a face can do.
    pub fn as_face(&self) -> (face: &OwnedFace)
        ensures
            *face == self.face(),
    {
        &self.face
    }

    /// The font units in one em: between 16 and 16384.
    pub fn units_per_em(&self) -> (r: u16)
        ensures
            r == self.spec_units_per_em(),
            16 <= r <= 16384,
    {
        face::units_per_em(&self.face)
    }

    /// The glyph that the font gives to `code_point`, if any.
    pub fn glyph_index(&self, code_point: char) -> (r: Option<GlyphId>)
        ensures
            r == self.spec_glyph_index(code_point),
    {
        face::glyph_index(&self.face, code_point)
    }

    /// The box around the outline of `glyph`, if it has an outline.
    pub fn bounding_box(&self, glyph: GlyphId) -> (r: Option<GlyphBounds>)
        ensures
            r == self.spec_bounding_box(glyph),
    {
        face::bounding_box(&self.face, glyph)
    }

    /// The metrics of the glyph of `code_point`: none if the font has no
    /// glyph for it.
    pub fn glyph(&self, code_point: char) -> (r: Option<GlyphInfo>)
        ensures
            r == self.spec_glyph(code_point),
    {
        let id = match face::glyph_index(&self.face, code_point) {
            Some(id) => id,
            None => {
                return None;
            },
        };
        let bounds = face::bounding_box(&self.face, id);
        let units_per_em = face::units_per_em(&self.face);
        let hor_advance = face::hor_advance(&self.face, id);
        let ver_advance = face::ver_advance(&self.face, id);
        Some(GlyphInfo::new(id, units_per_em, bounds, hor_advance, ver_advance))
    }

    /// The distance between two lines of text.
    pub fn line_gap(&self) -> (r: EmLength)
        ensures
            r == self.spec_line_gap(),
    {
        EmLength::from_ascent(
            face::ascender(&self.face),
            face::descender(&self.face),
            face::units_per_em(&self.face),
        )
    }
}

/// Makes fonts of font files.
#[derive(Clone, Copy, Debug, Default)]
pub struct FontLoader;

impl FontLoader {
    /// Parses the first face of the font in `data`.
    pub fn load(&self, data: Vec<u8>) -> (r: Result<Font, FontLoaderError>)
        ensures
            match face::face_parsed(data@, 0) {
                Ok(face) => r matches Ok(font) && font.face() == face,
                Err(error) => r == Err::<Font, FontLoaderError>(
                    FontLoaderError::FontInvalid(FontInvalid::of(error)),
                ),
            },
    {
        match face::parse(data, 0) {
            Ok(face) => Ok(Font::from(face)),
            Err(error) => Err(FontLoaderError::FontInvalid(FontInvalid::from_parsing_error(error))),
        }
    }

    /// The endings of the names of font files.
    pub fn extensions(&self) -> (r: Vec<&'static str>)
        ensures
            r@.len() == 2,
            r@[0]@ == "ttf"@,
            r@[1]@ == "otf"@,
    {
        let mut extensions: Vec<&'static str> = Vec::new();
        extensions.push("ttf");
        extensions.push("otf");
        extensions
    }
}

} // verus!
