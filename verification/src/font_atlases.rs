//! The atlases of all fonts, each under the number that its font is known
//! by.

use crate::bitmap::RasterizedBitmap;
use crate::font::Font;
use crate::font_data::code;
use crate::font_data::FontData;
use crate::font_data::FontDataView;
use crate::font_data::GlyphError;
use crate::font_data::RasterJob;
use crate::page_size::page_size_allowed;
use crate::page_size::page_size_for;
use std::collections::HashMap;
use vstd::prelude::*;

verus! {

/// What a font is known by.
pub type FontId = u128;

/// The atlases of all fonts.
pub struct FontAtlases {
    font_data: HashMap<FontId, FontData>,
}

impl View for FontAtlases {
    type V = Map<FontId, FontDataView>;

    closed spec fn view(&self) -> Map<FontId, FontDataView> {
        Map::new(
            |id: FontId| self.font_data@.contains_key(id),
            |id: FontId| self.font_data@[id]@,
        )
    }
}

impl FontAtlases {
    /// The atlas of every font is sound.
    pub closed spec fn wf(&self) -> bool {
        forall|id: FontId| #[trigger]
            self.font_data@.contains_key(id) ==> self.font_data@[id].wf()
    }

    /// The atlas of the font `font_id`.
    pub closed spec fn spec_data(&self, font_id: FontId) -> Option<FontData> {
        if self.font_data@.contains_key(font_id) {
            Some(self.font_data@[font_id])
        } else {
            None
        }
    }

    /// `spec_data` and the view show the same atlases, each of them sound.
    pub proof fn lemma_data(&self, font_id: FontId)
        requires
            self.wf(),
        ensures
            self.spec_data(font_id) is Some <==> self@.contains_key(font_id),
            self.spec_data(font_id) matches Some(data) ==> data.wf() && data@ == self@[font_id],
    {
    }

    /// No font has an atlas yet.
    pub fn new() -> (atlases: FontAtlases)
        ensures
            atlases.wf(),
            atlases@ == Map::<FontId, FontDataView>::empty(),
    {
        let atlases = FontAtlases { font_data: HashMap::new() };
        assert(atlases@ =~= Map::<FontId, FontDataView>::empty());
        atlases
    }

    /// Asks the atlas of the font `font_id` for each of `chars` in turn, and
    /// answers with the glyphs to draw. Without the font nothing happens. An
    /// atlas is made for a font that has none yet.
    pub fn add_code_points(&mut self, chars: &[char], font_id: FontId, font: Option<&Font>) -> (r:
        Result<Vec<RasterJob>, GlyphError>)
        requires
            old(self).wf(),
        ensures
            final(self).wf(),
            font is None ==> final(self)@ == old(self)@ && r matches Err(
                GlyphError::FontUnresolved,
            ),
            font matches Some(f) ==> {
                let start = if old(self)@.contains_key(font_id) {
                    old(self)@[font_id]
                } else {
                    FontDataView::empty(f.spec_line_gap())
                };
                &&& final(self)@ == old(self)@.insert(font_id, start.request_all(chars@, *f).0)
                &&& r matches Ok(jobs) && jobs@ == start.request_all(chars@, *f).1
            },
    {
        let font = match font {
            Some(font) => font,
            None => {
                return Err(GlyphError::FontUnresolved);
            },
        };
        let mut data = match self.font_data.remove(&font_id) {
            Some(data) => data,
            None => FontData::from(font),
        };
        let ghost start = data@;
        let mut jobs: Vec<RasterJob> = Vec::new();
        let mut index: usize = 0;
        while index < chars.len()
            invariant
                0 <= index <= chars.len(),
                data.wf(),
                (data@, jobs@) == start.request_all(chars@.take(index as int), *font),
            decreases chars.len() - index,
        {
            proof {
                assert(chars@.take(index + 1).drop_last() =~= chars@.take(index as int));
            }
            match data.request_glyph(chars[index], font) {
                Ok(job) => {
                    jobs.push(job);
                },
                Err(_) => {},
            }
            index = index + 1;
        }
        proof {
            assert(chars@.take(chars.len() as int) =~= chars@);
        }
        self.font_data.insert(font_id, data);
        proof {
            assert(self@ =~= old(self)@.insert(font_id, start.request_all(chars@, *font).0));
        }
        Ok(jobs)
    }

    /// Hands the bitmap `texture`, drawn for `code_point`, to the atlas of
    /// the font `font_id`, which packs it: see `FontData::add_glyph`.
    /// Without an atlas for the font nothing happens.
    pub fn add_glyph(
        &mut self,
        font_id: FontId,
        code_point: char,
        texture: &RasterizedBitmap,
    ) -> (r: Result<usize, GlyphError>)
        requires
            old(self).wf(),
            texture.wf(),
            page_size_allowed(page_size_for(texture.spec_max_side())),
        ensures
            final(self).wf(),
            old(self).spec_data(font_id) is None ==> final(self)@ == old(self)@ && r == Err::<
                usize,
                GlyphError,
            >(GlyphError::FontUnresolved),
            old(self).spec_data(font_id) matches Some(data) ==> {
                if data@.pending.contains(code(code_point)) {
                    let placed = data@.place(
                        code_point,
                        data.first_fit(texture.spec_width(), texture.spec_height()),
                        *texture,
                    );
                    final(self)@ == old(self)@.insert(font_id, placed.0) && r == placed.1
                } else {
                    final(self)@ == old(self)@ && r == Err::<usize, GlyphError>(
                        GlyphError::NotPending,
                    )
                }
            },
    {
        let mut data = match self.font_data.remove(&font_id) {
            Some(data) => data,
            None => {
                assert(self@ =~= old(self)@);
                return Err(GlyphError::FontUnresolved);
            },
        };
        let r = data.add_glyph(code_point, texture);
        self.font_data.insert(font_id, data);
        proof {
            assert(self@ =~= old(self)@.insert(font_id, data@));
            assert(old(self)@.insert(font_id, old(self)@[font_id]) =~= old(self)@);
        }
        r
    }

    /// The atlas of the font `font_id`, if it has one.
    pub fn data(&self, font_id: FontId) -> (data: Option<&FontData>)
        ensures
            data is Some <==> self@.contains_key(font_id),
            data matches Some(d) ==> d@ == self@[font_id] && Some(*d) == self.spec_data(font_id),
    {
        self.font_data.get(&font_id)
    }

    /// Whether a bitmap was packed onto the page `atlas` of the font
    /// `font_id` since this was last asked: see `FontData::take_dirty`.
    pub fn take_dirty(&mut self, font_id: FontId, atlas: usize) -> (dirty: bool)
        requires
            old(self).wf(),
        ensures
            final(self).wf(),
            !old(self)@.contains_key(font_id) ==> !dirty && final(self)@ == old(self)@,
            old(self)@.contains_key(font_id) ==> {
                let before = old(self)@[font_id];
                if atlas < before.pages.len() {
                    dirty == before.pages[atlas as int].dirty && final(self)@ == old(self)@.insert(
                        font_id,
                        FontDataView {
                            pages: before.pages.update(
                                atlas as int,
                                crate::atlas_page::FontAtlasView {
                                    dirty: false,
                                    ..before.pages[atlas as int]
                                },
                            ),
                            ..before
                        },
                    )
                } else {
                    !dirty && final(self)@ == old(self)@
                }
            },
    {
        let mut data = match self.font_data.remove(&font_id) {
            Some(data) => data,
            None => {
                assert(self@ =~= old(self)@);
                return false;
            },
        };
        let dirty = data.take_dirty(atlas);
        self.font_data.insert(font_id, data);
        proof {
            assert(self@ =~= old(self)@.insert(font_id, data@));
            assert(old(self)@.insert(font_id, old(self)@[font_id]) =~= old(self)@);
        }
        dirty
    }
}

} // verus!
