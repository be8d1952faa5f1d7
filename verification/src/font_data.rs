//! The atlas of one font: its pages, and what is known of every code point
//! that was asked for.
//!
//! A glyph gets onto a page in two steps, because the bitmap is drawn
//! elsewhere. `request_glyph` resolves the metrics of a code point and says
//! which glyph to draw; `add_glyph` takes the bitmap and packs it.

use crate::atlas_page::FontAtlas;
use crate::atlas_page::FontAtlasView;
use crate::bitmap::RasterizedBitmap;
use crate::face::GlyphBounds;
use crate::font::EmLength;
use crate::font::Font;
use crate::font::GlyphId;
use crate::font::GlyphInfo;
use crate::page_size::containing_size;
use crate::page_size::is_page_size;
use crate::page_size::lemma_allowed_side;
use crate::page_size::page_size_allowed;
use crate::page_size::page_size_for;
use crate::rect::PixelRect;
use crate::rect::UvRect;
use std::collections::HashMap;
use std::collections::HashSet;
use vstd::prelude::*;

verus! {

/// The texels of falloff that a distance field has around its glyph.
pub const DISTANCE_RANGE: u8 = 6;

/// Why a code point has no bitmap on a page.
#[derive(Clone, Copy, Debug, PartialEq, Eq, Structural)]
pub enum GlyphError {
    /// The code point was asked for before.
    AlreadyAttempted,
    /// The font has no glyph for the code point.
    GlyphNotMapped,
    /// The glyph has no outline, so there is nothing to draw.
    EmptyBounds,
    /// No bitmap is awaited for the code point.
    NotPending,
    /// The bitmap did not fit the page that was made for it.
    UnplaceableOnFreshPage,
    /// The font is not there.
    FontUnresolved,
}

/// A glyph to draw as a distance field.
#[derive(Clone, Copy, Debug, PartialEq, Eq, Structural)]
pub struct RasterJob {
    pub code_point: char,
    pub glyph_id: GlyphId,
    /// The box around the outline, in font units.
    pub bounds: GlyphBounds,
    pub units_per_em: u16,
    /// The texels of falloff to leave around the glyph.
    pub range: u8,
}

/// The number of a code point: what the atlas knows it by.
pub open spec fn code(code_point: char) -> u32 {
    code_point as u32
}

/// What the atlas of a font holds.
pub struct FontDataView {
    /// The pages, in the order in which they were made.
    pub pages: Seq<FontAtlasView>,
    /// The code points that were asked for.
    pub attempted: Set<u32>,
    /// The code points whose bitmap is awaited.
    pub pending: Set<u32>,
    /// The page that holds the bitmap of a code point.
    pub page_of: Map<u32, usize>,
    /// The metrics of the code points that the font has a glyph for.
    pub metrics: Map<u32, GlyphInfo>,
    /// The texels of falloff around every glyph.
    pub range: u8,
    /// The distance between two lines of text.
    pub line_gap: EmLength,
}

impl FontDataView {
    /// Every page is sound and has a side that is a power of two from 1024
    /// up. Only code points that were asked for have metrics, only those
    /// with metrics await a bitmap or have a page, and none does both. The
    /// page of a code point exists and holds the bitmap of its glyph.
    pub open spec fn wf(&self) -> bool {
        &&& self.pages.len() <= usize::MAX
        &&& forall|i: int|
            0 <= i < self.pages.len() ==> (#[trigger] self.pages[i]).wf() && is_page_size(
                self.pages[i].size as int,
            )
        &&& forall|c: u32| #[trigger]
            self.metrics.contains_key(c) ==> self.attempted.contains(c)
        &&& forall|c: u32| #[trigger]
            self.pending.contains(c) ==> self.metrics.contains_key(c)
                && !self.page_of.contains_key(c)
        &&& forall|c: u32| #[trigger]
            self.page_of.contains_key(c) ==> {
                &&& self.metrics.contains_key(c)
                &&& self.page_of[c] < self.pages.len()
                &&& self.pages[self.page_of[c] as int].glyphs.contains_key(self.metrics[c].id)
            }
    }

    /// The atlas of a font before any code point was asked for.
    pub open spec fn empty(line_gap: EmLength) -> FontDataView {
        FontDataView {
            pages: Seq::empty(),
            attempted: Set::empty(),
            pending: Set::empty(),
            page_of: Map::empty(),
            metrics: Map::empty(),
            range: DISTANCE_RANGE,
            line_gap,
        }
    }

    /// What asking for `code_point` does, and what it answers, where `glyph`
    /// is what the font has for the code point and `bounds` the box around
    /// the outline of that glyph. A code point is looked at once: asked for
    /// again, nothing changes. The first time it counts as asked for,
    /// whatever follows. If the font has a glyph for it, the metrics are
    /// kept; if that glyph has an outline, its bitmap is awaited from then
    /// on, and the answer says what to draw.
    pub open spec fn record(
        self,
        code_point: char,
        glyph: Option<GlyphInfo>,
        bounds: Option<GlyphBounds>,
    ) -> (FontDataView, Result<RasterJob, GlyphError>) {
        if self.attempted.contains(code(code_point)) {
            (self, Err(GlyphError::AlreadyAttempted))
        } else {
            let marked = FontDataView {
                attempted: self.attempted.insert(code(code_point)),
                ..self
            };
            match glyph {
                None => (marked, Err(GlyphError::GlyphNotMapped)),
                Some(info) => {
                    let known = FontDataView {
                        metrics: self.metrics.insert(code(code_point), info),
                        ..marked
                    };
                    match bounds {
                        None => (known, Err(GlyphError::EmptyBounds)),
                        Some(bounds) => (
                            FontDataView {
                                pending: self.pending.insert(code(code_point)),
                                ..known
                            },
                            Ok(
                                RasterJob {
                                    code_point,
                                    glyph_id: info.id,
                                    bounds,
                                    units_per_em: info.advance.units_per_em,
                                    range: self.range,
                                },
                            ),
                        ),
                    }
                },
            }
        }
    }

    /// What asking for `code_point` does, and what it answers, with the
    /// font `font`.
    pub open spec fn request(self, code_point: char, font: Font) -> (
        FontDataView,
        Result<RasterJob, GlyphError>,
    ) {
        self.record(
            code_point,
            font.spec_glyph(code_point),
            match font.spec_glyph(code_point) {
                Some(info) => font.spec_bounding_box(info.id),
                None => None,
            },
        )
    }

    /// What asking for every one of `chars` in turn does, and the glyphs to
    /// draw that this answers, in their order.
    pub open spec fn request_all(self, chars: Seq<char>, font: Font) -> (
        FontDataView,
        Seq<RasterJob>,
    )
        decreases chars.len(),
    {
        if chars.len() == 0 {
            (self, Seq::empty())
        } else {
            let (before, jobs) = self.request_all(chars.drop_last(), font);
            let (after, answer) = before.request(chars.last(), font);
            (
                after,
                match answer {
                    Ok(job) => jobs.push(job),
                    Err(_) => jobs,
                },
            )
        }
    }

    /// What packing the awaited bitmap `texture` of `code_point` does, and
    /// what it answers, where `fit` is the first page with room for it and
    /// the place on that page. With such a page, the bitmap goes there. With
    /// none, a page is made that is sized for the bitmap, and the bitmap
    /// goes into its upper left corner; should not even that page have room,
    /// it stays empty and the code point stays without a page. Either way
    /// the bitmap is awaited no longer.
    pub open spec fn place(
        self,
        code_point: char,
        fit: Option<(int, PixelRect)>,
        texture: RasterizedBitmap,
    ) -> (FontDataView, Result<usize, GlyphError>) {
        let id = self.metrics[code(code_point)].id;
        let rest = FontDataView { pending: self.pending.remove(code(code_point)), ..self };
        match fit {
            Some((page, rect)) => (
                FontDataView {
                    pages: self.pages.update(
                        page,
                        self.pages[page].insert(id, rect, texture.pixels()),
                    ),
                    page_of: self.page_of.insert(code(code_point), page as usize),
                    ..rest
                },
                Ok(page as usize),
            ),
            None => {
                let size = page_size_for(texture.spec_max_side()) as u32;
                let fresh = FontAtlasView::empty(size);
                match FontAtlas::fresh_fit(size, texture.spec_width(), texture.spec_height()) {
                    Some(rect) => (
                        FontDataView {
                            pages: self.pages.push(fresh.insert(id, rect, texture.pixels())),
                            page_of: self.page_of.insert(
                                code(code_point),
                                self.pages.len() as usize,
                            ),
                            ..rest
                        },
                        Ok(self.pages.len() as usize),
                    ),
                    None => (
                        FontDataView { pages: self.pages.push(fresh), ..rest },
                        Err(GlyphError::UnplaceableOnFreshPage),
                    ),
                }
            },
        }
    }

    /// The texture coordinates of `glyph` on the first page that holds it.
    pub open spec fn lookup(&self, glyph: GlyphId) -> Option<UvRect> {
        Self::lookup_in(self.pages, glyph, self.range)
    }

    /// The texture coordinates of `glyph` on the first of `pages` that holds
    /// it.
    pub open spec fn lookup_in(pages: Seq<FontAtlasView>, glyph: GlyphId, range: u8) -> Option<
        UvRect,
    >
        decreases pages.len(),
    {
        if pages.len() == 0 {
            None
        } else {
            match Self::lookup_in(pages.drop_last(), glyph, range) {
                Some(uv) => Some(uv),
                None => pages.last().lookup(glyph, range),
            }
        }
    }

    /// The texture coordinates of `glyph` on the page `page`.
    pub open spec fn lookup_on(&self, page: int, glyph: GlyphId) -> Option<UvRect> {
        if 0 <= page < self.pages.len() {
            self.pages[page].lookup(glyph, self.range)
        } else {
            None
        }
    }
}

/// The first of `pages` with room for a bitmap of `width` by `height`
/// texels, and the place that it has for it.
pub open spec fn first_fit_in(pages: Seq<FontAtlas>, width: int, height: int) -> Option<
    (int, PixelRect),
>
    decreases pages.len(),
{
    if pages.len() == 0 {
        None
    } else {
        match first_fit_in(pages.drop_last(), width, height) {
            Some(found) => Some(found),
            None => match pages.last().fit(width, height) {
                Some(rect) => Some((pages.len() - 1, rect)),
                None => None,
            },
        }
    }
}

/// What is first among some pages is first among all of them.
proof fn lemma_first_fit_extends(pages: Seq<FontAtlas>, count: int, width: int, height: int)
    requires
        0 <= count <= pages.len(),
        first_fit_in(pages.take(count), width, height) is Some,
    ensures
        first_fit_in(pages, width, height) == first_fit_in(pages.take(count), width, height),
    decreases pages.len() - count,
{
    if count < pages.len() {
        assert(pages.take(count + 1).drop_last() =~= pages.take(count));
        lemma_first_fit_extends(pages, count + 1, width, height);
    } else {
        assert(pages.take(count) =~= pages);
    }
}

/// The atlas of one font.
pub struct FontData {
    atlases: Vec<FontAtlas>,
    added: HashSet<u32>,
    pending: HashSet<u32>,
    code_point_to_atlas: HashMap<u32, usize>,
    code_point_to_glyph_info: HashMap<u32, GlyphInfo>,
    range: u8,
    line_gap: EmLength,
}

impl View for FontData {
    type V = FontDataView;

    closed spec fn view(&self) -> FontDataView {
        FontDataView {
            pages: self.atlases@.map_values(|page: FontAtlas| page@),
            attempted: self.added@,
            pending: self.pending@,
            page_of: self.code_point_to_atlas@,
            metrics: self.code_point_to_glyph_info@,
            range: self.range,
            line_gap: self.line_gap,
        }
    }
}

impl FontData {
    /// The pages themselves.
    pub closed spec fn pages(&self) -> Seq<FontAtlas> {
        self.atlases@
    }

    /// The atlas is as its view says, which is sound, and so is every page.
    pub closed spec fn wf(&self) -> bool {
        &&& self@.wf()
        &&& forall|i: int| 0 <= i < self.atlases@.len() ==> (#[trigger] self.atlases@[i]).wf()
    }

    /// The first page with room for a bitmap of `width` by `height` texels,
    /// and the place that it has for it.
    pub open spec fn first_fit(&self, width: int, height: int) -> Option<(int, PixelRect)> {
        first_fit_in(self.pages(), width, height)
    }

    /// A sound atlas has a sound view, which shows every page.
    pub proof fn lemma_view_wf(&self)
        requires
            self.wf(),
        ensures
            self@.wf(),
            self@.pages.len() == self.pages().len(),
            forall|i: int|
                0 <= i < self.pages().len() ==> (#[trigger] self.pages()[i]).wf()
                    && self.pages()[i]@ == self@.pages[i],
    {
    }

    /// The atlas of the font `face`, with no page and no code point.
    pub fn from(face: &Font) -> (data: FontData)
        ensures
            data.wf(),
            data@ == FontDataView::empty(face.spec_line_gap()),
    {
        let data = FontData {
            atlases: Vec::new(),
            added: HashSet::new(),
            pending: HashSet::new(),
            code_point_to_atlas: HashMap::new(),
            code_point_to_glyph_info: HashMap::new(),
            range: DISTANCE_RANGE,
            line_gap: face.line_gap(),
        };
        proof {
            let empty = FontDataView::empty(face.spec_line_gap());
            assert(data@.pages =~= empty.pages);
            assert(data@.attempted =~= empty.attempted);
            assert(data@.pending =~= empty.pending);
            assert(data@.page_of =~= empty.page_of);
            assert(data@.metrics =~= empty.metrics);
        }
        data
    }

    /// Whether `code_point` was asked for.
    pub fn has_glyph(&self, code_point: char) -> (r: bool)
        ensures
            r == self@.attempted.contains(code(code_point)),
    {
        self.added.contains(&(code_point as u32))
    }

    /// Asks for `code_point`, with what the font says of it: the glyph that
    /// it has for the code point, and the box around the outline of that
    /// glyph. See `FontDataView::record`.
    pub fn record_glyph(
        &mut self,
        code_point: char,
        glyph: Option<GlyphInfo>,
        bounds: Option<GlyphBounds>,
    ) -> (r: Result<RasterJob, GlyphError>)
        requires
            old(self).wf(),
        ensures
            final(self).wf(),
            final(self).pages() == old(self).pages(),
            (final(self)@, r) == old(self)@.record(code_point, glyph, bounds),
    {
        let key: u32 = code_point as u32;
        if self.added.contains(&key) {
            return Err(GlyphError::AlreadyAttempted);
        }
        self.added.insert(key);
        let info = match glyph {
            Some(info) => info,
            None => {
                return Err(GlyphError::GlyphNotMapped);
            },
        };
        self.code_point_to_glyph_info.insert(key, info);
        proof {
            let before = old(self)@;
            assert(!before.metrics.contains_key(key));
            assert(!before.page_of.contains_key(key));
            assert(self@.pages == before.pages);
            assert(self@.pending == before.pending);
            assert(self@.page_of == before.page_of);
            assert(self@.metrics == before.metrics.insert(key, info));
            assert forall|c: u32| #[trigger] self@.pending.contains(c) implies self@.metrics.contains_key(
                c,
            ) by {
                assert(before.pending.contains(c));
                assert(before.metrics.contains_key(c));
            }
            assert(self@.wf());
        }
        let bounds = match bounds {
            Some(bounds) => bounds,
            None => {
                return Err(GlyphError::EmptyBounds);
            },
        };
        self.pending.insert(key);
        Ok(
            RasterJob {
                code_point,
                glyph_id: info.id,
                bounds,
                units_per_em: info.advance.units_per_em,
                range: self.range,
            },
        )
    }

    /// Asks for `code_point`: see `FontDataView::request`. The font is
    /// looked at only for a code point that was not asked for before.
    pub fn request_glyph(&mut self, code_point: char, font: &Font) -> (r: Result<
        RasterJob,
        GlyphError,
    >)
        requires
            old(self).wf(),
        ensures
            final(self).wf(),
            final(self).pages() == old(self).pages(),
            (final(self)@, r) == old(self)@.request(code_point, *font),
    {
        if self.has_glyph(code_point) {
            return Err(GlyphError::AlreadyAttempted);
        }
        let glyph = font.glyph(code_point);
        let bounds = match glyph {
            Some(info) => font.bounding_box(info.id),
            None => None,
        };
        self.record_glyph(code_point, glyph, bounds)
    }

    /// Packs the bitmap `texture`, drawn for `code_point`, onto the first
    /// page that has room for it, or onto a new page: see
    /// `FontDataView::place`. Where no bitmap is awaited for `code_point`,
    /// nothing changes.
    pub fn add_glyph(&mut self, code_point: char, texture: &RasterizedBitmap) -> (r: Result<
        usize,
        GlyphError,
    >)
        requires
            old(self).wf(),
            texture.wf(),
            page_size_allowed(page_size_for(texture.spec_max_side())),
        ensures
            final(self).wf(),
            !old(self)@.pending.contains(code(code_point)) ==> final(self)@ == old(self)@ && r
                == Err::<usize, GlyphError>(GlyphError::NotPending),
            old(self)@.pending.contains(code(code_point)) ==> (final(self)@, r) == old(
                self,
            )@.place(
                code_point,
                old(self).first_fit(texture.spec_width(), texture.spec_height()),
                *texture,
            ),
    {
        let key: u32 = code_point as u32;
        if !self.pending.contains(&key) {
            return Err(GlyphError::NotPending);
        }
        let ghost start = old(self)@;
        let ghost start_pages = old(self).atlases@;
        proof {
            assert(start.pending.contains(key));
            assert(start.metrics.contains_key(key));
            assert(!start.page_of.contains_key(key));
        }
        self.pending.remove(&key);
        let glyph_id: GlyphId = match self.code_point_to_glyph_info.get(&key) {
            Some(info) => info.id,
            None => {
                assert(false);
                return Err(GlyphError::NotPending);
            },
        };
        let ghost width = texture.spec_width();
        let ghost height = texture.spec_height();
        let count: usize = self.atlases.len();
        let mut index: usize = 0;
        while index < count
            invariant
                start == old(self)@,
                start_pages == old(self).atlases@,
                key == code(code_point),
                !start.page_of.contains_key(key),
                page_size_allowed(page_size_for(texture.spec_max_side())),
                start.wf(),
                start.pending.contains(key),
                start.metrics.contains_key(key),
                start.metrics[key].id == glyph_id,
                texture.wf(),
                width == texture.spec_width(),
                height == texture.spec_height(),
                count == self.atlases@.len(),
                count == start_pages.len(),
                0 <= index <= count,
                self.added@ == start.attempted,
                self.pending@ == start.pending.remove(key),
                self.code_point_to_atlas@ == start.page_of,
                self.code_point_to_glyph_info@ == start.metrics,
                self.range == start.range,
                self.line_gap == start.line_gap,
                forall|i: int| 0 <= i < count ==> (#[trigger] self.atlases@[i]).wf(),
                forall|i: int| 0 <= i < count ==> (#[trigger] self.atlases@[i])@ == start.pages[i],
                forall|i: int| index <= i < count ==> #[trigger] self.atlases@[i] == start_pages[i],
                first_fit_in(start_pages.take(index as int), width, height) is None,
            decreases count - index,
        {
            let ghost before = self.atlases@;
            let added = self.atlases[index].add_glyph(glyph_id, texture);
            proof {
                assert(start_pages.take(index + 1).drop_last() =~= start_pages.take(index as int));
                assert(before[index as int] == start_pages[index as int]);
                assert(self.atlases@ =~= before.update(index as int, self.atlases@[index as int]));
                assert forall|i: int| 0 <= i < count implies (#[trigger] self.atlases@[i]).wf() by {
                    if i != index {
                        assert(self.atlases@[i] == before[i]);
                    }
                }
            }
            if added {
                self.code_point_to_atlas.insert(key, index);
                proof {
                    let page = index as int;
                    let rect = start_pages[page].fit(width, height).unwrap();
                    assert(first_fit_in(start_pages.take(page + 1), width, height) == Some(
                        (page, rect),
                    ));
                    lemma_first_fit_extends(start_pages, page + 1, width, height);
                    let expected = start.place(code_point, Some((page, rect)), *texture).0;
                    assert(before[page]@ == start.pages[page]);
                    assert(self.atlases@[page]@ == start.pages[page].insert(
                        glyph_id,
                        rect,
                        texture.pixels(),
                    ));
                    assert forall|i: int| 0 <= i < count implies #[trigger] self@.pages[i]
                        == expected.pages[i] by {
                        if i != page {
                            assert(self.atlases@[i] == before[i]);
                            assert(before[i]@ == start.pages[i]);
                        }
                    }
                    assert(self@.pages =~= expected.pages);
                    assert(self@ == expected);
                    self.atlases@[page].lemma_view_wf();
                    lemma_place_wf(start, code_point, Some((page, rect)), *texture);
                }
                return Ok(index);
            } else {
                proof {
                    assert forall|i: int| 0 <= i < count implies (#[trigger] self.atlases@[i])@
                        == start.pages[i] by {
                        if i != index {
                            assert(self.atlases@[i] == before[i]);
                        }
                    }
                }
            }
            index = index + 1;
        }
        proof {
            assert(start_pages.take(count as int) =~= start_pages);
            lemma_allowed_side(texture.spec_max_side());
        }
        let size: u32 = match containing_size(texture.max_side()) {
            Some(size) => size,
            None => {
                assert(false);
                return Err(GlyphError::UnplaceableOnFreshPage);
            },
        };
        let mut atlas = FontAtlas::new(size);
        let ghost fresh = atlas;
        let added = atlas.add_glyph(glyph_id, texture);
        proof {
            atlas.lemma_view_wf();
            assert(fresh.fit(width, height) == FontAtlas::fresh_fit(size, width, height));
        }
        let ghost before = self.atlases@;
        self.atlases.push(atlas);
        proof {
            assert(self.atlases@ == before.push(atlas));
            assert forall|i: int| 0 <= i < self.atlases@.len() implies (
            #[trigger] self.atlases@[i]).wf() by {
                if i < count {
                    assert(self.atlases@[i] == before[i]);
                }
            }
            assert(self.atlases.len() == count + 1);
            lemma_place_wf(start, code_point, None, *texture);
        }
        if added {
            self.code_point_to_atlas.insert(key, count);
            proof {
                let expected = start.place(code_point, None, *texture).0;
                assert forall|i: int| 0 <= i < count + 1 implies #[trigger] self@.pages[i]
                    == expected.pages[i] by {
                    if i < count {
                        assert(self.atlases@[i] == before[i]);
                    }
                }
                assert(self@.pages =~= expected.pages);
                assert(self@ == expected);
            }
            Ok(count)
        } else {
            proof {
                let expected = start.place(code_point, None, *texture).0;
                assert forall|i: int| 0 <= i < count + 1 implies #[trigger] self@.pages[i]
                    == expected.pages[i] by {
                    if i < count {
                        assert(self.atlases@[i] == before[i]);
                    }
                }
                assert(self@.pages =~= expected.pages);
                assert(self@ == expected);
            }
            Err(GlyphError::UnplaceableOnFreshPage)
        }
    }

    /// The metrics of `code_point`, if the font has a glyph for it and it
    /// was asked for.
    pub fn glyph_info(&self, code_point: char) -> (info: Option<&GlyphInfo>)
        ensures
            match info {
                Some(i) => self@.metrics.contains_key(code(code_point)) && *i
                    == self@.metrics[code(code_point)],
                None => !self@.metrics.contains_key(code(code_point)),
            },
    {
        self.code_point_to_glyph_info.get(&(code_point as u32))
    }

    /// The number of pages.
    pub fn atlas_count(&self) -> (count: usize)
        ensures
            count == self@.pages.len(),
    {
        self.atlases.len()
    }

    /// The page that holds the bitmap of `code_point`, if one does.
    pub fn atlas(&self, code_point: char) -> (page: Option<usize>)
        ensures
            match page {
                Some(p) => self@.page_of.contains_key(code(code_point)) && p
                    == self@.page_of[code(code_point)],
                None => !self@.page_of.contains_key(code(code_point)),
            },
    {
        match self.code_point_to_atlas.get(&(code_point as u32)) {
            Some(page) => Some(*page),
            None => None,
        }
    }

    /// The texture coordinates of the glyph `glyph_id`, without the falloff
    /// around it, on the first page that holds it.
    pub fn lookup_glyph(&self, glyph_id: GlyphId) -> (uv: Option<UvRect>)
        requires
            self.wf(),
        ensures
            uv == self@.lookup(glyph_id),
            uv matches Some(r) ==> r.wf(),
    {
        let count: usize = self.atlases.len();
        let mut index: usize = 0;
        while index < count
            invariant
                self.wf(),
                count == self.atlases@.len(),
                0 <= index <= count,
                FontDataView::lookup_in(self@.pages.take(index as int), glyph_id, self.range)
                    is None,
            decreases count - index,
        {
            let found = self.atlases[index].lookup_glyph(glyph_id, self.range);
            proof {
                assert(self@.pages.take(index + 1).drop_last() =~= self@.pages.take(index as int));
            }
            if found.is_some() {
                proof {
                    lemma_lookup_extends(self@.pages, index + 1, glyph_id, self.range);
                }
                return found;
            }
            index = index + 1;
        }
        proof {
            assert(self@.pages.take(count as int) =~= self@.pages);
        }
        None
    }

    /// The texture coordinates of the glyph `glyph_id`, without the falloff
    /// around it, on the page `atlas`.
    pub fn lookup_glyph_on(&self, atlas: usize, glyph_id: GlyphId) -> (uv: Option<UvRect>)
        requires
            self.wf(),
        ensures
            uv == self@.lookup_on(atlas as int, glyph_id),
            uv matches Some(r) ==> r.wf(),
    {
        if atlas < self.atlases.len() {
            self.atlases[atlas].lookup_glyph(glyph_id, self.range)
        } else {
            None
        }
    }

    /// The page `atlas`, if there is one.
    pub fn atlas_page(&self, atlas: usize) -> (page: Option<&FontAtlas>)
        ensures
            page is Some <==> atlas < self@.pages.len(),
            page matches Some(p) ==> p@ == self@.pages[atlas as int] && *p == self.pages()[atlas as int],
    {
        if atlas < self.atlases.len() {
            Some(&self.atlases[atlas])
        } else {
            None
        }
    }

    /// The image of the page `atlas`, if there is one.
    pub fn atlas_texture(&self, atlas: usize) -> (texture: Option<&Vec<u8>>)
        ensures
            texture is Some <==> atlas < self@.pages.len(),
            texture matches Some(t) ==> t@ == self@.pages[atlas as int].pixels,
    {
        if atlas < self.atlases.len() {
            Some(self.atlases[atlas].texture().pixels())
        } else {
            None
        }
    }

    /// Whether a bitmap was packed onto the page `atlas` since this was
    /// last asked; the image is taken to be uploaded as it is now.
    pub fn take_dirty(&mut self, atlas: usize) -> (dirty: bool)
        requires
            old(self).wf(),
        ensures
            final(self).wf(),
            atlas >= old(self)@.pages.len() ==> !dirty && final(self)@ == old(self)@,
            atlas < old(self)@.pages.len() ==> dirty == old(self)@.pages[atlas as int].dirty
                && final(self)@ == (FontDataView {
                pages: old(self)@.pages.update(
                    atlas as int,
                    FontAtlasView { dirty: false, ..old(self)@.pages[atlas as int] },
                ),
                ..old(self)@
            }),
    {
        if atlas >= self.atlases.len() {
            return false;
        }
        let dirty = self.atlases[atlas].texture().is_dirty();
        self.atlases[atlas].clear_dirty();
        proof {
            assert(self@.pages =~= old(self)@.pages.update(
                atlas as int,
                FontAtlasView { dirty: false, ..old(self)@.pages[atlas as int] },
            ));
            assert forall|i: int| 0 <= i < self@.pages.len() implies (#[trigger] self@.pages[i]).wf()
                && is_page_size(self@.pages[i].size as int) by {
                assert(self.atlases@[i].wf());
                self.atlases@[i].lemma_view_wf();
                assert(old(self)@.pages[i].wf());
                assert(is_page_size(old(self)@.pages[i].size as int));
            }
            assert forall|c: u32| #[trigger] self@.page_of.contains_key(c) implies {
                &&& self@.metrics.contains_key(c)
                &&& self@.page_of[c] < self@.pages.len()
                &&& self@.pages[self@.page_of[c] as int].glyphs.contains_key(self@.metrics[c].id)
            } by {
                assert(old(self)@.page_of.contains_key(c));
            }
        }
        dirty
    }

    /// The distance between two lines of text.
    pub fn line_gap(&self) -> (gap: EmLength)
        ensures
            gap == self@.line_gap,
    {
        self.line_gap
    }
}

/// Packing an awaited bitmap leaves the atlas sound, where the page that
/// takes it is sound afterwards.
proof fn lemma_place_wf(
    view: FontDataView,
    code_point: char,
    fit: Option<(int, PixelRect)>,
    texture: RasterizedBitmap,
)
    requires
        view.wf(),
        view.pending.contains(code(code_point)),
        fit is None ==> view.pages.len() < usize::MAX,
        fit matches Some((page, rect)) ==> 0 <= page < view.pages.len() && view.pages[page].insert(
            view.metrics[code(code_point)].id,
            rect,
            texture.pixels(),
        ).wf(),
        fit is None ==> {
            let size = page_size_for(texture.spec_max_side()) as u32;
            &&& is_page_size(size as int)
            &&& FontAtlasView::empty(size).wf()
            &&& FontAtlas::fresh_fit(size, texture.spec_width(), texture.spec_height()) matches Some(
                rect,
            ) ==> FontAtlasView::empty(size).insert(
                view.metrics[code(code_point)].id,
                rect,
                texture.pixels(),
            ).wf()
        },
    ensures
        view.place(code_point, fit, texture).0.wf(),
{
    let key = code(code_point);
    let id = view.metrics[key].id;
    let after = view.place(code_point, fit, texture).0;
    assert(view.metrics.contains_key(key));
    assert(!view.page_of.contains_key(key));
    assert(after.metrics == view.metrics);
    assert(after.attempted == view.attempted);
    match fit {
        Some((page, rect)) => {
            view.pages[page].lemma_insert_keeps(id, rect, texture.pixels());
            assert forall|i: int| 0 <= i < after.pages.len() implies (#[trigger] after.pages[i]).wf()
                && is_page_size(after.pages[i].size as int) by {
                assert(view.pages[i].wf());
            }
            assert forall|c: u32| #[trigger] after.page_of.contains_key(c) implies {
                &&& after.metrics.contains_key(c)
                &&& after.page_of[c] < after.pages.len()
                &&& after.pages[after.page_of[c] as int].glyphs.contains_key(after.metrics[c].id)
            } by {
                if c != key {
                    assert(view.page_of.contains_key(c));
                    assert(view.metrics.contains_key(c));
                    let p = view.page_of[c] as int;
                    assert(view.pages[p].glyphs.contains_key(view.metrics[c].id));
                    if p == page {
                        assert(after.pages[p].glyphs.contains_key(view.metrics[c].id));
                    } else {
                        assert(after.pages[p] == view.pages[p]);
                    }
                } else {
                    assert(after.page_of[c] == page);
                    assert(after.pages[page].glyphs.contains_key(id));
                }
            }
        },
        None => {
            let size = page_size_for(texture.spec_max_side()) as u32;
            let fresh = FontAtlasView::empty(size);
            assert forall|i: int| 0 <= i < after.pages.len() implies (#[trigger] after.pages[i]).wf()
                && is_page_size(after.pages[i].size as int) by {
                if i < view.pages.len() {
                    assert(view.pages[i].wf());
                    assert(after.pages[i] == view.pages[i]);
                }
            }
            match FontAtlas::fresh_fit(size, texture.spec_width(), texture.spec_height()) {
                Some(rect) => {
                    fresh.lemma_insert_keeps(id, rect, texture.pixels());
                },
                None => {},
            }
            assert forall|c: u32| #[trigger] after.page_of.contains_key(c) implies {
                &&& after.metrics.contains_key(c)
                &&& after.page_of[c] < after.pages.len()
                &&& after.pages[after.page_of[c] as int].glyphs.contains_key(after.metrics[c].id)
            } by {
                if c != key {
                    assert(view.page_of.contains_key(c));
                    assert(view.metrics.contains_key(c));
                    let p = view.page_of[c] as int;
                    assert(view.pages[p].glyphs.contains_key(view.metrics[c].id));
                    assert(after.pages[p] == view.pages[p]);
                } else {
                    assert(after.page_of[c] == view.pages.len());
                    assert(after.pages[view.pages.len() as int].glyphs.contains_key(id));
                }
            }
        },
    }
    assert forall|c: u32| #[trigger] after.pending.contains(c) implies after.metrics.contains_key(c)
        && !after.page_of.contains_key(c) by {
        assert(view.pending.contains(c));
    }
}

/// Asking for a code point again changes nothing and asks for no drawing:
/// the work for a code point is done once.
pub proof fn lemma_request_idempotent(view: FontDataView, code_point: char, font: Font)
    ensures
        view.request(code_point, font).0.request(code_point, font) == (
            view.request(code_point, font).0,
            Err::<RasterJob, GlyphError>(GlyphError::AlreadyAttempted),
        ),
{
}

/// Asking keeps every code point that was asked for before, and adds the
/// one asked for.
pub proof fn lemma_request_marks(view: FontDataView, code_point: char, font: Font)
    ensures
        view.request(code_point, font).0.attempted == view.attempted.insert(code(code_point)),
        view.request(code_point, font).0.pages == view.pages,
        view.request(code_point, font).0.page_of == view.page_of,
{
    if view.attempted.contains(code(code_point)) {
        assert(view.attempted.insert(code(code_point)) =~= view.attempted);
    }
}

/// Asking for code points that were all asked for before changes nothing
/// and asks for no drawing.
pub proof fn lemma_request_all_again(view: FontDataView, chars: Seq<char>, font: Font)
    requires
        forall|i: int| 0 <= i < chars.len() ==> view.attempted.contains(code(#[trigger] chars[i])),
    ensures
        view.request_all(chars, font) == (view, Seq::<RasterJob>::empty()),
    decreases chars.len(),
{
    if chars.len() > 0 {
        assert forall|i: int| 0 <= i < chars.drop_last().len() implies view.attempted.contains(
            code(#[trigger] chars.drop_last()[i]),
        ) by {
            assert(chars.drop_last()[i] == chars[i]);
        }
        lemma_request_all_again(view, chars.drop_last(), font);
        assert(view.attempted.contains(code(chars[chars.len() - 1])));
    }
}

/// After a batch, every code point of the batch counts as asked for, and so
/// does every one that did before.
pub proof fn lemma_request_all_marks(view: FontDataView, chars: Seq<char>, font: Font)
    ensures
        forall|i: int|
            0 <= i < chars.len() ==> view.request_all(chars, font).0.attempted.contains(
                code(#[trigger] chars[i]),
            ),
        forall|c: u32|
            view.attempted.contains(c) ==> #[trigger] view.request_all(
                chars,
                font,
            ).0.attempted.contains(c),
        view.request_all(chars, font).0.pages == view.pages,
        view.request_all(chars, font).0.page_of == view.page_of,
    decreases chars.len(),
{
    if chars.len() > 0 {
        let before = view.request_all(chars.drop_last(), font).0;
        lemma_request_all_marks(view, chars.drop_last(), font);
        lemma_request_marks(before, chars.last(), font);
        assert forall|i: int| 0 <= i < chars.len() implies view.request_all(
            chars,
            font,
        ).0.attempted.contains(code(#[trigger] chars[i])) by {
            if i < chars.len() - 1 {
                assert(chars.drop_last()[i] == chars[i]);
                assert(before.attempted.contains(code(chars.drop_last()[i])));
            }
        }
    }
}

/// Asking for the same batch twice does the work once: the second time
/// nothing changes and no drawing is asked for.
pub proof fn lemma_request_all_idempotent(view: FontDataView, chars: Seq<char>, font: Font)
    ensures
        view.request_all(chars, font).0.request_all(chars, font) == (
            view.request_all(chars, font).0,
            Seq::<RasterJob>::empty(),
        ),
{
    lemma_request_all_marks(view, chars, font);
    lemma_request_all_again(view.request_all(chars, font).0, chars, font);
}

/// Packing an awaited bitmap forgets nothing: every code point that was
/// asked for still counts as asked for, the metrics stay as they are, and a
/// code point that had a page keeps that page.
pub proof fn lemma_place_keeps(
    view: FontDataView,
    code_point: char,
    fit: Option<(int, PixelRect)>,
    texture: RasterizedBitmap,
)
    requires
        view.wf(),
        view.pending.contains(code(code_point)),
        fit matches Some((page, _)) ==> 0 <= page < view.pages.len(),
    ensures
        view.place(code_point, fit, texture).0.attempted == view.attempted,
        view.place(code_point, fit, texture).0.metrics == view.metrics,
        forall|c: u32| #[trigger]
            view.page_of.contains_key(c) ==> {
                &&& view.place(code_point, fit, texture).0.page_of.contains_key(c)
                &&& view.place(code_point, fit, texture).0.page_of[c] == view.page_of[c]
            },
        view.place(code_point, fit, texture).0.pages.len() >= view.pages.len(),
{
    assert(!view.page_of.contains_key(code(code_point)));
}

/// Once the bitmap of a code point was handed in, none is awaited for it:
/// a second one would change nothing.
pub proof fn lemma_packed_once(
    view: FontDataView,
    code_point: char,
    fit: Option<(int, PixelRect)>,
    texture: RasterizedBitmap,
)
    ensures
        !view.place(code_point, fit, texture).0.pending.contains(code(code_point)),
{
}

/// A bitmap that no page has room for gets a new page, after those that
/// were there. Its side is a power of two, at least 1024 and at least the
/// larger side of the bitmap, and the smallest such.
pub proof fn lemma_new_page_size(view: FontDataView, code_point: char, texture: RasterizedBitmap)
    requires
        page_size_allowed(page_size_for(texture.spec_max_side())),
    ensures
        ({
            let after = view.place(code_point, None, texture).0;
            let side = texture.spec_max_side();
            &&& after.pages.len() == view.pages.len() + 1
            &&& after.pages.take(view.pages.len() as int) == view.pages
            &&& after.pages.last().size == page_size_for(side)
            &&& is_page_size(page_size_for(side))
            &&& page_size_for(side) >= 1024
            &&& page_size_for(side) >= side
            &&& forall|size: int| is_page_size(size) && size >= side ==> size >= page_size_for(side)
        }),
{
    let after = view.place(code_point, None, texture).0;
    lemma_allowed_side(texture.spec_max_side());
    crate::page_size::lemma_page_size_for(texture.spec_max_side());
    assert(after.pages.take(view.pages.len() as int) =~= view.pages);
}

/// What is found among some pages is found among all of them.
proof fn lemma_lookup_extends(pages: Seq<FontAtlasView>, count: int, glyph: GlyphId, range: u8)
    requires
        0 <= count <= pages.len(),
        FontDataView::lookup_in(pages.take(count), glyph, range) is Some,
    ensures
        FontDataView::lookup_in(pages, glyph, range) == FontDataView::lookup_in(
            pages.take(count),
            glyph,
            range,
        ),
    decreases pages.len() - count,
{
    if count < pages.len() {
        assert(pages.take(count + 1).drop_last() =~= pages.take(count));
        lemma_lookup_extends(pages, count + 1, glyph, range);
    } else {
        assert(pages.take(count) =~= pages);
    }
}

} // verus!
