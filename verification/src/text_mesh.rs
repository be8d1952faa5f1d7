//! The mesh of a laid-out text: one buffer of quads for every atlas page,
//! rebuilt from the glyphs of the text whenever they change.
//!
//! Positions and colours are carried through as they come: the scalar type
//! `S` is whatever the renderer measures them in.

use crate::font::Font;
use crate::font_atlases::FontAtlases;
use crate::font_atlases::FontId;
use crate::font_data::code;
use crate::font_data::FontData;
use crate::font_data::FontDataView;
use crate::font_data::GlyphError;
use crate::font_data::RasterJob;
use crate::rect::UvPoint;
use crate::rect::UvRect;
use vstd::prelude::*;

verus! {

/// The most quads that one buffer takes: four times as many vertices can
/// still be counted.
pub const MAX_QUADS: u32 = 0x3fff_ffff;

/// A rectangle in the space that the text is laid out in.
#[derive(Clone, Copy, Debug)]
pub struct Rect<S> {
    pub min_x: S,
    pub min_y: S,
    pub max_x: S,
    pub max_y: S,
}

impl<S> Rect<S> {
    /// The corner `corner` of the rectangle, counted from the lower corner
    /// along the x axis first: `(min, min)`, `(max, min)`, `(max, max)`,
    /// `(min, max)`.
    pub open spec fn corner(&self, corner: int) -> [S; 2] {
        [
            if corner == 1 || corner == 2 {
                self.max_x
            } else {
                self.min_x
            },
            if corner == 2 || corner == 3 {
                self.max_y
            } else {
                self.min_y
            },
        ]
    }
}

/// A glyph of a laid-out text.
#[derive(Clone, Copy, Debug)]
pub struct Glyph<S> {
    pub position: Rect<S>,
    pub character: char,
    pub color: [S; 4],
}

/// A glyph with its place on an atlas page: one quad of a mesh.
#[derive(Clone, Copy, Debug)]
pub struct PositionedGlyph<S> {
    pub position: Rect<S>,
    pub uv: UvRect,
    /// The atlas page that holds the glyph's bitmap.
    pub index: usize,
    pub color: [S; 4],
}

/// Which corner of its quad each of the six indices of the two triangles
/// names: the quad is split along the diagonal from corner 1 to corner 3.
pub open spec fn triangle_corner(k: int) -> int {
    if k == 0 {
        0
    } else if k == 1 || k == 3 {
        1
    } else if k == 4 {
        2
    } else {
        3
    }
}

/// What a mesh buffer holds.
pub struct MeshView<S> {
    pub positions: Seq<[S; 2]>,
    pub uvs: Seq<UvPoint>,
    pub colors: Seq<[S; 4]>,
    pub indices: Seq<u32>,
}

impl<S> MeshView<S> {
    /// A buffer without a vertex.
    pub open spec fn empty() -> MeshView<S> {
        MeshView {
            positions: Seq::empty(),
            uvs: Seq::empty(),
            colors: Seq::empty(),
            indices: Seq::empty(),
        }
    }

    /// The buffer of `quads`: for each of them in turn its four corners,
    /// with the texture coordinates of the same corner and the glyph's
    /// colour, and the six indices of its two triangles.
    pub open spec fn of(quads: Seq<PositionedGlyph<S>>) -> MeshView<S> {
        MeshView {
            positions: Seq::new(4 * quads.len(), |i: int| quads[i / 4].position.corner(i % 4)),
            uvs: Seq::new(4 * quads.len(), |i: int| quads[i / 4].uv.corner(i % 4)),
            colors: Seq::new(4 * quads.len(), |i: int| quads[i / 4].color),
            indices: Seq::new(
                6 * quads.len(),
                |i: int| (4 * (i / 6) + triangle_corner(i % 6)) as u32,
            ),
        }
    }

    /// The buffer with the quad `quad` after what it holds, as the quad
    /// number `count`.
    pub open spec fn with_quad(self, quad: PositionedGlyph<S>, count: int) -> MeshView<S> {
        MeshView {
            positions: self.positions.push(quad.position.corner(0)).push(
                quad.position.corner(1),
            ).push(quad.position.corner(2)).push(quad.position.corner(3)),
            uvs: self.uvs.push(quad.uv.corner(0)).push(quad.uv.corner(1)).push(
                quad.uv.corner(2),
            ).push(quad.uv.corner(3)),
            colors: self.colors.push(quad.color).push(quad.color).push(quad.color).push(
                quad.color,
            ),
            indices: self.indices.push((4 * count) as u32).push((4 * count + 1) as u32).push(
                (4 * count + 3) as u32,
            ).push((4 * count + 1) as u32).push((4 * count + 2) as u32).push(
                (4 * count + 3) as u32,
            ),
        }
    }
}

/// The buffer of some quads and one more is the buffer of those quads with
/// that one after them.
pub proof fn lemma_of_push<S>(quads: Seq<PositionedGlyph<S>>, quad: PositionedGlyph<S>)
    ensures
        MeshView::of(quads.push(quad)) == MeshView::of(quads).with_quad(quad, quads.len() as int),
{
    let n = quads.len() as int;
    let all = MeshView::of(quads.push(quad));
    let step = MeshView::of(quads).with_quad(quad, n);
    assert forall|i: int| 0 <= i < 4 * (n + 1) implies all.positions[i] == step.positions[i]
        && all.uvs[i] == step.uvs[i] && all.colors[i] == step.colors[i] by {
        if i < 4 * n {
            assert(quads.push(quad)[i / 4] == quads[i / 4]);
        } else {
            assert(i / 4 == n);
        }
    }
    assert forall|i: int| 0 <= i < 6 * (n + 1) implies all.indices[i] == step.indices[i] by {
        if i >= 6 * n {
            assert(i / 6 == n);
        }
    }
    assert(all.positions =~= step.positions);
    assert(all.uvs =~= step.uvs);
    assert(all.colors =~= step.colors);
    assert(all.indices =~= step.indices);
}

/// A buffer of `n` quads has `4 n` vertices and `6 n` indices, and every
/// index names one of its vertices.
pub proof fn lemma_mesh_counts<S>(quads: Seq<PositionedGlyph<S>>)
    requires
        quads.len() <= MAX_QUADS,
    ensures
        MeshView::of(quads).positions.len() == 4 * quads.len(),
        MeshView::of(quads).uvs.len() == 4 * quads.len(),
        MeshView::of(quads).colors.len() == 4 * quads.len(),
        MeshView::of(quads).indices.len() == 6 * quads.len(),
        forall|i: int|
            0 <= i < 6 * quads.len() ==> (#[trigger] MeshView::of(quads).indices[i]) < 4
                * quads.len(),
{
}

/// The vertices and indices of one atlas page's share of a text.
#[derive(Debug)]
pub struct MeshBuffers<S> {
    /// Where each vertex lies in the text's layout.
    pub positions: Vec<[S; 2]>,
    /// Where each vertex lies on the atlas page.
    pub uvs: Vec<UvPoint>,
    /// The colour of each vertex.
    pub colors: Vec<[S; 4]>,
    /// Three indices for every triangle.
    pub indices: Vec<u32>,
}

impl<S> View for MeshBuffers<S> {
    type V = MeshView<S>;

    open spec fn view(&self) -> MeshView<S> {
        MeshView {
            positions: self.positions@,
            uvs: self.uvs@,
            colors: self.colors@,
            indices: self.indices@,
        }
    }
}

impl<S> MeshBuffers<S> {
    /// A buffer without a vertex.
    pub fn new() -> (mesh: MeshBuffers<S>)
        ensures
            mesh@ == MeshView::<S>::empty(),
    {
        MeshBuffers {
            positions: Vec::new(),
            uvs: Vec::new(),
            colors: Vec::new(),
            indices: Vec::new(),
        }
    }
}

/// Fills a mesh buffer with quads, one glyph at a time.
pub struct TextMeshBuilder<S> {
    index: u32,
    mesh: MeshBuffers<S>,
}

impl<S: Copy> TextMeshBuilder<S> {
    /// How many quads the buffer holds.
    pub closed spec fn count(&self) -> int {
        self.index as int
    }

    /// What the buffer holds.
    pub closed spec fn mesh(&self) -> MeshView<S> {
        self.mesh@
    }

    /// The buffer holds four vertices for every quad counted.
    pub closed spec fn wf(&self) -> bool {
        &&& self.mesh.positions@.len() == 4 * self.index
        &&& self.mesh.uvs@.len() == 4 * self.index
        &&& self.mesh.colors@.len() == 4 * self.index
        &&& self.mesh.indices@.len() == 6 * self.index
    }

    /// A builder on the buffer `mesh`, emptied of what it held.
    pub fn new(mesh: MeshBuffers<S>) -> (builder: TextMeshBuilder<S>)
        ensures
            builder.wf(),
            builder.count() == 0,
            builder.mesh() == MeshView::<S>::empty(),
    {
        let mut mesh = mesh;
        mesh.positions.clear();
        mesh.uvs.clear();
        mesh.colors.clear();
        mesh.indices.clear();
        TextMeshBuilder { index: 0, mesh }
    }

    /// Adds the quad of one glyph: its four corners, the texture coordinates
    /// of each, its colour four times, and the indices of two triangles that
    /// share the diagonal from the second corner to the fourth.
    pub fn append_glyph(&mut self, position: &Rect<S>, uv: &UvRect, color: &[S; 4])
        requires
            old(self).wf(),
            old(self).count() < MAX_QUADS,
        ensures
            final(self).wf(),
            final(self).count() == old(self).count() + 1,
            forall|page: usize|
                final(self).mesh() == old(self).mesh().with_quad(
                    PositionedGlyph { position: *position, uv: *uv, index: page, color: *color },
                    old(self).count(),
                ),
    {
        let rect = *position;
        self.mesh.positions.push([rect.min_x, rect.min_y]);
        self.mesh.positions.push([rect.max_x, rect.min_y]);
        self.mesh.positions.push([rect.max_x, rect.max_y]);
        self.mesh.positions.push([rect.min_x, rect.max_y]);

        let rect = *uv;
        self.mesh.uvs.push(UvPoint { x: rect.min_x, y: rect.min_y, size: rect.size });
        self.mesh.uvs.push(UvPoint { x: rect.max_x, y: rect.min_y, size: rect.size });
        self.mesh.uvs.push(UvPoint { x: rect.max_x, y: rect.max_y, size: rect.size });
        self.mesh.uvs.push(UvPoint { x: rect.min_x, y: rect.max_y, size: rect.size });

        self.mesh.colors.push(*color);
        self.mesh.colors.push(*color);
        self.mesh.colors.push(*color);
        self.mesh.colors.push(*color);

        let base: u32 = self.index * 4;
        self.mesh.indices.push(base);
        self.mesh.indices.push(base + 1);
        self.mesh.indices.push(base + 3);
        self.mesh.indices.push(base + 1);
        self.mesh.indices.push(base + 2);
        self.mesh.indices.push(base + 3);

        self.index = self.index + 1;
    }

    /// The buffer as it was filled.
    pub fn finish(self) -> (mesh: MeshBuffers<S>)
        ensures
            mesh@ == self.mesh(),
    {
        self.mesh
    }
}

/// The quad of `glyph` on the atlas page `page`: none unless that page
/// holds the bitmap of the glyph's character.
pub open spec fn positioned<S>(glyph: Glyph<S>, data: FontDataView, page: int) -> Option<
    PositionedGlyph<S>,
> {
    let c = code(glyph.character);
    if data.page_of.contains_key(c) && data.page_of[c] == page && data.metrics.contains_key(c) {
        match data.lookup_on(page, data.metrics[c].id) {
            Some(uv) => Some(
                PositionedGlyph {
                    position: glyph.position,
                    uv,
                    index: page as usize,
                    color: glyph.color,
                },
            ),
            None => None,
        }
    } else {
        None
    }
}

/// The quads of those of `glyphs` that lie on the atlas page `page`, in the
/// order of the glyphs.
pub open spec fn emitted<S>(glyphs: Seq<Glyph<S>>, data: FontDataView, page: int) -> Seq<
    PositionedGlyph<S>,
>
    decreases glyphs.len(),
{
    if glyphs.len() == 0 {
        Seq::empty()
    } else {
        let rest = emitted(glyphs.drop_last(), data, page);
        match positioned(glyphs.last(), data, page) {
            Some(quad) => rest.push(quad),
            None => rest,
        }
    }
}

/// How many of `glyphs` have a character whose bitmap lies on the atlas
/// page `page`.
pub open spec fn count_on_page<S>(glyphs: Seq<Glyph<S>>, data: FontDataView, page: int) -> nat
    decreases glyphs.len(),
{
    if glyphs.len() == 0 {
        0
    } else {
        let rest = count_on_page(glyphs.drop_last(), data, page);
        let c = code(glyphs.last().character);
        if data.page_of.contains_key(c) && data.page_of[c] == page {
            rest + 1
        } else {
            rest
        }
    }
}

/// Every glyph whose character has its bitmap on a page gives a quad on that
/// page: of `n` such glyphs come `n` quads, so `4 n` vertices and `6 n`
/// indices, each of which names one of those vertices.
pub proof fn lemma_emission_count<S>(glyphs: Seq<Glyph<S>>, data: FontDataView, page: int)
    requires
        data.wf(),
        glyphs.len() <= MAX_QUADS,
    ensures
        emitted(glyphs, data, page).len() == count_on_page(glyphs, data, page),
        count_on_page(glyphs, data, page) <= glyphs.len(),
        MeshView::of(emitted(glyphs, data, page)).positions.len() == 4 * count_on_page(
            glyphs,
            data,
            page,
        ),
        MeshView::of(emitted(glyphs, data, page)).indices.len() == 6 * count_on_page(
            glyphs,
            data,
            page,
        ),
        forall|i: int|
            0 <= i < 6 * count_on_page(glyphs, data, page) ==> (#[trigger] MeshView::of(
                emitted(glyphs, data, page),
            ).indices[i]) < 4 * count_on_page(glyphs, data, page),
    decreases glyphs.len(),
{
    if glyphs.len() > 0 {
        lemma_emission_count(glyphs.drop_last(), data, page);
        let c = code(glyphs.last().character);
        if data.page_of.contains_key(c) && data.page_of[c] == page {
            assert(data.pages[page].glyphs.contains_key(data.metrics[c].id));
        }
    }
    lemma_mesh_counts(emitted(glyphs, data, page));
}

/// What is known of one text.
pub struct TextMeshView<S> {
    /// The font of the text.
    pub font: FontId,
    /// The code points that the text needs and that were not asked for yet.
    pub missing: Seq<char>,
    /// The glyphs of the text as they are laid out now.
    pub glyphs: Seq<Glyph<S>>,
    /// One mesh buffer for each atlas page that the text was given one for,
    /// in the order of the pages.
    pub meshes: Seq<MeshView<S>>,
}

/// One text: its font, its glyphs, and its mesh buffers.
pub struct TextMesh<S> {
    font: FontId,
    missing: Vec<char>,
    glyphs: Vec<Glyph<S>>,
    meshes: Vec<MeshBuffers<S>>,
}

impl<S> View for TextMesh<S> {
    type V = TextMeshView<S>;

    closed spec fn view(&self) -> TextMeshView<S> {
        TextMeshView {
            font: self.font,
            missing: self.missing@,
            glyphs: self.glyphs@,
            meshes: self.meshes@.map_values(|mesh: MeshBuffers<S>| mesh@),
        }
    }
}

impl<S: Copy> TextMesh<S> {
    /// A text in the font `font`, without glyphs.
    pub fn new(font: FontId) -> (text: TextMesh<S>)
        ensures
            text@ == (TextMeshView::<S> {
                font,
                missing: Seq::empty(),
                glyphs: Seq::empty(),
                meshes: Seq::empty(),
            }),
    {
        let text = TextMesh {
            font,
            missing: Vec::new(),
            glyphs: Vec::new(),
            meshes: Vec::new(),
        };
        assert(text@.meshes =~= Seq::empty());
        text
    }

    /// The font of the text.
    pub fn font_id(&self) -> (font: FontId)
        ensures
            font == self@.font,
    {
        self.font
    }

    /// Notes that the text needs the code points `missing`.
    pub fn add_missing(&mut self, missing: &[char])
        ensures
            final(self)@ == (TextMeshView {
                missing: old(self)@.missing + missing@,
                ..old(self)@
            }),
    {
        let mut index: usize = 0;
        while index < missing.len()
            invariant
                0 <= index <= missing.len(),
                self.font == old(self).font,
                self.glyphs == old(self).glyphs,
                self.meshes == old(self).meshes,
                self.missing@ == old(self).missing@ + missing@.take(index as int),
            decreases missing.len() - index,
        {
            self.missing.push(missing[index]);
            proof {
                assert(missing@.take(index + 1) =~= missing@.take(index as int).push(
                    missing@[index as int],
                ));
                assert(self.missing@ =~= old(self).missing@ + missing@.take(index + 1));
            }
            index = index + 1;
        }
        proof {
            assert(missing@.take(missing.len() as int) =~= missing@);
        }
    }

    /// Takes `glyphs` as the glyphs of the text.
    pub fn set_glyphs(&mut self, glyphs: Vec<Glyph<S>>)
        ensures
            final(self)@ == (TextMeshView { glyphs: glyphs@, ..old(self)@ }),
    {
        self.glyphs = glyphs;
    }

    /// The code points that the text needs and that were not asked for yet.
    pub fn missing(&self) -> (missing: &Vec<char>)
        ensures
            missing@ == self@.missing,
    {
        &self.missing
    }

    /// The glyphs of the text.
    pub fn glyphs(&self) -> (glyphs: &Vec<Glyph<S>>)
        ensures
            glyphs@ == self@.glyphs,
    {
        &self.glyphs
    }

    /// How many atlas pages the text has a mesh buffer for.
    pub fn mesh_count(&self) -> (count: usize)
        ensures
            count == self@.meshes.len(),
    {
        self.meshes.len()
    }

    /// The mesh buffer for the atlas page `atlas`, if the text has one.
    pub fn mesh(&self, atlas: usize) -> (mesh: Option<&MeshBuffers<S>>)
        ensures
            mesh is Some <==> atlas < self@.meshes.len(),
            mesh matches Some(m) ==> m@ == self@.meshes[atlas as int],
    {
        if atlas < self.meshes.len() {
            Some(&self.meshes[atlas])
        } else {
            None
        }
    }
}

/// The quad of `glyph` on the atlas page `page`, if that page holds the
/// bitmap of the glyph's character.
pub fn position_glyph<S: Copy>(glyph: &Glyph<S>, data: &FontData, page: usize) -> (quad: Option<
    PositionedGlyph<S>,
>)
    requires
        data.wf(),
    ensures
        quad == positioned(*glyph, data@, page as int),
{
    match data.atlas(glyph.character) {
        Some(atlas) => {
            if atlas != page {
                return None;
            }
        },
        None => {
            return None;
        },
    }
    let info = match data.glyph_info(glyph.character) {
        Some(info) => info,
        None => {
            return None;
        },
    };
    match data.lookup_glyph_on(page, info.id) {
        Some(uv) => Some(
            PositionedGlyph { position: glyph.position, uv, index: page, color: glyph.color },
        ),
        None => None,
    }
}

/// The first step for a text whose glyphs changed: asks the atlas of its
/// font for the code points that the text still needs, and forgets them,
/// also where the font is not there. Answers with the glyphs to draw.
pub fn update_font_atlases<S: Copy>(
    text_mesh: &mut TextMesh<S>,
    atlases: &mut FontAtlases,
    font: Option<&Font>,
) -> (r: Result<Vec<RasterJob>, GlyphError>)
    requires
        old(atlases).wf(),
    ensures
        final(atlases).wf(),
        final(text_mesh)@ == (TextMeshView { missing: Seq::empty(), ..old(text_mesh)@ }),
        font is None ==> final(atlases)@ == old(atlases)@ && r matches Err(
            GlyphError::FontUnresolved,
        ),
        font matches Some(f) ==> {
            let id = old(text_mesh)@.font;
            let start = if old(atlases)@.contains_key(id) {
                old(atlases)@[id]
            } else {
                FontDataView::empty(f.spec_line_gap())
            };
            let asked = start.request_all(old(text_mesh)@.missing, *f);
            &&& final(atlases)@ == old(atlases)@.insert(id, asked.0)
            &&& r matches Ok(jobs) && jobs@ == asked.1
        },
{
    let r = atlases.add_code_points(text_mesh.missing.as_slice(), text_mesh.font, font);
    text_mesh.missing.clear();
    r
}

/// The second step: gives the text an empty mesh buffer for every atlas
/// page of its font that it has none for yet, and answers with those pages.
pub fn create_atlas_meshes<S: Copy>(text_mesh: &mut TextMesh<S>, atlases: &FontAtlases) -> (created:
    Vec<usize>)
    ensures
        final(text_mesh)@.font == old(text_mesh)@.font,
        final(text_mesh)@.missing == old(text_mesh)@.missing,
        final(text_mesh)@.glyphs == old(text_mesh)@.glyphs,
        ({
            let before = old(text_mesh)@.meshes;
            let after = final(text_mesh)@.meshes;
            let pages: int = if atlases@.contains_key(old(text_mesh)@.font) {
                atlases@[old(text_mesh)@.font].pages.len() as int
            } else {
                0
            };
            &&& after.len() == if pages > before.len() {
                pages
            } else {
                before.len() as int
            }
            &&& forall|i: int| 0 <= i < before.len() ==> #[trigger] after[i] == before[i]
            &&& forall|i: int|
                before.len() <= i < after.len() ==> #[trigger] after[i] == MeshView::<S>::empty()
            &&& created@.len() == after.len() - before.len()
            &&& forall|k: int| 0 <= k < created@.len() ==> #[trigger] created@[k] == before.len() + k
        }),
{
    let mut created: Vec<usize> = Vec::new();
    let data = match atlases.data(text_mesh.font) {
        Some(data) => data,
        None => {
            return created;
        },
    };
    let pages: usize = data.atlas_count();
    let ghost before = text_mesh@.meshes;
    while text_mesh.meshes.len() < pages
        invariant
            atlases@.contains_key(old(text_mesh)@.font),
            pages == atlases@[old(text_mesh)@.font].pages.len(),
            text_mesh.font == old(text_mesh).font,
            text_mesh.missing == old(text_mesh).missing,
            text_mesh.glyphs == old(text_mesh).glyphs,
            before == old(text_mesh)@.meshes,
            text_mesh@.meshes.len() == text_mesh.meshes@.len(),
            text_mesh@.meshes.len() >= before.len(),
            text_mesh@.meshes.len() == before.len() || text_mesh@.meshes.len() <= pages,
            forall|i: int| 0 <= i < before.len() ==> #[trigger] text_mesh@.meshes[i] == before[i],
            forall|i: int|
                before.len() <= i < text_mesh@.meshes.len() ==> #[trigger] text_mesh@.meshes[i]
                    == MeshView::<S>::empty(),
            created@.len() == text_mesh@.meshes.len() - before.len(),
            forall|k: int| 0 <= k < created@.len() ==> #[trigger] created@[k] == before.len() + k,
        decreases pages - text_mesh.meshes.len(),
    {
        let ghost previous = text_mesh@.meshes;
        let index: usize = text_mesh.meshes.len();
        text_mesh.meshes.push(MeshBuffers::new());
        created.push(index);
        proof {
            assert(text_mesh@.meshes =~= previous.push(MeshView::<S>::empty()));
        }
    }
    created
}

/// The third step: rebuilds every mesh buffer of the text from its glyphs.
/// The buffer of a page gets, for each glyph whose character has its bitmap
/// on that page, in the order of the glyphs, one quad at the glyph's
/// position, with the texture coordinates of the bitmap without its falloff
/// and the glyph's colour. Glyphs without a bitmap are left out. Without an
/// atlas for the font nothing changes.
pub fn update_text_mesh<S: Copy>(text_mesh: &mut TextMesh<S>, atlases: &FontAtlases)
    requires
        atlases.wf(),
        old(text_mesh)@.glyphs.len() <= MAX_QUADS,
    ensures
        final(text_mesh)@.font == old(text_mesh)@.font,
        final(text_mesh)@.missing == old(text_mesh)@.missing,
        final(text_mesh)@.glyphs == old(text_mesh)@.glyphs,
        final(text_mesh)@.meshes.len() == old(text_mesh)@.meshes.len(),
        !atlases@.contains_key(old(text_mesh)@.font) ==> final(text_mesh)@ == old(text_mesh)@,
        atlases@.contains_key(old(text_mesh)@.font) ==> forall|page: int|
            0 <= page < final(text_mesh)@.meshes.len() ==> #[trigger] final(text_mesh)@.meshes[page]
                == MeshView::of(
                emitted(old(text_mesh)@.glyphs, atlases@[old(text_mesh)@.font], page),
            ),
        atlases@.contains_key(old(text_mesh)@.font) ==> forall|page: int|
            0 <= page < final(text_mesh)@.meshes.len() ==> {
                let mesh = #[trigger] final(text_mesh)@.meshes[page];
                let count = count_on_page(
                    old(text_mesh)@.glyphs,
                    atlases@[old(text_mesh)@.font],
                    page,
                );
                &&& mesh.positions.len() == 4 * count
                &&& mesh.uvs.len() == 4 * count
                &&& mesh.colors.len() == 4 * count
                &&& mesh.indices.len() == 6 * count
                &&& forall|i: int| 0 <= i < 6 * count ==> (#[trigger] mesh.indices[i]) < 4 * count
            },
{
    let data = match atlases.data(text_mesh.font) {
        Some(data) => data,
        None => {
            return ;
        },
    };
    proof {
        atlases.lemma_data(text_mesh.font);
    }
    let ghost glyphs = text_mesh.glyphs@;
    let count: usize = text_mesh.meshes.len();
    let mut page: usize = 0;
    while page < count
        invariant
            data.wf(),
            data@ == atlases@[old(text_mesh)@.font],
            text_mesh.font == old(text_mesh).font,
            text_mesh.missing == old(text_mesh).missing,
            text_mesh.glyphs == old(text_mesh).glyphs,
            glyphs == text_mesh.glyphs@,
            glyphs.len() <= MAX_QUADS,
            count == text_mesh.meshes@.len(),
            count == old(text_mesh).meshes@.len(),
            0 <= page <= count,
            forall|p: int|
                0 <= p < page ==> (#[trigger] text_mesh.meshes@[p])@ == MeshView::of(
                    emitted(glyphs, data@, p),
                ),
        decreases count - page,
    {
        let mut taken: MeshBuffers<S> = MeshBuffers::new();
        std::mem::swap(&mut text_mesh.meshes[page], &mut taken);
        let mut builder = TextMeshBuilder::new(taken);
        let total: usize = text_mesh.glyphs.len();
        let mut index: usize = 0;
        proof {
            assert(glyphs.take(0) =~= Seq::<Glyph<S>>::empty());
            assert(MeshView::<S>::of(Seq::empty()).positions =~= Seq::empty());
            assert(MeshView::<S>::of(Seq::empty()).uvs =~= Seq::empty());
            assert(MeshView::<S>::of(Seq::empty()).colors =~= Seq::empty());
            assert(MeshView::<S>::of(Seq::empty()).indices =~= Seq::empty());
        }
        while index < total
            invariant
                data.wf(),
                glyphs == text_mesh.glyphs@,
                glyphs.len() <= MAX_QUADS,
                total == glyphs.len(),
                0 <= index <= total,
                builder.wf(),
                builder.count() == emitted(glyphs.take(index as int), data@, page as int).len(),
                builder.count() <= index,
                builder.mesh() == MeshView::of(
                    emitted(glyphs.take(index as int), data@, page as int),
                ),
            decreases total - index,
        {
            proof {
                assert(glyphs.take(index + 1).drop_last() =~= glyphs.take(index as int));
            }
            match position_glyph(&text_mesh.glyphs[index], data, page) {
                Some(quad) => {
                    builder.append_glyph(&quad.position, &quad.uv, &quad.color);
                    proof {
                        lemma_of_push(
                            emitted(glyphs.take(index as int), data@, page as int),
                            quad,
                        );
                    }
                },
                None => {},
            }
            index = index + 1;
        }
        proof {
            assert(glyphs.take(total as int) =~= glyphs);
        }
        let ghost previous = text_mesh.meshes@;
        text_mesh.meshes[page] = builder.finish();
        proof {
            assert forall|p: int| 0 <= p < page + 1 implies (#[trigger] text_mesh.meshes@[p])@
                == MeshView::of(emitted(glyphs, data@, p)) by {
                if p < page {
                    assert(text_mesh.meshes@[p] == previous[p]);
                }
            }
        }
        page = page + 1;
    }
    proof {
        data.lemma_view_wf();
        assert forall|p: int| 0 <= p < text_mesh@.meshes.len() implies {
            let mesh = #[trigger] text_mesh@.meshes[p];
            let count = count_on_page(glyphs, data@, p);
            &&& mesh == MeshView::of(emitted(glyphs, data@, p))
            &&& mesh.positions.len() == 4 * count
            &&& mesh.uvs.len() == 4 * count
            &&& mesh.colors.len() == 4 * count
            &&& mesh.indices.len() == 6 * count
            &&& forall|i: int| 0 <= i < 6 * count ==> (#[trigger] mesh.indices[i]) < 4 * count
        } by {
            assert(text_mesh.meshes@[p]@ == MeshView::of(emitted(glyphs, data@, p)));
            lemma_emission_count(glyphs, data@, p);
        }
    }
}

} // verus!
