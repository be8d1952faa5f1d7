//! What a host has to set up to show text: the atlases of its fonts, and
//! the three steps that it runs, in order, for every text whose glyphs
//! changed.

use crate::font_atlases::FontAtlases;
use crate::font_atlases::FontId;
use crate::font_data::FontDataView;
use vstd::prelude::*;

verus! {

/// A step of the work that a changed text needs.
#[derive(Clone, Copy, Debug, PartialEq, Eq, Structural)]
pub enum Stage {
    /// The code points that the text needs are asked for, drawn and packed.
    UpdateFontAtlases,
    /// The text gets a mesh buffer for every atlas page of its font.
    CreateAtlasMeshes,
    /// The mesh buffers are rebuilt from the glyphs.
    UpdateTextMesh,
}

/// The steps in the order in which they run: the later ones read what the
/// earlier ones have put into the atlas.
pub open spec fn stage_order() -> Seq<Stage> {
    seq![Stage::UpdateFontAtlases, Stage::CreateAtlasMeshes, Stage::UpdateTextMesh]
}

/// Sets up the fonts: at first no font has an atlas.
pub struct SdfFontPlugin;

impl SdfFontPlugin {
    /// The atlases to keep for as long as text is shown.
    pub fn build(&self) -> (atlases: FontAtlases)
        ensures
            atlases.wf(),
            atlases@ == Map::<FontId, FontDataView>::empty(),
    {
        FontAtlases::new()
    }
}

/// Sets up the meshes: the steps to run for every text whose glyphs changed.
pub struct TextMeshPlugin;

impl TextMeshPlugin {
    /// The steps, in the order in which they have to run.
    pub fn build(&self) -> (stages: Vec<Stage>)
        ensures
            stages@ == stage_order(),
    {
        let mut stages: Vec<Stage> = Vec::new();
        stages.push(Stage::UpdateFontAtlases);
        stages.push(Stage::CreateAtlasMeshes);
        stages.push(Stage::UpdateTextMesh);
        assert(stages@ =~= stage_order());
        stages
    }
}

/// Sets up all of it: fonts first, meshes then.
pub struct Text3dPlugin;

impl Text3dPlugin {
    /// The atlases to keep, and the steps to run for every changed text.
    pub fn build(&self) -> (parts: (FontAtlases, Vec<Stage>))
        ensures
            parts.0.wf(),
            parts.0@ == Map::<FontId, FontDataView>::empty(),
            parts.1@ == stage_order(),
    {
        (SdfFontPlugin.build(), TextMeshPlugin.build())
    }
}

} // verus!
