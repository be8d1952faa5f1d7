//! Signed-distance-field text meshes: the metrics of glyphs, a growing set
//! of packed atlas pages for every font, and the quads of a laid-out text.
//!
//! The library is written in Verus: every function states what it returns
//! and changes, and is proved to do so. Fonts are read by `owned_ttf_parser`
//! and pages are packed by `guillotiere`; what is taken on trust about the
//! two stands in `face` and `packer`. Drawing a glyph as a distance field is
//! left to the host, which gets a `RasterJob` and hands back a
//! `RasterizedBitmap`.

pub mod atlas_page;
pub mod bitmap;
pub mod face;
pub mod font;
pub mod font_atlases;
pub mod font_data;
pub mod outline;
pub mod packer;
pub mod page_size;
pub mod plugin;
pub mod rect;
pub mod text_mesh;

pub use atlas_page::AtlasTexture;
pub use atlas_page::FontAtlas;
pub use atlas_page::FontAtlasView;
pub use bitmap::RasterizedBitmap;
pub use face::GlyphBounds;
pub use font::EmLength;
pub use font::EmVec2;
pub use font::Font;
pub use font::FontInvalid;
pub use font::FontLoader;
pub use font::FontLoaderError;
pub use font::GlyphId;
pub use font::GlyphInfo;
pub use font_atlases::FontAtlases;
pub use font_atlases::FontId;
pub use font_data::FontData;
pub use font_data::FontDataView;
pub use font_data::GlyphError;
pub use font_data::RasterJob;
pub use outline::Point;
pub use outline::Segment;
pub use outline::ShapeBuilder;
pub use outline::ShapeView;
pub use plugin::SdfFontPlugin;
pub use plugin::Stage;
pub use plugin::Text3dPlugin;
pub use plugin::TextMeshPlugin;
pub use rect::PixelRect;
pub use rect::UvPoint;
pub use rect::UvRect;
pub use text_mesh::Glyph;
pub use text_mesh::MeshBuffers;
pub use text_mesh::MeshView;
pub use text_mesh::PositionedGlyph;
pub use text_mesh::Rect;
pub use text_mesh::create_atlas_meshes;
pub use text_mesh::update_font_atlases;
pub use text_mesh::update_text_mesh;
pub use text_mesh::TextMesh;
pub use text_mesh::TextMeshBuilder;
pub use text_mesh::TextMeshView;
