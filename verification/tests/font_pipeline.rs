use bevy_text_mesh::create_atlas_meshes;
use bevy_text_mesh::font_data::DISTANCE_RANGE;
use bevy_text_mesh::update_font_atlases;
use bevy_text_mesh::update_text_mesh;
use bevy_text_mesh::EmLength;
use bevy_text_mesh::EmVec2;
use bevy_text_mesh::Font;
use bevy_text_mesh::FontAtlases;
use bevy_text_mesh::FontData;
use bevy_text_mesh::FontInvalid;
use bevy_text_mesh::FontLoader;
use bevy_text_mesh::FontLoaderError;
use bevy_text_mesh::Glyph;
use bevy_text_mesh::GlyphBounds;
use bevy_text_mesh::GlyphError;
use bevy_text_mesh::GlyphInfo;
use bevy_text_mesh::PixelRect;
use bevy_text_mesh::Point;
use bevy_text_mesh::RasterJob;
use bevy_text_mesh::RasterizedBitmap;
use bevy_text_mesh::Rect;
use bevy_text_mesh::Segment;
use bevy_text_mesh::ShapeBuilder;
use bevy_text_mesh::TextMesh;
use bevy_text_mesh::UvPoint;
use bevy_text_mesh::UvRect;
use owned_ttf_parser::AsFaceRef;

// A small TrueType font, written out table by table.
//
// glyph 0: no outline            glyph 3: box (0, 0) - (300, 400), 'B'
// glyph 1: box (100, 100) - (600, 900), 'A' and 'a'
// glyph 2: no outline, ' '       glyph 4: box (-50, -20) - (250, 380), 'C'

fn u16_be(out: &mut Vec<u8>, v: u16) {
    out.extend_from_slice(&v.to_be_bytes());
}

fn i16_be(out: &mut Vec<u8>, v: i16) {
    out.extend_from_slice(&v.to_be_bytes());
}

fn u32_be(out: &mut Vec<u8>, v: u32) {
    out.extend_from_slice(&v.to_be_bytes());
}

fn head_table(units_per_em: u16) -> Vec<u8> {
    let mut t = Vec::new();
    u32_be(&mut t, 0x0001_0000);
    u32_be(&mut t, 0x0001_0000);
    u32_be(&mut t, 0);
    u32_be(&mut t, 0x5f0f_3cf5);
    u16_be(&mut t, 0);
    u16_be(&mut t, units_per_em);
    t.extend_from_slice(&[0u8; 16]);
    i16_be(&mut t, -50);
    i16_be(&mut t, -20);
    i16_be(&mut t, 600);
    i16_be(&mut t, 900);
    u16_be(&mut t, 0);
    u16_be(&mut t, 8);
    i16_be(&mut t, 2);
    u16_be(&mut t, 0);
    u16_be(&mut t, 0);
    assert_eq!(t.len(), 54);
    t
}

fn metrics_header(ascender: i16, descender: i16, count: u16) -> Vec<u8> {
    let mut t = Vec::new();
    u32_be(&mut t, 0x0001_0000);
    i16_be(&mut t, ascender);
    i16_be(&mut t, descender);
    i16_be(&mut t, 0);
    t.extend_from_slice(&[0u8; 24]);
    u16_be(&mut t, count);
    assert_eq!(t.len(), 36);
    t
}

fn maxp_table(glyphs: u16) -> Vec<u8> {
    let mut t = Vec::new();
    u32_be(&mut t, 0x0000_5000);
    u16_be(&mut t, glyphs);
    t
}

fn metrics_table(advances: &[u16]) -> Vec<u8> {
    let mut t = Vec::new();
    for a in advances {
        u16_be(&mut t, *a);
        i16_be(&mut t, 0);
    }
    t
}

fn box_glyph(x_min: i16, y_min: i16, x_max: i16, y_max: i16) -> Vec<u8> {
    let mut t = Vec::new();
    i16_be(&mut t, 1);
    i16_be(&mut t, x_min);
    i16_be(&mut t, y_min);
    i16_be(&mut t, x_max);
    i16_be(&mut t, y_max);
    u16_be(&mut t, 3);
    u16_be(&mut t, 0);
    t.extend_from_slice(&[1u8; 4]);
    for dx in [x_min, x_max - x_min, 0, x_min - x_max] {
        i16_be(&mut t, dx);
    }
    for dy in [y_min, 0, y_max - y_min, 0] {
        i16_be(&mut t, dy);
    }
    assert_eq!(t.len(), 34);
    t
}

fn cmap_table() -> Vec<u8> {
    // (first code, last code, glyph of the first code)
    let segments: [(u16, u16, u16); 5] = [
        (0x20, 0x20, 2),
        (0x41, 0x41, 1),
        (0x42, 0x43, 3),
        (0x61, 0x61, 1),
        (0xffff, 0xffff, 0),
    ];
    let count = segments.len() as u16;
    let mut t = Vec::new();
    u16_be(&mut t, 0);
    u16_be(&mut t, 1);
    u16_be(&mut t, 3);
    u16_be(&mut t, 1);
    u32_be(&mut t, 12);
    u16_be(&mut t, 4);
    u16_be(&mut t, 16 + 8 * count);
    u16_be(&mut t, 0);
    u16_be(&mut t, 2 * count);
    u16_be(&mut t, 8);
    u16_be(&mut t, 2);
    u16_be(&mut t, 2 * count - 8);
    for s in segments {
        u16_be(&mut t, s.1);
    }
    u16_be(&mut t, 0);
    for s in segments {
        u16_be(&mut t, s.0);
    }
    for s in segments {
        u16_be(&mut t, s.2.wrapping_sub(s.0));
    }
    for _ in segments {
        u16_be(&mut t, 0);
    }
    t
}

fn font_bytes(units_per_em: u16) -> Vec<u8> {
    let mut glyf = Vec::new();
    let mut loca = Vec::new();
    let outlines: [Option<(i16, i16, i16, i16)>; 5] = [
        None,
        Some((100, 100, 600, 900)),
        None,
        Some((0, 0, 300, 400)),
        Some((-50, -20, 250, 380)),
    ];
    for outline in outlines {
        u16_be(&mut loca, (glyf.len() / 2) as u16);
        if let Some((x0, y0, x1, y1)) = outline {
            glyf.extend_from_slice(&box_glyph(x0, y0, x1, y1));
        }
    }
    u16_be(&mut loca, (glyf.len() / 2) as u16);

    let tables: Vec<([u8; 4], Vec<u8>)> = vec![
        (*b"cmap", cmap_table()),
        (*b"glyf", glyf),
        (*b"head", head_table(units_per_em)),
        (*b"hhea", metrics_header(800, -200, 5)),
        (*b"hmtx", metrics_table(&[500, 700, 250, 600, 650])),
        (*b"loca", loca),
        (*b"maxp", maxp_table(5)),
        (*b"vhea", metrics_header(500, -500, 5)),
        (*b"vmtx", metrics_table(&[900, 1000, 900, 950, 900])),
    ];
    let mut out = Vec::new();
    u32_be(&mut out, 0x0001_0000);
    u16_be(&mut out, tables.len() as u16);
    u16_be(&mut out, 128);
    u16_be(&mut out, 3);
    u16_be(&mut out, 16);
    let mut offset = 12 + 16 * tables.len();
    for (tag, data) in &tables {
        out.extend_from_slice(tag);
        u32_be(&mut out, 0);
        u32_be(&mut out, offset as u32);
        u32_be(&mut out, data.len() as u32);
        offset += (data.len() + 3) / 4 * 4;
    }
    for (_, data) in &tables {
        out.extend_from_slice(data);
        while out.len() % 4 != 0 {
            out.push(0);
        }
    }
    out
}

fn test_font() -> Font {
    FontLoader.load(font_bytes(1000)).unwrap()
}

fn bitmap(width: u32, height: u32, fill: u8) -> RasterizedBitmap {
    RasterizedBitmap::new(width, height, vec![fill; (width * height * 4) as usize]).unwrap()
}

fn em(x: i32, y: i32) -> EmVec2 {
    EmVec2 { x, y, units_per_em: 1000 }
}

fn glyph(character: char, x: f32) -> Glyph<f32> {
    Glyph {
        position: Rect { min_x: x, min_y: 0.0, max_x: x + 1.0, max_y: 2.0 },
        character,
        color: [1.0, 0.5, 0.25, 1.0],
    }
}

// ---- the font ----

#[test]
fn data_that_is_no_font_is_refused() {
    assert!(matches!(
        FontLoader.load(vec![]),
        Err(FontLoaderError::FontInvalid(FontInvalid::UnknownMagic))
    ));
    assert!(matches!(
        FontLoader.load(b"not a font at all".to_vec()),
        Err(FontLoaderError::FontInvalid(FontInvalid::UnknownMagic))
    ));
}

#[test]
fn a_font_cut_short_is_malformed() {
    assert!(matches!(
        FontLoader.load(vec![0, 1, 0, 0, 0, 5]),
        Err(FontLoaderError::FontInvalid(FontInvalid::MalformedFont))
    ));
}

#[test]
fn an_empty_collection_has_no_first_face() {
    let mut data = b"ttcf".to_vec();
    data.extend_from_slice(&[0, 1, 0, 0, 0, 0, 0, 0]);
    assert!(matches!(
        FontLoader.load(data),
        Err(FontLoaderError::FontInvalid(FontInvalid::FaceIndexOutOfBounds))
    ));
}

#[test]
fn a_font_needs_its_head_hhea_and_maxp_tables() {
    fn with_tables(tables: &[([u8; 4], Vec<u8>)]) -> Vec<u8> {
        let mut out = Vec::new();
        u32_be(&mut out, 0x0001_0000);
        u16_be(&mut out, tables.len() as u16);
        out.extend_from_slice(&[0u8; 6]);
        let mut offset = 12 + 16 * tables.len();
        for (tag, data) in tables {
            out.extend_from_slice(tag);
            u32_be(&mut out, 0);
            u32_be(&mut out, offset as u32);
            u32_be(&mut out, data.len() as u32);
            offset += data.len();
        }
        for (_, data) in tables {
            out.extend_from_slice(data);
        }
        out
    }
    assert!(matches!(
        FontLoader.load(with_tables(&[])),
        Err(FontLoaderError::FontInvalid(FontInvalid::NoHeadTable))
    ));
    assert!(matches!(
        FontLoader.load(with_tables(&[(*b"head", head_table(1000))])),
        Err(FontLoaderError::FontInvalid(FontInvalid::NoHheaTable))
    ));
    assert!(matches!(
        FontLoader.load(with_tables(&[
            (*b"head", head_table(1000)),
            (*b"hhea", metrics_header(800, -200, 1)),
        ])),
        Err(FontLoaderError::FontInvalid(FontInvalid::NoMaxpTable))
    ));
    assert!(FontLoader.load(with_tables(&[
        (*b"head", head_table(1000)),
        (*b"hhea", metrics_header(800, -200, 1)),
        (*b"maxp", maxp_table(1)),
    ]))
    .is_ok());
}

#[test]
fn a_font_can_be_made_from_a_parsed_face() {
    let face = owned_ttf_parser::OwnedFace::from_vec(font_bytes(2048), 0).unwrap();
    let font = Font::from(face);
    assert_eq!(font.units_per_em(), 2048);
    assert_eq!(font.glyph_index('A'), Some(1));
    assert_eq!(font.as_face().as_slice(), &font_bytes(2048)[..]);
}

#[test]
fn the_font_says_its_units_and_its_line_gap() {
    let font = test_font();
    assert_eq!(font.units_per_em(), 1000);
    assert_eq!(font.line_gap(), EmLength { units: 1000, units_per_em: 1000 });
    let gap = font.line_gap();
    assert_eq!(gap.units as f64 / gap.units_per_em as f64, 1.0);
}

#[test]
fn code_points_map_to_their_glyphs() {
    let font = test_font();
    assert_eq!(font.glyph_index(' '), Some(2));
    assert_eq!(font.glyph_index('A'), Some(1));
    assert_eq!(font.glyph_index('a'), Some(1));
    assert_eq!(font.glyph_index('B'), Some(3));
    assert_eq!(font.glyph_index('C'), Some(4));
    assert_eq!(font.glyph_index('D'), None);
    assert_eq!(font.glyph_index('\u{1f600}'), None);
}

#[test]
fn glyphs_have_the_box_of_their_outline() {
    let font = test_font();
    assert_eq!(
        font.bounding_box(1),
        Some(GlyphBounds { x_min: 100, y_min: 100, x_max: 600, y_max: 900 })
    );
    assert_eq!(
        font.bounding_box(4),
        Some(GlyphBounds { x_min: -50, y_min: -20, x_max: 250, y_max: 380 })
    );
    assert_eq!(font.bounding_box(2), None);
    assert_eq!(font.bounding_box(0), None);
    assert_eq!(font.bounding_box(77), None);
}

#[test]
fn metrics_of_a_glyph_in_a_font_of_1000_units() {
    let font = test_font();
    let info = font.glyph('A').unwrap();
    assert_eq!(
        info,
        GlyphInfo { id: 1, advance: em(700, 1000), offset: em(100, 100), size: em(500, 800) }
    );
    let scale = 1f32 / info.size.units_per_em as f32;
    assert_eq!(info.size.x as f32 * scale, 0.5);
    assert_eq!(info.size.y as f32 * scale, 0.8);
    assert_eq!(info.offset.x as f32 * scale, 0.1);
    assert_eq!(info.offset.y as f32 * scale, 0.1);
    assert!((info.advance.x as f32 * scale - 0.7).abs() < 1e-6);
}

#[test]
fn metrics_are_the_font_units_over_the_units_per_em() {
    let font = FontLoader.load(font_bytes(2048)).unwrap();
    let info = font.glyph('C').unwrap();
    assert_eq!(info.id, 4);
    assert_eq!(info.advance, EmVec2 { x: 650, y: 900, units_per_em: 2048 });
    assert_eq!(info.offset, EmVec2 { x: -50, y: -20, units_per_em: 2048 });
    assert_eq!(info.size, EmVec2 { x: 300, y: 400, units_per_em: 2048 });
}

#[test]
fn a_glyph_without_outline_has_no_size_but_an_advance() {
    let font = test_font();
    let info = font.glyph(' ').unwrap();
    assert_eq!(
        info,
        GlyphInfo { id: 2, advance: em(250, 900), offset: em(0, 0), size: em(0, 0) }
    );
}

#[test]
fn a_code_point_without_glyph_has_no_metrics() {
    assert_eq!(test_font().glyph('D'), None);
}

#[test]
fn metrics_can_be_made_from_what_a_font_says() {
    let bounds = GlyphBounds { x_min: 100, y_min: 100, x_max: 600, y_max: 900 };
    let info = GlyphInfo::new(9, 1000, Some(bounds), Some(700), None);
    assert_eq!(
        info,
        GlyphInfo { id: 9, advance: em(700, 0), offset: em(100, 100), size: em(500, 800) }
    );
    let wide = GlyphBounds { x_min: i16::MIN, y_min: i16::MIN, x_max: i16::MAX, y_max: i16::MAX };
    let info = GlyphInfo::new(9, 16, Some(wide), None, Some(u16::MAX));
    assert_eq!(info.size, EmVec2 { x: 65535, y: 65535, units_per_em: 16 });
    assert_eq!(info.advance, EmVec2 { x: 0, y: 65535, units_per_em: 16 });
    let flipped = GlyphBounds { x_min: 10, y_min: 10, x_max: 0, y_max: 5 };
    let info = GlyphInfo::new(9, 16, Some(flipped), None, None);
    assert_eq!(info.size, EmVec2 { x: -10, y: -5, units_per_em: 16 });
}

struct Sink {
    builder: ShapeBuilder,
}

impl owned_ttf_parser::OutlineBuilder for Sink {
    fn move_to(&mut self, x: f32, y: f32) {
        self.builder.move_to(x.to_bits(), y.to_bits());
    }

    fn line_to(&mut self, x: f32, y: f32) {
        assert!(self.builder.has_current_point());
        self.builder.line_to(x.to_bits(), y.to_bits());
    }

    fn quad_to(&mut self, x1: f32, y1: f32, x: f32, y: f32) {
        assert!(self.builder.has_current_point());
        self.builder.quad_to(x1.to_bits(), y1.to_bits(), x.to_bits(), y.to_bits());
    }

    fn curve_to(&mut self, x1: f32, y1: f32, x2: f32, y2: f32, x: f32, y: f32) {
        assert!(self.builder.has_current_point());
        self.builder.curve_to(
            x1.to_bits(),
            y1.to_bits(),
            x2.to_bits(),
            y2.to_bits(),
            x.to_bits(),
            y.to_bits(),
        );
    }

    fn close(&mut self) {
        self.builder.close();
    }
}

#[test]
fn the_outline_of_a_box_is_one_contour_of_four_lines() {
    let font = test_font();
    let mut sink = Sink { builder: ShapeBuilder::new() };
    let bounds = font
        .as_face()
        .as_face_ref()
        .outline_glyph(owned_ttf_parser::GlyphId(1), &mut sink);
    assert!(bounds.is_some());
    let at = |x: f32, y: f32| Point { x: x.to_bits(), y: y.to_bits() };
    assert_eq!(
        sink.builder.contours(),
        &vec![vec![
            Segment::Line(at(100.0, 100.0), at(600.0, 100.0)),
            Segment::Line(at(600.0, 100.0), at(600.0, 900.0)),
            Segment::Line(at(600.0, 900.0), at(100.0, 900.0)),
            Segment::Line(at(100.0, 900.0), at(100.0, 100.0)),
        ]]
    );
}

#[test]
fn a_glyph_without_outline_gives_no_contour() {
    let font = test_font();
    let mut sink = Sink { builder: ShapeBuilder::new() };
    let bounds = font
        .as_face()
        .as_face_ref()
        .outline_glyph(owned_ttf_parser::GlyphId(2), &mut sink);
    assert!(bounds.is_none());
    assert!(sink.builder.contours().is_empty());
}

// ---- the atlas of one font ----

#[test]
fn a_new_atlas_knows_nothing() {
    let font = test_font();
    let data = FontData::from(&font);
    assert_eq!(data.atlas_count(), 0);
    assert!(!data.has_glyph('A'));
    assert_eq!(data.glyph_info('A'), None);
    assert_eq!(data.atlas('A'), None);
    assert_eq!(data.lookup_glyph(1), None);
    assert_eq!(data.lookup_glyph_on(0, 1), None);
    assert!(data.atlas_texture(0).is_none());
    assert!(data.atlas_page(0).is_none());
    assert_eq!(data.line_gap(), EmLength { units: 1000, units_per_em: 1000 });
    assert_eq!(DISTANCE_RANGE, 6);
}

#[test]
fn asking_for_a_glyph_says_what_to_draw() {
    let font = test_font();
    let mut data = FontData::from(&font);
    assert_eq!(
        data.request_glyph('A', &font),
        Ok(RasterJob {
            code_point: 'A',
            glyph_id: 1,
            bounds: GlyphBounds { x_min: 100, y_min: 100, x_max: 600, y_max: 900 },
            units_per_em: 1000,
            range: 6,
        })
    );
    assert!(data.has_glyph('A'));
    assert_eq!(data.glyph_info('A'), Some(&font.glyph('A').unwrap()));
    assert_eq!(data.atlas('A'), None);
    assert_eq!(data.atlas_count(), 0);
}

#[test]
fn asking_twice_does_the_work_once() {
    let font = test_font();
    let mut data = FontData::from(&font);
    assert!(data.request_glyph('A', &font).is_ok());
    assert_eq!(data.request_glyph('A', &font), Err(GlyphError::AlreadyAttempted));
    assert_eq!(data.add_glyph('A', &bitmap(40, 40, 1)), Ok(0));
    assert_eq!(data.request_glyph('A', &font), Err(GlyphError::AlreadyAttempted));
    assert_eq!(data.add_glyph('A', &bitmap(40, 40, 1)), Err(GlyphError::NotPending));
    assert_eq!(data.atlas_count(), 1);
    assert_eq!(data.atlas_page(0).unwrap().texture().len(), 1);
}

#[test]
fn a_code_point_without_glyph_is_given_up_for_good() {
    let font = test_font();
    let mut data = FontData::from(&font);
    assert_eq!(data.request_glyph('D', &font), Err(GlyphError::GlyphNotMapped));
    assert!(data.has_glyph('D'));
    assert_eq!(data.glyph_info('D'), None);
    assert_eq!(data.request_glyph('D', &font), Err(GlyphError::AlreadyAttempted));
    assert_eq!(data.add_glyph('D', &bitmap(4, 4, 1)), Err(GlyphError::NotPending));
    assert_eq!(data.atlas_count(), 0);
}

#[test]
fn a_glyph_without_outline_keeps_its_metrics_and_gets_no_bitmap() {
    let font = test_font();
    let mut data = FontData::from(&font);
    assert_eq!(data.request_glyph(' ', &font), Err(GlyphError::EmptyBounds));
    assert!(data.has_glyph(' '));
    assert_eq!(data.glyph_info(' ').unwrap().advance, em(250, 900));
    assert_eq!(data.add_glyph(' ', &bitmap(4, 4, 1)), Err(GlyphError::NotPending));
    assert_eq!(data.atlas(' '), None);
    assert_eq!(data.atlas_count(), 0);
}

#[test]
fn a_bitmap_that_nobody_asked_for_is_not_packed() {
    let font = test_font();
    let mut data = FontData::from(&font);
    assert_eq!(data.add_glyph('A', &bitmap(4, 4, 1)), Err(GlyphError::NotPending));
    assert_eq!(data.atlas_count(), 0);
    assert!(!data.has_glyph('A'));
}

#[test]
fn a_first_bitmap_of_40_by_40_makes_one_page_of_1024() {
    let font = test_font();
    let mut data = FontData::from(&font);
    data.request_glyph('A', &font).unwrap();
    assert_eq!(data.add_glyph('A', &bitmap(40, 40, 3)), Ok(0));
    assert_eq!(data.atlas_count(), 1);
    assert_eq!(data.atlas('A'), Some(0));
    let page = data.atlas_page(0).unwrap().texture();
    assert_eq!(page.size(), 1024);
    assert_eq!(
        page.placement(1),
        Some(PixelRect { min_x: 0, min_y: 0, max_x: 40, max_y: 40 })
    );
    assert_eq!(data.atlas_texture(0).unwrap().len(), 1024 * 1024 * 4);
    assert!(data.atlas_texture(1).is_none());
    assert_eq!(
        data.lookup_glyph(1),
        Some(UvRect { min_x: 6, min_y: 6, max_x: 34, max_y: 34, size: 1024 })
    );
}

#[test]
fn a_first_bitmap_of_2000_by_50_makes_a_page_of_2048() {
    let font = test_font();
    let mut data = FontData::from(&font);
    data.request_glyph('A', &font).unwrap();
    assert_eq!(data.add_glyph('A', &bitmap(2000, 50, 3)), Ok(0));
    assert_eq!(data.atlas_count(), 1);
    assert_eq!(data.atlas_page(0).unwrap().texture().size(), 2048);
    assert_eq!(
        data.atlas_page(0).unwrap().texture().placement(1),
        Some(PixelRect { min_x: 0, min_y: 0, max_x: 2000, max_y: 50 })
    );
}

#[test]
fn a_tall_bitmap_sizes_its_page_by_its_height() {
    let font = test_font();
    let mut data = FontData::from(&font);
    data.request_glyph('B', &font).unwrap();
    assert_eq!(data.add_glyph('B', &bitmap(3, 1025, 3)), Ok(0));
    assert_eq!(data.atlas_page(0).unwrap().texture().size(), 2048);
}

#[test]
fn a_bitmap_as_large_as_its_new_page_stays_unplaced() {
    let font = test_font();
    let mut data = FontData::from(&font);
    data.request_glyph('A', &font).unwrap();
    assert_eq!(
        data.add_glyph('A', &bitmap(1024, 8, 3)),
        Err(GlyphError::UnplaceableOnFreshPage)
    );
    // the page was made all the same, and stays empty
    assert_eq!(data.atlas_count(), 1);
    assert_eq!(data.atlas_page(0).unwrap().texture().size(), 1024);
    assert_eq!(data.atlas_page(0).unwrap().texture().len(), 0);
    assert_eq!(data.atlas('A'), None);
    assert_eq!(data.lookup_glyph(1), None);
    // and there is no second try
    assert_eq!(data.add_glyph('A', &bitmap(8, 8, 3)), Err(GlyphError::NotPending));
    assert_eq!(data.request_glyph('A', &font), Err(GlyphError::AlreadyAttempted));
    // the empty page takes the next glyph
    data.request_glyph('B', &font).unwrap();
    assert_eq!(data.add_glyph('B', &bitmap(8, 8, 3)), Ok(0));
}

#[test]
fn bitmaps_go_to_the_first_page_with_room() {
    let font = test_font();
    let mut data = FontData::from(&font);
    data.request_glyph('A', &font).unwrap();
    data.request_glyph('B', &font).unwrap();
    data.request_glyph('C', &font).unwrap();
    assert_eq!(data.add_glyph('A', &bitmap(600, 600, 1)), Ok(0));
    // no room beside the first on page 0
    assert_eq!(data.add_glyph('B', &bitmap(600, 600, 2)), Ok(1));
    // room on both pages: the first one takes it
    assert_eq!(data.add_glyph('C', &bitmap(100, 100, 3)), Ok(0));
    assert_eq!(data.atlas_count(), 2);
    assert_eq!(data.atlas('A'), Some(0));
    assert_eq!(data.atlas('B'), Some(1));
    assert_eq!(data.atlas('C'), Some(0));
    assert_eq!(data.atlas_page(0).unwrap().texture().len(), 2);
    assert_eq!(data.atlas_page(1).unwrap().texture().len(), 1);
    let a = data.atlas_page(0).unwrap().texture().placement(1).unwrap();
    let c = data.atlas_page(0).unwrap().texture().placement(4).unwrap();
    assert!(!(a.min_x < c.max_x && c.min_x < a.max_x && a.min_y < c.max_y && c.min_y < a.max_y));
}

#[test]
fn a_page_once_given_is_kept() {
    let font = test_font();
    let mut data = FontData::from(&font);
    data.request_glyph('A', &font).unwrap();
    data.request_glyph('B', &font).unwrap();
    assert_eq!(data.add_glyph('A', &bitmap(600, 600, 1)), Ok(0));
    let place = data.atlas_page(0).unwrap().texture().placement(1);
    assert_eq!(data.add_glyph('B', &bitmap(600, 600, 2)), Ok(1));
    data.request_glyph('C', &font).unwrap();
    assert_eq!(data.add_glyph('C', &bitmap(10, 10, 2)), Ok(0));
    assert_eq!(data.atlas('A'), Some(0));
    assert_eq!(data.atlas_page(0).unwrap().texture().placement(1), place);
}

#[test]
fn one_glyph_of_two_code_points_is_looked_up_page_by_page() {
    let font = test_font();
    let mut data = FontData::from(&font);
    data.request_glyph('A', &font).unwrap();
    data.request_glyph('a', &font).unwrap();
    assert_eq!(data.add_glyph('A', &bitmap(900, 900, 1)), Ok(0));
    assert_eq!(data.add_glyph('a', &bitmap(800, 700, 2)), Ok(1));
    assert_eq!(
        data.lookup_glyph(1),
        Some(UvRect { min_x: 6, min_y: 6, max_x: 894, max_y: 894, size: 1024 })
    );
    assert_eq!(data.lookup_glyph_on(0, 1), data.lookup_glyph(1));
    assert_eq!(
        data.lookup_glyph_on(1, 1),
        Some(UvRect { min_x: 6, min_y: 6, max_x: 794, max_y: 694, size: 1024 })
    );
    assert_eq!(data.lookup_glyph_on(2, 1), None);
    assert_eq!(data.lookup_glyph(3), None);
}

#[test]
fn a_page_is_dirty_until_it_is_taken() {
    let font = test_font();
    let mut data = FontData::from(&font);
    data.request_glyph('A', &font).unwrap();
    data.add_glyph('A', &bitmap(10, 10, 1)).unwrap();
    assert!(data.take_dirty(0));
    assert!(!data.take_dirty(0));
    assert!(!data.take_dirty(5));
    data.request_glyph('B', &font).unwrap();
    data.add_glyph('B', &bitmap(10, 10, 1)).unwrap();
    assert!(data.take_dirty(0));
    assert_eq!(data.atlas_page(0).unwrap().texture().len(), 2);
}

#[test]
fn what_a_font_says_can_be_recorded_without_the_font() {
    let font = test_font();
    let mut data = FontData::from(&font);
    let bounds = GlyphBounds { x_min: 1, y_min: 2, x_max: 30, y_max: 40 };
    let info = GlyphInfo::new(5, 2048, Some(bounds), Some(33), None);
    assert_eq!(
        data.record_glyph('x', Some(info), Some(bounds)),
        Ok(RasterJob { code_point: 'x', glyph_id: 5, bounds, units_per_em: 2048, range: 6 })
    );
    assert_eq!(data.glyph_info('x'), Some(&info));
    assert_eq!(
        data.record_glyph('x', Some(info), Some(bounds)),
        Err(GlyphError::AlreadyAttempted)
    );
    assert_eq!(data.record_glyph('y', None, None), Err(GlyphError::GlyphNotMapped));
    assert_eq!(data.record_glyph('y', Some(info), Some(bounds)), Err(GlyphError::AlreadyAttempted));
    assert_eq!(data.glyph_info('y'), None);
    assert_eq!(data.record_glyph('z', Some(info), None), Err(GlyphError::EmptyBounds));
    assert_eq!(data.glyph_info('z'), Some(&info));
    assert_eq!(data.add_glyph('z', &bitmap(4, 4, 1)), Err(GlyphError::NotPending));
    assert_eq!(data.add_glyph('x', &bitmap(4, 4, 1)), Ok(0));
    assert_eq!(data.atlas_page(0).unwrap().texture().placement(5).map(|r| r.max_x), Some(4));
}

#[test]
fn the_height_of_a_line_is_ascender_less_descender() {
    assert_eq!(
        EmLength::from_ascent(800, -200, 1000),
        EmLength { units: 1000, units_per_em: 1000 }
    );
    assert_eq!(
        EmLength::from_ascent(i16::MAX, i16::MIN, 16),
        EmLength { units: 65535, units_per_em: 16 }
    );
    assert_eq!(
        EmLength::from_ascent(-5, 5, 16),
        EmLength { units: -10, units_per_em: 16 }
    );
}

// ---- the atlases of all fonts ----

#[test]
fn a_font_that_is_not_there_gets_nothing_done() {
    let mut atlases = FontAtlases::new();
    assert_eq!(
        atlases.add_code_points(&['A', 'B'], 7, None),
        Err(GlyphError::FontUnresolved)
    );
    assert!(atlases.data(7).is_none());
    assert_eq!(
        atlases.add_glyph(7, 'A', &bitmap(4, 4, 1)),
        Err(GlyphError::FontUnresolved)
    );
    assert!(!atlases.take_dirty(7, 0));
}

#[test]
fn a_missing_font_leaves_an_atlas_as_it_is() {
    let font = test_font();
    let mut atlases = FontAtlases::new();
    atlases.add_code_points(&['A'], 7, Some(&font)).unwrap();
    assert_eq!(atlases.add_code_points(&['B'], 7, None), Err(GlyphError::FontUnresolved));
    let data = atlases.data(7).unwrap();
    assert!(data.has_glyph('A'));
    assert!(!data.has_glyph('B'));
}

#[test]
fn a_batch_asks_for_each_code_point_once_and_in_order() {
    let font = test_font();
    let mut atlases = FontAtlases::new();
    let jobs = atlases
        .add_code_points(&['B', 'D', ' ', 'A', 'B', 'A'], 7, Some(&font))
        .unwrap();
    let asked: Vec<(char, u16)> = jobs.iter().map(|j| (j.code_point, j.glyph_id)).collect();
    assert_eq!(asked, vec![('B', 3), ('A', 1)]);
    assert!(jobs.iter().all(|j| j.range == 6 && j.units_per_em == 1000));
    let data = atlases.data(7).unwrap();
    for c in ['A', 'B', 'D', ' '] {
        assert!(data.has_glyph(c));
    }
    assert!(!data.has_glyph('C'));
    assert!(data.glyph_info('D').is_none());
    assert!(data.glyph_info(' ').is_some());
    assert!(atlases.data(8).is_none());
}

#[test]
fn the_same_batch_again_asks_for_nothing() {
    let font = test_font();
    let mut atlases = FontAtlases::new();
    let chars = ['A', 'B', 'C', ' ', 'D'];
    assert_eq!(atlases.add_code_points(&chars, 7, Some(&font)).unwrap().len(), 3);
    assert_eq!(atlases.add_code_points(&chars, 7, Some(&font)), Ok(vec![]));
    assert_eq!(atlases.add_code_points(&['A', 'a'], 7, Some(&font)).unwrap().len(), 1);
}

#[test]
fn an_empty_batch_still_makes_the_atlas() {
    let font = test_font();
    let mut atlases = FontAtlases::new();
    assert_eq!(atlases.add_code_points(&[], 7, Some(&font)), Ok(vec![]));
    assert_eq!(atlases.data(7).unwrap().atlas_count(), 0);
}

#[test]
fn fonts_keep_their_atlases_apart() {
    let font = test_font();
    let mut atlases = FontAtlases::new();
    atlases.add_code_points(&['A'], 1, Some(&font)).unwrap();
    atlases.add_code_points(&['B'], 2, Some(&font)).unwrap();
    assert_eq!(atlases.add_glyph(1, 'A', &bitmap(10, 10, 1)), Ok(0));
    assert_eq!(atlases.add_glyph(2, 'A', &bitmap(10, 10, 1)), Err(GlyphError::NotPending));
    assert_eq!(atlases.add_glyph(1, 'A', &bitmap(10, 10, 1)), Err(GlyphError::NotPending));
    assert_eq!(atlases.data(1).unwrap().atlas_count(), 1);
    assert_eq!(atlases.data(2).unwrap().atlas_count(), 0);
    assert!(atlases.take_dirty(1, 0));
    assert!(!atlases.take_dirty(1, 0));
    assert!(!atlases.take_dirty(2, 0));
}

// ---- the mesh of a text ----

#[test]
fn a_new_text_has_nothing() {
    let text: TextMesh<f32> = TextMesh::new(7);
    assert_eq!(text.font_id(), 7);
    assert!(text.missing().is_empty());
    assert!(text.glyphs().is_empty());
    assert_eq!(text.mesh_count(), 0);
    assert!(text.mesh(0).is_none());
}

#[test]
fn missing_code_points_queue_up() {
    let mut text: TextMesh<f32> = TextMesh::new(7);
    text.add_missing(&['A', 'B']);
    text.add_missing(&[]);
    text.add_missing(&['A']);
    assert_eq!(text.missing(), &vec!['A', 'B', 'A']);
}

#[test]
fn the_first_step_asks_and_forgets_the_queue() {
    let font = test_font();
    let mut atlases = FontAtlases::new();
    let mut text: TextMesh<f32> = TextMesh::new(7);
    text.add_missing(&['A', ' ', 'A']);
    let jobs = update_font_atlases(&mut text, &mut atlases, Some(&font)).unwrap();
    assert_eq!(jobs.len(), 1);
    assert_eq!(jobs[0].code_point, 'A');
    assert!(text.missing().is_empty());
    assert!(atlases.data(7).unwrap().has_glyph(' '));
}

#[test]
fn the_first_step_forgets_the_queue_even_without_the_font() {
    let mut atlases = FontAtlases::new();
    let mut text: TextMesh<f32> = TextMesh::new(7);
    text.add_missing(&['A']);
    assert_eq!(
        update_font_atlases(&mut text, &mut atlases, None),
        Err(GlyphError::FontUnresolved)
    );
    assert!(text.missing().is_empty());
    assert!(atlases.data(7).is_none());
}

#[test]
fn without_an_atlas_the_later_steps_do_nothing() {
    let atlases = FontAtlases::new();
    let mut text: TextMesh<f32> = TextMesh::new(7);
    text.set_glyphs(vec![glyph('A', 0.0)]);
    assert_eq!(create_atlas_meshes(&mut text, &atlases), vec![]);
    update_text_mesh(&mut text, &atlases);
    assert_eq!(text.mesh_count(), 0);
    assert_eq!(text.glyphs().len(), 1);
}

fn atlases_with_two_pages(font: &Font) -> FontAtlases {
    let mut atlases = FontAtlases::new();
    let jobs = atlases
        .add_code_points(&['A', 'B', 'C', ' ', 'D'], 7, Some(font))
        .unwrap();
    assert_eq!(jobs.len(), 3);
    assert_eq!(atlases.add_glyph(7, 'A', &bitmap(600, 600, 1)), Ok(0));
    assert_eq!(atlases.add_glyph(7, 'B', &bitmap(700, 500, 2)), Ok(1));
    assert_eq!(atlases.add_glyph(7, 'C', &bitmap(100, 50, 3)), Ok(0));
    atlases
}

#[test]
fn the_second_step_gives_a_buffer_for_every_page() {
    let font = test_font();
    let atlases = atlases_with_two_pages(&font);
    let mut text: TextMesh<f32> = TextMesh::new(7);
    assert_eq!(create_atlas_meshes(&mut text, &atlases), vec![0, 1]);
    assert_eq!(text.mesh_count(), 2);
    assert!(text.mesh(0).unwrap().positions.is_empty());
    assert!(text.mesh(2).is_none());
    // nothing to add the second time
    assert_eq!(create_atlas_meshes(&mut text, &atlases), vec![]);
    assert_eq!(text.mesh_count(), 2);
}

#[test]
fn the_second_step_adds_buffers_for_new_pages_only() {
    let font = test_font();
    let mut atlases = FontAtlases::new();
    atlases.add_code_points(&['A', 'B'], 7, Some(&font)).unwrap();
    atlases.add_glyph(7, 'A', &bitmap(900, 900, 1)).unwrap();
    let mut text: TextMesh<f32> = TextMesh::new(7);
    assert_eq!(create_atlas_meshes(&mut text, &atlases), vec![0]);
    atlases.add_glyph(7, 'B', &bitmap(900, 900, 1)).unwrap();
    assert_eq!(create_atlas_meshes(&mut text, &atlases), vec![1]);
    assert_eq!(text.mesh_count(), 2);
}

#[test]
fn the_third_step_gives_each_page_the_quads_of_its_glyphs() {
    let font = test_font();
    let atlases = atlases_with_two_pages(&font);
    let mut text: TextMesh<f32> = TextMesh::new(7);
    // A and C lie on page 0, B on page 1; ' ' has no bitmap, D no glyph,
    // and 'a' was never asked for
    let glyphs: Vec<Glyph<f32>> = "AB CDaAC"
        .chars()
        .enumerate()
        .map(|(i, c)| glyph(c, i as f32))
        .collect();
    text.set_glyphs(glyphs);
    create_atlas_meshes(&mut text, &atlases);
    update_text_mesh(&mut text, &atlases);

    let first = text.mesh(0).unwrap();
    assert_eq!(first.positions.len(), 4 * 4);
    assert_eq!(first.uvs.len(), 4 * 4);
    assert_eq!(first.colors.len(), 4 * 4);
    assert_eq!(first.indices.len(), 6 * 4);
    assert!(first.indices.iter().all(|i| *i < 16));
    assert_eq!(&first.indices[6..12], &[4, 5, 7, 5, 6, 7]);
    // the quads are those of A, C, A, C at the places 0, 3, 6, 7 of the text
    let xs: Vec<f32> = first.positions.iter().step_by(4).map(|p| p[0]).collect();
    assert_eq!(xs, vec![0.0, 3.0, 6.0, 7.0]);
    assert_eq!(&first.positions[4..8], &[[3.0, 0.0], [4.0, 0.0], [4.0, 2.0], [3.0, 2.0]]);
    assert!(first.colors.iter().all(|c| *c == [1.0, 0.5, 0.25, 1.0]));

    let data = atlases.data(7).unwrap();
    let a = data.lookup_glyph_on(0, 1).unwrap();
    let c = data.lookup_glyph_on(0, 4).unwrap();
    assert_eq!(a, UvRect { min_x: 6, min_y: 6, max_x: 594, max_y: 594, size: 1024 });
    assert_eq!(
        &first.uvs[0..4],
        &[
            UvPoint { x: a.min_x, y: a.min_y, size: 1024 },
            UvPoint { x: a.max_x, y: a.min_y, size: 1024 },
            UvPoint { x: a.max_x, y: a.max_y, size: 1024 },
            UvPoint { x: a.min_x, y: a.max_y, size: 1024 },
        ]
    );
    assert_eq!(first.uvs[4], UvPoint { x: c.min_x, y: c.min_y, size: 1024 });
    assert_eq!(first.uvs[6], UvPoint { x: c.max_x, y: c.max_y, size: 1024 });
    assert_eq!(first.uvs[8], first.uvs[0]);

    let second = text.mesh(1).unwrap();
    assert_eq!(second.positions.len(), 4);
    assert_eq!(second.indices, vec![0, 1, 3, 1, 2, 3]);
    assert_eq!(second.positions[0], [1.0, 0.0]);
    let b = data.lookup_glyph_on(1, 3).unwrap();
    assert_eq!(b, UvRect { min_x: 6, min_y: 6, max_x: 694, max_y: 494, size: 1024 });
    assert_eq!(second.uvs[2], UvPoint { x: 694, y: 494, size: 1024 });
}

#[test]
fn the_third_step_rebuilds_from_nothing() {
    let font = test_font();
    let atlases = atlases_with_two_pages(&font);
    let mut text: TextMesh<f32> = TextMesh::new(7);
    text.set_glyphs(vec![glyph('A', 0.0), glyph('A', 1.0), glyph('B', 2.0)]);
    create_atlas_meshes(&mut text, &atlases);
    update_text_mesh(&mut text, &atlases);
    assert_eq!(text.mesh(0).unwrap().positions.len(), 8);
    assert_eq!(text.mesh(1).unwrap().positions.len(), 4);
    // fewer glyphs: the buffers shrink with them
    text.set_glyphs(vec![glyph('B', 5.0)]);
    update_text_mesh(&mut text, &atlases);
    assert!(text.mesh(0).unwrap().positions.is_empty());
    assert!(text.mesh(0).unwrap().indices.is_empty());
    assert_eq!(text.mesh(1).unwrap().positions.len(), 4);
    assert_eq!(text.mesh(1).unwrap().positions[0], [5.0, 0.0]);
    // the same again gives the same
    update_text_mesh(&mut text, &atlases);
    assert_eq!(text.mesh(1).unwrap().indices, vec![0, 1, 3, 1, 2, 3]);
}

#[test]
fn a_text_without_buffers_gets_no_quads() {
    let font = test_font();
    let atlases = atlases_with_two_pages(&font);
    let mut text: TextMesh<f32> = TextMesh::new(7);
    text.set_glyphs(vec![glyph('A', 0.0)]);
    update_text_mesh(&mut text, &atlases);
    assert_eq!(text.mesh_count(), 0);
}

#[test]
fn one_glyph_of_two_code_points_takes_the_place_on_its_own_page() {
    let font = test_font();
    let mut atlases = FontAtlases::new();
    atlases.add_code_points(&['A', 'a'], 7, Some(&font)).unwrap();
    assert_eq!(atlases.add_glyph(7, 'A', &bitmap(900, 900, 1)), Ok(0));
    assert_eq!(atlases.add_glyph(7, 'a', &bitmap(800, 700, 2)), Ok(1));
    let mut text: TextMesh<f32> = TextMesh::new(7);
    text.set_glyphs(vec![glyph('a', 0.0), glyph('A', 1.0)]);
    create_atlas_meshes(&mut text, &atlases);
    update_text_mesh(&mut text, &atlases);
    assert_eq!(text.mesh(0).unwrap().uvs[2], UvPoint { x: 894, y: 894, size: 1024 });
    assert_eq!(text.mesh(0).unwrap().positions[0], [1.0, 0.0]);
    assert_eq!(text.mesh(1).unwrap().uvs[2], UvPoint { x: 794, y: 694, size: 1024 });
    assert_eq!(text.mesh(1).unwrap().positions[0], [0.0, 0.0]);
}

#[test]
fn the_three_steps_in_order_show_a_text() {
    let font = test_font();
    let mut atlases = FontAtlases::new();
    let mut text: TextMesh<f32> = TextMesh::new(3);
    text.add_missing(&['A', 'B']);
    text.set_glyphs(vec![glyph('A', 0.0), glyph('B', 1.0)]);
    let jobs = update_font_atlases(&mut text, &mut atlases, Some(&font)).unwrap();
    for job in &jobs {
        // what a renderer would draw for the job
        let side = 20 + 2 * job.range as u32;
        assert_eq!(atlases.add_glyph(3, job.code_point, &bitmap(side, side, 9)), Ok(0));
    }
    assert_eq!(create_atlas_meshes(&mut text, &atlases), vec![0]);
    update_text_mesh(&mut text, &atlases);
    let mesh = text.mesh(0).unwrap();
    assert_eq!(mesh.positions.len(), 8);
    assert_eq!(mesh.indices.len(), 12);
    assert!(atlases.take_dirty(3, 0));
}

#[test]
fn font_files_end_in_ttf_or_otf() {
    assert_eq!(FontLoader.extensions(), vec!["ttf", "otf"]);
}
