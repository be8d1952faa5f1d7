use bevy_text_mesh::MeshBuffers;
use bevy_text_mesh::Rect;
use bevy_text_mesh::TextMeshBuilder;
use bevy_text_mesh::UvPoint;
use bevy_text_mesh::UvRect;

fn uv(min_x: u32, min_y: u32, max_x: u32, max_y: u32) -> UvRect {
    UvRect { min_x, min_y, max_x, max_y, size: 1024 }
}

#[test]
fn a_new_buffer_is_empty() {
    let mesh: MeshBuffers<f32> = MeshBuffers::new();
    assert!(mesh.positions.is_empty());
    assert!(mesh.uvs.is_empty());
    assert!(mesh.colors.is_empty());
    assert!(mesh.indices.is_empty());
}

#[test]
fn a_builder_empties_the_buffer_it_is_given() {
    let mesh = MeshBuffers {
        positions: vec![[1.0f32, 2.0]],
        uvs: vec![UvPoint { x: 1, y: 2, size: 4 }],
        colors: vec![[1.0f32, 1.0, 1.0, 1.0]],
        indices: vec![0, 0, 0],
    };
    let mesh = TextMeshBuilder::new(mesh).finish();
    assert!(mesh.positions.is_empty());
    assert!(mesh.uvs.is_empty());
    assert!(mesh.colors.is_empty());
    assert!(mesh.indices.is_empty());
}

#[test]
fn one_glyph_gives_one_quad() {
    let mut builder = TextMeshBuilder::new(MeshBuffers::new());
    let position = Rect { min_x: 1.0f32, min_y: 2.0, max_x: 3.0, max_y: 5.0 };
    let color = [0.1f32, 0.2, 0.3, 0.4];
    builder.append_glyph(&position, &uv(6, 7, 34, 24), &color);
    let mesh = builder.finish();
    assert_eq!(mesh.positions, vec![[1.0, 2.0], [3.0, 2.0], [3.0, 5.0], [1.0, 5.0]]);
    assert_eq!(
        mesh.uvs,
        vec![
            UvPoint { x: 6, y: 7, size: 1024 },
            UvPoint { x: 34, y: 7, size: 1024 },
            UvPoint { x: 34, y: 24, size: 1024 },
            UvPoint { x: 6, y: 24, size: 1024 },
        ]
    );
    assert_eq!(mesh.colors, vec![color; 4]);
    assert_eq!(mesh.indices, vec![0, 1, 3, 1, 2, 3]);
}

#[test]
fn later_quads_count_their_vertices_on() {
    let mut builder = TextMeshBuilder::new(MeshBuffers::new());
    let color = [1.0f32; 4];
    for i in 0..3 {
        let x = i as f32;
        let position = Rect { min_x: x, min_y: 0.0, max_x: x + 1.0, max_y: 1.0 };
        builder.append_glyph(&position, &uv(0, 0, 1, 1), &color);
    }
    let mesh = builder.finish();
    assert_eq!(mesh.positions.len(), 12);
    assert_eq!(mesh.uvs.len(), 12);
    assert_eq!(mesh.colors.len(), 12);
    assert_eq!(
        mesh.indices,
        vec![0, 1, 3, 1, 2, 3, 4, 5, 7, 5, 6, 7, 8, 9, 11, 9, 10, 11]
    );
    assert!(mesh.indices.iter().all(|i| (*i as usize) < mesh.positions.len()));
    assert_eq!(mesh.positions[4], [1.0, 0.0]);
    assert_eq!(mesh.positions[10], [3.0, 1.0]);
}
