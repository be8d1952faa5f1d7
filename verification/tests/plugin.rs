use bevy_text_mesh::SdfFontPlugin;
use bevy_text_mesh::Stage;
use bevy_text_mesh::Text3dPlugin;
use bevy_text_mesh::TextMeshPlugin;

#[test]
fn the_font_plugin_starts_without_atlases() {
    let atlases = SdfFontPlugin.build();
    assert!(atlases.data(0).is_none());
    assert!(atlases.data(17).is_none());
}

#[test]
fn the_steps_run_in_their_order() {
    assert_eq!(
        TextMeshPlugin.build(),
        vec![Stage::UpdateFontAtlases, Stage::CreateAtlasMeshes, Stage::UpdateTextMesh]
    );
}

#[test]
fn the_whole_plugin_sets_up_both() {
    let (atlases, stages) = Text3dPlugin.build();
    assert!(atlases.data(0).is_none());
    assert_eq!(stages.len(), 3);
    assert_eq!(stages[0], Stage::UpdateFontAtlases);
    assert_eq!(stages[2], Stage::UpdateTextMesh);
}
