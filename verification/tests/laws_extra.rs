use eiviz::command::Command;
use eiviz::domain::ids::SceneId;
use eiviz::session::default::dated_session_filename;
use eiviz::session::edit::{add_scene_layer, delete_scene_layer, delete_scene_preset, upsert_scene_preset};
use eiviz::session::model::{Document, InputKind, SceneDto, SceneLayer, SceneLayoutPreset};

#[test]
fn only_stills_and_videos_take_a_path() {
    assert!(Command::expected_input_kind_for_path(InputKind::Still));
    assert!(Command::expected_input_kind_for_path(InputKind::Video));
    assert!(!Command::expected_input_kind_for_path(InputKind::Bars));
    assert!(!Command::expected_input_kind_for_path(InputKind::Color));
}

#[test]
fn uuid_text_is_big_endian_lowercase_hex() {
    let id = SceneId::from_u128(0x0123_4567_89ab_cdef_fedc_ba98_7654_3210);
    assert_eq!(id.to_string(), "01234567-89ab-cdef-fedc-ba9876543210");
}

#[test]
fn deleting_a_new_preset_restores_the_document() {
    let mut doc = Document::default();
    let before = doc.scene_presets.len();
    let preset = SceneLayoutPreset { name: "Wide".to_string(), ..SceneLayoutPreset::default() };
    assert!(upsert_scene_preset(&mut doc, preset).is_ok());
    assert_eq!(doc.scene_presets.len(), before + 1);
    assert!(delete_scene_preset(&mut doc, "Wide").is_ok());
    assert_eq!(doc.scene_presets.len(), before);
    assert!(delete_scene_preset(&mut doc, "Wide").is_err());
}

#[test]
fn dated_names_sort_like_their_instants() {
    let instants = [0u64, 59, 86_399, 86_400, 951_782_400, 1_700_000_000, 253_402_300_799];
    for pair in instants.windows(2) {
        let (a, b) = (dated_session_filename(pair[0]), dated_session_filename(pair[1]));
        assert!(a < b, "{a} !< {b}");
        assert_eq!(a.len(), 26);
    }
    assert_eq!(dated_session_filename(253_402_300_799), "eiviz-99991231-235959.eivz");
}

#[test]
fn new_guid_is_version_four() {
    let g = eiviz::guid::new_guid();
    let c: Vec<char> = g.chars().collect();
    assert_eq!(c.len(), 36);
    assert_eq!(c[14], '4');
    assert!(matches!(c[19], '8' | '9' | 'a' | 'b'));
}

#[test]
fn deleting_an_added_layer_restores_the_document() {
    let mut doc = Document::default();
    doc.scenes = vec![SceneDto { id: 7, layers: vec![SceneLayer { input_id: 1, ..SceneLayer::default() }], ..SceneDto::default() }];
    let before = format!("{doc:?}");
    assert!(add_scene_layer(&mut doc, 7, SceneLayer { input_id: 2, ..SceneLayer::default() }).is_ok());
    assert_eq!(doc.scenes[0].layers.len(), 2);
    assert!(delete_scene_layer(&mut doc, 7, 1).is_ok());
    assert_eq!(format!("{doc:?}"), before);
    assert!(delete_scene_layer(&mut doc, 7, 1).is_err());
    assert_eq!(format!("{doc:?}"), before);
}
