use eiviz::command::SessionMutation;
use eiviz::session::edit::{
    add_catalog_tag, add_scene_layer, allocate_input, delete_catalog_tag, move_scene_layer, rename_catalog_tag,
    TagCatalog,
};
use eiviz::session::model::{Document, InputDto, InputKind, SceneDto, SceneLayer, UnitDto};
use eiviz::session::mutate::apply;

fn bars() -> Document {
    let mut d = Document::default();
    d.inputs = vec![InputDto { id: 2, name: "Bars".to_string(), kind: InputKind::Bars, ..InputDto::default() }];
    d.scenes = vec![SceneDto {
        id: 1,
        name: "Scene 1".to_string(),
        layers: vec![SceneLayer { input_id: 2, ..SceneLayer::default() }],
        ..SceneDto::default()
    }];
    d.units = vec![UnitDto { id: 1, name: "MU 1".to_string(), ..UnitDto::default() }];
    d
}

fn sample_input(name: &str) -> InputDto {
    InputDto { id: 0, name: name.to_string(), kind: InputKind::NDI, ..InputDto::default() }
}

fn sample_layer(x: f32) -> SceneLayer {
    SceneLayer {
        input_id: 2,
        x: x.to_bits(),
        width: 0.5f32.to_bits(),
        height: 1.0f32.to_bits(),
        ..SceneLayer::default()
    }
}

#[test]
fn allocate_input_assigns_id_and_guid() {
    let mut doc = bars();
    let id = allocate_input(&mut doc, sample_input("Cam")).unwrap();
    assert!(id >= 10);
    let added = doc.inputs.iter().find(|item| item.id == id).unwrap();
    assert!(!added.guid.is_empty());
    assert_eq!(added.name, "Cam");
}

#[test]
fn layer_move_and_tag_rename() {
    let mut doc = bars();
    add_scene_layer(&mut doc, 1, sample_layer(0.5)).unwrap();
    move_scene_layer(&mut doc, 1, 1, 0).unwrap();
    assert!((f32::from_bits(doc.scenes[0].layers[0].x) - 0.5).abs() < f32::EPSILON);
    add_catalog_tag(&mut doc, TagCatalog::Input, "Cameras".into()).unwrap();
    doc.inputs[0].tags.push("Cameras".into());
    rename_catalog_tag(&mut doc, TagCatalog::Input, "Cameras", "Cams").unwrap();
    assert_eq!(doc.input_tags, ["Cams"]);
    assert_eq!(doc.inputs[0].tags, ["Cams"]);
    delete_catalog_tag(&mut doc, TagCatalog::Input, "Cams").unwrap();
    assert!(doc.input_tags.is_empty());
    assert!(doc.inputs[0].tags.is_empty());
}

#[test]
fn upsert_clone_keeps_unspecified_fields() {
    let mut doc = bars();
    let original = doc.inputs[0].clone();
    let mut edited = original.clone();
    edited.name = "Bars A".into();
    assert_eq!(edited.kind, original.kind);
    assert_eq!(edited.path_or_address, original.path_or_address);
    assert_eq!(edited.bus_mask, original.bus_mask);
    apply(&mut doc, SessionMutation::UpsertInput { input: Box::new(edited) }).unwrap();
    assert_eq!(doc.inputs[0].name, "Bars A");
    assert_eq!(doc.inputs[0].kind, original.kind);
}
