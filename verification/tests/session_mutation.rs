use eiviz::command::SessionMutation;
use eiviz::error::ControlError;
use eiviz::session::model::{
    Document, InputDto, InputKind, MultiviewDto, MultiviewTemplate, OutputDto, OutputSourceKind,
    OutputTransport, Renderer, SceneDto, SceneLayer, UnitDto,
};
use eiviz::session::mutate::apply;

fn bars() -> Document {
    let mut d = Document::default();
    d.inputs = vec![InputDto { id: 2, name: "Bars".to_string(), kind: InputKind::Bars, ..InputDto::default() }];
    d.scenes = vec![SceneDto {
        id: 1,
        name: "Scene 1".to_string(),
        layers: vec![SceneLayer { input_id: 2, ..SceneLayer::default() }],
        ..SceneDto::default()
    }];
    d.units = vec![UnitDto { id: 1, name: "MU 1".to_string(), ..UnitDto::default() }];
    d
}

fn output(id: u64, name: &str, transport: OutputTransport, source_kind: OutputSourceKind) -> OutputDto {
    OutputDto {
        id,
        name: name.to_string(),
        transport,
        source_kind,
        source_id: 0,
        unit_id: 1,
        use_gpu: true,
        enabled: true,
        audio_bus_id: 1,
        skip_encode_when_no_receivers: true,
    }
}

#[test]
fn published_outputs_skip_input_and_disabled() {
    let mut doc = bars();
    doc.outputs.push(output(100, "PGM", OutputTransport::Omt, OutputSourceKind::MuProgram));
    let mut input_out = output(101, "In", OutputTransport::Ndi, OutputSourceKind::Input);
    input_out.source_id = 2;
    input_out.use_gpu = false;
    doc.outputs.push(input_out);
    let published = doc.published_video_outputs();
    assert_eq!(published.len(), 1);
    assert_eq!(published[0].name, "PGM");
}

#[test]
fn add_media_input_appends_still() {
    let mut doc = bars();
    apply(
        &mut doc,
        SessionMutation::AddMediaInput {
            name: "Logo".into(),
            media_kind: InputKind::Still,
            host_path: "/media/logo.png".into(),
            video_loop: true,
            tags: vec![],
        },
    )
    .unwrap();
    let added = doc.inputs.iter().find(|item| item.name == "Logo").unwrap();
    assert_eq!(added.kind, InputKind::Still);
    assert_eq!(added.path_or_address.as_deref(), Some("/media/logo.png"));
    assert_eq!(added.id, 10);
    assert_eq!(added.guid.len(), 36);
    assert_eq!(doc.next_input_id, 11);
}

#[test]
fn add_media_input_without_name_uses_file_stem() {
    let mut doc = bars();
    apply(
        &mut doc,
        SessionMutation::AddMediaInput {
            name: "  ".into(),
            media_kind: InputKind::Video,
            host_path: "/media/clips/opener.mp4".into(),
            video_loop: false,
            tags: vec!["VTR".to_string()],
        },
    )
    .unwrap();
    let added = doc.inputs.last().unwrap();
    assert_eq!(added.name, "Video opener");
    assert_eq!(added.tags, vec!["VTR".to_string()]);
    assert!(!added.video_loop);
}

#[test]
fn add_media_input_rejects_other_kinds_and_blank_path() {
    let mut doc = bars();
    let err = apply(
        &mut doc,
        SessionMutation::AddMediaInput {
            name: "Cam".into(),
            media_kind: InputKind::OMT,
            host_path: "/x".into(),
            video_loop: false,
            tags: vec![],
        },
    )
    .unwrap_err();
    assert_eq!(err.message(), "uploaded media must be Still or Video");
    let err = apply(
        &mut doc,
        SessionMutation::AddMediaInput {
            name: "Clip".into(),
            media_kind: InputKind::Video,
            host_path: String::new(),
            video_loop: false,
            tags: vec![],
        },
    )
    .unwrap_err();
    assert_eq!(err.message(), "host path required");
    assert_eq!(doc.inputs.len(), 1);
}

#[test]
fn delete_missing_input_is_not_found() {
    let mut doc = bars();
    let err = apply(&mut doc, SessionMutation::DeleteInput { id: 99 }).unwrap_err();
    assert!(matches!(err, ControlError::NotFound { .. }));
    assert_eq!(err.message(), "input 99");
}

#[test]
fn delete_input_drops_its_layers() {
    let mut doc = bars();
    apply(&mut doc, SessionMutation::DeleteInput { id: 2 }).unwrap();
    assert!(doc.inputs.is_empty());
    assert!(doc.scenes[0].layers.is_empty());
}

#[test]
fn upsert_multiview_appends_and_delete_removes() {
    let mut doc = bars();
    apply(
        &mut doc,
        SessionMutation::UpsertMultiview {
            layout: Box::new(MultiviewDto {
                id: 1,
                name: "MV 1".into(),
                preview_unit_id: 1,
                program_unit_id: 1,
                present_interval: 3,
                tiles: vec![],
                template: MultiviewTemplate::PreviewProgram8,
                preview_label_follow: true,
                preview_label: String::new(),
                program_label_follow: true,
                program_label: String::new(),
                label_anchor: None,
                label_size: None,
                label_unit: None,
                always_on_top: true,
            }),
        },
    )
    .unwrap();
    assert_eq!(doc.multiviews.len(), 1);
    assert_eq!(doc.multiviews[0].name, "MV 1");
    assert_eq!(doc.next_multiview_id, 2);
    apply(&mut doc, SessionMutation::DeleteMultiview { id: 1 }).unwrap();
    assert!(doc.multiviews.is_empty());
}

#[test]
fn upsert_input_requires_id_and_replaces_in_place() {
    let mut doc = bars();
    let err = apply(&mut doc, SessionMutation::UpsertInput { input: Box::new(InputDto::default()) })
        .unwrap_err();
    assert_eq!(err.message(), "input id required");
    let renamed = InputDto { id: 2, name: "Bars HD".into(), kind: InputKind::Bars, ..InputDto::default() };
    apply(&mut doc, SessionMutation::UpsertInput { input: Box::new(renamed) }).unwrap();
    assert_eq!(doc.inputs.len(), 1);
    assert_eq!(doc.inputs[0].name, "Bars HD");
}

#[test]
fn last_unit_cannot_be_deleted() {
    let mut doc = bars();
    let err = apply(&mut doc, SessionMutation::DeleteUnit { id: 1 }).unwrap_err();
    assert_eq!(err.message(), "refusing to delete the last mixing unit");
    doc.units.push(UnitDto { id: 5, name: "MU 5".into(), ..UnitDto::default() });
    doc.selected_unit_id = 1;
    apply(&mut doc, SessionMutation::DeleteUnit { id: 1 }).unwrap();
    assert_eq!(doc.units.len(), 1);
    assert_eq!(doc.selected_unit_id, 5);
}

#[test]
fn set_overlay_slot_fills_missing_slots_with_defaults() {
    let mut doc = bars();
    let mut slot = eiviz::session::model::OverlaySlot::default();
    slot.scene_gpu_id = 77;
    apply(&mut doc, SessionMutation::SetOverlaySlot { unit_id: 1, index: 2, slot: Box::new(slot) }).unwrap();
    assert_eq!(doc.units[0].overlays.len(), 3);
    assert_eq!(doc.units[0].overlays[2].scene_gpu_id, 77);
    assert_eq!(doc.units[0].overlays[0], eiviz::session::model::OverlaySlot::default());
    let err = apply(&mut doc, SessionMutation::SetOverlaySlot { unit_id: 9, index: 0, slot: Box::new(slot) })
        .unwrap_err();
    assert_eq!(err.message(), "unit 9");
}

#[test]
fn set_settings_replaces_settings_and_outputs() {
    let mut doc = bars();
    doc.settings.renderer = Renderer::Vulkan;
    doc.settings.last_session_path = Some("show.json".into());
    let mut settings = doc.settings.clone();
    settings.vmix_api_port = 9099;
    settings.renderer = Renderer::Auto;
    settings.last_session_path = None;
    apply(
        &mut doc,
        SessionMutation::SetSettings {
            settings: Box::new(settings),
            outputs: vec![output(100, "PGM", OutputTransport::Omt, OutputSourceKind::MuProgram)],
            buses: vec![],
            headphone_copy_master: true,
            next_output_id: 101,
            next_bus_id: 3,
        },
    )
    .unwrap();
    assert_eq!(doc.settings.vmix_api_port, 9099);
    assert_eq!(doc.settings.renderer, Renderer::Vulkan);
    assert_eq!(doc.settings.last_session_path.as_deref(), Some("show.json"));
    assert_eq!(doc.outputs.len(), 1);
    assert!(doc.headphone_copy_master);
    assert_eq!(doc.next_output_id, 101);
}

#[test]
fn mutation_kind_names() {
    assert_eq!(SessionMutation::DeleteInput { id: 1 }.kind_name(), "DeleteInput");
    assert_eq!(
        SessionMutation::SetSceneLayers { scene_id: 1, layers: vec![] }.kind_name(),
        "SetSceneLayers"
    );
}
