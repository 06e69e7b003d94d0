use eiviz::ids::{multiview_gpu_id, scene_gpu_id};
use eiviz::live::{LiveState, UnitLiveState};
use eiviz::session::model::{
    Document, InputDto, InputKind, MixSource, MultiviewDto, MultiviewTemplate, OmtQuality, SceneDto,
    SceneLayer, UnitDto,
};
use eiviz::session::reconcile::{encode_slot, omt_quality_to_abi, plan, repair_live, ReconcileOp};

fn input(id: u64, name: &str, kind: InputKind) -> InputDto {
    InputDto { id, name: name.to_string(), kind, ..InputDto::default() }
}

fn scene(id: u64, input_id: u64) -> SceneDto {
    SceneDto {
        id,
        name: format!("Scene {id}"),
        layers: vec![SceneLayer { input_id, ..SceneLayer::default() }],
        ..SceneDto::default()
    }
}

fn bars_doc() -> Document {
    let mut d = Document::default();
    d.inputs = vec![input(2, "Bars", InputKind::Bars)];
    d.scenes = vec![scene(1, 2)];
    d.units = vec![UnitDto { id: 1, name: "MU 1".into(), ..UnitDto::default() }];
    d
}

#[test]
fn cold_apply_creates_graph_in_order() {
    let doc = bars_doc();
    let ops = plan(None, &doc, &vec![]);
    assert!(matches!(ops.first(), Some(ReconcileOp::Settings)));
    assert!(ops.iter().any(|op| matches!(op, ReconcileOp::CreateUnit { id: 1, .. })));
    assert!(ops.iter().any(|op| matches!(op, ReconcileOp::DefineGenerator(_))));
    assert!(ops.iter().any(|op| matches!(op, ReconcileOp::DefineScene(_))));
    assert!(ops.iter().any(|op| matches!(op, ReconcileOp::SetLiveState { .. })));
    assert!(ops.iter().any(|op| matches!(op, ReconcileOp::ConfigureVmixApi { .. })));
}

#[test]
fn cold_apply_uses_stored_preview_program() {
    let mut doc = bars_doc();
    doc.scenes.push(scene(2, 2));
    doc.units[0].preview_scene_id = 2;
    doc.units[0].program_scene_id = 1;
    let ops = plan(None, &doc, &vec![]);
    assert!(ops.iter().any(|op| matches!(
        op,
        ReconcileOp::SetLiveState { unit_id: 1, program, preview }
            if *program == scene_gpu_id(1) && *preview == scene_gpu_id(2)
    )));
}

#[test]
fn reapply_same_document_skips_input_restart() {
    let doc = bars_doc();
    let ops = plan(Some(&doc), &doc, &vec![]);
    assert!(!ops.iter().any(|op| matches!(op, ReconcileOp::DefineGenerator(_))));
    assert!(!ops.iter().any(|op| matches!(op, ReconcileOp::DestroySource { .. })));
    assert!(!ops.iter().any(|op| matches!(op, ReconcileOp::SetLiveState { .. })));
    assert!(!ops.iter().any(|op| matches!(op, ReconcileOp::StartVideo(_))));
    assert!(!ops.iter().any(|op| matches!(op, ReconcileOp::DefineScene(_))));
    assert!(!ops.iter().any(|op| matches!(op, ReconcileOp::ConfigureUnit { .. })));
}

#[test]
fn settings_only_replace_keeps_live_and_media() {
    let mut doc = Document::default();
    let mut clip = input(10, "Clip", InputKind::Video);
    clip.path_or_address = Some("clip.mp4".into());
    doc.inputs = vec![clip];
    doc.scenes = vec![scene(1, 10), scene(2, 10)];
    doc.units = vec![UnitDto { id: 1, name: "MU 1".into(), ..UnitDto::default() }];
    let mut next = doc.clone();
    next.settings.vmix_api_port = 9099;
    let files = vec!["clip.mp4".to_string()];
    let ops = plan(Some(&doc), &next, &files);
    assert!(!ops.iter().any(|op| matches!(op, ReconcileOp::SetLiveState { .. })));
    assert!(!ops.iter().any(|op| matches!(op, ReconcileOp::StartVideo(_))));
    assert!(!ops.iter().any(|op| matches!(op, ReconcileOp::DestroySource { .. })));
    assert!(ops.iter().any(|op| matches!(op, ReconcileOp::ConfigureVmixApi { port: 9099, .. })));
}

#[test]
fn missing_still_is_failed_not_loaded() {
    let mut doc = bars_doc();
    let mut card = input(2, "Card", InputKind::Still);
    card.path_or_address = Some("/no/such/card.png".into());
    doc.inputs = vec![card];
    let ops = plan(None, &doc, &vec![]);
    assert!(ops.iter().any(|op| matches!(
        op,
        ReconcileOp::FailInput { id: 2, message } if message == "input 2 file does not exist: /no/such/card.png"
    )));
    assert!(!ops.iter().any(|op| matches!(op, ReconcileOp::LoadStill { .. })));
    let present = vec!["/no/such/card.png".to_string()];
    let ops = plan(None, &doc, &present);
    assert!(ops.iter().any(|op| matches!(op, ReconcileOp::LoadStill { id: 2, .. })));
}

#[test]
fn mix_session_multiview_promotes_layout_id() {
    let mut doc = bars_doc();
    let mut mv = input(20, "MV", InputKind::Mix);
    mv.mix_source = MixSource::SessionMultiview;
    mv.mix_target_id = 1;
    doc.inputs.push(mv);
    doc.multiviews = vec![MultiviewDto { id: 1, name: "MV 1".into(), ..MultiviewDto::default() }];
    let ops = plan(None, &doc, &vec![]);
    assert!(ops.iter().any(|op| matches!(
        op,
        ReconcileOp::DefineMixInput(spec)
            if spec.id == 20 && spec.source_kind == 3 && spec.target_id == multiview_gpu_id(1)
    )));
    assert!(ops.iter().any(|op| matches!(
        op,
        ReconcileOp::DefineMultiview { spec, preview_unit: 1, program_unit: 1 }
            if spec.id == multiview_gpu_id(1) && spec.panes.len() == 10
    )));
}

#[test]
fn omt_quality_maps_to_mixer_abi_values() {
    assert_eq!(omt_quality_to_abi(OmtQuality::Default), 0);
    assert_eq!(omt_quality_to_abi(OmtQuality::Low), 1);
    assert_eq!(omt_quality_to_abi(OmtQuality::Medium), 50);
    assert_eq!(omt_quality_to_abi(OmtQuality::High), 100);
    for (quality, expected) in [
        (OmtQuality::Default, 0u32),
        (OmtQuality::Low, 1),
        (OmtQuality::Medium, 50),
        (OmtQuality::High, 100),
    ] {
        let mut doc = bars_doc();
        let mut cam = input(10, "Cam", InputKind::OMT);
        cam.path_or_address = Some("omt://studio/cam".into());
        cam.omt_quality = quality;
        doc.inputs = vec![cam];
        let ops = plan(None, &doc, &vec![]);
        assert!(ops.iter().any(|op| matches!(
            op,
            ReconcileOp::ConnectOmt(spec) if spec.id == 10 && spec.quality_or_bandwidth == expected
        )));
    }
}

#[test]
fn repair_live_retargets_deleted_program_scene() {
    let doc = bars_doc();
    let mut live = LiveState::default();
    live.units.insert(
        1,
        UnitLiveState {
            program_source: scene_gpu_id(2),
            preview_source: scene_gpu_id(1),
            ..UnitLiveState::default()
        },
    );
    let ops = repair_live(&doc, &live);
    assert!(ops.iter().any(|op| matches!(
        op,
        ReconcileOp::SetLiveState { unit_id: 1, program, preview }
            if *program == scene_gpu_id(1) && *preview == scene_gpu_id(1)
    )));
}

#[test]
fn removed_resources_are_torn_down() {
    let doc = bars_doc();
    let mut next = bars_doc();
    next.inputs.clear();
    next.scenes[0].layers.clear();
    next.units[0].id = 2;
    let ops = plan(Some(&doc), &next, &vec![]);
    assert!(ops.iter().any(|op| matches!(op, ReconcileOp::DestroySource { id: 2 })));
    assert!(ops.iter().any(|op| matches!(op, ReconcileOp::DestroyUnit { id: 1 })));
    assert!(ops.iter().any(|op| matches!(op, ReconcileOp::CreateUnit { id: 2, .. })));
    assert!(ops.iter().any(|op| matches!(op, ReconcileOp::DefineScene(_))));
}

#[test]
fn multiview_template_tile_counts_and_slots() {
    assert_eq!(MultiviewTemplate::PreviewProgram8.tile_count(), 10);
    assert_eq!(MultiviewTemplate::PreviewProgram2.tile_count(), 4);
    assert_eq!(MultiviewTemplate::Quad4TopLeft.tile_count(), 7);
    assert_eq!(MultiviewTemplate::Large5TopLeft.tile_count(), 6);
    assert_eq!(MultiviewTemplate::Grid2x2.tile_count(), 4);
    assert_eq!(MultiviewTemplate::Grid3x3.tile_count(), 9);
    assert_eq!(MultiviewTemplate::Grid4x4.tile_count(), 16);
    assert_eq!(encode_slot(eiviz::session::model::MvSlotKind::Scene, 3), scene_gpu_id(3));
    assert_eq!(encode_slot(eiviz::session::model::MvSlotKind::Empty, 3), 0);
}
