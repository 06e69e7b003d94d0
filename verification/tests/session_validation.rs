use eiviz::error::ControlError;
use eiviz::ids::multiview_gpu_id;
use eiviz::query::Capabilities;
use eiviz::session::default::{dated_session_filename, default_document};
use eiviz::session::model::{
    AudioCaptureMode, AudioDeviceKind, Document, InputDto, InputKind, MixSource, MultiviewDto,
    SceneDto, SceneLayer, UnitDto,
};
use eiviz::session::validate::{validate, validate_for_apply};

fn input(id: u64, name: &str, kind: InputKind) -> InputDto {
    InputDto { id, name: name.to_string(), kind, ..InputDto::default() }
}

fn layer(input_id: u64) -> SceneLayer {
    SceneLayer { input_id, ..SceneLayer::default() }
}

fn scene(id: u64, name: &str, layers: Vec<SceneLayer>) -> SceneDto {
    SceneDto { id, name: name.to_string(), layers, ..SceneDto::default() }
}

fn unit(id: u64, name: &str) -> UnitDto {
    UnitDto { id, name: name.to_string(), ..UnitDto::default() }
}

fn multiview(id: u64, name: &str) -> MultiviewDto {
    MultiviewDto { id, name: name.to_string(), ..MultiviewDto::default() }
}

fn doc(inputs: Vec<InputDto>, scenes: Vec<SceneDto>, units: Vec<UnitDto>) -> Document {
    let mut d = Document::default();
    d.inputs = inputs;
    d.scenes = scenes;
    d.units = units;
    d
}

fn bars_session() -> Document {
    doc(
        vec![input(2, "Bars", InputKind::Bars)],
        vec![scene(1, "Scene 1", vec![layer(2)])],
        vec![unit(1, "MU 1")],
    )
}

#[test]
fn abi_round_trip_keeps_historical_range() {
    assert_eq!(ControlError::invalid("x").to_abi(), 3);
    assert_eq!(ControlError::not_found("x").to_abi(), 3);
    assert_eq!(ControlError::ambiguous("x").to_abi(), 3);
    assert_eq!(ControlError::conflict("revision").to_abi(), 3);
    assert_eq!(ControlError::conflict("already created").to_abi(), 1);
    assert_eq!(ControlError::unavailable("x").to_abi(), 2);
    assert_eq!(ControlError::internal("x").to_abi(), 4);
    assert_eq!(ControlError::io("x").to_abi(), 5);
}

#[test]
fn default_platforms_include_linux() {
    let caps = Capabilities::default();
    assert!(caps.platforms.iter().any(|p| p == "windows"));
    assert!(caps.platforms.iter().any(|p| p == "macos"));
    assert!(caps.platforms.iter().any(|p| p == "linux"));
}

#[test]
fn default_session_is_valid() {
    let doc = default_document();
    validate(&doc).unwrap();
    validate_for_apply(&doc).unwrap();
    assert_eq!(doc.inputs.len(), 4);
    assert_eq!(doc.scenes.len(), 2);
    assert_eq!(doc.units.len(), 1);
    assert!(!doc.outputs[0].use_gpu);
}

#[test]
fn dated_filename_uses_utc_stamp() {
    assert_eq!(dated_session_filename(0), "eiviz-19700101-000000.eivz");
    assert_eq!(dated_session_filename(1_700_000_000), "eiviz-20231114-221320.eivz");
}

#[test]
fn rejects_empty_graph() {
    let doc = Document::default();
    assert!(validate(&doc).is_err());
}

#[test]
fn accepts_minimal_bars_session() {
    validate(&bars_session()).unwrap();
}

#[test]
fn rejects_unknown_preview_scene() {
    let mut doc = bars_session();
    doc.units[0].preview_scene_id = 9;
    let err = validate(&doc).unwrap_err();
    assert!(err.message.contains("preview"), "{}", err.message);
}

#[test]
fn apply_keeps_still_with_missing_file() {
    let mut card = input(2, "Card", InputKind::Still);
    card.path_or_address = Some("/no/such/card.png".to_string());
    let doc = doc(vec![card], vec![scene(1, "Scene 1", vec![layer(2)])], vec![unit(1, "MU 1")]);
    validate(&doc).unwrap();
    validate_for_apply(&doc).unwrap();
    assert_eq!(doc.inputs[0].path_or_address.as_deref(), Some("/no/such/card.png"));
}

#[test]
fn mix_session_multiview_accepts_layout_or_gpu_id() {
    let mut mv = input(20, "MV", InputKind::Mix);
    mv.mix_source = MixSource::SessionMultiview;
    mv.mix_target_id = 1;
    let mut doc = doc(
        vec![input(2, "Bars", InputKind::Bars), mv],
        vec![scene(1, "Scene 1", vec![layer(2)])],
        vec![unit(1, "MU 1")],
    );
    doc.multiviews = vec![multiview(1, "MV 1")];
    validate(&doc).unwrap();

    let mut gpu = doc.clone();
    gpu.inputs[1].mix_target_id = multiview_gpu_id(1);
    validate(&gpu).unwrap();

    let mut missing = doc;
    missing.inputs[1].mix_target_id = 9;
    let err = validate(&missing).unwrap_err();
    assert!(err.message.contains("multiview"), "{}", err.message);
}

#[test]
fn mix_mu_program_rejects_gpu_multiview_id_as_unit() {
    let mut pgm = input(20, "PGM", InputKind::Mix);
    pgm.mix_source = MixSource::MuProgram;
    pgm.mix_target_id = 131073;
    let mut doc = doc(
        vec![input(2, "Bars", InputKind::Bars), pgm],
        vec![scene(1, "Scene 1", vec![layer(2)])],
        vec![unit(1, "MU 1")],
    );
    doc.multiviews = vec![multiview(1, "MV 1")];
    let err = validate(&doc).unwrap_err();
    assert!(err.message.contains("unit"), "{}", err.message);
}

#[test]
fn process_loopback_requires_exe_or_aumid() {
    let mut app = input(2, "App", InputKind::Audio);
    app.audio_capture_mode = AudioCaptureMode::ProcessLoopback;
    let src = doc(vec![app.clone()], vec![scene(1, "Scene 1", vec![])], vec![unit(1, "MU 1")]);
    let err = validate(&src).unwrap_err();
    assert!(err.message.contains("process"), "{}", err.message);

    app.audio_process_exe = "Spotify.exe".to_string();
    let ok = doc(vec![app], vec![scene(1, "Scene 1", vec![])], vec![unit(1, "MU 1")]);
    validate(&ok).unwrap();
}

#[test]
fn asio_rejects_process_loopback() {
    let mut asio = input(2, "ASIO", InputKind::Audio);
    asio.audio_device_kind = AudioDeviceKind::Asio;
    asio.audio_capture_mode = AudioCaptureMode::ProcessLoopback;
    asio.audio_process_exe = "app.exe".to_string();
    let src = doc(vec![asio], vec![scene(1, "Scene 1", vec![])], vec![unit(1, "MU 1")]);
    let err = validate(&src).unwrap_err();
    assert!(err.message.contains("ASIO"), "{}", err.message);
}

#[test]
fn scene_rejects_audio_only_layer() {
    let src = doc(
        vec![input(2, "Mic", InputKind::Audio)],
        vec![scene(1, "Scene 1", vec![layer(2)])],
        vec![unit(1, "MU 1")],
    );
    let err = validate(&src).unwrap_err();
    assert!(err.message.contains("audio-only"), "{}", err.message);
}
