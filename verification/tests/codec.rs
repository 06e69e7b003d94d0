use eiviz::session::file::{container_payload, FORMAT_VERSION};
use eiviz::session::model::{
    AudioBusRole, AudioDeviceKind, BusDto, Document, InputDto, InputKind, OutputDto, OutputSourceKind,
    OutputTransport, OverlaySlot, Renderer, SceneDto, SceneLayer, UnitDto,
};
use eiviz::session::wire::{
    document_from_wire, document_to_wire, rgb_from_wire, WireEnum, WireRgb, WireSessionFile,
};

const SAMPLE_JSON: &[u8] = br#"{
  "version": 2,
  "settings": { "masterFpsNum": 60000, "masterFpsDen": 1001 },
  "inputs": [{ "id": 2, "name": "SMPTE Bars", "kind": "Bars" }]
}"#;

/// The sample session: the same values its JSON form names.
fn sample() -> Document {
    let mut doc = Document::default();
    doc.version = 2;
    doc.settings.master_fps_num = 60000;
    doc.settings.master_fps_den = 1001;
    doc.settings.rebar_optimization = false;
    doc.settings.renderer = Renderer::Vulkan;
    doc.settings.last_session_path = Some("ignore-me.json".to_string());
    doc.inputs = vec![InputDto {
        id: 2,
        name: "SMPTE Bars".to_string(),
        kind: InputKind::Bars,
        tags: vec!["VTR".to_string()],
        video_loop: false,
        ..InputDto::default()
    }];
    doc.scenes = vec![SceneDto {
        id: 1,
        name: "Scene 1".to_string(),
        layers: vec![SceneLayer {
            input_id: 2,
            width: 1.0f32.to_bits(),
            height: 1.0f32.to_bits(),
            size_linked: false,
            crop_x: 0.1f32.to_bits(),
            crop_width: 0.8f32.to_bits(),
            ..SceneLayer::default()
        }],
        ..SceneDto::default()
    }];
    doc.units = vec![UnitDto {
        id: 1,
        name: "Mixing Unit 1".to_string(),
        always_on_top: false,
        preview_scene_id: 1,
        program_scene_id: 1,
        overlays: vec![OverlaySlot {
            scene_gpu_id: 1,
            size_linked: false,
            crop_y: 0.2f32.to_bits(),
            crop_height: 0.5f32.to_bits(),
            enabled: false,
            ..OverlaySlot::default()
        }],
        ..UnitDto::default()
    }];
    doc.outputs = vec![OutputDto {
        id: 100,
        name: "eiviz-pgm".to_string(),
        transport: OutputTransport::Omt,
        source_kind: OutputSourceKind::MuProgram,
        skip_encode_when_no_receivers: false,
        ..OutputDto::default()
    }];
    doc.buses = vec![BusDto {
        id: 1,
        name: "Master".to_string(),
        role: AudioBusRole::Master,
        device_kind: AudioDeviceKind::Wasapi,
        map_right: 1,
        ..BusDto::default()
    }];
    doc.input_tags = vec!["VTR".to_string()];
    doc.next_input_id = 10;
    doc.next_scene_id = 2;
    doc.next_unit_id = 2;
    doc.next_output_id = 101;
    doc.selected_unit_id = 1;
    doc
}

#[test]
fn protobuf_roundtrip_keeps_host_fields() {
    let original = sample();
    let encoded = document_to_wire(&original);
    assert_eq!(encoded.format_version, FORMAT_VERSION);
    let decoded = document_from_wire(encoded).unwrap();
    assert_eq!(decoded.units[0].always_on_top, false);
    assert_eq!(decoded.units[0].preview_scene_id, 1);
    assert_eq!(decoded.units[0].program_scene_id, 1);
    assert!(!decoded.scenes[0].layers[0].size_linked);
    assert!((f32::from_bits(decoded.scenes[0].layers[0].crop_x) - 0.1).abs() < f32::EPSILON);
    assert!(!decoded.units[0].overlays[0].size_linked);
    assert!((f32::from_bits(decoded.units[0].overlays[0].crop_y) - 0.2).abs() < f32::EPSILON);
    assert!(!decoded.outputs[0].skip_encode_when_no_receivers);
    assert!(!decoded.settings.rebar_optimization);
    assert_eq!(decoded.settings.renderer, Renderer::Auto);
    assert_eq!(decoded.settings.last_session_path, None);
    let again = document_from_wire(document_to_wire(&decoded)).unwrap();
    assert_eq!(format!("{decoded:?}"), format!("{again:?}"));
}

#[test]
fn json_payload_is_rejected() {
    assert!(container_payload(&SAMPLE_JSON.to_vec()).is_err());
    assert!(container_payload(&br#"  {"version":2}"#.to_vec()).is_err());
}

#[test]
fn unknown_enum_is_rejected() {
    let mut file = document_to_wire(&sample());
    file.document.as_mut().unwrap().inputs[0].kind = WireEnum::Unknown(99);
    let err = document_from_wire(file).unwrap_err();
    assert!(err.contains("input kind"), "{err}");
}

#[test]
fn missing_document_is_rejected() {
    let file = WireSessionFile { format_version: FORMAT_VERSION, document: None, assets: Vec::new(), history: Vec::new() };
    assert!(document_from_wire(file).unwrap_err().contains("missing a document"));
}

#[test]
fn large_canonical_json_roundtrips() {
    let mut doc = sample();
    doc.inputs[0].name = "x".repeat(1_200_000);
    let decoded = document_from_wire(document_to_wire(&doc)).unwrap();
    assert_eq!(decoded.inputs[0].name.len(), 1_200_000);
}

#[test]
fn stored_values_are_checked_in_order() {
    let mut file = document_to_wire(&sample());
    file.document.as_mut().unwrap().inputs[0].kind = WireEnum::Unknown(99);
    assert_eq!(document_from_wire(file).unwrap_err(), "unknown input kind 99");

    let mut file = document_to_wire(&sample());
    file.document.as_mut().unwrap().inputs[0].kind = WireEnum::Unspecified;
    assert_eq!(document_from_wire(file).unwrap_err(), "input kind is required");

    let mut file = document_to_wire(&sample());
    let doc = file.document.as_mut().unwrap();
    doc.inputs[0].kind = WireEnum::Unspecified;
    doc.settings.as_mut().unwrap().internal_color_format = WireEnum::Unknown(-3);
    assert_eq!(document_from_wire(file).unwrap_err(), "unknown internal color format -3");

    let mut file = document_to_wire(&sample());
    file.document.as_mut().unwrap().buses[0].role = WireEnum::Unknown(7);
    assert_eq!(document_from_wire(file).unwrap_err(), "unknown audio bus role 7");

    let mut file = document_to_wire(&sample());
    file.format_version = 99;
    assert_eq!(document_from_wire(file).unwrap_err(), "unsupported eivz format version 99");
}

#[test]
fn colour_channels_above_255_are_refused_red_first() {
    assert_eq!(rgb_from_wire(WireRgb { r: 300, g: 400, b: 0 }).unwrap_err(), "r color channel 300 is out of range");
    assert_eq!(rgb_from_wire(WireRgb { r: 3, g: 256, b: 0 }).unwrap_err(), "g color channel 256 is out of range");
    let c = rgb_from_wire(WireRgb { r: 1, g: 2, b: 255 }).unwrap();
    assert_eq!((c.r, c.g, c.b), (1, 2, 255));
}

#[test]
fn zero_stored_values_read_back_as_defaults() {
    let mut file = document_to_wire(&sample());
    let doc = file.document.as_mut().unwrap();
    doc.inputs[0].tone_level_dbfs = 0;
    doc.buses[0].map_right = 0;
    doc.scenes[0].layers[0].opacity = (-0.0f32).to_bits();
    doc.settings = None;
    doc.inputs[0].bandwidth_save = WireEnum::Unspecified;
    let decoded = document_from_wire(file).unwrap();
    assert_eq!(f32::from_bits(decoded.inputs[0].tone_level_dbfs), -20.0);
    assert_eq!(decoded.buses[0].map_right, 1);
    assert_eq!(f32::from_bits(decoded.scenes[0].layers[0].opacity), 1.0);
    assert_eq!(decoded.settings.master_fps_num, 60000);
    assert_eq!(decoded.inputs[0].bandwidth_save, InputDto::default().bandwidth_save);
}

#[test]
fn a_read_document_is_written_back_unchanged() {
    let mut doc = sample();
    doc.settings.master_fps_num = 0;
    doc.buses[0].map_right = 0;
    let once = document_from_wire(document_to_wire(&doc)).unwrap();
    assert_eq!(once.settings.master_fps_num, 60000);
    let twice = document_from_wire(document_to_wire(&once)).unwrap();
    assert_eq!(format!("{once:?}"), format!("{twice:?}"));
}
