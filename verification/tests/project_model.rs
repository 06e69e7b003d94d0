use eiviz::domain::audio::AudioMatrix;
use eiviz::domain::error::DomainError;
use eiviz::domain::graph::MixingGraph;
use eiviz::domain::ids::{InputId, MixingUnitId, MultiviewId, OutputId, SceneId, SceneItemId};
use eiviz::domain::input::{Input, InputSource, Playback};
use eiviz::domain::mixing::MixingUnit;
use eiviz::domain::output::{Multiview, MultiviewSource, MultiviewTile, Output, OutputKind, OutputVideoSource};
use eiviz::domain::profile::{
    AacEncoderProfile, AudioResamplingPolicy, AuxiliaryLoadSheddingPolicy, ColorMatrix, ColorMetadata,
    ColorRange, CompositorBackend, DistributionProfile, FieldKind, FieldOrder, H264EncoderProfile,
    ReconnectProfile, TransferFunction, TransportProfile,
};
use eiviz::domain::project::{ntsc_5994, Project, VideoFormat};
use eiviz::domain::routing::MixTap;
use eiviz::domain::scene::{Scene, SceneItem, Transform2D};

fn first_unit(p: &Project) -> MixingUnitId {
    MixingUnitId::from_u128(*p.mixing_units.keys().next().unwrap())
}

fn item(input: InputId) -> SceneItem {
    SceneItem {
        id: SceneItemId::new(),
        input,
        transform: Transform2D::fullscreen(),
        z_order: 0,
        playback: Playback::default(),
    }
}

fn feed(unit: MixingUnitId) -> Input {
    Input {
        id: InputId::new(),
        name: "feed".into(),
        tags: vec![],
        groups: vec![],
        source: InputSource::MixFeed { unit, tap: MixTap::Program },
    }
}

#[test]
fn default_project_validates() {
    let p = Project::new("demo");
    p.validate().unwrap();
    assert_eq!(p.video.frame_rate, ntsc_5994());
}

#[test]
fn extended_profiles_preserve_baseline_and_exact_color_metadata() {
    let baseline = VideoFormat::hd_5994();
    assert!(baseline.is_baseline_1080p5994());
    assert_eq!(
        baseline.color_metadata(),
        ColorMetadata {
            matrix: ColorMatrix::Bt709,
            range: ColorRange::Limited,
            transfer: TransferFunction::Bt709,
        }
    );
    let pq = VideoFormat::uhd_5994_hdr10_pq();
    assert_eq!(pq.frame_rate, ntsc_5994());
    assert_eq!(pq.bit_depth, 10);
    assert_eq!(pq.color_metadata().transfer, TransferFunction::Pq);
    assert!(!pq.is_baseline_1080p5994());
}

#[test]
fn interlaced_field_order_is_deterministic_at_rational_cadence() {
    let top = VideoFormat::hd_interlaced_5994(FieldOrder::TopFieldFirst);
    assert_eq!(top.frame_rate, ntsc_5994());
    assert_eq!(top.field_at(0), FieldKind::Top);
    assert_eq!(top.field_at(1), FieldKind::Bottom);
    assert_eq!(top.field_at(1_000_000), FieldKind::Top);
    let bottom = VideoFormat::hd_interlaced_5994(FieldOrder::BottomFieldFirst);
    assert_eq!(bottom.field_at(0), FieldKind::Bottom);
    assert_eq!(bottom.field_at(1_000_001), FieldKind::Top);
    assert_eq!((top.frame_rate.numerator, top.frame_rate.denominator), (60_000, 1001));
}

#[test]
fn invalid_hdr_and_field_profiles_are_rejected() {
    let mut project = Project::new("invalid video");
    project.compositor = CompositorBackend::Wgpu;
    project.video = VideoFormat::uhd_5994_hdr10_pq();
    project.video.bit_depth = 8;
    assert!(project.validate().unwrap_err().to_string().contains("10-bit"));
    project.video = VideoFormat::hd_5994();
    project.video.interlaced = true;
    assert!(project.validate().unwrap_err().to_string().contains("field order"));
}

#[test]
fn rejects_unknown_scene_item_input() {
    let mut p = Project::new("demo");
    let scene = Scene { id: SceneId::new(), name: "s".into(), items: vec![item(InputId::new())] };
    let id = scene.id;
    assert!(p.insert_scene(scene).is_err());
    assert!(!p.scenes.contains_key(&id.0));
}

#[test]
fn cycle_is_rejected() {
    let mut p = Project::new("demo");
    let a_id = first_unit(&p);
    let b = MixingUnit::new("Mix 2");
    let b_id = b.id;
    p.mixing_units.insert(b_id.0, b.clone());

    let feed_a = feed(a_id);
    let feed_b = feed(b_id);
    let scene_a = Scene { id: SceneId::new(), name: "sa".into(), items: vec![item(feed_b.id)] };
    let scene_b = Scene { id: SceneId::new(), name: "sb".into(), items: vec![item(feed_a.id)] };
    p.inputs.insert(feed_a.id.0, feed_a);
    p.inputs.insert(feed_b.id.0, feed_b);
    p.scenes.insert(scene_a.id.0, scene_a.clone());
    p.scenes.insert(scene_b.id.0, scene_b.clone());
    p.mixing_units.get_mut(&a_id.0).unwrap().program.scene = Some(scene_a.id);
    p.mixing_units.get_mut(&b_id.0).unwrap().program.scene = Some(scene_b.id);
    assert_eq!(p.validate(), Err(DomainError::Cycle));
}

#[test]
fn new_project_uses_explicit_exact_rate_audio_policy() {
    let project = Project::new("demo");
    assert_eq!(project.audio.resampling, AudioResamplingPolicy::ExactRate);
}

#[test]
fn auxiliary_shedding_policy_validates_hysteresis_and_ordered_tiers() {
    let mut project = Project::new("shedding");
    project.auxiliary_load_shedding = AuxiliaryLoadSheddingPolicy::broadcast_default();
    project.validate().unwrap();

    let AuxiliaryLoadSheddingPolicy::Thresholds(policy) = &mut project.auxiliary_load_shedding else {
        unreachable!();
    };
    policy.recover_slack_nanos = policy.overload_slack_nanos;
    assert!(project.validate().is_err());
}

#[test]
fn multiview_rejects_duplicate_and_out_of_grid_tiles() {
    let mut p = Project::new("multiview");
    let unit = first_unit(&p);
    let view = Multiview {
        id: MultiviewId::new(),
        name: "bad".into(),
        owner: unit,
        columns: 2,
        rows: 1,
        tiles: vec![
            MultiviewTile { column: 0, row: 0, source: MultiviewSource::Black },
            MultiviewTile { column: 0, row: 0, source: MultiviewSource::Black },
        ],
    };
    p.multiviews.insert(view.id.0, view.clone());
    p.mixing_units.get_mut(&unit.0).unwrap().multiviews.push(view.id);
    assert!(matches!(p.validate(), Err(DomainError::DuplicateId(_))));

    p.multiviews.get_mut(&view.id.0).unwrap().tiles =
        vec![MultiviewTile { column: 2, row: 0, source: MultiviewSource::Black }];
    assert!(matches!(p.validate(), Err(DomainError::InvalidRef(_))));
}

#[test]
fn distribution_outputs_require_matching_explicit_profiles() {
    let mut project = Project::new("distribution");
    let owner = first_unit(&project);
    let output = Output {
        id: OutputId::new(),
        name: "RTMP".into(),
        owner,
        video_source: OutputVideoSource::Program,
        kind: OutputKind::Rtmp { url: "rtmp://127.0.0.1/live/key".into() },
        enabled: false,
        distribution: None,
    };
    project.outputs.insert(output.id.0, output.clone());
    project.mixing_units.get_mut(&owner.0).unwrap().outputs.push(output.id);
    assert!(project.validate().unwrap_err().to_string().contains("explicit"));

    project.outputs.get_mut(&output.id.0).unwrap().distribution = Some(DistributionProfile {
        video: H264EncoderProfile::ExternalAnnexB {
            adapter: "certified-h264".into(),
            bitrate_bps: 8_000_000,
            keyframe_interval_frames: 120,
        },
        audio: AacEncoderProfile::ExternalRawAacLc {
            adapter: "certified-aac".into(),
            bitrate_bps: 192_000,
            sample_rate: 48_000,
            channels: 2,
        },
        transport: TransportProfile::SrtCallerMpegTs {
            latency_ms: 120,
            stream_id: None,
            connect_timeout_ms: 5_000,
        },
        queue_capacity: 128,
        reconnect: ReconnectProfile { initial_delay_ms: 100, max_delay_ms: 5_000, max_attempts: 0 },
    });
    assert!(project.validate().unwrap_err().to_string().contains("does not match"));
    project.outputs.get_mut(&output.id.0).unwrap().distribution.as_mut().unwrap().transport =
        TransportProfile::RtmpPublish { chunk_size: 4096, connect_timeout_ms: 5_000 };
    project.validate().unwrap();
}

#[test]
fn fresh_project_has_one_unit_owning_its_program_window() {
    let p = Project::new("demo");
    assert_eq!(p.mixing_units.len(), 1);
    let unit = p.mixing_units.values().next().unwrap();
    assert_eq!(unit.name, "Mix 1");
    assert_eq!(unit.outputs.len(), 1);
    let output = &p.outputs[&unit.outputs[0].0];
    assert_eq!(output.owner, unit.id);
    assert_eq!(output.kind, OutputKind::ProgramWindow);
    assert_eq!(output.name, "Program Window");
    assert_eq!(AudioMatrix::default().buses[0].name, "Master");
}

#[test]
fn duplicate_input_is_rejected_and_invalid_input_rolled_back() {
    let mut p = Project::new("inputs");
    let bars = Input { id: InputId::from_u128(7), name: "bars".into(), tags: vec![], groups: vec![], source: InputSource::ColorBars };
    p.insert_input(bars.clone()).unwrap();
    let err = p.insert_input(bars).unwrap_err();
    assert_eq!(err, DomainError::DuplicateId("00000000-0000-0000-0000-000000000007".into()));
    let dangling = Input {
        id: InputId::from_u128(8),
        name: "feed".into(),
        tags: vec![],
        groups: vec![],
        source: InputSource::MixFeed { unit: MixingUnitId::from_u128(99), tap: MixTap::Preview },
    };
    let err = p.insert_input(dangling).unwrap_err();
    assert_eq!(
        err.to_string(),
        "invalid reference: input 00000000-0000-0000-0000-000000000008 -> mixing unit 00000000-0000-0000-0000-000000000063"
    );
    assert_eq!(p.inputs.len(), 1);
}

#[test]
fn playback_speed_and_points_are_checked() {
    let mut p = Project::new("clips");
    let mut playback = Playback::default();
    playback.speed = 0;
    let scene = Scene {
        id: SceneId::from_u128(5),
        name: "s".into(),
        items: vec![SceneItem { playback, ..item(InputId::from_u128(1)) }],
    };
    p.insert_input(Input { id: InputId::from_u128(1), name: "bars".into(), tags: vec![], groups: vec![], source: InputSource::ColorBars }).unwrap();
    assert_eq!(
        p.insert_scene(scene.clone()).unwrap_err().to_string(),
        "playback speed must be finite and greater than zero"
    );
    playback.speed = 0x3f80_0000;
    playback.in_us = 10;
    playback.out_us = Some(10);
    let scene = Scene { items: vec![SceneItem { playback, ..item(InputId::from_u128(1)) }], ..scene };
    assert_eq!(p.insert_scene(scene).unwrap_err().to_string(), "playback out point must be after in point");
}

#[test]
fn feeds_make_edges_and_visibility_follows_program_and_overlays() {
    let mut p = Project::new("graph");
    let a = first_unit(&p);
    let b = MixingUnit::new("Mix 2");
    let b_id = b.id;
    p.mixing_units.insert(b_id.0, b);
    let feed_a = feed(a);
    let scene = Scene { id: SceneId::new(), name: "s".into(), items: vec![item(feed_a.id)] };
    p.inputs.insert(feed_a.id.0, feed_a.clone());
    p.scenes.insert(scene.id.0, scene.clone());
    p.mixing_units.get_mut(&b_id.0).unwrap().preview.scene = Some(scene.id);
    assert_eq!(MixingGraph::edges(&p), vec![(a, b_id)]);
    assert!(MixingGraph::assert_acyclic(&p).is_ok());
    assert!(MixingGraph::input_visible_on_preview(&p, b_id, feed_a.id));
    assert!(!MixingGraph::input_visible_on_program(&p, b_id, feed_a.id));
    p.validate().unwrap();
}
