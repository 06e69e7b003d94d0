use eiviz::domain::error::DomainError;
use eiviz::domain::ids::{MixingUnitId, OutputId, SceneId};
use eiviz::domain::mixing::{AudioFollowPolicy, MixingUnit, TransitionStyle};
use eiviz::domain::output::{Output, OutputKind, OutputVideoSource};
use eiviz::domain::profile::{
    validate_distribution_output, validate_load_shedding, AacEncoderProfile, AudioFormat,
    AuxiliaryLoadSheddingPolicy, ColorRange, ColorSpace, DistributionProfile, H264EncoderProfile,
    ReconnectProfile, TransferFunction, TransportProfile,
};

#[test]
fn new_unit_has_empty_buses_and_follows_program() {
    let unit = MixingUnit::new("Mix 1");
    assert_eq!(unit.name, "Mix 1");
    assert!(unit.preview.scene.is_none() && unit.program.scene.is_none());
    assert_eq!(unit.audio_follow, AudioFollowPolicy::Program);
    assert_eq!(unit.transition.style, TransitionStyle::Cut);
}

#[test]
fn take_latches_preview_and_swaps() {
    let mut unit = MixingUnit::new("Mix");
    unit.preview.scene = Some(SceneId::from_u128(1));
    unit.program.scene = Some(SceneId::from_u128(2));
    unit.transition.style = TransitionStyle::Mix;
    unit.transition.duration_frames = 30;
    unit.take(true);
    assert_eq!(unit.program.scene, Some(SceneId::from_u128(1)));
    assert_eq!(unit.preview.scene, Some(SceneId::from_u128(2)));
    assert_eq!(unit.transition.remaining_frames, 30);
    unit.take(true);
    assert_eq!(unit.program.scene, Some(SceneId::from_u128(2)));
    unit.transition.style = TransitionStyle::Cut;
    unit.take(false);
    assert_eq!(unit.program.scene, unit.preview.scene);
    assert_eq!(unit.transition.remaining_frames, 0);
}

#[test]
fn broadcast_shedding_default_validates_and_rejects_flat_hysteresis() {
    let mut policy = AuxiliaryLoadSheddingPolicy::broadcast_default();
    assert!(validate_load_shedding(&policy, 1920, 1080).is_ok());
    if let AuxiliaryLoadSheddingPolicy::Thresholds(t) = &mut policy {
        t.recover_slack_nanos = t.overload_slack_nanos;
    }
    let err = validate_load_shedding(&policy, 1920, 1080).unwrap_err();
    assert_eq!(err.to_string(), "auxiliary shedding recovery slack must exceed overload slack");
    let tiny = AuxiliaryLoadSheddingPolicy::broadcast_default();
    let err = validate_load_shedding(&tiny, 3, 3).unwrap_err();
    assert_eq!(err.to_string(), "auxiliary shedding resolution divisor exceeds the video format");
}

#[test]
fn color_space_metadata_is_limited_range() {
    let m = ColorSpace::Bt2020Pq.metadata();
    assert_eq!(m.range, ColorRange::Limited);
    assert_eq!(m.transfer, TransferFunction::Pq);
}

fn rtmp_output(distribution: Option<DistributionProfile>) -> Output {
    Output {
        id: OutputId::from_u128(1),
        name: "RTMP".into(),
        owner: MixingUnitId::from_u128(2),
        video_source: OutputVideoSource::Program,
        kind: OutputKind::Rtmp { url: "rtmp://127.0.0.1/live/key".into() },
        enabled: false,
        distribution,
    }
}

fn profile(transport: TransportProfile) -> DistributionProfile {
    DistributionProfile {
        video: H264EncoderProfile::ExternalAnnexB {
            adapter: "certified-h264".into(),
            bitrate_bps: 8_000_000,
            keyframe_interval_frames: 120,
        },
        audio: AacEncoderProfile::ExternalRawAacLc {
            adapter: "certified-aac".into(),
            bitrate_bps: 192_000,
            sample_rate: 48_000,
            channels: 2,
        },
        transport,
        queue_capacity: 128,
        reconnect: ReconnectProfile { initial_delay_ms: 100, max_delay_ms: 5_000, max_attempts: 0 },
    }
}

#[test]
fn distribution_profile_checks_endpoint_audio_and_transport() {
    let audio = AudioFormat::default();
    let err = validate_distribution_output(&rtmp_output(None), &audio).unwrap_err();
    assert!(err.to_string().contains("explicit"));
    assert!(err.to_string().starts_with("rtmp output 00000000-0000-0000-0000-000000000001"));
    let srt = profile(TransportProfile::SrtCallerMpegTs {
        latency_ms: 120,
        stream_id: None,
        connect_timeout_ms: 5_000,
    });
    let err = validate_distribution_output(&rtmp_output(Some(srt)), &audio).unwrap_err();
    assert!(err.to_string().contains("does not match"));
    let rtmp = profile(TransportProfile::RtmpPublish { chunk_size: 4096, connect_timeout_ms: 5_000 });
    validate_distribution_output(&rtmp_output(Some(rtmp)), &audio).unwrap();
    let bad = Output { kind: OutputKind::Rtmp { url: "rtmp://".into() }, ..rtmp_output(None) };
    assert_eq!(
        validate_distribution_output(&bad, &audio).unwrap_err().to_string(),
        "RTMP endpoint must use explicit rtmp:// URL"
    );
    let mut stereo = profile(TransportProfile::RtmpPublish { chunk_size: 4096, connect_timeout_ms: 5_000 });
    stereo.audio = AacEncoderProfile::FdkAacLc { bitrate_bps: 128_000, sample_rate: 44_100, channels: 2 };
    assert_eq!(
        validate_distribution_output(&rtmp_output(Some(stereo)), &audio).unwrap_err().to_string(),
        "distribution AAC profile 44100 Hz/2 ch does not match project 48000 Hz/2 ch"
    );
    assert_eq!(DomainError::Cycle.to_string(), "mixing graph contains a cycle");
}
