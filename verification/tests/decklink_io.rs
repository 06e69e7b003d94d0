use eiviz::decklink::{
    decklink_audio_time_to_sample_index, resolve_binding, sample_index_to_decklink_ticks,
    schedule_timescale, BindingResolutionError, DeckLinkConfig, DeckLinkError, DeviceDirection,
    DeviceInfo, AUDIO_TIME_SCALE,
};
use eiviz::domain::ids::DeviceBindingId;
use eiviz::domain::routing::DeviceBinding;

#[test]
fn ntsc_schedule_is_rational() {
    assert_eq!(schedule_timescale(), (1001, 60000));
}

#[test]
fn audio_timestamps_use_absolute_sample_index() {
    assert_eq!(sample_index_to_decklink_ticks(48_000, 48_000, AUDIO_TIME_SCALE), Some(48_000));
    assert_eq!(decklink_audio_time_to_sample_index(48_000, AUDIO_TIME_SCALE, 48_000), 48_000);
    assert_eq!(decklink_audio_time_to_sample_index(-1, AUDIO_TIME_SCALE, 48_000), 0);
}

#[test]
fn sample_ticks_reject_unusable_rates() {
    assert_eq!(sample_index_to_decklink_ticks(10, 0, AUDIO_TIME_SCALE), None);
    assert_eq!(sample_index_to_decklink_ticks(10, 48_000, 0), None);
    assert_eq!(sample_index_to_decklink_ticks(u64::MAX, 1, i64::MAX), None);
    assert_eq!(sample_index_to_decklink_ticks(3, 48_000, 96_000), Some(6));
    assert_eq!(decklink_audio_time_to_sample_index(7, 2, 1), 3);
    assert_eq!(decklink_audio_time_to_sample_index(i64::MAX, 1, u32::MAX), u64::MAX);
}

#[test]
fn remembered_hardware_id_never_falls_back_to_same_named_device() {
    let binding = DeviceBinding {
        id: DeviceBindingId::new(),
        kind: "decklink".into(),
        logical_name: "DeckLink 8K Pro".into(),
        last_seen_hardware_id: Some("persistent:old".into()),
    };
    let devices = vec![DeviceInfo {
        persistent_id: "persistent:new".into(),
        display_name: "DeckLink 8K Pro".into(),
        supports_capture: true,
        supports_playback: true,
    }];
    assert_eq!(
        resolve_binding(&binding, DeviceDirection::Capture, &devices),
        Err(BindingResolutionError::HardwareMissing("persistent:old".into()))
    );
}

#[test]
fn new_logical_binding_must_be_unambiguous() {
    let binding = DeviceBinding {
        id: DeviceBindingId::new(),
        kind: "decklink".into(),
        logical_name: "DeckLink Duo 2".into(),
        last_seen_hardware_id: None,
    };
    let device = DeviceInfo {
        persistent_id: "persistent:a".into(),
        display_name: binding.logical_name.clone(),
        supports_capture: true,
        supports_playback: false,
    };
    assert!(matches!(
        resolve_binding(
            &binding,
            DeviceDirection::Capture,
            &[device.clone(), DeviceInfo { persistent_id: "persistent:b".into(), ..device }]
        ),
        Err(BindingResolutionError::AmbiguousLogicalName(_, _))
    ));
}

#[test]
fn binding_resolution_errors_and_matches() {
    let mut binding = DeviceBinding {
        id: DeviceBindingId::from_u128(7),
        kind: "ndi".into(),
        logical_name: "Cam".into(),
        last_seen_hardware_id: None,
    };
    let devices = vec![
        DeviceInfo {
            persistent_id: "p:1".into(),
            display_name: "Cam".into(),
            supports_capture: false,
            supports_playback: true,
        },
        DeviceInfo {
            persistent_id: "p:2".into(),
            display_name: "Cam".into(),
            supports_capture: true,
            supports_playback: false,
        },
    ];
    let err = resolve_binding(&binding, DeviceDirection::Capture, &devices).unwrap_err();
    assert_eq!(err, BindingResolutionError::WrongKind("ndi".into()));
    assert_eq!(err.to_string(), "binding kind must be `decklink`, got `ndi`");
    binding.kind = "decklink".into();
    let hit = resolve_binding(&binding, DeviceDirection::Capture, &devices).unwrap();
    assert_eq!(hit.persistent_id, "p:2");
    binding.last_seen_hardware_id = Some("p:1".into());
    let err = resolve_binding(&binding, DeviceDirection::Capture, &devices).unwrap_err();
    assert_eq!(err.to_string(), "DeckLink hardware `p:1` does not support Capture");
    binding.last_seen_hardware_id = None;
    binding.logical_name = "Other".into();
    let err = resolve_binding(&binding, DeviceDirection::Playback, &devices).unwrap_err();
    assert_eq!(err.to_string(), "no DeckLink named `Other` supports Playback");
}

#[test]
fn decklink_config_validation() {
    assert!(DeckLinkConfig::default().validate().is_ok());
    let zero = DeckLinkConfig { video_queue_capacity: 0, ..DeckLinkConfig::default() };
    assert!(matches!(
        zero.validate(),
        Err(DeckLinkError::InvalidConfiguration(m)) if m == "queue capacities must be greater than zero"
    ));
    let odd = DeckLinkConfig { audio_channels: 6, ..DeckLinkConfig::default() };
    assert!(matches!(
        odd.validate(),
        Err(DeckLinkError::InvalidConfiguration(m)) if m.contains("2, 8, or 16")
    ));
}

#[test]
fn default_profile_never_claims_runtime_availability() {
    let capability = eiviz::decklink::probe();
    assert!(!capability.available);
    assert!(capability.detail.contains("not compiled"));
    assert_eq!(capability.id, "decklink");
}
