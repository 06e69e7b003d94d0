use eiviz::error::ControlError;
use eiviz::session::migration::{check_session_version, version_verdict};
use eiviz::session::file::{asset_file_name, check_asset_name, place_asset, EmbeddedAsset};
use eiviz::session::model::{Document, InputDto, InputKind};
use eiviz::session::file::{
    check_format_version, container_payload, frame_session, history_after_save, history_meta,
    HistoryEntry, CONTAINER_VERSION, HISTORY_LIMIT, MAGIC,
};

#[test]
fn framed_payload_reads_back() {
    let framed = frame_session(&vec![1, 2, 3]);
    assert!(framed.starts_with(&MAGIC));
    assert_eq!(&framed[4..6], &CONTAINER_VERSION.to_le_bytes());
    assert_eq!(container_payload(&framed).unwrap(), vec![1, 2, 3]);
}

#[test]
fn bad_magic_truncation_and_version_are_rejected() {
    assert_eq!(container_payload(&vec![]).unwrap_err(), "not an eiviz session file");
    assert_eq!(container_payload(&b"{\"version\":2}".to_vec()).unwrap_err(), "not an eiviz session file");
    assert_eq!(container_payload(&MAGIC.to_vec()).unwrap_err(), "truncated eivz file");
    let mut bad = MAGIC.to_vec();
    bad.extend_from_slice(&2u16.to_le_bytes());
    bad.extend_from_slice(&[0u8; 4]);
    assert_eq!(container_payload(&bad).unwrap_err(), "unsupported eivz container version 2");
    assert_eq!(check_format_version(99).unwrap_err(), "unsupported eivz format version 99");
    assert!(check_format_version(1).is_ok());
}

#[test]
fn history_keeps_newest_first_dedupes_and_caps() {
    let entry = |rev: u64| HistoryEntry { unix_ms: rev * 10, revision: rev, document: vec![rev as u8] };
    let h = history_after_save(vec![], vec![1], &vec![2], 5);
    assert_eq!(h, vec![HistoryEntry { unix_ms: 5, revision: 1, document: vec![1] }]);
    let same = history_after_save(h.clone(), vec![2], &vec![2], 6);
    assert_eq!(same, h);
    let full: Vec<HistoryEntry> = (1..=HISTORY_LIMIT as u64).rev().map(entry).collect();
    let capped = history_after_save(full, vec![9], &vec![10], 7);
    assert_eq!(capped.len(), HISTORY_LIMIT);
    assert_eq!(capped[0].revision, HISTORY_LIMIT as u64 + 1);
    assert_eq!(capped[0].document, vec![9]);
    let meta = history_meta(&capped);
    assert_eq!(meta[0].index, 0);
    assert_eq!(meta[1].revision, HISTORY_LIMIT as u64);
}

#[test]
fn embedded_asset_names_and_placement() {
    let asset = |name: &str| EmbeddedAsset { input_id: 2, file_name: name.to_string(), data: b"png-bytes".to_vec() };
    assert!(check_asset_name(&asset("card.png")).is_ok());
    for bad in ["", "a/b.png", "a\\b.png", "../card.png"] {
        assert_eq!(check_asset_name(&asset(bad)).unwrap_err(), "asset 2 has an invalid file name");
    }
    assert_eq!(asset_file_name(&asset("card.png")), "2_card.png");
    let mut doc = Document::default();
    doc.inputs = vec![InputDto { id: 2, name: "Card".into(), kind: InputKind::Still, ..InputDto::default() }];
    place_asset(&mut doc, 2, "/media/2_card.png").unwrap();
    assert_eq!(doc.inputs[0].path_or_address.as_deref(), Some("/media/2_card.png"));
    assert_eq!(place_asset(&mut doc, 9, "x").unwrap_err(), "asset references missing input 9");
}

#[test]
fn newer_version_is_rejected() {
    let err = check_session_version(&br#"{"version": 99}"#.to_vec()).unwrap_err();
    assert!(err.message().contains("unsupported session version"));
}

#[test]
fn version_gate_accepts_current_and_older_sessions() {
    assert!(check_session_version(&br#"{"version": 2}"#.to_vec()).is_ok());
    assert!(check_session_version(&br#"{"inputs": []}"#.to_vec()).is_ok());
    assert!(check_session_version(&br#"{"version": 0}"#.to_vec()).is_ok());
    assert_eq!(version_verdict(Some(-1)).unwrap_err().message(), "unsupported session version -1");
    assert_eq!(version_verdict(Some(3)).unwrap_err().message(), "unsupported session version 3");
    assert!(version_verdict(None).is_ok());
    assert!(matches!(check_session_version(&b"{not json".to_vec()), Err(ControlError::InvalidArgument { .. })));
    assert!(matches!(check_session_version(&vec![0xff, 0xfe]), Err(ControlError::InvalidArgument { .. })));
}

#[test]
fn magic_and_versions_are_rejected() {
    assert!(container_payload(&b"".to_vec()).is_err());
    assert!(container_payload(&b"not-a-session".to_vec()).is_err());
    // A container with no payload: the empty payload carries format version 0.
    let mut truncated = MAGIC.to_vec();
    truncated.extend_from_slice(&CONTAINER_VERSION.to_le_bytes());
    assert_eq!(container_payload(&truncated).unwrap(), Vec::<u8>::new());
    assert!(check_format_version(0).is_err());
    let mut bad_container = MAGIC.to_vec();
    bad_container.extend_from_slice(&2u16.to_le_bytes());
    bad_container.extend_from_slice(&[0u8; 4]);
    assert!(container_payload(&bad_container).unwrap_err().contains("container version"));
}

#[test]
fn future_format_version_is_rejected() {
    let framed = frame_session(&vec![0x08, 99]);
    assert_eq!(container_payload(&framed).unwrap(), vec![0x08, 99]);
    assert!(check_format_version(99).unwrap_err().contains("format version 99"));
}
