use eiviz::command::Incoming;
use eiviz::error::ControlError;
use eiviz::media_file::{MovieTimeline, TrackEdit};
use std::collections::HashMap;

#[test]
fn abi_codes_map_back_to_errors() {
    assert_eq!(ControlError::from_abi(1, ""), ControlError::conflict("already created"));
    assert_eq!(ControlError::from_abi(2, ""), ControlError::unavailable("mixer not created"));
    assert_eq!(ControlError::from_abi(3, "bad"), ControlError::invalid("bad"));
    assert_eq!(ControlError::from_abi(4, ""), ControlError::internal("device"));
    assert_eq!(ControlError::from_abi(5, "disk"), ControlError::io("disk"));
    assert_eq!(ControlError::from_abi(0, "x"), ControlError::internal("unexpected ok mapped as error"));
    assert_eq!(ControlError::from_abi(-7, "x"), ControlError::internal("abi -7: x"));
    assert_eq!(ControlError::conflict("already created").to_abi(), 1);
    assert_eq!(ControlError::conflict("other").to_abi(), 3);
    assert_eq!(ControlError::permission("no").to_abi(), 3);
}

#[test]
fn http_status_follows_the_category() {
    assert_eq!(ControlError::invalid("x").http_status(), 400);
    assert_eq!(ControlError::permission("x").http_status(), 401);
    assert_eq!(ControlError::not_found("x").http_status(), 404);
    assert_eq!(ControlError::conflict("x").http_status(), 409);
    assert_eq!(ControlError::unavailable("x").http_status(), 503);
    assert_eq!(ControlError::io("x").http_status(), 500);
}

#[test]
fn incoming_wire_values() {
    assert_eq!(Incoming::from_u64(0), Incoming::Preview);
    assert_eq!(Incoming::from_u64(u64::MAX), Incoming::Program);
    assert_eq!(Incoming::from_u64(42), Incoming::Source(42));
    assert_eq!(Incoming::Source(42).to_u64(), 42);
}

#[test]
fn presentation_ticks_shift_by_the_edit() {
    let mut edits = HashMap::new();
    edits.insert(1, TrackEdit { media_start: 1_024, presentation_start_us: 500_000 });
    let timeline = MovieTimeline { duration_us: 10_000_000, movie_timescale: 1_000, track_edits: edits };
    let edit = timeline.edit(1);
    assert_eq!(timeline.presentation_ticks(1_024, 48_000, edit), Ok(24_000));
    assert_eq!(timeline.edit(2), TrackEdit::default());
    assert!(timeline.presentation_ticks(i64::MIN, 48_000, edit).is_err());
}
