use eiviz::domain::input::Playback;
use eiviz::media_file::{normalize_edit_entries, EditEntry, MediaError, PlaybackTimeline, TimelineStep};

fn entry(duration: u64, media_time: i64) -> EditEntry {
    EditEntry { edit_duration: duration, media_time, rate_integer: 1, rate_fraction: 0 }
}

/// The caller's part of resolving the clock: scale the elapsed time by the
/// speed, carry the fraction, and advance by whole microseconds.
fn resolve(cursor: &mut PlaybackTimeline, clock_us: u64, fractional: &mut f64) -> TimelineStep {
    let elapsed = cursor.clock(clock_us);
    if cursor.is_playing() && elapsed > 0 {
        let speed = f32::from_bits(cursor.playback().speed) as f64;
        let scaled = elapsed as f64 * speed + *fractional;
        let advance = scaled.floor().max(0.0) as u64;
        *fractional = scaled - advance as f64;
        cursor.advance(advance)
    } else {
        cursor.step()
    }
}

#[test]
fn edit_list_maps_empty_lead_and_aac_priming() {
    let edit = normalize_edit_entries(&vec![entry(500, -1), entry(9_500, 2_112)], 1_000).unwrap();
    assert_eq!(edit.media_start, 2_112);
    assert_eq!(edit.presentation_start_us, 500_000);
}

#[test]
fn unsupported_edit_lists_are_refused() {
    let mut fast = entry(10, 0);
    fast.rate_integer = 2;
    assert!(matches!(normalize_edit_entries(&vec![fast], 1_000), Err(MediaError::Unsupported(_))));
    assert_eq!(
        normalize_edit_entries(&vec![entry(10, 0), entry(10, 5)], 1_000),
        Err(MediaError::Unsupported("multiple MP4 media edits are unsupported".into()))
    );
    assert_eq!(
        normalize_edit_entries(&vec![entry(10, 0), entry(10, -1)], 1_000),
        Err(MediaError::Unsupported("MP4 empty edit after a media edit is unsupported".into()))
    );
    assert_eq!(
        normalize_edit_entries(&vec![entry(10, -1)], 1_000),
        Err(MediaError::Unsupported("MP4 edit list contains no media edit".into()))
    );
    assert_eq!(
        normalize_edit_entries(&vec![entry(u64::MAX, -1), entry(1, -1)], 1_000),
        Err(MediaError::Other("MP4 edit duration overflow".into()))
    );
    assert_eq!(normalize_edit_entries(&vec![entry(10, 3)], 0), Err(MediaError::Other("zero MP4 timescale".into())));
    let none = normalize_edit_entries(&vec![], 600).unwrap();
    assert_eq!((none.media_start, none.presentation_start_us), (0, 0));
}

#[test]
fn shared_cursor_reports_seek_and_loop_generation() {
    let mut fractional = 0.0;
    let mut cursor = PlaybackTimeline::new(
        Playback {
            playing: true,
            loop_playback: true,
            position_us: 100,
            in_us: 100,
            out_us: Some(400),
            speed: 1.0f32.to_bits(),
        },
        1_000,
        true,
    )
    .unwrap();
    let initial = resolve(&mut cursor, 1_000, &mut fractional);
    assert_eq!(resolve(&mut cursor, 1_150, &mut fractional).position_us, 250);
    let wrapped = resolve(&mut cursor, 1_350, &mut fractional);
    assert_eq!(wrapped.position_us, 150);
    assert!(wrapped.generation > initial.generation);

    let mut seek = cursor.playback();
    seek.position_us = 300;
    if cursor.apply(seek, true).unwrap() {
        fractional = 0.0;
    }
    assert!(resolve(&mut cursor, 2_000, &mut fractional).generation > wrapped.generation);
}

#[test]
fn playback_window_is_validated_and_held() {
    let base = Playback {
        playing: true,
        loop_playback: false,
        position_us: 5_000,
        in_us: 0,
        out_us: Some(300),
        speed: 2.0f32.to_bits(),
    };
    assert!(matches!(PlaybackTimeline::new(base, 1_000, true), Err(MediaError::Unsupported(_))));
    assert!(matches!(
        PlaybackTimeline::new(Playback { speed: 0, ..base }, 1_000, false),
        Err(MediaError::Unsupported(_))
    ));
    assert!(matches!(
        PlaybackTimeline::new(Playback { in_us: 300, ..base }, 1_000, false),
        Err(MediaError::Unsupported(_))
    ));
    let mut cursor = PlaybackTimeline::new(base, 1_000, false).unwrap();
    assert_eq!(cursor.step().position_us, 299);
    let mut seek = cursor.playback();
    seek.position_us = 10;
    assert_eq!(cursor.apply(seek, false), Ok(true));
    let stopped = cursor.advance(1_000);
    assert_eq!(stopped.position_us, 299);
    assert!(!cursor.is_playing());
    assert_eq!(cursor.clock(50), 0);
    assert_eq!(cursor.clock(80), 30);
    assert_eq!(cursor.clock(70), 0);
}
