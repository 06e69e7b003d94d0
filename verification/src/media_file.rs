//! File media: AAC samples, the status a file source reports, and the MP4
//! edit-list timeline that maps media time to presentation time.

use std::collections::HashMap;

use vstd::prelude::*;

use crate::domain::ieee::{is_positive_finite, spec_is_positive_finite, ONE};
use crate::domain::input::Playback;
use crate::text::{decimal, owned, spec_decimal};

verus! {

#[derive(Debug, Clone)]
pub struct AacSample {
    pub bytes: Vec<u8>,
    pub dts: u64,
    pub duration: u32,
    /// Start on the edited presentation timeline, in decoded PCM frames.
    pub presentation_start_frame: i64,
}

#[derive(Debug, Clone, PartialEq, Eq)]
pub enum FileMediaStatus {
    VideoOnly,
    AudioVideo { source_sample_rate: u32, channels: u16, project_sample_rate: u32, uses_asrc: bool },
}

/// The text a status displays.
pub open spec fn spec_status_text(s: FileMediaStatus) -> Seq<char> {
    match s {
        FileMediaStatus::VideoOnly => "video-only (H.264)"@,
        FileMediaStatus::AudioVideo { source_sample_rate, channels, project_sample_rate, uses_asrc } =>
            "A/V (H.264 + AAC-LC, "@ + spec_decimal(source_sample_rate as nat) + " Hz/"@
            + spec_decimal(channels as nat) + " ch -> "@ + spec_decimal(project_sample_rate as nat)
            + " Hz, "@ + (if uses_asrc {
            "explicit ASRC"@
        } else {
            "exact rate"@
        }) + ")"@,
    }
}

impl FileMediaStatus {
    /// The text that `Display` writes.
    pub fn to_string(&self) -> (r: String)
        ensures
            r@ == spec_status_text(*self),
    {
        match self {
            FileMediaStatus::VideoOnly => owned("video-only (H.264)"),
            FileMediaStatus::AudioVideo {
                source_sample_rate,
                channels,
                project_sample_rate,
                uses_asrc,
            } => {
                let mut t = owned("A/V (H.264 + AAC-LC, ");
                t.append(decimal(*source_sample_rate as u64).as_str());
                t.append(" Hz/");
                t.append(decimal(*channels as u64).as_str());
                t.append(" ch -> ");
                t.append(decimal(*project_sample_rate as u64).as_str());
                t.append(" Hz, ");
                t.append(
                    if *uses_asrc {
                        "explicit ASRC"
                    } else {
                        "exact rate"
                    },
                );
                t.append(")");
                t
            },
        }
    }
}

/// Where a track's edit starts: the media time it skips and the
/// presentation time it begins at.
#[derive(Debug, Clone, Copy, PartialEq, Eq, Structural)]
pub struct TrackEdit {
    pub media_start: u64,
    pub presentation_start_us: u64,
}

impl Default for TrackEdit {
    fn default() -> (r: Self)
        ensures
            r == (TrackEdit { media_start: 0, presentation_start_us: 0 }),
    {
        TrackEdit { media_start: 0, presentation_start_us: 0 }
    }
}

#[derive(Debug, Clone)]
pub struct MovieTimeline {
    pub duration_us: u64,
    pub movie_timescale: u32,
    pub track_edits: HashMap<u32, TrackEdit>,
}

/// `value * numerator / denominator`, rounded down, when it fits in `u64`.
pub open spec fn spec_scale(value: u64, numerator: u64, denominator: u64) -> Result<u64, Seq<char>> {
    if denominator == 0 {
        Err("zero MP4 timescale"@)
    } else {
        let scaled = (value as int) * (numerator as int) / (denominator as int);
        if scaled > u64::MAX {
            Err("MP4 timestamp overflow"@)
        } else {
            Ok(scaled as u64)
        }
    }
}

pub fn scale_u64(value: u64, numerator: u64, denominator: u64) -> (r: Result<u64, String>)
    ensures
        match spec_scale(value, numerator, denominator) {
            Ok(v) => r == Ok::<u64, String>(v),
            Err(m) => r matches Err(x) && x@ == m,
        },
{
    if denominator == 0 {
        return Err(owned("zero MP4 timescale"));
    }
    let v = value as u128;
    let n = numerator as u128;
    assert(v * n <= 0xffff_ffff_ffff_ffff * 0xffff_ffff_ffff_ffff) by (nonlinear_arith)
        requires
            v <= 0xffff_ffff_ffff_ffff,
            n <= 0xffff_ffff_ffff_ffff,
    ;
    let scaled = v * n / (denominator as u128);
    if scaled > u64::MAX as u128 {
        return Err(owned("MP4 timestamp overflow"));
    }
    Ok(scaled as u64)
}

/// Presentation time of a media timestamp: minus the edit's media start,
/// plus its presentation start in track ticks; an error where that leaves
/// `i64`.
pub open spec fn spec_presentation_ticks(media_ticks: i64, track_timescale: u32, edit: TrackEdit) -> Result<
    i64,
    Seq<char>,
> {
    match spec_scale(edit.presentation_start_us, track_timescale as u64, 1_000_000) {
        Err(m) => Err(m),
        Ok(offset) => if edit.media_start > i64::MAX {
            Err("MP4 edit-list media start exceeds i64"@)
        } else {
            let v = media_ticks - edit.media_start;
            if v < i64::MIN || v > i64::MAX || offset > i64::MAX || v + offset > i64::MAX || v
                + offset < i64::MIN {
                Err("MP4 presentation timestamp overflow"@)
            } else {
                Ok((v + offset) as i64)
            }
        },
    }
}

impl MovieTimeline {
    /// The edit of a track; a track without one starts at zero.
    pub fn edit(&self, track_id: u32) -> (r: TrackEdit)
        ensures
            r == (if self.track_edits@.contains_key(track_id) {
                self.track_edits@[track_id]
            } else {
                TrackEdit { media_start: 0, presentation_start_us: 0 }
            }),
    {
        broadcast use vstd::std_specs::hash::group_hash_axioms;

        match self.track_edits.get(&track_id) {
            Some(e) => *e,
            None => TrackEdit::default(),
        }
    }

    pub fn presentation_ticks(&self, media_ticks: i64, track_timescale: u32, edit: TrackEdit) -> (r:
        Result<i64, String>)
        ensures
            match spec_presentation_ticks(media_ticks, track_timescale, edit) {
                Ok(v) => r == Ok::<i64, String>(v),
                Err(m) => r matches Err(x) && x@ == m,
            },
    {
        let offset = match scale_u64(edit.presentation_start_us, track_timescale as u64, 1_000_000) {
            Ok(o) => o,
            Err(e) => {
                return Err(e);
            },
        };
        if edit.media_start > i64::MAX as u64 {
            return Err(owned("MP4 edit-list media start exceeds i64"));
        }
        let start = edit.media_start as i64;
        let shifted = match media_ticks.checked_sub(start) {
            Some(v) => v,
            None => {
                return Err(owned("MP4 presentation timestamp overflow"));
            },
        };
        if offset > i64::MAX as u64 {
            return Err(owned("MP4 presentation timestamp overflow"));
        }
        match shifted.checked_add(offset as i64) {
            Some(v) => Ok(v),
            None => Err(owned("MP4 presentation timestamp overflow")),
        }
    }
}


/// Why a media file cannot be played as asked.
#[derive(Debug, Clone, PartialEq, Eq)]
pub enum MediaError {
    Unsupported(String),
    Other(String),
}

/// `e` is the error of the given kind (`Unsupported` or else `Other`) with
/// the given text.
pub open spec fn media_error_is(e: MediaError, unsupported: bool, message: Seq<char>) -> bool {
    match e {
        MediaError::Unsupported(m) => unsupported && m@ == message,
        MediaError::Other(m) => !unsupported && m@ == message,
    }
}

/// One entry of an MP4 edit list: how long it lasts in movie ticks, where
/// it starts in media ticks (negative for an empty edit), and its rate as a
/// 16.16 fixed-point number.
#[derive(Debug, Clone, Copy, PartialEq, Eq, Structural)]
pub struct EditEntry {
    pub edit_duration: u64,
    pub media_time: i64,
    pub rate_integer: i16,
    pub rate_fraction: u16,
}

/// One entry applied to (empty lead so far, media start so far), or the
/// error it raises (unsupported or not, and its text).
pub open spec fn edit_step(lead: u64, media_start: Option<u64>, e: EditEntry) -> Result<(u64, Option<u64>), (bool, Seq<char>)> {
    if e.rate_integer != 1 || e.rate_fraction != 0 {
        Err((true, "MP4 edit-list rates other than 1.0 are unsupported"@))
    } else if e.media_time < 0 {
        if media_start is Some {
            Err((true, "MP4 empty edit after a media edit is unsupported"@))
        } else if lead + e.edit_duration > u64::MAX {
            Err((false, "MP4 edit duration overflow"@))
        } else {
            Ok(((lead + e.edit_duration) as u64, None))
        }
    } else if media_start is Some {
        Err((true, "multiple MP4 media edits are unsupported"@))
    } else {
        Ok((lead, Some(e.media_time as u64)))
    }
}

/// The entries applied in order, from no lead and no media start.
pub open spec fn fold_edits(entries: Seq<EditEntry>) -> Result<(u64, Option<u64>), (bool, Seq<char>)>
    decreases entries.len(),
{
    if entries.len() == 0 {
        Ok((0, None))
    } else {
        match fold_edits(entries.drop_last()) {
            Err(e) => Err(e),
            Ok((lead, start)) => edit_step(lead, start, entries.last()),
        }
    }
}

/// The edit a list describes: empty edits give a presentation lead, one
/// media edit gives the media start; rates other than 1, empty edits after
/// the media edit, a second media edit, and a list without a media edit are
/// unsupported. The lead is converted from movie ticks to microseconds.
pub open spec fn spec_normalize(entries: Seq<EditEntry>, movie_timescale: u32) -> Result<TrackEdit, (bool, Seq<char>)> {
    match fold_edits(entries) {
        Err(e) => Err(e),
        Ok((lead, start)) => if entries.len() > 0 && start is None {
            Err((true, "MP4 edit list contains no media edit"@))
        } else {
            match spec_scale(lead, 1_000_000, movie_timescale as u64) {
                Err(m) => Err((false, m)),
                Ok(us) => Ok(
                    TrackEdit {
                        media_start: match start {
                            Some(m) => m,
                            None => 0,
                        },
                        presentation_start_us: us,
                    },
                ),
            }
        },
    }
}

pub fn normalize_edit_entries(entries: &Vec<EditEntry>, movie_timescale: u32) -> (r: Result<TrackEdit, MediaError>)
    ensures
        match spec_normalize(entries@, movie_timescale) {
            Ok(edit) => r == Ok::<TrackEdit, MediaError>(edit),
            Err((unsupported, m)) => r matches Err(e) && media_error_is(e, unsupported, m),
        },
{
    let mut lead: u64 = 0;
    let mut media_start: Option<u64> = None;
    let mut i: usize = 0;
    while i < entries.len()
        invariant
            i <= entries@.len(),
            fold_edits(entries@.take(i as int)) == Ok::<(u64, Option<u64>), (bool, Seq<char>)>((lead, media_start)),
        decreases entries@.len() - i,
    {
        let entry = entries[i];
        proof {
            assert(entries@.take(i + 1).drop_last() =~= entries@.take(i as int));
            assert(fold_edits(entries@.take(i + 1)) == edit_step(lead, media_start, entry));
            if fold_edits(entries@.take(i + 1)) is Err {
                lemma_fold_edits_stops(entries@, i + 1);
            }
        }
        if entry.rate_integer != 1 || entry.rate_fraction != 0 {
            return Err(MediaError::Unsupported(owned("MP4 edit-list rates other than 1.0 are unsupported")));
        }
        if entry.media_time < 0 {
            if media_start.is_some() {
                return Err(MediaError::Unsupported(owned("MP4 empty edit after a media edit is unsupported")));
            }
            lead = match lead.checked_add(entry.edit_duration) {
                Some(v) => v,
                None => {
                    return Err(MediaError::Other(owned("MP4 edit duration overflow")));
                },
            };
        } else if media_start.is_some() {
            return Err(MediaError::Unsupported(owned("multiple MP4 media edits are unsupported")));
        } else {
            media_start = Some(entry.media_time as u64);
        }
        i = i + 1;
    }
    assert(entries@.take(i as int) =~= entries@);
    if entries.len() > 0 && media_start.is_none() {
        return Err(MediaError::Unsupported(owned("MP4 edit list contains no media edit")));
    }
    let presentation_start_us = match scale_u64(lead, 1_000_000, movie_timescale as u64) {
        Ok(v) => v,
        Err(m) => {
            return Err(MediaError::Other(m));
        },
    };
    Ok(
        TrackEdit {
            media_start: match media_start {
                Some(m) => m,
                None => 0,
            },
            presentation_start_us,
        },
    )
}

/// Once the fold fails on a prefix, it fails the same way on the whole list.
proof fn lemma_fold_edits_stops(entries: Seq<EditEntry>, n: int)
    requires
        0 <= n <= entries.len(),
        fold_edits(entries.take(n)) is Err,
    ensures
        fold_edits(entries) == fold_edits(entries.take(n)),
    decreases entries.len() - n,
{
    if n == entries.len() {
        assert(entries.take(n) =~= entries);
    } else {
        assert(entries.take(n + 1).drop_last() =~= entries.take(n));
        lemma_fold_edits_stops(entries, n + 1);
    }
}

// ---- Playback timeline ----

/// Where file playback ends: the out point, if any, but never past the
/// media.
pub open spec fn spec_playback_end(p: Playback, media_end_us: u64) -> u64 {
    match p.out_us {
        Some(out) => if out < media_end_us {
            out
        } else {
            media_end_us
        },
        None => media_end_us,
    }
}

/// The last position playback can show: one before the end, but not
/// before the in point.
pub open spec fn spec_last_position(p: Playback, media_end_us: u64) -> u64 {
    let end = spec_playback_end(p, media_end_us);
    let last: u64 = if end == 0 {
        0
    } else {
        (end - 1) as u64
    };
    if last < p.in_us {
        p.in_us
    } else {
        last
    }
}

/// A position brought into `[in, last]`.
pub open spec fn spec_clamp_position(p: Playback, media_end_us: u64, position_us: u64) -> u64 {
    let lo = if position_us < p.in_us {
        p.in_us
    } else {
        position_us
    };
    let last = spec_last_position(p, media_end_us);
    if lo < last {
        lo
    } else {
        last
    }
}

/// Why a playback cannot run on a file: a speed that is not a positive
/// finite number, a speed other than 1 with audio, or an in point not
/// before the end.
pub open spec fn file_playback_issue(p: Playback, media_end_us: u64, has_audio: bool) -> Option<Seq<char>> {
    if !spec_is_positive_finite(p.speed) {
        Some("file playback speed must be finite and greater than zero"@)
    } else if has_audio && p.speed != ONE {
        Some("A/V file playback requires speed 1.0; time stretching is not an ASRC policy"@)
    } else if p.in_us >= spec_playback_end(p, media_end_us) {
        Some("file playback out point must be after in point"@)
    } else {
        None
    }
}

pub fn playback_end(p: &Playback, media_end_us: u64) -> (r: u64)
    ensures
        r == spec_playback_end(*p, media_end_us),
{
    match p.out_us {
        Some(out) => if out < media_end_us {
            out
        } else {
            media_end_us
        },
        None => media_end_us,
    }
}

pub fn clamp_position(p: &Playback, media_end_us: u64, position_us: u64) -> (r: u64)
    ensures
        r == spec_clamp_position(*p, media_end_us, position_us),
{
    let end = playback_end(p, media_end_us);
    let last = end.saturating_sub(1);
    let last = if last < p.in_us {
        p.in_us
    } else {
        last
    };
    let lo = if position_us < p.in_us {
        p.in_us
    } else {
        position_us
    };
    if lo < last {
        lo
    } else {
        last
    }
}

pub fn validate_playback(p: &Playback, media_end_us: u64, has_audio: bool) -> (r: Result<(), MediaError>)
    ensures
        match file_playback_issue(*p, media_end_us, has_audio) {
            None => r is Ok,
            Some(m) => r matches Err(e) && media_error_is(e, true, m),
        },
{
    if !is_positive_finite(p.speed) {
        return Err(MediaError::Unsupported(owned("file playback speed must be finite and greater than zero")));
    }
    if has_audio && p.speed != ONE {
        return Err(
            MediaError::Unsupported(owned("A/V file playback requires speed 1.0; time stretching is not an ASRC policy")),
        );
    }
    if p.in_us >= playback_end(p, media_end_us) {
        return Err(MediaError::Unsupported(owned("file playback out point must be after in point")));
    }
    Ok(())
}

/// Where the cursor is, and how many times it jumped (seeks and loops).
#[derive(Debug, Clone, Copy, PartialEq, Eq, Structural)]
pub struct TimelineStep {
    pub position_us: u64,
    pub generation: u64,
}

/// The shared play cursor of a file's audio and video. It moves by whole
/// microseconds; a caller that plays at other than normal speed scales the
/// elapsed time itself and hands over the whole microseconds.
#[derive(Debug)]
pub struct PlaybackTimeline {
    config: Playback,
    media_end_us: u64,
    position_us: u64,
    last_clock_us: Option<u64>,
    generation: u64,
}

/// Where playing on by `advance` microseconds from `position` lands: at the
/// end, a looping playback wraps into `[in, end)` and counts a jump, any
/// other stops on its last position.
pub open spec fn spec_advance(p: Playback, media_end_us: u64, position: u64, generation: u64, advance: u64) -> (u64, u64, bool) {
    let end = spec_playback_end(p, media_end_us);
    let next = sat_add(position, advance);
    if next >= end {
        if p.loop_playback {
            let length: int = if end < p.in_us {
                0
            } else {
                end - p.in_us
            };
            let wrapped: u64 = if length == 0 {
                p.in_us
            } else {
                (p.in_us + (next - p.in_us) % length) as u64
            };
            (wrapped, sat_add(generation, 1), p.playing)
        } else {
            (spec_last_position(p, media_end_us), generation, false)
        }
    } else {
        (next, generation, p.playing)
    }
}

pub open spec fn sat_add(a: u64, b: u64) -> u64 {
    if a + b > u64::MAX {
        u64::MAX
    } else {
        (a + b) as u64
    }
}

impl PlaybackTimeline {
    /// The playback runs on the media, and the cursor is inside its window.
    pub closed spec fn wf(&self) -> bool {
        &&& self.config.in_us < spec_playback_end(self.config, self.media_end_us)
        &&& self.config.in_us <= self.position_us <= spec_last_position(self.config, self.media_end_us)
    }

    pub closed spec fn spec_config(&self) -> Playback {
        self.config
    }

    pub closed spec fn spec_media_end(&self) -> u64 {
        self.media_end_us
    }

    pub closed spec fn spec_position(&self) -> u64 {
        self.position_us
    }

    pub closed spec fn spec_generation(&self) -> u64 {
        self.generation
    }

    pub closed spec fn spec_last_clock(&self) -> Option<u64> {
        self.last_clock_us
    }

    pub fn new(config: Playback, media_end_us: u64, has_audio: bool) -> (r: Result<Self, MediaError>)
        ensures
            match file_playback_issue(config, media_end_us, has_audio) {
                Some(m) => r matches Err(e) && media_error_is(e, true, m),
                None => r matches Ok(t) && t.wf() && t.spec_config() == config && t.spec_media_end() == media_end_us
                    && t.spec_position() == spec_clamp_position(config, media_end_us, config.position_us)
                    && t.spec_generation() == 1 && t.spec_last_clock() is None,
            },
    {
        match validate_playback(&config, media_end_us, has_audio) {
            Err(e) => {
                return Err(e);
            },
            Ok(()) => {},
        }
        let position_us = clamp_position(&config, media_end_us, config.position_us);
        Ok(PlaybackTimeline { config, media_end_us, position_us, last_clock_us: None, generation: 1 })
    }

    /// Takes a new playback. A new position, in point or out point moves
    /// the cursor there (clamped), forgets the clock and counts a jump; the
    /// answer says whether it did.
    pub fn apply(&mut self, config: Playback, has_audio: bool) -> (r: Result<bool, MediaError>)
        requires
            old(self).wf(),
        ensures
            final(self).wf(),
            final(self).spec_media_end() == old(self).spec_media_end(),
            match file_playback_issue(config, old(self).spec_media_end(), has_audio) {
                Some(m) => r matches Err(e) && media_error_is(e, true, m) && *final(self) == *old(self),
                None => {
                    let moved = config.position_us != old(self).spec_config().position_us || config.in_us != old(
                        self,
                    ).spec_config().in_us || config.out_us != old(self).spec_config().out_us;
                    &&& r == Ok::<bool, MediaError>(moved)
                    &&& final(self).spec_config() == config
                    &&& if moved {
                        &&& final(self).spec_position() == spec_clamp_position(
                            config,
                            old(self).spec_media_end(),
                            config.position_us,
                        )
                        &&& final(self).spec_last_clock() is None
                        &&& final(self).spec_generation() == sat_add(old(self).spec_generation(), 1)
                    } else {
                        &&& final(self).spec_position() == old(self).spec_position()
                        &&& final(self).spec_last_clock() == old(self).spec_last_clock()
                        &&& final(self).spec_generation() == old(self).spec_generation()
                    }
                },
            },
    {
        match validate_playback(&config, self.media_end_us, has_audio) {
            Err(e) => {
                return Err(e);
            },
            Ok(()) => {},
        }
        let moved = config.position_us != self.config.position_us || config.in_us != self.config.in_us
            || config.out_us != self.config.out_us;
        if moved {
            self.position_us = clamp_position(&config, self.media_end_us, config.position_us);
            self.last_clock_us = None;
            self.generation = self.generation.saturating_add(1);
        }
        self.config = config;
        Ok(moved)
    }

    /// The playback, at the cursor's position.
    pub fn playback(&self) -> (r: Playback)
        ensures
            r == (Playback { position_us: self.spec_position(), ..self.spec_config() }),
    {
        Playback { position_us: self.position_us, ..self.config }
    }

    pub fn is_playing(&self) -> (r: bool)
        ensures
            r == self.spec_config().playing,
    {
        self.config.playing
    }

    /// Notes the clock and answers the microseconds since the last note
    /// (none for the first one, or a clock that did not move forward).
    pub fn clock(&mut self, clock_us: u64) -> (r: u64)
        requires
            old(self).wf(),
        ensures
            final(self).wf(),
            final(self).spec_config() == old(self).spec_config(),
            final(self).spec_media_end() == old(self).spec_media_end(),
            final(self).spec_position() == old(self).spec_position(),
            final(self).spec_generation() == old(self).spec_generation(),
            match old(self).spec_last_clock() {
                Some(last) => if clock_us > last {
                    r == clock_us - last && final(self).spec_last_clock() == Some(clock_us)
                } else {
                    r == 0 && final(self).spec_last_clock() == old(self).spec_last_clock()
                },
                None => r == 0 && final(self).spec_last_clock() == Some(clock_us),
            },
    {
        match self.last_clock_us {
            Some(last) => if clock_us > last {
                self.last_clock_us = Some(clock_us);
                clock_us - last
            } else {
                0
            },
            None => {
                self.last_clock_us = Some(clock_us);
                0
            },
        }
    }

    /// Plays on by `advance` whole microseconds.
    pub fn advance(&mut self, advance: u64) -> (r: TimelineStep)
        requires
            old(self).wf(),
        ensures
            final(self).wf(),
            ({
                let (position, generation, playing) = spec_advance(
                    old(self).spec_config(),
                    old(self).spec_media_end(),
                    old(self).spec_position(),
                    old(self).spec_generation(),
                    advance,
                );
                &&& final(self).spec_position() == position
                &&& final(self).spec_generation() == generation
                &&& final(self).spec_config() == (Playback { playing, ..old(self).spec_config() })
            }),
            final(self).spec_media_end() == old(self).spec_media_end(),
            final(self).spec_last_clock() == old(self).spec_last_clock(),
            r == (TimelineStep { position_us: final(self).spec_position(), generation: final(self).spec_generation() }),
    {
        let end = playback_end(&self.config, self.media_end_us);
        let next = self.position_us.saturating_add(advance);
        if next >= end {
            if self.config.loop_playback {
                let length = end.saturating_sub(self.config.in_us);
                self.position_us = if length == 0 {
                    self.config.in_us
                } else {
                    assert((next - self.config.in_us) % (length as int) < length) by (nonlinear_arith)
                        requires
                            length > 0,
                    ;
                    self.config.in_us + (next - self.config.in_us) % length
                };
                self.generation = self.generation.saturating_add(1);
            } else {
                self.position_us = clamp_last(&self.config, self.media_end_us);
                self.config.playing = false;
            }
        } else {
            self.position_us = next;
        }
        TimelineStep { position_us: self.position_us, generation: self.generation }
    }

    /// Where the cursor is now.
    pub fn step(&self) -> (r: TimelineStep)
        ensures
            r == (TimelineStep { position_us: self.spec_position(), generation: self.spec_generation() }),
    {
        TimelineStep { position_us: self.position_us, generation: self.generation }
    }
}

fn clamp_last(p: &Playback, media_end_us: u64) -> (r: u64)
    ensures
        r == spec_last_position(*p, media_end_us),
{
    let last = playback_end(p, media_end_us).saturating_sub(1);
    if last < p.in_us {
        p.in_us
    } else {
        last
    }
}

/// The play cursor never leaves the playback window `[in, end)`, whatever
/// it is advanced by.
pub proof fn lemma_advance_stays_in_window(p: Playback, media_end_us: u64, position: u64, generation: u64, advance: u64)
    requires
        p.in_us < spec_playback_end(p, media_end_us),
        p.in_us <= position <= spec_last_position(p, media_end_us),
    ensures
        p.in_us <= spec_advance(p, media_end_us, position, generation, advance).0 < spec_playback_end(p, media_end_us),
{
    let end = spec_playback_end(p, media_end_us);
    let next = sat_add(position, advance);
    if next >= end && p.loop_playback {
        let length: int = end - p.in_us;
        assert((next - p.in_us) % length < length) by (nonlinear_arith)
            requires
                length > 0,
        ;
    }
}

} // verus!
