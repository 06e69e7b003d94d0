//! Inputs: where a layer's picture and sound come from.

use vstd::prelude::*;

use crate::domain::error::{DomainError, DomainResult};
use crate::domain::ids::{AssetId, DeviceBindingId, InputId, MixingUnitId};
use crate::domain::ieee::{is_positive_finite, spec_is_positive_finite, ONE};
use crate::domain::profile::reports_issue;
use crate::domain::routing::MixTap;

verus! {

#[derive(Debug, Clone, PartialEq)]
pub struct Input {
    pub id: InputId,
    pub name: String,
    pub tags: Vec<String>,
    pub groups: Vec<String>,
    pub source: InputSource,
}

#[derive(Debug, Clone, PartialEq)]
pub enum InputSource {
    ColorBars,
    SolidColor { r: u8, g: u8, b: u8, a: u8 },
    Image { asset: AssetId },
    Video { asset: AssetId, playback: Playback },
    Ndi { source_name: String },
    Omt { url: String },
    DeckLink { binding: DeviceBindingId },
    AudioDevice { binding: DeviceBindingId },
    /// Feed from another mixing unit. Creates an edge of the mixing graph.
    MixFeed { unit: MixingUnitId, tap: MixTap },
}

/// Playback of a clip. `speed` is the bit pattern of an `f32` rate.
#[derive(Debug, Clone, Copy, PartialEq, Eq, Structural)]
pub struct Playback {
    pub playing: bool,
    pub loop_playback: bool,
    pub position_us: u64,
    pub in_us: u64,
    pub out_us: Option<u64>,
    pub speed: u32,
}

impl Default for Playback {
    /// Playing and looping from the start at normal speed, with no out point.
    fn default() -> (r: Self)
        ensures
            r == (Playback {
                playing: true,
                loop_playback: true,
                position_us: 0,
                in_us: 0,
                out_us: None,
                speed: ONE,
            }),
    {
        Playback {
            playing: true,
            loop_playback: true,
            position_us: 0,
            in_us: 0,
            out_us: None,
            speed: ONE,
        }
    }
}

/// Why a playback setting is unusable, if it is.
pub open spec fn playback_issue(p: Playback) -> Option<Seq<char>> {
    if !spec_is_positive_finite(p.speed) {
        Some("playback speed must be finite and greater than zero"@)
    } else if p.out_us matches Some(out_us) && out_us <= p.in_us {
        Some("playback out point must be after in point"@)
    } else {
        None
    }
}

/// A playback speed must be finite and positive, and an out point must lie
/// after the in point.
pub fn validate_playback(playback: &Playback) -> (r: DomainResult<()>)
    ensures
        reports_issue(r, playback_issue(*playback)),
{
    if !is_positive_finite(playback.speed) {
        return Err(DomainError::msg("playback speed must be finite and greater than zero"));
    }
    match playback.out_us {
        Some(out_us) => {
            if out_us <= playback.in_us {
                return Err(DomainError::msg("playback out point must be after in point"));
            }
        },
        None => {},
    }
    Ok(())
}

} // verus!
