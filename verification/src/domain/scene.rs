//! Scenes: layered arrangements of inputs on the canvas.

use vstd::prelude::*;

use crate::domain::ids::{InputId, SceneId, SceneItemId};
use crate::domain::ieee::{is_positive, spec_is_positive, ONE};
use crate::domain::input::Playback;

verus! {

/// Crop insets, each the bit pattern of an `f32` fraction.
#[derive(Debug, Clone, Copy, PartialEq, Eq, Structural)]
pub struct Crop {
    pub left: u32,
    pub top: u32,
    pub right: u32,
    pub bottom: u32,
}

impl Default for Crop {
    fn default() -> (r: Self)
        ensures
            r == (Crop { left: 0, top: 0, right: 0, bottom: 0 }),
    {
        Crop { left: 0, top: 0, right: 0, bottom: 0 }
    }
}

/// Normalized rectangle in parent space. Origin is top-left, x/y/w/h in 0..1
/// relative to the mixing unit canvas unless `pixel_space` is set. Each
/// number is the bit pattern of an `f32`.
#[derive(Debug, Clone, Copy, PartialEq, Eq, Structural)]
pub struct Transform2D {
    pub x: u32,
    pub y: u32,
    pub width: u32,
    pub height: u32,
    pub rotation_deg: u32,
    pub opacity: u32,
    pub crop: Crop,
    pub pixel_space: bool,
}

pub open spec fn spec_fullscreen() -> Transform2D {
    Transform2D {
        x: 0,
        y: 0,
        width: ONE,
        height: ONE,
        rotation_deg: 0,
        opacity: ONE,
        crop: Crop { left: 0, top: 0, right: 0, bottom: 0 },
        pixel_space: false,
    }
}

impl Default for Transform2D {
    /// The whole canvas, unrotated and opaque.
    fn default() -> (r: Self)
        ensures
            r == spec_fullscreen(),
    {
        Transform2D {
            x: 0,
            y: 0,
            width: ONE,
            height: ONE,
            rotation_deg: 0,
            opacity: ONE,
            crop: Crop::default(),
            pixel_space: false,
        }
    }
}

/// A layer shows only with some opacity and a positive size.
pub open spec fn spec_visible(t: Transform2D) -> bool {
    spec_is_positive(t.opacity) && spec_is_positive(t.width) && spec_is_positive(t.height)
}

impl Transform2D {
    pub fn fullscreen() -> (r: Self)
        ensures
            r == spec_fullscreen(),
    {
        Self::default()
    }

    pub fn visible(self) -> (r: bool)
        ensures
            r == spec_visible(self),
    {
        is_positive(self.opacity) && is_positive(self.width) && is_positive(self.height)
    }
}

#[derive(Debug, Clone, PartialEq)]
pub struct Scene {
    pub id: SceneId,
    pub name: String,
    pub items: Vec<SceneItem>,
}

#[derive(Debug, Clone, Copy, PartialEq, Eq, Structural)]
pub struct SceneItem {
    pub id: SceneItemId,
    pub input: InputId,
    pub transform: Transform2D,
    pub z_order: i32,
    pub playback: Playback,
}

} // verus!
