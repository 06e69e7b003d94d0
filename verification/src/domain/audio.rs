//! The audio matrix: buses and the routes of inputs onto them.

use vstd::prelude::*;

use crate::domain::ids::{AudioBusId, InputId, MixingUnitId};
use crate::domain::routing::RouteMode;
use crate::text::owned;

verus! {

/// A bus; `gain_db` is the bit pattern of an `f32`.
#[derive(Debug, Clone, PartialEq)]
pub struct AudioBus {
    pub id: AudioBusId,
    pub name: String,
    pub linked_unit: Option<MixingUnitId>,
    pub gain_db: u32,
}

/// A route of an input onto a bus. `gain_db`, `delay_ms` and `pan` (-1.0 is
/// full left, 0.0 center, 1.0 full right) are bit patterns of `f32`s.
#[derive(Debug, Clone, Copy, PartialEq, Eq, Structural)]
pub struct AudioRoute {
    pub input: InputId,
    pub bus: AudioBusId,
    pub mode: RouteMode,
    pub gain_db: u32,
    pub muted: bool,
    pub solo: bool,
    pub delay_ms: u32,
    pub pan: u32,
}

#[derive(Debug, Clone, PartialEq)]
pub struct AudioMatrix {
    pub buses: Vec<AudioBus>,
    pub routes: Vec<AudioRoute>,
}

impl Default for AudioMatrix {
    /// A single unlinked "Master" bus at unity gain, and no routes.
    fn default() -> (r: Self)
        ensures
            r.buses@.len() == 1,
            r.buses@[0].name@ == "Master"@,
            r.buses@[0].linked_unit is None,
            r.buses@[0].gain_db == 0,
            r.routes@.len() == 0,
    {
        let master = AudioBus {
            id: AudioBusId::new(),
            name: owned("Master"),
            linked_unit: None,
            gain_db: 0,
        };
        AudioMatrix { buses: vec![master], routes: Vec::new() }
    }
}

/// A route is heard unless it is muted, another route is soloed while it
/// is not, or it follows a unit that is not active.
pub open spec fn spec_audible(routes: Seq<AudioRoute>, route: AudioRoute, follow_active: bool) -> bool {
    &&& !route.muted
    &&& !((exists|i: int| 0 <= i < routes.len() && #[trigger] routes[i].solo) && !route.solo)
    &&& !(route.mode is Follow && !follow_active)
}

impl AudioMatrix {
    /// Whether `route` is heard in this matrix; a heard route plays at its
    /// own gain, any other at none.
    pub fn audible(&self, route: &AudioRoute, follow_active: bool) -> (r: bool)
        ensures
            r == spec_audible(self.routes@, *route, follow_active),
    {
        if route.muted {
            return false;
        }
        let mut any_solo = false;
        let mut i: usize = 0;
        while i < self.routes.len()
            invariant
                i <= self.routes@.len(),
                any_solo == exists|j: int| 0 <= j < i && #[trigger] self.routes@[j].solo,
            decreases self.routes@.len() - i,
        {
            if self.routes[i].solo {
                any_solo = true;
            }
            i = i + 1;
        }
        if any_solo && !route.solo {
            return false;
        }
        match route.mode {
            RouteMode::Follow { .. } => follow_active,
            _ => true,
        }
    }
}

} // verus!
