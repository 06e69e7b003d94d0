//! Inputs feeding other mixing units, device bindings and audio routing.

use vstd::prelude::*;

use crate::domain::ids::{DeviceBindingId, MixingUnitId};

verus! {

/// Which bus of another mixing unit a mix feed takes.
#[derive(Debug, Clone, Copy, PartialEq, Eq, Structural)]
pub enum MixTap {
    Program,
    Preview,
}

/// A physical device remembered by logical name and last hardware id.
#[derive(Debug, Clone, PartialEq)]
pub struct DeviceBinding {
    pub id: DeviceBindingId,
    pub kind: String,
    pub logical_name: String,
    pub last_seen_hardware_id: Option<String>,
}

/// Whether an audio route is set by hand or follows a mixing unit.
#[derive(Debug, Clone, Copy, PartialEq, Eq, Structural)]
pub enum RouteMode {
    Manual,
    Follow { unit: MixingUnitId },
}

} // verus!
