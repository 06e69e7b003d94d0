//! Status of the resources (inputs, outputs) that the mixer brings up.

use std::collections::HashMap;

use vstd::prelude::*;

use crate::ids::ResourceKind;

verus! {

#[derive(Debug, Clone, Copy, PartialEq, Eq, Structural)]
pub enum ResourcePhase {
    Ready,
    Retrying,
    Failed,
    Stopped,
}

pub open spec fn spec_phase_str(p: ResourcePhase) -> Seq<char> {
    match p {
        ResourcePhase::Ready => "ready"@,
        ResourcePhase::Retrying => "retrying"@,
        ResourcePhase::Failed => "failed"@,
        ResourcePhase::Stopped => "stopped"@,
    }
}

impl ResourcePhase {
    pub fn as_str(self) -> (r: &'static str)
        ensures
            r@ == spec_phase_str(self),
    {
        match self {
            ResourcePhase::Ready => "ready",
            ResourcePhase::Retrying => "retrying",
            ResourcePhase::Failed => "failed",
            ResourcePhase::Stopped => "stopped",
        }
    }
}

#[derive(Debug, PartialEq, Eq)]
pub struct ResourceStatus {
    pub kind: ResourceKind,
    pub id: u64,
    pub phase: ResourcePhase,
    pub message: String,
}

impl Clone for ResourceStatus {
    fn clone(&self) -> (r: Self)
        ensures
            r == *self,
    {
        ResourceStatus { kind: self.kind, id: self.id, phase: self.phase, message: self.message.clone() }
    }
}

/// Live bus state of one Mixing Unit.
#[derive(Debug, Clone, PartialEq)]
pub struct UnitLiveState {
    pub program_source: u64,
    pub preview_source: u64,
    /// Bit pattern of the `f32` transition position.
    pub mix: u32,
    pub transitioning: bool,
    pub incoming_source: u64,
    pub overlay_sources: Vec<u64>,
}

impl Default for UnitLiveState {
    fn default() -> (r: Self)
        ensures
            r.program_source == 0,
            r.preview_source == 0,
            r.mix == 0,
            !r.transitioning,
            r.incoming_source == 0,
            r.overlay_sources@.len() == 0,
    {
        UnitLiveState {
            program_source: 0,
            preview_source: 0,
            mix: 0,
            transitioning: false,
            incoming_source: 0,
            overlay_sources: Vec::new(),
        }
    }
}

/// Live state of every Mixing Unit, by unit id.
#[derive(Debug, Clone, PartialEq)]
pub struct LiveState {
    pub units: HashMap<u64, UnitLiveState>,
}

impl Default for LiveState {
    fn default() -> (r: Self)
        ensures
            r.units@ == Map::<u64, UnitLiveState>::empty(),
    {
        LiveState { units: HashMap::new() }
    }
}

} // verus!
