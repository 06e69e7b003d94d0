//! Lifecycle of the control service.

use vstd::prelude::*;

verus! {

#[derive(Debug, Clone, Copy, PartialEq, Eq, Structural)]
pub enum Lifecycle {
    Starting,
    Ready,
    Failed,
    Stopping,
    Stopped,
}

pub open spec fn spec_lifecycle_str(l: Lifecycle) -> Seq<char> {
    match l {
        Lifecycle::Starting => "starting"@,
        Lifecycle::Ready => "ready"@,
        Lifecycle::Failed => "failed"@,
        Lifecycle::Stopping => "stopping"@,
        Lifecycle::Stopped => "stopped"@,
    }
}

impl Lifecycle {
    pub fn as_str(self) -> (r: &'static str)
        ensures
            r@ == spec_lifecycle_str(self),
    {
        match self {
            Lifecycle::Starting => "starting",
            Lifecycle::Ready => "ready",
            Lifecycle::Failed => "failed",
            Lifecycle::Stopping => "stopping",
            Lifecycle::Stopped => "stopped",
        }
    }

    pub fn is_ready(self) -> (r: bool)
        ensures
            r == (self == Lifecycle::Ready),
    {
        match self {
            Lifecycle::Ready => true,
            _ => false,
        }
    }
}

impl Default for Lifecycle {
    fn default() -> (r: Self)
        ensures
            r == Lifecycle::Stopped,
    {
        Lifecycle::Stopped
    }
}

} // verus!
