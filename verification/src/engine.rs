//! Admission budget and flight log of the composition root.

use std::collections::VecDeque;

use vstd::prelude::*;

use crate::domain::ids::MixingUnitId;
use crate::domain::key_order::{key_order, keys_in_order};
use crate::domain::project::Project;
use crate::text::owned;

verus! {

broadcast use vstd::std_specs::btree::group_btree_axioms;

/// How many flight events the log keeps.
pub const FLIGHT_CAP: usize = 1800;

#[derive(Debug, Clone, Copy, PartialEq, Eq, Structural)]
pub struct AdmissionBudget {
    pub max_inputs: usize,
    pub max_units: usize,
    pub max_pixel_bytes: usize,
}

impl Default for AdmissionBudget {
    /// 4096 inputs, 1024 units and 2 GiB of pixels.
    fn default() -> (r: Self)
        ensures
            r == (AdmissionBudget {
                max_inputs: 4096,
                max_units: 1024,
                max_pixel_bytes: 2_147_483_648,
            }),
    {
        AdmissionBudget { max_inputs: 4096, max_units: 1024, max_pixel_bytes: 2_147_483_648 }
    }
}

/// Why the engine refused a command.
#[derive(Debug, Clone, PartialEq, Eq)]
pub enum EngineError {
    Admission(String),
}

impl EngineError {
    /// The text that `Display` writes.
    pub fn to_string(&self) -> (r: String)
        ensures
            match self {
                EngineError::Admission(m) => r@ == "admission denied: "@ + m@,
            },
    {
        match self {
            EngineError::Admission(m) => {
                let mut t = owned("admission denied: ");
                t.append(m.as_str());
                t
            },
        }
    }
}

/// What a command asks of the engine's capacity.
#[derive(Debug, Clone, Copy, PartialEq, Eq, Structural)]
pub enum AdmissionRequest {
    AddInput,
    AddMixingUnit,
    Other,
}

/// Why a request exceeds the budget, if it does: one input more than the
/// budget allows, or more pixel bytes than it allows with one RGBA canvas
/// per input; one mixing unit more than it allows.
pub open spec fn admission_issue(
    inputs: nat,
    units: nat,
    width: u32,
    height: u32,
    budget: AdmissionBudget,
    request: AdmissionRequest,
) -> Option<Seq<char>> {
    match request {
        AdmissionRequest::AddInput => if inputs >= budget.max_inputs {
            Some("input count"@)
        } else if (inputs + 1) * width * height * 4 > budget.max_pixel_bytes {
            Some("pixel budget"@)
        } else {
            None
        },
        AdmissionRequest::AddMixingUnit => if units >= budget.max_units {
            Some("mixing unit count"@)
        } else {
            None
        },
        AdmissionRequest::Other => None,
    }
}

/// Refuses a request that would exceed the budget for the project.
pub fn check_admission(project: &Project, budget: &AdmissionBudget, request: AdmissionRequest) -> (r: Result<
    (),
    EngineError,
>)
    requires
        request is AddInput && project.inputs@.len() < budget.max_inputs ==> (project.inputs@.len() + 1)
            * project.video.width <= usize::MAX,
        request is AddInput && project.inputs@.len() < budget.max_inputs ==> (project.inputs@.len() + 1)
            * project.video.width * project.video.height * 4 <= usize::MAX,
    ensures
        match admission_issue(
            project.inputs@.len(),
            project.mixing_units@.len(),
            project.video.width,
            project.video.height,
            *budget,
            request,
        ) {
            None => r is Ok,
            Some(m) => r matches Err(EngineError::Admission(x)) && x@ == m,
        },
{
    match request {
        AdmissionRequest::AddInput => {
            let inputs = project.inputs.len();
            if inputs >= budget.max_inputs {
                return Err(EngineError::Admission(owned("input count")));
            }
            let w = project.video.width as usize;
            let h = project.video.height as usize;
            proof {
                let a = (inputs + 1) as int;
                assert(a * w * h <= a * w * h * 4) by (nonlinear_arith)
                    requires
                        a >= 1,
                        w >= 0,
                        h >= 0,
                ;
            }
            let bytes = (inputs + 1) * w * h * 4;
            if bytes > budget.max_pixel_bytes {
                return Err(EngineError::Admission(owned("pixel budget")));
            }
            Ok(())
        },
        AdmissionRequest::AddMixingUnit => {
            if project.mixing_units.len() >= budget.max_units {
                return Err(EngineError::Admission(owned("mixing unit count")));
            }
            Ok(())
        },
        AdmissionRequest::Other => Ok(()),
    }
}

/// The unit the engine addresses by default: the one with the smallest id.
pub fn primary_unit(project: &Project) -> (r: MixingUnitId)
    requires
        project.mixing_units@.len() > 0,
    ensures
        r.0 == key_order(project.mixing_units@)[0],
        project.mixing_units@.contains_key(r.0),
        forall|k: u128| #[trigger] project.mixing_units@.contains_key(k) ==> r.0 <= k,
{
    let keys = keys_in_order(&project.mixing_units);
    proof {
        let m = project.mixing_units@;
        assert(m.dom().len() > 0);
        let k0 = m.dom().choose();
        assert(m.contains_key(k0));
        assert(keys@.contains(k0));
        assert forall|k: u128| #[trigger] m.contains_key(k) implies keys@[0] <= k by {
            assert(keys@.contains(k));
            let i = choose|i: int| 0 <= i < keys@.len() && keys@[i] == k;
            if i > 0 {
                assert(keys@[0] < keys@[i]);
            }
        }
        assert(keys@.contains(keys@[0]));
    }
    MixingUnitId(keys[0])
}

/// One recorded frame of the engine.
#[derive(Debug, Clone)]
pub struct FlightEvent {
    pub frame: u64,
    pub revision: u64,
    pub hash: String,
    pub dropped_preview: u64,
    pub failed_outputs: Vec<String>,
    pub note: String,
}

/// The log after recording an event: the oldest event goes when the log is
/// full, and the new one is last.
pub open spec fn logged(log: Seq<FlightEvent>, ev: FlightEvent) -> Seq<FlightEvent> {
    if log.len() >= FLIGHT_CAP {
        log.drop_first().push(ev)
    } else {
        log.push(ev)
    }
}

pub fn push_flight(buf: &mut VecDeque<FlightEvent>, ev: FlightEvent)
    ensures
        final(buf)@ == logged(old(buf)@, ev),
{
    if buf.len() >= FLIGHT_CAP {
        let _ = buf.pop_front();
    }
    buf.push_back(ev);
}

/// The flight log never holds more than `FLIGHT_CAP` events, and the newest
/// is always last.
pub proof fn lemma_flight_log_bounded(log: Seq<FlightEvent>, ev: FlightEvent)
    requires
        log.len() <= FLIGHT_CAP,
    ensures
        logged(log, ev).len() <= FLIGHT_CAP,
        logged(log, ev).last() == ev,
        log.len() < FLIGHT_CAP ==> logged(log, ev).len() == log.len() + 1,
{
}

} // verus!
