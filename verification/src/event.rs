//! Events the control service publishes, each in an envelope.

use vstd::prelude::*;

use crate::command::Command;
use crate::error::ControlError;
use crate::live::{LiveState, ResourceStatus};
use crate::session::model::Document;

verus! {

#[derive(Debug, Clone, PartialEq)]
pub struct EnvelopeMeta {
    pub sequence: u64,
    pub session_revision: u64,
    pub unix_ms: u64,
    pub request_id: String,
}

#[derive(Debug, Clone)]
pub enum Event {
    Ready { meta: EnvelopeMeta },
    SessionChanged { meta: EnvelopeMeta, document: Box<Document> },
    LiveChanged { meta: EnvelopeMeta, live: LiveState },
    Resource { meta: EnvelopeMeta, status: ResourceStatus },
    CommandApplied { meta: EnvelopeMeta, command: String },
    TransitionStarted { meta: EnvelopeMeta, unit_id: u64 },
    TransitionCompleted { meta: EnvelopeMeta, unit_id: u64 },
    Lag { meta: EnvelopeMeta, missed: u64 },
    Failed { meta: EnvelopeMeta, error: ControlError },
    Discovered { meta: EnvelopeMeta, kind: String, payload: String },
    Shutdown { meta: EnvelopeMeta },
}

/// The envelope of an event.
pub open spec fn spec_meta(e: Event) -> EnvelopeMeta {
    match e {
        Event::Ready { meta } => meta,
        Event::SessionChanged { meta, .. } => meta,
        Event::LiveChanged { meta, .. } => meta,
        Event::Resource { meta, .. } => meta,
        Event::CommandApplied { meta, .. } => meta,
        Event::TransitionStarted { meta, .. } => meta,
        Event::TransitionCompleted { meta, .. } => meta,
        Event::Lag { meta, .. } => meta,
        Event::Failed { meta, .. } => meta,
        Event::Discovered { meta, .. } => meta,
        Event::Shutdown { meta } => meta,
    }
}

/// The name of an event's variant.
pub open spec fn spec_event_kind(e: Event) -> Seq<char> {
    match e {
        Event::Ready { .. } => "Ready"@,
        Event::SessionChanged { .. } => "SessionChanged"@,
        Event::LiveChanged { .. } => "LiveChanged"@,
        Event::Resource { .. } => "Resource"@,
        Event::CommandApplied { .. } => "CommandApplied"@,
        Event::TransitionStarted { .. } => "TransitionStarted"@,
        Event::TransitionCompleted { .. } => "TransitionCompleted"@,
        Event::Lag { .. } => "Lag"@,
        Event::Failed { .. } => "Failed"@,
        Event::Discovered { .. } => "Discovered"@,
        Event::Shutdown { .. } => "Shutdown"@,
    }
}

/// The event with its envelope's sequence number set.
pub open spec fn with_sequence(e: Event, sequence: u64) -> Event {
    match e {
        Event::Ready { meta } => Event::Ready { meta: EnvelopeMeta { sequence, ..meta } },
        Event::SessionChanged { meta, document } => Event::SessionChanged {
            meta: EnvelopeMeta { sequence, ..meta },
            document,
        },
        Event::LiveChanged { meta, live } => Event::LiveChanged {
            meta: EnvelopeMeta { sequence, ..meta },
            live,
        },
        Event::Resource { meta, status } => Event::Resource {
            meta: EnvelopeMeta { sequence, ..meta },
            status,
        },
        Event::CommandApplied { meta, command } => Event::CommandApplied {
            meta: EnvelopeMeta { sequence, ..meta },
            command,
        },
        Event::TransitionStarted { meta, unit_id } => Event::TransitionStarted {
            meta: EnvelopeMeta { sequence, ..meta },
            unit_id,
        },
        Event::TransitionCompleted { meta, unit_id } => Event::TransitionCompleted {
            meta: EnvelopeMeta { sequence, ..meta },
            unit_id,
        },
        Event::Lag { meta, missed } => Event::Lag { meta: EnvelopeMeta { sequence, ..meta }, missed },
        Event::Failed { meta, error } => Event::Failed {
            meta: EnvelopeMeta { sequence, ..meta },
            error,
        },
        Event::Discovered { meta, kind, payload } => Event::Discovered {
            meta: EnvelopeMeta { sequence, ..meta },
            kind,
            payload,
        },
        Event::Shutdown { meta } => Event::Shutdown { meta: EnvelopeMeta { sequence, ..meta } },
    }
}

/// Events made only of numbers and text, which copy exactly.
pub open spec fn is_plain(e: Event) -> bool {
    !(e is SessionChanged || e is LiveChanged || e is Resource || e is Failed)
}

impl Event {
    pub fn meta(&self) -> (r: &EnvelopeMeta)
        ensures
            *r == spec_meta(*self),
    {
        match self {
            Event::Ready { meta } => meta,
            Event::SessionChanged { meta, .. } => meta,
            Event::LiveChanged { meta, .. } => meta,
            Event::Resource { meta, .. } => meta,
            Event::CommandApplied { meta, .. } => meta,
            Event::TransitionStarted { meta, .. } => meta,
            Event::TransitionCompleted { meta, .. } => meta,
            Event::Lag { meta, .. } => meta,
            Event::Failed { meta, .. } => meta,
            Event::Discovered { meta, .. } => meta,
            Event::Shutdown { meta } => meta,
        }
    }

    pub fn kind_name(&self) -> (r: &'static str)
        ensures
            r@ == spec_event_kind(*self),
    {
        match self {
            Event::Ready { .. } => "Ready",
            Event::SessionChanged { .. } => "SessionChanged",
            Event::LiveChanged { .. } => "LiveChanged",
            Event::Resource { .. } => "Resource",
            Event::CommandApplied { .. } => "CommandApplied",
            Event::TransitionStarted { .. } => "TransitionStarted",
            Event::TransitionCompleted { .. } => "TransitionCompleted",
            Event::Lag { .. } => "Lag",
            Event::Failed { .. } => "Failed",
            Event::Discovered { .. } => "Discovered",
            Event::Shutdown { .. } => "Shutdown",
        }
    }

    /// The event with its envelope's sequence number set.
    pub fn with_sequence(self, sequence: u64) -> (r: Event)
        ensures
            r == with_sequence(self, sequence),
    {
        match self {
            Event::Ready { meta } => Event::Ready { meta: EnvelopeMeta { sequence, ..meta } },
            Event::SessionChanged { meta, document } => Event::SessionChanged {
                meta: EnvelopeMeta { sequence, ..meta },
                document,
            },
            Event::LiveChanged { meta, live } => Event::LiveChanged {
                meta: EnvelopeMeta { sequence, ..meta },
                live,
            },
            Event::Resource { meta, status } => Event::Resource {
                meta: EnvelopeMeta { sequence, ..meta },
                status,
            },
            Event::CommandApplied { meta, command } => Event::CommandApplied {
                meta: EnvelopeMeta { sequence, ..meta },
                command,
            },
            Event::TransitionStarted { meta, unit_id } => Event::TransitionStarted {
                meta: EnvelopeMeta { sequence, ..meta },
                unit_id,
            },
            Event::TransitionCompleted { meta, unit_id } => Event::TransitionCompleted {
                meta: EnvelopeMeta { sequence, ..meta },
                unit_id,
            },
            Event::Lag { meta, missed } => Event::Lag {
                meta: EnvelopeMeta { sequence, ..meta },
                missed,
            },
            Event::Failed { meta, error } => Event::Failed {
                meta: EnvelopeMeta { sequence, ..meta },
                error,
            },
            Event::Discovered { meta, kind, payload } => Event::Discovered {
                meta: EnvelopeMeta { sequence, ..meta },
                kind,
                payload,
            },
            Event::Shutdown { meta } => Event::Shutdown { meta: EnvelopeMeta { sequence, ..meta } },
        }
    }
}

pub fn copy_meta(m: &EnvelopeMeta) -> (r: EnvelopeMeta)
    ensures
        r == *m,
{
    EnvelopeMeta {
        sequence: m.sequence,
        session_revision: m.session_revision,
        unix_ms: m.unix_ms,
        request_id: m.request_id.clone(),
    }
}

/// A copy of an event for a subscriber: the same variant and envelope, and
/// for events made only of numbers and text, the same event.
pub fn copy_event(e: &Event) -> (r: Event)
    ensures
        spec_meta(r) == spec_meta(*e),
        spec_event_kind(r) == spec_event_kind(*e),
        is_plain(*e) ==> r == *e,
{
    match e {
        Event::Ready { meta } => Event::Ready { meta: copy_meta(meta) },
        Event::SessionChanged { meta, document } => Event::SessionChanged {
            meta: copy_meta(meta),
            document: document.clone(),
        },
        Event::LiveChanged { meta, live } => Event::LiveChanged {
            meta: copy_meta(meta),
            live: live.clone(),
        },
        Event::Resource { meta, status } => Event::Resource {
            meta: copy_meta(meta),
            status: status.clone(),
        },
        Event::CommandApplied { meta, command } => Event::CommandApplied {
            meta: copy_meta(meta),
            command: command.clone(),
        },
        Event::TransitionStarted { meta, unit_id } => Event::TransitionStarted {
            meta: copy_meta(meta),
            unit_id: *unit_id,
        },
        Event::TransitionCompleted { meta, unit_id } => Event::TransitionCompleted {
            meta: copy_meta(meta),
            unit_id: *unit_id,
        },
        Event::Lag { meta, missed } => Event::Lag { meta: copy_meta(meta), missed: *missed },
        Event::Failed { meta, error } => Event::Failed { meta: copy_meta(meta), error: error.clone() },
        Event::Discovered { meta, kind, payload } => Event::Discovered {
            meta: copy_meta(meta),
            kind: kind.clone(),
            payload: payload.clone(),
        },
        Event::Shutdown { meta } => Event::Shutdown { meta: copy_meta(meta) },
    }
}

/// The name of a command's variant.
pub open spec fn spec_command_name(c: Command) -> Seq<char> {
    match c {
        Command::Preview { .. } => "Preview"@,
        Command::Cut { .. } => "Cut"@,
        Command::Auto { .. } => "Auto"@,
        Command::SetMix { .. } => "SetMix"@,
        Command::OverlayAuto { .. } => "OverlayAuto"@,
        Command::VideoPlay { .. } => "VideoPlay"@,
        Command::VideoLoop { .. } => "VideoLoop"@,
        Command::VideoSeek { .. } => "VideoSeek"@,
        Command::AudioSetInput { .. } => "AudioSetInput"@,
        Command::AudioSetBus { .. } => "AudioSetBus"@,
        Command::ReplaceSession { .. } => "ReplaceSession"@,
        Command::MutateSession { .. } => "MutateSession"@,
        Command::Snapshot { .. } => "Snapshot"@,
        Command::Discover { .. } => "Discover"@,
        Command::Shutdown => "Shutdown"@,
    }
}

pub fn command_name(command: &Command) -> (r: &'static str)
    ensures
        r@ == spec_command_name(*command),
{
    match command {
        Command::Preview { .. } => "Preview",
        Command::Cut { .. } => "Cut",
        Command::Auto { .. } => "Auto",
        Command::SetMix { .. } => "SetMix",
        Command::OverlayAuto { .. } => "OverlayAuto",
        Command::VideoPlay { .. } => "VideoPlay",
        Command::VideoLoop { .. } => "VideoLoop",
        Command::VideoSeek { .. } => "VideoSeek",
        Command::AudioSetInput { .. } => "AudioSetInput",
        Command::AudioSetBus { .. } => "AudioSetBus",
        Command::ReplaceSession { .. } => "ReplaceSession",
        Command::MutateSession { .. } => "MutateSession",
        Command::Snapshot { .. } => "Snapshot",
        Command::Discover { .. } => "Discover",
        Command::Shutdown => "Shutdown",
    }
}

} // verus!
