//! Client-originated requests that the control domain understands without
//! touching GPU handles or native surfaces.

use vstd::prelude::*;

use crate::session::model::{
    BusDto, Document, InputDto, InputKind, MultiviewDto, OutputDto, OverlaySlot, SceneDto,
    SceneLayer, SessionSettings, UnitDto,
};

verus! {

/// What a cut or an auto transition brings to Program: the Preview scene,
/// Program itself, or a source by id. On the wire `0` is Preview and
/// `u64::MAX` is Program.
#[derive(Debug, Clone, Copy, PartialEq, Eq, Structural)]
pub enum Incoming {
    Preview,
    Program,
    Source(u64),
}

/// The wire value that decodes to `Incoming`.
pub open spec fn spec_incoming_from_u64(value: u64) -> Incoming {
    if value == 0 {
        Incoming::Preview
    } else if value == u64::MAX {
        Incoming::Program
    } else {
        Incoming::Source(value)
    }
}

/// The wire value of an `Incoming`.
pub open spec fn spec_incoming_to_u64(x: Incoming) -> u64 {
    match x {
        Incoming::Preview => 0,
        Incoming::Program => u64::MAX,
        Incoming::Source(id) => id,
    }
}

impl Incoming {
    pub fn from_u64(value: u64) -> (r: Self)
        ensures
            r == spec_incoming_from_u64(value),
    {
        if value == 0 {
            Incoming::Preview
        } else if value == u64::MAX {
            Incoming::Program
        } else {
            Incoming::Source(value)
        }
    }

    pub fn to_u64(self) -> (r: u64)
        ensures
            r == spec_incoming_to_u64(self),
    {
        match self {
            Incoming::Preview => 0,
            Incoming::Program => u64::MAX,
            Incoming::Source(id) => id,
        }
    }
}

/// Every wire value decodes to an `Incoming` that encodes back to it.
pub proof fn lemma_incoming_wire_round_trip(value: u64)
    ensures
        spec_incoming_to_u64(spec_incoming_from_u64(value)) == value,
{
}

/// Encoding then decoding gives the same `Incoming`, except for the two
/// source ids that collide with the Preview and Program codes.
pub proof fn lemma_incoming_value_round_trip(x: Incoming)
    requires
        x != Incoming::Source(0),
        x != Incoming::Source(u64::MAX),
    ensures
        spec_incoming_from_u64(spec_incoming_to_u64(x)) == x,
{
}

/// What a snapshot captures.
#[derive(Debug, Clone, Copy, PartialEq, Eq, Structural)]
pub enum SnapshotKind {
    Program,
    Preview,
    Source(u64),
}

/// Which kind of network or device source a discovery lists.
#[derive(Debug, Clone, Copy, PartialEq, Eq, Structural)]
pub enum DiscoverKind {
    Omt,
    Ndi,
    Audio,
}

/// Collaborative document edit. Applied against a staged clone, then replaced
/// through the same reconcile path as a whole-document replacement.
#[derive(Debug, Clone)]
pub enum SessionMutation {
    UpsertInput { input: Box<InputDto> },
    DeleteInput { id: u64 },
    UpsertScene { scene: Box<SceneDto> },
    DeleteScene { id: u64 },
    SetSceneLayers { scene_id: u64, layers: Vec<SceneLayer> },
    UpsertUnit { unit: Box<UnitDto> },
    DeleteUnit { id: u64 },
    SetOverlaySlot { unit_id: u64, index: u32, slot: Box<OverlaySlot> },
    AddMediaInput {
        name: String,
        media_kind: InputKind,
        host_path: String,
        video_loop: bool,
        tags: Vec<String>,
    },
    UpsertMultiview { layout: Box<MultiviewDto> },
    DeleteMultiview { id: u64 },
    SetSettings {
        settings: Box<SessionSettings>,
        outputs: Vec<OutputDto>,
        buses: Vec<BusDto>,
        headphone_copy_master: bool,
        next_output_id: u64,
        next_bus_id: u64,
    },
}

/// The name of a mutation's variant.
pub open spec fn spec_kind_name(m: SessionMutation) -> Seq<char> {
    match m {
        SessionMutation::UpsertInput { .. } => "UpsertInput"@,
        SessionMutation::DeleteInput { .. } => "DeleteInput"@,
        SessionMutation::UpsertScene { .. } => "UpsertScene"@,
        SessionMutation::DeleteScene { .. } => "DeleteScene"@,
        SessionMutation::SetSceneLayers { .. } => "SetSceneLayers"@,
        SessionMutation::UpsertUnit { .. } => "UpsertUnit"@,
        SessionMutation::DeleteUnit { .. } => "DeleteUnit"@,
        SessionMutation::SetOverlaySlot { .. } => "SetOverlaySlot"@,
        SessionMutation::AddMediaInput { .. } => "AddMediaInput"@,
        SessionMutation::UpsertMultiview { .. } => "UpsertMultiview"@,
        SessionMutation::DeleteMultiview { .. } => "DeleteMultiview"@,
        SessionMutation::SetSettings { .. } => "SetSettings"@,
    }
}

impl SessionMutation {
    pub fn kind_name(&self) -> (r: &'static str)
        ensures
            r@ == spec_kind_name(*self),
    {
        match self {
            SessionMutation::UpsertInput { .. } => "UpsertInput",
            SessionMutation::DeleteInput { .. } => "DeleteInput",
            SessionMutation::UpsertScene { .. } => "UpsertScene",
            SessionMutation::DeleteScene { .. } => "DeleteScene",
            SessionMutation::SetSceneLayers { .. } => "SetSceneLayers",
            SessionMutation::UpsertUnit { .. } => "UpsertUnit",
            SessionMutation::DeleteUnit { .. } => "DeleteUnit",
            SessionMutation::SetOverlaySlot { .. } => "SetOverlaySlot",
            SessionMutation::AddMediaInput { .. } => "AddMediaInput",
            SessionMutation::UpsertMultiview { .. } => "UpsertMultiview",
            SessionMutation::DeleteMultiview { .. } => "DeleteMultiview",
            SessionMutation::SetSettings { .. } => "SetSettings",
        }
    }
}

/// A request to the control service. Mix levels, gains and dip colors are
/// bit patterns of `f32`s.
#[derive(Debug, Clone)]
pub enum Command {
    Preview { unit_id: u64, scene_id: u64 },
    Cut { unit_id: u64, swap: bool, incoming: Incoming },
    Auto {
        unit_id: u64,
        kind: u32,
        duration_ms: u32,
        swap: bool,
        keep_preview: bool,
        easing: u32,
        direction: u32,
        dip_r: u32,
        dip_g: u32,
        dip_b: u32,
        dip_a: u32,
        incoming: Incoming,
        softness: u32,
        param: u32,
    },
    SetMix { unit_id: u64, value: u32 },
    OverlayAuto { unit_id: u64, index: u32, duration_ms: u32, to_on: bool },
    VideoPlay { input_id: u64, playing: bool },
    VideoLoop { input_id: u64, looping: bool },
    VideoSeek { input_id: u64, position_hns: i64 },
    AudioSetInput { input_id: u64, bus_mask: u32, gain: u32, mute: bool },
    AudioSetBus { bus_id: u64, gain: u32, mute: bool },
    ReplaceSession { document: Box<Document>, expected_revision: Option<u64> },
    MutateSession { mutation: Box<SessionMutation>, expected_revision: Option<u64> },
    Snapshot { unit_id: u64, kind: SnapshotKind, path: String },
    Discover { kind: DiscoverKind },
    Shutdown,
}

/// Commands that act on the running mixer rather than the session.
pub open spec fn spec_is_live(c: Command) -> bool {
    ||| c is Preview
    ||| c is Cut
    ||| c is Auto
    ||| c is SetMix
    ||| c is OverlayAuto
    ||| c is VideoPlay
    ||| c is VideoLoop
    ||| c is VideoSeek
    ||| c is AudioSetInput
    ||| c is AudioSetBus
}

/// Commands that replace or edit the session document.
pub open spec fn spec_is_session(c: Command) -> bool {
    c is ReplaceSession || c is MutateSession
}

/// Commands that must carry a request id, so that a retry is not applied twice.
pub open spec fn spec_requires_idempotency(c: Command) -> bool {
    c is Cut || c is ReplaceSession || c is Shutdown
}

impl Command {
    pub fn is_live(&self) -> (r: bool)
        ensures
            r == spec_is_live(*self),
    {
        match self {
            Command::Preview { .. } | Command::Cut { .. } | Command::Auto { .. } | Command::SetMix {
                ..
            } | Command::OverlayAuto { .. } | Command::VideoPlay { .. } | Command::VideoLoop { .. }
            | Command::VideoSeek { .. } | Command::AudioSetInput { .. } | Command::AudioSetBus {
                ..
            } => true,
            _ => false,
        }
    }

    pub fn is_session(&self) -> (r: bool)
        ensures
            r == spec_is_session(*self),
    {
        match self {
            Command::ReplaceSession { .. } | Command::MutateSession { .. } => true,
            _ => false,
        }
    }

    pub fn requires_idempotency(&self) -> (r: bool)
        ensures
            r == spec_requires_idempotency(*self),
    {
        match self {
            Command::Cut { .. } | Command::ReplaceSession { .. } | Command::Shutdown => true,
            _ => false,
        }
    }

    /// Whether an input of `kind` takes a file path: stills and videos do.
    pub fn expected_input_kind_for_path(kind: InputKind) -> (r: bool)
        ensures
            r == crate::session::relink::is_media(kind),
    {
        match kind {
            InputKind::Still | InputKind::Video => true,
            _ => false,
        }
    }
}

/// No command both acts on the mixer and edits the session.
pub proof fn lemma_live_and_session_are_disjoint(c: Command)
    ensures
        !(spec_is_live(c) && spec_is_session(c)),
{
}

} // verus!
