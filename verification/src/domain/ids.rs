//! Typed identities of project entities: time-ordered UUIDs, held as their
//! 128-bit value.

use vstd::prelude::*;

use crate::guid::{uuid_now_v7_bits, uuid_text, uuid_to_string};

verus! {

#[derive(Debug, Clone, Copy, PartialEq, Eq, Hash, PartialOrd, Ord, Structural)]
pub struct ProjectId(pub u128);

impl ProjectId {
    /// A new time-ordered id.
    pub fn new() -> (r: Self) {
        ProjectId(uuid_now_v7_bits())
    }

    pub fn from_u128(value: u128) -> (r: Self)
        ensures
            r.0 == value,
    {
        ProjectId(value)
    }

    /// The hyphenated text of the id.
    pub fn to_string(&self) -> (r: String)
        ensures
            r@ == uuid_text(self.0),
    {
        uuid_to_string(self.0)
    }
}

#[derive(Debug, Clone, Copy, PartialEq, Eq, Hash, PartialOrd, Ord, Structural)]
pub struct InputId(pub u128);

impl InputId {
    /// A new time-ordered id.
    pub fn new() -> (r: Self) {
        InputId(uuid_now_v7_bits())
    }

    pub fn from_u128(value: u128) -> (r: Self)
        ensures
            r.0 == value,
    {
        InputId(value)
    }

    /// The hyphenated text of the id.
    pub fn to_string(&self) -> (r: String)
        ensures
            r@ == uuid_text(self.0),
    {
        uuid_to_string(self.0)
    }
}

#[derive(Debug, Clone, Copy, PartialEq, Eq, Hash, PartialOrd, Ord, Structural)]
pub struct SceneId(pub u128);

impl SceneId {
    /// A new time-ordered id.
    pub fn new() -> (r: Self) {
        SceneId(uuid_now_v7_bits())
    }

    pub fn from_u128(value: u128) -> (r: Self)
        ensures
            r.0 == value,
    {
        SceneId(value)
    }

    /// The hyphenated text of the id.
    pub fn to_string(&self) -> (r: String)
        ensures
            r@ == uuid_text(self.0),
    {
        uuid_to_string(self.0)
    }
}

#[derive(Debug, Clone, Copy, PartialEq, Eq, Hash, PartialOrd, Ord, Structural)]
pub struct SceneItemId(pub u128);

impl SceneItemId {
    /// A new time-ordered id.
    pub fn new() -> (r: Self) {
        SceneItemId(uuid_now_v7_bits())
    }

    pub fn from_u128(value: u128) -> (r: Self)
        ensures
            r.0 == value,
    {
        SceneItemId(value)
    }

    /// The hyphenated text of the id.
    pub fn to_string(&self) -> (r: String)
        ensures
            r@ == uuid_text(self.0),
    {
        uuid_to_string(self.0)
    }
}

#[derive(Debug, Clone, Copy, PartialEq, Eq, Hash, PartialOrd, Ord, Structural)]
pub struct MixingUnitId(pub u128);

impl MixingUnitId {
    /// A new time-ordered id.
    pub fn new() -> (r: Self) {
        MixingUnitId(uuid_now_v7_bits())
    }

    pub fn from_u128(value: u128) -> (r: Self)
        ensures
            r.0 == value,
    {
        MixingUnitId(value)
    }

    /// The hyphenated text of the id.
    pub fn to_string(&self) -> (r: String)
        ensures
            r@ == uuid_text(self.0),
    {
        uuid_to_string(self.0)
    }
}

#[derive(Debug, Clone, Copy, PartialEq, Eq, Hash, PartialOrd, Ord, Structural)]
pub struct OverlayId(pub u128);

impl OverlayId {
    /// A new time-ordered id.
    pub fn new() -> (r: Self) {
        OverlayId(uuid_now_v7_bits())
    }

    pub fn from_u128(value: u128) -> (r: Self)
        ensures
            r.0 == value,
    {
        OverlayId(value)
    }

    /// The hyphenated text of the id.
    pub fn to_string(&self) -> (r: String)
        ensures
            r@ == uuid_text(self.0),
    {
        uuid_to_string(self.0)
    }
}

#[derive(Debug, Clone, Copy, PartialEq, Eq, Hash, PartialOrd, Ord, Structural)]
pub struct OutputId(pub u128);

impl OutputId {
    /// A new time-ordered id.
    pub fn new() -> (r: Self) {
        OutputId(uuid_now_v7_bits())
    }

    pub fn from_u128(value: u128) -> (r: Self)
        ensures
            r.0 == value,
    {
        OutputId(value)
    }

    /// The hyphenated text of the id.
    pub fn to_string(&self) -> (r: String)
        ensures
            r@ == uuid_text(self.0),
    {
        uuid_to_string(self.0)
    }
}

#[derive(Debug, Clone, Copy, PartialEq, Eq, Hash, PartialOrd, Ord, Structural)]
pub struct MultiviewId(pub u128);

impl MultiviewId {
    /// A new time-ordered id.
    pub fn new() -> (r: Self) {
        MultiviewId(uuid_now_v7_bits())
    }

    pub fn from_u128(value: u128) -> (r: Self)
        ensures
            r.0 == value,
    {
        MultiviewId(value)
    }

    /// The hyphenated text of the id.
    pub fn to_string(&self) -> (r: String)
        ensures
            r@ == uuid_text(self.0),
    {
        uuid_to_string(self.0)
    }
}

#[derive(Debug, Clone, Copy, PartialEq, Eq, Hash, PartialOrd, Ord, Structural)]
pub struct AudioBusId(pub u128);

impl AudioBusId {
    /// A new time-ordered id.
    pub fn new() -> (r: Self) {
        AudioBusId(uuid_now_v7_bits())
    }

    pub fn from_u128(value: u128) -> (r: Self)
        ensures
            r.0 == value,
    {
        AudioBusId(value)
    }

    /// The hyphenated text of the id.
    pub fn to_string(&self) -> (r: String)
        ensures
            r@ == uuid_text(self.0),
    {
        uuid_to_string(self.0)
    }
}

#[derive(Debug, Clone, Copy, PartialEq, Eq, Hash, PartialOrd, Ord, Structural)]
pub struct AssetId(pub u128);

impl AssetId {
    /// A new time-ordered id.
    pub fn new() -> (r: Self) {
        AssetId(uuid_now_v7_bits())
    }

    pub fn from_u128(value: u128) -> (r: Self)
        ensures
            r.0 == value,
    {
        AssetId(value)
    }

    /// The hyphenated text of the id.
    pub fn to_string(&self) -> (r: String)
        ensures
            r@ == uuid_text(self.0),
    {
        uuid_to_string(self.0)
    }
}

#[derive(Debug, Clone, Copy, PartialEq, Eq, Hash, PartialOrd, Ord, Structural)]
pub struct DeviceBindingId(pub u128);

impl DeviceBindingId {
    /// A new time-ordered id.
    pub fn new() -> (r: Self) {
        DeviceBindingId(uuid_now_v7_bits())
    }

    pub fn from_u128(value: u128) -> (r: Self)
        ensures
            r.0 == value,
    {
        DeviceBindingId(value)
    }

    /// The hyphenated text of the id.
    pub fn to_string(&self) -> (r: String)
        ensures
            r@ == uuid_text(self.0),
    {
        uuid_to_string(self.0)
    }
}

#[derive(Debug, Clone, Copy, PartialEq, Eq, Hash, PartialOrd, Ord, Structural)]
pub struct CommandId(pub u128);

impl CommandId {
    /// A new time-ordered id.
    pub fn new() -> (r: Self) {
        CommandId(uuid_now_v7_bits())
    }

    pub fn from_u128(value: u128) -> (r: Self)
        ensures
            r.0 == value,
    {
        CommandId(value)
    }

    /// The hyphenated text of the id.
    pub fn to_string(&self) -> (r: String)
        ensures
            r@ == uuid_text(self.0),
    {
        uuid_to_string(self.0)
    }
}

#[derive(Debug, Clone, Copy, PartialEq, Eq, Hash, PartialOrd, Ord, Structural)]
pub struct ClientId(pub u128);

impl ClientId {
    /// A new time-ordered id.
    pub fn new() -> (r: Self) {
        ClientId(uuid_now_v7_bits())
    }

    pub fn from_u128(value: u128) -> (r: Self)
        ensures
            r.0 == value,
    {
        ClientId(value)
    }

    /// The hyphenated text of the id.
    pub fn to_string(&self) -> (r: String)
        ensures
            r@ == uuid_text(self.0),
    {
        uuid_to_string(self.0)
    }
}

} // verus!
