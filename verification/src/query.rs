//! Read-only requests and what they answer.

use vstd::prelude::*;

use crate::lifecycle::Lifecycle;
use crate::live::{LiveState, ResourceStatus};
use crate::session::model::Document;
use crate::text::owned;

verus! {

#[derive(Debug, Clone, PartialEq, Eq, Structural)]
pub enum Query {
    GetSnapshot,
    GetCapabilities,
    GetRevision,
    GetLiveState,
}

#[derive(Debug, Clone, PartialEq, Eq)]
pub struct Capabilities {
    pub protocol_version: String,
    pub mixer_version: String,
    pub platforms: Vec<String>,
    pub commands: Vec<String>,
    pub presentation_abi: bool,
    pub native_api: bool,
    pub vmix_http: bool,
}

/// Version of this package, as reported to clients.
pub open spec fn spec_mixer_version() -> Seq<char> {
    "0.1.0"@
}

pub open spec fn default_platforms() -> Seq<Seq<char>> {
    seq!["windows"@, "macos"@, "linux"@]
}

pub open spec fn default_commands() -> Seq<Seq<char>> {
    seq![
        "Preview"@,
        "Cut"@,
        "Auto"@,
        "SetMix"@,
        "ReplaceSession"@,
        "GetSnapshot"@,
        "Subscribe"@,
    ]
}

impl Default for Capabilities {
    fn default() -> (r: Self)
        ensures
            r.protocol_version@ == "eiviz.control.v1"@,
            r.mixer_version@ == spec_mixer_version(),
            r.platforms@.map_values(|s: String| s@) == default_platforms(),
            r.commands@.map_values(|s: String| s@) == default_commands(),
            r.presentation_abi,
            r.native_api,
            r.vmix_http,
    {
        let platforms: Vec<String> = vec![owned("windows"), owned("macos"), owned("linux")];
        let commands: Vec<String> = vec![
            owned("Preview"),
            owned("Cut"),
            owned("Auto"),
            owned("SetMix"),
            owned("ReplaceSession"),
            owned("GetSnapshot"),
            owned("Subscribe"),
        ];
        let r = Capabilities {
            protocol_version: owned("eiviz.control.v1"),
            mixer_version: owned("0.1.0"),
            platforms,
            commands,
            presentation_abi: true,
            native_api: true,
            vmix_http: true,
        };
        assert(r.platforms@.map_values(|s: String| s@) =~= default_platforms());
        assert(r.commands@.map_values(|s: String| s@) =~= default_commands());
        r
    }
}

#[derive(Debug, Clone)]
pub struct Snapshot {
    pub revision: u64,
    pub sequence: u64,
    pub document: Document,
    pub live: LiveState,
    pub resources: Vec<ResourceStatus>,
    pub capabilities: Capabilities,
    pub lifecycle: Lifecycle,
}

} // verus!
