//! Outputs and multiviews of a project.

use vstd::prelude::*;

use crate::domain::ids::{DeviceBindingId, InputId, MixingUnitId, MultiviewId, OutputId};
use crate::domain::profile::DistributionProfile;

verus! {

#[derive(Debug, Clone, PartialEq)]
pub struct Output {
    pub id: OutputId,
    pub name: String,
    pub owner: MixingUnitId,
    /// What picture the output carries.
    pub video_source: OutputVideoSource,
    pub kind: OutputKind,
    pub enabled: bool,
    /// Codec and transport of a streaming or recording output.
    pub distribution: Option<DistributionProfile>,
}

/// The picture an output carries: its owner's Program, or one of the
/// owner's multiviews.
#[derive(Debug, Clone, Copy, PartialEq, Eq, Structural)]
pub enum OutputVideoSource {
    Program,
    Multiview(MultiviewId),
}

impl Default for OutputVideoSource {
    fn default() -> (r: Self)
        ensures
            r == OutputVideoSource::Program,
    {
        OutputVideoSource::Program
    }
}

#[derive(Debug, Clone, PartialEq)]
pub enum OutputKind {
    PreviewWindow,
    ProgramWindow,
    Ndi { name: String },
    Omt { url: String },
    DeckLink { binding: DeviceBindingId },
    AudioDevice { binding: DeviceBindingId },
    Rtmp { url: String },
    Srt { url: String },
    Mp4 { path: String },
}

#[derive(Debug, Clone, PartialEq)]
pub struct Multiview {
    pub id: MultiviewId,
    pub name: String,
    pub owner: MixingUnitId,
    pub columns: u32,
    pub rows: u32,
    pub tiles: Vec<MultiviewTile>,
}

#[derive(Debug, Clone, Copy, PartialEq, Eq, Structural)]
pub struct MultiviewTile {
    pub column: u32,
    pub row: u32,
    pub source: MultiviewSource,
}

#[derive(Debug, Clone, Copy, PartialEq, Eq, Structural)]
pub enum MultiviewSource {
    Black,
    Input(InputId),
    Preview(MixingUnitId),
    Program(MixingUnitId),
}

} // verus!
