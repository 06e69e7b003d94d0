//! The project: the whole domain model, its video profile and its checks.

use std::collections::BTreeMap;

use vstd::prelude::*;

use crate::domain::audio::AudioMatrix;
use crate::domain::ids::{MixingUnitId, OutputId, ProjectId};
use crate::domain::input::Input;
use crate::domain::key_order::lemma_keys_ordered;
use crate::domain::mixing::{AudioFollowPolicy, MixingUnit, Transition, TransitionStyle};
use crate::domain::output::{Multiview, Output, OutputKind, OutputVideoSource};
use crate::domain::profile::{
    spec_color_metadata, AssetRef, AudioFormat, AudioResamplingPolicy, AuxiliaryLoadSheddingPolicy,
    ColorConversionPolicy, ColorMetadata, ColorSpace, CompositorBackend, FieldKind, FieldOrder,
    MissingMediaPolicy,
};
use crate::domain::routing::DeviceBinding;
use crate::domain::scene::Scene;
use crate::text::owned;

verus! {

broadcast use vstd::std_specs::btree::group_btree_axioms;

/// The newest project schema this library reads.
pub const SCHEMA_VERSION: u32 = 6;

/// A frame (or, interlaced, field) cadence as an exact ratio.
#[derive(Debug, Clone, Copy, PartialEq, Eq, Structural)]
pub struct FrameRate {
    pub numerator: u32,
    pub denominator: u32,
}

pub open spec fn spec_ntsc_5994() -> FrameRate {
    FrameRate { numerator: 60000, denominator: 1001 }
}

/// The 59.94 Hz cadence, exactly 60000/1001.
pub fn ntsc_5994() -> (r: FrameRate)
    ensures
        r == spec_ntsc_5994(),
{
    FrameRate { numerator: 60000, denominator: 1001 }
}

#[derive(Debug, Clone, Copy, PartialEq, Eq, Structural)]
pub struct VideoFormat {
    pub width: u32,
    pub height: u32,
    /// Logical output cadence. For interlaced formats this is the field
    /// cadence, so 1080i59.94 remains the exact 60000/1001 ratio.
    pub frame_rate: FrameRate,
    pub color: ColorSpace,
    pub interlaced: bool,
    pub field_order: Option<FieldOrder>,
    pub bit_depth: u8,
    pub color_conversion: ColorConversionPolicy,
}

pub open spec fn spec_hd_5994() -> VideoFormat {
    VideoFormat {
        width: 1920,
        height: 1080,
        frame_rate: spec_ntsc_5994(),
        color: ColorSpace::Bt709Sdr,
        interlaced: false,
        field_order: None,
        bit_depth: 8,
        color_conversion: ColorConversionPolicy::Exact,
    }
}

/// Which field a frame boundary carries: fields alternate from the first
/// one that the field order names; progressive video has none.
pub open spec fn spec_field_at(order: Option<FieldOrder>, boundary_index: u64) -> FieldKind {
    match order {
        None => FieldKind::Progressive,
        Some(FieldOrder::TopFieldFirst) => if boundary_index % 2 == 0 {
            FieldKind::Top
        } else {
            FieldKind::Bottom
        },
        Some(FieldOrder::BottomFieldFirst) => if boundary_index % 2 == 0 {
            FieldKind::Bottom
        } else {
            FieldKind::Top
        },
    }
}

/// The full 1080p59.94 SDR 8-bit reference profile.
pub open spec fn spec_is_baseline_1080p5994(v: VideoFormat) -> bool {
    v == spec_hd_5994()
}

/// What the CPU reference compositor can render: at most 1920x1080, and
/// otherwise the baseline profile.
pub open spec fn spec_is_cpu_reference_compatible(v: VideoFormat) -> bool {
    &&& v.width <= 1920
    &&& v.height <= 1080
    &&& v.frame_rate == spec_ntsc_5994()
    &&& v.color == ColorSpace::Bt709Sdr
    &&& !v.interlaced
    &&& v.field_order is None
    &&& v.bit_depth == 8
    &&& v.color_conversion == ColorConversionPolicy::Exact
}

impl VideoFormat {
    pub fn hd_5994() -> (r: Self)
        ensures
            r == spec_hd_5994(),
    {
        VideoFormat {
            width: 1920,
            height: 1080,
            frame_rate: ntsc_5994(),
            color: ColorSpace::Bt709Sdr,
            interlaced: false,
            field_order: None,
            bit_depth: 8,
            color_conversion: ColorConversionPolicy::Exact,
        }
    }

    pub fn uhd_5994_sdr() -> (r: Self)
        ensures
            r == (VideoFormat { width: 3840, height: 2160, ..spec_hd_5994() }),
    {
        VideoFormat { width: 3840, height: 2160, ..Self::hd_5994() }
    }

    pub fn uhd_5994_hdr10_pq() -> (r: Self)
        ensures
            r == (VideoFormat {
                width: 3840,
                height: 2160,
                color: ColorSpace::Bt2020Pq,
                bit_depth: 10,
                ..spec_hd_5994()
            }),
    {
        VideoFormat {
            width: 3840,
            height: 2160,
            color: ColorSpace::Bt2020Pq,
            bit_depth: 10,
            ..Self::hd_5994()
        }
    }

    pub fn uhd_5994_hlg() -> (r: Self)
        ensures
            r == (VideoFormat {
                width: 3840,
                height: 2160,
                color: ColorSpace::Bt2020Hlg,
                bit_depth: 10,
                ..spec_hd_5994()
            }),
    {
        VideoFormat {
            width: 3840,
            height: 2160,
            color: ColorSpace::Bt2020Hlg,
            bit_depth: 10,
            ..Self::hd_5994()
        }
    }

    pub fn hd_interlaced_5994(order: FieldOrder) -> (r: Self)
        ensures
            r == (VideoFormat { interlaced: true, field_order: Some(order), ..spec_hd_5994() }),
    {
        VideoFormat { interlaced: true, field_order: Some(order), ..Self::hd_5994() }
    }

    pub fn color_metadata(&self) -> (r: ColorMetadata)
        ensures
            r == spec_color_metadata(self.color),
    {
        self.color.metadata()
    }

    pub fn field_at(&self, boundary_index: u64) -> (r: FieldKind)
        ensures
            r == spec_field_at(self.field_order, boundary_index),
    {
        match self.field_order {
            None => FieldKind::Progressive,
            Some(FieldOrder::TopFieldFirst) => if boundary_index % 2 == 0 {
                FieldKind::Top
            } else {
                FieldKind::Bottom
            },
            Some(FieldOrder::BottomFieldFirst) => if boundary_index % 2 == 0 {
                FieldKind::Bottom
            } else {
                FieldKind::Top
            },
        }
    }

    pub fn is_baseline_1080p5994(&self) -> (r: bool)
        ensures
            r == spec_is_baseline_1080p5994(*self),
    {
        self.width == 1920 && self.height == 1080 && self.frame_rate == ntsc_5994() && self.color
            == ColorSpace::Bt709Sdr && !self.interlaced && self.field_order.is_none()
            && self.bit_depth == 8 && self.color_conversion == ColorConversionPolicy::Exact
    }

    pub fn is_cpu_reference_compatible(&self) -> (r: bool)
        ensures
            r == spec_is_cpu_reference_compatible(*self),
    {
        self.width <= 1920 && self.height <= 1080 && self.frame_rate == ntsc_5994() && self.color
            == ColorSpace::Bt709Sdr && !self.interlaced && self.field_order.is_none()
            && self.bit_depth == 8 && self.color_conversion == ColorConversionPolicy::Exact
    }

    /// Bytes of a working pixel: 16-bit float RGBA above 8 bits, else 8-bit RGBA.
    pub fn working_bytes_per_pixel(&self) -> (r: u64)
        ensures
            r == (if self.bit_depth > 8 {
                8u64
            } else {
                4u64
            }),
    {
        if self.bit_depth > 8 {
            8
        } else {
            4
        }
    }
}

/// The whole project. Each collection maps an entity's 128-bit id to the
/// entity.
#[derive(Debug, Clone)]
pub struct Project {
    pub schema_version: u32,
    pub id: ProjectId,
    pub name: String,
    pub video: VideoFormat,
    pub audio: AudioFormat,
    pub inputs: BTreeMap<u128, Input>,
    pub scenes: BTreeMap<u128, Scene>,
    pub mixing_units: BTreeMap<u128, MixingUnit>,
    pub outputs: BTreeMap<u128, Output>,
    pub multiviews: BTreeMap<u128, Multiview>,
    pub audio_matrix: AudioMatrix,
    pub device_bindings: BTreeMap<u128, DeviceBinding>,
    pub assets: BTreeMap<u128, AssetRef>,
    pub compositor: CompositorBackend,
    pub missing_media: MissingMediaPolicy,
    pub auxiliary_load_shedding: AuxiliaryLoadSheddingPolicy,
}

/// A project as `Project::new` makes it: the current schema, the baseline
/// video and default audio profiles, no inputs, scenes, multiviews, device
/// bindings or assets, the CPU reference compositor, slates for missing
/// media, no load shedding, and one mixing unit "Mix 1" whose only output
/// is its Program window.
pub open spec fn is_fresh_project(p: Project, name: Seq<char>) -> bool {
    let units = p.mixing_units@;
    let outputs = p.outputs@;
    &&& p.schema_version == SCHEMA_VERSION
    &&& p.name@ == name
    &&& p.video == spec_hd_5994()
    &&& p.audio == (AudioFormat {
        sample_rate: 48000,
        channels: 2,
        resampling: AudioResamplingPolicy::ExactRate,
    })
    &&& p.inputs@.is_empty()
    &&& p.scenes@.is_empty()
    &&& p.multiviews@.is_empty()
    &&& p.device_bindings@.is_empty()
    &&& p.assets@.is_empty()
    &&& p.compositor == CompositorBackend::CpuReference
    &&& p.missing_media == MissingMediaPolicy::Slate
    &&& p.auxiliary_load_shedding == AuxiliaryLoadSheddingPolicy::Disabled
    &&& units.len() == 1
    &&& outputs.len() == 1
    &&& exists|u: u128, o: u128|
        {
            &&& #[trigger] units.contains_key(u)
            &&& #[trigger] outputs.contains_key(o)
            &&& units[u].id.0 == u
            &&& units[u].name@ == "Mix 1"@
            &&& units[u].preview.scene is None
            &&& units[u].program.scene is None
            &&& units[u].overlays@.len() == 0
            &&& units[u].outputs@ == seq![OutputId(o)]
            &&& units[u].multiviews@.len() == 0
            &&& outputs[o].id.0 == o
            &&& outputs[o].name@ == "Program Window"@
            &&& outputs[o].owner.0 == u
            &&& outputs[o].video_source == OutputVideoSource::Program
            &&& outputs[o].kind == OutputKind::ProgramWindow
            &&& outputs[o].enabled
            &&& outputs[o].distribution is None
        }
}

impl Project {
    pub fn new(name: &str) -> (r: Self)
        ensures
            is_fresh_project(r, name@),
    {
        proof {
            lemma_keys_ordered();
        }
        let mut unit = MixingUnit::new("Mix 1");
        let output = Output {
            id: OutputId::new(),
            name: owned("Program Window"),
            owner: unit.id,
            video_source: OutputVideoSource::Program,
            kind: OutputKind::ProgramWindow,
            enabled: true,
            distribution: None,
        };
        let output_id = output.id;
        unit.outputs.push(output_id);
        let unit_key = unit.id.0;
        let mut outputs: BTreeMap<u128, Output> = BTreeMap::new();
        outputs.insert(output_id.0, output);
        let mut mixing_units: BTreeMap<u128, MixingUnit> = BTreeMap::new();
        mixing_units.insert(unit_key, unit);
        let r = Project {
            schema_version: SCHEMA_VERSION,
            id: ProjectId::new(),
            name: owned(name),
            video: VideoFormat::hd_5994(),
            audio: AudioFormat::default(),
            inputs: BTreeMap::new(),
            scenes: BTreeMap::new(),
            mixing_units,
            outputs,
            multiviews: BTreeMap::new(),
            audio_matrix: AudioMatrix::default(),
            device_bindings: BTreeMap::new(),
            assets: BTreeMap::new(),
            compositor: CompositorBackend::CpuReference,
            missing_media: MissingMediaPolicy::Slate,
            auxiliary_load_shedding: AuxiliaryLoadSheddingPolicy::Disabled,
        };
        proof {
            assert(r.mixing_units@.contains_key(unit_key));
            assert(r.outputs@.contains_key(output_id.0));
            assert(r.mixing_units@.dom() =~= set![unit_key]);
            assert(r.outputs@.dom() =~= set![output_id.0]);
            assert(r.mixing_units@.len() == 1);
            assert(r.outputs@.len() == 1);
            assert(r.mixing_units@[unit_key].outputs@ =~= seq![OutputId(output_id.0)]);
            assert(r.mixing_units@[unit_key].name@ == "Mix 1"@);
            assert(r.outputs@[output_id.0].owner.0 == unit_key);
            assert(r.outputs@[output_id.0].name@ == "Program Window"@);
        }
        r
    }
}

} // verus!
