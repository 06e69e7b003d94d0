//! GPU-side generators, adapter limits and compositor diagnostics.

use vstd::prelude::*;

use crate::domain::project::VideoFormat;
use crate::text::{decimal, owned, spec_decimal};

verus! {

#[derive(Debug, Clone, PartialEq, Eq)]
pub enum GpuError {
    MissingSource(String),
    Other(String),
}

/// Why the compositor refused a profile or a resource request.
#[derive(Debug, Clone, PartialEq, Eq)]
pub enum WgpuError {
    InvalidPlan(String),
    UnsupportedProfile(String),
    UnpreparedResource(String),
    PoolLimit { required_bytes: u64, required_resources: usize, limit_bytes: u64, limit_resources: usize },
}

/// GPU-resident generator. No CPU pixel buffer is created.
#[derive(Debug, Clone, Copy, PartialEq, Eq)]
pub enum GpuFill {
    Solid { rgba: [u8; 4] },
    ColorBars,
}

#[derive(Debug, Clone, Copy, PartialEq, Eq, Structural)]
pub struct AdapterCapabilities {
    pub max_texture_dimension_2d: u32,
    pub max_buffer_size: u64,
    pub rgba16_float_renderable: bool,
    pub rgba16_float_filterable: bool,
    pub rgba32_float_sampleable: bool,
}

/// Why an adapter cannot render a video profile, if it cannot: a canvas
/// larger than its textures, or 10 bits without renderable and filterable
/// half-float textures.
pub open spec fn admission_issue(caps: AdapterCapabilities, format: VideoFormat) -> Option<Seq<char>> {
    if format.width > caps.max_texture_dimension_2d || format.height > caps.max_texture_dimension_2d {
        Some(
            spec_decimal(format.width as nat) + "x"@ + spec_decimal(format.height as nat)
                + " exceeds adapter max texture dimension "@ + spec_decimal(caps.max_texture_dimension_2d as nat),
        )
    } else if format.bit_depth == 10 && (!caps.rgba16_float_renderable || !caps.rgba16_float_filterable) {
        Some("10-bit/HDR requires renderable and filterable RGBA16Float"@)
    } else {
        None
    }
}

impl AdapterCapabilities {
    pub fn admit_video_format(&self, format: &VideoFormat) -> (r: Result<(), WgpuError>)
        ensures
            match admission_issue(*self, *format) {
                None => r is Ok,
                Some(m) => r matches Err(WgpuError::UnsupportedProfile(x)) && x@ == m,
            },
    {
        if format.width > self.max_texture_dimension_2d || format.height > self.max_texture_dimension_2d {
            let mut m = decimal(format.width as u64);
            m.append("x");
            let h = decimal(format.height as u64);
            m.append(h.as_str());
            m.append(" exceeds adapter max texture dimension ");
            let d = decimal(self.max_texture_dimension_2d as u64);
            m.append(d.as_str());
            return Err(WgpuError::UnsupportedProfile(m));
        }
        if format.bit_depth == 10 && (!self.rgba16_float_renderable || !self.rgba16_float_filterable) {
            return Err(WgpuError::UnsupportedProfile(owned("10-bit/HDR requires renderable and filterable RGBA16Float")));
        }
        Ok(())
    }
}

/// Hard bounds for all reusable compositor allocations.
#[derive(Debug, Clone, Copy, PartialEq, Eq, Structural)]
pub struct ResourcePoolLimits {
    pub max_bytes: u64,
    pub max_resources: usize,
}

impl Default for ResourcePoolLimits {
    /// 2 GiB in at most 16384 resources.
    fn default() -> (r: Self)
        ensures
            r == (ResourcePoolLimits { max_bytes: 2_147_483_648, max_resources: 16_384 }),
    {
        ResourcePoolLimits { max_bytes: 2_147_483_648, max_resources: 16_384 }
    }
}

#[derive(Debug, Clone, PartialEq, Eq)]
pub struct ResourcePoolDiagnostics {
    pub limit_bytes: u64,
    pub limit_resources: usize,
    pub resident_bytes: u64,
    pub resident_resources: usize,
    pub idle_resources: usize,
    pub source_resources: usize,
    pub output_resources: usize,
    pub readback_resources: usize,
    pub allocations: u64,
    pub reuses: u64,
    pub evictions: u64,
    pub acquisition_misses: u64,
    pub prewarm_generations: u64,
    pub last_evicted: Option<String>,
}

impl Default for ResourcePoolDiagnostics {
    fn default() -> (r: Self)
        ensures
            r.limit_bytes == 0 && r.limit_resources == 0 && r.resident_bytes == 0
                && r.resident_resources == 0 && r.idle_resources == 0 && r.source_resources == 0
                && r.output_resources == 0 && r.readback_resources == 0 && r.allocations == 0
                && r.reuses == 0 && r.evictions == 0 && r.acquisition_misses == 0
                && r.prewarm_generations == 0 && r.last_evicted is None,
    {
        ResourcePoolDiagnostics {
            limit_bytes: 0,
            limit_resources: 0,
            resident_bytes: 0,
            resident_resources: 0,
            idle_resources: 0,
            source_resources: 0,
            output_resources: 0,
            readback_resources: 0,
            allocations: 0,
            reuses: 0,
            evictions: 0,
            acquisition_misses: 0,
            prewarm_generations: 0,
            last_evicted: None,
        }
    }
}

#[derive(Debug, Clone, PartialEq, Eq)]
pub struct DeviceLossReport {
    pub reason: String,
    pub message: String,
}

#[derive(Debug, Clone, PartialEq, Eq)]
pub struct WgpuDiagnostics {
    pub readbacks: u64,
    pub pass_nanos: u64,
    pub pass_total_nanos: u64,
    pub pass_max_nanos: u64,
    pub readback_nanos: u64,
    pub readback_max_nanos: u64,
    /// Blocking device polls. Construction and prewarm may increment this;
    /// the live composite/readback path must not.
    pub wait_polls: u64,
    pub device_loss: Option<DeviceLossReport>,
    /// Device recreation is owned by the caller that supplied the device.
    pub automatic_recovery: bool,
    pub pool: ResourcePoolDiagnostics,
}

impl Default for WgpuDiagnostics {
    fn default() -> (r: Self)
        ensures
            r.readbacks == 0 && r.pass_nanos == 0 && r.pass_total_nanos == 0 && r.pass_max_nanos == 0
                && r.readback_nanos == 0 && r.readback_max_nanos == 0 && r.wait_polls == 0
                && r.device_loss is None && !r.automatic_recovery && r.pool.allocations == 0,
    {
        WgpuDiagnostics {
            readbacks: 0,
            pass_nanos: 0,
            pass_total_nanos: 0,
            pass_max_nanos: 0,
            readback_nanos: 0,
            readback_max_nanos: 0,
            wait_polls: 0,
            device_loss: None,
            automatic_recovery: false,
            pool: ResourcePoolDiagnostics::default(),
        }
    }
}

} // verus!
