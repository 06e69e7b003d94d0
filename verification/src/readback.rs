//! Readback of a composited frame: which planes an egress pixel format is
//! copied out as, each with its pooled format, size and bytes per pixel.

use vstd::prelude::*;

use crate::pool::PoolFormat;
use crate::render::PixelFormat;
use crate::text::owned;

verus! {

/// Pixel layouts a frame can leave the compositor in.
#[derive(Debug, Clone, Copy, PartialEq, Eq, Structural)]
pub enum EgressFormat {
    Rgba8,
    Rgba16Float,
    Bgra8,
    Nv12,
    Uyvy,
    P010,
    P216,
}

/// One plane copied out of the GPU for a readback.
#[derive(Debug, Clone, Copy, PartialEq, Eq, Structural)]
pub struct ReadbackPlane {
    pub format: PoolFormat,
    pub width: u32,
    pub height: u32,
    pub bytes_per_pixel: u64,
}

pub open spec fn egress_name(f: EgressFormat) -> Seq<char> {
    match f {
        EgressFormat::Rgba8 => "Rgba8"@,
        EgressFormat::Rgba16Float => "Rgba16Float"@,
        EgressFormat::Bgra8 => "Bgra8"@,
        EgressFormat::Nv12 => "Nv12"@,
        EgressFormat::Uyvy => "Uyvy"@,
        EgressFormat::P010 => "P010"@,
        EgressFormat::P216 => "P216"@,
    }
}

fn egress_name_text(f: EgressFormat) -> (r: String)
    ensures
        r@ == egress_name(f),
{
    match f {
        EgressFormat::Rgba8 => owned("Rgba8"),
        EgressFormat::Rgba16Float => owned("Rgba16Float"),
        EgressFormat::Bgra8 => owned("Bgra8"),
        EgressFormat::Nv12 => owned("Nv12"),
        EgressFormat::Uyvy => owned("Uyvy"),
        EgressFormat::P010 => owned("P010"),
        EgressFormat::P216 => owned("P216"),
    }
}

pub open spec fn half_at_least_one(v: u32) -> u32 {
    if v / 2 == 0 {
        1
    } else {
        (v / 2) as u32
    }
}

/// The planes a readback copies out, or why the egress format cannot be
/// read back from a frame rendered as `frame`: RGBA formats are copied as
/// they are when the frame has that format; BGRA is one converted plane;
/// NV12 a full-size luma plane and a half-size (at least 1) chroma plane;
/// UYVY one packed plane of half the width, which must be even and at
/// least 2; anything else is unsupported.
pub open spec fn spec_readback_planes(egress: EgressFormat, frame: PixelFormat, width: u32, height: u32) -> Result<
    Seq<ReadbackPlane>,
    Seq<char>,
> {
    match egress {
        EgressFormat::Rgba8 if frame == PixelFormat::Rgba8 => Ok(
            seq![ReadbackPlane { format: PoolFormat::Rgba8, width, height, bytes_per_pixel: 4 }],
        ),
        EgressFormat::Rgba16Float if frame == PixelFormat::Rgba16Float => Ok(
            seq![ReadbackPlane { format: PoolFormat::Rgba16Float, width, height, bytes_per_pixel: 8 }],
        ),
        EgressFormat::Bgra8 => Ok(seq![ReadbackPlane { format: PoolFormat::Bgra8, width, height, bytes_per_pixel: 4 }]),
        EgressFormat::Nv12 => Ok(
            seq![
                ReadbackPlane { format: PoolFormat::R8, width, height, bytes_per_pixel: 1 },
                ReadbackPlane {
                    format: PoolFormat::Rg8,
                    width: half_at_least_one(width),
                    height: half_at_least_one(height),
                    bytes_per_pixel: 2,
                },
            ],
        ),
        EgressFormat::Uyvy => if width < 2 || width % 2 != 0 {
            Err("UYVY egress requires even width"@)
        } else {
            Ok(seq![ReadbackPlane { format: PoolFormat::Rgba8, width: (width / 2) as u32, height, bytes_per_pixel: 4 }])
        },
        _ => Err("unsupported egress format "@ + egress_name(egress)),
    }
}

fn half_or_one(v: u32) -> (r: u32)
    ensures
        r == half_at_least_one(v),
{
    if v / 2 == 0 {
        1
    } else {
        v / 2
    }
}

pub fn readback_planes(egress: EgressFormat, frame: PixelFormat, width: u32, height: u32) -> (r: Result<
    Vec<ReadbackPlane>,
    String,
>)
    ensures
        match spec_readback_planes(egress, frame, width, height) {
            Ok(p) => r matches Ok(v) && v@ == p,
            Err(m) => r matches Err(x) && x@ == m,
        },
{
    let mut planes: Vec<ReadbackPlane> = Vec::new();
    match egress {
        EgressFormat::Rgba8 if frame == PixelFormat::Rgba8 => {
            planes.push(ReadbackPlane { format: PoolFormat::Rgba8, width, height, bytes_per_pixel: 4 });
        },
        EgressFormat::Rgba16Float if frame == PixelFormat::Rgba16Float => {
            planes.push(ReadbackPlane { format: PoolFormat::Rgba16Float, width, height, bytes_per_pixel: 8 });
        },
        EgressFormat::Bgra8 => {
            planes.push(ReadbackPlane { format: PoolFormat::Bgra8, width, height, bytes_per_pixel: 4 });
        },
        EgressFormat::Nv12 => {
            planes.push(ReadbackPlane { format: PoolFormat::R8, width, height, bytes_per_pixel: 1 });
            planes.push(
                ReadbackPlane {
                    format: PoolFormat::Rg8,
                    width: half_or_one(width),
                    height: half_or_one(height),
                    bytes_per_pixel: 2,
                },
            );
        },
        EgressFormat::Uyvy => {
            if width < 2 || width % 2 != 0 {
                return Err(owned("UYVY egress requires even width"));
            }
            planes.push(ReadbackPlane { format: PoolFormat::Rgba8, width: width / 2, height, bytes_per_pixel: 4 });
        },
        _ => {
            let mut m = owned("unsupported egress format ");
            let name = egress_name_text(egress);
            m.append(name.as_str());
            return Err(m);
        },
    }
    assert(planes@ =~= spec_readback_planes(egress, frame, width, height)->Ok_0);
    Ok(planes)
}

} // verus!
