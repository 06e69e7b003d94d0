use eiviz::pool::PoolFormat;
use eiviz::readback::{readback_planes, EgressFormat, ReadbackPlane};
use eiviz::render::PixelFormat;

#[test]
fn planes_follow_the_egress_format() {
    let rgba = readback_planes(EgressFormat::Rgba8, PixelFormat::Rgba8, 1920, 1080).unwrap();
    assert_eq!(rgba, vec![ReadbackPlane { format: PoolFormat::Rgba8, width: 1920, height: 1080, bytes_per_pixel: 4 }]);
    let nv12 = readback_planes(EgressFormat::Nv12, PixelFormat::Rgba8, 1, 1081).unwrap();
    assert_eq!(nv12.len(), 2);
    assert_eq!(nv12[0], ReadbackPlane { format: PoolFormat::R8, width: 1, height: 1081, bytes_per_pixel: 1 });
    assert_eq!(nv12[1], ReadbackPlane { format: PoolFormat::Rg8, width: 1, height: 540, bytes_per_pixel: 2 });
    let uyvy = readback_planes(EgressFormat::Uyvy, PixelFormat::Rgba16Float, 1920, 1080).unwrap();
    assert_eq!(uyvy, vec![ReadbackPlane { format: PoolFormat::Rgba8, width: 960, height: 1080, bytes_per_pixel: 4 }]);
    let bgra = readback_planes(EgressFormat::Bgra8, PixelFormat::Rgba16Float, 8, 8).unwrap();
    assert_eq!(bgra[0].format, PoolFormat::Bgra8);
}

#[test]
fn odd_uyvy_and_unsupported_formats_are_refused() {
    assert_eq!(readback_planes(EgressFormat::Uyvy, PixelFormat::Rgba8, 1921, 1080).unwrap_err(), "UYVY egress requires even width");
    assert_eq!(readback_planes(EgressFormat::Uyvy, PixelFormat::Rgba8, 0, 1080).unwrap_err(), "UYVY egress requires even width");
    assert_eq!(readback_planes(EgressFormat::P010, PixelFormat::Rgba8, 8, 8).unwrap_err(), "unsupported egress format P010");
    assert_eq!(readback_planes(EgressFormat::Rgba8, PixelFormat::Rgba16Float, 8, 8).unwrap_err(), "unsupported egress format Rgba8");
}
