use eiviz::domain::profile::FieldOrder;
use eiviz::domain::project::VideoFormat;
use eiviz::gpu::{AdapterCapabilities, ResourcePoolLimits, WgpuError};
use eiviz::domain::profile::{ColorConversionPolicy, ColorSpace};
use eiviz::pool::{
    is_ascending, key_label, snapshot_requirements, validate_plan, PoolFormat, Resident, ResourceKey, ResourceKind,
    ResourcePool,
};
use eiviz::render::{PixelFormat, RenderPlan};

fn empty_plan(width: u32, height: u32) -> RenderPlan {
    RenderPlan {
        width,
        height,
        output_format: PixelFormat::Rgba8,
        color: ColorSpace::Bt709Sdr.metadata(),
        field_order: None,
        color_conversion: ColorConversionPolicy::Exact,
        vram_bytes: RenderPlan::estimate_vram_bytes(width, height, PixelFormat::Rgba8, 0),
        layers: vec![],
    }
}

fn key(kind: ResourceKind, format: PoolFormat, side: u32) -> ResourceKey {
    ResourceKey { kind, format, width: side, height: side }
}

/// The keys a 16x16 (or other) snapshot prewarm asks for, in key order.
fn snapshot(side: u32) -> Vec<Resident> {
    vec![
        Resident { key: key(ResourceKind::Source, PoolFormat::Rgba8, side), count: 1 },
        Resident { key: key(ResourceKind::Output, PoolFormat::Rgba8, side), count: 2 },
        Resident { key: key(ResourceKind::Readback, PoolFormat::Rgba8, side), count: 1 },
    ]
}

fn prewarm(pool: &mut ResourcePool<u32>, required: &Vec<Resident>, next_id: &mut u32) {
    let additions = pool.prewarm_room(required).unwrap();
    for add in additions {
        for _ in 0..add.count {
            *next_id += 1;
            pool.admit_new(add.key, *next_id);
        }
    }
    pool.finish_prewarm();
}

#[test]
fn bounded_pool_evicts_oldest_idle_key_deterministically() {
    let mut pool: ResourcePool<u32> = ResourcePool::new(ResourcePoolLimits { max_bytes: 8 * 1024 * 1024, max_resources: 30 });
    let mut id = 0;
    prewarm(&mut pool, &snapshot_requirements(&vec![empty_plan(16, 16)], 16, 16, 0).unwrap(), &mut id);
    let first = pool.diagnostics();
    assert_eq!(first.resident_resources, first.idle_resources);
    assert!(first.resident_resources > 3);
    prewarm(&mut pool, &snapshot_requirements(&vec![empty_plan(32, 32)], 32, 32, 0).unwrap(), &mut id);
    let pool_after = pool.diagnostics();
    assert_eq!(pool_after.resident_resources, first.resident_resources);
    assert!(pool_after.evictions >= first.resident_resources as u64);
    assert!(pool_after.last_evicted.is_some(), "expected an eviction");
}

#[test]
fn small_pool_evicts_in_release_order() {
    let mut pool: ResourcePool<u32> = ResourcePool::new(ResourcePoolLimits { max_bytes: 8 * 1024 * 1024, max_resources: 4 });
    let mut id = 0;
    prewarm(&mut pool, &snapshot(16), &mut id);
    let first = pool.diagnostics();
    assert_eq!(first.resident_resources, 4);
    prewarm(&mut pool, &snapshot(32), &mut id);
    let after = pool.diagnostics();
    assert_eq!(after.resident_resources, first.resident_resources);
    assert_eq!(after.evictions, 4);
    assert_eq!(after.last_evicted.as_deref(), Some("Readback/Rgba8 16x16"));
    assert_eq!(after.prewarm_generations, 2);
}

#[test]
fn snapshot_requirements_list_rings_and_spares_in_key_order() {
    let required = snapshot_requirements(&vec![empty_plan(16, 16)], 16, 16, 0).unwrap();
    assert!(is_ascending(&required));
    assert_eq!(required.iter().map(|r| r.count).sum::<usize>(), 30);
    let count = |kind: ResourceKind, format: PoolFormat, w: u32, h: u32| {
        required.iter().find(|r| r.key == ResourceKey { kind, format, width: w, height: h }).map(|r| r.count)
    };
    assert_eq!(count(ResourceKind::Output, PoolFormat::Rgba8, 16, 16), Some(2));
    assert_eq!(count(ResourceKind::Readback, PoolFormat::Rg8, 8, 8), Some(3));
    assert_eq!(count(ResourceKind::Output, PoolFormat::Rgba8, 8, 16), Some(4));
    let two = snapshot_requirements(&vec![empty_plan(16, 16), empty_plan(16, 16)], 8, 8, 2).unwrap();
    let outputs = two.iter().find(|r| r.key == ResourceKey { kind: ResourceKind::Output, format: PoolFormat::Rgba8, width: 16, height: 16 });
    assert_eq!(outputs.map(|r| r.count), Some(3));
    assert_eq!(two.iter().filter(|r| r.key.kind == ResourceKind::Source && r.count == 2).count(), 5);
    assert!(matches!(
        snapshot_requirements(&vec![empty_plan(16, 16), empty_plan(0, 16)], 16, 16, 0),
        Err(WgpuError::InvalidPlan(m)) if m == "zero-sized output"
    ));
    assert!(validate_plan(&empty_plan(u32::MAX, 1)).is_err());
}

#[test]
fn prewarm_rejects_snapshot_over_pool_limit() {
    let mut pool: ResourcePool<u32> = ResourcePool::new(ResourcePoolLimits { max_bytes: 1, max_resources: 1 });
    let required = snapshot_requirements(&vec![empty_plan(16, 16)], 16, 16, 0).unwrap();
    assert!(matches!(pool.prewarm_room(&required), Err(WgpuError::PoolLimit { .. })));
    assert_eq!(pool.diagnostics().allocations, 0);
}

#[test]
fn frame_never_allocates_an_unprepared_resource() {
    let mut pool: ResourcePool<u32> = ResourcePool::new(ResourcePoolLimits::default());
    let error = pool.acquire(key(ResourceKind::Output, PoolFormat::Rgba8, 16)).unwrap_err();
    assert_eq!(error, WgpuError::UnpreparedResource("Output/Rgba8 16x16".to_string()));
    let d = pool.diagnostics();
    assert_eq!(d.allocations, 0);
    assert_eq!(d.acquisition_misses, 1);
}

#[test]
fn acquire_takes_the_oldest_idle_of_its_key_and_release_returns_it() {
    let mut pool: ResourcePool<u32> = ResourcePool::new(ResourcePoolLimits::default());
    let out = key(ResourceKind::Output, PoolFormat::Rgba8, 16);
    let src = key(ResourceKind::Source, PoolFormat::Nv12, 16);
    assert_eq!(pool.ensure_resident(out, 2).unwrap(), 2);
    pool.admit_new(out, 10);
    pool.admit_new(out, 11);
    assert_eq!(pool.ensure_resident(src, 1).unwrap(), 1);
    pool.admit_new(src, 20);
    assert_eq!(pool.ensure_resident(out, 2).unwrap(), 0);
    assert_eq!(pool.acquire(out).unwrap(), 10);
    assert_eq!(pool.acquire(out).unwrap(), 11);
    assert!(pool.acquire(out).is_err());
    pool.release(out, 10);
    assert_eq!(pool.acquire(out).unwrap(), 10);
    let d = pool.diagnostics();
    assert_eq!(d.reuses, 3);
    assert_eq!(d.output_resources, 2);
    assert_eq!(d.source_resources, 1);
    assert_eq!(d.idle_resources, 1);
}

#[test]
fn eviction_spares_what_is_required() {
    let mut pool: ResourcePool<u32> = ResourcePool::new(ResourcePoolLimits { max_bytes: u64::MAX, max_resources: 2 });
    let a = key(ResourceKind::Output, PoolFormat::Rgba8, 8);
    let b = key(ResourceKind::Output, PoolFormat::Bgra8, 8);
    pool.ensure_resident(a, 1).unwrap();
    pool.admit_new(a, 1);
    pool.ensure_resident(b, 1).unwrap();
    pool.admit_new(b, 2);
    // Making room for one more `a` must evict `b`, the only unprotected one.
    assert_eq!(pool.ensure_resident(a, 2).unwrap(), 1);
    assert_eq!(pool.resident_count(a), 1);
    assert_eq!(pool.resident_count(b), 0);
    assert_eq!(pool.diagnostics().last_evicted.as_deref(), Some("Output/Bgra8 8x8"));
    // With every resident resource leased, nothing can go.
    pool.admit_new(a, 3);
    assert_eq!(pool.acquire(a).unwrap(), 1);
    assert_eq!(pool.acquire(a).unwrap(), 3);
    let err = pool.ensure_resident(ResourceKey { kind: ResourceKind::Readback, ..a }, 1).unwrap_err();
    assert!(matches!(err, WgpuError::PoolLimit { required_resources: 3, limit_resources: 2, .. }));
    assert_eq!(pool.resident_count(a), 2);
}

#[test]
fn key_bytes_follow_layout() {
    assert_eq!(key(ResourceKind::Output, PoolFormat::Rgba8, 16).bytes(), 16 * 16 * 4);
    assert_eq!(key(ResourceKind::Source, PoolFormat::Rgba8, 16).bytes(), 16 * 16 * 4 + 80);
    assert_eq!(key(ResourceKind::Source, PoolFormat::Nv12, 16).bytes(), 16 * 16 + 8 * 2 * 8 + 80);
    assert_eq!(key(ResourceKind::Source, PoolFormat::P010, 16).bytes(), 16 * 16 * 2 + 8 * 4 * 8 + 80);
    assert_eq!(key(ResourceKind::Readback, PoolFormat::Rgba8, 16).bytes(), 256 * 16);
    assert_eq!(key(ResourceKind::Readback, PoolFormat::Rgba8, 100).bytes(), 512 * 100);
    assert_eq!(key(ResourceKind::Output, PoolFormat::Rgba16Float, u32::MAX).bytes(), u64::MAX);
    assert_eq!(key_label(key(ResourceKind::Source, PoolFormat::P010, 7)), "Source/P010 7x7");
    assert!(is_ascending(&snapshot(16)));
    let mut reversed = snapshot(16);
    reversed.reverse();
    assert!(!is_ascending(&reversed));
}

#[test]
fn adapter_profile_rejection_is_explicit() {
    let capabilities = AdapterCapabilities {
        max_texture_dimension_2d: 4096,
        max_buffer_size: 256 * 1024 * 1024,
        rgba16_float_renderable: false,
        rgba16_float_filterable: false,
        rgba32_float_sampleable: false,
    };
    assert!(matches!(
        capabilities.admit_video_format(&VideoFormat::uhd_5994_hdr10_pq()),
        Err(WgpuError::UnsupportedProfile(_))
    ));
    capabilities.admit_video_format(&VideoFormat::uhd_5994_sdr()).unwrap();
}

#[test]
fn adapter_admission_is_explicit() {
    let caps = AdapterCapabilities {
        max_texture_dimension_2d: 4096,
        max_buffer_size: 256,
        rgba16_float_renderable: true,
        rgba16_float_filterable: false,
        rgba32_float_sampleable: true,
    };
    assert!(caps.admit_video_format(&VideoFormat::hd_5994()).is_ok());
    let mut big = VideoFormat::hd_5994();
    big.width = 8192;
    assert_eq!(
        caps.admit_video_format(&big).unwrap_err(),
        WgpuError::UnsupportedProfile("8192x1080 exceeds adapter max texture dimension 4096".to_string())
    );
    assert_eq!(
        caps.admit_video_format(&VideoFormat::uhd_5994_hdr10_pq()).unwrap_err(),
        WgpuError::UnsupportedProfile("10-bit/HDR requires renderable and filterable RGBA16Float".to_string())
    );
    assert!(caps.admit_video_format(&VideoFormat::hd_interlaced_5994(FieldOrder::TopFieldFirst)).is_ok());
}
