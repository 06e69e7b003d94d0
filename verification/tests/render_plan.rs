use eiviz::domain::ids::{InputId, OverlayId, SceneId, SceneItemId};
use eiviz::domain::input::Playback;
use eiviz::domain::mixing::{MixingUnit, OverlaySlot};
use eiviz::domain::profile::{CompositorBackend, FieldKind, FieldOrder, TransferFunction};
use eiviz::domain::project::{Project, VideoFormat};
use eiviz::domain::scene::{Scene, SceneItem, Transform2D};
use eiviz::render::{plan_preview, plan_program, stable_order_of, PixelFormat, RenderPlan};

fn first_unit(p: &Project) -> MixingUnit {
    p.mixing_units.values().next().unwrap().clone()
}

fn item(input: InputId, z_order: i32) -> SceneItem {
    SceneItem {
        id: SceneItemId::new(),
        input,
        transform: Transform2D::fullscreen(),
        z_order,
        playback: Playback::default(),
    }
}

fn add_scene(p: &mut Project, items: Vec<SceneItem>) -> SceneId {
    let scene = Scene { id: SceneId::new(), name: "s".into(), items };
    let id = scene.id;
    p.scenes.insert(id.0, scene);
    id
}

#[test]
fn extended_render_plan_carries_format_field_and_vram_contract() {
    let mut project = Project::new("extended plan");
    project.compositor = CompositorBackend::Wgpu;
    project.video = VideoFormat::uhd_5994_hdr10_pq();
    let unit = first_unit(&project);
    let plan = plan_program(&project, &unit);
    assert_eq!(plan.output_format, PixelFormat::Rgba16Float);
    assert_eq!(plan.color.transfer, TransferFunction::Pq);
    assert_eq!(plan.field_at(1_000_000), FieldKind::Progressive);
    assert_eq!(plan.vram_bytes, 3840_u64 * 2160 * 8 * 2, "empty plan retains output and staging surfaces");

    project.video = VideoFormat::hd_interlaced_5994(FieldOrder::TopFieldFirst);
    let field_plan = plan_program(&project, &unit);
    assert_eq!(field_plan.field_at(0), FieldKind::Top);
    assert_eq!(field_plan.field_at(1), FieldKind::Bottom);
}

#[test]
fn layers_follow_z_and_keep_list_order_on_ties() {
    let mut p = Project::new("z");
    let (a, b, c) = (InputId::new(), InputId::new(), InputId::new());
    let scene = add_scene(&mut p, vec![item(a, 5), item(b, -1), item(c, 5)]);
    let mut unit = first_unit(&p);
    unit.program.scene = Some(scene);
    let plan = plan_program(&p, &unit);
    let order: Vec<InputId> = plan.layers.iter().map(|l| l.input).collect();
    assert_eq!(order, vec![b, a, c]);
    assert_eq!(plan.output_format, PixelFormat::Rgba8);
    assert_eq!(plan.vram_bytes, 1920_u64 * 1080 * 4 * 5);
}

#[test]
fn hidden_items_are_not_layers() {
    let mut p = Project::new("hidden");
    let (a, b) = (InputId::new(), InputId::new());
    let mut hidden = item(b, 1);
    hidden.transform.opacity = 0;
    let scene = add_scene(&mut p, vec![item(a, 0), hidden]);
    let mut unit = first_unit(&p);
    unit.preview.scene = Some(scene);
    let plan = plan_preview(&p, &unit);
    assert_eq!(plan.layers.len(), 1);
    assert_eq!(plan.layers[0].input, a);
    assert_eq!(plan.layers[0].opacity, 0x3f80_0000);
}

#[test]
fn overlays_ride_on_program_only() {
    let mut p = Project::new("overlays");
    let (base, top, low, off) = (InputId::new(), InputId::new(), InputId::new(), InputId::new());
    let main = add_scene(&mut p, vec![item(base, 0)]);
    let top_scene = add_scene(&mut p, vec![item(top, 0)]);
    let low_scene = add_scene(&mut p, vec![item(low, 0)]);
    let off_scene = add_scene(&mut p, vec![item(off, 0)]);
    let mut unit = first_unit(&p);
    unit.program.scene = Some(main);
    unit.preview.scene = Some(main);
    let slot = |scene: SceneId, enabled: bool, z_order: i32| OverlaySlot {
        id: OverlayId::new(),
        name: "o".into(),
        scene: Some(scene),
        enabled,
        z_order,
    };
    unit.overlays = vec![slot(top_scene, true, 9), slot(off_scene, false, 0), slot(low_scene, true, 1)];
    let program: Vec<InputId> = plan_program(&p, &unit).layers.iter().map(|l| l.input).collect();
    assert_eq!(program, vec![base, low, top]);
    let preview = plan_preview(&p, &unit);
    assert_eq!(preview.layers.len(), 1);
}

#[test]
fn unknown_scene_plans_no_layers() {
    let p = Project::new("unknown");
    let mut unit = first_unit(&p);
    unit.program.scene = Some(SceneId::new());
    assert!(plan_program(&p, &unit).layers.is_empty());
}

#[test]
fn vram_estimate_saturates_and_orders_are_stable() {
    assert_eq!(RenderPlan::estimate_vram_bytes(16, 16, PixelFormat::Rgba8, 1), 16 * 16 * 4 * 3);
    assert_eq!(RenderPlan::estimate_vram_bytes(u32::MAX, u32::MAX, PixelFormat::Rgba16Float, 3), u64::MAX);
    assert_eq!(PixelFormat::Rgba16Float.frame_bytes(u32::MAX, u32::MAX), None);
    assert_eq!(stable_order_of(&vec![3, 1, 3, 0, 1]), vec![3, 1, 4, 0, 2]);
}

#[test]
fn color_bars_fill_eight_stripes() {
    let frame = eiviz::render::color_bars(7, 16, 2);
    assert_eq!((frame.id, frame.width, frame.height), (7, 16, 2));
    assert_eq!(frame.data.len(), 16 * 2 * 4);
    let pixel = |x: usize, y: usize| frame.data[(y * 16 + x) * 4..(y * 16 + x) * 4 + 4].to_vec();
    assert_eq!(pixel(0, 0), vec![192, 192, 192, 255]);
    assert_eq!(pixel(2, 1), vec![192, 192, 0, 255]);
    assert_eq!(pixel(10, 0), vec![192, 0, 0, 255]);
    assert_eq!(pixel(15, 1), vec![0, 0, 0, 255]);
    let narrow = eiviz::render::color_bars(0, 3, 1);
    assert_eq!(narrow.data, vec![192, 192, 192, 255, 192, 192, 0, 255, 0, 192, 192, 255]);
}
