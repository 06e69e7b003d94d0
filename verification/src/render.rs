//! Render plans: the layers a unit's Program or Preview bus composites,
//! back to front, with the output surface and the memory budget it needs.

use vstd::prelude::*;

use crate::domain::ids::{InputId, SceneId};
use crate::domain::mixing::{MixingUnit, OverlaySlot};
use crate::domain::profile::{spec_color_metadata, ColorConversionPolicy, ColorMetadata, FieldKind, FieldOrder};
use crate::domain::project::{spec_field_at, Project};
use crate::domain::scene::{spec_visible, Scene, SceneItem, Transform2D};

verus! {

broadcast use vstd::std_specs::btree::group_btree_axioms;

/// Pixel layout of a rendered surface.
#[derive(Debug, Clone, Copy, PartialEq, Eq, Structural)]
pub enum PixelFormat {
    Rgba8,
    Rgba16Float,
}

pub open spec fn spec_bytes_per_pixel(f: PixelFormat) -> u64 {
    match f {
        PixelFormat::Rgba8 => 4,
        PixelFormat::Rgba16Float => 8,
    }
}

/// Bytes of one `width` x `height` frame, when that fits in 64 bits.
pub open spec fn spec_frame_bytes(f: PixelFormat, width: u32, height: u32) -> Option<u64> {
    let n = width * height * spec_bytes_per_pixel(f);
    if n <= u64::MAX {
        Some(n as u64)
    } else {
        None
    }
}

impl PixelFormat {
    pub fn bytes_per_pixel(self) -> (r: u64)
        ensures
            r == spec_bytes_per_pixel(self),
    {
        match self {
            PixelFormat::Rgba8 => 4,
            PixelFormat::Rgba16Float => 8,
        }
    }

    pub fn frame_bytes(self, width: u32, height: u32) -> (r: Option<u64>)
        ensures
            r == spec_frame_bytes(self, width, height),
    {
        proof {
            assert(width * height <= 0xffff_ffffu64 * 0xffff_ffffu64) by (nonlinear_arith)
                requires
                    width <= 0xffff_ffffu64,
                    height <= 0xffff_ffffu64,
            ;
        }
        let pixels = (width as u64) * (height as u64);
        pixels.checked_mul(self.bytes_per_pixel())
    }
}

/// One layer of a plan: the input it shows, where, and how opaque (an
/// `f32` bit pattern).
#[derive(Debug, Clone, Copy, PartialEq, Eq, Structural)]
pub struct Layer {
    pub input: InputId,
    pub transform: Transform2D,
    pub opacity: u32,
}

/// What a compositor renders for one bus.
#[derive(Debug, Clone)]
pub struct RenderPlan {
    pub width: u32,
    pub height: u32,
    pub output_format: PixelFormat,
    pub color: ColorMetadata,
    pub field_order: Option<FieldOrder>,
    pub color_conversion: ColorConversionPolicy,
    /// Conservative resident bytes for the output, the source uploads and
    /// one readback surface; admission compares this before activation.
    pub vram_bytes: u64,
    pub layers: Vec<Layer>,
}

/// Resident bytes for `layer_count` sources plus the output and one
/// staging surface, at most `u64::MAX`; a frame too large to count counts
/// as `u64::MAX`.
pub open spec fn spec_vram_bytes(width: u32, height: u32, f: PixelFormat, layer_count: nat) -> u64 {
    let surface: int = match spec_frame_bytes(f, width, height) {
        Some(b) => b as int,
        None => u64::MAX as int,
    };
    let total = surface * (layer_count + 2);
    if total > u64::MAX {
        u64::MAX
    } else {
        total as u64
    }
}

impl RenderPlan {
    pub fn estimate_vram_bytes(width: u32, height: u32, output_format: PixelFormat, layer_count: usize) -> (r: u64)
        ensures
            r == spec_vram_bytes(width, height, output_format, layer_count as nat),
    {
        let surface = match output_format.frame_bytes(width, height) {
            Some(b) => b,
            None => u64::MAX,
        };
        if (layer_count as u64) > u64::MAX - 2 {
            proof {
                if surface > 0 {
                    assert(surface * (layer_count + 2) >= layer_count + 2) by (nonlinear_arith)
                        requires
                            surface >= 1,
                            layer_count >= 0,
                    ;
                }
            }
            return if surface == 0 {
                0
            } else {
                u64::MAX
            };
        }
        match surface.checked_mul(layer_count as u64 + 2) {
            Some(total) => total,
            None => u64::MAX,
        }
    }

    /// The field a frame boundary carries under the plan's field order.
    pub fn field_at(&self, boundary_index: u64) -> (r: FieldKind)
        ensures
            r == spec_field_at(self.field_order, boundary_index),
    {
        match self.field_order {
            None => FieldKind::Progressive,
            Some(FieldOrder::TopFieldFirst) => if boundary_index % 2 == 0 {
                FieldKind::Top
            } else {
                FieldKind::Bottom
            },
            Some(FieldOrder::BottomFieldFirst) => if boundary_index % 2 == 0 {
                FieldKind::Bottom
            } else {
                FieldKind::Top
            },
        }
    }
}

// ---- Stable ordering by z ----

/// `order` with index `j` inserted after every entry whose key is not
/// greater than `keys[j]`, scanning from the back.
pub open spec fn insert_by_key(order: Seq<int>, keys: Seq<i32>, j: int) -> Seq<int>
    decreases order.len(),
{
    if order.len() == 0 {
        seq![j]
    } else if keys[order.last()] <= keys[j] {
        order.push(j)
    } else {
        insert_by_key(order.drop_last(), keys, j).push(order.last())
    }
}

/// The indices `0..n` ordered by key, equal keys keeping their order: a
/// stable sort by key.
pub open spec fn stable_order(keys: Seq<i32>, n: nat) -> Seq<int>
    decreases n,
{
    if n == 0 {
        Seq::empty()
    } else {
        insert_by_key(stable_order(keys, (n - 1) as nat), keys, n - 1)
    }
}

/// Inserting past a suffix of greater keys is inserting into what stays
/// before it.
proof fn lemma_insert_split(order: Seq<int>, keys: Seq<i32>, j: int, p: int)
    requires
        0 <= p <= order.len(),
        forall|q: int| p <= q < order.len() ==> 0 <= #[trigger] order[q] < keys.len() && keys[order[q]] > keys[j],
    ensures
        insert_by_key(order, keys, j) == insert_by_key(order.take(p), keys, j) + order.skip(p),
    decreases order.len() - p,
{
    if p == order.len() {
        assert(order.take(p) =~= order);
        assert(order.skip(p) =~= Seq::<int>::empty());
        assert(insert_by_key(order.take(p), keys, j) + order.skip(p) =~= insert_by_key(order, keys, j));
    } else {
        lemma_insert_split(order, keys, j, p + 1);
        let t = order.take(p + 1);
        assert(t.last() == order[p]);
        assert(t.drop_last() =~= order.take(p));
        assert(insert_by_key(t, keys, j) == insert_by_key(order.take(p), keys, j).push(order[p]));
        assert(insert_by_key(order.take(p), keys, j).push(order[p]) + order.skip(p + 1) =~= insert_by_key(
            order.take(p),
            keys,
            j,
        ) + order.skip(p));
    }
}

proof fn lemma_insert_bounds(order: Seq<int>, keys: Seq<i32>, j: int, n: int)
    requires
        forall|q: int| 0 <= q < order.len() ==> 0 <= #[trigger] order[q] < n,
        0 <= j < n,
    ensures
        insert_by_key(order, keys, j).len() == order.len() + 1,
        forall|q: int| 0 <= q < order.len() + 1 ==> 0 <= #[trigger] insert_by_key(order, keys, j)[q] < n,
    decreases order.len(),
{
    if order.len() > 0 && !(keys[order.last()] <= keys[j]) {
        lemma_insert_bounds(order.drop_last(), keys, j, n);
    }
}

proof fn lemma_stable_order_bounds(keys: Seq<i32>, n: nat)
    ensures
        stable_order(keys, n).len() == n,
        forall|q: int| 0 <= q < n ==> 0 <= #[trigger] stable_order(keys, n)[q] < n,
    decreases n,
{
    if n > 0 {
        lemma_stable_order_bounds(keys, (n - 1) as nat);
        lemma_insert_bounds(stable_order(keys, (n - 1) as nat), keys, n - 1, n as int);
    }
}

/// `x` comes before `y` when its key is smaller, or the keys are equal and
/// `x` is the earlier index.
pub open spec fn lex_before(keys: Seq<i32>, x: int, y: int) -> bool {
    keys[x] < keys[y] || (keys[x] == keys[y] && x < y)
}

/// Every entry of `order` comes before every later entry.
pub open spec fn strictly_ordered(order: Seq<int>, keys: Seq<i32>) -> bool {
    forall|a: int, b: int|
        #![trigger order[a], order[b]]
        0 <= a < b < order.len() ==> lex_before(keys, order[a], order[b])
}

proof fn lemma_insert_ordered(order: Seq<int>, keys: Seq<i32>, j: int)
    requires
        strictly_ordered(order, keys),
        forall|q: int| 0 <= q < order.len() ==> #[trigger] order[q] < j,
    ensures
        strictly_ordered(insert_by_key(order, keys, j), keys),
        forall|q: int|
            0 <= q < insert_by_key(order, keys, j).len() ==> #[trigger] insert_by_key(order, keys, j)[q] == j
                || order.contains(insert_by_key(order, keys, j)[q]),
    decreases order.len(),
{
    let r = insert_by_key(order, keys, j);
    if order.len() == 0 {
    } else if keys[order.last()] <= keys[j] {
        assert forall|a: int, b: int| #![trigger r[a], r[b]] 0 <= a < b < r.len() implies lex_before(keys, r[a], r[b]) by {
            if b == order.len() {
                assert(r[b] == j);
                assert(r[a] == order[a]);
                if a < order.len() - 1 {
                    assert(lex_before(keys, order[a], order[order.len() - 1]));
                }
            } else {
                assert(r[a] == order[a] && r[b] == order[b]);
            }
        }
        assert forall|q: int| 0 <= q < r.len() implies #[trigger] r[q] == j || order.contains(r[q]) by {
            if q < order.len() {
                assert(r[q] == order[q]);
            }
        }
    } else {
        let d = order.drop_last();
        let last = order.last();
        assert forall|q: int| 0 <= q < d.len() implies #[trigger] d[q] < j by {
            assert(d[q] == order[q]);
        }
        assert forall|a: int, b: int| #![trigger d[a], d[b]] 0 <= a < b < d.len() implies lex_before(keys, d[a], d[b]) by {
            assert(d[a] == order[a] && d[b] == order[b]);
        }
        lemma_insert_ordered(d, keys, j);
        let ri = insert_by_key(d, keys, j);
        assert(r == ri.push(last));
        assert forall|a: int, b: int| #![trigger r[a], r[b]] 0 <= a < b < r.len() implies lex_before(keys, r[a], r[b]) by {
            if b == r.len() - 1 {
                assert(r[b] == last);
                assert(r[a] == ri[a]);
                if ri[a] == j {
                } else {
                    assert(d.contains(ri[a]));
                    let c = choose|c: int| 0 <= c < d.len() && d[c] == ri[a];
                    assert(order[c] == d[c]);
                    assert(lex_before(keys, order[c], order[order.len() - 1]));
                }
            } else {
                assert(r[a] == ri[a] && r[b] == ri[b]);
            }
        }
        assert forall|q: int| 0 <= q < r.len() implies #[trigger] r[q] == j || order.contains(r[q]) by {
            if q < ri.len() {
                assert(r[q] == ri[q]);
                if ri[q] != j {
                    let c = choose|c: int| 0 <= c < d.len() && d[c] == ri[q];
                    assert(order[c] == ri[q]);
                }
            } else {
                assert(r[q] == order[order.len() - 1]);
            }
        }
    }
}

/// The stable order is a stable sort: it lists every index below `n`
/// once, ascending by key, and indices with equal keys keep their order.
pub proof fn lemma_stable_order_sorts(keys: Seq<i32>, n: nat)
    ensures
        stable_order(keys, n).len() == n,
        forall|q: int| 0 <= q < n ==> 0 <= #[trigger] stable_order(keys, n)[q] < n,
        strictly_ordered(stable_order(keys, n), keys),
    decreases n,
{
    lemma_stable_order_bounds(keys, n);
    if n > 0 {
        let prev = stable_order(keys, (n - 1) as nat);
        lemma_stable_order_sorts(keys, (n - 1) as nat);
        lemma_insert_ordered(prev, keys, n - 1);
    }
}

pub open spec fn usize_seq(v: Seq<usize>) -> Seq<int> {
    v.map_values(|i: usize| i as int)
}

/// The indices of `keys` in stable ascending order of key.
pub fn stable_order_of(keys: &Vec<i32>) -> (r: Vec<usize>)
    ensures
        usize_seq(r@) == stable_order(keys@, keys@.len()),
        r@.len() == keys@.len(),
        forall|q: int| 0 <= q < r@.len() ==> #[trigger] r@[q] < keys@.len(),
{
    let mut order: Vec<usize> = Vec::new();
    let mut j: usize = 0;
    while j < keys.len()
        invariant
            j <= keys@.len(),
            usize_seq(order@) == stable_order(keys@, j as nat),
            order@.len() == j,
            forall|q: int| 0 <= q < order@.len() ==> #[trigger] order@[q] < j,
        decreases keys@.len() - j,
    {
        let ghost o = usize_seq(order@);
        let mut p: usize = order.len();
        while p > 0 && keys[order[p - 1]] > keys[j]
            invariant
                p <= order@.len(),
                j < keys@.len(),
                o == usize_seq(order@),
                order@.len() == j,
                forall|q: int| 0 <= q < order@.len() ==> #[trigger] order@[q] < j,
                forall|q: int| p <= q < order@.len() ==> keys@[#[trigger] order@[q] as int] > keys@[j as int],
            decreases p,
        {
            p = p - 1;
        }
        proof {
            assert forall|q: int| p <= q < o.len() implies 0 <= #[trigger] o[q] < keys@.len() && keys@[o[q]]
                > keys@[j as int] by {
                assert(o[q] == order@[q] as int);
            }
            lemma_insert_split(o, keys@, j as int, p as int);
            let t = o.take(p as int);
            if p > 0 {
                assert(t.last() == order@[p - 1] as int);
                assert(keys@[t.last()] <= keys@[j as int]);
                assert(insert_by_key(t, keys@, j as int) == t.push(j as int));
            } else {
                assert(t =~= Seq::<int>::empty());
                assert(insert_by_key(t, keys@, j as int) == seq![j as int]);
            }
        }
        let ghost before = order@;
        order.insert(p, j);
        proof {
            assert(usize_seq(order@) =~= o.take(p as int).push(j as int) + o.skip(p as int));
            assert forall|q: int| 0 <= q < order@.len() implies #[trigger] order@[q] < j + 1 by {
                if q < p {
                    assert(order@[q] == before[q]);
                } else if q > p {
                    assert(order@[q] == before[q - 1]);
                }
            }
        }
        j = j + 1;
    }
    order
}

// ---- Planning a bus ----

pub open spec fn z_keys(items: Seq<SceneItem>) -> Seq<i32> {
    items.map_values(|it: SceneItem| it.z_order)
}

/// A scene's items back to front: by z, equal z in list order.
pub open spec fn sorted_items(items: Seq<SceneItem>) -> Seq<SceneItem> {
    stable_order(z_keys(items), items.len()).map_values(|k: int| items[k])
}

pub open spec fn layer_of(it: SceneItem) -> Layer {
    Layer { input: it.input, transform: it.transform, opacity: it.transform.opacity }
}

/// The layers of the visible items, in order.
pub open spec fn visible_layers(items: Seq<SceneItem>) -> Seq<Layer>
    decreases items.len(),
{
    if items.len() == 0 {
        Seq::empty()
    } else {
        visible_layers(items.drop_last()) + if spec_visible(items.last().transform) {
            seq![layer_of(items.last())]
        } else {
            Seq::empty()
        }
    }
}

/// The layers a scene of the project contributes; none for no scene or an
/// unknown one.
pub open spec fn scene_layers(p: Project, id: Option<SceneId>) -> Seq<Layer> {
    match id {
        Some(s) => if p.scenes@.contains_key(s.0) {
            visible_layers(sorted_items(p.scenes@[s.0].items@))
        } else {
            Seq::empty()
        },
        None => Seq::empty(),
    }
}

pub open spec fn overlay_keys(overlays: Seq<OverlaySlot>) -> Seq<i32> {
    overlays.map_values(|o: OverlaySlot| o.z_order)
}

/// Overlays bottom to top: by z, equal z in list order.
pub open spec fn sorted_overlays(overlays: Seq<OverlaySlot>) -> Seq<OverlaySlot> {
    stable_order(overlay_keys(overlays), overlays.len()).map_values(|k: int| overlays[k])
}

/// The layers of the enabled overlays' scenes, in order.
pub open spec fn overlay_layers(p: Project, overlays: Seq<OverlaySlot>) -> Seq<Layer>
    decreases overlays.len(),
{
    if overlays.len() == 0 {
        Seq::empty()
    } else {
        overlay_layers(p, overlays.drop_last()) + if overlays.last().enabled {
            scene_layers(p, overlays.last().scene)
        } else {
            Seq::empty()
        }
    }
}

/// The layers of a bus: its scene, then (on Program) the unit's overlays.
pub open spec fn bus_layers(p: Project, scene: Option<SceneId>, unit: MixingUnit, include_overlays: bool) -> Seq<
    Layer,
> {
    scene_layers(p, scene) + if include_overlays {
        overlay_layers(p, sorted_overlays(unit.overlays@))
    } else {
        Seq::empty()
    }
}

/// Deeper than 8 bits renders in half floats.
pub open spec fn output_format_for(bit_depth: u8) -> PixelFormat {
    if bit_depth > 8 {
        PixelFormat::Rgba16Float
    } else {
        PixelFormat::Rgba8
    }
}

/// The plan of a bus of the project: its layers, the project's canvas,
/// format, color, field order and conversion, and the memory it needs.
pub open spec fn plans(r: RenderPlan, p: Project, scene: Option<SceneId>, unit: MixingUnit, include_overlays: bool) -> bool {
    &&& r.layers@ == bus_layers(p, scene, unit, include_overlays)
    &&& r.width == p.video.width
    &&& r.height == p.video.height
    &&& r.output_format == output_format_for(p.video.bit_depth)
    &&& r.color == spec_color_metadata(p.video.color)
    &&& r.field_order == p.video.field_order
    &&& r.color_conversion == p.video.color_conversion
    &&& r.vram_bytes == spec_vram_bytes(
        p.video.width,
        p.video.height,
        output_format_for(p.video.bit_depth),
        r.layers@.len(),
    )
}

proof fn lemma_sorted_items_len(items: Seq<SceneItem>)
    ensures
        sorted_items(items).len() == items.len(),
{
    lemma_stable_order_bounds(z_keys(items), items.len());
}

/// Appends the layers of a scene of the project.
fn push_scene_layers(project: &Project, id: Option<SceneId>, layers: &mut Vec<Layer>)
    ensures
        final(layers)@ == old(layers)@ + scene_layers(*project, id),
{
    let s = match id {
        Some(s) => s,
        None => {
            assert(old(layers)@ + Seq::<Layer>::empty() =~= old(layers)@);
            return;
        },
    };
    let scene = match project.scenes.get(&s.0) {
        Some(scene) => scene,
        None => {
            assert(old(layers)@ + Seq::<Layer>::empty() =~= old(layers)@);
            return;
        },
    };
    let mut keys: Vec<i32> = Vec::new();
    let mut i: usize = 0;
    while i < scene.items.len()
        invariant
            i <= scene.items@.len(),
            keys@ == z_keys(scene.items@).take(i as int),
        decreases scene.items@.len() - i,
    {
        keys.push(scene.items[i].z_order);
        i = i + 1;
        assert(keys@ =~= z_keys(scene.items@).take(i as int));
    }
    assert(keys@ =~= z_keys(scene.items@));
    let order = stable_order_of(&keys);
    let ghost sorted = sorted_items(scene.items@);
    proof {
        lemma_sorted_items_len(scene.items@);
    }
    let mut k: usize = 0;
    while k < order.len()
        invariant
            k <= order@.len(),
            order@.len() == scene.items@.len(),
            sorted.len() == order@.len(),
            forall|q: int| 0 <= q < order@.len() ==> #[trigger] order@[q] < scene.items@.len(),
            forall|q: int| 0 <= q < order@.len() ==> #[trigger] sorted[q] == scene.items@[order@[q] as int],
            layers@ == old(layers)@ + visible_layers(sorted.take(k as int)),
        decreases order@.len() - k,
    {
        let item = scene.items[order[k]];
        proof {
            let t = sorted.take(k + 1);
            assert(t.drop_last() =~= sorted.take(k as int));
            assert(t.last() == item);
        }
        if item.transform.visible() {
            layers.push(Layer { input: item.input, transform: item.transform, opacity: item.transform.opacity });
        }
        k = k + 1;
        proof {
            assert(layers@ =~= old(layers)@ + visible_layers(sorted.take(k as int)));
        }
    }
    assert(sorted.take(k as int) =~= sorted);
}

/// Plans a bus: the scene's visible items back to front, then, when asked,
/// the enabled overlays bottom to top with their scenes' visible items.
fn plan_bus(project: &Project, scene_id: Option<SceneId>, unit: &MixingUnit, include_overlays: bool) -> (r: RenderPlan)
    ensures
        plans(r, *project, scene_id, *unit, include_overlays),
{
    let mut layers: Vec<Layer> = Vec::new();
    push_scene_layers(project, scene_id, &mut layers);
    assert(layers@ =~= scene_layers(*project, scene_id));
    if include_overlays {
        let mut keys: Vec<i32> = Vec::new();
        let mut i: usize = 0;
        while i < unit.overlays.len()
            invariant
                i <= unit.overlays@.len(),
                keys@ == overlay_keys(unit.overlays@).take(i as int),
            decreases unit.overlays@.len() - i,
        {
            keys.push(unit.overlays[i].z_order);
            i = i + 1;
            assert(keys@ =~= overlay_keys(unit.overlays@).take(i as int));
        }
        assert(keys@ =~= overlay_keys(unit.overlays@));
        let order = stable_order_of(&keys);
        let ghost sorted = sorted_overlays(unit.overlays@);
        let ghost base = layers@;
        proof {
            lemma_stable_order_bounds(overlay_keys(unit.overlays@), unit.overlays@.len());
        }
        let mut k: usize = 0;
        while k < order.len()
            invariant
                k <= order@.len(),
                order@.len() == unit.overlays@.len(),
                sorted.len() == order@.len(),
                forall|q: int| 0 <= q < order@.len() ==> #[trigger] order@[q] < unit.overlays@.len(),
                forall|q: int| 0 <= q < order@.len() ==> #[trigger] sorted[q] == unit.overlays@[order@[q] as int],
                layers@ == base + overlay_layers(*project, sorted.take(k as int)),
                base == scene_layers(*project, scene_id),
            decreases order@.len() - k,
        {
            let overlay = &unit.overlays[order[k]];
            let ghost before = layers@;
            proof {
                let t = sorted.take(k + 1);
                assert(t.drop_last() =~= sorted.take(k as int));
                assert(t.last() == *overlay);
            }
            if overlay.enabled {
                push_scene_layers(project, overlay.scene, &mut layers);
            }
            k = k + 1;
            proof {
                assert(layers@ =~= base + overlay_layers(*project, sorted.take(k as int)));
            }
        }
        assert(sorted.take(k as int) =~= sorted);
    } else {
        assert(layers@ =~= layers@ + Seq::<Layer>::empty());
    }
    let output_format = if project.video.bit_depth > 8 {
        PixelFormat::Rgba16Float
    } else {
        PixelFormat::Rgba8
    };
    let vram_bytes = RenderPlan::estimate_vram_bytes(
        project.video.width,
        project.video.height,
        output_format,
        layers.len(),
    );
    RenderPlan {
        width: project.video.width,
        height: project.video.height,
        output_format,
        color: project.video.color_metadata(),
        field_order: project.video.field_order,
        color_conversion: project.video.color_conversion,
        vram_bytes,
        layers,
    }
}

/// The plan of a unit's Program bus, overlays included.
pub fn plan_program(project: &Project, unit: &MixingUnit) -> (r: RenderPlan)
    ensures
        plans(r, *project, unit.program.scene, *unit, true),
{
    plan_bus(project, unit.program.scene, unit, true)
}

/// The plan of a unit's Preview bus, without overlays.
pub fn plan_preview(project: &Project, unit: &MixingUnit) -> (r: RenderPlan)
    ensures
        plans(r, *project, unit.preview.scene, *unit, false),
{
    plan_bus(project, unit.preview.scene, unit, false)
}


// ---- Test pattern ----

/// An 8-bit RGBA frame held in memory.
#[derive(Debug, Clone, PartialEq, Eq)]
pub struct RgbaFrame {
    pub id: u64,
    pub width: u32,
    pub height: u32,
    pub data: Vec<u8>,
}

/// Channel `c` of bar `k` (0 to 7): 75% white, yellow, cyan, green,
/// magenta, red, blue, black; opaque.
pub open spec fn bar_channel(k: int, c: int) -> u8 {
    if c == 3 {
        255
    } else {
        let (r, g, b): (u8, u8, u8) = if k == 0 {
            (192, 192, 192)
        } else if k == 1 {
            (192, 192, 0)
        } else if k == 2 {
            (0, 192, 192)
        } else if k == 3 {
            (0, 192, 0)
        } else if k == 4 {
            (192, 0, 192)
        } else if k == 5 {
            (192, 0, 0)
        } else if k == 6 {
            (0, 0, 192)
        } else {
            (0, 0, 0)
        };
        if c == 0 {
            r
        } else if c == 1 {
            g
        } else {
            b
        }
    }
}

/// Byte `i` of a row-major RGBA color-bar frame `width` pixels wide: the
/// bars are `width / 8` pixels wide (at least 1), the last one taking the
/// rest.
pub open spec fn spec_bar_byte(width: u32, i: int) -> u8 {
    let x = (i / 4) % (width as int);
    let stripe: int = if width / 8 >= 1 {
        (width / 8) as int
    } else {
        1
    };
    let k = if x / stripe < 7 {
        x / stripe
    } else {
        7
    };
    bar_channel(k, i % 4)
}

fn bar_byte(k: u32, c: u32) -> (r: u8)
    requires
        c < 4,
    ensures
        r == bar_channel(k as int, c as int),
{
    if c == 3 {
        return 255;
    }
    let (r, g, b): (u8, u8, u8) = if k == 0 {
        (192, 192, 192)
    } else if k == 1 {
        (192, 192, 0)
    } else if k == 2 {
        (0, 192, 192)
    } else if k == 3 {
        (0, 192, 0)
    } else if k == 4 {
        (192, 0, 192)
    } else if k == 5 {
        (192, 0, 0)
    } else if k == 6 {
        (0, 0, 192)
    } else {
        (0, 0, 0)
    };
    if c == 0 {
        r
    } else if c == 1 {
        g
    } else {
        b
    }
}

/// An SMPTE-style frame of eight vertical color bars.
pub fn color_bars(id: u64, width: u32, height: u32) -> (r: RgbaFrame)
    requires
        width * height * 4 <= usize::MAX,
    ensures
        r.id == id,
        r.width == width,
        r.height == height,
        r.data@ == Seq::new((width * height * 4) as nat, |i: int| spec_bar_byte(width, i)),
{
    let n: usize = (width as usize) * (height as usize) * 4;
    let stripe: u32 = if width / 8 >= 1 {
        width / 8
    } else {
        1
    };
    let mut data: Vec<u8> = Vec::new();
    let mut i: usize = 0;
    while i < n
        invariant
            n == width * height * 4,
            i <= n,
            stripe == if width / 8 >= 1 {
                (width / 8) as int
            } else {
                1
            },
            data@ == Seq::new(i as nat, |j: int| spec_bar_byte(width, j)),
        decreases n - i,
    {
        proof {
            if width == 0 {
                assert(width * height * 4 == 0) by (nonlinear_arith)
                    requires
                        width == 0,
                ;
            }
        }
        let x = ((i / 4) % (width as usize)) as u32;
        let q = x / stripe;
        let k = if q < 7 {
            q
        } else {
            7
        };
        let byte = bar_byte(k, (i % 4) as u32);
        data.push(byte);
        proof {
            assert(data@ =~= Seq::new((i + 1) as nat, |j: int| spec_bar_byte(width, j)));
        }
        i = i + 1;
    }
    RgbaFrame { id, width, height, data }
}

} // verus!
