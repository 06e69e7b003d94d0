//! Whole-project validation: the profile, every reference between
//! entities, ownership both ways, multiview grids, and acyclicity of the
//! mixing graph.

use vstd::prelude::*;

use crate::domain::error::{DomainError, DomainResult, Fault, reports_fault};
use crate::domain::graph::{cycle_from, has_reachable_cycle, is_cycle_walk, linked, spec_edges, MixingGraph};
use crate::domain::ids::{MultiviewId, OutputId};
use crate::domain::input::{playback_issue, validate_playback, Input, InputSource};
use crate::domain::key_order::{key_order, keys_in_order, keys_ordered, lemma_key_order, lemma_keys_ordered};
use crate::domain::mixing::MixingUnit;
use crate::domain::output::{Multiview, MultiviewSource, Output, OutputKind, OutputVideoSource};
use crate::domain::profile::{
    distribution_issue, id_text, load_shedding_issue, validate_distribution_output,
    validate_load_shedding, AudioFormat, AudioResamplingPolicy, ColorConversionPolicy, ColorSpace,
    CompositorBackend, ToneMapPolicy,
};
use crate::domain::project::{is_fresh_project, spec_is_cpu_reference_compatible, Project, SCHEMA_VERSION};
use crate::domain::scene::{Scene, SceneItem};
use crate::guid::uuid_text;
use crate::text::{decimal, owned, spec_decimal};

verus! {

broadcast use vstd::std_specs::btree::group_btree_axioms;

/// The first fault of `f` at an index from `i` up to `n`.
pub open spec fn first_fault(n: int, i: int, f: spec_fn(int) -> Option<Fault>) -> Option<Fault>
    decreases n - i,
{
    if i < 0 || i >= n {
        None
    } else if f(i) is Some {
        f(i)
    } else {
        first_fault(n, i + 1, f)
    }
}

/// `f` of the map's entry at position `j` of the key order.
pub open spec fn keyed_step<V>(m: Map<u128, V>, f: spec_fn(V) -> Option<Fault>) -> spec_fn(int) -> Option<
    Fault,
> {
    |j: int| f(m[key_order(m)[j]])
}

/// The first fault of `f` over a map's entries, ascending by key.
pub open spec fn keyed_fault<V>(m: Map<u128, V>, f: spec_fn(V) -> Option<Fault>) -> Option<Fault> {
    first_fault(key_order(m).len() as int, 0, keyed_step(m, f))
}

pub open spec fn message(text: Seq<char>) -> Option<Fault> {
    Some(Fault::Message(text))
}

pub open spec fn invalid_ref(text: Seq<char>) -> Option<Fault> {
    Some(Fault::InvalidRef(text))
}

/// Why the project's video profile is unusable, if it is.
pub open spec fn video_issue(p: Project) -> Option<Seq<char>> {
    let v = p.video;
    if v.width == 0 || v.height == 0 {
        Some("video dimensions must be non-zero"@)
    } else if !(v.bit_depth == 8 || v.bit_depth == 10) {
        Some("video bit depth must be 8 or 10"@)
    } else if v.interlaced != (v.field_order is Some) {
        Some(
            "interlaced video requires an explicit field order and progressive video must not have one"@,
        )
    } else if (v.color == ColorSpace::Bt2020Pq || v.color == ColorSpace::Bt2020Hlg) && v.bit_depth
        != 10 {
        Some("PQ and HLG project profiles require 10-bit video"@)
    } else if v.color_conversion matches ColorConversionPolicy::Gpu {
        tone_map: ToneMapPolicy::HdrToSdr { source_peak_nits, target_nits },
    } && (source_peak_nits == 0 || target_nits == 0 || target_nits >= source_peak_nits) {
        Some("HDR-to-SDR tone mapping requires non-zero target below source peak"@)
    } else if p.compositor == CompositorBackend::CpuReference && !spec_is_cpu_reference_compatible(
        v,
    ) {
        Some(
            "CpuReference accepts only reduced-raster or full 1080p59.94 SDR 8-bit reference profiles; extended video profiles require explicit Wgpu"@,
        )
    } else {
        None
    }
}

/// An adaptive resampler needs a latency, a larger buffer and a bounded,
/// non-zero drift correction.
pub open spec fn asrc_unusable(a: AudioFormat) -> bool {
    a.resampling matches AudioResamplingPolicy::Asrc { profile } && (profile.target_latency_ms == 0
        || profile.max_buffer_ms <= profile.target_latency_ms || profile.max_drift_ppm == 0
        || profile.max_drift_ppm > 10_000)
}

/// A dangling reference of an input, or its clip's unusable playback.
pub open spec fn input_fault(p: Project, i: Input) -> Option<Fault> {
    let head = "input "@ + id_text(i.id.0);
    match i.source {
        InputSource::Image { asset } if !p.assets@.contains_key(asset.0) => invalid_ref(
            head + " -> asset "@ + id_text(asset.0),
        ),
        InputSource::Video { asset, .. } if !p.assets@.contains_key(asset.0) => invalid_ref(
            head + " -> asset "@ + id_text(asset.0),
        ),
        InputSource::DeckLink { binding } if !p.device_bindings@.contains_key(binding.0) => invalid_ref(
            head + " -> device binding "@ + id_text(binding.0),
        ),
        InputSource::AudioDevice { binding } if !p.device_bindings@.contains_key(binding.0) => invalid_ref(
            head + " -> device binding "@ + id_text(binding.0),
        ),
        InputSource::MixFeed { unit, .. } if !p.mixing_units@.contains_key(unit.0) => invalid_ref(
            head + " -> mixing unit "@ + id_text(unit.0),
        ),
        InputSource::Video { playback, .. } if playback_issue(playback) is Some => message(
            playback_issue(playback)->0,
        ),
        _ => None,
    }
}

pub open spec fn item_fault(p: Project, item: SceneItem) -> Option<Fault> {
    if !p.inputs@.contains_key(item.input.0) {
        invalid_ref("scene item "@ + id_text(item.id.0) + " -> input "@ + id_text(item.input.0))
    } else if playback_issue(item.playback) is Some {
        message(playback_issue(item.playback)->0)
    } else {
        None
    }
}

pub open spec fn item_faults(p: Project, s: Scene) -> spec_fn(int) -> Option<Fault> {
    |j: int| item_fault(p, s.items@[j])
}

/// The first bad layer of a scene.
pub open spec fn scene_fault(p: Project, s: Scene) -> Option<Fault> {
    first_fault(s.items@.len() as int, 0, item_faults(p, s))
}

pub open spec fn overlay_faults(p: Project, u: MixingUnit) -> spec_fn(int) -> Option<Fault> {
    |j: int|
        if u.overlays@[j].scene matches Some(s) && !p.scenes@.contains_key(s.0) {
            invalid_ref("overlay scene"@)
        } else {
            None
        }
}

pub open spec fn unit_output_faults(p: Project, u: MixingUnit) -> spec_fn(int) -> Option<Fault> {
    |j: int|
        {
            let oid = u.outputs@[j];
            if !p.outputs@.contains_key(oid.0) {
                Some(Fault::UnknownId(id_text(oid.0)))
            } else if p.outputs@[oid.0].owner != u.id {
                message("output owner mismatch"@)
            } else {
                None
            }
        }
}

pub open spec fn unit_view_faults(p: Project, u: MixingUnit) -> spec_fn(int) -> Option<Fault> {
    |j: int|
        {
            let vid = u.multiviews@[j];
            if !p.multiviews@.contains_key(vid.0) {
                Some(Fault::UnknownId(id_text(vid.0)))
            } else if p.multiviews@[vid.0].owner != u.id {
                message("multiview owner mismatch"@)
            } else {
                None
            }
        }
}

/// A unit's buses and overlays must show existing scenes, and what it
/// lists as its outputs and multiviews must exist and name it as owner.
pub open spec fn unit_fault(p: Project, u: MixingUnit) -> Option<Fault> {
    if u.program.scene matches Some(s) && !p.scenes@.contains_key(s.0) {
        invalid_ref("program scene"@)
    } else if u.preview.scene matches Some(s) && !p.scenes@.contains_key(s.0) {
        invalid_ref("preview scene"@)
    } else if first_fault(u.overlays@.len() as int, 0, overlay_faults(p, u)) is Some {
        first_fault(u.overlays@.len() as int, 0, overlay_faults(p, u))
    } else if first_fault(u.outputs@.len() as int, 0, unit_output_faults(p, u)) is Some {
        first_fault(u.outputs@.len() as int, 0, unit_output_faults(p, u))
    } else {
        first_fault(u.multiviews@.len() as int, 0, unit_view_faults(p, u))
    }
}

/// A multiview that an output carries must exist and share its owner.
pub open spec fn carried_view_fault(p: Project, o: Output) -> Option<Fault> {
    let head = "output "@ + id_text(o.id.0);
    match o.video_source {
        OutputVideoSource::Program => None,
        OutputVideoSource::Multiview(v) => if !p.multiviews@.contains_key(v.0) {
            invalid_ref(head + " -> multiview "@ + id_text(v.0))
        } else if p.multiviews@[v.0].owner != o.owner {
            invalid_ref(
                head + " and multiview "@ + id_text(v.0) + " must share owner "@ + id_text(o.owner.0),
            )
        } else {
            None
        },
    }
}

/// A device that an output drives must be bound.
pub open spec fn output_device_fault(p: Project, o: Output) -> Option<Fault> {
    let head = "output "@ + id_text(o.id.0);
    match o.kind {
        OutputKind::DeckLink { binding } => if p.device_bindings@.contains_key(binding.0) {
            None
        } else {
            invalid_ref(head + " -> device binding "@ + id_text(binding.0))
        },
        OutputKind::AudioDevice { binding } => if p.device_bindings@.contains_key(binding.0) {
            None
        } else {
            invalid_ref(head + " -> device binding "@ + id_text(binding.0))
        },
        _ => None,
    }
}

/// An output's owner must exist and list it; a multiview it carries must
/// exist and share its owner; a device it drives must be bound; and its
/// distribution settings must fit it.
pub open spec fn output_fault(p: Project, o: Output) -> Option<Fault> {
    let head = "output "@ + id_text(o.id.0);
    if !p.mixing_units@.contains_key(o.owner.0) {
        invalid_ref(head + " owner "@ + id_text(o.owner.0))
    } else if !p.mixing_units@[o.owner.0].outputs@.contains(o.id) {
        invalid_ref(head + " missing from owner "@ + id_text(o.owner.0))
    } else if carried_view_fault(p, o) is Some {
        carried_view_fault(p, o)
    } else if output_device_fault(p, o) is Some {
        output_device_fault(p, o)
    } else if distribution_issue(o, p.audio) is Some {
        message(distribution_issue(o, p.audio)->0)
    } else {
        None
    }
}

pub open spec fn tile_text(v: Multiview, j: int) -> Seq<char> {
    "multiview "@ + id_text(v.id.0) + " tile ("@ + spec_decimal(v.tiles@[j].column as nat) + ","@
        + spec_decimal(v.tiles@[j].row as nat)
}

/// A tile must lie in the grid, take a cell no earlier tile took, and show
/// something that exists.
pub open spec fn tile_fault(p: Project, v: Multiview, j: int) -> Option<Fault> {
    let t = v.tiles@[j];
    let head = "multiview "@ + id_text(v.id.0);
    if t.column >= v.columns || t.row >= v.rows {
        invalid_ref(
            tile_text(v, j) + ") outside "@ + spec_decimal(v.columns as nat) + "x"@ + spec_decimal(
                v.rows as nat,
            ),
        )
    } else if exists|k: int|
        0 <= k < j && (#[trigger] v.tiles@[k]).column == t.column && v.tiles@[k].row == t.row {
        Some(Fault::DuplicateId(tile_text(v, j) + ")"@))
    } else {
        match t.source {
            MultiviewSource::Black => None,
            MultiviewSource::Input(i) => if p.inputs@.contains_key(i.0) {
                None
            } else {
                invalid_ref(head + " input "@ + id_text(i.0))
            },
            MultiviewSource::Preview(u) => if p.mixing_units@.contains_key(u.0) {
                None
            } else {
                invalid_ref(head + " unit "@ + id_text(u.0))
            },
            MultiviewSource::Program(u) => if p.mixing_units@.contains_key(u.0) {
                None
            } else {
                invalid_ref(head + " unit "@ + id_text(u.0))
            },
        }
    }
}

pub open spec fn tile_faults(p: Project, v: Multiview) -> spec_fn(int) -> Option<Fault> {
    |j: int| tile_fault(p, v, j)
}

/// A multiview's owner must exist and list it; its grid must be non-empty,
/// fit in 32 bits and hold all its tiles; and each tile must be sound.
pub open spec fn multiview_fault(p: Project, v: Multiview) -> Option<Fault> {
    let head = "multiview "@ + id_text(v.id.0);
    if !p.mixing_units@.contains_key(v.owner.0) {
        invalid_ref(head + " owner "@ + id_text(v.owner.0))
    } else if !p.mixing_units@[v.owner.0].multiviews@.contains(v.id) {
        invalid_ref(head + " missing from owner "@ + id_text(v.owner.0))
    } else if v.columns == 0 || v.rows == 0 {
        message("multiview grid must be non-zero"@)
    } else if v.columns * v.rows > u32::MAX {
        Some(Fault::Capacity("multiview grid overflow"@))
    } else if v.tiles@.len() > v.columns * v.rows {
        Some(Fault::Capacity(head + " has too many tiles"@))
    } else {
        first_fault(v.tiles@.len() as int, 0, tile_faults(p, v))
    }
}

pub open spec fn input_faults(p: Project) -> spec_fn(Input) -> Option<Fault> {
    |i: Input| input_fault(p, i)
}

pub open spec fn scene_faults(p: Project) -> spec_fn(Scene) -> Option<Fault> {
    |s: Scene| scene_fault(p, s)
}

pub open spec fn unit_faults(p: Project) -> spec_fn(MixingUnit) -> Option<Fault> {
    |u: MixingUnit| unit_fault(p, u)
}

pub open spec fn output_faults(p: Project) -> spec_fn(Output) -> Option<Fault> {
    |o: Output| output_fault(p, o)
}

pub open spec fn view_faults(p: Project) -> spec_fn(Multiview) -> Option<Fault> {
    |v: Multiview| multiview_fault(p, v)
}

/// The first reason the project is invalid, in the order `validate` checks:
/// schema, audio format, video profile, load shedding, resampling, then
/// inputs, scenes, mixing units, outputs and multiviews (each ascending by
/// id), and last the mixing graph.
pub open spec fn project_fault(p: Project) -> Option<Fault> {
    if p.schema_version > SCHEMA_VERSION {
        message("unsupported schema "@ + spec_decimal(p.schema_version as nat))
    } else if p.audio.sample_rate == 0 || p.audio.channels == 0 {
        message("audio sample rate and channel count must be non-zero"@)
    } else if video_issue(p) is Some {
        message(video_issue(p)->0)
    } else if load_shedding_issue(p.auxiliary_load_shedding, p.video.width, p.video.height) is Some {
        message(load_shedding_issue(p.auxiliary_load_shedding, p.video.width, p.video.height)->0)
    } else if asrc_unusable(p.audio) {
        message(
            "ASRC profile requires non-zero latency/drift, a larger buffer, and at most 10000 ppm correction"@,
        )
    } else if keyed_fault(p.inputs@, input_faults(p)) is Some {
        keyed_fault(p.inputs@, input_faults(p))
    } else if keyed_fault(p.scenes@, scene_faults(p)) is Some {
        keyed_fault(p.scenes@, scene_faults(p))
    } else if keyed_fault(p.mixing_units@, unit_faults(p)) is Some {
        keyed_fault(p.mixing_units@, unit_faults(p))
    } else if keyed_fault(p.outputs@, output_faults(p)) is Some {
        keyed_fault(p.outputs@, output_faults(p))
    } else if keyed_fault(p.multiviews@, view_faults(p)) is Some {
        keyed_fault(p.multiviews@, view_faults(p))
    } else if has_reachable_cycle(p) {
        Some(Fault::Cycle)
    } else {
        None
    }
}

/// `a`, then the text of id `x`.
fn id_message(a: &str, x: u128) -> (r: String)
    ensures
        r@ == a@ + id_text(x),
{
    let mut m = owned(a);
    m.append(crate::guid::uuid_to_string(x).as_str());
    m
}

/// `a`, the text of id `x`, `b`, the text of id `y`.
fn ids_message(a: &str, x: u128, b: &str, y: u128) -> (r: String)
    ensures
        r@ == a@ + id_text(x) + b@ + id_text(y),
{
    let mut m = id_message(a, x);
    m.append(b);
    m.append(crate::guid::uuid_to_string(y).as_str());
    m
}

fn input_check(p: &Project, i: &Input) -> (r: DomainResult<()>)
    ensures
        reports_fault(r, input_fault(*p, *i)),
{
    proof {
        lemma_keys_ordered();
    }
    match &i.source {
        InputSource::Image { asset } => {
            if !p.assets.contains_key(&asset.0) {
                return Err(DomainError::InvalidRef(ids_message("input ", i.id.0, " -> asset ", asset.0)));
            }
        },
        InputSource::Video { asset, playback } => {
            if !p.assets.contains_key(&asset.0) {
                return Err(DomainError::InvalidRef(ids_message("input ", i.id.0, " -> asset ", asset.0)));
            }
            match validate_playback(playback) {
                Err(e) => {
                    return Err(e);
                },
                Ok(()) => {},
            }
        },
        InputSource::DeckLink { binding } => {
            if !p.device_bindings.contains_key(&binding.0) {
                return Err(
                    DomainError::InvalidRef(
                        ids_message("input ", i.id.0, " -> device binding ", binding.0),
                    ),
                );
            }
        },
        InputSource::AudioDevice { binding } => {
            if !p.device_bindings.contains_key(&binding.0) {
                return Err(
                    DomainError::InvalidRef(
                        ids_message("input ", i.id.0, " -> device binding ", binding.0),
                    ),
                );
            }
        },
        InputSource::MixFeed { unit, .. } => {
            if !p.mixing_units.contains_key(&unit.0) {
                return Err(
                    DomainError::InvalidRef(ids_message("input ", i.id.0, " -> mixing unit ", unit.0)),
                );
            }
        },
        _ => {},
    }
    Ok(())
}

fn item_check(p: &Project, item: &SceneItem) -> (r: DomainResult<()>)
    ensures
        reports_fault(r, item_fault(*p, *item)),
{
    proof {
        lemma_keys_ordered();
    }
    if !p.inputs.contains_key(&item.input.0) {
        return Err(
            DomainError::InvalidRef(ids_message("scene item ", item.id.0, " -> input ", item.input.0)),
        );
    }
    validate_playback(&item.playback)
}

fn scene_check(p: &Project, s: &Scene) -> (r: DomainResult<()>)
    ensures
        reports_fault(r, scene_fault(*p, *s)),
{
    let ghost f = item_faults(*p, *s);
    let ghost n = s.items@.len() as int;
    let mut j: usize = 0;
    while j < s.items.len()
        invariant
            j <= s.items@.len(),
            f == item_faults(*p, *s),
            n == s.items@.len(),
            scene_fault(*p, *s) == first_fault(n, j as int, f),
        decreases s.items@.len() - j,
    {
        match item_check(p, &s.items[j]) {
            Err(e) => {
                return Err(e);
            },
            Ok(()) => {},
        }
        j = j + 1;
    }
    Ok(())
}

fn lists_output(v: &Vec<OutputId>, id: OutputId) -> (r: bool)
    ensures
        r == v@.contains(id),
{
    let mut i: usize = 0;
    while i < v.len()
        invariant
            i <= v@.len(),
            forall|k: int| 0 <= k < i ==> v@[k] != id,
        decreases v@.len() - i,
    {
        if v[i] == id {
            return true;
        }
        i = i + 1;
    }
    false
}

fn lists_view(v: &Vec<MultiviewId>, id: MultiviewId) -> (r: bool)
    ensures
        r == v@.contains(id),
{
    let mut i: usize = 0;
    while i < v.len()
        invariant
            i <= v@.len(),
            forall|k: int| 0 <= k < i ==> v@[k] != id,
        decreases v@.len() - i,
    {
        if v[i] == id {
            return true;
        }
        i = i + 1;
    }
    false
}

#[verifier::loop_isolation(false)]
fn unit_check(p: &Project, u: &MixingUnit) -> (r: DomainResult<()>)
    ensures
        reports_fault(r, unit_fault(*p, *u)),
{
    proof {
        lemma_keys_ordered();
    }
    match u.program.scene {
        Some(s) => {
            if !p.scenes.contains_key(&s.0) {
                return Err(DomainError::InvalidRef(owned("program scene")));
            }
        },
        None => {},
    }
    match u.preview.scene {
        Some(s) => {
            if !p.scenes.contains_key(&s.0) {
                return Err(DomainError::InvalidRef(owned("preview scene")));
            }
        },
        None => {},
    }
    let ghost f = overlay_faults(*p, *u);
    let mut j: usize = 0;
    while j < u.overlays.len()
        invariant
            j <= u.overlays@.len(),
            keys_ordered(),
            f == overlay_faults(*p, *u),
            first_fault(u.overlays@.len() as int, 0, f) == first_fault(
                u.overlays@.len() as int,
                j as int,
                f,
            ),
        decreases u.overlays@.len() - j,
    {
        match u.overlays[j].scene {
            Some(s) => {
                if !p.scenes.contains_key(&s.0) {
                    return Err(DomainError::InvalidRef(owned("overlay scene")));
                }
            },
            None => {},
        }
        j = j + 1;
    }
    let ghost g = unit_output_faults(*p, *u);
    let mut j: usize = 0;
    while j < u.outputs.len()
        invariant
            j <= u.outputs@.len(),
            keys_ordered(),
            g == unit_output_faults(*p, *u),
            first_fault(u.outputs@.len() as int, 0, g) == first_fault(
                u.outputs@.len() as int,
                j as int,
                g,
            ),
        decreases u.outputs@.len() - j,
    {
        let oid = u.outputs[j];
        match p.outputs.get(&oid.0) {
            None => {
                return Err(DomainError::UnknownId(crate::guid::uuid_to_string(oid.0)));
            },
            Some(o) => {
                if o.owner != u.id {
                    return Err(DomainError::msg("output owner mismatch"));
                }
            },
        }
        j = j + 1;
    }
    let ghost h = unit_view_faults(*p, *u);
    let mut j: usize = 0;
    while j < u.multiviews.len()
        invariant
            j <= u.multiviews@.len(),
            keys_ordered(),
            h == unit_view_faults(*p, *u),
            first_fault(u.multiviews@.len() as int, 0, h) == first_fault(
                u.multiviews@.len() as int,
                j as int,
                h,
            ),
        decreases u.multiviews@.len() - j,
    {
        let vid = u.multiviews[j];
        match p.multiviews.get(&vid.0) {
            None => {
                return Err(DomainError::UnknownId(crate::guid::uuid_to_string(vid.0)));
            },
            Some(v) => {
                if v.owner != u.id {
                    return Err(DomainError::msg("multiview owner mismatch"));
                }
            },
        }
        j = j + 1;
    }
    Ok(())
}

fn output_check(p: &Project, o: &Output) -> (r: DomainResult<()>)
    ensures
        reports_fault(r, output_fault(*p, *o)),
{
    proof {
        lemma_keys_ordered();
    }
    let owner = match p.mixing_units.get(&o.owner.0) {
        None => {
            return Err(DomainError::InvalidRef(ids_message("output ", o.id.0, " owner ", o.owner.0)));
        },
        Some(u) => u,
    };
    if !lists_output(&owner.outputs, o.id) {
        return Err(
            DomainError::InvalidRef(ids_message("output ", o.id.0, " missing from owner ", o.owner.0)),
        );
    }
    match o.video_source {
        OutputVideoSource::Multiview(v) => {
            match p.multiviews.get(&v.0) {
                None => {
                    return Err(
                        DomainError::InvalidRef(ids_message("output ", o.id.0, " -> multiview ", v.0)),
                    );
                },
                Some(view) => {
                    if view.owner != o.owner {
                        let mut m = ids_message("output ", o.id.0, " and multiview ", v.0);
                        m.append(" must share owner ");
                        m.append(crate::guid::uuid_to_string(o.owner.0).as_str());
                        return Err(DomainError::InvalidRef(m));
                    }
                },
            }
        },
        OutputVideoSource::Program => {},
    }
    match &o.kind {
        OutputKind::DeckLink { binding } => {
            if !p.device_bindings.contains_key(&binding.0) {
                return Err(
                    DomainError::InvalidRef(
                        ids_message("output ", o.id.0, " -> device binding ", binding.0),
                    ),
                );
            }
        },
        OutputKind::AudioDevice { binding } => {
            if !p.device_bindings.contains_key(&binding.0) {
                return Err(
                    DomainError::InvalidRef(
                        ids_message("output ", o.id.0, " -> device binding ", binding.0),
                    ),
                );
            }
        },
        _ => {},
    }
    validate_distribution_output(o, &p.audio)
}

fn tile_message(v: &Multiview, j: usize) -> (r: String)
    requires
        j < v.tiles@.len(),
    ensures
        r@ == tile_text(*v, j as int),
{
    let mut m = id_message("multiview ", v.id.0);
    m.append(" tile (");
    m.append(decimal(v.tiles[j].column as u64).as_str());
    m.append(",");
    m.append(decimal(v.tiles[j].row as u64).as_str());
    m
}

/// Some tile before index `j` takes the cell.
fn cell_taken(v: &Multiview, j: usize, column: u32, row: u32) -> (r: bool)
    requires
        j <= v.tiles@.len(),
    ensures
        r == exists|k: int| 0 <= k < j && (#[trigger] v.tiles@[k]).column == column && v.tiles@[k].row == row,
{
    let mut k: usize = 0;
    while k < j
        invariant
            k <= j <= v.tiles@.len(),
            forall|m: int| 0 <= m < k ==> !((#[trigger] v.tiles@[m]).column == column && v.tiles@[m].row == row),
        decreases j - k,
    {
        if v.tiles[k].column == column && v.tiles[k].row == row {
            return true;
        }
        k = k + 1;
    }
    false
}

fn tile_check(p: &Project, v: &Multiview, j: usize) -> (r: DomainResult<()>)
    requires
        j < v.tiles@.len(),
    ensures
        reports_fault(r, tile_fault(*p, *v, j as int)),
{
    proof {
        lemma_keys_ordered();
    }
    let t = v.tiles[j];
    if t.column >= v.columns || t.row >= v.rows {
        let mut m = tile_message(v, j);
        m.append(") outside ");
        m.append(decimal(v.columns as u64).as_str());
        m.append("x");
        m.append(decimal(v.rows as u64).as_str());
        return Err(DomainError::InvalidRef(m));
    }
    if cell_taken(v, j, t.column, t.row) {
        let mut m = tile_message(v, j);
        m.append(")");
        return Err(DomainError::DuplicateId(m));
    }
    match t.source {
        MultiviewSource::Black => Ok(()),
        MultiviewSource::Input(i) => {
            if p.inputs.contains_key(&i.0) {
                Ok(())
            } else {
                Err(DomainError::InvalidRef(ids_message("multiview ", v.id.0, " input ", i.0)))
            }
        },
        MultiviewSource::Preview(u) => {
            if p.mixing_units.contains_key(&u.0) {
                Ok(())
            } else {
                Err(DomainError::InvalidRef(ids_message("multiview ", v.id.0, " unit ", u.0)))
            }
        },
        MultiviewSource::Program(u) => {
            if p.mixing_units.contains_key(&u.0) {
                Ok(())
            } else {
                Err(DomainError::InvalidRef(ids_message("multiview ", v.id.0, " unit ", u.0)))
            }
        },
    }
}

#[verifier::loop_isolation(false)]
fn multiview_check(p: &Project, v: &Multiview) -> (r: DomainResult<()>)
    ensures
        reports_fault(r, multiview_fault(*p, *v)),
{
    proof {
        lemma_keys_ordered();
    }
    let owner = match p.mixing_units.get(&v.owner.0) {
        None => {
            return Err(DomainError::InvalidRef(ids_message("multiview ", v.id.0, " owner ", v.owner.0)));
        },
        Some(u) => u,
    };
    if !lists_view(&owner.multiviews, v.id) {
        return Err(
            DomainError::InvalidRef(
                ids_message("multiview ", v.id.0, " missing from owner ", v.owner.0),
            ),
        );
    }
    if v.columns == 0 || v.rows == 0 {
        return Err(DomainError::msg("multiview grid must be non-zero"));
    }
    let capacity = match v.columns.checked_mul(v.rows) {
        None => {
            return Err(DomainError::Capacity(owned("multiview grid overflow")));
        },
        Some(c) => c,
    };
    if v.tiles.len() > capacity as usize {
        let mut m = id_message("multiview ", v.id.0);
        m.append(" has too many tiles");
        return Err(DomainError::Capacity(m));
    }
    let ghost f = tile_faults(*p, *v);
    let mut j: usize = 0;
    while j < v.tiles.len()
        invariant
            j <= v.tiles@.len(),
            f == tile_faults(*p, *v),
            multiview_fault(*p, *v) == first_fault(v.tiles@.len() as int, j as int, f),
        decreases v.tiles@.len() - j,
    {
        match tile_check(p, v, j) {
            Err(e) => {
                return Err(e);
            },
            Ok(()) => {},
        }
        j = j + 1;
    }
    Ok(())
}

impl Project {
    /// Checks the video profile: a non-empty raster, 8 or 10 bits, a field
    /// order exactly for interlaced video, 10 bits for PQ and HLG, a sound
    /// tone map, and a profile the chosen compositor can render.
    pub fn validate_video_format(&self) -> (r: DomainResult<()>)
        ensures
            crate::domain::profile::reports_issue(r, video_issue(*self)),
    {
        let v = &self.video;
        if v.width == 0 || v.height == 0 {
            return Err(DomainError::msg("video dimensions must be non-zero"));
        }
        if !(v.bit_depth == 8 || v.bit_depth == 10) {
            return Err(DomainError::msg("video bit depth must be 8 or 10"));
        }
        if v.interlaced != v.field_order.is_some() {
            return Err(
                DomainError::msg(
                    "interlaced video requires an explicit field order and progressive video must not have one",
                ),
            );
        }
        if (v.color == ColorSpace::Bt2020Pq || v.color == ColorSpace::Bt2020Hlg) && v.bit_depth != 10 {
            return Err(DomainError::msg("PQ and HLG project profiles require 10-bit video"));
        }
        match v.color_conversion {
            ColorConversionPolicy::Gpu {
                tone_map: ToneMapPolicy::HdrToSdr { source_peak_nits, target_nits },
            } => {
                if source_peak_nits == 0 || target_nits == 0 || target_nits >= source_peak_nits {
                    return Err(
                        DomainError::msg(
                            "HDR-to-SDR tone mapping requires non-zero target below source peak",
                        ),
                    );
                }
            },
            _ => {},
        }
        if self.compositor == CompositorBackend::CpuReference && !v.is_cpu_reference_compatible() {
            return Err(
                DomainError::msg(
                    "CpuReference accepts only reduced-raster or full 1080p59.94 SDR 8-bit reference profiles; extended video profiles require explicit Wgpu",
                ),
            );
        }
        Ok(())
    }

    /// Checks the auxiliary load-shedding policy against the video raster.
    pub fn validate_auxiliary_load_shedding(&self) -> (r: DomainResult<()>)
        ensures
            crate::domain::profile::reports_issue(
                r,
                load_shedding_issue(self.auxiliary_load_shedding, self.video.width, self.video.height),
            ),
    {
        validate_load_shedding(&self.auxiliary_load_shedding, self.video.width, self.video.height)
    }

    /// Checks the whole project and reports the first problem found, in the
    /// order `project_fault` lists.
    #[verifier::loop_isolation(false)]
    pub fn validate(&self) -> (r: DomainResult<()>)
        ensures
            reports_fault(r, project_fault(*self)),
    {
        proof {
            lemma_keys_ordered();
        }
        if self.schema_version > SCHEMA_VERSION {
            let mut m = owned("unsupported schema ");
            m.append(decimal(self.schema_version as u64).as_str());
            return Err(DomainError::Message(m));
        }
        if self.audio.sample_rate == 0 || self.audio.channels == 0 {
            return Err(DomainError::msg("audio sample rate and channel count must be non-zero"));
        }
        match self.validate_video_format() {
            Err(e) => {
                return Err(e);
            },
            Ok(()) => {},
        }
        match self.validate_auxiliary_load_shedding() {
            Err(e) => {
                return Err(e);
            },
            Ok(()) => {},
        }
        match self.audio.resampling {
            AudioResamplingPolicy::Asrc { profile } => {
                if profile.target_latency_ms == 0 || profile.max_buffer_ms <= profile.target_latency_ms
                    || profile.max_drift_ppm == 0 || profile.max_drift_ppm > 10_000 {
                    return Err(
                        DomainError::msg(
                            "ASRC profile requires non-zero latency/drift, a larger buffer, and at most 10000 ppm correction",
                        ),
                    );
                }
            },
            _ => {},
        }
        let keys = keys_in_order(&self.inputs);
        let mut j: usize = 0;
        while j < keys.len()
            invariant
                j <= keys@.len(),
                keys@ == key_order(self.inputs@),
                forall|k: u128| self.inputs@.contains_key(k) <==> keys@.contains(k),
                keyed_fault(self.inputs@, input_faults(*self)) == first_fault(
                    keys@.len() as int,
                    j as int,
                    keyed_step(self.inputs@, input_faults(*self)),
                ),
            decreases keys@.len() - j,
        {
            let k = keys[j];
            proof {
                assert(keys@.contains(k));
            }
            match self.inputs.get(&k) {
                Some(x) => {
                    match input_check(self, x) {
                        Err(e) => {
                            return Err(e);
                        },
                        Ok(()) => {},
                    }
                },
                None => {},
            }
            j = j + 1;
        }
        let keys = keys_in_order(&self.scenes);
        let mut j: usize = 0;
        while j < keys.len()
            invariant
                j <= keys@.len(),
                keys@ == key_order(self.scenes@),
                forall|k: u128| self.scenes@.contains_key(k) <==> keys@.contains(k),
                keyed_fault(self.scenes@, scene_faults(*self)) == first_fault(
                    keys@.len() as int,
                    j as int,
                    keyed_step(self.scenes@, scene_faults(*self)),
                ),
            decreases keys@.len() - j,
        {
            let k = keys[j];
            proof {
                assert(keys@.contains(k));
            }
            match self.scenes.get(&k) {
                Some(x) => {
                    match scene_check(self, x) {
                        Err(e) => {
                            return Err(e);
                        },
                        Ok(()) => {},
                    }
                },
                None => {},
            }
            j = j + 1;
        }
        let keys = keys_in_order(&self.mixing_units);
        let mut j: usize = 0;
        while j < keys.len()
            invariant
                j <= keys@.len(),
                keys@ == key_order(self.mixing_units@),
                forall|k: u128| self.mixing_units@.contains_key(k) <==> keys@.contains(k),
                keyed_fault(self.mixing_units@, unit_faults(*self)) == first_fault(
                    keys@.len() as int,
                    j as int,
                    keyed_step(self.mixing_units@, unit_faults(*self)),
                ),
            decreases keys@.len() - j,
        {
            let k = keys[j];
            proof {
                assert(keys@.contains(k));
            }
            match self.mixing_units.get(&k) {
                Some(x) => {
                    match unit_check(self, x) {
                        Err(e) => {
                            return Err(e);
                        },
                        Ok(()) => {},
                    }
                },
                None => {},
            }
            j = j + 1;
        }
        let keys = keys_in_order(&self.outputs);
        let mut j: usize = 0;
        while j < keys.len()
            invariant
                j <= keys@.len(),
                keys@ == key_order(self.outputs@),
                forall|k: u128| self.outputs@.contains_key(k) <==> keys@.contains(k),
                keyed_fault(self.outputs@, output_faults(*self)) == first_fault(
                    keys@.len() as int,
                    j as int,
                    keyed_step(self.outputs@, output_faults(*self)),
                ),
            decreases keys@.len() - j,
        {
            let k = keys[j];
            proof {
                assert(keys@.contains(k));
            }
            match self.outputs.get(&k) {
                Some(x) => {
                    match output_check(self, x) {
                        Err(e) => {
                            return Err(e);
                        },
                        Ok(()) => {},
                    }
                },
                None => {},
            }
            j = j + 1;
        }
        let keys = keys_in_order(&self.multiviews);
        let mut j: usize = 0;
        while j < keys.len()
            invariant
                j <= keys@.len(),
                keys@ == key_order(self.multiviews@),
                forall|k: u128| self.multiviews@.contains_key(k) <==> keys@.contains(k),
                keyed_fault(self.multiviews@, view_faults(*self)) == first_fault(
                    keys@.len() as int,
                    j as int,
                    keyed_step(self.multiviews@, view_faults(*self)),
                ),
            decreases keys@.len() - j,
        {
            let k = keys[j];
            proof {
                assert(keys@.contains(k));
            }
            match self.multiviews.get(&k) {
                Some(x) => {
                    match multiview_check(self, x) {
                        Err(e) => {
                            return Err(e);
                        },
                        Ok(()) => {},
                    }
                },
                None => {},
            }
            j = j + 1;
        }
        MixingGraph::assert_acyclic(self)
    }
}

/// A project as `Project::new` makes it is valid.
pub proof fn lemma_fresh_project_is_valid(p: Project, name: Seq<char>)
    requires
        is_fresh_project(p, name),
    ensures
        project_fault(p) is None,
{
    let (u, o) = choose|u: u128, o: u128|
        {
            &&& #[trigger] p.mixing_units@.contains_key(u)
            &&& #[trigger] p.outputs@.contains_key(o)
            &&& p.mixing_units@[u].id.0 == u
            &&& p.mixing_units@[u].name@ == "Mix 1"@
            &&& p.mixing_units@[u].preview.scene is None
            &&& p.mixing_units@[u].program.scene is None
            &&& p.mixing_units@[u].overlays@.len() == 0
            &&& p.mixing_units@[u].outputs@ == seq![OutputId(o)]
            &&& p.mixing_units@[u].multiviews@.len() == 0
            &&& p.outputs@[o].id.0 == o
            &&& p.outputs@[o].name@ == "Program Window"@
            &&& p.outputs@[o].owner.0 == u
            &&& p.outputs@[o].video_source == OutputVideoSource::Program
            &&& p.outputs@[o].kind == OutputKind::ProgramWindow
            &&& p.outputs@[o].enabled
            &&& p.outputs@[o].distribution is None
        };
    assert(p.inputs@.dom() =~= Set::<u128>::empty());
    assert(p.scenes@.dom() =~= Set::<u128>::empty());
    assert(p.multiviews@.dom() =~= Set::<u128>::empty());
    let none: Seq<u128> = seq![];
    assert(none.to_set() =~= Set::<u128>::empty());
    lemma_key_order(p.inputs@, none);
    lemma_key_order(p.scenes@, none);
    lemma_key_order(p.multiviews@, none);
    assert(p.mixing_units@.dom() =~= set![u]) by {
        vstd::set_lib::lemma_set_empty_equivalency_len(p.mixing_units@.dom().remove(u));
        assert forall|k: u128| p.mixing_units@.contains_key(k) implies k == u by {
            if k != u {
                assert(p.mixing_units@.dom().remove(u).contains(k));
            }
        }
    }
    assert(p.outputs@.dom() =~= set![o]) by {
        vstd::set_lib::lemma_set_empty_equivalency_len(p.outputs@.dom().remove(o));
        assert forall|k: u128| p.outputs@.contains_key(k) implies k == o by {
            if k != o {
                assert(p.outputs@.dom().remove(o).contains(k));
            }
        }
    }
    let su: Seq<u128> = seq![u];
    let so: Seq<u128> = seq![o];
    assert forall|x: u128| su.to_set().contains(x) <==> x == u by {
        if x == u {
            assert(su[0] == x);
        }
    }
    assert forall|x: u128| so.to_set().contains(x) <==> x == o by {
        if x == o {
            assert(so[0] == x);
        }
    }
    assert(su.to_set() =~= set![u]);
    assert(so.to_set() =~= set![o]);
    lemma_key_order(p.mixing_units@, su);
    lemma_key_order(p.outputs@, so);
    let unit = p.mixing_units@[u];
    assert(first_fault(1, 1, unit_output_faults(p, unit)) is None);
    assert(unit_fault(p, unit) is None);
    assert(first_fault(1, 1, keyed_step(p.mixing_units@, unit_faults(p))) is None);
    assert(p.mixing_units@[u].outputs@.contains(p.outputs@[o].id)) by {
        assert(p.mixing_units@[u].outputs@[0] == p.outputs@[o].id);
    }
    assert(output_fault(p, p.outputs@[o]) is None);
    assert(first_fault(1, 1, keyed_step(p.outputs@, output_faults(p))) is None);
    assert(spec_edges(p) =~= seq![]);
    assert(!has_reachable_cycle(p)) by {
        assert forall|k: u128| !cycle_from(spec_edges(p), k) by {
            if cycle_from(spec_edges(p), k) {
                let s = choose|s: Seq<u128>| is_cycle_walk(spec_edges(p), k, s);
                assert(linked(spec_edges(p), s[0], s[1]));
            }
        }
    }
}

/// `q` is `p` with other inputs and scenes.
pub open spec fn same_but_inputs_scenes(q: Project, p: Project) -> bool {
    &&& q.schema_version == p.schema_version
    &&& q.id == p.id
    &&& q.name == p.name
    &&& q.video == p.video
    &&& q.audio == p.audio
    &&& q.mixing_units@ == p.mixing_units@
    &&& q.outputs@ == p.outputs@
    &&& q.multiviews@ == p.multiviews@
    &&& q.audio_matrix == p.audio_matrix
    &&& q.device_bindings@ == p.device_bindings@
    &&& q.assets@ == p.assets@
    &&& q.compositor == p.compositor
    &&& q.missing_media == p.missing_media
    &&& q.auxiliary_load_shedding == p.auxiliary_load_shedding
}

impl Project {
    /// Adds an input and keeps it only if the project is then valid. An id
    /// already present is a `DuplicateId` and changes nothing; a project
    /// that would be invalid reports its first fault and stays as it was.
    pub fn insert_input(&mut self, input: Input) -> (r: DomainResult<()>)
        ensures
            same_but_inputs_scenes(*final(self), *old(self)),
            final(self).scenes@ == old(self).scenes@,
            old(self).inputs@.contains_key(input.id.0) ==> (r matches Err(e) && e@ == Fault::DuplicateId(
                id_text(input.id.0),
            )),
            !old(self).inputs@.contains_key(input.id.0) ==> exists|q: Project|
                {
                    &&& same_but_inputs_scenes(q, *old(self))
                    &&& q.scenes@ == old(self).scenes@
                    &&& q.inputs@ == old(self).inputs@.insert(input.id.0, input)
                    &&& reports_fault(r, project_fault(q))
                },
            r is Ok ==> final(self).inputs@ == old(self).inputs@.insert(input.id.0, input),
            r is Err ==> final(self).inputs@ == old(self).inputs@,
    {
        proof {
            lemma_keys_ordered();
        }
        let id = input.id.0;
        if self.inputs.contains_key(&id) {
            return Err(DomainError::DuplicateId(crate::guid::uuid_to_string(id)));
        }
        let ghost before = self.inputs@;
        self.inputs.insert(id, input);
        let r = self.validate();
        match r {
            Err(e) => {
                let ghost q = *self;
                self.inputs.remove(&id);
                proof {
                    assert(self.inputs@ =~= before);
                    assert(same_but_inputs_scenes(q, *old(self)));
                }
                Err(e)
            },
            Ok(()) => {
                proof {
                    assert(same_but_inputs_scenes(*self, *old(self)));
                }
                Ok(())
            },
        }
    }

    /// Adds a scene and keeps it only if the project is then valid, as
    /// `insert_input` does for inputs.
    pub fn insert_scene(&mut self, scene: Scene) -> (r: DomainResult<()>)
        ensures
            same_but_inputs_scenes(*final(self), *old(self)),
            final(self).inputs@ == old(self).inputs@,
            old(self).scenes@.contains_key(scene.id.0) ==> (r matches Err(e) && e@ == Fault::DuplicateId(
                id_text(scene.id.0),
            )),
            !old(self).scenes@.contains_key(scene.id.0) ==> exists|q: Project|
                {
                    &&& same_but_inputs_scenes(q, *old(self))
                    &&& q.inputs@ == old(self).inputs@
                    &&& q.scenes@ == old(self).scenes@.insert(scene.id.0, scene)
                    &&& reports_fault(r, project_fault(q))
                },
            r is Ok ==> final(self).scenes@ == old(self).scenes@.insert(scene.id.0, scene),
            r is Err ==> final(self).scenes@ == old(self).scenes@,
    {
        proof {
            lemma_keys_ordered();
        }
        let id = scene.id.0;
        if self.scenes.contains_key(&id) {
            return Err(DomainError::DuplicateId(crate::guid::uuid_to_string(id)));
        }
        let ghost before = self.scenes@;
        self.scenes.insert(id, scene);
        let r = self.validate();
        match r {
            Err(e) => {
                let ghost q = *self;
                self.scenes.remove(&id);
                proof {
                    assert(self.scenes@ =~= before);
                    assert(same_but_inputs_scenes(q, *old(self)));
                }
                Err(e)
            },
            Ok(()) => {
                proof {
                    assert(same_but_inputs_scenes(*self, *old(self)));
                }
                Ok(())
            },
        }
    }
}

} // verus!
