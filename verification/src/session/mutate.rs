//! Typed document mutations. Callers stage a clone, canonicalize, then replace.

use vstd::prelude::*;

use crate::command::SessionMutation;
use crate::error::{ControlError, ControlErrorView, ControlResult, ErrorKind};
use crate::session::edit::{
    id_text, id_text_exec, input_id_seq, max_u64, multiview_id_seq, next_input_id, sat_inc, scene_id_seq,
    unit_id_seq,
};
use crate::guid::{is_hyphenated_uuid, new_guid};
use crate::session::edit::{scene_at, scene_index, set_layers, spec_next_input_id, with_layers};
use crate::session::model::{
    BusDto, BusDtoView, Document, DocumentView, InputDto, InputDtoView, InputKind, MultiviewDto,
    MultiviewDtoView, OutputDto, OutputDtoView, OutputSourceKind, OutputTransport, OverlaySlot, SceneDto, SceneDtoView, SceneLayer,
    SessionSettings, SessionSettingsView, UnitDto, UnitDtoView,
};
use crate::text::{owned, spec_trim, trim};

verus! {

/// Index of the first entry equal to `id` at or after `i`.
pub open spec fn first_index(ids: Seq<u64>, id: u64, i: int) -> Option<int>
    decreases ids.len() - i,
{
    if i >= ids.len() {
        None
    } else if ids[i] == id {
        Some(i)
    } else {
        first_index(ids, id, i + 1)
    }
}

pub proof fn lemma_first_index(ids: Seq<u64>, id: u64, i: int)
    requires
        0 <= i,
    ensures
        first_index(ids, id, i) matches Some(x) ==> i <= x < ids.len() && ids[x] == id && forall|
            t: int,
        | i <= t < x ==> ids[t] != id,
        first_index(ids, id, i) is None <==> forall|t: int| i <= t < ids.len() ==> ids[t] != id,
    decreases ids.len() - i,
{
    if i < ids.len() && ids[i] != id {
        lemma_first_index(ids, id, i + 1);
    }
}

pub(crate) fn position(ids: &Vec<u64>, id: u64) -> (r: Option<usize>)
    ensures
        match r {
            Some(k) => first_index(ids@, id, 0) == Some(k as int) && k < ids.len(),
            None => first_index(ids@, id, 0) is None,
        },
{
    proof {
        lemma_first_index(ids@, id, 0);
    }
    let mut i: usize = 0;
    while i < ids.len()
        invariant
            i <= ids.len(),
            first_index(ids@, id, 0) == first_index(ids@, id, i as int),
        decreases ids.len() - i,
    {
        if ids[i] == id {
            return Some(i);
        }
        i = i + 1;
    }
    None
}

pub(crate) fn input_ids(document: &Document) -> (r: Vec<u64>)
    ensures
        r@ == input_id_seq(document@),
{
    let mut r: Vec<u64> = Vec::new();
    let mut i: usize = 0;
    while i < document.inputs.len()
        invariant
            i <= document.inputs.len(),
            r@ =~= input_id_seq(document@).take(i as int),
        decreases document.inputs.len() - i,
    {
        r.push(document.inputs[i].id);
        i = i + 1;
    }
    assert(input_id_seq(document@).take(i as int) =~= input_id_seq(document@));
    r
}

pub(crate) fn scene_ids(document: &Document) -> (r: Vec<u64>)
    ensures
        r@ == scene_id_seq(document@),
{
    let mut r: Vec<u64> = Vec::new();
    let mut i: usize = 0;
    while i < document.scenes.len()
        invariant
            i <= document.scenes.len(),
            r@ =~= scene_id_seq(document@).take(i as int),
        decreases document.scenes.len() - i,
    {
        r.push(document.scenes[i].id);
        i = i + 1;
    }
    assert(scene_id_seq(document@).take(i as int) =~= scene_id_seq(document@));
    r
}

pub(crate) fn unit_ids(document: &Document) -> (r: Vec<u64>)
    ensures
        r@ == unit_id_seq(document@),
{
    let mut r: Vec<u64> = Vec::new();
    let mut i: usize = 0;
    while i < document.units.len()
        invariant
            i <= document.units.len(),
            r@ =~= unit_id_seq(document@).take(i as int),
        decreases document.units.len() - i,
    {
        r.push(document.units[i].id);
        i = i + 1;
    }
    assert(unit_id_seq(document@).take(i as int) =~= unit_id_seq(document@));
    r
}

pub(crate) fn multiview_ids(document: &Document) -> (r: Vec<u64>)
    ensures
        r@ == multiview_id_seq(document@),
{
    let mut r: Vec<u64> = Vec::new();
    let mut i: usize = 0;
    while i < document.multiviews.len()
        invariant
            i <= document.multiviews.len(),
            r@ =~= multiview_id_seq(document@).take(i as int),
        decreases document.multiviews.len() - i,
    {
        r.push(document.multiviews[i].id);
        i = i + 1;
    }
    assert(multiview_id_seq(document@).take(i as int) =~= multiview_id_seq(document@));
    r
}

pub open spec fn input_kept(id: u64) -> spec_fn(InputDtoView) -> bool {
    |x: InputDtoView| x.id != id
}

pub open spec fn scene_kept(id: u64) -> spec_fn(SceneDtoView) -> bool {
    |x: SceneDtoView| x.id != id
}

pub open spec fn unit_kept(id: u64) -> spec_fn(UnitDtoView) -> bool {
    |x: UnitDtoView| x.id != id
}

pub open spec fn multiview_kept(id: u64) -> spec_fn(MultiviewDtoView) -> bool {
    |x: MultiviewDtoView| x.id != id
}

pub open spec fn layer_kept(input_id: u64) -> spec_fn(SceneLayer) -> bool {
    |l: SceneLayer| l.input_id != input_id
}

/// Scenes with every layer that shows input `id` removed.
pub open spec fn scenes_without_input(scenes: Seq<SceneDtoView>, id: u64) -> Seq<SceneDtoView> {
    scenes.map_values(|s: SceneDtoView| SceneDtoView { layers: s.layers.filter(layer_kept(id)), ..s })
}

fn inputs_except(v: &Vec<InputDto>, id: u64) -> (r: Vec<InputDto>)
    ensures
        r@.map_values(|x: InputDto| x@) == v@.map_values(|x: InputDto| x@).filter(input_kept(id)),
{
    let ghost all = v@.map_values(|x: InputDto| x@);
    let mut r: Vec<InputDto> = Vec::new();
    let mut i: usize = 0;
    while i < v.len()
        invariant
            i <= v.len(),
            all == v@.map_values(|x: InputDto| x@),
            r@.map_values(|x: InputDto| x@) == all.take(i as int).filter(input_kept(id)),
        decreases v.len() - i,
    {
        proof {
            reveal(Seq::filter);
            assert(all.take(i + 1).drop_last() =~= all.take(i as int));
            assert(all.take(i + 1).last() == v@[i as int]@);
        }
        if v[i].id != id {
            let x = v[i].clone();
            let ghost before = r@;
            r.push(x);
            proof {
                assert(r@.map_values(|x: InputDto| x@) =~= before.map_values(|x: InputDto| x@).push(x@));
            }
        }
        i = i + 1;
    }
    assert(all.take(v.len() as int) =~= all);
    r
}

fn scenes_except(v: &Vec<SceneDto>, id: u64) -> (r: Vec<SceneDto>)
    ensures
        r@.map_values(|x: SceneDto| x@) == v@.map_values(|x: SceneDto| x@).filter(scene_kept(id)),
{
    let ghost all = v@.map_values(|x: SceneDto| x@);
    let mut r: Vec<SceneDto> = Vec::new();
    let mut i: usize = 0;
    while i < v.len()
        invariant
            i <= v.len(),
            all == v@.map_values(|x: SceneDto| x@),
            r@.map_values(|x: SceneDto| x@) == all.take(i as int).filter(scene_kept(id)),
        decreases v.len() - i,
    {
        proof {
            reveal(Seq::filter);
            assert(all.take(i + 1).drop_last() =~= all.take(i as int));
            assert(all.take(i + 1).last() == v@[i as int]@);
        }
        if v[i].id != id {
            let x = v[i].clone();
            let ghost before = r@;
            r.push(x);
            proof {
                assert(r@.map_values(|x: SceneDto| x@) =~= before.map_values(|x: SceneDto| x@).push(x@));
            }
        }
        i = i + 1;
    }
    assert(all.take(v.len() as int) =~= all);
    r
}

fn units_except(v: &Vec<UnitDto>, id: u64) -> (r: Vec<UnitDto>)
    ensures
        r@.map_values(|x: UnitDto| x@) == v@.map_values(|x: UnitDto| x@).filter(unit_kept(id)),
{
    let ghost all = v@.map_values(|x: UnitDto| x@);
    let mut r: Vec<UnitDto> = Vec::new();
    let mut i: usize = 0;
    while i < v.len()
        invariant
            i <= v.len(),
            all == v@.map_values(|x: UnitDto| x@),
            r@.map_values(|x: UnitDto| x@) == all.take(i as int).filter(unit_kept(id)),
        decreases v.len() - i,
    {
        proof {
            reveal(Seq::filter);
            assert(all.take(i + 1).drop_last() =~= all.take(i as int));
            assert(all.take(i + 1).last() == v@[i as int]@);
        }
        if v[i].id != id {
            let x = v[i].clone();
            let ghost before = r@;
            r.push(x);
            proof {
                assert(r@.map_values(|x: UnitDto| x@) =~= before.map_values(|x: UnitDto| x@).push(x@));
            }
        }
        i = i + 1;
    }
    assert(all.take(v.len() as int) =~= all);
    r
}

fn multiviews_except(v: &Vec<MultiviewDto>, id: u64) -> (r: Vec<MultiviewDto>)
    ensures
        r@.map_values(|x: MultiviewDto| x@) == v@.map_values(|x: MultiviewDto| x@).filter(
            multiview_kept(id),
        ),
{
    let ghost all = v@.map_values(|x: MultiviewDto| x@);
    let mut r: Vec<MultiviewDto> = Vec::new();
    let mut i: usize = 0;
    while i < v.len()
        invariant
            i <= v.len(),
            all == v@.map_values(|x: MultiviewDto| x@),
            r@.map_values(|x: MultiviewDto| x@) == all.take(i as int).filter(multiview_kept(id)),
        decreases v.len() - i,
    {
        proof {
            reveal(Seq::filter);
            assert(all.take(i + 1).drop_last() =~= all.take(i as int));
            assert(all.take(i + 1).last() == v@[i as int]@);
        }
        if v[i].id != id {
            let x = v[i].clone();
            let ghost before = r@;
            r.push(x);
            proof {
                assert(r@.map_values(|x: MultiviewDto| x@) =~= before.map_values(
                    |x: MultiviewDto| x@,
                ).push(x@));
            }
        }
        i = i + 1;
    }
    assert(all.take(v.len() as int) =~= all);
    r
}

fn layers_except(v: &Vec<SceneLayer>, input_id: u64) -> (r: Vec<SceneLayer>)
    ensures
        r@ == v@.filter(layer_kept(input_id)),
{
    let mut r: Vec<SceneLayer> = Vec::new();
    let mut i: usize = 0;
    while i < v.len()
        invariant
            i <= v.len(),
            r@ == v@.take(i as int).filter(layer_kept(input_id)),
        decreases v.len() - i,
    {
        proof {
            reveal(Seq::filter);
            assert(v@.take(i + 1).drop_last() =~= v@.take(i as int));
        }
        if v[i].input_id != input_id {
            r.push(v[i]);
        }
        i = i + 1;
    }
    assert(v@.take(v.len() as int) =~= v@);
    r
}

fn drop_input_layers(document: &mut Document, id: u64)
    ensures
        final(document)@ == (DocumentView {
            scenes: scenes_without_input(old(document)@.scenes, id),
            ..old(document)@
        }),
{
    let ghost start = document@;
    let mut i: usize = 0;
    while i < document.scenes.len()
        invariant
            i <= document.scenes.len(),
            document.scenes.len() == start.scenes.len(),
            document@ == (DocumentView { scenes: document@.scenes, ..start }),
            forall|j: int|
                0 <= j < i ==> document@.scenes[j] == scenes_without_input(start.scenes, id)[j],
            forall|j: int| i <= j < document.scenes.len() ==> document@.scenes[j] == start.scenes[j],
        decreases document.scenes.len() - i,
    {
        let mut x = document.scenes[i].clone();
        x.layers = layers_except(&document.scenes[i].layers, id);
        let ghost before = document.scenes@;
        document.scenes.set(i, x);
        proof {
            assert(document.scenes@.map_values(|y: SceneDto| y@) =~= before.map_values(
                |y: SceneDto| y@,
            ).update(i as int, x@));
        }
        i = i + 1;
    }
    assert(document@.scenes =~= scenes_without_input(start.scenes, id));
}

/// `NotFound` naming a resource by kind and id, such as `input 7`.
pub open spec fn missing(kind: Seq<char>, id: u64) -> ControlErrorView {
    ControlErrorView { kind: ErrorKind::NotFound, message: id_text(kind, id, ""@) }
}

pub open spec fn invalid_arg(message: Seq<char>) -> ControlErrorView {
    ControlErrorView { kind: ErrorKind::InvalidArgument, message }
}

/// A mutation either fails and leaves the document as it was, or succeeds
/// with exactly the expected document.
pub open spec fn settles(
    r: ControlResult<()>,
    before: DocumentView,
    after: DocumentView,
    expected: Result<DocumentView, ControlErrorView>,
) -> bool {
    match expected {
        Ok(d) => r is Ok && after == d,
        Err(e) => after == before && (r matches Err(x) && x@ == e),
    }
}

fn not_found(kind: &str, id: u64) -> (r: ControlError)
    ensures
        r@ == missing(kind@, id),
{
    ControlError::NotFound { message: id_text_exec(kind, id, "") }
}

/// Deleting an input also drops every scene layer that showed it.
pub open spec fn spec_delete_input(d: DocumentView, id: u64) -> Result<DocumentView, ControlErrorView> {
    if !input_id_seq(d).contains(id) {
        Err(missing("input "@, id))
    } else {
        Ok(
            DocumentView {
                inputs: d.inputs.filter(input_kept(id)),
                scenes: scenes_without_input(d.scenes, id),
                ..d
            },
        )
    }
}

pub open spec fn spec_delete_scene(d: DocumentView, id: u64) -> Result<DocumentView, ControlErrorView> {
    if !scene_id_seq(d).contains(id) {
        Err(missing("scene "@, id))
    } else {
        Ok(DocumentView { scenes: d.scenes.filter(scene_kept(id)), ..d })
    }
}

pub open spec fn spec_delete_multiview(d: DocumentView, id: u64) -> Result<DocumentView, ControlErrorView> {
    if !multiview_id_seq(d).contains(id) {
        Err(missing("multiview "@, id))
    } else {
        Ok(DocumentView { multiviews: d.multiviews.filter(multiview_kept(id)), ..d })
    }
}

/// The last Mixing Unit cannot go; when the selected unit goes, the first
/// remaining one (or id 1 when none remains) becomes selected.
pub open spec fn spec_delete_unit(d: DocumentView, id: u64) -> Result<DocumentView, ControlErrorView> {
    let kept = d.units.filter(unit_kept(id));
    if d.units.len() <= 1 {
        Err(invalid_arg("refusing to delete the last mixing unit"@))
    } else if !unit_id_seq(d).contains(id) {
        Err(missing("unit "@, id))
    } else {
        Ok(
            DocumentView {
                units: kept,
                selected_unit_id: if d.selected_unit_id == id {
                    if kept.len() > 0 {
                        kept[0].id
                    } else {
                        1
                    }
                } else {
                    d.selected_unit_id
                },
                ..d
            },
        )
    }
}

fn present(ids: &Vec<u64>, id: u64) -> (r: bool)
    ensures
        r == ids@.contains(id),
{
    crate::session::validate::vec_contains(ids, id)
}

fn delete_input(document: &mut Document, id: u64) -> (r: ControlResult<()>)
    ensures
        settles(r, old(document)@, final(document)@, spec_delete_input(old(document)@, id)),
{
    let ids = input_ids(document);
    if !present(&ids, id) {
        return Err(not_found("input ", id));
    }
    let kept = inputs_except(&document.inputs, id);
    document.inputs = kept;
    drop_input_layers(document, id);
    Ok(())
}

fn delete_scene(document: &mut Document, id: u64) -> (r: ControlResult<()>)
    ensures
        settles(r, old(document)@, final(document)@, spec_delete_scene(old(document)@, id)),
{
    let ids = scene_ids(document);
    if !present(&ids, id) {
        return Err(not_found("scene ", id));
    }
    let kept = scenes_except(&document.scenes, id);
    document.scenes = kept;
    Ok(())
}

fn delete_multiview(document: &mut Document, id: u64) -> (r: ControlResult<()>)
    ensures
        settles(r, old(document)@, final(document)@, spec_delete_multiview(old(document)@, id)),
{
    let ids = multiview_ids(document);
    if !present(&ids, id) {
        return Err(not_found("multiview ", id));
    }
    let kept = multiviews_except(&document.multiviews, id);
    document.multiviews = kept;
    Ok(())
}

fn delete_unit(document: &mut Document, id: u64) -> (r: ControlResult<()>)
    ensures
        settles(r, old(document)@, final(document)@, spec_delete_unit(old(document)@, id)),
{
    if document.units.len() <= 1 {
        return Err(ControlError::invalid("refusing to delete the last mixing unit"));
    }
    let ids = unit_ids(document);
    if !present(&ids, id) {
        return Err(not_found("unit ", id));
    }
    let kept = units_except(&document.units, id);
    let ghost kv = kept@.map_values(|x: UnitDto| x@);
    document.units = kept;
    if document.selected_unit_id == id {
        if document.units.len() > 0 {
            assert(kv[0] == document.units@[0]@);
            document.selected_unit_id = document.units[0].id;
        } else {
            document.selected_unit_id = 1;
        }
    }
    Ok(())
}

/// Inserting an input with a new id also moves the id counter past it.
pub open spec fn spec_upsert_input(d: DocumentView, x: InputDtoView) -> Result<DocumentView, ControlErrorView> {
    if x.id == 0 {
        Err(invalid_arg("input id required"@))
    } else {
        match first_index(input_id_seq(d), x.id, 0) {
            Some(k) => Ok(DocumentView { inputs: d.inputs.update(k, x), ..d }),
            None => Ok(
                DocumentView {
                    inputs: d.inputs.push(x),
                    next_input_id: max_u64(d.next_input_id, sat_inc(x.id)),
                    ..d
                },
            ),
        }
    }
}

pub open spec fn spec_upsert_scene(d: DocumentView, x: SceneDtoView) -> Result<DocumentView, ControlErrorView> {
    if x.id == 0 {
        Err(invalid_arg("scene id required"@))
    } else {
        match first_index(scene_id_seq(d), x.id, 0) {
            Some(k) => Ok(DocumentView { scenes: d.scenes.update(k, x), ..d }),
            None => Ok(
                DocumentView {
                    scenes: d.scenes.push(x),
                    next_scene_id: max_u64(d.next_scene_id, sat_inc(x.id)),
                    ..d
                },
            ),
        }
    }
}

pub open spec fn spec_upsert_unit(d: DocumentView, x: UnitDtoView) -> Result<DocumentView, ControlErrorView> {
    if x.id == 0 {
        Err(invalid_arg("unit id required"@))
    } else {
        match first_index(unit_id_seq(d), x.id, 0) {
            Some(k) => Ok(DocumentView { units: d.units.update(k, x), ..d }),
            None => Ok(
                DocumentView {
                    units: d.units.push(x),
                    next_unit_id: max_u64(d.next_unit_id, sat_inc(x.id)),
                    ..d
                },
            ),
        }
    }
}

pub open spec fn spec_upsert_multiview(d: DocumentView, x: MultiviewDtoView) -> Result<
    DocumentView,
    ControlErrorView,
> {
    if x.id == 0 {
        Err(invalid_arg("multiview id required"@))
    } else {
        match first_index(multiview_id_seq(d), x.id, 0) {
            Some(k) => Ok(DocumentView { multiviews: d.multiviews.update(k, x), ..d }),
            None => Ok(
                DocumentView {
                    multiviews: d.multiviews.push(x),
                    next_multiview_id: max_u64(d.next_multiview_id, sat_inc(x.id)),
                    ..d
                },
            ),
        }
    }
}

fn upsert_input(document: &mut Document, input: InputDto) -> (r: ControlResult<()>)
    ensures
        settles(r, old(document)@, final(document)@, spec_upsert_input(old(document)@, input@)),
{
    if input.id == 0 {
        return Err(ControlError::invalid("input id required"));
    }
    let ids = input_ids(document);
    let ghost before = document.inputs@;
    let ghost xv = input@;
    match position(&ids, input.id) {
        Some(k) => {
            document.inputs.set(k, input);
            proof {
                assert(document.inputs@.map_values(|t: InputDto| t@) =~= before.map_values(
                    |t: InputDto| t@,
                ).update(k as int, xv));
            }
        },
        None => {
            let bumped = input.id.saturating_add(1);
            if bumped > document.next_input_id {
                document.next_input_id = bumped;
            }
            document.inputs.push(input);
            proof {
                assert(document.inputs@.map_values(|t: InputDto| t@) =~= before.map_values(
                    |t: InputDto| t@,
                ).push(xv));
            }
        },
    }
    Ok(())
}

fn upsert_scene(document: &mut Document, scene: SceneDto) -> (r: ControlResult<()>)
    ensures
        settles(r, old(document)@, final(document)@, spec_upsert_scene(old(document)@, scene@)),
{
    if scene.id == 0 {
        return Err(ControlError::invalid("scene id required"));
    }
    let ids = scene_ids(document);
    let ghost before = document.scenes@;
    let ghost xv = scene@;
    match position(&ids, scene.id) {
        Some(k) => {
            document.scenes.set(k, scene);
            proof {
                assert(document.scenes@.map_values(|t: SceneDto| t@) =~= before.map_values(
                    |t: SceneDto| t@,
                ).update(k as int, xv));
            }
        },
        None => {
            let bumped = scene.id.saturating_add(1);
            if bumped > document.next_scene_id {
                document.next_scene_id = bumped;
            }
            document.scenes.push(scene);
            proof {
                assert(document.scenes@.map_values(|t: SceneDto| t@) =~= before.map_values(
                    |t: SceneDto| t@,
                ).push(xv));
            }
        },
    }
    Ok(())
}

fn upsert_unit(document: &mut Document, unit: UnitDto) -> (r: ControlResult<()>)
    ensures
        settles(r, old(document)@, final(document)@, spec_upsert_unit(old(document)@, unit@)),
{
    if unit.id == 0 {
        return Err(ControlError::invalid("unit id required"));
    }
    let ids = unit_ids(document);
    let ghost before = document.units@;
    let ghost xv = unit@;
    match position(&ids, unit.id) {
        Some(k) => {
            document.units.set(k, unit);
            proof {
                assert(document.units@.map_values(|t: UnitDto| t@) =~= before.map_values(
                    |t: UnitDto| t@,
                ).update(k as int, xv));
            }
        },
        None => {
            let bumped = unit.id.saturating_add(1);
            if bumped > document.next_unit_id {
                document.next_unit_id = bumped;
            }
            document.units.push(unit);
            proof {
                assert(document.units@.map_values(|t: UnitDto| t@) =~= before.map_values(
                    |t: UnitDto| t@,
                ).push(xv));
            }
        },
    }
    Ok(())
}

fn upsert_multiview(document: &mut Document, layout: MultiviewDto) -> (r: ControlResult<()>)
    ensures
        settles(
            r,
            old(document)@,
            final(document)@,
            spec_upsert_multiview(old(document)@, layout@),
        ),
{
    if layout.id == 0 {
        return Err(ControlError::invalid("multiview id required"));
    }
    let ids = multiview_ids(document);
    let ghost before = document.multiviews@;
    let ghost xv = layout@;
    match position(&ids, layout.id) {
        Some(k) => {
            document.multiviews.set(k, layout);
            proof {
                assert(document.multiviews@.map_values(|t: MultiviewDto| t@) =~= before.map_values(
                    |t: MultiviewDto| t@,
                ).update(k as int, xv));
            }
        },
        None => {
            let bumped = layout.id.saturating_add(1);
            if bumped > document.next_multiview_id {
                document.next_multiview_id = bumped;
            }
            document.multiviews.push(layout);
            proof {
                assert(document.multiviews@.map_values(|t: MultiviewDto| t@) =~= before.map_values(
                    |t: MultiviewDto| t@,
                ).push(xv));
            }
        },
    }
    Ok(())
}

pub open spec fn spec_set_scene_layers(d: DocumentView, scene_id: u64, layers: Seq<SceneLayer>) -> Result<
    DocumentView,
    ControlErrorView,
> {
    match scene_at(d, scene_id) {
        Some(k) => Ok(with_layers(d, k, layers)),
        None => Err(missing("scene "@, scene_id)),
    }
}

fn set_scene_layers(document: &mut Document, scene_id: u64, layers: Vec<SceneLayer>) -> (r:
    ControlResult<()>)
    ensures
        settles(
            r,
            old(document)@,
            final(document)@,
            spec_set_scene_layers(old(document)@, scene_id, layers@),
        ),
{
    let k = match scene_index(document, scene_id) {
        Ok(k) => k,
        Err(e) => return Err(e),
    };
    set_layers(document, k, layers);
    Ok(())
}

/// Overlay slots with `slot` written at `index`; slots missing below it are
/// filled with the default slot.
pub open spec fn slot_written(overlays: Seq<OverlaySlot>, index: int, slot: OverlaySlot) -> Seq<
    OverlaySlot,
> {
    let n = if index < overlays.len() {
        overlays.len() as int
    } else {
        index + 1
    };
    Seq::new(
        n as nat,
        |j: int|
            if j == index {
                slot
            } else if j < overlays.len() {
                overlays[j]
            } else {
                OverlaySlot::default_value()
            },
    )
}

pub open spec fn spec_set_overlay_slot(d: DocumentView, unit_id: u64, index: u32, slot: OverlaySlot) -> Result<
    DocumentView,
    ControlErrorView,
> {
    match first_index(unit_id_seq(d), unit_id, 0) {
        Some(k) => Ok(
            DocumentView {
                units: d.units.update(
                    k,
                    UnitDtoView {
                        overlays: slot_written(d.units[k].overlays, index as int, slot),
                        ..d.units[k]
                    },
                ),
                ..d
            },
        ),
        None => Err(missing("unit "@, unit_id)),
    }
}

fn set_overlay_slot(document: &mut Document, unit_id: u64, index: u32, slot: OverlaySlot) -> (r:
    ControlResult<()>)
    requires
        index < usize::MAX,
    ensures
        settles(
            r,
            old(document)@,
            final(document)@,
            spec_set_overlay_slot(old(document)@, unit_id, index, slot),
        ),
{
    let ids = unit_ids(document);
    let k = match position(&ids, unit_id) {
        Some(k) => k,
        None => return Err(not_found("unit ", unit_id)),
    };
    let ghost before = document.units@;
    let mut unit = document.units[k].clone();
    let ghost ov = unit.overlays@;
    let i = index as usize;
    if i >= unit.overlays.len() {
        let fill = OverlaySlot::default();
        unit.overlays.resize(i + 1, fill);
        proof {
            assert forall|j: int| ov.len() <= j < i + 1 implies unit.overlays@[j]
                == OverlaySlot::default_value() by {
                assert(vstd::pervasive::cloned(fill, unit.overlays@[j]));
            }
            assert forall|j: int| 0 <= j < ov.len() implies unit.overlays@[j] == ov[j] by {
                assert(unit.overlays@.subrange(0, ov.len() as int)[j] == ov[j]);
            }
        }
    }
    unit.overlays.set(i, slot);
    proof {
        assert(unit.overlays@ =~= slot_written(ov, index as int, slot));
    }
    let ghost uv = unit@;
    document.units.set(k, unit);
    proof {
        assert(document.units@.map_values(|t: UnitDto| t@) =~= before.map_values(|t: UnitDto| t@).update(
            k as int,
            uv,
        ));
    }
    Ok(())
}

/// What `std::path::Path::file_stem` gives for a path, as text. Which
/// characters separate path components is fixed by the target the crate is
/// built for (`/` on Unix, `/` and `\` on Windows), so the value is the same
/// throughout one build but may differ between targets.
pub uninterp spec fn path_file_stem(path: Seq<char>) -> Option<Seq<char>>;

/// `Path::new(path).file_stem()` read back as UTF-8 text; `None` where there
/// is no stem (or it is not valid UTF-8).
#[verifier::external_body]
fn file_stem(path: &str) -> (r: Option<String>)
    ensures
        match r {
            Some(s) => path_file_stem(path@) == Some(s@),
            None => path_file_stem(path@) is None,
        },
{
    match std::path::Path::new(path).file_stem() {
        Some(stem) => match stem.to_str() {
            Some(text) => Some(text.to_string()),
            None => None,
        },
        None => None,
    }
}

/// Name an uploaded file gets when none was given: `Video <stem>` or
/// `Still <stem>`, with `Media` when the path has no stem.
pub open spec fn media_name(kind: InputKind, stem: Option<Seq<char>>) -> Seq<char> {
    let file = match stem {
        Some(s) => s,
        None => "Media"@,
    };
    if kind == InputKind::Video {
        "Video "@ + file
    } else {
        "Still "@ + file
    }
}

/// The default name of uploaded media from the stem of its file name.
pub fn media_name_from_stem(kind: InputKind, stem: Option<&str>) -> (r: String)
    ensures
        r@ == media_name(
            kind,
            match stem {
                Some(s) => Some(s@),
                None => None,
            },
        ),
{
    let mut t = if kind == InputKind::Video {
        owned("Video ")
    } else {
        owned("Still ")
    };
    match stem {
        Some(s) => t.append(s),
        None => t.append("Media"),
    }
    t
}

fn default_media_name(kind: InputKind, path: &str) -> (r: String)
    ensures
        r@ == media_name(kind, path_file_stem(path@)),
{
    let stem = file_stem(path);
    match &stem {
        Some(s) => media_name_from_stem(kind, Some(s.as_str())),
        None => media_name_from_stem(kind, None),
    }
}

/// The input that uploaded media becomes.
pub open spec fn media_input(
    id: u64,
    guid: Seq<char>,
    name: Seq<char>,
    kind: InputKind,
    host_path: Seq<char>,
    video_loop: bool,
    tags: Seq<Seq<char>>,
) -> InputDtoView {
    InputDtoView {
        id,
        guid,
        name: if spec_trim(name).len() == 0 {
            media_name(kind, path_file_stem(host_path))
        } else {
            name
        },
        kind,
        path_or_address: Some(host_path),
        video_loop,
        tags,
        ..InputDto::spec_default()
    }
}

/// Uploaded media must be a still or a video with a host path; it is
/// appended as a new input with a fresh id and a random GUID.
pub open spec fn media_added(
    d: DocumentView,
    name: Seq<char>,
    kind: InputKind,
    host_path: Seq<char>,
    video_loop: bool,
    tags: Seq<Seq<char>>,
    r: ControlResult<()>,
    after: DocumentView,
) -> bool {
    if !(kind == InputKind::Still || kind == InputKind::Video) {
        after == d && (r matches Err(e) && e@ == invalid_arg(
            "uploaded media must be Still or Video"@,
        ))
    } else if host_path.len() == 0 {
        after == d && (r matches Err(e) && e@ == invalid_arg("host path required"@))
    } else {
        let id = spec_next_input_id(d);
        let added = after.inputs.last();
        &&& r is Ok
        &&& after == (DocumentView {
            inputs: d.inputs.push(added),
            next_input_id: sat_inc(id),
            ..d
        })
        &&& added == media_input(id, added.guid, name, kind, host_path, video_loop, tags)
        &&& is_hyphenated_uuid(added.guid)
    }
}

fn add_media_input(
    document: &mut Document,
    name: String,
    kind: InputKind,
    host_path: String,
    video_loop: bool,
    tags: Vec<String>,
) -> (r: ControlResult<()>)
    ensures
        media_added(
            old(document)@,
            name@,
            kind,
            host_path@,
            video_loop,
            tags@.map_values(|t: String| t@),
            r,
            final(document)@,
        ),
{
    if !(kind == InputKind::Still || kind == InputKind::Video) {
        return Err(ControlError::invalid("uploaded media must be Still or Video"));
    }
    if host_path.unicode_len() == 0 {
        return Err(ControlError::invalid("host path required"));
    }
    let id = next_input_id(document);
    let name = if trim(name.as_str()).unicode_len() == 0 {
        default_media_name(kind, host_path.as_str())
    } else {
        name
    };
    let input = InputDto {
        id,
        guid: new_guid(),
        name,
        kind,
        path_or_address: Some(host_path),
        video_loop,
        tags,
        ..InputDto::default()
    };
    let ghost before = document.inputs@;
    let ghost xv = input@;
    document.inputs.push(input);
    document.next_input_id = id.saturating_add(1);
    proof {
        assert(document.inputs@.map_values(|t: InputDto| t@) =~= before.map_values(|t: InputDto| t@).push(
            xv,
        ));
    }
    Ok(())
}

/// New settings keep the renderer and the last session path of the running
/// document; zero id counters leave the current ones.
pub open spec fn settings_set(
    d: DocumentView,
    settings: SessionSettingsView,
    outputs: Seq<OutputDtoView>,
    buses: Seq<BusDtoView>,
    headphone_copy_master: bool,
    next_output_id: u64,
    next_bus_id: u64,
) -> DocumentView {
    DocumentView {
        settings: SessionSettingsView {
            renderer: d.settings.renderer,
            last_session_path: d.settings.last_session_path,
            ..settings
        },
        outputs,
        buses,
        headphone_copy_master,
        next_output_id: if next_output_id != 0 {
            next_output_id
        } else {
            d.next_output_id
        },
        next_bus_id: if next_bus_id != 0 {
            next_bus_id
        } else {
            d.next_bus_id
        },
        ..d
    }
}

fn set_settings(
    document: &mut Document,
    settings: SessionSettings,
    outputs: Vec<OutputDto>,
    buses: Vec<BusDto>,
    headphone_copy_master: bool,
    next_output_id: u64,
    next_bus_id: u64,
)
    ensures
        final(document)@ == settings_set(
            old(document)@,
            settings@,
            outputs@.map_values(|t: OutputDto| t@),
            buses@.map_values(|t: BusDto| t@),
            headphone_copy_master,
            next_output_id,
            next_bus_id,
        ),
{
    let mut settings = settings;
    settings.renderer = document.settings.renderer;
    settings.last_session_path = document.settings.last_session_path.clone();
    document.settings = settings;
    document.outputs = outputs;
    document.buses = buses;
    document.headphone_copy_master = headphone_copy_master;
    if next_output_id != 0 {
        document.next_output_id = next_output_id;
    }
    if next_bus_id != 0 {
        document.next_bus_id = next_bus_id;
    }
}

/// Applies one collaborative edit to the document. A failed edit leaves the
/// document unchanged.
pub fn apply(document: &mut Document, mutation: SessionMutation) -> (r: ControlResult<()>)
    requires
        mutation matches SessionMutation::SetOverlaySlot { index, .. } ==> index < usize::MAX,
    ensures
        ({
            let d = old(document)@;
            let after = final(document)@;
            match mutation {
                SessionMutation::UpsertInput { input } => settles(r, d, after, spec_upsert_input(d, input@)),
                SessionMutation::DeleteInput { id } => settles(r, d, after, spec_delete_input(d, id)),
                SessionMutation::UpsertScene { scene } => settles(r, d, after, spec_upsert_scene(d, scene@)),
                SessionMutation::DeleteScene { id } => settles(r, d, after, spec_delete_scene(d, id)),
                SessionMutation::SetSceneLayers { scene_id, layers } => settles(
                    r,
                    d,
                    after,
                    spec_set_scene_layers(d, scene_id, layers@),
                ),
                SessionMutation::UpsertUnit { unit } => settles(r, d, after, spec_upsert_unit(d, unit@)),
                SessionMutation::DeleteUnit { id } => settles(r, d, after, spec_delete_unit(d, id)),
                SessionMutation::SetOverlaySlot { unit_id, index, slot } => settles(
                    r,
                    d,
                    after,
                    spec_set_overlay_slot(d, unit_id, index, *slot),
                ),
                SessionMutation::AddMediaInput { name, media_kind, host_path, video_loop, tags } =>
                    media_added(
                    d,
                    name@,
                    media_kind,
                    host_path@,
                    video_loop,
                    tags@.map_values(|t: String| t@),
                    r,
                    after,
                ),
                SessionMutation::UpsertMultiview { layout } => settles(
                    r,
                    d,
                    after,
                    spec_upsert_multiview(d, layout@),
                ),
                SessionMutation::DeleteMultiview { id } => settles(r, d, after, spec_delete_multiview(d, id)),
                SessionMutation::SetSettings {
                    settings,
                    outputs,
                    buses,
                    headphone_copy_master,
                    next_output_id,
                    next_bus_id,
                } => r is Ok && after == settings_set(
                    d,
                    settings@,
                    outputs@.map_values(|t: OutputDto| t@),
                    buses@.map_values(|t: BusDto| t@),
                    headphone_copy_master,
                    next_output_id,
                    next_bus_id,
                ),
            }
        }),
{
    match mutation {
        SessionMutation::UpsertInput { input } => upsert_input(document, *input),
        SessionMutation::DeleteInput { id } => delete_input(document, id),
        SessionMutation::UpsertScene { scene } => upsert_scene(document, *scene),
        SessionMutation::DeleteScene { id } => delete_scene(document, id),
        SessionMutation::SetSceneLayers { scene_id, layers } => set_scene_layers(document, scene_id, layers),
        SessionMutation::UpsertUnit { unit } => upsert_unit(document, *unit),
        SessionMutation::DeleteUnit { id } => delete_unit(document, id),
        SessionMutation::SetOverlaySlot { unit_id, index, slot } => set_overlay_slot(
            document,
            unit_id,
            index,
            *slot,
        ),
        SessionMutation::AddMediaInput { name, media_kind, host_path, video_loop, tags } =>
            add_media_input(document, name, media_kind, host_path, video_loop, tags),
        SessionMutation::UpsertMultiview { layout } => upsert_multiview(document, *layout),
        SessionMutation::DeleteMultiview { id } => delete_multiview(document, id),
        SessionMutation::SetSettings {
            settings,
            outputs,
            buses,
            headphone_copy_master,
            next_output_id,
            next_bus_id,
        } => {
            set_settings(
                document,
                *settings,
                outputs,
                buses,
                headphone_copy_master,
                next_output_id,
                next_bus_id,
            );
            Ok(())
        },
    }
}

/// An output that publishes video: enabled, sent over OMT or NDI, and fed
/// by a Mixing Unit's Preview or Program or by a multiview.
pub open spec fn is_published_video(o: OutputDtoView) -> bool {
    &&& o.enabled
    &&& (o.transport == OutputTransport::Omt || o.transport == OutputTransport::Ndi)
    &&& (o.source_kind == OutputSourceKind::MuPreview || o.source_kind
        == OutputSourceKind::MuProgram || o.source_kind == OutputSourceKind::Multiview)
}

pub open spec fn published_filter() -> spec_fn(OutputDtoView) -> bool {
    |o: OutputDtoView| is_published_video(o)
}

impl Document {
    /// The outputs that publish video, in document order.
    pub fn published_video_outputs(&self) -> (r: Vec<&OutputDto>)
        ensures
            r@.map_values(|o: &OutputDto| o@) == self@.outputs.filter(published_filter()),
    {
        let ghost all = self@.outputs;
        let mut r: Vec<&OutputDto> = Vec::new();
        let mut i: usize = 0;
        while i < self.outputs.len()
            invariant
                i <= self.outputs.len(),
                all == self@.outputs,
                r@.map_values(|o: &OutputDto| o@) == all.take(i as int).filter(published_filter()),
            decreases self.outputs.len() - i,
        {
            proof {
                reveal(Seq::filter);
                assert(all.take(i + 1).drop_last() =~= all.take(i as int));
                assert(all.take(i + 1).last() == self.outputs@[i as int]@);
            }
            let o = &self.outputs[i];
            let transport_ok = match o.transport {
                OutputTransport::Omt | OutputTransport::Ndi => true,
                _ => false,
            };
            let source_ok = match o.source_kind {
                OutputSourceKind::MuPreview | OutputSourceKind::MuProgram
                | OutputSourceKind::Multiview => true,
                _ => false,
            };
            if o.enabled && transport_ok && source_ok {
                let ghost before = r@;
                r.push(o);
                proof {
                    assert(r@.map_values(|o: &OutputDto| o@) =~= before.map_values(
                        |o: &OutputDto| o@,
                    ).push(o@));
                }
            }
            i = i + 1;
        }
        assert(all.take(self.outputs.len() as int) =~= all);
        r
    }
}

proof fn lemma_filter_keeps_all<A>(s: Seq<A>, keep: spec_fn(A) -> bool)
    requires
        forall|i: int| 0 <= i < s.len() ==> keep(#[trigger] s[i]),
    ensures
        s.filter(keep) == s,
    decreases s.len(),
{
    reveal(Seq::filter);
    if s.len() > 0 {
        lemma_filter_keeps_all(s.drop_last(), keep);
        assert(s.drop_last().push(s.last()) =~= s);
    }
}

proof fn lemma_filter_drops_pushed<A>(s: Seq<A>, x: A, keep: spec_fn(A) -> bool)
    requires
        !keep(x),
    ensures
        s.push(x).filter(keep) == s.filter(keep),
{
    reveal(Seq::filter);
    assert(s.push(x).drop_last() =~= s);
}

proof fn lemma_filter_all_fail<A>(s: Seq<A>, keep: spec_fn(A) -> bool)
    ensures
        forall|i: int| 0 <= i < s.filter(keep).len() ==> keep(#[trigger] s.filter(keep)[i]),
    decreases s.len(),
{
    reveal(Seq::filter);
    if s.len() > 0 {
        lemma_filter_all_fail(s.drop_last(), keep);
        let sub = s.drop_last().filter(keep);
        assert forall|i: int| 0 <= i < s.filter(keep).len() implies keep(#[trigger] s.filter(keep)[i]) by {
            if i < sub.len() {
                assert(s.filter(keep)[i] == sub[i]);
            }
        }
    }
}

/// Reading back an upsert: afterwards the first input with the new input's
/// id is that input.
pub proof fn lemma_upsert_input_reads_back(d: DocumentView, x: InputDtoView)
    requires
        x.id != 0,
    ensures
        spec_upsert_input(d, x) matches Ok(d2) && first_index(input_id_seq(d2), x.id, 0) matches Some(
            k,
        ) && d2.inputs[k] == x,
{
    let ids = input_id_seq(d);
    lemma_first_index(ids, x.id, 0);
    match first_index(ids, x.id, 0) {
        Some(k) => {
            let d2 = DocumentView { inputs: d.inputs.update(k, x), ..d };
            let ids2 = input_id_seq(d2);
            assert(ids2 =~= ids.update(k, x.id));
            lemma_first_index_same_prefix(ids, ids2, x.id, 0, k);
        },
        None => {
            let d2 = DocumentView {
                inputs: d.inputs.push(x),
                next_input_id: max_u64(d.next_input_id, sat_inc(x.id)),
                ..d
            };
            let ids2 = input_id_seq(d2);
            assert(ids2 =~= ids.push(x.id));
            lemma_first_index_same_prefix(ids, ids2, x.id, 0, ids.len() as int);
        },
    }
}

/// `first_index` reaches `k` in `b` when `b` agrees with `a` before `k`, no
/// earlier entry of `a` is the id, and `b[k]` is.
proof fn lemma_first_index_same_prefix(a: Seq<u64>, b: Seq<u64>, id: u64, i: int, k: int)
    requires
        0 <= i <= k < b.len(),
        k <= a.len(),
        forall|t: int| i <= t < k ==> a[t] != id && b[t] == a[t],
        b[k] == id,
    ensures
        first_index(b, id, i) == Some(k),
    decreases k - i,
{
    if i < k {
        lemma_first_index_same_prefix(a, b, id, i + 1, k);
    }
}

/// Deleting an input leaves no input with that id and no scene layer that
/// shows it.
pub proof fn lemma_delete_input_removes_all(d: DocumentView, id: u64)
    requires
        input_id_seq(d).contains(id),
    ensures
        spec_delete_input(d, id) matches Ok(d2) && !input_id_seq(d2).contains(id) && forall|
            s: int,
            l: int,
        |
            0 <= s < d2.scenes.len() && 0 <= l < d2.scenes[s].layers.len() ==> d2.scenes[s].layers[l].input_id
                != id,
{
    let d2 = DocumentView {
        inputs: d.inputs.filter(input_kept(id)),
        scenes: scenes_without_input(d.scenes, id),
        ..d
    };
    lemma_filter_all_fail(d.inputs, input_kept(id));
    if input_id_seq(d2).contains(id) {
        let t = choose|t: int| 0 <= t < input_id_seq(d2).len() && input_id_seq(d2)[t] == id;
        assert(input_kept(id)(d2.inputs[t]));
    }
    assert forall|s: int, l: int|
        0 <= s < d2.scenes.len() && 0 <= l < d2.scenes[s].layers.len() implies d2.scenes[s].layers[l].input_id
        != id by {
        lemma_filter_all_fail(d.scenes[s].layers, layer_kept(id));
        assert(layer_kept(id)(d2.scenes[s].layers[l]));
    }
}

/// Deleting a multiview right after inserting it under a new id gives the
/// document back, with only the id counter moved on.
pub proof fn lemma_upsert_then_delete_multiview(d: DocumentView, x: MultiviewDtoView)
    requires
        x.id != 0,
        !multiview_id_seq(d).contains(x.id),
    ensures
        spec_upsert_multiview(d, x) matches Ok(d2) && spec_delete_multiview(d2, x.id) == Ok::<
            DocumentView,
            ControlErrorView,
        >(DocumentView { next_multiview_id: max_u64(d.next_multiview_id, sat_inc(x.id)), ..d }),
{
    let ids = multiview_id_seq(d);
    lemma_first_index(ids, x.id, 0);
    assert forall|t: int| 0 <= t < ids.len() implies ids[t] != x.id by {
        if ids[t] == x.id {
            assert(ids.contains(x.id));
        }
    }
    let d2 = DocumentView {
        multiviews: d.multiviews.push(x),
        next_multiview_id: max_u64(d.next_multiview_id, sat_inc(x.id)),
        ..d
    };
    assert(multiview_id_seq(d2)[d.multiviews.len() as int] == x.id);
    lemma_filter_drops_pushed(d.multiviews, x, multiview_kept(x.id));
    assert forall|i: int| 0 <= i < d.multiviews.len() implies multiview_kept(x.id)(
        #[trigger] d.multiviews[i],
    ) by {
        assert(ids[i] == d.multiviews[i].id);
    }
    lemma_filter_keeps_all(d.multiviews, multiview_kept(x.id));
}

} // verus!
