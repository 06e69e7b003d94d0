//! Document editors shared by session mutations and the command-line client.

use vstd::prelude::*;

use crate::error::{ControlError, ControlErrorView, ControlResult, ErrorKind};
use crate::guid::{is_hyphenated_uuid, new_guid};
use crate::session::model::{
    Document, DocumentView, InputDto, InputDtoView, MultiviewDto, MultiviewDtoView, SceneDto,
    SceneDtoView, SceneLayer, SceneLayoutPreset, SceneLayoutPresetView, UnitDto, UnitDtoView,
};
use crate::text::{decimal, owned, spec_decimal, spec_to_ascii_lowercase, spec_trim, to_ascii_lowercase, trim};

verus! {

#[derive(Debug, Clone, Copy, PartialEq, Eq, Structural)]
pub enum TagCatalog {
    Input,
    Scene,
}

/// The catalog that a (trimmed, lowercased) name selects.
pub open spec fn spec_parse_catalog(raw: Seq<char>) -> Option<TagCatalog> {
    let key = spec_to_ascii_lowercase(spec_trim(raw));
    if key == "input"@ || key == "inputs"@ {
        Some(TagCatalog::Input)
    } else if key == "scene"@ || key == "scenes"@ {
        Some(TagCatalog::Scene)
    } else {
        None
    }
}

pub(crate) fn str_eq(a: &str, b: &str) -> (r: bool)
    ensures
        r == (a@ == b@),
{
    let n = a.unicode_len();
    if n != b.unicode_len() {
        return false;
    }
    let mut i: usize = 0;
    while i < n
        invariant
            n == a@.len(),
            n == b@.len(),
            i <= n,
            forall|k: int| 0 <= k < i ==> a@[k] == b@[k],
        decreases n - i,
    {
        if a.get_char(i) != b.get_char(i) {
            return false;
        }
        i = i + 1;
    }
    assert(a@ =~= b@);
    true
}

impl TagCatalog {
    pub fn parse(raw: &str) -> (r: ControlResult<Self>)
        ensures
            match r {
                Ok(c) => spec_parse_catalog(raw@) == Some(c),
                Err(e) => spec_parse_catalog(raw@) is None && e@ == (ControlErrorView {
                    kind: ErrorKind::InvalidArgument,
                    message: "catalog must be input or scene"@,
                }),
            },
    {
        let key = to_ascii_lowercase(trim(raw));
        let k = key.as_str();
        if str_eq(k, "input") || str_eq(k, "inputs") {
            Ok(TagCatalog::Input)
        } else if str_eq(k, "scene") || str_eq(k, "scenes") {
            Ok(TagCatalog::Scene)
        } else {
            Err(ControlError::invalid("catalog must be input or scene"))
        }
    }

    pub fn as_str(self) -> (r: &'static str)
        ensures
            r@ == (match self {
                TagCatalog::Input => "input"@,
                TagCatalog::Scene => "scene"@,
            }),
    {
        match self {
            TagCatalog::Input => "input",
            TagCatalog::Scene => "scene",
        }
    }
}

/// Largest value of a non-empty sequence.
pub open spec fn seq_max(s: Seq<u64>) -> u64
    recommends
        s.len() > 0,
    decreases s.len(),
{
    if s.len() <= 1 {
        s[0]
    } else {
        let m = seq_max(s.drop_last());
        if s.last() > m {
            s.last()
        } else {
            m
        }
    }
}

pub open spec fn max_u64(a: u64, b: u64) -> u64 {
    if a >= b {
        a
    } else {
        b
    }
}

pub open spec fn sat_inc(a: u64) -> u64 {
    if a == u64::MAX {
        u64::MAX
    } else {
        (a + 1) as u64
    }
}

/// The id that a new resource gets: above every existing id and the stored
/// counter, and at least `floor`. `empty` stands for the largest id of an
/// empty list.
pub open spec fn spec_next_id(counter: u64, ids: Seq<u64>, empty: u64, floor: u64) -> u64 {
    let m = if ids.len() == 0 {
        empty
    } else {
        seq_max(ids)
    };
    max_u64(max_u64(counter, sat_inc(m)), floor)
}

fn max_of(ids: &Vec<u64>, empty: u64) -> (r: u64)
    ensures
        r == (if ids@.len() == 0 {
            empty
        } else {
            seq_max(ids@)
        }),
{
    if ids.len() == 0 {
        return empty;
    }
    let mut m = ids[0];
    let mut i: usize = 1;
    while i < ids.len()
        invariant
            1 <= i <= ids.len(),
            m == seq_max(ids@.subrange(0, i as int)),
        decreases ids.len() - i,
    {
        assert(ids@.subrange(0, i + 1).drop_last() =~= ids@.subrange(0, i as int));
        if ids[i] > m {
            m = ids[i];
        }
        i = i + 1;
    }
    assert(ids@.subrange(0, ids.len() as int) =~= ids@);
    m
}

fn next_id(counter: u64, ids: &Vec<u64>, empty: u64, floor: u64) -> (r: u64)
    ensures
        r == spec_next_id(counter, ids@, empty, floor),
{
    let m = max_of(ids, empty);
    let a = if counter >= m.saturating_add(1) {
        counter
    } else {
        m.saturating_add(1)
    };
    if a >= floor {
        a
    } else {
        floor
    }
}

pub open spec fn input_id_seq(d: DocumentView) -> Seq<u64> {
    d.inputs.map_values(|x: InputDtoView| x.id)
}

pub open spec fn scene_id_seq(d: DocumentView) -> Seq<u64> {
    d.scenes.map_values(|x: SceneDtoView| x.id)
}

pub open spec fn unit_id_seq(d: DocumentView) -> Seq<u64> {
    d.units.map_values(|x: UnitDtoView| x.id)
}

pub open spec fn multiview_id_seq(d: DocumentView) -> Seq<u64> {
    d.multiviews.map_values(|x: MultiviewDtoView| x.id)
}

fn input_ids_of(doc: &Document) -> (r: Vec<u64>)
    ensures
        r@ == input_id_seq(doc@),
{
    let mut r: Vec<u64> = Vec::new();
    let mut i: usize = 0;
    while i < doc.inputs.len()
        invariant
            i <= doc.inputs.len(),
            r@ =~= input_id_seq(doc@).take(i as int),
        decreases doc.inputs.len() - i,
    {
        r.push(doc.inputs[i].id);
        i = i + 1;
    }
    assert(input_id_seq(doc@).take(i as int) =~= input_id_seq(doc@));
    r
}

fn scene_ids_of(doc: &Document) -> (r: Vec<u64>)
    ensures
        r@ == scene_id_seq(doc@),
{
    let mut r: Vec<u64> = Vec::new();
    let mut i: usize = 0;
    while i < doc.scenes.len()
        invariant
            i <= doc.scenes.len(),
            r@ =~= scene_id_seq(doc@).take(i as int),
        decreases doc.scenes.len() - i,
    {
        r.push(doc.scenes[i].id);
        i = i + 1;
    }
    assert(scene_id_seq(doc@).take(i as int) =~= scene_id_seq(doc@));
    r
}

fn unit_ids_of(doc: &Document) -> (r: Vec<u64>)
    ensures
        r@ == unit_id_seq(doc@),
{
    let mut r: Vec<u64> = Vec::new();
    let mut i: usize = 0;
    while i < doc.units.len()
        invariant
            i <= doc.units.len(),
            r@ =~= unit_id_seq(doc@).take(i as int),
        decreases doc.units.len() - i,
    {
        r.push(doc.units[i].id);
        i = i + 1;
    }
    assert(unit_id_seq(doc@).take(i as int) =~= unit_id_seq(doc@));
    r
}

fn multiview_ids_of(doc: &Document) -> (r: Vec<u64>)
    ensures
        r@ == multiview_id_seq(doc@),
{
    let mut r: Vec<u64> = Vec::new();
    let mut i: usize = 0;
    while i < doc.multiviews.len()
        invariant
            i <= doc.multiviews.len(),
            r@ =~= multiview_id_seq(doc@).take(i as int),
        decreases doc.multiviews.len() - i,
    {
        r.push(doc.multiviews[i].id);
        i = i + 1;
    }
    assert(multiview_id_seq(doc@).take(i as int) =~= multiview_id_seq(doc@));
    r
}

/// Id a new input gets: at least 10.
pub open spec fn spec_next_input_id(d: DocumentView) -> u64 {
    spec_next_id(d.next_input_id, input_id_seq(d), 9, 10)
}

pub open spec fn spec_next_scene_id(d: DocumentView) -> u64 {
    spec_next_id(d.next_scene_id, scene_id_seq(d), 0, 1)
}

pub open spec fn spec_next_unit_id(d: DocumentView) -> u64 {
    spec_next_id(d.next_unit_id, unit_id_seq(d), 0, 1)
}

pub open spec fn spec_next_multiview_id(d: DocumentView) -> u64 {
    spec_next_id(d.next_multiview_id, multiview_id_seq(d), 0, 1)
}

pub fn next_input_id(document: &Document) -> (r: u64)
    ensures
        r == spec_next_input_id(document@),
{
    let ids = input_ids_of(document);
    next_id(document.next_input_id, &ids, 9, 10)
}

fn next_scene_id(document: &Document) -> (r: u64)
    ensures
        r == spec_next_scene_id(document@),
{
    let ids = scene_ids_of(document);
    next_id(document.next_scene_id, &ids, 0, 1)
}

fn next_unit_id(document: &Document) -> (r: u64)
    ensures
        r == spec_next_unit_id(document@),
{
    let ids = unit_ids_of(document);
    next_id(document.next_unit_id, &ids, 0, 1)
}

fn next_multiview_id(document: &Document) -> (r: u64)
    ensures
        r == spec_next_multiview_id(document@),
{
    let ids = multiview_ids_of(document);
    next_id(document.next_multiview_id, &ids, 0, 1)
}

/// `a` + decimal `n` + `b`.
pub open spec fn id_text(a: Seq<char>, n: u64, b: Seq<char>) -> Seq<char> {
    a + spec_decimal(n as nat) + b
}

pub(crate) fn id_text_exec(a: &str, n: u64, b: &str) -> (r: String)
    ensures
        r@ == id_text(a@, n, b@),
{
    let mut t = owned(a);
    let d = decimal(n);
    t.append(d.as_str());
    t.append(b);
    t
}

fn contains_id(ids: &Vec<u64>, id: u64) -> (r: bool)
    ensures
        r == ids@.contains(id),
{
    crate::session::validate::vec_contains(ids, id)
}

/// Name a new resource gets when its own name is blank.
pub open spec fn named(name: Seq<char>, fallback: Seq<char>) -> Seq<char> {
    if spec_trim(name).len() == 0 {
        fallback
    } else {
        name
    }
}

/// Adds a Mixing Unit, giving it a fresh id when its id is 0 and a name when
/// its name is blank.
pub fn allocate_unit(document: &mut Document, unit: UnitDto) -> (r: ControlResult<u64>)
    ensures
        ({
            let d = old(document)@;
            let id = if unit@.id == 0 {
                spec_next_unit_id(d)
            } else {
                unit@.id
            };
            if unit@.id != 0 && unit_id_seq(d).contains(unit@.id) {
                &&& final(document)@ == d
                &&& r matches Err(e) && e@ == (ControlErrorView {
                    kind: ErrorKind::Conflict,
                    message: id_text("unit "@, id, " exists"@),
                })
            } else {
                &&& r == Ok::<u64, ControlError>(id)
                &&& final(document)@ == (DocumentView {
                    units: d.units.push(
                        UnitDtoView {
                            id,
                            name: named(unit@.name, id_text("Mixing Unit "@, id, ""@)),
                            ..unit@
                        },
                    ),
                    next_unit_id: max_u64(d.next_unit_id, sat_inc(id)),
                    ..d
                })
            }
        }),
{
    let mut unit = unit;
    if unit.id == 0 {
        unit.id = next_unit_id(document);
    } else {
        let ids = unit_ids_of(document);
        if contains_id(&ids, unit.id) {
            return Err(ControlError::Conflict { message: id_text_exec("unit ", unit.id, " exists") });
        }
    }
    if trim(unit.name.as_str()).unicode_len() == 0 {
        unit.name = id_text_exec("Mixing Unit ", unit.id, "");
    }
    let bumped = unit.id.saturating_add(1);
    if bumped > document.next_unit_id {
        document.next_unit_id = bumped;
    }
    let id = unit.id;
    let ghost before = document.units@;
    document.units.push(unit);
    proof {
        assert(document.units@ == before.push(unit));
        assert(document.units@.map_values(|t: UnitDto| t@) =~= before.map_values(|t: UnitDto| t@).push(unit@));
    }
    Ok(id)
}

/// Adds a multiview layout, giving it a fresh id when its id is 0 and a name
/// when its name is blank.
pub fn allocate_multiview(document: &mut Document, layout: MultiviewDto) -> (r: ControlResult<u64>)
    ensures
        ({
            let d = old(document)@;
            let id = if layout@.id == 0 {
                spec_next_multiview_id(d)
            } else {
                layout@.id
            };
            if layout@.id != 0 && multiview_id_seq(d).contains(layout@.id) {
                &&& final(document)@ == d
                &&& r matches Err(e) && e@ == (ControlErrorView {
                    kind: ErrorKind::Conflict,
                    message: id_text("multiview "@, id, " exists"@),
                })
            } else {
                &&& r == Ok::<u64, ControlError>(id)
                &&& final(document)@ == (DocumentView {
                    multiviews: d.multiviews.push(
                        MultiviewDtoView {
                            id,
                            name: named(layout@.name, id_text("Multiview "@, id, ""@)),
                            ..layout@
                        },
                    ),
                    next_multiview_id: max_u64(d.next_multiview_id, sat_inc(id)),
                    ..d
                })
            }
        }),
{
    let mut layout = layout;
    if layout.id == 0 {
        layout.id = next_multiview_id(document);
    } else {
        let ids = multiview_ids_of(document);
        if contains_id(&ids, layout.id) {
            return Err(
                ControlError::Conflict { message: id_text_exec("multiview ", layout.id, " exists") },
            );
        }
    }
    if trim(layout.name.as_str()).unicode_len() == 0 {
        layout.name = id_text_exec("Multiview ", layout.id, "");
    }
    let bumped = layout.id.saturating_add(1);
    if bumped > document.next_multiview_id {
        document.next_multiview_id = bumped;
    }
    let id = layout.id;
    let ghost before = document.multiviews@;
    document.multiviews.push(layout);
    proof {
        assert(document.multiviews@ == before.push(layout));
        assert(document.multiviews@.map_values(|t: MultiviewDto| t@) =~= before.map_values(
            |t: MultiviewDto| t@,
        ).push(layout@));
    }
    Ok(id)
}

/// Adds an input, giving it a fresh id when its id is 0, a new random GUID
/// when its GUID is blank and a name when its name is blank.
pub fn allocate_input(document: &mut Document, input: InputDto) -> (r: ControlResult<u64>)
    ensures
        ({
            let d = old(document)@;
            let id = if input@.id == 0 {
                spec_next_input_id(d)
            } else {
                input@.id
            };
            if input@.id != 0 && input_id_seq(d).contains(input@.id) {
                &&& final(document)@ == d
                &&& r matches Err(e) && e@ == (ControlErrorView {
                    kind: ErrorKind::Conflict,
                    message: id_text("input "@, id, " exists"@),
                })
            } else {
                let added = final(document)@.inputs.last();
                &&& r == Ok::<u64, ControlError>(id)
                &&& final(document)@ == (DocumentView {
                    inputs: d.inputs.push(added),
                    next_input_id: max_u64(d.next_input_id, sat_inc(id)),
                    ..d
                })
                &&& added == (InputDtoView {
                    id,
                    name: named(input@.name, id_text("Input "@, id, ""@)),
                    guid: added.guid,
                    ..input@
                })
                &&& if spec_trim(input@.guid).len() == 0 {
                    is_hyphenated_uuid(added.guid)
                } else {
                    added.guid == input@.guid
                }
            }
        }),
{
    let mut input = input;
    if input.id == 0 {
        input.id = next_input_id(document);
    } else {
        let ids = input_ids_of(document);
        if contains_id(&ids, input.id) {
            return Err(ControlError::Conflict { message: id_text_exec("input ", input.id, " exists") });
        }
    }
    if trim(input.guid.as_str()).unicode_len() == 0 {
        input.guid = new_guid();
    }
    if trim(input.name.as_str()).unicode_len() == 0 {
        input.name = id_text_exec("Input ", input.id, "");
    }
    let bumped = input.id.saturating_add(1);
    if bumped > document.next_input_id {
        document.next_input_id = bumped;
    }
    let id = input.id;
    let ghost before = document.inputs@;
    document.inputs.push(input);
    proof {
        assert(document.inputs@ == before.push(input));
        assert(document.inputs@.map_values(|t: InputDto| t@) =~= before.map_values(|t: InputDto| t@).push(input@));
    }
    Ok(id)
}

/// Adds a scene, giving it a fresh id when its id is 0, a new random GUID
/// when its GUID is blank and a name when its name is blank.
pub fn allocate_scene(document: &mut Document, scene: SceneDto) -> (r: ControlResult<u64>)
    ensures
        ({
            let d = old(document)@;
            let id = if scene@.id == 0 {
                spec_next_scene_id(d)
            } else {
                scene@.id
            };
            if scene@.id != 0 && scene_id_seq(d).contains(scene@.id) {
                &&& final(document)@ == d
                &&& r matches Err(e) && e@ == (ControlErrorView {
                    kind: ErrorKind::Conflict,
                    message: id_text("scene "@, id, " exists"@),
                })
            } else {
                let added = final(document)@.scenes.last();
                &&& r == Ok::<u64, ControlError>(id)
                &&& final(document)@ == (DocumentView {
                    scenes: d.scenes.push(added),
                    next_scene_id: max_u64(d.next_scene_id, sat_inc(id)),
                    ..d
                })
                &&& added == (SceneDtoView {
                    id,
                    name: named(scene@.name, id_text("Scene "@, id, ""@)),
                    guid: added.guid,
                    ..scene@
                })
                &&& if spec_trim(scene@.guid).len() == 0 {
                    is_hyphenated_uuid(added.guid)
                } else {
                    added.guid == scene@.guid
                }
            }
        }),
{
    let mut scene = scene;
    if scene.id == 0 {
        scene.id = next_scene_id(document);
    } else {
        let ids = scene_ids_of(document);
        if contains_id(&ids, scene.id) {
            return Err(ControlError::Conflict { message: id_text_exec("scene ", scene.id, " exists") });
        }
    }
    if trim(scene.guid.as_str()).unicode_len() == 0 {
        scene.guid = new_guid();
    }
    if trim(scene.name.as_str()).unicode_len() == 0 {
        scene.name = id_text_exec("Scene ", scene.id, "");
    }
    let bumped = scene.id.saturating_add(1);
    if bumped > document.next_scene_id {
        document.next_scene_id = bumped;
    }
    let id = scene.id;
    let ghost before = document.scenes@;
    document.scenes.push(scene);
    proof {
        assert(document.scenes@ == before.push(scene));
        assert(document.scenes@.map_values(|t: SceneDto| t@) =~= before.map_values(|t: SceneDto| t@).push(scene@));
    }
    Ok(id)
}

/// Index of the first scene with id `id` at or after `i`.
pub open spec fn find_scene_from(scenes: Seq<SceneDtoView>, id: u64, i: int) -> Option<int>
    decreases scenes.len() - i,
{
    if i >= scenes.len() {
        None
    } else if scenes[i].id == id {
        Some(i)
    } else {
        find_scene_from(scenes, id, i + 1)
    }
}

proof fn lemma_find_scene_from(scenes: Seq<SceneDtoView>, id: u64, i: int)
    requires
        0 <= i,
    ensures
        find_scene_from(scenes, id, i) matches Some(x) ==> i <= x < scenes.len() && scenes[x].id == id,
    decreases scenes.len() - i,
{
    if i < scenes.len() && scenes[i].id != id {
        lemma_find_scene_from(scenes, id, i + 1);
    }
}

/// The scene that a scene editor works on: the first with the id.
pub open spec fn scene_at(d: DocumentView, scene_id: u64) -> Option<int> {
    find_scene_from(d.scenes, scene_id, 0)
}

pub(crate) fn scene_index(document: &Document, scene_id: u64) -> (r: ControlResult<usize>)
    ensures
        match r {
            Ok(k) => scene_at(document@, scene_id) == Some(k as int) && k < document.scenes.len(),
            Err(e) => scene_at(document@, scene_id) is None && e@ == (ControlErrorView {
                kind: ErrorKind::NotFound,
                message: id_text("scene "@, scene_id, ""@),
            }),
        },
{
    proof {
        lemma_find_scene_from(document@.scenes, scene_id, 0);
    }
    let mut i: usize = 0;
    while i < document.scenes.len()
        invariant
            i <= document.scenes.len(),
            find_scene_from(document@.scenes, scene_id, 0) == find_scene_from(
                document@.scenes,
                scene_id,
                i as int,
            ),
        decreases document.scenes.len() - i,
    {
        if document.scenes[i].id == scene_id {
            return Ok(i);
        }
        i = i + 1;
    }
    Err(ControlError::NotFound { message: id_text_exec("scene ", scene_id, "") })
}

/// The document with scene `k` given new layers.
pub open spec fn with_layers(d: DocumentView, k: int, layers: Seq<SceneLayer>) -> DocumentView {
    DocumentView { scenes: d.scenes.update(k, SceneDtoView { layers, ..d.scenes[k] }), ..d }
}

/// The scene editors fail this way when the scene is missing.
pub open spec fn scene_missing(d: DocumentView, scene_id: u64, r: ControlResult<()>) -> bool {
    r matches Err(e) && e@ == (ControlErrorView {
        kind: ErrorKind::NotFound,
        message: id_text("scene "@, scene_id, ""@),
    })
}

pub(crate) fn set_layers(document: &mut Document, k: usize, layers: Vec<SceneLayer>)
    requires
        k < old(document).scenes.len(),
    ensures
        final(document)@ == with_layers(old(document)@, k as int, layers@),
{
    let ghost before = document.scenes@;
    let mut scene = document.scenes[k].clone();
    scene.layers = layers;
    document.scenes.set(k, scene);
    proof {
        assert(document.scenes@.map_values(|t: SceneDto| t@) =~= before.map_values(
            |t: SceneDto| t@,
        ).update(k as int, scene@));
    }
}

/// Appends a layer on top of a scene.
pub fn add_scene_layer(document: &mut Document, scene_id: u64, layer: SceneLayer) -> (r: ControlResult<()>)
    ensures
        match scene_at(old(document)@, scene_id) {
            Some(k) => r is Ok && final(document)@ == with_layers(
                old(document)@,
                k,
                old(document)@.scenes[k].layers.push(layer),
            ),
            None => scene_missing(old(document)@, scene_id, r) && final(document)@ == old(document)@,
        },
{
    let k = scene_index(document, scene_id)?;
    let mut layers = document.scenes[k].layers.clone();
    proof {
        assert forall|i: int| 0 <= i < layers@.len() implies layers@[i] == document.scenes@[k as int].layers@[i] by {
            assert(vstd::pervasive::cloned(document.scenes@[k as int].layers@[i], layers@[i]));
        }
        assert(layers@ =~= document@.scenes[k as int].layers);
    }
    layers.push(layer);
    set_layers(document, k, layers);
    Ok(())
}

fn layers_of(document: &Document, k: usize) -> (r: Vec<SceneLayer>)
    requires
        k < document.scenes.len(),
    ensures
        r@ == document@.scenes[k as int].layers,
{
    let layers = document.scenes[k].layers.clone();
    proof {
        assert forall|i: int| 0 <= i < layers@.len() implies layers@[i] == document.scenes@[k as int].layers@[i] by {
            assert(vstd::pervasive::cloned(document.scenes@[k as int].layers@[i], layers@[i]));
        }
        assert(layers@ =~= document@.scenes[k as int].layers);
    }
    layers
}

/// Replaces the layer at `index` of a scene.
pub fn replace_scene_layer(document: &mut Document, scene_id: u64, index: usize, layer: SceneLayer) -> (r:
    ControlResult<()>)
    ensures
        match scene_at(old(document)@, scene_id) {
            Some(k) => if index < old(document)@.scenes[k].layers.len() {
                r is Ok && final(document)@ == with_layers(
                    old(document)@,
                    k,
                    old(document)@.scenes[k].layers.update(index as int, layer),
                )
            } else {
                final(document)@ == old(document)@ && (r matches Err(e) && e@ == (ControlErrorView {
                    kind: ErrorKind::NotFound,
                    message: id_text("layer "@, index as u64, ""@),
                }))
            },
            None => scene_missing(old(document)@, scene_id, r) && final(document)@ == old(document)@,
        },
{
    let k = scene_index(document, scene_id)?;
    let mut layers = layers_of(document, k);
    if index >= layers.len() {
        return Err(ControlError::NotFound { message: id_text_exec("layer ", index as u64, "") });
    }
    layers.set(index, layer);
    set_layers(document, k, layers);
    Ok(())
}

/// Removes the layer at `index` of a scene.
pub fn delete_scene_layer(document: &mut Document, scene_id: u64, index: usize) -> (r: ControlResult<()>)
    ensures
        match scene_at(old(document)@, scene_id) {
            Some(k) => if index < old(document)@.scenes[k].layers.len() {
                r is Ok && final(document)@ == with_layers(
                    old(document)@,
                    k,
                    old(document)@.scenes[k].layers.remove(index as int),
                )
            } else {
                final(document)@ == old(document)@ && (r matches Err(e) && e@ == (ControlErrorView {
                    kind: ErrorKind::NotFound,
                    message: id_text("layer "@, index as u64, ""@),
                }))
            },
            None => scene_missing(old(document)@, scene_id, r) && final(document)@ == old(document)@,
        },
{
    let k = scene_index(document, scene_id)?;
    let mut layers = layers_of(document, k);
    if index >= layers.len() {
        return Err(ControlError::NotFound { message: id_text_exec("layer ", index as u64, "") });
    }
    layers.remove(index);
    set_layers(document, k, layers);
    Ok(())
}

/// Finding a scene looks only at the scenes' ids.
proof fn lemma_find_scene_same(a: Seq<SceneDtoView>, b: Seq<SceneDtoView>, id: u64, i: int)
    requires
        0 <= i,
        a.len() == b.len(),
        forall|j: int| 0 <= j < a.len() ==> (#[trigger] a[j]).id == b[j].id,
    ensures
        find_scene_from(a, id, i) == find_scene_from(b, id, i),
    decreases a.len() - i,
{
    if i < a.len() {
        lemma_find_scene_same(a, b, id, i + 1);
    }
}

/// Deleting the layer just added to a scene, at the index it was added
/// under (the old layer count, in range once the layer is added), gives
/// the document back as it was; the scene stays where it was throughout.
pub proof fn lemma_delete_undoes_added_layer(d: DocumentView, scene_id: u64, layer: SceneLayer)
    requires
        scene_at(d, scene_id) is Some,
    ensures
        ({
            let k = scene_at(d, scene_id)->0;
            let n = d.scenes[k].layers.len();
            let added = with_layers(d, k, d.scenes[k].layers.push(layer));
            &&& scene_at(added, scene_id) == Some(k)
            &&& n < added.scenes[k].layers.len()
            &&& with_layers(added, k, added.scenes[k].layers.remove(n as int)) == d
            &&& scene_at(d, scene_id) == Some(k)
        }),
{
    let k = scene_at(d, scene_id)->0;
    lemma_find_scene_from(d.scenes, scene_id, 0);
    let added = with_layers(d, k, d.scenes[k].layers.push(layer));
    assert forall|j: int| 0 <= j < added.scenes.len() implies (#[trigger] added.scenes[j]).id == d.scenes[j].id by {}
    lemma_find_scene_same(added.scenes, d.scenes, scene_id, 0);
    let n = d.scenes[k].layers.len();
    assert(added.scenes[k].layers.remove(n as int) =~= d.scenes[k].layers);
    assert(with_layers(added, k, added.scenes[k].layers.remove(n as int)).scenes =~= d.scenes);
}

/// Moves the layer at `from` so that it ends up at `to`.
pub fn move_scene_layer(document: &mut Document, scene_id: u64, from: usize, to: usize) -> (r:
    ControlResult<()>)
    ensures
        match scene_at(old(document)@, scene_id) {
            Some(k) => {
                let layers = old(document)@.scenes[k].layers;
                if from < layers.len() && to < layers.len() {
                    r is Ok && final(document)@ == with_layers(
                        old(document)@,
                        k,
                        layers.remove(from as int).insert(to as int, layers[from as int]),
                    )
                } else {
                    final(document)@ == old(document)@ && (r matches Err(e) && e@ == (ControlErrorView {
                        kind: ErrorKind::InvalidArgument,
                        message: "layer index out of range"@,
                    }))
                }
            },
            None => scene_missing(old(document)@, scene_id, r) && final(document)@ == old(document)@,
        },
{
    let k = scene_index(document, scene_id)?;
    let mut layers = layers_of(document, k);
    if from >= layers.len() || to >= layers.len() {
        return Err(ControlError::invalid("layer index out of range"));
    }
    let layer = layers.remove(from);
    layers.insert(to, layer);
    set_layers(document, k, layers);
    Ok(())
}

/// The tag list of a catalog.
pub open spec fn catalog_of(d: DocumentView, c: TagCatalog) -> Seq<Seq<char>> {
    match c {
        TagCatalog::Input => d.input_tags,
        TagCatalog::Scene => d.scene_tags,
    }
}

/// The document with a catalog's tag list replaced.
pub open spec fn with_catalog(d: DocumentView, c: TagCatalog, tags: Seq<Seq<char>>) -> DocumentView {
    match c {
        TagCatalog::Input => DocumentView { input_tags: tags, ..d },
        TagCatalog::Scene => DocumentView { scene_tags: tags, ..d },
    }
}

fn catalog_clone(document: &Document, c: TagCatalog) -> (r: Vec<String>)
    ensures
        r@.map_values(|t: String| t@) == catalog_of(document@, c),
{
    let v = match c {
        TagCatalog::Input => &document.input_tags,
        TagCatalog::Scene => &document.scene_tags,
    };
    let r = v.clone();
    proof {
        assert forall|i: int| 0 <= i < v@.len() implies r@[i]@ == v@[i]@ by {
            assert(vstd::pervasive::cloned(v@[i], r@[i]));
        }
        assert(r@.map_values(|t: String| t@) =~= v@.map_values(|t: String| t@));
    }
    r
}

fn set_catalog(document: &mut Document, c: TagCatalog, tags: Vec<String>)
    ensures
        final(document)@ == with_catalog(old(document)@, c, tags@.map_values(|t: String| t@)),
{
    match c {
        TagCatalog::Input => document.input_tags = tags,
        TagCatalog::Scene => document.scene_tags = tags,
    }
}

fn position_of(tags: &Vec<String>, tag: &str) -> (r: Option<usize>)
    ensures
        match r {
            Some(i) => i < tags.len() && tags@[i as int]@ == tag@ && forall|j: int|
                0 <= j < i ==> tags@[j]@ != tag@,
            None => !tags@.map_values(|t: String| t@).contains(tag@),
        },
{
    let mut i: usize = 0;
    while i < tags.len()
        invariant
            i <= tags.len(),
            forall|j: int| 0 <= j < i ==> tags@[j]@ != tag@,
        decreases tags.len() - i,
    {
        if str_eq(tags[i].as_str(), tag) {
            return Some(i);
        }
        i = i + 1;
    }
    let ghost m = tags@.map_values(|t: String| t@);
    assert forall|j: int| 0 <= j < m.len() implies #[trigger] m[j] != tag@ by {}
    None
}

/// Adds a (trimmed) tag to a catalog unless it is already there.
pub fn add_catalog_tag(document: &mut Document, catalog: TagCatalog, tag: String) -> (r: ControlResult<()>)
    ensures
        ({
            let d = old(document)@;
            let t = spec_trim(tag@);
            if t.len() == 0 {
                final(document)@ == d && (r matches Err(e) && e@ == (ControlErrorView {
                    kind: ErrorKind::InvalidArgument,
                    message: "tag required"@,
                }))
            } else if catalog_of(d, catalog).contains(t) {
                r is Ok && final(document)@ == d
            } else {
                r is Ok && final(document)@ == with_catalog(d, catalog, catalog_of(d, catalog).push(t))
            }
        }),
{
    let t = owned(trim(tag.as_str()));
    if t.as_str().unicode_len() == 0 {
        return Err(ControlError::invalid("tag required"));
    }
    let mut tags = catalog_clone(document, catalog);
    match position_of(&tags, t.as_str()) {
        Some(i) => {
            assert(catalog_of(document@, catalog)[i as int] == t@);
            return Ok(());
        },
        None => {},
    }
    let ghost before = tags@;
    tags.push(t);
    proof {
        assert(tags@ == before.push(t));
        assert(tags@.map_values(|x: String| x@) =~= before.map_values(|x: String| x@).push(t@));
    }
    set_catalog(document, catalog, tags);
    Ok(())
}

/// Every occurrence of `from` in `tags` replaced by `to`.
pub open spec fn rename_in(tags: Seq<Seq<char>>, from: Seq<char>, to: Seq<char>) -> Seq<Seq<char>> {
    tags.map_values(|x: Seq<char>| if x == from {
        to
    } else {
        x
    })
}

fn rename_tags(tags: &Vec<String>, from: &str, to: &str) -> (r: Vec<String>)
    ensures
        r@.map_values(|t: String| t@) == rename_in(tags@.map_values(|t: String| t@), from@, to@),
{
    let mut r: Vec<String> = Vec::new();
    let mut i: usize = 0;
    while i < tags.len()
        invariant
            i <= tags.len(),
            r.len() == i,
            forall|j: int| 0 <= j < i ==> r@[j]@ == (if tags@[j]@ == from@ {
                to@
            } else {
                tags@[j]@
            }),
        decreases tags.len() - i,
    {
        if str_eq(tags[i].as_str(), from) {
            r.push(owned(to));
        } else {
            r.push(tags[i].clone());
        }
        i = i + 1;
    }
    assert(r@.map_values(|t: String| t@) =~= rename_in(tags@.map_values(|t: String| t@), from@, to@));
    r
}

/// Inputs with `from` renamed to `to` in their tags.
pub open spec fn inputs_renamed(inputs: Seq<InputDtoView>, from: Seq<char>, to: Seq<char>) -> Seq<
    InputDtoView,
> {
    inputs.map_values(|x: InputDtoView| InputDtoView { tags: rename_in(x.tags, from, to), ..x })
}

/// Scenes with `from` renamed to `to` in their tags.
pub open spec fn scenes_renamed(scenes: Seq<SceneDtoView>, from: Seq<char>, to: Seq<char>) -> Seq<
    SceneDtoView,
> {
    scenes.map_values(|x: SceneDtoView| SceneDtoView { tags: rename_in(x.tags, from, to), ..x })
}

fn rename_in_inputs(document: &mut Document, from: &str, to: &str)
    ensures
        final(document)@ == (DocumentView {
            inputs: inputs_renamed(old(document)@.inputs, from@, to@),
            ..old(document)@
        }),
{
    let ghost start = document@;
    let mut i: usize = 0;
    while i < document.inputs.len()
        invariant
            i <= document.inputs.len(),
            document.inputs.len() == start.inputs.len(),
            document@ == (DocumentView { inputs: document@.inputs, ..start }),
            forall|j: int| 0 <= j < i ==> document@.inputs[j] == inputs_renamed(start.inputs, from@, to@)[j],
            forall|j: int| i <= j < document.inputs.len() ==> document@.inputs[j] == start.inputs[j],
        decreases document.inputs.len() - i,
    {
        let mut x = document.inputs[i].clone();
        x.tags = rename_tags(&document.inputs[i].tags, from, to);
        let ghost before = document.inputs@;
        document.inputs.set(i, x);
        proof {
            assert(document.inputs@.map_values(|t: InputDto| t@) =~= before.map_values(|t: InputDto| t@).update(i as int, x@));
        }
        i = i + 1;
    }
    assert(document@.inputs =~= inputs_renamed(start.inputs, from@, to@));
}

fn rename_in_scenes(document: &mut Document, from: &str, to: &str)
    ensures
        final(document)@ == (DocumentView {
            scenes: scenes_renamed(old(document)@.scenes, from@, to@),
            ..old(document)@
        }),
{
    let ghost start = document@;
    let mut i: usize = 0;
    while i < document.scenes.len()
        invariant
            i <= document.scenes.len(),
            document.scenes.len() == start.scenes.len(),
            document@ == (DocumentView { scenes: document@.scenes, ..start }),
            forall|j: int| 0 <= j < i ==> document@.scenes[j] == scenes_renamed(start.scenes, from@, to@)[j],
            forall|j: int| i <= j < document.scenes.len() ==> document@.scenes[j] == start.scenes[j],
        decreases document.scenes.len() - i,
    {
        let mut x = document.scenes[i].clone();
        x.tags = rename_tags(&document.scenes[i].tags, from, to);
        let ghost before = document.scenes@;
        document.scenes.set(i, x);
        proof {
            assert(document.scenes@.map_values(|t: SceneDto| t@) =~= before.map_values(|t: SceneDto| t@).update(i as int, x@));
        }
        i = i + 1;
    }
    assert(document@.scenes =~= scenes_renamed(start.scenes, from@, to@));
}

/// The document after renaming tag `from` to `to` in a catalog and on every
/// resource of that catalog's kind.
pub open spec fn renamed(d: DocumentView, c: TagCatalog, index: int, from: Seq<char>, to: Seq<char>) -> DocumentView {
    let d2 = with_catalog(d, c, catalog_of(d, c).update(index, to));
    match c {
        TagCatalog::Input => DocumentView { inputs: inputs_renamed(d.inputs, from, to), ..d2 },
        TagCatalog::Scene => DocumentView { scenes: scenes_renamed(d.scenes, from, to), ..d2 },
    }
}

/// Renaming catalog tag `from` (at `index`) to a different `to` renames it
/// in that catalog only, and on every resource of that catalog's kind: each
/// of their tags that was `from` becomes `to`, the others stay, none is
/// `from` afterwards, and nothing else about them changes. The other
/// catalog and the other kind of resource are untouched.
pub proof fn lemma_rename_moves_every_use(d: DocumentView, c: TagCatalog, index: int, from: Seq<char>, to: Seq<char>)
    requires
        0 <= index < catalog_of(d, c).len(),
        from != to,
    ensures
        ({
            let r = renamed(d, c, index, from, to);
            &&& c == TagCatalog::Scene ==> {
                &&& r.scene_tags == d.scene_tags.update(index, to)
                &&& r.input_tags == d.input_tags
                &&& r.inputs == d.inputs
                &&& r.scenes.len() == d.scenes.len()
                &&& forall|k: int|
                    0 <= k < d.scenes.len() ==> (#[trigger] r.scenes[k]).tags.len() == d.scenes[k].tags.len()
                        && r.scenes[k].id == d.scenes[k].id && r.scenes[k].guid == d.scenes[k].guid
                        && r.scenes[k].name == d.scenes[k].name && r.scenes[k].layers == d.scenes[k].layers
                        && r.scenes[k].preview_collapsed == d.scenes[k].preview_collapsed
                &&& forall|k: int, l: int|
                    0 <= k < d.scenes.len() && 0 <= l < d.scenes[k].tags.len() ==> {
                        &&& (#[trigger] r.scenes[k].tags[l]) != from
                        &&& d.scenes[k].tags[l] == from ==> r.scenes[k].tags[l] == to
                        &&& d.scenes[k].tags[l] != from ==> r.scenes[k].tags[l] == d.scenes[k].tags[l]
                    }
            }
            &&& c == TagCatalog::Input ==> {
                &&& r.input_tags == d.input_tags.update(index, to)
                &&& r.scene_tags == d.scene_tags
                &&& r.scenes == d.scenes
                &&& r.inputs.len() == d.inputs.len()
                &&& forall|k: int|
                    0 <= k < d.inputs.len() ==> (#[trigger] r.inputs[k]).tags.len() == d.inputs[k].tags.len()
                        && r.inputs[k] == (InputDtoView { tags: r.inputs[k].tags, ..d.inputs[k] })
                &&& forall|k: int, l: int|
                    0 <= k < d.inputs.len() && 0 <= l < d.inputs[k].tags.len() ==> {
                        &&& (#[trigger] r.inputs[k].tags[l]) != from
                        &&& d.inputs[k].tags[l] == from ==> r.inputs[k].tags[l] == to
                        &&& d.inputs[k].tags[l] != from ==> r.inputs[k].tags[l] == d.inputs[k].tags[l]
                    }
            }
            &&& r.settings == d.settings
            &&& r.units == d.units
            &&& r.outputs == d.outputs
        }),
{
    let r = renamed(d, c, index, from, to);
    match c {
        TagCatalog::Scene => {
            assert forall|k: int| 0 <= k < d.scenes.len() implies (#[trigger] r.scenes[k]).tags.len()
                == d.scenes[k].tags.len() && r.scenes[k].id == d.scenes[k].id && r.scenes[k].guid
                == d.scenes[k].guid && r.scenes[k].name == d.scenes[k].name && r.scenes[k].layers
                == d.scenes[k].layers && r.scenes[k].preview_collapsed == d.scenes[k].preview_collapsed by {}
            assert forall|k: int, l: int| 0 <= k < d.scenes.len() && 0 <= l < d.scenes[k].tags.len() implies {
                &&& (#[trigger] r.scenes[k].tags[l]) != from
                &&& d.scenes[k].tags[l] == from ==> r.scenes[k].tags[l] == to
                &&& d.scenes[k].tags[l] != from ==> r.scenes[k].tags[l] == d.scenes[k].tags[l]
            } by {
                assert(r.scenes[k].tags == rename_in(d.scenes[k].tags, from, to));
            }
        },
        TagCatalog::Input => {
            assert forall|k: int| 0 <= k < d.inputs.len() implies (#[trigger] r.inputs[k]).tags.len()
                == d.inputs[k].tags.len() && r.inputs[k] == (InputDtoView { tags: r.inputs[k].tags, ..d.inputs[k] }) by {}
            assert forall|k: int, l: int| 0 <= k < d.inputs.len() && 0 <= l < d.inputs[k].tags.len() implies {
                &&& (#[trigger] r.inputs[k].tags[l]) != from
                &&& d.inputs[k].tags[l] == from ==> r.inputs[k].tags[l] == to
                &&& d.inputs[k].tags[l] != from ==> r.inputs[k].tags[l] == d.inputs[k].tags[l]
            } by {
                assert(r.inputs[k].tags == rename_in(d.inputs[k].tags, from, to));
            }
        },
    }
}

/// Renames a catalog tag and every use of it on inputs (or scenes).
pub fn rename_catalog_tag(document: &mut Document, catalog: TagCatalog, from: &str, to: &str) -> (r:
    ControlResult<()>)
    ensures
        ({
            let d = old(document)@;
            let f = spec_trim(from@);
            let t = spec_trim(to@);
            let tags = catalog_of(d, catalog);
            if f.len() == 0 || t.len() == 0 {
                final(document)@ == d && (r matches Err(e) && e@ == (ControlErrorView {
                    kind: ErrorKind::InvalidArgument,
                    message: "tag name required"@,
                }))
            } else if !tags.contains(f) {
                final(document)@ == d && (r matches Err(e) && e@ == (ControlErrorView {
                    kind: ErrorKind::NotFound,
                    message: "tag "@ + f,
                }))
            } else if tags.contains(t) && f != t {
                final(document)@ == d && (r matches Err(e) && e@ == (ControlErrorView {
                    kind: ErrorKind::Conflict,
                    message: "tag "@ + t + " exists"@,
                }))
            } else {
                r is Ok && exists|index: int|
                    0 <= index < tags.len() && tags[index] == f && (forall|j: int|
                        0 <= j < index ==> tags[j] != f) && final(document)@ == renamed(
                        d,
                        catalog,
                        index,
                        f,
                        t,
                    )
            }
        }),
{
    let f = trim(from);
    let t = trim(to);
    if f.unicode_len() == 0 || t.unicode_len() == 0 {
        return Err(ControlError::invalid("tag name required"));
    }
    let mut tags = catalog_clone(document, catalog);
    let index = match position_of(&tags, f) {
        Some(index) => index,
        None => {
            let mut m = owned("tag ");
            m.append(f);
            return Err(ControlError::NotFound { message: m });
        },
    };
    proof {
        assert(catalog_of(document@, catalog)[index as int] == f@);
        assert forall|j: int| 0 <= j < index implies catalog_of(document@, catalog)[j] != f@ by {
            assert(catalog_of(document@, catalog)[j] == tags@[j]@);
        }
    }
    let found_to = position_of(&tags, t);
    if found_to.is_some() && !str_eq(f, t) {
        assert(catalog_of(document@, catalog)[found_to->0 as int] == t@);
        let mut m = owned("tag ");
        m.append(t);
        m.append(" exists");
        return Err(ControlError::Conflict { message: m });
    }
    let ghost before = tags@;
    tags.set(index, owned(t));
    proof {
        assert(tags@.map_values(|x: String| x@) =~= before.map_values(|x: String| x@).update(
            index as int,
            t@,
        ));
    }
    let ghost d = document@;
    set_catalog(document, catalog, tags);
    match catalog {
        TagCatalog::Input => rename_in_inputs(document, f, t),
        TagCatalog::Scene => rename_in_scenes(document, f, t),
    }
    Ok(())
}

/// `tags` without any occurrence of `t`, in order.
pub open spec fn without(tags: Seq<Seq<char>>, t: Seq<char>) -> Seq<Seq<char>>
    decreases tags.len(),
{
    if tags.len() == 0 {
        tags
    } else if tags.last() == t {
        without(tags.drop_last(), t)
    } else {
        without(tags.drop_last(), t).push(tags.last())
    }
}

proof fn lemma_without_len(tags: Seq<Seq<char>>, t: Seq<char>)
    ensures
        without(tags, t).len() <= tags.len(),
        tags.contains(t) ==> without(tags, t).len() < tags.len(),
        !tags.contains(t) ==> without(tags, t) == tags,
    decreases tags.len(),
{
    if tags.len() > 0 {
        lemma_without_len(tags.drop_last(), t);
        if tags.contains(t) && tags.last() != t {
            let i = choose|i: int| 0 <= i < tags.len() && tags[i] == t;
            assert(tags.drop_last()[i] == t);
        }
        if !tags.contains(t) {
            assert(!tags.drop_last().contains(t)) by {
                if tags.drop_last().contains(t) {
                    let i = choose|i: int| 0 <= i < tags.len() - 1 && tags.drop_last()[i] == t;
                    assert(tags[i] == t);
                }
            }
            assert(tags.drop_last().push(tags.last()) =~= tags);
        }
    }
}

fn remove_tag(tags: &Vec<String>, t: &str) -> (r: Vec<String>)
    ensures
        r@.map_values(|x: String| x@) == without(tags@.map_values(|x: String| x@), t@),
{
    let ghost all = tags@.map_values(|x: String| x@);
    let mut r: Vec<String> = Vec::new();
    let mut i: usize = 0;
    while i < tags.len()
        invariant
            i <= tags.len(),
            all == tags@.map_values(|x: String| x@),
            r@.map_values(|x: String| x@) == without(all.take(i as int), t@),
        decreases tags.len() - i,
    {
        assert(all.take(i + 1).drop_last() =~= all.take(i as int));
        assert(all.take(i + 1).last() == tags@[i as int]@);
        if !str_eq(tags[i].as_str(), t) {
            let ghost before = r@;
            r.push(tags[i].clone());
            proof {
                assert(r@.map_values(|x: String| x@) =~= before.map_values(|x: String| x@).push(
                    tags@[i as int]@,
                ));
            }
        }
        i = i + 1;
    }
    assert(all.take(tags.len() as int) =~= all);
    r
}

/// Inputs with tag `t` removed from their tags.
pub open spec fn inputs_without(inputs: Seq<InputDtoView>, t: Seq<char>) -> Seq<InputDtoView> {
    inputs.map_values(|x: InputDtoView| InputDtoView { tags: without(x.tags, t), ..x })
}

/// Scenes with tag `t` removed from their tags.
pub open spec fn scenes_without(scenes: Seq<SceneDtoView>, t: Seq<char>) -> Seq<SceneDtoView> {
    scenes.map_values(|x: SceneDtoView| SceneDtoView { tags: without(x.tags, t), ..x })
}

fn remove_from_inputs(document: &mut Document, t: &str)
    ensures
        final(document)@ == (DocumentView {
            inputs: inputs_without(old(document)@.inputs, t@),
            ..old(document)@
        }),
{
    let ghost start = document@;
    let mut i: usize = 0;
    while i < document.inputs.len()
        invariant
            i <= document.inputs.len(),
            document.inputs.len() == start.inputs.len(),
            document@ == (DocumentView { inputs: document@.inputs, ..start }),
            forall|j: int| 0 <= j < i ==> document@.inputs[j] == inputs_without(start.inputs, t@)[j],
            forall|j: int| i <= j < document.inputs.len() ==> document@.inputs[j] == start.inputs[j],
        decreases document.inputs.len() - i,
    {
        let mut x = document.inputs[i].clone();
        x.tags = remove_tag(&document.inputs[i].tags, t);
        let ghost before = document.inputs@;
        document.inputs.set(i, x);
        proof {
            assert(document.inputs@.map_values(|y: InputDto| y@) =~= before.map_values(|y: InputDto| y@).update(i as int, x@));
        }
        i = i + 1;
    }
    assert(document@.inputs =~= inputs_without(start.inputs, t@));
}

fn remove_from_scenes(document: &mut Document, t: &str)
    ensures
        final(document)@ == (DocumentView {
            scenes: scenes_without(old(document)@.scenes, t@),
            ..old(document)@
        }),
{
    let ghost start = document@;
    let mut i: usize = 0;
    while i < document.scenes.len()
        invariant
            i <= document.scenes.len(),
            document.scenes.len() == start.scenes.len(),
            document@ == (DocumentView { scenes: document@.scenes, ..start }),
            forall|j: int| 0 <= j < i ==> document@.scenes[j] == scenes_without(start.scenes, t@)[j],
            forall|j: int| i <= j < document.scenes.len() ==> document@.scenes[j] == start.scenes[j],
        decreases document.scenes.len() - i,
    {
        let mut x = document.scenes[i].clone();
        x.tags = remove_tag(&document.scenes[i].tags, t);
        let ghost before = document.scenes@;
        document.scenes.set(i, x);
        proof {
            assert(document.scenes@.map_values(|y: SceneDto| y@) =~= before.map_values(|y: SceneDto| y@).update(i as int, x@));
        }
        i = i + 1;
    }
    assert(document@.scenes =~= scenes_without(start.scenes, t@));
}

/// The document after deleting tag `t` from a catalog and from every resource
/// of that catalog's kind.
pub open spec fn tag_deleted(d: DocumentView, c: TagCatalog, t: Seq<char>) -> DocumentView {
    let d2 = with_catalog(d, c, without(catalog_of(d, c), t));
    match c {
        TagCatalog::Input => DocumentView { inputs: inputs_without(d.inputs, t), ..d2 },
        TagCatalog::Scene => DocumentView { scenes: scenes_without(d.scenes, t), ..d2 },
    }
}

proof fn lemma_without_contains(tags: Seq<Seq<char>>, t: Seq<char>)
    ensures
        forall|x: Seq<char>| #[trigger] without(tags, t).contains(x) <==> (tags.contains(x) && x != t),
    decreases tags.len(),
{
    if tags.len() > 0 {
        let p = tags.drop_last();
        lemma_without_contains(p, t);
        assert forall|x: Seq<char>| #[trigger] without(tags, t).contains(x) <==> (tags.contains(x) && x != t) by {
            if tags.contains(x) && x != t {
                let i = choose|i: int| 0 <= i < tags.len() && tags[i] == x;
                if i < tags.len() - 1 {
                    assert(p[i] == x);
                    assert(p.contains(x));
                    if tags.last() != t {
                        let w = without(p, t);
                        assert(w.contains(x));
                        let j = choose|j: int| 0 <= j < w.len() && w[j] == x;
                        assert(w.push(tags.last())[j] == x);
                    }
                } else {
                    let w = without(p, t);
                    assert(w.push(tags.last())[w.len() as int] == x);
                }
            }
            if without(tags, t).contains(x) {
                if tags.last() != t {
                    let w = without(p, t);
                    let j = choose|j: int| 0 <= j < w.push(tags.last()).len() && w.push(tags.last())[j] == x;
                    if j < w.len() {
                        assert(w[j] == x);
                        assert(w.contains(x));
                        assert(p.contains(x));
                        let i = choose|i: int| 0 <= i < p.len() && p[i] == x;
                        assert(tags[i] == x);
                    } else {
                        assert(tags[tags.len() - 1] == x);
                    }
                } else {
                    assert(without(p, t).contains(x));
                    assert(p.contains(x));
                    let i = choose|i: int| 0 <= i < p.len() && p[i] == x;
                    assert(tags[i] == x);
                }
            }
        }
    }
}

/// Deleting tag `t` from a catalog takes it off the catalog and off every
/// resource of that catalog's kind: none carries `t` afterwards, each keeps
/// every other tag it had and gains none, and nothing else about it changes.
/// The other catalog and the other kind of resource are untouched.
pub proof fn lemma_delete_tag_clears_every_use(d: DocumentView, c: TagCatalog, t: Seq<char>)
    ensures
        ({
            let r = tag_deleted(d, c, t);
            &&& forall|x: Seq<char>| #[trigger] catalog_of(r, c).contains(x) <==> (catalog_of(d, c).contains(x) && x != t)
            &&& c == TagCatalog::Scene ==> {
                &&& r.input_tags == d.input_tags
                &&& r.inputs == d.inputs
                &&& r.scenes.len() == d.scenes.len()
                &&& forall|k: int, x: Seq<char>|
                    0 <= k < d.scenes.len() ==> (#[trigger] r.scenes[k].tags.contains(x) <==> (d.scenes[k].tags.contains(x) && x != t))
                &&& forall|k: int| 0 <= k < d.scenes.len() ==> #[trigger] r.scenes[k] == (SceneDtoView { tags: r.scenes[k].tags, ..d.scenes[k] })
            }
            &&& c == TagCatalog::Input ==> {
                &&& r.scene_tags == d.scene_tags
                &&& r.scenes == d.scenes
                &&& r.inputs.len() == d.inputs.len()
                &&& forall|k: int, x: Seq<char>|
                    0 <= k < d.inputs.len() ==> (#[trigger] r.inputs[k].tags.contains(x) <==> (d.inputs[k].tags.contains(x) && x != t))
                &&& forall|k: int| 0 <= k < d.inputs.len() ==> #[trigger] r.inputs[k] == (InputDtoView { tags: r.inputs[k].tags, ..d.inputs[k] })
            }
            &&& r.settings == d.settings
            &&& r.units == d.units
            &&& r.outputs == d.outputs
        }),
{
    let r = tag_deleted(d, c, t);
    lemma_without_contains(catalog_of(d, c), t);
    match c {
        TagCatalog::Scene => {
            assert forall|k: int, x: Seq<char>| 0 <= k < d.scenes.len() implies (#[trigger] r.scenes[k].tags.contains(x)
                <==> (d.scenes[k].tags.contains(x) && x != t)) by {
                lemma_without_contains(d.scenes[k].tags, t);
                assert(r.scenes[k].tags == without(d.scenes[k].tags, t));
            }
        },
        TagCatalog::Input => {
            assert forall|k: int, x: Seq<char>| 0 <= k < d.inputs.len() implies (#[trigger] r.inputs[k].tags.contains(x)
                <==> (d.inputs[k].tags.contains(x) && x != t)) by {
                lemma_without_contains(d.inputs[k].tags, t);
                assert(r.inputs[k].tags == without(d.inputs[k].tags, t));
            }
        },
    }
}

/// Deletes a catalog tag and removes it from every input (or scene).
pub fn delete_catalog_tag(document: &mut Document, catalog: TagCatalog, tag: &str) -> (r: ControlResult<()>)
    ensures
        ({
            let d = old(document)@;
            let t = spec_trim(tag@);
            if t.len() == 0 {
                final(document)@ == d && (r matches Err(e) && e@ == (ControlErrorView {
                    kind: ErrorKind::InvalidArgument,
                    message: "tag required"@,
                }))
            } else if !catalog_of(d, catalog).contains(t) {
                final(document)@ == d && (r matches Err(e) && e@ == (ControlErrorView {
                    kind: ErrorKind::NotFound,
                    message: "tag "@ + t,
                }))
            } else {
                r is Ok && final(document)@ == tag_deleted(d, catalog, t)
            }
        }),
{
    let t = trim(tag);
    if t.unicode_len() == 0 {
        return Err(ControlError::invalid("tag required"));
    }
    let tags = catalog_clone(document, catalog);
    let kept = remove_tag(&tags, t);
    proof {
        lemma_without_len(catalog_of(document@, catalog), t@);
        assert(kept@.map_values(|x: String| x@).len() == kept.len());
        assert(tags@.map_values(|x: String| x@).len() == tags.len());
    }
    if kept.len() == tags.len() {
        let mut m = owned("tag ");
        m.append(t);
        return Err(ControlError::NotFound { message: m });
    }
    set_catalog(document, catalog, kept);
    match catalog {
        TagCatalog::Input => remove_from_inputs(document, t),
        TagCatalog::Scene => remove_from_scenes(document, t),
    }
    Ok(())
}

/// Index of the first preset named `name` at or after `i`.
pub open spec fn find_preset_from(presets: Seq<SceneLayoutPresetView>, name: Seq<char>, i: int) -> Option<int>
    decreases presets.len() - i,
{
    if i >= presets.len() {
        None
    } else if presets[i].name == name {
        Some(i)
    } else {
        find_preset_from(presets, name, i + 1)
    }
}

proof fn lemma_find_preset_from(presets: Seq<SceneLayoutPresetView>, name: Seq<char>, i: int)
    requires
        0 <= i,
    ensures
        find_preset_from(presets, name, i) matches Some(x) ==> i <= x < presets.len(),
    decreases presets.len() - i,
{
    if i < presets.len() && presets[i].name != name {
        lemma_find_preset_from(presets, name, i + 1);
    }
}

/// Stores a layout preset, replacing the first one with the same name.
pub fn upsert_scene_preset(document: &mut Document, preset: SceneLayoutPreset) -> (r: ControlResult<()>)
    ensures
        ({
            let d = old(document)@;
            if spec_trim(preset@.name).len() == 0 {
                final(document)@ == d && (r matches Err(e) && e@ == (ControlErrorView {
                    kind: ErrorKind::InvalidArgument,
                    message: "preset name required"@,
                }))
            } else {
                r is Ok && final(document)@ == (DocumentView {
                    scene_presets: match find_preset_from(d.scene_presets, preset@.name, 0) {
                        Some(k) => d.scene_presets.update(k, preset@),
                        None => d.scene_presets.push(preset@),
                    },
                    ..d
                })
            }
        }),
{
    if trim(preset.name.as_str()).unicode_len() == 0 {
        return Err(ControlError::invalid("preset name required"));
    }
    proof {
        lemma_find_preset_from(document@.scene_presets, preset@.name, 0);
    }
    let ghost before = document.scene_presets@;
    let ghost d0 = document@;
    let mut i: usize = 0;
    while i < document.scene_presets.len()
        invariant
            i <= document.scene_presets.len(),
            before == document.scene_presets@,
            spec_trim(preset@.name).len() != 0,
            d0 == document@,
            d0 == old(document)@,
            find_preset_from(document@.scene_presets, preset@.name, 0) == find_preset_from(
                document@.scene_presets,
                preset@.name,
                i as int,
            ),
        decreases document.scene_presets.len() - i,
    {
        if str_eq(document.scene_presets[i].name.as_str(), preset.name.as_str()) {
            assert(d0.scene_presets[i as int].name == preset@.name);
            assert(find_preset_from(d0.scene_presets, preset@.name, i as int) == Some(i as int));
            document.scene_presets.set(i, preset);
            proof {
                assert(document.scene_presets@.map_values(|y: SceneLayoutPreset| y@) =~= before.map_values(
                    |y: SceneLayoutPreset| y@,
                ).update(i as int, preset@));
                assert(document@.scene_presets =~= d0.scene_presets.update(i as int, preset@));
                assert(document@ == (DocumentView {
                    scene_presets: d0.scene_presets.update(i as int, preset@),
                    ..d0
                }));
            }
            return Ok(());
        }
        i = i + 1;
    }
    document.scene_presets.push(preset);
    proof {
        assert(document.scene_presets@.map_values(|y: SceneLayoutPreset| y@) =~= before.map_values(
            |y: SceneLayoutPreset| y@,
        ).push(preset@));
    }
    Ok(())
}

/// Presets other than those named `name`, in order.
pub open spec fn presets_without(presets: Seq<SceneLayoutPresetView>, name: Seq<char>) -> Seq<SceneLayoutPresetView>
    decreases presets.len(),
{
    if presets.len() == 0 {
        presets
    } else if presets.last().name == name {
        presets_without(presets.drop_last(), name)
    } else {
        presets_without(presets.drop_last(), name).push(presets.last())
    }
}

/// Some preset is named `name`.
pub open spec fn has_preset(presets: Seq<SceneLayoutPresetView>, name: Seq<char>) -> bool {
    exists|i: int| 0 <= i < presets.len() && #[trigger] presets[i].name == name
}

proof fn lemma_presets_without_len(presets: Seq<SceneLayoutPresetView>, name: Seq<char>)
    ensures
        presets_without(presets, name).len() <= presets.len(),
        has_preset(presets, name) ==> presets_without(presets, name).len() < presets.len(),
        !has_preset(presets, name) ==> presets_without(presets, name) == presets,
    decreases presets.len(),
{
    if presets.len() > 0 {
        let p = presets.drop_last();
        lemma_presets_without_len(p, name);
        if has_preset(presets, name) && presets.last().name != name {
            let i = choose|i: int| 0 <= i < presets.len() && #[trigger] presets[i].name == name;
            assert(p[i].name == name);
        }
        if !has_preset(presets, name) {
            assert(!has_preset(p, name)) by {
                if has_preset(p, name) {
                    let i = choose|i: int| 0 <= i < p.len() && #[trigger] p[i].name == name;
                    assert(presets[i].name == name);
                }
            }
            assert(presets.last().name != name) by {
                assert(presets[presets.len() - 1].name == presets.last().name);
            }
            assert(p.push(presets.last()) =~= presets);
        }
    }
}

/// Deleting, by its name, a preset that was just added under a new name
/// gives the document back as it was, and a second delete finds nothing.
pub proof fn lemma_delete_undoes_new_preset(d: DocumentView, preset: SceneLayoutPresetView)
    requires
        spec_trim(preset.name).len() != 0,
        !has_preset(d.scene_presets, preset.name),
    ensures
        ({
            let added = DocumentView {
                scene_presets: match find_preset_from(d.scene_presets, preset.name, 0) {
                    Some(k) => d.scene_presets.update(k, preset),
                    None => d.scene_presets.push(preset),
                },
                ..d
            };
            &&& has_preset(added.scene_presets, preset.name)
            &&& (DocumentView { scene_presets: presets_without(added.scene_presets, preset.name), ..added }) == d
            &&& !has_preset(presets_without(added.scene_presets, preset.name), preset.name)
        }),
{
    let ps = d.scene_presets;
    lemma_find_preset_none(ps, preset.name, 0);
    let added = ps.push(preset);
    assert(added[ps.len() as int].name == preset.name);
    assert(added.drop_last() =~= ps);
    lemma_presets_without_len(ps, preset.name);
    assert(presets_without(added, preset.name) == ps);
}

/// Searching for a name that no preset has finds none.
proof fn lemma_find_preset_none(presets: Seq<SceneLayoutPresetView>, name: Seq<char>, i: int)
    requires
        0 <= i,
        !has_preset(presets, name),
    ensures
        find_preset_from(presets, name, i) is None,
    decreases presets.len() - i,
{
    if i < presets.len() {
        assert(presets[i].name != name);
        lemma_find_preset_none(presets, name, i + 1);
    }
}

/// Deletes every layout preset named `name`.
pub fn delete_scene_preset(document: &mut Document, name: &str) -> (r: ControlResult<()>)
    ensures
        ({
            let d = old(document)@;
            if !has_preset(d.scene_presets, name@) {
                final(document)@ == d && (r matches Err(e) && e@ == (ControlErrorView {
                    kind: ErrorKind::NotFound,
                    message: "preset "@ + name@,
                }))
            } else {
                r is Ok && final(document)@ == (DocumentView {
                    scene_presets: presets_without(d.scene_presets, name@),
                    ..d
                })
            }
        }),
{
    let ghost all = document@.scene_presets;
    let mut kept: Vec<SceneLayoutPreset> = Vec::new();
    let mut i: usize = 0;
    while i < document.scene_presets.len()
        invariant
            i <= document.scene_presets.len(),
            all == document@.scene_presets,
            kept@.map_values(|y: SceneLayoutPreset| y@) == presets_without(all.take(i as int), name@),
        decreases document.scene_presets.len() - i,
    {
        assert(all.take(i + 1).drop_last() =~= all.take(i as int));
        assert(all.take(i + 1).last() == document.scene_presets@[i as int]@);
        if !str_eq(document.scene_presets[i].name.as_str(), name) {
            let ghost before = kept@;
            kept.push(document.scene_presets[i].clone());
            proof {
                assert(kept@.map_values(|y: SceneLayoutPreset| y@) =~= before.map_values(
                    |y: SceneLayoutPreset| y@,
                ).push(document.scene_presets@[i as int]@));
            }
        }
        i = i + 1;
    }
    assert(all.take(document.scene_presets.len() as int) =~= all);
    proof {
        lemma_presets_without_len(all, name@);
        assert(kept@.map_values(|y: SceneLayoutPreset| y@).len() == kept.len());
    }
    if kept.len() == document.scene_presets.len() {
        let mut m = owned("preset ");
        m.append(name);
        return Err(ControlError::NotFound { message: m });
    }
    document.scene_presets = kept;
    Ok(())
}

} // verus!
