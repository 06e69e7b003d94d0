//! Numeric resource identities and their GPU-side encodings, and the
//! resolution of operator selectors (numeric id, GUID or name) to resources.

use vstd::prelude::*;

use crate::error::{ControlError, ControlErrorView, ControlResult, ErrorKind};
use crate::session::edit::{input_id_seq, scene_id_seq, unit_id_seq};
use crate::session::model::{
    Document, DocumentView, InputDto, InputDtoView, SceneDto, SceneDtoView, UnitDtoView,
};
use crate::session::mutate::{first_index, input_ids, lemma_first_index, position, scene_ids, unit_ids};
use crate::session::validate::{input_guid_list, input_guids, scene_guid_list, scene_guids};
use crate::text::{
    eq_ignore_ascii_case, owned, parse_unsigned, spec_eq_ignore_ascii_case, spec_parse_unsigned,
    spec_trim, trim,
};

verus! {

pub const SCENE_BASE: u64 = 0x0001_0000;

pub const MULTIVIEW_BASE: u64 = 0x0002_0000;

pub const MU_SOURCE_FLAG: u64 = 0x8000_0000_0000_0000;

pub const MU_BUS_PREVIEW: u64 = 0x1000_0000_0000_0000;

pub const MU_ID_MASK: u64 = 0x0FFF_FFFF_FFFF_FFFF;

pub open spec fn spec_scene_gpu_id(scene_id: u64) -> u64 {
    SCENE_BASE | scene_id
}

pub open spec fn spec_multiview_gpu_id(layout_id: u64) -> u64 {
    MULTIVIEW_BASE | layout_id
}

pub open spec fn spec_mu_program(unit_id: u64) -> u64 {
    MU_SOURCE_FLAG | (unit_id & MU_ID_MASK)
}

pub open spec fn spec_mu_preview(unit_id: u64) -> u64 {
    MU_SOURCE_FLAG | MU_BUS_PREVIEW | (unit_id & MU_ID_MASK)
}

#[verifier::when_used_as_spec(spec_scene_gpu_id)]
pub fn scene_gpu_id(scene_id: u64) -> (r: u64)
    ensures
        r == spec_scene_gpu_id(scene_id),
{
    SCENE_BASE | scene_id
}

#[verifier::when_used_as_spec(spec_multiview_gpu_id)]
pub fn multiview_gpu_id(layout_id: u64) -> (r: u64)
    ensures
        r == spec_multiview_gpu_id(layout_id),
{
    MULTIVIEW_BASE | layout_id
}

#[verifier::when_used_as_spec(spec_mu_program)]
pub fn mu_program(unit_id: u64) -> (r: u64)
    ensures
        r == spec_mu_program(unit_id),
{
    MU_SOURCE_FLAG | (unit_id & MU_ID_MASK)
}

#[verifier::when_used_as_spec(spec_mu_preview)]
pub fn mu_preview(unit_id: u64) -> (r: u64)
    ensures
        r == spec_mu_preview(unit_id),
{
    MU_SOURCE_FLAG | MU_BUS_PREVIEW | (unit_id & MU_ID_MASK)
}

/// A scene's GPU id carries the scene bit and, for ids below the scene base,
/// gives the scene id back under the low mask.
pub proof fn lemma_scene_gpu_id_round_trip(scene_id: u64)
    requires
        scene_id < SCENE_BASE,
    ensures
        spec_scene_gpu_id(scene_id) & SCENE_BASE == SCENE_BASE,
        spec_scene_gpu_id(scene_id) & (SCENE_BASE - 1) as u64 == scene_id,
        spec_scene_gpu_id(scene_id) >= SCENE_BASE,
{
    assert(scene_id < 0x0001_0000u64 ==> (0x0001_0000u64 | scene_id) & 0x0001_0000u64
        == 0x0001_0000u64 && (0x0001_0000u64 | scene_id) & 0xFFFFu64 == scene_id && (0x0001_0000u64
        | scene_id) >= 0x0001_0000u64) by (bit_vector);
}

/// Program and Preview taps of a unit are always distinct sources, both marked
/// as unit sources, and both give the unit id back under the id mask.
pub proof fn lemma_mu_taps(unit_id: u64)
    ensures
        spec_mu_program(unit_id) != spec_mu_preview(unit_id),
        spec_mu_program(unit_id) & MU_SOURCE_FLAG == MU_SOURCE_FLAG,
        spec_mu_preview(unit_id) & MU_SOURCE_FLAG == MU_SOURCE_FLAG,
        spec_mu_program(unit_id) & MU_ID_MASK == unit_id & MU_ID_MASK,
        spec_mu_preview(unit_id) & MU_ID_MASK == unit_id & MU_ID_MASK,
{
    assert(0x8000_0000_0000_0000u64 | (unit_id & 0x0FFF_FFFF_FFFF_FFFFu64)
        != 0x8000_0000_0000_0000u64 | 0x1000_0000_0000_0000u64 | (unit_id
        & 0x0FFF_FFFF_FFFF_FFFFu64)) by (bit_vector);
    assert((0x8000_0000_0000_0000u64 | (unit_id & 0x0FFF_FFFF_FFFF_FFFFu64))
        & 0x8000_0000_0000_0000u64 == 0x8000_0000_0000_0000u64) by (bit_vector);
    assert((0x8000_0000_0000_0000u64 | 0x1000_0000_0000_0000u64 | (unit_id
        & 0x0FFF_FFFF_FFFF_FFFFu64)) & 0x8000_0000_0000_0000u64 == 0x8000_0000_0000_0000u64)
        by (bit_vector);
    assert((0x8000_0000_0000_0000u64 | (unit_id & 0x0FFF_FFFF_FFFF_FFFFu64))
        & 0x0FFF_FFFF_FFFF_FFFFu64 == unit_id & 0x0FFF_FFFF_FFFF_FFFFu64) by (bit_vector);
    assert((0x8000_0000_0000_0000u64 | 0x1000_0000_0000_0000u64 | (unit_id
        & 0x0FFF_FFFF_FFFF_FFFFu64)) & 0x0FFF_FFFF_FFFF_FFFFu64 == unit_id
        & 0x0FFF_FFFF_FFFF_FFFFu64) by (bit_vector);
}

#[derive(Debug, Clone, Copy, PartialEq, Eq, Hash, Structural)]
pub enum ResourceKind {
    Input,
    Scene,
    Unit,
    Output,
    Multiview,
    Bus,
}

pub open spec fn spec_kind_str(k: ResourceKind) -> Seq<char> {
    match k {
        ResourceKind::Input => "input"@,
        ResourceKind::Scene => "scene"@,
        ResourceKind::Unit => "unit"@,
        ResourceKind::Output => "output"@,
        ResourceKind::Multiview => "multiview"@,
        ResourceKind::Bus => "bus"@,
    }
}

impl ResourceKind {
    pub fn as_str(self) -> (r: &'static str)
        ensures
            r@ == spec_kind_str(self),
    {
        match self {
            ResourceKind::Input => "input",
            ResourceKind::Scene => "scene",
            ResourceKind::Unit => "unit",
            ResourceKind::Output => "output",
            ResourceKind::Multiview => "multiview",
            ResourceKind::Bus => "bus",
        }
    }
}

/// Typed resource identity. Numeric id is the stable key. GUID and name are
/// accepted on the wire for Input/Scene compatibility.
#[derive(Debug, Clone, PartialEq, Eq)]
pub struct ResourceRef {
    pub kind: ResourceKind,
    pub id: u64,
    pub guid: String,
    pub name: String,
}

impl ResourceRef {
    pub fn numeric(kind: ResourceKind, id: u64) -> (r: Self)
        ensures
            r.kind == kind,
            r.id == id,
            r.guid@.len() == 0,
            r.name@.len() == 0,
    {
        ResourceRef { kind, id, guid: String::new(), name: String::new() }
    }
}

/// Resolves operator selectors (numeric id, GUID or name) to resources.
#[derive(Debug, Clone, Default)]
pub struct Resolver;

/// Positions of the texts equal to `t` up to ASCII case; with `need_text`,
/// empty texts never match.
pub open spec fn matches_at(texts: Seq<Seq<char>>, t: Seq<char>, need_text: bool) -> Seq<int>
    decreases texts.len(),
{
    if texts.len() == 0 {
        Seq::empty()
    } else {
        let earlier = matches_at(texts.drop_last(), t, need_text);
        let last = texts.last();
        if (!need_text || last.len() > 0) && spec_eq_ignore_ascii_case(last, t) {
            earlier.push(texts.len() - 1)
        } else {
            earlier
        }
    }
}

pub proof fn lemma_matches_at_bounds(texts: Seq<Seq<char>>, t: Seq<char>, need_text: bool)
    ensures
        forall|j: int|
            0 <= j < matches_at(texts, t, need_text).len() ==> 0 <= #[trigger] matches_at(
                texts,
                t,
                need_text,
            )[j] < texts.len(),
    decreases texts.len(),
{
    if texts.len() > 0 {
        let earlier = matches_at(texts.drop_last(), t, need_text);
        lemma_matches_at_bounds(texts.drop_last(), t, need_text);
        assert forall|j: int| 0 <= j < matches_at(texts, t, need_text).len() implies 0
            <= #[trigger] matches_at(texts, t, need_text)[j] < texts.len() by {
            if j < earlier.len() {
                assert(matches_at(texts, t, need_text)[j] == earlier[j]);
            }
        }
    }
}

/// `{kind} ... {raw}` messages of the resolver.
pub open spec fn kind_text(kind: ResourceKind, middle: Seq<char>, raw: Seq<char>) -> Seq<char> {
    spec_kind_str(kind) + middle + raw
}

/// Which item a selector picks: after trimming, a numeric id that exists
/// wins, then a unique GUID match, then a unique name match (both ignoring
/// ASCII case).
pub open spec fn spec_resolve_named(
    raw: Seq<char>,
    ids: Seq<u64>,
    guids: Seq<Seq<char>>,
    names: Seq<Seq<char>>,
    kind: ResourceKind,
) -> Result<int, ControlErrorView> {
    let t = spec_trim(raw);
    let by_id = match spec_parse_unsigned(t, u64::MAX as nat) {
        Some(n) => first_index(ids, n as u64, 0),
        None => None,
    };
    let guid_hits = matches_at(guids, t, true);
    let name_hits = matches_at(names, t, false);
    if t.len() == 0 {
        Err(
            ControlErrorView {
                kind: ErrorKind::InvalidArgument,
                message: "empty "@ + spec_kind_str(kind) + " selector"@,
            },
        )
    } else if by_id is Some {
        Ok(by_id->0)
    } else if guid_hits.len() == 1 {
        Ok(guid_hits[0])
    } else if guid_hits.len() > 1 {
        Err(ControlErrorView { kind: ErrorKind::Ambiguous, message: kind_text(kind, " guid "@, t) })
    } else if name_hits.len() == 1 {
        Ok(name_hits[0])
    } else if name_hits.len() == 0 {
        Err(ControlErrorView { kind: ErrorKind::NotFound, message: kind_text(kind, " "@, t) })
    } else {
        Err(ControlErrorView { kind: ErrorKind::Ambiguous, message: kind_text(kind, " name "@, t) })
    }
}

/// How many texts match, and the first one that does.
fn count_matches(texts: &Vec<String>, t: &str, need_text: bool) -> (r: (usize, usize))
    ensures
        r.0 == matches_at(texts@.map_values(|s: String| s@), t@, need_text).len(),
        r.0 > 0 ==> r.1 as int == matches_at(texts@.map_values(|s: String| s@), t@, need_text)[0],
{
    let ghost all = texts@.map_values(|s: String| s@);
    let mut count: usize = 0;
    let mut first: usize = 0;
    let mut i: usize = 0;
    while i < texts.len()
        invariant
            i <= texts.len(),
            all == texts@.map_values(|s: String| s@),
            count == matches_at(all.take(i as int), t@, need_text).len(),
            count <= i,
            count > 0 ==> first as int == matches_at(all.take(i as int), t@, need_text)[0],
        decreases texts.len() - i,
    {
        proof {
            assert(all.take(i + 1).drop_last() =~= all.take(i as int));
            assert(all.take(i + 1).last() == texts@[i as int]@);
        }
        let text = texts[i].as_str();
        if (!need_text || text.unicode_len() > 0) && eq_ignore_ascii_case(text, t) {
            if count == 0 {
                first = i;
            }
            count = count + 1;
        }
        i = i + 1;
    }
    assert(all.take(texts.len() as int) =~= all);
    (count, first)
}

fn kind_message(kind: ResourceKind, middle: &str, raw: &str) -> (r: String)
    ensures
        r@ == kind_text(kind, middle@, raw@),
{
    let mut m = owned(kind.as_str());
    m.append(middle);
    m.append(raw);
    m
}

fn resolve_index(
    raw: &str,
    ids: &Vec<u64>,
    guids: &Vec<String>,
    names: &Vec<String>,
    kind: ResourceKind,
) -> (r: ControlResult<usize>)
    ensures
        match spec_resolve_named(
            raw@,
            ids@,
            guids@.map_values(|s: String| s@),
            names@.map_values(|s: String| s@),
            kind,
        ) {
            Ok(k) => r matches Ok(x) && x as int == k,
            Err(e) => r matches Err(x) && x@ == e,
        },
{
    let t = trim(raw);
    if t.unicode_len() == 0 {
        let mut m = owned("empty ");
        m.append(kind.as_str());
        m.append(" selector");
        return Err(ControlError::InvalidArgument { message: m });
    }
    match parse_unsigned(t, u64::MAX) {
        Some(id) => match position(ids, id) {
            Some(k) => {
                return Ok(k);
            },
            None => {},
        },
        None => {},
    }
    let (guid_count, guid_first) = count_matches(guids, t, true);
    if guid_count == 1 {
        return Ok(guid_first);
    }
    if guid_count > 1 {
        return Err(ControlError::Ambiguous { message: kind_message(kind, " guid ", t) });
    }
    let (name_count, name_first) = count_matches(names, t, false);
    if name_count == 1 {
        Ok(name_first)
    } else if name_count == 0 {
        Err(ControlError::NotFound { message: kind_message(kind, " ", t) })
    } else {
        Err(ControlError::Ambiguous { message: kind_message(kind, " name ", t) })
    }
}

pub open spec fn input_names(d: DocumentView) -> Seq<Seq<char>> {
    d.inputs.map_values(|x: InputDtoView| x.name)
}

pub open spec fn scene_names(d: DocumentView) -> Seq<Seq<char>> {
    d.scenes.map_values(|x: SceneDtoView| x.name)
}

pub open spec fn unit_names(d: DocumentView) -> Seq<Seq<char>> {
    d.units.map_values(|x: UnitDtoView| x.name)
}

fn input_name_list(doc: &Document) -> (r: Vec<String>)
    ensures
        r@.map_values(|s: String| s@) == input_names(doc@),
{
    let mut r: Vec<String> = Vec::new();
    let mut i: usize = 0;
    while i < doc.inputs.len()
        invariant
            i <= doc.inputs.len(),
            r@.map_values(|s: String| s@) =~= input_names(doc@).take(i as int),
        decreases doc.inputs.len() - i,
    {
        let ghost before = r@;
        let x = doc.inputs[i].name.clone();
        r.push(x);
        proof {
            assert(r@.map_values(|s: String| s@) =~= before.map_values(|s: String| s@).push(x@));
        }
        i = i + 1;
    }
    assert(input_names(doc@).take(i as int) =~= input_names(doc@));
    r
}

fn scene_name_list(doc: &Document) -> (r: Vec<String>)
    ensures
        r@.map_values(|s: String| s@) == scene_names(doc@),
{
    let mut r: Vec<String> = Vec::new();
    let mut i: usize = 0;
    while i < doc.scenes.len()
        invariant
            i <= doc.scenes.len(),
            r@.map_values(|s: String| s@) =~= scene_names(doc@).take(i as int),
        decreases doc.scenes.len() - i,
    {
        let ghost before = r@;
        let x = doc.scenes[i].name.clone();
        r.push(x);
        proof {
            assert(r@.map_values(|s: String| s@) =~= before.map_values(|s: String| s@).push(x@));
        }
        i = i + 1;
    }
    assert(scene_names(doc@).take(i as int) =~= scene_names(doc@));
    r
}

fn unit_name_list(doc: &Document) -> (r: Vec<String>)
    ensures
        r@.map_values(|s: String| s@) == unit_names(doc@),
{
    let mut r: Vec<String> = Vec::new();
    let mut i: usize = 0;
    while i < doc.units.len()
        invariant
            i <= doc.units.len(),
            r@.map_values(|s: String| s@) =~= unit_names(doc@).take(i as int),
        decreases doc.units.len() - i,
    {
        let ghost before = r@;
        let x = doc.units[i].name.clone();
        r.push(x);
        proof {
            assert(r@.map_values(|s: String| s@) =~= before.map_values(|s: String| s@).push(x@));
        }
        i = i + 1;
    }
    assert(unit_names(doc@).take(i as int) =~= unit_names(doc@));
    r
}

pub open spec fn spec_resolve_input(d: DocumentView, raw: Seq<char>) -> Result<int, ControlErrorView> {
    spec_resolve_named(raw, input_id_seq(d), input_guids(d), input_names(d), ResourceKind::Input)
}

pub open spec fn spec_resolve_scene(d: DocumentView, raw: Seq<char>) -> Result<int, ControlErrorView> {
    spec_resolve_named(raw, scene_id_seq(d), scene_guids(d), scene_names(d), ResourceKind::Scene)
}

/// Which unit a unit selector picks: empty or `0` is the selected unit (or
/// the first one), then a 1-based position, then an existing id, then a
/// unique name ignoring ASCII case.
pub open spec fn spec_resolve_unit(d: DocumentView, raw: Seq<char>) -> Result<u64, ControlErrorView> {
    let position_of = spec_parse_unsigned(raw, u32::MAX as nat);
    let by_id = spec_parse_unsigned(raw, u64::MAX as nat);
    let name_hits = matches_at(unit_names(d), raw, false);
    if raw.len() == 0 || raw == "0"@ {
        if d.selected_unit_id != 0 {
            Ok(d.selected_unit_id)
        } else if d.units.len() > 0 {
            Ok(d.units[0].id)
        } else {
            Err(ControlErrorView { kind: ErrorKind::NotFound, message: "no mixing unit"@ })
        }
    } else if position_of is Some && 1 <= position_of->0 && position_of->0 - 1 < d.units.len() {
        Ok(d.units[position_of->0 - 1].id)
    } else if by_id is Some && unit_id_seq(d).contains(by_id->0 as u64) {
        Ok(by_id->0 as u64)
    } else if name_hits.len() == 1 {
        Ok(d.units[name_hits[0]].id)
    } else if name_hits.len() == 0 {
        Err(ControlErrorView { kind: ErrorKind::NotFound, message: "mixing unit "@ + raw })
    } else {
        Err(ControlErrorView { kind: ErrorKind::Ambiguous, message: "mixing unit "@ + raw })
    }
}

impl Resolver {
    pub fn resolve_input<'a>(&self, doc: &'a Document, raw: &str) -> (r: ControlResult<&'a InputDto>)
        ensures
            match spec_resolve_input(doc@, raw@) {
                Ok(k) => r matches Ok(x) && 0 <= k < doc@.inputs.len() && x@ == doc@.inputs[k],
                Err(e) => r matches Err(x) && x@ == e,
            },
    {
        let ids = input_ids(doc);
        let guids = input_guid_list(doc);
        let names = input_name_list(doc);
        proof {
            lemma_matches_at_bounds(input_guids(doc@), spec_trim(raw@), true);
            lemma_matches_at_bounds(input_names(doc@), spec_trim(raw@), false);
            if let Some(n) = spec_parse_unsigned(spec_trim(raw@), u64::MAX as nat) {
                lemma_first_index(ids@, n as u64, 0);
            }
        }
        match resolve_index(raw, &ids, &guids, &names, ResourceKind::Input) {
            Ok(k) => Ok(&doc.inputs[k]),
            Err(e) => Err(e),
        }
    }

    pub fn resolve_scene<'a>(&self, doc: &'a Document, raw: &str) -> (r: ControlResult<&'a SceneDto>)
        ensures
            match spec_resolve_scene(doc@, raw@) {
                Ok(k) => r matches Ok(x) && 0 <= k < doc@.scenes.len() && x@ == doc@.scenes[k],
                Err(e) => r matches Err(x) && x@ == e,
            },
    {
        let ids = scene_ids(doc);
        let guids = scene_guid_list(doc);
        let names = scene_name_list(doc);
        proof {
            lemma_matches_at_bounds(scene_guids(doc@), spec_trim(raw@), true);
            lemma_matches_at_bounds(scene_names(doc@), spec_trim(raw@), false);
            if let Some(n) = spec_parse_unsigned(spec_trim(raw@), u64::MAX as nat) {
                lemma_first_index(ids@, n as u64, 0);
            }
        }
        match resolve_index(raw, &ids, &guids, &names, ResourceKind::Scene) {
            Ok(k) => Ok(&doc.scenes[k]),
            Err(e) => Err(e),
        }
    }

    pub fn resolve_unit(&self, doc: &Document, raw: &str) -> (r: ControlResult<u64>)
        ensures
            match spec_resolve_unit(doc@, raw@) {
                Ok(id) => r == Ok::<u64, ControlError>(id),
                Err(e) => r matches Err(x) && x@ == e,
            },
    {
        proof {
            reveal_strlit("0");
        }
        if raw.unicode_len() == 0 || (raw.unicode_len() == 1 && raw.get_char(0) == '0') {
            proof {
                if raw@.len() == 1 && raw@[0] == '0' {
                    assert(raw@ =~= "0"@);
                }
            }
            if doc.selected_unit_id != 0 {
                return Ok(doc.selected_unit_id);
            }
            if doc.units.len() > 0 {
                return Ok(doc.units[0].id);
            }
            return Err(ControlError::not_found("no mixing unit"));
        }
        proof {
            if raw@ == "0"@ {
                assert(raw@.len() == 1 && raw@[0] == '0');
            }
        }
        match parse_unsigned(raw, 0xFFFF_FFFF) {
            Some(index) => {
                if index >= 1 && ((index - 1) as usize) < doc.units.len() {
                    return Ok(doc.units[(index - 1) as usize].id);
                }
            },
            None => {},
        }
        match parse_unsigned(raw, u64::MAX) {
            Some(id) => {
                let ids = unit_ids(doc);
                if crate::session::validate::vec_contains(&ids, id) {
                    return Ok(id);
                }
            },
            None => {},
        }
        let names = unit_name_list(doc);
        let (count, first) = count_matches(&names, raw, false);
        proof {
            lemma_matches_at_bounds(unit_names(doc@), raw@, false);
        }
        if count == 1 {
            Ok(doc.units[first].id)
        } else {
            let mut m = owned("mixing unit ");
            m.append(raw);
            if count == 0 {
                Err(ControlError::NotFound { message: m })
            } else {
                Err(ControlError::Ambiguous { message: m })
            }
        }
    }
}

} // verus!
