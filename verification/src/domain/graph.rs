//! The dependency graph between mixing units that mix feeds create: a unit
//! whose scene shows another unit's feed depends on that unit.

use vstd::prelude::*;

use crate::domain::error::{DomainError, DomainResult};
use crate::domain::ids::{InputId, MixingUnitId, SceneId};
use crate::domain::input::{Input, InputSource};
use crate::domain::key_order::{key_order, keys_in_order, keys_ordered, lemma_keys_ordered};
use crate::domain::mixing::MixingUnit;
use crate::domain::project::Project;
use crate::domain::scene::{spec_visible, Scene};

verus! {

broadcast use vstd::std_specs::btree::group_btree_axioms;

/// Graph queries over a project.
#[derive(Debug, Clone, Copy)]
pub struct MixingGraph;

pub type Edge = (MixingUnitId, MixingUnitId);

/// The scene shows the input somewhere (visible or not).
pub open spec fn scene_has_input(scene: Scene, input: InputId) -> bool {
    exists|j: int| 0 <= j < scene.items@.len() && (#[trigger] scene.items@[j]).input == input
}

/// The unit puts the scene on a bus or in an overlay.
pub open spec fn unit_uses_scene(unit: MixingUnit, scene: SceneId) -> bool {
    ||| unit.program.scene == Some(scene)
    ||| unit.preview.scene == Some(scene)
    ||| exists|j: int| 0 <= j < unit.overlays@.len() && (#[trigger] unit.overlays@[j]).scene == Some(scene)
}

/// Edges from `src` to each unit, taken in `keys` order, that uses the scene.
pub open spec fn unit_edges(p: Project, src: MixingUnitId, scene: SceneId, keys: Seq<u128>) -> Seq<Edge>
    decreases keys.len(),
{
    if keys.len() == 0 {
        seq![]
    } else {
        let u = p.mixing_units@[keys.last()];
        unit_edges(p, src, scene, keys.drop_last()) + if unit_uses_scene(u, scene) {
            seq![(src, u.id)]
        } else {
            seq![]
        }
    }
}

/// Edges from `src` for each scene, taken in `keys` order, that shows the input.
pub open spec fn scene_edges(p: Project, input: InputId, src: MixingUnitId, keys: Seq<u128>) -> Seq<Edge>
    decreases keys.len(),
{
    if keys.len() == 0 {
        seq![]
    } else {
        let s = p.scenes@[keys.last()];
        scene_edges(p, input, src, keys.drop_last()) + if scene_has_input(s, input) {
            unit_edges(p, src, s.id, key_order(p.mixing_units@))
        } else {
            seq![]
        }
    }
}

/// The edges that the inputs, taken in `keys` order, create.
pub open spec fn input_edges(p: Project, keys: Seq<u128>) -> Seq<Edge>
    decreases keys.len(),
{
    if keys.len() == 0 {
        seq![]
    } else {
        let i = p.inputs@[keys.last()];
        input_edges(p, keys.drop_last()) + match i.source {
            InputSource::MixFeed { unit, .. } => scene_edges(p, i.id, unit, key_order(p.scenes@)),
            _ => seq![],
        }
    }
}

/// Every edge of the graph, in the order inputs, scenes and units are
/// visited by key: a mix feed of unit A shown in a scene that unit B uses
/// makes the edge (A, B).
pub open spec fn spec_edges(p: Project) -> Seq<Edge> {
    input_edges(p, key_order(p.inputs@))
}

fn scene_shows(scene: &Scene, input: InputId) -> (r: bool)
    ensures
        r == scene_has_input(*scene, input),
{
    let mut j: usize = 0;
    while j < scene.items.len()
        invariant
            j <= scene.items@.len(),
            forall|k: int| 0 <= k < j ==> (#[trigger] scene.items@[k]).input != input,
        decreases scene.items@.len() - j,
    {
        if scene.items[j].input == input {
            return true;
        }
        j = j + 1;
    }
    false
}

fn unit_uses(unit: &MixingUnit, scene: SceneId) -> (r: bool)
    ensures
        r == unit_uses_scene(*unit, scene),
{
    if unit.program.scene == Some(scene) || unit.preview.scene == Some(scene) {
        return true;
    }
    let mut j: usize = 0;
    while j < unit.overlays.len()
        invariant
            j <= unit.overlays@.len(),
            forall|k: int| 0 <= k < j ==> (#[trigger] unit.overlays@[k]).scene != Some(scene),
        decreases unit.overlays@.len() - j,
    {
        if unit.overlays[j].scene == Some(scene) {
            return true;
        }
        j = j + 1;
    }
    false
}

fn push_unit_edges(p: &Project, src: MixingUnitId, scene: SceneId, unit_keys: &Vec<u128>, out: &mut Vec<Edge>)
    requires
        unit_keys@ == key_order(p.mixing_units@),
        forall|k: u128| p.mixing_units@.contains_key(k) <==> unit_keys@.contains(k),
    ensures
        final(out)@ == old(out)@ + unit_edges(*p, src, scene, unit_keys@),
{
    proof {
        lemma_keys_ordered();
    }
    let ghost start = out@;
    let mut n: usize = 0;
    while n < unit_keys.len()
        invariant
            n <= unit_keys@.len(),
            unit_keys@ == key_order(p.mixing_units@),
            forall|k: u128| p.mixing_units@.contains_key(k) <==> unit_keys@.contains(k),
            keys_ordered(),
            out@ == start + unit_edges(*p, src, scene, unit_keys@.take(n as int)),
        decreases unit_keys@.len() - n,
    {
        let k = unit_keys[n];
        proof {
            assert(unit_keys@.contains(k));
            assert(unit_keys@.take(n + 1).drop_last() =~= unit_keys@.take(n as int));
        }
        match p.mixing_units.get(&k) {
            Some(u) => {
                if unit_uses(u, scene) {
                    out.push((src, u.id));
                }
            },
            None => {},
        }
        proof {
            assert(out@ =~= start + unit_edges(*p, src, scene, unit_keys@.take(n + 1)));
        }
        n = n + 1;
    }
    proof {
        assert(unit_keys@.take(n as int) =~= unit_keys@);
    }
}

fn push_scene_edges(
    p: &Project,
    input: InputId,
    src: MixingUnitId,
    scene_keys: &Vec<u128>,
    unit_keys: &Vec<u128>,
    out: &mut Vec<Edge>,
)
    requires
        scene_keys@ == key_order(p.scenes@),
        forall|k: u128| p.scenes@.contains_key(k) <==> scene_keys@.contains(k),
        unit_keys@ == key_order(p.mixing_units@),
        forall|k: u128| p.mixing_units@.contains_key(k) <==> unit_keys@.contains(k),
    ensures
        final(out)@ == old(out)@ + scene_edges(*p, input, src, scene_keys@),
{
    proof {
        lemma_keys_ordered();
    }
    let ghost start = out@;
    let mut n: usize = 0;
    while n < scene_keys.len()
        invariant
            n <= scene_keys@.len(),
            scene_keys@ == key_order(p.scenes@),
            forall|k: u128| p.scenes@.contains_key(k) <==> scene_keys@.contains(k),
            unit_keys@ == key_order(p.mixing_units@),
            forall|k: u128| p.mixing_units@.contains_key(k) <==> unit_keys@.contains(k),
            keys_ordered(),
            out@ == start + scene_edges(*p, input, src, scene_keys@.take(n as int)),
        decreases scene_keys@.len() - n,
    {
        let k = scene_keys[n];
        proof {
            assert(scene_keys@.contains(k));
            assert(scene_keys@.take(n + 1).drop_last() =~= scene_keys@.take(n as int));
        }
        let ghost before = out@;
        match p.scenes.get(&k) {
            Some(s) => {
                if scene_shows(s, input) {
                    push_unit_edges(p, src, s.id, unit_keys, out);
                }
            },
            None => {},
        }
        proof {
            assert(out@ =~= start + scene_edges(*p, input, src, scene_keys@.take(n + 1)));
        }
        n = n + 1;
    }
    proof {
        assert(scene_keys@.take(n as int) =~= scene_keys@);
    }
}

proof fn lemma_drop_last_contains(keys: Seq<u128>, k: u128)
    requires
        keys.contains(k),
        keys.len() > 0,
        keys.last() != k,
    ensures
        keys.drop_last().contains(k),
{
    let i = choose|i: int| 0 <= i < keys.len() && keys[i] == k;
    assert(keys.drop_last()[i] == k);
}

proof fn lemma_append_contains(a: Seq<Edge>, b: Seq<Edge>, e: Edge)
    requires
        a.contains(e) || b.contains(e),
    ensures
        (a + b).contains(e),
{
    if a.contains(e) {
        let i = choose|i: int| 0 <= i < a.len() && a[i] == e;
        assert((a + b)[i] == e);
    } else {
        let i = choose|i: int| 0 <= i < b.len() && b[i] == e;
        assert((a + b)[a.len() + i] == e);
    }
}

proof fn lemma_unit_edges_has(p: Project, src: MixingUnitId, scene: SceneId, keys: Seq<u128>, ku: u128)
    requires
        keys.contains(ku),
        unit_uses_scene(p.mixing_units@[ku], scene),
    ensures
        unit_edges(p, src, scene, keys).contains((src, p.mixing_units@[ku].id)),
    decreases keys.len(),
{
    let e = (src, p.mixing_units@[ku].id);
    let rest = unit_edges(p, src, scene, keys.drop_last());
    let u = p.mixing_units@[keys.last()];
    let tail = if unit_uses_scene(u, scene) {
        seq![(src, u.id)]
    } else {
        seq![]
    };
    assert(unit_edges(p, src, scene, keys) == rest + tail);
    if keys.last() == ku {
        assert(tail[0] == e);
        lemma_append_contains(rest, tail, e);
    } else {
        lemma_drop_last_contains(keys, ku);
        lemma_unit_edges_has(p, src, scene, keys.drop_last(), ku);
        lemma_append_contains(rest, tail, e);
    }
}

proof fn lemma_scene_edges_has(
    p: Project,
    input: InputId,
    src: MixingUnitId,
    keys: Seq<u128>,
    ks: u128,
    ku: u128,
)
    requires
        keys.contains(ks),
        scene_has_input(p.scenes@[ks], input),
        key_order(p.mixing_units@).contains(ku),
        unit_uses_scene(p.mixing_units@[ku], p.scenes@[ks].id),
    ensures
        scene_edges(p, input, src, keys).contains((src, p.mixing_units@[ku].id)),
    decreases keys.len(),
{
    let e = (src, p.mixing_units@[ku].id);
    let rest = scene_edges(p, input, src, keys.drop_last());
    let s = p.scenes@[keys.last()];
    let tail = if scene_has_input(s, input) {
        unit_edges(p, src, s.id, key_order(p.mixing_units@))
    } else {
        seq![]
    };
    assert(scene_edges(p, input, src, keys) == rest + tail);
    if keys.last() == ks {
        lemma_unit_edges_has(p, src, s.id, key_order(p.mixing_units@), ku);
        lemma_append_contains(rest, tail, e);
    } else {
        lemma_drop_last_contains(keys, ks);
        lemma_scene_edges_has(p, input, src, keys.drop_last(), ks, ku);
        lemma_append_contains(rest, tail, e);
    }
}

proof fn lemma_input_edges_has(p: Project, keys: Seq<u128>, ki: u128, ks: u128, ku: u128)
    requires
        keys.contains(ki),
        p.inputs@[ki].source is MixFeed,
        key_order(p.scenes@).contains(ks),
        scene_has_input(p.scenes@[ks], p.inputs@[ki].id),
        key_order(p.mixing_units@).contains(ku),
        unit_uses_scene(p.mixing_units@[ku], p.scenes@[ks].id),
    ensures
        input_edges(p, keys).contains((p.inputs@[ki].source->MixFeed_unit, p.mixing_units@[ku].id)),
    decreases keys.len(),
{
    let e = (p.inputs@[ki].source->MixFeed_unit, p.mixing_units@[ku].id);
    let rest = input_edges(p, keys.drop_last());
    let i = p.inputs@[keys.last()];
    let tail = match i.source {
        InputSource::MixFeed { unit, .. } => scene_edges(p, i.id, unit, key_order(p.scenes@)),
        _ => seq![],
    };
    assert(input_edges(p, keys) == rest + tail);
    if keys.last() == ki {
        lemma_scene_edges_has(p, i.id, i.source->MixFeed_unit, key_order(p.scenes@), ks, ku);
        lemma_append_contains(rest, tail, e);
    } else {
        lemma_drop_last_contains(keys, ki);
        lemma_input_edges_has(p, keys.drop_last(), ki, ks, ku);
        lemma_append_contains(rest, tail, e);
    }
}

impl MixingGraph {
    /// Every dependency edge of the project, as `spec_edges` lists them.
    ///
    /// A mix feed of unit A shown in a scene that unit B puts on its
    /// Program, on its Preview or in any overlay slot makes the edge (A, B).
    pub fn edges(project: &Project) -> (r: Vec<Edge>)
        ensures
            r@ == spec_edges(*project),
            forall|ki: u128, ks: u128, ku: u128|
                #![trigger project.inputs@[ki], project.scenes@[ks], project.mixing_units@[ku]]
                project.inputs@.contains_key(ki) && project.scenes@.contains_key(ks)
                    && project.mixing_units@.contains_key(ku) && project.inputs@[ki].source is MixFeed
                    && (exists|j: int|
                    0 <= j < project.scenes@[ks].items@.len() && project.scenes@[ks].items@[j].input
                        == project.inputs@[ki].id) && (project.mixing_units@[ku].program.scene == Some(
                    project.scenes@[ks].id,
                ) || project.mixing_units@[ku].preview.scene == Some(project.scenes@[ks].id) || exists|j: int|
                    0 <= j < project.mixing_units@[ku].overlays@.len()
                        && project.mixing_units@[ku].overlays@[j].scene == Some(project.scenes@[ks].id))
                    ==> r@.contains((project.inputs@[ki].source->MixFeed_unit, project.mixing_units@[ku].id)),
    {
        proof {
            lemma_keys_ordered();
        }
        let input_keys = keys_in_order(&project.inputs);
        let scene_keys = keys_in_order(&project.scenes);
        let unit_keys = keys_in_order(&project.mixing_units);
        let mut out: Vec<Edge> = Vec::new();
        let mut n: usize = 0;
        while n < input_keys.len()
            invariant
                n <= input_keys@.len(),
                input_keys@ == key_order(project.inputs@),
                forall|k: u128| project.inputs@.contains_key(k) <==> input_keys@.contains(k),
                scene_keys@ == key_order(project.scenes@),
                forall|k: u128| project.scenes@.contains_key(k) <==> scene_keys@.contains(k),
                unit_keys@ == key_order(project.mixing_units@),
                forall|k: u128| project.mixing_units@.contains_key(k) <==> unit_keys@.contains(k),
                keys_ordered(),
                out@ == input_edges(*project, input_keys@.take(n as int)),
            decreases input_keys@.len() - n,
        {
            let k = input_keys[n];
            proof {
                assert(input_keys@.contains(k));
                assert(input_keys@.take(n + 1).drop_last() =~= input_keys@.take(n as int));
            }
            match project.inputs.get(&k) {
                Some(i) => {
                    match i.source {
                        InputSource::MixFeed { unit, .. } => {
                            push_scene_edges(project, i.id, unit, &scene_keys, &unit_keys, &mut out);
                        },
                        _ => {},
                    }
                },
                None => {},
            }
            proof {
                assert(out@ =~= input_edges(*project, input_keys@.take(n + 1)));
            }
            n = n + 1;
        }
        proof {
            assert(input_keys@.take(n as int) =~= input_keys@);
            assert forall|ki: u128, ks: u128, ku: u128|
                project.inputs@.contains_key(ki) && project.scenes@.contains_key(ks)
                    && project.mixing_units@.contains_key(ku) && project.inputs@[ki].source is MixFeed
                    && (exists|j: int|
                    0 <= j < project.scenes@[ks].items@.len() && project.scenes@[ks].items@[j].input
                        == project.inputs@[ki].id) && (project.mixing_units@[ku].program.scene == Some(
                    project.scenes@[ks].id,
                ) || project.mixing_units@[ku].preview.scene == Some(project.scenes@[ks].id) || exists|j: int|
                    0 <= j < project.mixing_units@[ku].overlays@.len()
                        && project.mixing_units@[ku].overlays@[j].scene == Some(project.scenes@[ks].id))
                implies out@.contains((project.inputs@[ki].source->MixFeed_unit, project.mixing_units@[ku].id)) by {
                assert(input_keys@.contains(ki));
                assert(scene_keys@.contains(ks));
                assert(unit_keys@.contains(ku));
                let s = project.scenes@[ks];
                let j = choose|j: int| 0 <= j < s.items@.len() && s.items@[j].input == project.inputs@[ki].id;
                assert(s.items@[j].input == project.inputs@[ki].id);
                lemma_input_edges_has(*project, key_order(project.inputs@), ki, ks, ku);
            }
        }
        out
    }
}

/// Unit `a` feeds unit `b`.
pub open spec fn linked(es: Seq<Edge>, a: u128, b: u128) -> bool {
    exists|i: int| 0 <= i < es.len() && (#[trigger] es[i]).0.0 == a && es[i].1.0 == b
}

/// Each unit of `s` feeds the next.
pub open spec fn is_walk(es: Seq<Edge>, s: Seq<u128>) -> bool {
    forall|i: int, j: int|
        #![trigger s[i], s[j]]
        0 <= i && j == i + 1 && j < s.len() ==> linked(es, s[i], s[j])
}

/// A walk from `root` that comes back to a unit it has passed.
pub open spec fn is_cycle_walk(es: Seq<Edge>, root: u128, s: Seq<u128>) -> bool {
    &&& s.len() >= 2
    &&& s[0] == root
    &&& is_walk(es, s)
    &&& exists|j: int| 0 <= j < s.len() - 1 && s[j] == s.last()
}

/// Some walk from `root` runs into a cycle.
pub open spec fn cycle_from(es: Seq<Edge>, root: u128) -> bool {
    exists|s: Seq<u128>| is_cycle_walk(es, root, s)
}

/// A cycle can be reached from one of the project's mixing units.
pub open spec fn has_reachable_cycle(p: Project) -> bool {
    exists|k: u128| p.mixing_units@.contains_key(k) && cycle_from(spec_edges(p), k)
}

spec fn closed_under(es: Seq<Edge>, b: Seq<u128>) -> bool {
    forall|x: u128, y: u128| #[trigger] b.contains(x) && #[trigger] linked(es, x, y) ==> b.contains(y)
}

spec fn all_acyclic(es: Seq<Edge>, b: Seq<u128>) -> bool {
    forall|x: u128| #[trigger] b.contains(x) ==> !cycle_from(es, x)
}

spec fn edges_within(es: Seq<Edge>, univ: Set<u128>) -> bool {
    forall|i: int| 0 <= i < es.len() ==> univ.contains((#[trigger] es[i]).0.0) && univ.contains(es[i].1.0)
}

/// The search state: the stack of units being explored is a walk from the
/// root without repeats; finished units are closed under the edges and
/// reach no cycle; no unit is both.
spec fn search_state(es: Seq<Edge>, stack: Seq<u128>, done: Seq<u128>, root: u128, univ: Set<u128>) -> bool {
    &&& stack.no_duplicates()
    &&& forall|i: int| 0 <= i < stack.len() ==> univ.contains(#[trigger] stack[i])
    &&& forall|x: u128| !(#[trigger] stack.contains(x) && done.contains(x))
    &&& is_walk(es, stack)
    &&& stack.len() > 0 ==> stack[0] == root
    &&& closed_under(es, done)
    &&& all_acyclic(es, done)
}

proof fn lemma_walk_stays(es: Seq<Edge>, b: Seq<u128>, s: Seq<u128>, k: int)
    requires
        closed_under(es, b),
        is_walk(es, s),
        s.len() > 0,
        b.contains(s[0]),
        0 <= k < s.len(),
    ensures
        b.contains(s[k]),
    decreases k,
{
    if k > 0 {
        lemma_walk_stays(es, b, s, k - 1);
        assert(linked(es, s[k - 1], s[k]));
    }
}

/// A unit all of whose successors are finished, and which is itself not
/// finished, reaches no cycle.
proof fn lemma_finish(es: Seq<Edge>, b: Seq<u128>, u: u128)
    requires
        closed_under(es, b),
        all_acyclic(es, b),
        !b.contains(u),
        forall|v: u128| #[trigger] linked(es, u, v) ==> b.contains(v),
    ensures
        !cycle_from(es, u),
{
    if cycle_from(es, u) {
        let s = choose|s: Seq<u128>| is_cycle_walk(es, u, s);
        let j = choose|j: int| 0 <= j < s.len() - 1 && s[j] == s.last();
        assert(linked(es, s[0], s[1]));
        let t = s.drop_first();
        assert forall|i: int, k: int| #![trigger t[i], t[k]] 0 <= i && k == i + 1 && k < t.len() implies linked(es, t[i], t[k]) by {
            assert(s[i + 1] == t[i] && s[k + 1] == t[k]);
        }
        lemma_walk_stays(es, b, t, t.len() - 1);
        if j == 0 {
            assert(t[t.len() - 1] == s.last());
        } else {
            assert(t[j - 1] == s[j]);
            assert(t.last() == s.last());
            assert(is_cycle_walk(es, t[0], t));
            assert(b.contains(t[0]));
        }
    }
}

/// Meeting a unit that is already on the stack closes a cycle.
proof fn lemma_back_edge(es: Seq<Edge>, stack: Seq<u128>, root: u128, id: u128)
    requires
        is_walk(es, stack),
        stack.len() > 0,
        stack[0] == root,
        stack.contains(id),
        linked(es, stack.last(), id),
    ensures
        cycle_from(es, root),
{
    let s = stack.push(id);
    let j = choose|j: int| 0 <= j < stack.len() && stack[j] == id;
    assert forall|i: int, k: int| #![trigger s[i], s[k]] 0 <= i && k == i + 1 && k < s.len() implies linked(es, s[i], s[k]) by {
        if k < stack.len() {
            assert(stack[i] == s[i] && stack[k] == s[k]);
        }
    }
    assert(s[j] == s.last());
    assert(is_cycle_walk(es, root, s));
}

proof fn lemma_stack_fits(stack: Seq<u128>, univ: Set<u128>)
    requires
        univ.finite(),
        stack.no_duplicates(),
        forall|i: int| 0 <= i < stack.len() ==> univ.contains(#[trigger] stack[i]),
    ensures
        stack.len() <= univ.len(),
{
    stack.unique_seq_to_set();
    assert(stack.to_set().subset_of(univ));
    vstd::set_lib::lemma_len_subset(stack.to_set(), univ);
}

fn holds(v: &Vec<u128>, x: u128) -> (r: bool)
    ensures
        r == v@.contains(x),
{
    let mut i: usize = 0;
    while i < v.len()
        invariant
            i <= v@.len(),
            forall|k: int| 0 <= k < i ==> v@[k] != x,
        decreases v@.len() - i,
    {
        if v[i] == x {
            return true;
        }
        i = i + 1;
    }
    false
}

/// Depth-first search from `id`: true when a cycle is met; otherwise `id`
/// and all it reaches are finished and the stack is as it was.
fn dfs(
    id: u128,
    edges: &Vec<Edge>,
    visiting: &mut Vec<u128>,
    visited: &mut Vec<u128>,
    Ghost(root): Ghost<u128>,
    Ghost(univ): Ghost<Set<u128>>,
) -> (found: bool)
    requires
        univ.finite(),
        edges_within(edges@, univ),
        univ.contains(id),
        search_state(edges@, old(visiting)@, old(visited)@, root, univ),
        old(visiting)@.len() == 0 ==> id == root,
        old(visiting)@.len() > 0 ==> linked(edges@, old(visiting)@.last(), id),
    ensures
        found ==> cycle_from(edges@, root),
        !found ==> {
            &&& final(visiting)@ == old(visiting)@
            &&& final(visited)@.contains(id)
            &&& search_state(edges@, final(visiting)@, final(visited)@, root, univ)
            &&& forall|x: u128| old(visited)@.contains(x) ==> final(visited)@.contains(x)
        },
    decreases univ.len() - old(visiting)@.len(),
{
    if holds(visited, id) {
        return false;
    }
    if holds(visiting, id) {
        proof {
            lemma_back_edge(edges@, visiting@, root, id);
        }
        return true;
    }
    let ghost stack0 = visiting@;
    let ghost done0 = visited@;
    visiting.push(id);
    proof {
        assert forall|i: int, k: int| #![trigger visiting@[i], visiting@[k]] 0 <= i && k == i + 1 && k < visiting@.len() implies linked(edges@, visiting@[i], visiting@[k]) by {
            if k < stack0.len() {
                assert(stack0[i] == visiting@[i] && stack0[k] == visiting@[k]);
            } else {
                assert(visiting@[i] == stack0.last());
            }
        }
        assert forall|x: u128| !(#[trigger] visiting@.contains(x) && visited@.contains(x)) by {
            if visiting@.contains(x) && x != id {
                let i = choose|i: int| 0 <= i < visiting@.len() && visiting@[i] == x;
                assert(stack0[i] == x);
                assert(stack0.contains(x));
            }
        }
        assert forall|a: int, b: int| 0 <= a < b < visiting@.len() implies visiting@[a] != visiting@[b] by {
            if b == stack0.len() {
                assert(stack0.contains(visiting@[a]));
            }
        }
        assert(search_state(edges@, visiting@, visited@, root, univ));
        lemma_stack_fits(visiting@, univ);
    }
    let mut i: usize = 0;
    while i < edges.len()
        invariant
            i <= edges@.len(),
            univ.finite(),
            edges_within(edges@, univ),
            visiting@ == stack0.push(id),
            stack0 == old(visiting)@,
            visiting@.len() <= univ.len(),
            !done0.contains(id),
            !stack0.contains(id),
            search_state(edges@, visiting@, visited@, root, univ),
            forall|x: u128| done0.contains(x) ==> visited@.contains(x),
            forall|k: int| 0 <= k < i && (#[trigger] edges@[k]).0.0 == id ==> visited@.contains(edges@[k].1.0),
        decreases edges@.len() - i,
    {
        if edges[i].0.0 == id {
            let next = edges[i].1.0;
            proof {
                assert(linked(edges@, visiting@.last(), next));
            }
            if dfs(next, edges, visiting, visited, Ghost(root), Ghost(univ)) {
                return true;
            }
        }
        i = i + 1;
    }
    visiting.pop();
    proof {
        assert(visiting@ =~= stack0);
        assert(!visited@.contains(id)) by {
            assert(stack0.push(id).contains(id));
        }
        assert forall|v: u128| #[trigger] linked(edges@, id, v) implies visited@.contains(v) by {
            let k = choose|k: int| 0 <= k < edges@.len() && (#[trigger] edges@[k]).0.0 == id && edges@[k].1.0 == v;
        }
        lemma_finish(edges@, visited@, id);
    }
    let ghost done1 = visited@;
    visited.push(id);
    proof {
        assert forall|z: u128| done1.contains(z) implies visited@.contains(z) by {
            let k = choose|k: int| 0 <= k < done1.len() && done1[k] == z;
            assert(visited@[k] == z);
        }
        assert forall|x: u128, y: u128| #[trigger] visited@.contains(x) && #[trigger] linked(edges@, x, y) implies visited@.contains(y) by {
            if x != id {
                assert(done1.contains(x));
                assert(done1.contains(y));
            }
        }
        assert forall|x: u128| #[trigger] visited@.contains(x) implies !cycle_from(edges@, x) by {
            if x != id {
                assert(done1.contains(x));
            }
        }
        assert forall|x: u128| !(#[trigger] visiting@.contains(x) && visited@.contains(x)) by {
            if visiting@.contains(x) && visited@.contains(x) {
                if x != id {
                    assert(done1.contains(x));
                    assert(stack0.push(id).contains(x));
                }
            }
        }
        assert forall|x: u128| done0.contains(x) implies visited@.contains(x) by {
            assert(done1.contains(x));
        }
        assert(visited@.contains(id)) by {
            assert(visited@[visited@.len() - 1] == id);
        }
    }
    false
}

/// Whether the scene exists and shows the input on a visible layer.
pub open spec fn spec_scene_uses(p: Project, scene: Option<SceneId>, input: InputId) -> bool {
    match scene {
        None => false,
        Some(id) => p.scenes@.contains_key(id.0) && exists|j: int|
            0 <= j < p.scenes@[id.0].items@.len() && (#[trigger] p.scenes@[id.0].items@[j]).input
                == input && spec_visible(p.scenes@[id.0].items@[j].transform),
    }
}

/// The input is visible on the unit's Program: in its Program scene or in
/// the scene of an enabled overlay.
pub open spec fn spec_visible_on_program(p: Project, unit: MixingUnitId, input: InputId) -> bool {
    p.mixing_units@.contains_key(unit.0) && {
        let u = p.mixing_units@[unit.0];
        ||| spec_scene_uses(p, u.program.scene, input)
        ||| exists|j: int|
            0 <= j < u.overlays@.len() && (#[trigger] u.overlays@[j]).enabled && spec_scene_uses(
                p,
                u.overlays@[j].scene,
                input,
            )
    }
}

/// The input is visible on the unit's Preview scene.
pub open spec fn spec_visible_on_preview(p: Project, unit: MixingUnitId, input: InputId) -> bool {
    p.mixing_units@.contains_key(unit.0) && spec_scene_uses(
        p,
        p.mixing_units@[unit.0].preview.scene,
        input,
    )
}

pub fn scene_uses(project: &Project, scene: Option<SceneId>, input: InputId) -> (r: bool)
    ensures
        r == spec_scene_uses(*project, scene, input),
{
    proof {
        lemma_keys_ordered();
    }
    let id = match scene {
        None => {
            return false;
        },
        Some(id) => id,
    };
    let s = match project.scenes.get(&id.0) {
        None => {
            return false;
        },
        Some(s) => s,
    };
    let mut j: usize = 0;
    while j < s.items.len()
        invariant
            j <= s.items@.len(),
            scene == Some(id),
            project.scenes@.contains_key(id.0),
            *s == project.scenes@[id.0],
            forall|k: int|
                0 <= k < j ==> !((#[trigger] s.items@[k]).input == input && spec_visible(
                    s.items@[k].transform,
                )),
        decreases s.items@.len() - j,
    {
        if s.items[j].input == input && s.items[j].transform.visible() {
            proof {
                assert(project.scenes@[id.0].items@[j as int].input == input);
            }
            return true;
        }
        j = j + 1;
    }
    false
}

impl MixingGraph {
    /// Fails with `Cycle` exactly when a cycle of mix feeds can be reached
    /// from one of the project's mixing units.
    pub fn assert_acyclic(project: &Project) -> (r: DomainResult<()>)
        ensures
            r is Ok <==> !has_reachable_cycle(*project),
            r is Err ==> r matches Err(DomainError::Cycle),
    {
        proof {
            lemma_keys_ordered();
        }
        let edges = Self::edges(project);
        let keys = keys_in_order(&project.mixing_units);
        let ghost nodes = edges@.map_values(|e: Edge| e.0.0) + edges@.map_values(|e: Edge| e.1.0)
            + keys@;
        let ghost univ = nodes.to_set();
        proof {
            assert forall|i: int| 0 <= i < edges@.len() implies univ.contains((#[trigger] edges@[i]).0.0)
                && univ.contains(edges@[i].1.0) by {
                assert(nodes[i] == edges@[i].0.0);
                assert(nodes[edges@.len() + i] == edges@[i].1.0);
            }
            assert forall|i: int| 0 <= i < keys@.len() implies univ.contains(#[trigger] keys@[i]) by {
                assert(nodes[2 * edges@.len() + i] == keys@[i]);
            }
        }
        let mut visiting: Vec<u128> = Vec::new();
        let mut visited: Vec<u128> = Vec::new();
        let mut n: usize = 0;
        while n < keys.len()
            invariant
                n <= keys@.len(),
                univ.finite(),
                edges_within(edges@, univ),
                forall|i: int| 0 <= i < keys@.len() ==> univ.contains(#[trigger] keys@[i]),
                edges@ == spec_edges(*project),
                forall|k: u128| project.mixing_units@.contains_key(k) <==> keys@.contains(k),
                visiting@.len() == 0,
                forall|root: u128| search_state(edges@, visiting@, visited@, root, univ),
                forall|j: int| 0 <= j < n ==> visited@.contains(#[trigger] keys@[j]),
            decreases keys@.len() - n,
        {
            let k = keys[n];
            assert(search_state(edges@, visiting@, visited@, k, univ));
            if dfs(k, &edges, &mut visiting, &mut visited, Ghost(k), Ghost(univ)) {
                proof {
                    assert(keys@.contains(k));
                    assert(project.mixing_units@.contains_key(k));
                }
                return Err(DomainError::Cycle);
            }
            proof {
                assert forall|root: u128| search_state(edges@, visiting@, visited@, root, univ) by {
                    assert(search_state(edges@, visiting@, visited@, k, univ));
                }
            }
            n = n + 1;
        }
        proof {
            assert forall|k: u128| project.mixing_units@.contains_key(k) implies !cycle_from(
                spec_edges(*project),
                k,
            ) by {
                assert(keys@.contains(k));
                let j = choose|j: int| 0 <= j < keys@.len() && keys@[j] == k;
                assert(visited@.contains(keys@[j]));
                assert(search_state(edges@, visiting@, visited@, k, univ));
            }
        }
        Ok(())
    }

    pub fn input_visible_on_program(project: &Project, unit: MixingUnitId, input: InputId) -> (r: bool)
        ensures
            r == spec_visible_on_program(*project, unit, input),
    {
        proof {
            lemma_keys_ordered();
        }
        let u = match project.mixing_units.get(&unit.0) {
            None => {
                return false;
            },
            Some(u) => u,
        };
        if scene_uses(project, u.program.scene, input) {
            return true;
        }
        let mut j: usize = 0;
        while j < u.overlays.len()
            invariant
                j <= u.overlays@.len(),
                project.mixing_units@.contains_key(unit.0),
                *u == project.mixing_units@[unit.0],
                forall|k: int|
                    0 <= k < j ==> !((#[trigger] u.overlays@[k]).enabled && spec_scene_uses(
                        *project,
                        u.overlays@[k].scene,
                        input,
                    )),
            decreases u.overlays@.len() - j,
        {
            if u.overlays[j].enabled && scene_uses(project, u.overlays[j].scene, input) {
                return true;
            }
            j = j + 1;
        }
        false
    }

    pub fn input_visible_on_preview(project: &Project, unit: MixingUnitId, input: InputId) -> (r: bool)
        ensures
            r == spec_visible_on_preview(*project, unit, input),
    {
        proof {
            lemma_keys_ordered();
        }
        match project.mixing_units.get(&unit.0) {
            None => false,
            Some(u) => scene_uses(project, u.preview.scene, input),
        }
    }
}

} // verus!
