//! Mixer-owned video transport: which video inputs to play, pause or
//! restart when they go on or off Program and Preview.

use std::collections::HashMap;

use vstd::std_specs::iter::IteratorSpec;

use vstd::prelude::*;

use crate::domain::ieee::INFINITY;
use crate::ids::{scene_gpu_id, spec_scene_gpu_id, SCENE_BASE};
use crate::live::{LiveState, UnitLiveState};
use crate::session::model::{
    Document, DocumentView, InputDtoView, InputKind, SceneDtoView, VideoPlayWhen, VideoTriggerWhen,
};

verus! {

/// Whether an input is on Program and on Preview of some Mixing Unit.
#[derive(Debug, Clone, Copy, PartialEq, Eq, Structural)]
pub struct VideoRoles {
    pub on_program: bool,
    pub on_preview: bool,
}

impl Default for VideoRoles {
    fn default() -> (r: Self)
        ensures
            r == (VideoRoles { on_program: false, on_preview: false }),
    {
        VideoRoles { on_program: false, on_preview: false }
    }
}

#[derive(Debug, Clone, Copy, PartialEq, Eq, Structural)]
pub enum VideoAction {
    SeekZero,
    Pause,
    Play,
}

pub open spec fn no_roles() -> VideoRoles {
    VideoRoles { on_program: false, on_preview: false }
}

/// Whether a video starts playing on this change of roles.
pub open spec fn spec_should_play(
    when: VideoPlayWhen,
    rose_program: bool,
    rose_preview: bool,
    now: VideoRoles,
    prev: VideoRoles,
) -> bool {
    match when {
        VideoPlayWhen::OnActive => rose_program,
        VideoPlayWhen::OnPreview => rose_preview,
        VideoPlayWhen::Always => (now.on_program || now.on_preview) && !(prev.on_program
            || prev.on_preview),
        VideoPlayWhen::Never => false,
    }
}

pub fn should_play(
    when: VideoPlayWhen,
    rose_program: bool,
    rose_preview: bool,
    now: VideoRoles,
    prev: VideoRoles,
) -> (r: bool)
    ensures
        r == spec_should_play(when, rose_program, rose_preview, now, prev),
{
    match when {
        VideoPlayWhen::OnActive => rose_program,
        VideoPlayWhen::OnPreview => rose_preview,
        VideoPlayWhen::Always => (now.on_program || now.on_preview) && !(prev.on_program
            || prev.on_preview),
        VideoPlayWhen::Never => false,
    }
}

/// Whether a restart or pause trigger fires on this change of roles.
pub open spec fn spec_matches_trigger(
    when: VideoTriggerWhen,
    rose_program: bool,
    fell_program: bool,
    rose_preview: bool,
) -> bool {
    match when {
        VideoTriggerWhen::OnActive => rose_program,
        VideoTriggerWhen::OnDeactivated => fell_program,
        VideoTriggerWhen::OnPreview => rose_preview,
        VideoTriggerWhen::Never => false,
    }
}

pub fn matches_trigger(
    when: VideoTriggerWhen,
    rose_program: bool,
    fell_program: bool,
    rose_preview: bool,
) -> (r: bool)
    ensures
        r == spec_matches_trigger(when, rose_program, fell_program, rose_preview),
{
    match when {
        VideoTriggerWhen::OnActive => rose_program,
        VideoTriggerWhen::OnDeactivated => fell_program,
        VideoTriggerWhen::OnPreview => rose_preview,
        VideoTriggerWhen::Never => false,
    }
}

/// The actions for one video input whose roles went from `prev` to `now`:
/// a restart seeks to zero; a play (or restart) wins over a pause on the
/// same edge.
pub open spec fn input_actions(input: InputDtoView, now: VideoRoles, prev: VideoRoles) -> Seq<
    (u64, VideoAction),
> {
    let rose_program = now.on_program && !prev.on_program;
    let fell_program = !now.on_program && prev.on_program;
    let rose_preview = now.on_preview && !prev.on_preview;
    let paused = spec_matches_trigger(input.video_pause_when, rose_program, fell_program, rose_preview);
    let restarted = spec_matches_trigger(
        input.video_restart_when,
        rose_program,
        fell_program,
        rose_preview,
    );
    let play = restarted || spec_should_play(
        input.video_play_when,
        rose_program,
        rose_preview,
        now,
        prev,
    );
    (if restarted {
        seq![(input.id, VideoAction::SeekZero)]
    } else {
        Seq::empty()
    }) + (if play {
        seq![(input.id, VideoAction::Play)]
    } else if paused {
        seq![(input.id, VideoAction::Pause)]
    } else {
        Seq::empty()
    })
}

pub open spec fn roles_of(m: Map<u64, VideoRoles>, id: u64) -> VideoRoles {
    if m.contains_key(id) {
        m[id]
    } else {
        no_roles()
    }
}

/// Remembered roles and actions after the first `k` inputs.
pub open spec fn tick_upto(
    inputs: Seq<InputDtoView>,
    now: Map<u64, VideoRoles>,
    prev: Map<u64, VideoRoles>,
    k: int,
) -> (Map<u64, VideoRoles>, Seq<(u64, VideoAction)>)
    decreases k,
{
    if k <= 0 {
        (prev, Seq::empty())
    } else {
        let (state, actions) = tick_upto(inputs, now, prev, k - 1);
        let input = inputs[k - 1];
        if input.kind != InputKind::Video {
            (state, actions)
        } else {
            let n = roles_of(now, input.id);
            let p = roles_of(state, input.id);
            (state.insert(input.id, n), actions + input_actions(input, n, p))
        }
    }
}

fn roles_at(m: &HashMap<u64, VideoRoles>, id: u64) -> (r: VideoRoles)
    ensures
        r == roles_of(m@, id),
{
    broadcast use vstd::std_specs::hash::group_hash_axioms;

    match m.get(&id) {
        Some(v) => *v,
        None => VideoRoles { on_program: false, on_preview: false },
    }
}

/// Decides the transport actions for every video input from the roles it
/// has now, against the roles remembered from the previous tick, and
/// remembers the new roles.
pub fn tick_with_roles(doc: &Document, now: &HashMap<u64, VideoRoles>, previous: &mut HashMap<u64, VideoRoles>) -> (r:
    Vec<(u64, VideoAction)>)
    ensures
        ({
            let (state, actions) = tick_upto(doc@.inputs, now@, old(previous)@, doc@.inputs.len() as int);
            final(previous)@ == state && r@ == actions
        }),
{
    broadcast use vstd::std_specs::hash::group_hash_axioms;

    let ghost start = previous@;
    let mut actions: Vec<(u64, VideoAction)> = Vec::new();
    let mut i: usize = 0;
    while i < doc.inputs.len()
        invariant
            i <= doc.inputs.len(),
            ({
                let (state, acts) = tick_upto(doc@.inputs, now@, start, i as int);
                previous@ == state && actions@ == acts
            }),
        decreases doc.inputs.len() - i,
    {
        assert(doc@.inputs[i as int] == doc.inputs@[i as int]@);
        let input = &doc.inputs[i];
        if input.kind == InputKind::Video {
            let n = roles_at(now, input.id);
            let p = roles_at(previous, input.id);
            let rose_program = n.on_program && !p.on_program;
            let fell_program = !n.on_program && p.on_program;
            let rose_preview = n.on_preview && !p.on_preview;
            let paused = matches_trigger(input.video_pause_when, rose_program, fell_program, rose_preview);
            let restarted = matches_trigger(
                input.video_restart_when,
                rose_program,
                fell_program,
                rose_preview,
            );
            let play = restarted || should_play(input.video_play_when, rose_program, rose_preview, n, p);
            let ghost before = actions@;
            if restarted {
                actions.push((input.id, VideoAction::SeekZero));
            }
            if play {
                actions.push((input.id, VideoAction::Play));
            } else if paused {
                actions.push((input.id, VideoAction::Pause));
            }
            previous.insert(input.id, n);
            proof {
                assert(actions@ =~= before + input_actions(doc@.inputs[i as int], n, p));
            }
        }
        i = i + 1;
    }
    actions
}

proof fn lemma_unchanged_roles_act_never(input: InputDtoView, n: VideoRoles)
    ensures
        input_actions(input, n, n) == Seq::<(u64, VideoAction)>::empty(),
{
    assert(input_actions(input, n, n) =~= Seq::<(u64, VideoAction)>::empty());
}

/// After `k` inputs, every video input among them is remembered with the
/// roles it has now.
proof fn lemma_tick_remembers(
    inputs: Seq<InputDtoView>,
    now: Map<u64, VideoRoles>,
    prev: Map<u64, VideoRoles>,
    k: int,
)
    requires
        0 <= k <= inputs.len(),
    ensures
        forall|j: int|
            0 <= j < k && inputs[j].kind == InputKind::Video ==> roles_of(
                #[trigger] tick_upto(inputs, now, prev, k).0,
                inputs[j].id,
            ) == roles_of(now, inputs[j].id),
    decreases k,
{
    if k > 0 {
        lemma_tick_remembers(inputs, now, prev, k - 1);
    }
}

/// From a state that already remembers every video input with its current
/// roles, a tick acts on nothing and keeps remembering them.
proof fn lemma_tick_quiet(
    inputs: Seq<InputDtoView>,
    now: Map<u64, VideoRoles>,
    prev: Map<u64, VideoRoles>,
    k: int,
)
    requires
        0 <= k <= inputs.len(),
        forall|j: int|
            0 <= j < inputs.len() && inputs[j].kind == InputKind::Video ==> roles_of(
                prev,
                #[trigger] inputs[j].id,
            ) == roles_of(now, inputs[j].id),
    ensures
        tick_upto(inputs, now, prev, k).1 == Seq::<(u64, VideoAction)>::empty(),
        forall|j: int|
            0 <= j < inputs.len() && inputs[j].kind == InputKind::Video ==> roles_of(
                tick_upto(inputs, now, prev, k).0,
                #[trigger] inputs[j].id,
            ) == roles_of(now, inputs[j].id),
    decreases k,
{
    if k > 0 {
        lemma_tick_quiet(inputs, now, prev, k - 1);
        let input = inputs[k - 1];
        if input.kind == InputKind::Video {
            let state = tick_upto(inputs, now, prev, k - 1).0;
            assert(roles_of(state, input.id) == roles_of(now, input.id));
            lemma_unchanged_roles_act_never(input, roles_of(now, input.id));
            assert(tick_upto(inputs, now, prev, k).1 =~= Seq::<(u64, VideoAction)>::empty());
        }
    }
}

/// Triggers fire on edges: a second tick with the same roles acts on
/// nothing.
pub proof fn lemma_tick_is_edge_triggered(
    inputs: Seq<InputDtoView>,
    now: Map<u64, VideoRoles>,
    prev: Map<u64, VideoRoles>,
)
    ensures
        ({
            let first = tick_upto(inputs, now, prev, inputs.len() as int);
            tick_upto(inputs, now, first.0, inputs.len() as int).1 == Seq::<
                (u64, VideoAction),
            >::empty()
        }),
{
    let first = tick_upto(inputs, now, prev, inputs.len() as int);
    lemma_tick_remembers(inputs, now, prev, inputs.len() as int);
    lemma_tick_quiet(inputs, now, first.0, inputs.len() as int);
}

proof fn lemma_input_actions_ids(input: InputDtoView, n: VideoRoles, p: VideoRoles)
    ensures
        forall|i: int| 0 <= i < input_actions(input, n, p).len() ==> (#[trigger] input_actions(input, n, p)[i]).0
            == input.id,
{
}

/// While no input before `k` has the id, the remembered roles of the id are
/// the ones the tick started from.
proof fn lemma_tick_state_untouched(
    inputs: Seq<InputDtoView>,
    now: Map<u64, VideoRoles>,
    prev: Map<u64, VideoRoles>,
    k: int,
    id: u64,
)
    requires
        0 <= k <= inputs.len(),
        forall|j: int| 0 <= j < k ==> (#[trigger] inputs[j]).id != id,
    ensures
        roles_of(tick_upto(inputs, now, prev, k).0, id) == roles_of(prev, id),
    decreases k,
{
    if k > 0 {
        lemma_tick_state_untouched(inputs, now, prev, k - 1, id);
        assert(inputs[k - 1].id != id);
    }
}

/// The actions of the tick that carry the id of the only input at `k` with
/// that id are exactly the ones that input's change of roles gives.
proof fn lemma_tick_actions_of(
    inputs: Seq<InputDtoView>,
    now: Map<u64, VideoRoles>,
    prev: Map<u64, VideoRoles>,
    k: int,
    m: int,
)
    requires
        0 <= k < inputs.len(),
        0 <= m <= inputs.len(),
        inputs[k].kind == InputKind::Video,
        forall|j: int| 0 <= j < inputs.len() && j != k ==> (#[trigger] inputs[j]).id != inputs[k].id,
    ensures
        ({
            let x = inputs[k];
            let mine = input_actions(x, roles_of(now, x.id), roles_of(prev, x.id));
            let acts = tick_upto(inputs, now, prev, m).1;
            &&& forall|i: int| 0 <= i < acts.len() && (#[trigger] acts[i]).0 == x.id ==> mine.contains(acts[i])
            &&& m > k ==> forall|i: int| 0 <= i < mine.len() ==> acts.contains(#[trigger] mine[i])
        }),
    decreases m,
{
    let x = inputs[k];
    let mine = input_actions(x, roles_of(now, x.id), roles_of(prev, x.id));
    if m > 0 {
        lemma_tick_actions_of(inputs, now, prev, k, m - 1);
        let (state, before) = tick_upto(inputs, now, prev, m - 1);
        let acts = tick_upto(inputs, now, prev, m).1;
        let y = inputs[m - 1];
        if y.kind == InputKind::Video {
            let ya = input_actions(y, roles_of(now, y.id), roles_of(state, y.id));
            assert(acts == before + ya);
            lemma_input_actions_ids(y, roles_of(now, y.id), roles_of(state, y.id));
            if m - 1 == k {
                lemma_tick_state_untouched(inputs, now, prev, k, x.id);
                assert(ya == mine);
                assert forall|i: int| 0 <= i < mine.len() implies acts.contains(#[trigger] mine[i]) by {
                    assert(acts[before.len() + i] == mine[i]);
                }
            } else if m > k {
                assert forall|i: int| 0 <= i < mine.len() implies acts.contains(#[trigger] mine[i]) by {
                    let w = choose|w: int| 0 <= w < before.len() && before[w] == mine[i];
                    assert(acts[w] == mine[i]);
                }
            }
            assert forall|i: int| 0 <= i < acts.len() && (#[trigger] acts[i]).0 == x.id implies mine.contains(
                acts[i],
            ) by {
                if i < before.len() {
                    assert(acts[i] == before[i]);
                } else {
                    assert(acts[i] == ya[i - before.len()]);
                    if m - 1 != k {
                        assert(y.id != x.id);
                    } else {
                        lemma_tick_state_untouched(inputs, now, prev, k, x.id);
                        assert(ya == mine);
                        assert(mine[i - before.len()] == acts[i]);
                    }
                }
            }
        }
    }
}

/// How a tick starts a video: an input set to play on Preview plays when it
/// comes onto Preview, one set to play when active plays when it comes onto
/// Program, one set to always play plays when it comes onto either after
/// being on neither. Without a restart trigger it plays at no other change,
/// and an input that never plays on its own is not started. Input ids are
/// taken to be unique, as validation requires.
pub proof fn lemma_tick_play_rules(inputs: Seq<InputDtoView>, now: Map<u64, VideoRoles>, prev: Map<u64, VideoRoles>, k: int)
    requires
        0 <= k < inputs.len(),
        inputs[k].kind == InputKind::Video,
        forall|j: int| 0 <= j < inputs.len() && j != k ==> (#[trigger] inputs[j]).id != inputs[k].id,
    ensures
        ({
            let x = inputs[k];
            let n = roles_of(now, x.id);
            let p = roles_of(prev, x.id);
            let played = tick_upto(inputs, now, prev, inputs.len() as int).1.contains((x.id, VideoAction::Play));
            let onto_preview = n.on_preview && !p.on_preview;
            let onto_program = n.on_program && !p.on_program;
            let shown = (n.on_program || n.on_preview) && !(p.on_program || p.on_preview);
            &&& x.video_play_when == VideoPlayWhen::OnPreview && onto_preview ==> played
            &&& x.video_play_when == VideoPlayWhen::OnActive && onto_program ==> played
            &&& x.video_play_when == VideoPlayWhen::Always && shown ==> played
            &&& x.video_restart_when == VideoTriggerWhen::Never ==> {
                &&& x.video_play_when == VideoPlayWhen::OnPreview && !onto_preview ==> !played
                &&& x.video_play_when == VideoPlayWhen::OnActive && !onto_program ==> !played
                &&& x.video_play_when == VideoPlayWhen::Always && !shown ==> !played
                &&& x.video_play_when == VideoPlayWhen::Never ==> !played
            }
        }),
{
    let x = inputs[k];
    let n = roles_of(now, x.id);
    let p = roles_of(prev, x.id);
    let mine = input_actions(x, n, p);
    let acts = tick_upto(inputs, now, prev, inputs.len() as int).1;
    lemma_tick_actions_of(inputs, now, prev, k, inputs.len() as int);
    let play = (x.id, VideoAction::Play);
    if mine.contains(play) {
        let i = choose|i: int| 0 <= i < mine.len() && mine[i] == play;
        assert(acts.contains(mine[i]));
    }
    if acts.contains(play) {
        let i = choose|i: int| 0 <= i < acts.len() && acts[i] == play;
        assert(mine.contains(acts[i]));
    }
    assert(acts.contains(play) == mine.contains(play));
    let rose_program = n.on_program && !p.on_program;
    let fell_program = !n.on_program && p.on_program;
    let rose_preview = n.on_preview && !p.on_preview;
    let restarted = spec_matches_trigger(x.video_restart_when, rose_program, fell_program, rose_preview);
    let plays = restarted || spec_should_play(x.video_play_when, rose_program, rose_preview, n, p);
    if plays {
        assert(mine[mine.len() - 1] == play);
    } else {
        assert forall|i: int| 0 <= i < mine.len() implies mine[i] != play by {}
    }
}

proof fn lemma_tick_has_iff_mine(
    inputs: Seq<InputDtoView>,
    now: Map<u64, VideoRoles>,
    prev: Map<u64, VideoRoles>,
    k: int,
    a: VideoAction,
)
    requires
        0 <= k < inputs.len(),
        inputs[k].kind == InputKind::Video,
        forall|j: int| 0 <= j < inputs.len() && j != k ==> (#[trigger] inputs[j]).id != inputs[k].id,
    ensures
        tick_upto(inputs, now, prev, inputs.len() as int).1.contains((inputs[k].id, a)) == input_actions(
            inputs[k],
            roles_of(now, inputs[k].id),
            roles_of(prev, inputs[k].id),
        ).contains((inputs[k].id, a)),
{
    let x = inputs[k];
    let mine = input_actions(x, roles_of(now, x.id), roles_of(prev, x.id));
    let acts = tick_upto(inputs, now, prev, inputs.len() as int).1;
    lemma_tick_actions_of(inputs, now, prev, k, inputs.len() as int);
    let e = (x.id, a);
    if mine.contains(e) {
        let i = choose|i: int| 0 <= i < mine.len() && mine[i] == e;
        assert(acts.contains(mine[i]));
    }
    if acts.contains(e) {
        let i = choose|i: int| 0 <= i < acts.len() && acts[i] == e;
        assert(mine.contains(acts[i]));
    }
}

/// How a tick restarts and pauses a video: a restart trigger (coming onto
/// Program, going off Program, or coming onto Preview) seeks to the start
/// and plays; without one there is no seek. A pause trigger of the same
/// kinds pauses, unless the video plays on that change; a video never
/// both plays and pauses, and one with no pause trigger is never paused.
/// Input ids are taken to be unique, as validation requires.
pub proof fn lemma_tick_restart_pause_rules(
    inputs: Seq<InputDtoView>,
    now: Map<u64, VideoRoles>,
    prev: Map<u64, VideoRoles>,
    k: int,
)
    requires
        0 <= k < inputs.len(),
        inputs[k].kind == InputKind::Video,
        forall|j: int| 0 <= j < inputs.len() && j != k ==> (#[trigger] inputs[j]).id != inputs[k].id,
    ensures
        ({
            let x = inputs[k];
            let n = roles_of(now, x.id);
            let p = roles_of(prev, x.id);
            let acts = tick_upto(inputs, now, prev, inputs.len() as int).1;
            let played = acts.contains((x.id, VideoAction::Play));
            let sought = acts.contains((x.id, VideoAction::SeekZero));
            let paused = acts.contains((x.id, VideoAction::Pause));
            let onto_preview = n.on_preview && !p.on_preview;
            let onto_program = n.on_program && !p.on_program;
            let off_program = !n.on_program && p.on_program;
            &&& x.video_restart_when == VideoTriggerWhen::OnActive && onto_program ==> sought && played
            &&& x.video_restart_when == VideoTriggerWhen::OnDeactivated && off_program ==> sought && played
            &&& x.video_restart_when == VideoTriggerWhen::OnPreview && onto_preview ==> sought && played
            &&& x.video_restart_when == VideoTriggerWhen::Never ==> !sought
            &&& x.video_pause_when == VideoTriggerWhen::OnActive && onto_program && !played ==> paused
            &&& x.video_pause_when == VideoTriggerWhen::OnDeactivated && off_program && !played ==> paused
            &&& x.video_pause_when == VideoTriggerWhen::OnPreview && onto_preview && !played ==> paused
            &&& x.video_pause_when == VideoTriggerWhen::Never ==> !paused
            &&& !(played && paused)
        }),
{
    let x = inputs[k];
    let n = roles_of(now, x.id);
    let p = roles_of(prev, x.id);
    let mine = input_actions(x, n, p);
    lemma_tick_has_iff_mine(inputs, now, prev, k, VideoAction::Play);
    lemma_tick_has_iff_mine(inputs, now, prev, k, VideoAction::SeekZero);
    lemma_tick_has_iff_mine(inputs, now, prev, k, VideoAction::Pause);
    let rose_program = n.on_program && !p.on_program;
    let fell_program = !n.on_program && p.on_program;
    let rose_preview = n.on_preview && !p.on_preview;
    let paused = spec_matches_trigger(x.video_pause_when, rose_program, fell_program, rose_preview);
    let restarted = spec_matches_trigger(x.video_restart_when, rose_program, fell_program, rose_preview);
    let plays = restarted || spec_should_play(x.video_play_when, rose_program, rose_preview, n, p);
    let first: Seq<(u64, VideoAction)> = if restarted {
        seq![(x.id, VideoAction::SeekZero)]
    } else {
        Seq::empty()
    };
    let second: Seq<(u64, VideoAction)> = if plays {
        seq![(x.id, VideoAction::Play)]
    } else if paused {
        seq![(x.id, VideoAction::Pause)]
    } else {
        Seq::empty()
    };
    assert(mine == first + second);
    if restarted {
        assert(mine[0] == (x.id, VideoAction::SeekZero));
    }
    if plays {
        assert(mine[mine.len() - 1] == (x.id, VideoAction::Play));
    } else if paused {
        assert(mine[mine.len() - 1] == (x.id, VideoAction::Pause));
    }
    assert forall|i: int| 0 <= i < mine.len() implies (mine[i] == (x.id, VideoAction::SeekZero) ==> restarted) && (
    mine[i] == (x.id, VideoAction::Play) ==> plays) && (mine[i] == (x.id, VideoAction::Pause) ==> !plays
        && paused) by {
        if i < first.len() {
            assert(mine[i] == first[i]);
        } else {
            assert(mine[i] == second[i - first.len()]);
        }
    }
}

/// `actions` never both plays and pauses one input, and every restart of an
/// input comes with a play of it.
pub open spec fn actions_consistent(actions: Seq<(u64, VideoAction)>) -> bool {
    &&& forall|i: int, j: int|
        0 <= i < actions.len() && 0 <= j < actions.len() && (#[trigger] actions[i]).1 is Play && (
        #[trigger] actions[j]).1 is Pause ==> actions[i].0 != actions[j].0
    &&& forall|i: int|
        0 <= i < actions.len() && (#[trigger] actions[i]).1 is SeekZero ==> exists|j: int|
            0 <= j < actions.len() && #[trigger] actions[j] == (actions[i].0, VideoAction::Play)
}

proof fn lemma_input_actions_shape(input: InputDtoView, now: VideoRoles, prev: VideoRoles)
    ensures
        forall|i: int|
            0 <= i < input_actions(input, now, prev).len() ==> (#[trigger] input_actions(input, now, prev)[i]).0
                == input.id,
        actions_consistent(input_actions(input, now, prev)),
{
    let a = input_actions(input, now, prev);
    assert(a.len() <= 2);
    if a.len() == 2 {
        assert(a[0].1 is SeekZero && a[1] == (input.id, VideoAction::Play));
    }
    if a.len() == 1 && a[0].1 is SeekZero {
        assert(false);
    }
}

/// Some video input among the first `k` has id `x`.
pub open spec fn acted_on_video(inputs: Seq<InputDtoView>, k: int, x: u64) -> bool {
    exists|m: int| 0 <= m < k && inputs[m].kind == InputKind::Video && inputs[m].id == x
}

proof fn lemma_tick_consistent_upto(
    inputs: Seq<InputDtoView>,
    now: Map<u64, VideoRoles>,
    prev: Map<u64, VideoRoles>,
    k: int,
)
    requires
        0 <= k <= inputs.len(),
    ensures
        actions_consistent(tick_upto(inputs, now, prev, k).1),
        forall|i: int|
            0 <= i < tick_upto(inputs, now, prev, k).1.len() ==> acted_on_video(inputs, k, (#[trigger] tick_upto(
                    inputs,
                    now,
                    prev,
                    k,
                ).1[i]).0),
    decreases k,
{
    if k > 0 {
        lemma_tick_consistent_upto(inputs, now, prev, k - 1);
        let (state, acts) = tick_upto(inputs, now, prev, k - 1);
        let input = inputs[k - 1];
        if input.kind == InputKind::Video {
            let n = roles_of(now, input.id);
            let p = roles_of(state, input.id);
            let ia = input_actions(input, n, p);
            lemma_input_actions_shape(input, n, p);
            let all = acts + ia;
            assert(tick_upto(inputs, now, prev, k).1 == all);
            if exists|i: int| 0 <= i < acts.len() && (#[trigger] acts[i]).0 == input.id {
                let i = choose|i: int| 0 <= i < acts.len() && (#[trigger] acts[i]).0 == input.id;
                let m = choose|m: int| 0 <= m < k - 1 && inputs[m].kind == InputKind::Video && acts[i].0 == inputs[m].id;
                lemma_tick_remembers(inputs, now, prev, k - 1);
                assert(roles_of(state, inputs[m].id) == roles_of(now, inputs[m].id));
                lemma_unchanged_roles_act_never(input, n);
                assert(all =~= acts);
                assert forall|i: int| 0 <= i < all.len() implies acted_on_video(inputs, k, (#[trigger] all[i]).0) by {
                    assert(all[i] == acts[i]);
                    let m = choose|m: int| 0 <= m < k - 1 && inputs[m].kind == InputKind::Video && acts[i].0 == inputs[m].id;
                    assert(0 <= m < k);
                }
            } else {
                assert forall|i: int| 0 <= i < all.len() implies acted_on_video(inputs, k, (#[trigger] all[i]).0) by {
                    if i < acts.len() {
                        assert(all[i] == acts[i]);
                        let m = choose|m: int|
                            0 <= m < k - 1 && inputs[m].kind == InputKind::Video && acts[i].0 == inputs[m].id;
                        assert(0 <= m < k);
                    } else {
                        assert(all[i] == ia[i - acts.len()]);
                        assert(all[i].0 == inputs[k - 1].id);
                    }
                }
                assert forall|i: int, j: int|
                    0 <= i < all.len() && 0 <= j < all.len() && (#[trigger] all[i]).1 is Play && (
                    #[trigger] all[j]).1 is Pause implies all[i].0 != all[j].0 by {
                    if i < acts.len() && j < acts.len() {
                        assert(all[i] == acts[i] && all[j] == acts[j]);
                    } else if i >= acts.len() && j >= acts.len() {
                        assert(all[i] == ia[i - acts.len()] && all[j] == ia[j - acts.len()]);
                    } else if i < acts.len() {
                        assert(all[i] == acts[i] && all[j] == ia[j - acts.len()]);
                    } else {
                        assert(all[j] == acts[j] && all[i] == ia[i - acts.len()]);
                    }
                }
                assert forall|i: int| 0 <= i < all.len() && (#[trigger] all[i]).1 is SeekZero implies exists|j: int|
                    0 <= j < all.len() && #[trigger] all[j] == (all[i].0, VideoAction::Play) by {
                    if i < acts.len() {
                        assert(all[i] == acts[i]);
                        let j = choose|j: int| 0 <= j < acts.len() && #[trigger] acts[j] == (acts[i].0, VideoAction::Play);
                        assert(all[j] == acts[j]);
                    } else {
                        let ii = i - acts.len();
                        assert(all[i] == ia[ii]);
                        let j = choose|j: int| 0 <= j < ia.len() && #[trigger] ia[j] == (ia[ii].0, VideoAction::Play);
                        assert(all[acts.len() + j] == ia[j]);
                    }
                }
            }
        } else {
            assert(tick_upto(inputs, now, prev, k).1 == acts);
            assert forall|i: int| 0 <= i < tick_upto(inputs, now, prev, k).1.len() implies acted_on_video(inputs, k, (#[trigger] tick_upto(
                    inputs,
                    now,
                    prev,
                    k,
                ).1[i]).0) by {
                assert(tick_upto(inputs, now, prev, k).1[i] == tick_upto(inputs, now, prev, k - 1).1[i]);
                let m = choose|m: int|
                    0 <= m < k - 1 && inputs[m].kind == InputKind::Video && tick_upto(inputs, now, prev, k - 1).1[i].0
                        == inputs[m].id;
                assert(0 <= m < k && inputs[m].kind == InputKind::Video && tick_upto(inputs, now, prev, k).1[i].0
                    == inputs[m].id);
            }
        }
    } else {
        assert(tick_upto(inputs, now, prev, k).1 =~= Seq::<(u64, VideoAction)>::empty());
    }
}

/// A tick never both plays and pauses one input, every restart comes with
/// a play, and afterwards every video input is remembered with the roles it
/// has now. (When two inputs share an id, the later one finds its roles
/// already remembered and acts on nothing.)
pub proof fn lemma_tick_actions_consistent(doc: DocumentView, now: Map<u64, VideoRoles>, prev: Map<u64, VideoRoles>)
    ensures
        ({
            let (state, actions) = tick_upto(doc.inputs, now, prev, doc.inputs.len() as int);
            &&& actions_consistent(actions)
            &&& forall|k: int|
                0 <= k < doc.inputs.len() && (#[trigger] doc.inputs[k]).kind == InputKind::Video ==> roles_of(
                    state,
                    doc.inputs[k].id,
                ) == roles_of(now, doc.inputs[k].id)
        }),
{
    lemma_tick_consistent_upto(doc.inputs, now, prev, doc.inputs.len() as int);
    lemma_tick_remembers(doc.inputs, now, prev, doc.inputs.len() as int);
}

/// The first scene, from index `i` on, whose GPU id is `n`.
pub open spec fn first_scene(scenes: Seq<SceneDtoView>, n: u64, i: int) -> Option<int>
    decreases scenes.len() - i,
{
    if i < 0 || i >= scenes.len() {
        None
    } else if spec_scene_gpu_id(scenes[i].id) == n {
        Some(i)
    } else {
        first_scene(scenes, n, i + 1)
    }
}

/// The scene a live source stands for: a source with the scene bit names the
/// first scene with that GPU id. Any other source is an input.
pub open spec fn expansion(doc: DocumentView, n: u64) -> Option<int> {
    if n & SCENE_BASE == SCENE_BASE {
        first_scene(doc.scenes, n, 0)
    } else {
        None
    }
}

/// `a` stands for a scene with a layer of `b`.
pub open spec fn feeds(doc: DocumentView, a: u64, b: u64) -> bool {
    &&& expansion(doc, a) is Some
    &&& exists|j: int|
        0 <= j < doc.scenes[expansion(doc, a)->0].layers.len() && (#[trigger] doc.scenes[expansion(
            doc,
            a,
        )->0].layers[j]).input_id == b
}

/// Each source of the route feeds the next.
pub open spec fn is_route(doc: DocumentView, p: Seq<u64>) -> bool {
    &&& p.len() >= 1
    &&& forall|i: int, j: int|
        #![trigger p[i], p[j]]
        0 <= i && j == i + 1 && j < p.len() ==> feeds(doc, p[i], p[j])
}

/// Some route leads from `from` to `to`.
pub open spec fn reaches(doc: DocumentView, from: u64, to: u64) -> bool {
    exists|p: Seq<u64>| is_route(doc, p) && p[0] == from && p.last() == to
}

/// Showing `source` shows input `x`: `x` is an input that `source` is, or
/// that some chain of scenes from `source` has as a layer.
pub open spec fn shows(doc: DocumentView, source: u64, x: u64) -> bool {
    x != 0 && expansion(doc, x) is None && reaches(doc, source, x)
}

pub open spec fn merged(r: VideoRoles, program: bool, preview: bool) -> VideoRoles {
    VideoRoles { on_program: r.on_program || program, on_preview: r.on_preview || preview }
}

/// The roles after showing `source` on Program (`program`) or Preview
/// (`preview`): every input it shows gains those roles.
pub open spec fn marked(
    doc: DocumentView,
    roles: Map<u64, VideoRoles>,
    source: u64,
    program: bool,
    preview: bool,
    after: Map<u64, VideoRoles>,
) -> bool {
    &&& forall|x: u64| #[trigger] after.contains_key(x) <==> roles.contains_key(x) || shows(doc, source, x)
    &&& forall|x: u64|
        #[trigger] after.contains_key(x) ==> after[x] == if shows(doc, source, x) {
            merged(roles_of(roles, x), program, preview)
        } else {
            roles[x]
        }
}

fn find_scene(doc: &Document, n: u64) -> (r: Option<usize>)
    ensures
        match r {
            Some(i) => expansion(doc@, n) == Some(i as int) && i < doc.scenes@.len(),
            None => expansion(doc@, n) is None,
        },
{
    if n & SCENE_BASE != SCENE_BASE {
        return None;
    }
    let mut i: usize = 0;
    while i < doc.scenes.len()
        invariant
            i <= doc.scenes@.len(),
            n & SCENE_BASE == SCENE_BASE,
            expansion(doc@, n) == first_scene(doc@.scenes, n, i as int),
        decreases doc.scenes@.len() - i,
    {
        assert(doc@.scenes[i as int] == doc.scenes@[i as int]@);
        if scene_gpu_id(doc.scenes[i].id) == n {
            return Some(i);
        }
        i = i + 1;
    }
    None
}

fn listed(v: &Vec<u64>, x: u64) -> (r: bool)
    ensures
        r == v@.contains(x),
{
    let mut i: usize = 0;
    while i < v.len()
        invariant
            i <= v@.len(),
            forall|k: int| 0 <= k < i ==> v@[k] != x,
        decreases v@.len() - i,
    {
        if v[i] == x {
            return true;
        }
        i = i + 1;
    }
    false
}

/// A route that starts in a set closed under `feeds` (up to zero ids)
/// stays in it up to its last step.
proof fn lemma_route_stays(doc: DocumentView, seen: Seq<u64>, p: Seq<u64>, k: int)
    requires
        is_route(doc, p),
        seen.contains(p[0]),
        forall|n: u64, b: u64| #[trigger] seen.contains(n) && #[trigger] feeds(doc, n, b) ==> b == 0
            || seen.contains(b),
        0 <= k < p.len(),
        forall|i: int| 0 <= i < p.len() ==> p[i] != 0,
    ensures
        seen.contains(p[k]),
    decreases k,
{
    if k > 0 {
        lemma_route_stays(doc, seen, p, k - 1);
        assert(feeds(doc, p[k - 1], p[k]));
    }
}

/// A route to a non-zero source passes through no zero id.
proof fn lemma_route_nonzero(doc: DocumentView, p: Seq<u64>)
    requires
        is_route(doc, p),
        p.last() != 0,
    ensures
        forall|i: int| 0 <= i < p.len() ==> p[i] != 0,
{
    assert forall|i: int| 0 <= i < p.len() implies p[i] != 0 by {
        if i < p.len() - 1 {
            assert(feeds(doc, p[i], p[i + 1]));
            assert(0u64 & SCENE_BASE == 0) by (bit_vector);
        }
    }
}

/// Extending a route by one fed source.
proof fn lemma_route_extends(doc: DocumentView, p: Seq<u64>, b: u64)
    requires
        is_route(doc, p),
        feeds(doc, p.last(), b),
    ensures
        is_route(doc, p.push(b)),
        p.push(b)[0] == p[0],
        p.push(b).last() == b,
{
    let q = p.push(b);
    assert forall|i: int, j: int| #![trigger q[i], q[j]] 0 <= i && j == i + 1 && j < q.len() implies feeds(doc, q[i], q[j]) by {
        if j < p.len() {
            assert(q[i] == p[i] && q[j] == p[j]);
        } else {
            assert(q[i] == p.last());
        }
    }
}

/// Marks every input that showing `source` shows with the given roles.
#[verifier::loop_isolation(false)]
fn mark(doc: &Document, roles: &mut HashMap<u64, VideoRoles>, source: u64, program: bool, preview: bool)
    ensures
        marked(doc@, old(roles)@, source, program, preview, final(roles)@),
{
    broadcast use vstd::std_specs::hash::group_hash_axioms;

    let ghost d = doc@;
    let ghost start = roles@;
    let mut seen: Vec<u64> = Vec::new();
    let mut stack: Vec<u64> = Vec::new();
    stack.push(source);
    let ghost mut expanded: Set<int> = Set::empty();
    proof {
        let p0: Seq<u64> = seq![source];
        assert(p0[0] == source && p0.last() == source);
        assert(is_route(d, p0));
        assert(reaches(d, source, stack@[0]));
    }
    while stack.len() > 0
        invariant
            d == doc@,
            forall|k: int| 0 <= k < stack@.len() ==> reaches(d, source, #[trigger] stack@[k]),
            forall|k: int| 0 <= k < seen@.len() ==> reaches(d, source, #[trigger] seen@[k]),
            forall|k: int| 0 <= k < seen@.len() ==> #[trigger] seen@[k] != 0,
            source == 0 || seen@.contains(source) || stack@.contains(source),
            forall|n: u64, b: u64| #[trigger] seen@.contains(n) && #[trigger] feeds(d, n, b) ==> b
                == 0 || seen@.contains(b) || stack@.contains(b),
            expanded.finite(),
            forall|i: int| #[trigger] expanded.contains(i) ==> 0 <= i < d.scenes.len(),
            forall|i: int| #[trigger] expanded.contains(i) ==> seen@.contains(spec_scene_gpu_id(d.scenes[i].id)),
            forall|n: u64| #[trigger] seen@.contains(n) && expansion(d, n) is Some ==> expanded.contains(
                expansion(d, n)->0,
            ),
            forall|x: u64| #[trigger] roles@.contains_key(x) <==> start.contains_key(x) || (
            seen@.contains(x) && expansion(d, x) is None),
            forall|x: u64|
                #[trigger] roles@.contains_key(x) ==> roles@[x] == if seen@.contains(x) && expansion(
                    d,
                    x,
                ) is None {
                    merged(roles_of(start, x), program, preview)
                } else {
                    start[x]
                },
        decreases d.scenes.len() - expanded.len(), stack@.len(),
    {
        proof {
            vstd::set_lib::lemma_int_range(0, d.scenes.len() as int);
            assert(expanded.subset_of(vstd::set_lib::set_int_range(0, d.scenes.len() as int)));
            vstd::set_lib::lemma_len_subset(expanded, vstd::set_lib::set_int_range(0, d.scenes.len() as int));
        }
        let ghost before = stack@;
        let n = stack.pop().unwrap();
        proof {
            assert(before == stack@.push(n));
            assert forall|b: u64| before.contains(b) implies b == n || stack@.contains(b) by {
                let k = choose|k: int| 0 <= k < before.len() && before[k] == b;
                if k < stack@.len() {
                    assert(stack@[k] == b);
                }
            }
        }
        if n == 0 || listed(&seen, n) {
            continue;
        }
        let ghost seen0 = seen@;
        seen.push(n);
        proof {
            assert(seen@[seen0.len() as int] == n);
            assert(seen@.contains(n));
            assert forall|x: u64| seen0.contains(x) implies seen@.contains(x) by {
                let k = choose|k: int| 0 <= k < seen0.len() && seen0[k] == x;
                assert(seen@[k] == x);
            }
        }
        match find_scene(doc, n) {
            Some(i) => {
                let ghost stack0 = stack@;
                let layers = &doc.scenes[i].layers;
                proof {
                    assert(d.scenes[i as int].layers == layers@);
                    assert(!expanded.contains(i as int)) by {
                        if expanded.contains(i as int) {
                            assert(seen0.contains(spec_scene_gpu_id(d.scenes[i as int].id)));
                            assert(first_scene(d.scenes, n, 0) == Some(i as int));
                            lemma_first_scene_names(d.scenes, n, 0);
                        }
                    }
                }
                let mut j: usize = 0;
                while j < layers.len()
                    invariant
                        j <= layers@.len(),
                        stack@.len() == stack0.len() + j,
                        forall|k: int| 0 <= k < stack0.len() ==> stack@[k] == stack0[k],
                        forall|k: int| 0 <= k < j ==> stack@[stack0.len() + k] == layers@[k].input_id,
                    decreases layers@.len() - j,
                {
                    stack.push(layers[j].input_id);
                    j = j + 1;
                }
                proof {
                    let ghost expanded0 = expanded;
                    expanded = expanded.insert(i as int);
                    lemma_first_scene_names(d.scenes, n, 0);
                    assert(expanded.subset_of(vstd::set_lib::set_int_range(0, d.scenes.len() as int)));
                    vstd::set_lib::lemma_len_subset(expanded, vstd::set_lib::set_int_range(0, d.scenes.len() as int));
                    assert forall|ii: int| #[trigger] expanded.contains(ii) implies seen@.contains(
                        spec_scene_gpu_id(d.scenes[ii].id),
                    ) by {
                        if ii != i as int {
                            assert(expanded0.contains(ii));
                        }
                    }
                    assert forall|m: u64| #[trigger] seen@.contains(m) && expansion(d, m) is Some
                        implies expanded.contains(expansion(d, m)->0) by {
                        if m != n {
                            let k = choose|k: int| 0 <= k < seen@.len() && seen@[k] == m;
                            assert(seen0[k] == m);
                            assert(seen0.contains(m));
                        }
                    }
                    assert forall|k: int| 0 <= k < stack@.len() implies reaches(
                        d,
                        source,
                        #[trigger] stack@[k],
                    ) by {
                        if k < stack0.len() {
                            assert(stack@[k] == stack0[k]);
                            assert(before[k] == stack0[k]);
                        } else {
                            let b = stack@[k];
                            assert(layers@[k - stack0.len()].input_id == b);
                            lemma_layer_feeds(d, n, i as int, k - stack0.len());
                            assert(feeds(d, n, b));
                            let p = choose|p: Seq<u64>| is_route(d, p) && p[0] == source && p.last() == n;
                            lemma_route_extends(d, p, b);
                        }
                    }
                    assert forall|m: u64, b: u64| #[trigger] seen@.contains(m) && #[trigger] feeds(d, m, b)
                        implies b == 0 || seen@.contains(b) || stack@.contains(b) by {
                        if m == n {
                            let jj = choose|jj: int| 0 <= jj < d.scenes[i as int].layers.len() && (
                            #[trigger] d.scenes[i as int].layers[jj]).input_id == b;
                            assert(stack@[stack0.len() + jj] == b);
                        } else {
                            assert(seen0.contains(m));
                            if stack0.contains(b) {
                                let k = choose|k: int| 0 <= k < stack0.len() && stack0[k] == b;
                                assert(stack@[k] == b);
                            }
                        }
                    }
                    if source != 0 && !seen@.contains(source) && stack0.contains(source) {
                        let k = choose|k: int| 0 <= k < stack0.len() && stack0[k] == source;
                        assert(stack@[k] == source);
                    }
                }
            },
            None => {
                let r = roles_at(roles, n);
                roles.insert(n, merged_exec(r, program, preview));
                proof {
                    assert forall|m: u64, b: u64| #[trigger] seen@.contains(m) && #[trigger] feeds(
                        d,
                        m,
                        b,
                    ) implies b == 0 || seen@.contains(b) || stack@.contains(b) by {
                        if m != n {
                            let k = choose|k: int| 0 <= k < seen@.len() && seen@[k] == m;
                            assert(seen0[k] == m);
                            assert(seen0.contains(m));
                            assert(b == 0 || seen0.contains(b) || before.contains(b));
                        }
                    }
                    assert forall|m: u64| #[trigger] seen@.contains(m) && expansion(d, m) is Some
                        implies expanded.contains(expansion(d, m)->0) by {
                        if m != n {
                            let k = choose|k: int| 0 <= k < seen@.len() && seen@[k] == m;
                            assert(seen0[k] == m);
                            assert(seen0.contains(m));
                        }
                    }
                }
            },
        }
    }
    proof {
        assert forall|x: u64| shows(d, source, x) implies seen@.contains(x) by {
            let p = choose|p: Seq<u64>| is_route(d, p) && p[0] == source && p.last() == x;
            lemma_route_nonzero(d, p);
            lemma_route_stays(d, seen@, p, p.len() - 1);
        }
        assert forall|x: u64| seen@.contains(x) && expansion(d, x) is None implies shows(d, source, x) by {
            let k = choose|k: int| 0 <= k < seen@.len() && seen@[k] == x;
        }
    }
}

proof fn lemma_layer_feeds(doc: DocumentView, n: u64, i: int, j: int)
    requires
        expansion(doc, n) == Some(i),
        0 <= i < doc.scenes.len(),
        0 <= j < doc.scenes[i].layers.len(),
    ensures
        feeds(doc, n, doc.scenes[i].layers[j].input_id),
{
    let b = doc.scenes[i].layers[j].input_id;
    let e = expansion(doc, n)->0;
    assert(e == i);
    assert(doc.scenes[e].layers[j].input_id == b);
    assert(0 <= j < doc.scenes[e].layers.len());
}

proof fn lemma_first_scene_names(scenes: Seq<SceneDtoView>, n: u64, i: int)
    requires
        first_scene(scenes, n, i) is Some,
    ensures
        spec_scene_gpu_id(scenes[first_scene(scenes, n, i)->0].id) == n,
        i <= first_scene(scenes, n, i)->0 < scenes.len(),
    decreases scenes.len() - i,
{
    if 0 <= i < scenes.len() && spec_scene_gpu_id(scenes[i].id) != n {
        lemma_first_scene_names(scenes, n, i + 1);
    }
}

fn merged_exec(r: VideoRoles, program: bool, preview: bool) -> (m: VideoRoles)
    ensures
        m == merged(r, program, preview),
{
    VideoRoles { on_program: r.on_program || program, on_preview: r.on_preview || preview }
}

/// The bit pattern of the `f32` 0.001: a transition past it shows its
/// incoming source on Program.
pub const MIX_STARTED: u32 = 0x3a83_126f;

/// `mix > 0.001` for the `f32` whose bit pattern is `mix`: positive values
/// order as their patterns do, and NaN patterns lie above infinity.
pub open spec fn mix_started(mix: u32) -> bool {
    MIX_STARTED < mix <= INFINITY
}

/// What a unit shows, with the roles each source gives: its Program and
/// Preview sources; while a transition runs, its incoming source (or
/// Preview when it has none) on Program; and its overlays on Program.
pub open spec fn unit_marks(u: UnitLiveState) -> Seq<(u64, bool, bool)> {
    seq![(u.program_source, true, false), (u.preview_source, false, true)] + (if mix_started(u.mix) {
        seq![
            (if u.incoming_source != 0 {
                u.incoming_source
            } else {
                u.preview_source
            }, true, false),
        ]
    } else {
        seq![]
    }) + u.overlay_sources@.map_values(|s: u64| (s, true, false))
}

/// Roles from a list of shown sources: an input has a role when a source
/// with that role shows it.
pub open spec fn roles_from(doc: DocumentView, marks: Seq<(u64, bool, bool)>) -> Map<u64, VideoRoles> {
    Map::new(
        |x: u64| exists|i: int| 0 <= i < marks.len() && shows(doc, (#[trigger] marks[i]).0, x),
        |x: u64|
            VideoRoles {
                on_program: exists|i: int|
                    0 <= i < marks.len() && (#[trigger] marks[i]).1 && shows(doc, marks[i].0, x),
                on_preview: exists|i: int|
                    0 <= i < marks.len() && (#[trigger] marks[i]).2 && shows(doc, marks[i].0, x),
            },
    )
}

/// The marks of the units with the given keys, in that order.
pub open spec fn all_marks(units: Map<u64, UnitLiveState>, keys: Seq<u64>) -> Seq<(u64, bool, bool)>
    decreases keys.len(),
{
    if keys.len() == 0 {
        seq![]
    } else {
        all_marks(units, keys.drop_last()) + unit_marks(units[keys.last()])
    }
}

/// Which inputs every unit of the live state shows, and in which roles.
pub open spec fn spec_roles(doc: DocumentView, units: Map<u64, UnitLiveState>) -> Map<u64, VideoRoles> {
    Map::new(
        |x: u64|
            exists|k: u64, i: int|
                units.contains_key(k) && 0 <= i < unit_marks(units[k]).len() && shows(
                    doc,
                    (#[trigger] unit_marks(units[k])[i]).0,
                    x,
                ),
        |x: u64|
            VideoRoles {
                on_program: exists|k: u64, i: int|
                    units.contains_key(k) && 0 <= i < unit_marks(units[k]).len() && (#[trigger] unit_marks(
                        units[k],
                    )[i]).1 && shows(doc, unit_marks(units[k])[i].0, x),
                on_preview: exists|k: u64, i: int|
                    units.contains_key(k) && 0 <= i < unit_marks(units[k]).len() && (#[trigger] unit_marks(
                        units[k],
                    )[i]).2 && shows(doc, unit_marks(units[k])[i].0, x),
            },
    )
}

proof fn lemma_mark_extends(
    doc: DocumentView,
    marks: Seq<(u64, bool, bool)>,
    s: u64,
    p: bool,
    q: bool,
    after: Map<u64, VideoRoles>,
)
    requires
        marked(doc, roles_from(doc, marks), s, p, q, after),
    ensures
        after == roles_from(doc, marks.push((s, p, q))),
{
    let m2 = marks.push((s, p, q));
    let before = roles_from(doc, marks);
    assert forall|x: u64| after.contains_key(x) <==> roles_from(doc, m2).contains_key(x) by {
        if before.contains_key(x) {
            let i = choose|i: int| 0 <= i < marks.len() && shows(doc, (#[trigger] marks[i]).0, x);
            assert(m2[i] == marks[i]);
        }
        if shows(doc, s, x) {
            assert(m2[marks.len() as int] == (s, p, q));
        }
        if roles_from(doc, m2).contains_key(x) {
            let i = choose|i: int| 0 <= i < m2.len() && shows(doc, (#[trigger] m2[i]).0, x);
            if i < marks.len() {
                assert(m2[i] == marks[i]);
            }
        }
    }
    assert forall|x: u64| after.contains_key(x) implies after[x] == roles_from(doc, m2)[x] by {
        let r2 = roles_from(doc, m2)[x];
        let r1 = roles_of(before, x);
        assert(r2.on_program == (r1.on_program || (p && shows(doc, s, x)))) by {
            if r2.on_program {
                let i = choose|i: int| 0 <= i < m2.len() && (#[trigger] m2[i]).1 && shows(doc, m2[i].0, x);
                if i < marks.len() {
                    assert(m2[i] == marks[i]);
                    assert(before.contains_key(x));
                }
            }
            if r1.on_program {
                let i = choose|i: int| 0 <= i < marks.len() && (#[trigger] marks[i]).1 && shows(doc, marks[i].0, x);
                assert(m2[i] == marks[i]);
            }
            if p && shows(doc, s, x) {
                assert(m2[marks.len() as int] == (s, p, q));
            }
        }
        assert(r2.on_preview == (r1.on_preview || (q && shows(doc, s, x)))) by {
            if r2.on_preview {
                let i = choose|i: int| 0 <= i < m2.len() && (#[trigger] m2[i]).2 && shows(doc, m2[i].0, x);
                if i < marks.len() {
                    assert(m2[i] == marks[i]);
                    assert(before.contains_key(x));
                }
            }
            if r1.on_preview {
                let i = choose|i: int| 0 <= i < marks.len() && (#[trigger] marks[i]).2 && shows(doc, marks[i].0, x);
                assert(m2[i] == marks[i]);
            }
            if q && shows(doc, s, x) {
                assert(m2[marks.len() as int] == (s, p, q));
            }
        }
    }
    assert(after =~= roles_from(doc, m2));
}

proof fn lemma_all_marks_from(units: Map<u64, UnitLiveState>, keys: Seq<u64>, idx: int)
    requires
        0 <= idx < all_marks(units, keys).len(),
    ensures
        exists|m: int, i: int|
            0 <= m < keys.len() && 0 <= i < unit_marks(units[keys[m]]).len() && all_marks(units, keys)[idx]
                == #[trigger] unit_marks(units[keys[m]])[i],
    decreases keys.len(),
{
    let prev = all_marks(units, keys.drop_last());
    if idx < prev.len() {
        lemma_all_marks_from(units, keys.drop_last(), idx);
        let (m, i) = choose|m: int, i: int|
            0 <= m < keys.drop_last().len() && 0 <= i < unit_marks(units[keys.drop_last()[m]]).len()
                && prev[idx] == #[trigger] unit_marks(units[keys.drop_last()[m]])[i];
        assert(keys.drop_last()[m] == keys[m]);
    } else {
        let m = keys.len() - 1;
        assert(all_marks(units, keys)[idx] == unit_marks(units[keys[m]])[idx - prev.len()]);
    }
}

proof fn lemma_all_marks_has(units: Map<u64, UnitLiveState>, keys: Seq<u64>, m: int, i: int)
    requires
        0 <= m < keys.len(),
        0 <= i < unit_marks(units[keys[m]]).len(),
    ensures
        exists|idx: int|
            0 <= idx < all_marks(units, keys).len() && #[trigger] all_marks(units, keys)[idx]
                == unit_marks(units[keys[m]])[i],
    decreases keys.len(),
{
    let prev = all_marks(units, keys.drop_last());
    if m < keys.len() - 1 {
        lemma_all_marks_has(units, keys.drop_last(), m, i);
        assert(keys.drop_last()[m] == keys[m]);
        let idx = choose|idx: int| 0 <= idx < prev.len() && #[trigger] prev[idx] == unit_marks(
            units[keys.drop_last()[m]],
        )[i];
        assert(all_marks(units, keys)[idx] == prev[idx]);
    } else {
        assert(all_marks(units, keys)[prev.len() + i] == unit_marks(units[keys[m]])[i]);
    }
}

/// A mark of some unit, found in `all_marks`.
proof fn lemma_unit_mark_listed(units: Map<u64, UnitLiveState>, keys: Seq<u64>, k: u64, i: int) -> (idx: int)
    requires
        keys.to_set() == units.dom(),
        units.contains_key(k),
        0 <= i < unit_marks(units[k]).len(),
    ensures
        0 <= idx < all_marks(units, keys).len(),
        all_marks(units, keys)[idx] == unit_marks(units[k])[i],
{
    assert(keys.to_set().contains(k));
    let m = choose|m: int| 0 <= m < keys.len() && keys[m] == k;
    lemma_all_marks_has(units, keys, m, i);
    choose|idx: int| 0 <= idx < all_marks(units, keys).len() && #[trigger] all_marks(units, keys)[idx]
        == unit_marks(units[keys[m]])[i]
}

/// The unit that a mark of `all_marks` belongs to.
proof fn lemma_listed_mark_unit(units: Map<u64, UnitLiveState>, keys: Seq<u64>, idx: int) -> (ki: (u64, int))
    requires
        keys.to_set() == units.dom(),
        0 <= idx < all_marks(units, keys).len(),
    ensures
        units.contains_key(ki.0),
        0 <= ki.1 < unit_marks(units[ki.0]).len(),
        all_marks(units, keys)[idx] == unit_marks(units[ki.0])[ki.1],
{
    lemma_all_marks_from(units, keys, idx);
    let (m, i) = choose|m: int, i: int|
        0 <= m < keys.len() && 0 <= i < unit_marks(units[keys[m]]).len() && all_marks(units, keys)[idx]
            == #[trigger] unit_marks(units[keys[m]])[i];
    assert(keys.to_set().contains(keys[m]));
    (keys[m], i)
}

/// Marking the units in any order of their keys gives the same roles.
proof fn lemma_roles_any_order(doc: DocumentView, units: Map<u64, UnitLiveState>, keys: Seq<u64>)
    requires
        keys.to_set() == units.dom(),
    ensures
        roles_from(doc, all_marks(units, keys)) == spec_roles(doc, units),
{
    let ms = all_marks(units, keys);
    let a = roles_from(doc, ms);
    let b = spec_roles(doc, units);
    assert forall|x: u64| a.contains_key(x) == b.contains_key(x) by {
        if a.contains_key(x) {
            let idx = choose|idx: int| 0 <= idx < ms.len() && shows(doc, (#[trigger] ms[idx]).0, x);
            let ki = lemma_listed_mark_unit(units, keys, idx);
            assert(unit_marks(units[ki.0])[ki.1] == ms[idx]);
        }
        if b.contains_key(x) {
            let (k, i) = choose|k: u64, i: int|
                units.contains_key(k) && 0 <= i < unit_marks(units[k]).len() && shows(
                    doc,
                    (#[trigger] unit_marks(units[k])[i]).0,
                    x,
                );
            let idx = lemma_unit_mark_listed(units, keys, k, i);
            assert(ms[idx] == unit_marks(units[k])[i]);
        }
    }
    assert forall|x: u64| a.contains_key(x) implies a[x].on_program == b[x].on_program by {
        if a[x].on_program {
            let idx = choose|idx: int| 0 <= idx < ms.len() && (#[trigger] ms[idx]).1 && shows(doc, ms[idx].0, x);
            let ki = lemma_listed_mark_unit(units, keys, idx);
            assert(unit_marks(units[ki.0])[ki.1] == ms[idx]);
        }
        if b[x].on_program {
            let (k, i) = choose|k: u64, i: int|
                units.contains_key(k) && 0 <= i < unit_marks(units[k]).len() && (#[trigger] unit_marks(
                    units[k],
                )[i]).1 && shows(doc, unit_marks(units[k])[i].0, x);
            let idx = lemma_unit_mark_listed(units, keys, k, i);
            assert(ms[idx] == unit_marks(units[k])[i]);
        }
    }
    assert forall|x: u64| a.contains_key(x) implies a[x].on_preview == b[x].on_preview by {
        if a[x].on_preview {
            let idx = choose|idx: int| 0 <= idx < ms.len() && (#[trigger] ms[idx]).2 && shows(doc, ms[idx].0, x);
            let ki = lemma_listed_mark_unit(units, keys, idx);
            assert(unit_marks(units[ki.0])[ki.1] == ms[idx]);
        }
        if b[x].on_preview {
            let (k, i) = choose|k: u64, i: int|
                units.contains_key(k) && 0 <= i < unit_marks(units[k]).len() && (#[trigger] unit_marks(
                    units[k],
                )[i]).2 && shows(doc, unit_marks(units[k])[i].0, x);
            let idx = lemma_unit_mark_listed(units, keys, k, i);
            assert(ms[idx] == unit_marks(units[k])[i]);
        }
    }
    assert(a =~= b);
}

fn live_unit_keys(units: &HashMap<u64, UnitLiveState>) -> (r: Vec<u64>)
    ensures
        r@.to_set() == units@.dom(),
{
    broadcast use vstd::std_specs::hash::group_hash_axioms;

    let mut r: Vec<u64> = Vec::new();
    let ks = units.keys();
    let ghost all = IteratorSpec::remaining(&ks).unref();
    for k in it: ks
        invariant
            it.seq() == IteratorSpec::remaining(&ks),
            r@ == it.seq().take(it.index() as int).unref(),
    {
        r.push(*k);
        proof {
            assert(r@ =~= it.seq().take(it.index() + 1).unref());
        }
    }
    proof {
        assert(r@ =~= all);
    }
    r
}

fn mix_has_started(mix: u32) -> (r: bool)
    ensures
        r == mix_started(mix),
{
    MIX_STARTED < mix && mix <= INFINITY
}

/// Which inputs the mixer shows on Program and on Preview. GUI input-preview
/// windows are not Preview.
pub fn collect_roles(doc: &Document, live: &LiveState) -> (r: HashMap<u64, VideoRoles>)
    ensures
        r@ == spec_roles(doc@, live.units@),
{
    broadcast use vstd::std_specs::hash::group_hash_axioms;

    let keys = live_unit_keys(&live.units);
    let ghost units = live.units@;
    let mut roles: HashMap<u64, VideoRoles> = HashMap::new();
    proof {
        assert(roles@ =~= roles_from(doc@, all_marks(units, keys@.take(0))));
    }
    let mut n: usize = 0;
    while n < keys.len()
        invariant
            n <= keys@.len(),
            units == live.units@,
            keys@.to_set() == units.dom(),
            roles@ == roles_from(doc@, all_marks(units, keys@.take(n as int))),
        decreases keys@.len() - n,
    {
        let k = keys[n];
        proof {
            assert(keys@.to_set().contains(k));
            assert(keys@.take(n + 1).drop_last() =~= keys@.take(n as int));
        }
        let found = live.units.get(&k);
        let u = found.unwrap();
        let ghost before = all_marks(units, keys@.take(n as int));
        let ghost mut done = before;
        mark(doc, &mut roles, u.program_source, true, false);
        proof {
            lemma_mark_extends(doc@, done, u.program_source, true, false, roles@);
            done = done.push((u.program_source, true, false));
        }
        mark(doc, &mut roles, u.preview_source, false, true);
        proof {
            lemma_mark_extends(doc@, done, u.preview_source, false, true, roles@);
            done = done.push((u.preview_source, false, true));
        }
        if mix_has_started(u.mix) {
            let incoming = if u.incoming_source != 0 {
                u.incoming_source
            } else {
                u.preview_source
            };
            mark(doc, &mut roles, incoming, true, false);
            proof {
                lemma_mark_extends(doc@, done, incoming, true, false, roles@);
                done = done.push((incoming, true, false));
            }
        }
        let ghost head = done;
        let mut j: usize = 0;
        while j < u.overlay_sources.len()
            invariant
                j <= u.overlay_sources@.len(),
                done == head + u.overlay_sources@.take(j as int).map_values(|s: u64| (s, true, false)),
                roles@ == roles_from(doc@, done),
            decreases u.overlay_sources@.len() - j,
        {
            let source = u.overlay_sources[j];
            mark(doc, &mut roles, source, true, false);
            proof {
                lemma_mark_extends(doc@, done, source, true, false, roles@);
                done = done.push((source, true, false));
                assert(done =~= head + u.overlay_sources@.take(j + 1).map_values(|s: u64| (s, true, false)));
            }
            j = j + 1;
        }
        proof {
            assert(u.overlay_sources@.take(j as int) =~= u.overlay_sources@);
            assert(done =~= before + unit_marks(*u));
            assert(all_marks(units, keys@.take(n + 1)) == before + unit_marks(units[k]));
        }
        n = n + 1;
    }
    proof {
        assert(keys@.take(n as int) =~= keys@);
        lemma_roles_any_order(doc@, units, keys@);
    }
    roles
}

/// Decides the transport actions for every video input from the roles the
/// live state gives it now, against the roles remembered from the previous
/// tick, and remembers the new roles.
pub fn tick(doc: &Document, live: &LiveState, previous: &mut HashMap<u64, VideoRoles>) -> (r: Vec<
    (u64, VideoAction),
>)
    ensures
        ({
            let (state, actions) = tick_upto(
                doc@.inputs,
                spec_roles(doc@, live.units@),
                old(previous)@,
                doc@.inputs.len() as int,
            );
            final(previous)@ == state && r@ == actions
        }),
{
    let now = collect_roles(doc, live);
    tick_with_roles(doc, &now, previous)
}

} // verus!
