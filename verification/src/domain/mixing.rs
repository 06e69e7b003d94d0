//! Mixing units: a Preview/Program pair with its transition and overlays.

use vstd::prelude::*;

use crate::domain::ids::{MixingUnitId, MultiviewId, OutputId, OverlayId, SceneId};
use crate::text::owned;

verus! {

/// One bus of a mixing unit: the scene it shows, if any.
#[derive(Debug, Clone, Copy, PartialEq, Eq, Structural)]
pub struct MixBus {
    pub scene: Option<SceneId>,
}

impl MixBus {
    pub fn empty() -> (r: Self)
        ensures
            r.scene is None,
    {
        MixBus { scene: None }
    }
}

#[derive(Debug, Clone, Copy, PartialEq, Eq, Structural)]
pub enum TransitionStyle {
    Cut,
    Mix,
}

#[derive(Debug, Clone, Copy, PartialEq, Eq, Structural)]
pub struct Transition {
    pub style: TransitionStyle,
    pub duration_frames: u32,
    pub remaining_frames: u32,
}

impl Default for Transition {
    fn default() -> (r: Self)
        ensures
            r == (Transition { style: TransitionStyle::Cut, duration_frames: 0, remaining_frames: 0 }),
    {
        Transition { style: TransitionStyle::Cut, duration_frames: 0, remaining_frames: 0 }
    }
}

#[derive(Debug, Clone, PartialEq)]
pub struct OverlaySlot {
    pub id: OverlayId,
    pub name: String,
    pub scene: Option<SceneId>,
    pub enabled: bool,
    pub z_order: i32,
}

#[derive(Debug, Clone, Copy, PartialEq, Eq, Structural)]
pub enum AudioFollowPolicy {
    Off,
    Program,
    ProgramAndPreview,
}

#[derive(Debug, Clone, PartialEq)]
pub struct MixingUnit {
    pub id: MixingUnitId,
    pub name: String,
    pub preview: MixBus,
    pub program: MixBus,
    pub transition: Transition,
    pub overlays: Vec<OverlaySlot>,
    pub outputs: Vec<OutputId>,
    pub multiviews: Vec<MultiviewId>,
    pub audio_follow: AudioFollowPolicy,
}

/// Frames a take leaves to run: a mix with a duration runs for it, anything
/// else completes at once.
pub open spec fn frames_after_take(t: Transition) -> u32 {
    if t.style == TransitionStyle::Mix && t.duration_frames > 0 {
        t.duration_frames
    } else {
        0
    }
}

/// The buses and transition after a take: Preview latches into Program;
/// with `swap`, Preview receives the old Program.
pub open spec fn buses_after_take(preview: MixBus, program: MixBus, swap: bool) -> (MixBus, MixBus) {
    (if swap {
        program
    } else {
        preview
    }, preview)
}

impl MixingUnit {
    /// A unit with empty buses, a cut transition, no overlays, outputs or
    /// multiviews, and audio following Program.
    pub fn new(name: &str) -> (r: Self)
        ensures
            r.name@ == name@,
            r.preview.scene is None,
            r.program.scene is None,
            r.transition == (Transition {
                style: TransitionStyle::Cut,
                duration_frames: 0,
                remaining_frames: 0,
            }),
            r.overlays@.len() == 0,
            r.outputs@.len() == 0,
            r.multiviews@.len() == 0,
            r.audio_follow == AudioFollowPolicy::Program,
    {
        MixingUnit {
            id: MixingUnitId::new(),
            name: owned(name),
            preview: MixBus::empty(),
            program: MixBus::empty(),
            transition: Transition::default(),
            overlays: Vec::new(),
            outputs: Vec::new(),
            multiviews: Vec::new(),
            audio_follow: AudioFollowPolicy::Program,
        }
    }

    /// Atomically latch preview into program. With `swap`, preview receives
    /// the old program; otherwise it remains on the selected scene.
    pub fn take(&mut self, swap: bool)
        ensures
            (final(self).preview, final(self).program) == buses_after_take(
                old(self).preview,
                old(self).program,
                swap,
            ),
            final(self).transition == (Transition {
                remaining_frames: frames_after_take(old(self).transition),
                ..old(self).transition
            }),
            final(self).id == old(self).id,
            final(self).name == old(self).name,
            final(self).overlays == old(self).overlays,
            final(self).outputs == old(self).outputs,
            final(self).multiviews == old(self).multiviews,
            final(self).audio_follow == old(self).audio_follow,
    {
        let old_program = self.program.scene;
        self.program.scene = self.preview.scene;
        if swap {
            self.preview.scene = old_program;
        }
        self.transition.remaining_frames = if self.transition.style == TransitionStyle::Mix
            && self.transition.duration_frames > 0 {
            self.transition.duration_frames
        } else {
            0
        };
    }
}

/// Two swapping takes put both buses back where they were.
pub proof fn lemma_swap_take_twice(preview: MixBus, program: MixBus)
    ensures
        ({
            let (pv1, pg1) = buses_after_take(preview, program, true);
            buses_after_take(pv1, pg1, true) == (preview, program)
        }),
{
}

/// A take always puts the old Preview on Program.
pub proof fn lemma_take_latches_preview(preview: MixBus, program: MixBus, swap: bool)
    ensures
        buses_after_take(preview, program, swap).1 == preview,
{
}

} // verus!
