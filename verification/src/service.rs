//! The control service: the one place commands change the mixer and the
//! session. It answers a retried request from memory, refuses work while
//! the mixer is down, applies a new session atomically (all of it, or the
//! previous session back), and publishes what changed as events.

use std::collections::{HashMap, VecDeque};

use vstd::prelude::*;

use crate::command::{spec_incoming_to_u64, Command, DiscoverKind, Incoming, SnapshotKind};
use crate::error::{ControlError, ControlErrorView, ControlResult, ErrorKind};
use crate::event::{command_name, copy_meta, spec_command_name, spec_event_kind, spec_meta, with_sequence, EnvelopeMeta, Event};
use crate::event_hub::{lags, newer_than, relays, ring_after, ring_extend, EventHub};
use crate::domain::ieee::ONE;
use crate::ids::{scene_gpu_id, spec_resolve_scene, spec_scene_gpu_id, Resolver};
use crate::lifecycle::Lifecycle;
use crate::live::{LiveState, ResourceStatus, UnitLiveState};
use crate::port::{
    extends, lemma_extends_trans, lemma_none_in_order, lemma_one_more, lemma_requested_one_more,
    lemma_single_in_order, made_in_order, refused_later, requested_all, AutoApply, MixerPort, PortCall, PortRequest,
};
use crate::query::{spec_mixer_version, Capabilities, Query, Snapshot};
use crate::session::apply::{
    all_went_on, apply_one, lemma_made_in_order_refused, lemma_went_on_concat, op_requests, plan_requests,
    tried_in_order,
};
use crate::session::model::{Document, DocumentView, Renderer, SessionSettingsView};
use crate::session::reconcile::{ops_view, plan, spec_plan, OpView};
use crate::session::relink::texts;
use crate::session::store::{
    after_replace, after_rollback, conflict_message, option_doc_view, revision_conflicts, CanonicalSessionStore,
    StoreView,
};
use crate::session::validate::{issue_message, validation_issue};
use crate::text::owned;
use crate::video_trigger::{self, spec_roles, tick_upto, VideoAction, VideoRoles};

verus! {

/// How many request ids the service remembers.
pub const DEDUPE_CAP: usize = 1024;

/// How long a remembered outcome answers a retry, in milliseconds.
pub const DEDUPE_TTL_MS: u64 = 60_000;

/// Identity under which a client's request is deduplicated.
#[derive(Debug, Clone, PartialEq, Eq, Hash)]
pub struct RequestKey {
    pub client_instance_id: String,
    pub request_id: String,
}

pub open spec fn key_view(k: RequestKey) -> (Seq<char>, Seq<char>) {
    (k.client_instance_id@, k.request_id@)
}

#[derive(Debug, Clone, Copy, PartialEq, Eq, Structural)]
pub struct CommandOutcome {
    pub revision: u64,
    pub sequence: u64,
}

#[verifier::external_type_specification]
#[verifier::external_body]
pub struct ExInstant(std::time::Instant);

/// `std::time::Instant::now`: the monotonic clock now. Nothing is promised
/// of the value.
#[verifier::external_body]
fn instant_now() -> std::time::Instant {
    std::time::Instant::now()
}

/// `Instant::elapsed` in whole milliseconds (`Duration::as_millis`, cut to
/// 64 bits). The value depends on the time.
#[verifier::external_body]
fn elapsed_ms(at: &std::time::Instant) -> u64 {
    at.elapsed().as_millis() as u64
}

/// The outcome of a request, kept to answer its retries.
pub struct Remembered {
    pub key: RequestKey,
    pub outcome: ControlResult<CommandOutcome>,
    pub at: std::time::Instant,
}

/// The outcome remembered for `key`, if any.
pub open spec fn recalled(entries: Seq<Remembered>, key: (Seq<char>, Seq<char>)) -> Option<
    ControlResult<CommandOutcome>,
>
    decreases entries.len(),
{
    if entries.len() == 0 {
        None
    } else if key_view(entries[0].key) == key {
        Some(entries[0].outcome)
    } else {
        recalled(entries.drop_first(), key)
    }
}

/// The outcome remembered for a key that only the last entry holds is
/// that entry's.
proof fn lemma_recalled_last(entries: Seq<Remembered>, key: (Seq<char>, Seq<char>))
    requires
        entries.len() > 0,
        key_view(entries.last().key) == key,
        forall|i: int| 0 <= i < entries.len() - 1 ==> key_view((#[trigger] entries[i]).key) != key,
    ensures
        recalled(entries, key) == Some(entries.last().outcome),
    decreases entries.len(),
{
    if entries.len() > 1 {
        let rest = entries.drop_first();
        assert forall|i: int| 0 <= i < rest.len() - 1 implies key_view((#[trigger] rest[i]).key) != key by {
            assert(rest[i] == entries[i + 1]);
        }
        assert(rest.last() == entries.last());
        assert(key_view(entries[0].key) != key);
        lemma_recalled_last(rest, key);
    }
}

pub fn copy_error(e: &ControlError) -> (r: ControlError)
    ensures
        r == *e,
{
    match e {
        ControlError::InvalidArgument { message } => ControlError::InvalidArgument { message: message.clone() },
        ControlError::NotFound { message } => ControlError::NotFound { message: message.clone() },
        ControlError::Ambiguous { message } => ControlError::Ambiguous { message: message.clone() },
        ControlError::Conflict { message } => ControlError::Conflict { message: message.clone() },
        ControlError::Unavailable { message } => ControlError::Unavailable { message: message.clone() },
        ControlError::PermissionDenied { message } => ControlError::PermissionDenied {
            message: message.clone(),
        },
        ControlError::Io { message } => ControlError::Io { message: message.clone() },
        ControlError::Internal { message } => ControlError::Internal { message: message.clone() },
    }
}

fn copy_outcome(o: &ControlResult<CommandOutcome>) -> (r: ControlResult<CommandOutcome>)
    ensures
        r == *o,
{
    match o {
        Ok(x) => Ok(*x),
        Err(e) => Err(copy_error(e)),
    }
}

fn copy_key(k: &RequestKey) -> (r: RequestKey)
    ensures
        r == *k,
{
    RequestKey { client_instance_id: k.client_instance_id.clone(), request_id: k.request_id.clone() }
}

fn same_key(a: &RequestKey, b: &RequestKey) -> (r: bool)
    ensures
        r == (key_view(*a) == key_view(*b)),
{
    a.client_instance_id == b.client_instance_id && a.request_id == b.request_id
}

pub struct ControlService<P: MixerPort> {
    port: P,
    store: CanonicalSessionStore,
    hub: EventHub,
    lifecycle: Lifecycle,
    resolver: Resolver,
    resources: Vec<ResourceStatus>,
    video_roles: HashMap<u64, VideoRoles>,
    dedupe: Vec<Remembered>,
    dedupe_order: VecDeque<RequestKey>,
}

impl<P: MixerPort> ControlService<P> {
    pub closed spec fn spec_lifecycle(&self) -> Lifecycle {
        self.lifecycle
    }

    pub closed spec fn spec_store(&self) -> StoreView {
        self.store@
    }

    /// The events the service keeps for subscribers, oldest first.
    pub closed spec fn spec_events(&self) -> Seq<Event> {
        self.hub.retained()
    }

    pub closed spec fn spec_next_sequence(&self) -> u64 {
        self.hub.spec_next_sequence()
    }

    /// How many events the service keeps at most.
    pub closed spec fn spec_capacity(&self) -> usize {
        self.hub.spec_capacity()
    }

    /// The outcome remembered for a request, if any.
    pub closed spec fn spec_recalled(&self, key: (Seq<char>, Seq<char>)) -> Option<ControlResult<CommandOutcome>> {
        recalled(self.dedupe@, key)
    }

    pub closed spec fn spec_resources(&self) -> Seq<ResourceStatus> {
        self.resources@
    }

    /// A stopped service over `port`, with no session, events, resources or
    /// remembered requests.
    pub fn new(port: P) -> (r: Self)
        ensures
            r.spec_lifecycle() == Lifecycle::Stopped,
            r.spec_store() == (StoreView { document: None, revision: 0 }),
            r.spec_events().len() == 0,
            r.spec_resources().len() == 0,
            forall|k: (Seq<char>, Seq<char>)| r.spec_recalled(k) is None,
    {
        ControlService {
            port,
            store: CanonicalSessionStore::default(),
            hub: EventHub::default(),
            lifecycle: Lifecycle::Stopped,
            resolver: Resolver,
            resources: Vec::new(),
            video_roles: HashMap::new(),
            dedupe: Vec::new(),
            dedupe_order: VecDeque::new(),
        }
    }

    pub fn lifecycle(&self) -> (r: Lifecycle)
        ensures
            r == self.spec_lifecycle(),
    {
        self.lifecycle
    }

    pub fn revision(&self) -> (r: u64)
        ensures
            r == self.spec_store().revision,
    {
        self.store.revision()
    }

    pub fn document(&self) -> (r: Option<&Document>)
        ensures
            match r {
                Some(d) => self.spec_store().document == Some(d@),
                None => self.spec_store().document is None,
            },
    {
        self.store.document()
    }

    /// The mixer the service drives.
    pub closed spec fn spec_port(&self) -> P {
        self.port
    }

    pub fn port(&self) -> (r: &P)
        ensures
            *r == self.spec_port(),
    {
        &self.port
    }

    /// Events with a sequence number after `after`, oldest first; when the
    /// subscriber lagged past the kept events, a `Lag` event with the number
    /// it missed comes first.
    pub fn events_after(&self, after: u64) -> (r: Vec<Event>)
        requires
            after < u64::MAX,
        ensures
            ({
                let kept = self.spec_events().filter(newer_than(after));
                if lags(self.spec_events(), after) {
                    &&& r@.len() > 0
                    &&& r@[0] matches Event::Lag { meta, missed } && meta.sequence == after
                        && meta.session_revision == 0 && meta.request_id@.len() == 0 && missed
                        == spec_meta(self.spec_events()[0]).sequence - (after + 1)
                    &&& relays(r@.drop_first(), kept)
                } else {
                    relays(r@, kept)
                }
            }),
    {
        self.hub.after(after)
    }

    fn meta(&self, request_id: &str) -> (r: EnvelopeMeta)
        ensures
            r.sequence == self.hub.spec_next_sequence(),
            r.session_revision == self.store@.revision,
            r.request_id@ == request_id@,
    {
        self.hub.meta(self.store.revision(), request_id)
    }

    /// The outcome remembered for `key`, if any.
    fn recall(&self, key: &RequestKey) -> (r: Option<ControlResult<CommandOutcome>>)
        ensures
            r == recalled(self.dedupe@, key_view(*key)),
    {
        let mut i: usize = 0;
        proof {
            assert(self.dedupe@.skip(0) =~= self.dedupe@);
        }
        while i < self.dedupe.len()
            invariant
                i <= self.dedupe@.len(),
                recalled(self.dedupe@, key_view(*key)) == recalled(self.dedupe@.skip(i as int), key_view(*key)),
            decreases self.dedupe@.len() - i,
        {
            proof {
                assert(self.dedupe@.skip(i as int).drop_first() =~= self.dedupe@.skip(i + 1));
            }
            if same_key(&self.dedupe[i].key, key) {
                return Some(copy_outcome(&self.dedupe[i].outcome));
            }
            i = i + 1;
        }
        None
    }

    /// Drops what is remembered for `key`.
    fn forget(&mut self, key: &RequestKey)
        ensures
            forall|e: Remembered| #[trigger] final(self).dedupe@.contains(e) ==> old(self).dedupe@.contains(e)
                && key_view(e.key) != key_view(*key),
            final(self).port == old(self).port,
            final(self).store == old(self).store,
            final(self).hub == old(self).hub,
            final(self).lifecycle == old(self).lifecycle,
            final(self).resources == old(self).resources,
            final(self).video_roles == old(self).video_roles,
            final(self).dedupe_order == old(self).dedupe_order,
    {
        let mut rest: Vec<Remembered> = Vec::new();
        std::mem::swap(&mut rest, &mut self.dedupe);
        let ghost all = rest@;
        while rest.len() > 0
            invariant
                forall|e: Remembered| #[trigger] rest@.contains(e) ==> all.contains(e),
                forall|e: Remembered| #[trigger] self.dedupe@.contains(e) ==> all.contains(e) && key_view(e.key)
                    != key_view(*key),
                all == old(self).dedupe@,
                self.port == old(self).port,
                self.store == old(self).store,
                self.hub == old(self).hub,
                self.lifecycle == old(self).lifecycle,
                self.resources == old(self).resources,
                self.video_roles == old(self).video_roles,
                self.dedupe_order == old(self).dedupe_order,
            decreases rest@.len(),
        {
            let ghost before = rest@;
            let e = rest.pop().unwrap();
            proof {
                assert(before.contains(e)) by {
                    assert(before[before.len() - 1] == e);
                }
                assert(all.contains(e));
                assert forall|x: Remembered| #[trigger] rest@.contains(x) implies all.contains(x) by {
                    let k = choose|k: int| 0 <= k < rest@.len() && rest@[k] == x;
                    assert(before[k] == x);
                    assert(before.contains(x));
                }
            }
            if !same_key(&e.key, key) {
                let ghost kept = self.dedupe@;
                self.dedupe.push(e);
                proof {
                    assert forall|x: Remembered| #[trigger] self.dedupe@.contains(x) implies all.contains(x)
                        && key_view(x.key) != key_view(*key) by {
                        let k = choose|k: int| 0 <= k < self.dedupe@.len() && self.dedupe@[k] == x;
                        if k < kept.len() {
                            assert(kept[k] == x);
                            assert(kept.contains(x));
                        }
                    }
                }
            }
        }
    }

    /// Remembers the outcome of a request that carries an id, lets go of the
    /// oldest id once `DEDUPE_CAP` are held, and lets go of outcomes older
    /// than `DEDUPE_TTL_MS`.
    fn remember(&mut self, key: &RequestKey, outcome: ControlResult<CommandOutcome>)
        ensures
            key.request_id@.len() == 0 ==> final(self).dedupe == old(self).dedupe,
            key.request_id@.len() > 0 ==> {
                &&& final(self).dedupe@.len() > 0
                &&& key_view(final(self).dedupe@.last().key) == key_view(*key)
                &&& final(self).dedupe@.last().outcome == outcome
                &&& forall|i: int|
                    0 <= i < final(self).dedupe@.len() - 1 ==> old(self).dedupe@.contains(
                        #[trigger] final(self).dedupe@[i],
                    ) && key_view(final(self).dedupe@[i].key) != key_view(*key)
                &&& recalled(final(self).dedupe@, key_view(*key)) == Some(outcome)
            },
            forall|e: Remembered| #[trigger] final(self).dedupe@.contains(e) ==> old(self).dedupe@.contains(e) || (
            key_view(e.key) == key_view(*key) && e.outcome == outcome),
            final(self).port == old(self).port,
            final(self).store == old(self).store,
            final(self).hub == old(self).hub,
            final(self).lifecycle == old(self).lifecycle,
            final(self).resources == old(self).resources,
            final(self).video_roles == old(self).video_roles,
    {
        if key.request_id.as_str().is_empty() {
            return;
        }
        let ghost start = self.dedupe@;
        if self.dedupe_order.len() >= DEDUPE_CAP {
            match self.dedupe_order.pop_front() {
                Some(oldest) => self.forget(&oldest),
                None => {},
            }
        }
        self.forget(key);
        let mut rest: Vec<Remembered> = Vec::new();
        std::mem::swap(&mut rest, &mut self.dedupe);
        let ghost all = rest@;
        while rest.len() > 0
            invariant
                forall|e: Remembered| #[trigger] rest@.contains(e) ==> all.contains(e),
                forall|e: Remembered| #[trigger] self.dedupe@.contains(e) ==> all.contains(e),
                forall|e: Remembered| #[trigger] all.contains(e) ==> start.contains(e) && key_view(e.key)
                    != key_view(*key),
                self.port == old(self).port,
                self.store == old(self).store,
                self.hub == old(self).hub,
                self.lifecycle == old(self).lifecycle,
                self.resources == old(self).resources,
                self.video_roles == old(self).video_roles,
            decreases rest@.len(),
        {
            let ghost before = rest@;
            let e = rest.pop().unwrap();
            proof {
                assert(before[before.len() - 1] == e);
                assert(before.contains(e));
                assert(all.contains(e));
                assert forall|x: Remembered| #[trigger] rest@.contains(x) implies all.contains(x) by {
                    let k = choose|k: int| 0 <= k < rest@.len() && rest@[k] == x;
                    assert(before[k] == x);
                    assert(before.contains(x));
                }
            }
            if elapsed_ms(&e.at) < DEDUPE_TTL_MS {
                let ghost kept = self.dedupe@;
                self.dedupe.push(e);
                proof {
                    assert forall|x: Remembered| #[trigger] self.dedupe@.contains(x) implies all.contains(x) by {
                        let k = choose|k: int| 0 <= k < self.dedupe@.len() && self.dedupe@[k] == x;
                        if k < kept.len() {
                            assert(kept[k] == x);
                            assert(kept.contains(x));
                        }
                    }
                }
            }
        }
        let ghost kept = self.dedupe@;
        self.dedupe.push(Remembered { key: copy_key(key), outcome, at: instant_now() });
        self.dedupe_order.push_back(copy_key(key));
        proof {
            let d = self.dedupe@;
            assert forall|i: int| 0 <= i < d.len() - 1 implies start.contains(#[trigger] d[i]) && key_view(
                d[i].key,
            ) != key_view(*key) by {
                assert(d[i] == kept[i]);
                assert(kept.contains(kept[i]));
            }
            assert forall|e: Remembered| #[trigger] d.contains(e) implies start.contains(e) || (key_view(e.key)
                == key_view(*key) && e.outcome == outcome) by {
                let k = choose|k: int| 0 <= k < d.len() && d[k] == e;
                if k < d.len() - 1 {
                    assert(d[k] == kept[k]);
                    assert(kept.contains(kept[k]));
                }
            }
            lemma_recalled_last(d, key_view(*key));
        }
    }

    /// The remembered outcomes, oldest first.
    pub closed spec fn spec_remembered(&self) -> Seq<Remembered> {
        self.dedupe@
    }

    /// Starts the mixer at the given master rate. The service is `Ready` and
    /// announces it when the port came up, and `Failed` otherwise.
    pub fn create_runtime(&mut self, fps_num: u32, fps_den: u32, renderer: Renderer) -> (r: ControlResult<()>)
        ensures
            final(self).spec_port().requests() == old(self).spec_port().requests().push(
                (PortRequest::Create { fps_num, fps_den, renderer }, r),
            ),
            final(self).spec_store() == old(self).spec_store(),
            final(self).spec_remembered() == old(self).spec_remembered(),
            final(self).spec_resources() == old(self).spec_resources(),
            final(self).spec_capacity() == old(self).spec_capacity(),
            match r {
                Ok(()) => {
                    &&& final(self).spec_lifecycle() == Lifecycle::Ready
                    &&& final(self).spec_events().last() matches Event::Ready { meta } && meta.session_revision
                        == old(self).spec_store().revision && meta.request_id@.len() == 0
                    &&& exists|e: Event|
                        e is Ready && final(self).spec_events() == ring_after(
                            old(self).spec_events(),
                            old(self).spec_capacity(),
                            e,
                        )
                },
                Err(_) => {
                    &&& final(self).spec_lifecycle() == Lifecycle::Failed
                    &&& final(self).spec_events() == old(self).spec_events()
                    &&& final(self).spec_next_sequence() == old(self).spec_next_sequence()
                },
            },
    {
        self.lifecycle = Lifecycle::Starting;
        let created = self.port.create(fps_num, fps_den, renderer);
        if created.is_ok() {
            self.lifecycle = Lifecycle::Ready;
            proof {
                reveal_strlit("");
            }
            let meta = self.meta("");
            let ghost stamped = with_sequence(Event::Ready { meta }, self.hub.spec_next_sequence());
            self.hub.publish(Event::Ready { meta });
            assert(stamped is Ready);
            assert(self.spec_events() == ring_after(old(self).spec_events(), old(self).spec_capacity(), stamped));
        } else {
            self.lifecycle = Lifecycle::Failed;
        }
        created
    }

    /// Stops the mixer, drops the session and everything remembered, and
    /// announces the shutdown.
    pub fn destroy_runtime(&mut self) -> (r: ControlResult<()>)
        ensures
            r is Ok,
            final(self).spec_lifecycle() == Lifecycle::Stopped,
            final(self).spec_store() == (StoreView { document: None, revision: 0 }),
            final(self).spec_resources().len() == 0,
            final(self).spec_remembered().len() == 0,
            final(self).spec_events().last() matches Event::Shutdown { meta } && meta.session_revision == 0
                && meta.request_id@.len() == 0,
    {
        self.lifecycle = Lifecycle::Stopping;
        let _ = self.port.destroy();
        self.abandon();
        proof {
            reveal_strlit("");
        }
        let meta = self.meta("");
        self.hub.publish(Event::Shutdown { meta });
        Ok(())
    }

    /// Drops the session, the resources, the video roles and everything
    /// remembered, without touching the port, and stops.
    pub fn abandon(&mut self)
        ensures
            final(self).spec_lifecycle() == Lifecycle::Stopped,
            final(self).spec_store() == (StoreView { document: None, revision: 0 }),
            final(self).spec_resources().len() == 0,
            final(self).spec_remembered().len() == 0,
            final(self).spec_events() == old(self).spec_events(),
            final(self).spec_next_sequence() == old(self).spec_next_sequence(),
    {
        self.store = CanonicalSessionStore::default();
        self.resources = Vec::new();
        self.video_roles = HashMap::new();
        self.dedupe = Vec::new();
        self.dedupe_order = VecDeque::new();
        self.lifecycle = Lifecycle::Stopped;
    }

    /// Answers a query; every query is answered with the snapshot.
    pub fn query(&self, query: Query) -> (r: ControlResult<Snapshot>)
        ensures
            answers(*self, r),
    {
        match query {
            Query::GetSnapshot | Query::GetCapabilities | Query::GetRevision | Query::GetLiveState => self.snapshot(),
        }
    }

    /// The whole state in one answer, while the mixer is starting or ready.
    pub fn snapshot(&self) -> (r: ControlResult<Snapshot>)
        ensures
            answers(*self, r),
    {
        if self.lifecycle != Lifecycle::Ready && self.lifecycle != Lifecycle::Starting {
            return Err(ControlError::unavailable("mixer is not ready"));
        }
        let document = match self.store.document_cloned() {
            Some(d) => d,
            None => Document::default(),
        };
        let live = match self.port.live_state() {
            Ok(l) => l,
            Err(_) => LiveState::default(),
        };
        let resources = self.resources.clone();
        proof {
            assert(resources@ =~= self.resources@);
        }
        Ok(
            Snapshot {
                revision: self.store.revision(),
                sequence: self.hub.next_sequence(),
                document,
                live,
                resources,
                capabilities: Capabilities::default(),
                lifecycle: self.lifecycle,
            },
        )
    }

    /// Makes the port call that a live command asks for.
    fn call_port(&mut self, command: &Command) -> (r: ControlResult<()>)
        ensures
            match *command {
                Command::Discover { kind } => {
                    &&& final(self).port == old(self).port
                    &&& kind is Audio ==> r is Ok
                },
                _ => made_in_order(
                    old(self).port.requests(),
                    final(self).port.requests(),
                    live_requests(*command),
                    r,
                ),
            },
            final(self).store == old(self).store,
            final(self).hub == old(self).hub,
            final(self).lifecycle == old(self).lifecycle,
            final(self).resources == old(self).resources,
            final(self).dedupe == old(self).dedupe,
            final(self).dedupe_order == old(self).dedupe_order,
    {
        let ghost before = self.port.requests();
        let r = match command {
            Command::Preview { unit_id, scene_id } => {
                let gpu = scene_gpu_id(*scene_id);
                self.port.unit_set_preview(*unit_id, gpu)
            },
            Command::Cut { unit_id, swap, incoming } => self.port.unit_cut(*unit_id, *swap, incoming.to_u64()),
            Command::Auto {
                unit_id,
                kind,
                duration_ms,
                swap,
                keep_preview,
                easing,
                direction,
                dip_r,
                dip_g,
                dip_b,
                dip_a,
                incoming,
                softness,
                param,
            } => self.port.unit_auto(
                AutoApply {
                    unit_id: *unit_id,
                    kind: *kind,
                    duration_ms: *duration_ms,
                    swap: *swap,
                    keep_preview: *keep_preview,
                    easing: *easing,
                    direction: *direction,
                    dip_r: *dip_r,
                    dip_g: *dip_g,
                    dip_b: *dip_b,
                    dip_a: *dip_a,
                    incoming: incoming.to_u64(),
                    softness: *softness,
                    param: *param,
                },
            ),
            Command::SetMix { unit_id, value } => self.port.unit_set_mix(*unit_id, *value),
            Command::VideoPlay { input_id, playing } => self.port.video_set_playing(*input_id, *playing),
            Command::VideoLoop { input_id, looping } => self.port.video_set_loop(*input_id, *looping),
            Command::VideoSeek { input_id, position_hns } => self.port.video_seek(*input_id, *position_hns),
            Command::AudioSetInput { input_id, bus_mask, gain, mute } => self.port.audio_set_input(
                *input_id,
                *bus_mask,
                *gain,
                *mute,
            ),
            Command::AudioSetBus { bus_id, gain, mute } => self.port.audio_set_bus_gain(*bus_id, *gain, *mute),
            Command::Snapshot { unit_id, kind, path } => self.port.snapshot(
                *unit_id,
                snapshot_kind_abi(*kind),
                path.as_str(),
            ),
            Command::Discover { kind } => {
                let found = match kind {
                    DiscoverKind::Omt => self.port.discover_omt(),
                    DiscoverKind::Ndi => self.port.discover_ndi(),
                    DiscoverKind::Audio => Ok(String::new()),
                };
                match found {
                    Ok(_) => Ok(()),
                    Err(e) => Err(e),
                }
            },
            _ => Ok(()),
        };
        proof {
            let reqs = live_requests(*command);
            if !(command is Discover) {
                if reqs.len() == 1 {
                    lemma_single_in_order(before, self.port.requests().last(), reqs[0]);
                    assert(seq![reqs[0]] =~= reqs);
                } else {
                    lemma_none_in_order(before);
                }
            }
        }
        r
    }

    /// Carries out a command that is not a session replace: the port call,
    /// then the announcement. A failed port call publishes nothing.
    fn execute_live(&mut self, request_id: &str, command: Command) -> (r: ControlResult<CommandOutcome>)
        ensures
            live_outcome(*old(self), *final(self), command, r),
            forall|e: Remembered| #[trigger] final(self).dedupe@.contains(e) ==> old(self).dedupe@.contains(e),
    {
        match command {
            Command::ReplaceSession { .. } | Command::MutateSession { .. } => {
                return Err(ControlError::internal("replace routed incorrectly"));
            },
            Command::Shutdown => {
                let _ = self.destroy_runtime();
                return Ok(CommandOutcome { revision: self.store.revision(), sequence: self.hub.next_sequence() });
            },
            _ => {},
        }
        let ghost log0 = self.port.requests();
        let called = self.call_port(&command);
        let ghost log1 = self.port.requests();
        proof {
            if command is Discover {
                assert(log0.take(log0.len() as int) =~= log0);
            } else {
                lemma_made_in_order_refused(log0, log1, live_requests(command), called);
                if live_requests(command).len() == 1 {
                    assert(log1[log0.len() as int] == log1.last());
                    assert(log1[log0.len() + 0int].0 == live_requests(command)[0]);
                }
            }
        }
        match called {
            Err(e) => {
                proof {
                    if live_requests(command).len() == 1 {
                        assert(log1[log0.len() + 0int].0 == live_requests(command)[0]);
                    }
                }
                return Err(e);
            },
            Ok(()) => {},
        }
        let unit_id = match command {
            Command::Preview { unit_id, .. } | Command::Cut { unit_id, .. } | Command::Auto { unit_id, .. }
            | Command::SetMix { unit_id, .. } => Some(unit_id),
            _ => None,
        };
        let transition = match command {
            Command::Auto { .. } => true,
            _ => false,
        };
        let r = self.after_live(command_name(&command), request_id, unit_id, transition);
        proof {
            let log2 = self.port.requests();
            lemma_extends_trans(log0, log1, log2);
            if live_requests(command).len() == 1 {
                assert(log2.take(log1.len() as int)[log0.len() as int] == log2[log0.len() as int]);
            }
        }
        r
    }

    /// Puts a new session in place, all of it or nothing: starts the mixer
    /// when it is down, checks the expected revision and the document,
    /// brings the mixer to the new session, and on the first failed
    /// operation puts the previous session and revision back and steers the
    /// mixer back to them. `files` are the media paths that exist.
    #[verifier::spinoff_prover]
    #[verifier::rlimit(40)]
    pub fn replace_session(
        &mut self,
        document: Document,
        expected_revision: Option<u64>,
        request_id: &str,
        files: &Vec<String>,
    ) -> (r: ControlResult<CommandOutcome>)
        ensures
            replaced(old(self).spec_store(), final(self).spec_store(), document@, expected_revision, r),
            r is Ok ==> final(self).spec_lifecycle() == Lifecycle::Ready,
            r matches Ok(o) ==> o.sequence == last_sequence(*final(self)),
            r is Ok ==> session_announced(
                old(self).spec_events(),
                final(self).spec_events(),
                old(self).spec_capacity(),
                document@,
            ),
            r is Err && !revision_conflicts(old(self).spec_store(), expected_revision) && validation_issue(
                document@,
            ) is None ==> refused_later(old(self).spec_port().requests(), final(self).spec_port().requests()),
            r matches Err(e) ==> replace_refused(
                old(self).spec_port().requests(),
                final(self).spec_port().requests(),
                old(self).spec_store(),
                document@,
                expected_revision,
                e,
            ),
            r matches Err(e) ==> (!revision_conflicts(old(self).spec_store(), expected_revision) && validation_issue(
                document@,
            ) is None ==> {
                let before = old(self).spec_port().requests();
                let after = final(self).spec_port().requests();
                ||| (after.len() == before.len() + 1 && after.last().0 is Create && after.last().1 == Err::<
                    (),
                    ControlError,
                >(e))
                ||| steered_back_after(before, after, old(self).spec_store().document, document@, texts(files@), e)
            }),
            r is Ok ==> plan_sent(
                old(self).spec_port().requests(),
                final(self).spec_port().requests(),
                plan_requests(
                    document@.settings,
                    spec_plan(old(self).spec_store().document, document@, texts(files@)),
                ),
            ),
            final(self).spec_capacity() == old(self).spec_capacity(),
            final(self).spec_remembered() == old(self).spec_remembered(),
            final(self).spec_resources() == old(self).spec_resources(),
    {
        let ghost log0 = self.port.requests();
        let ghost events0 = self.spec_events();
        let ghost cap = self.spec_capacity();
        let ghost mut pre: Seq<Event> = Seq::empty();
        if !self.port.is_ready() {
            let fps_num = document.settings.master_fps_num;
            let fps_den = document.settings.master_fps_den;
            let renderer = document.settings.renderer;
            match self.create_runtime(fps_num, fps_den, renderer) {
                Err(e) => {
                    proof {
                        lemma_one_more(log0, self.port.requests().last());
                        assert(self.port.requests().drop_last() =~= log0);
                    }
                    return Err(e);
                },
                Ok(()) => {
                    proof {
                        lemma_one_more(log0, self.port.requests().last());
                        let e = choose|e: Event| e is Ready && self.spec_events() == ring_after(events0, cap, e);
                        pre = seq![e];
                        assert(pre.drop_last() =~= Seq::<Event>::empty());
                        assert(ring_extend(events0, cap, pre.drop_last()) == events0);
                        assert(ring_extend(events0, cap, pre) == ring_after(events0, cap, e));
                    }
                },
            }
        } else if self.lifecycle != Lifecycle::Ready {
            self.lifecycle = Lifecycle::Ready;
        }
        proof {
            if pre.len() == 0 {
                assert(ring_extend(events0, cap, pre) == events0);
                assert(log0.take(log0.len() as int) =~= log0);
            }
        }
        let ghost start_log = self.port.requests();
        assert(start_log == log0 || (start_log.len() == log0.len() + 1 && start_log.drop_last() == log0
            && start_log.last().0 is Create && start_log.last().1 is Ok));
        assert(self.hub.retained() == ring_extend(events0, cap, pre));
        let ghost start = self.store@;
        let previous_rev = self.store.revision();
        let previous_doc = self.store.document_cloned();
        let ghost doc_view = document@;
        let (committed, revision, previous) = match self.store.replace(document, expected_revision, false) {
            Ok(t) => t,
            Err(e) => {
                proof {
                    assert(started(log0, self.port.requests()));
                }
                return Err(e);
            },
        };
        let ops = plan(previous.as_ref(), &committed, files);
        let ghost settings = committed@.settings;
        proof {
            assert(plan_requests(settings, ops_view(ops@).take(0)) =~= Seq::<PortRequest>::empty());
            assert(start_log.take(start_log.len() as int) =~= start_log);
        }
        let mut statuses: Vec<ResourceStatus> = Vec::new();
        let mut i: usize = 0;
        while i < ops.len()
            invariant
                i <= ops@.len(),
                self.store@ == after_replace(start, document@),
                self.lifecycle == Lifecycle::Ready,
                self.dedupe@ == old(self).dedupe@,
                self.resources@ == old(self).resources@,
                self.hub.retained() == ring_extend(events0, cap, pre),
                self.hub.spec_capacity() == cap,
                cap == old(self).spec_capacity(),
                events0 == old(self).spec_events(),
                pre.len() <= 1,
                pre.len() == 1 ==> pre[0] is Ready,
                start == old(self).store@,
                option_doc_view(previous_doc) == start.document,
                previous_rev == start.revision,
                extends(log0, self.port.requests()),
                log0 == old(self).port.requests(),
                extends(log0, start_log),
                settings == committed@.settings,
                committed@ == doc_view,
                doc_view == document@,
                !revision_conflicts(old(self).store@, expected_revision),
                validation_issue(doc_view) is None,
                all_went_on(start_log, self.port.requests(), plan_requests(settings, ops_view(ops@).take(i as int))),
            decreases ops@.len() - i,
        {
            let ghost mid = self.port.requests();
            match apply_one(&mut self.port, &committed, &ops[i], &mut statuses) {
                Err(error) => {
                    let ghost refused_at = self.port.requests();
                    let ghost prev_view = option_doc_view(previous_doc);
                    self.steer_back(&committed, previous_doc, previous_rev, files);
                    proof {
                        lemma_extends_trans(log0, mid, refused_at);
                        lemma_extends_trans(log0, refused_at, self.port.requests());
                        let fin = self.port.requests();
                        let p = refused_at.len() - 1;
                        assert(refused_at[p] == refused_at.last());
                        assert(fin.take(p + 1) =~= refused_at);
                        assert(fin[p] == refused_at[p]);
                        assert(committed@ == doc_view);
                        assert(steered_back_after(log0, fin, prev_view, doc_view, texts(files@), error));
                        assert(prev_view == old(self).spec_store().document);
                        assert(log0 == old(self).spec_port().requests());
                        assert(fin == self.spec_port().requests());
                        assert(replace_refused(log0, fin, old(self).spec_store(), doc_view, expected_revision, error));
                    }
                    return Err(error);
                },
                Ok(()) => {
                    proof {
                        lemma_extends_trans(log0, mid, self.port.requests());
                        lemma_went_on_concat(
                            start_log,
                            mid,
                            self.port.requests(),
                            plan_requests(settings, ops_view(ops@).take(i as int)),
                            op_requests(settings, ops@[i as int]@),
                        );
                        assert(ops_view(ops@).take(i + 1).drop_last() =~= ops_view(ops@).take(i as int));
                        assert(ops_view(ops@).take(i + 1).last() == ops@[i as int]@);
                    }
                },
            }
            i = i + 1;
        }
        let ghost port_at = self.port;
        proof {
            assert(ops_view(ops@).take(ops@.len() as int) =~= ops_view(ops@));
        }
        let meta = self.meta(request_id);
        let shown = Box::new(committed.clone());
        let first = copy_meta(&meta);
        let ghost e1 = with_sequence(Event::SessionChanged { meta: first, document: shown }, self.hub.spec_next_sequence());
        self.hub.publish(Event::SessionChanged { meta: first, document: shown });
        let command = owned("ReplaceSession");
        let ghost e2 = with_sequence(Event::CommandApplied { meta, command }, self.hub.spec_next_sequence());
        self.hub.publish(Event::CommandApplied { meta, command });
        let ghost mut published: Seq<Event> = pre.push(e1).push(e2);
        proof {
            assert(published.drop_last() =~= pre.push(e1));
            assert(pre.push(e1).drop_last() =~= pre);
            assert(ring_extend(events0, cap, pre.push(e1)) == ring_after(ring_extend(events0, cap, pre), cap, e1));
            assert(ring_extend(events0, cap, published) == ring_after(
                ring_extend(events0, cap, pre.push(e1)),
                cap,
                e2,
            ));
            assert(published.take(pre.len() + 2int) =~= published);
        }
        let mut k: usize = 0;
        while k < statuses.len()
            invariant
                k <= statuses@.len(),
                self.store@ == after_replace(start, document@),
                self.lifecycle == Lifecycle::Ready,
                self.dedupe@ == old(self).dedupe@,
                self.resources@ == old(self).resources@,
                self.hub.spec_next_sequence() >= 1,
                self.hub.retained() == ring_extend(events0, cap, published),
                self.hub.spec_capacity() == cap,
                cap == old(self).spec_capacity(),
                events0 == old(self).spec_events(),
                published.len() == pre.len() + 2 + k,
                pre.len() <= 1,
                pre.len() == 1 ==> pre[0] is Ready,
                published.take(pre.len() + 2int) == pre.push(e1).push(e2),
                forall|i: int| pre.len() + 2 <= i < published.len() ==> #[trigger] published[i] is Resource,
                self.port == port_at,
            decreases statuses@.len() - k,
        {
            let meta = self.meta(request_id);
            let status = statuses[k].clone();
            let ghost ek = with_sequence(Event::Resource { meta, status }, self.hub.spec_next_sequence());
            self.hub.publish(Event::Resource { meta, status });
            proof {
                let before = published;
                published = published.push(ek);
                assert(published.drop_last() =~= before);
                assert(published.take(pre.len() + 2int) =~= before.take(pre.len() + 2int));
            }
            k = k + 1;
        }
        proof {
            let p = published;
            let kk = pre.len() as int;
            assert(p[kk] == published.take(pre.len() + 2int)[kk]);
            assert(p[kk + 1] == published.take(pre.len() + 2int)[kk + 1]);
            if kk == 1 {
                assert(p[0] == published.take(pre.len() + 2int)[0]);
            }
            assert(e1 matches Event::SessionChanged { document: d, .. } && d@ == document@);
        }
        self.tick_video(request_id);
        proof {
            let reqs = plan_requests(settings, ops_view(ops@));
            let fin = self.port.requests();
            let applied = port_at.requests();
            assert(fin.take((start_log.len() + reqs.len()) as int) =~= applied);
            if start_log == log0 {
                assert(plan_sent(log0, fin, reqs));
            } else {
                assert(start_log =~= log0.push(fin[log0.len() as int])) by {
                    assert(fin.take(applied.len() as int)[log0.len() as int] == fin[log0.len() as int]);
                    assert(applied.take(start_log.len() as int)[log0.len() as int] == applied[log0.len() as int]);
                }
                assert(plan_sent(log0, fin, reqs));
            }
        }
        Ok(CommandOutcome { revision, sequence: self.hub.next_sequence() })
    }

    /// Puts the previous session and revision back after a failed apply,
    /// and steers the mixer back to the previous session as far as it goes.
    fn steer_back(&mut self, committed: &Document, previous: Option<Document>, revision: u64, files: &Vec<String>)
        ensures
            extends(old(self).port.requests(), final(self).port.requests()),
            match previous {
                Some(p) => steered(
                    p@.settings,
                    spec_plan(Some(committed@), p@, texts(files@)),
                    old(self).port.requests(),
                    final(self).port.requests(),
                ),
                None => final(self).port == old(self).port,
            },
            final(self).store@ == after_rollback(option_doc_view(previous), revision),
            final(self).lifecycle == old(self).lifecycle,
            final(self).dedupe == old(self).dedupe,
            final(self).resources == old(self).resources,
            final(self).hub == old(self).hub,
    {
        match previous {
            Some(prev) => {
                self.store.rollback(Some(prev.clone()), revision);
                proof {
                    assert(self.port.requests().take(self.port.requests().len() as int) =~= self.port.requests());
                }
                let back = plan(Some(committed), &prev, files);
                let ghost settings = prev@.settings;
                proof {
                    assert(ops_view(back@).take(0) =~= Seq::<OpView>::empty());
                }
                let mut ignored: Vec<ResourceStatus> = Vec::new();
                let mut j: usize = 0;
                while j < back.len()
                    invariant
                        j <= back@.len(),
                        self.store@ == after_rollback(Some(prev@), revision),
                        self.lifecycle == old(self).lifecycle,
                        self.dedupe == old(self).dedupe,
                        self.resources == old(self).resources,
                        self.hub == old(self).hub,
                        extends(old(self).port.requests(), self.port.requests()),
                        settings == prev@.settings,
                        steered(settings, ops_view(back@).take(j as int), old(self).port.requests(), self.port.requests()),
                    decreases back@.len() - j,
                {
                    let ghost mid = self.port.requests();
                    let _ = apply_one(&mut self.port, &prev, &back[j], &mut ignored);
                    proof {
                        lemma_extends_trans(old(self).port.requests(), mid, self.port.requests());
                        let ops = ops_view(back@).take(j + 1);
                        assert(ops.drop_last() =~= ops_view(back@).take(j as int));
                        assert(ops.last() == back@[j as int]@);
                        assert(tried_in_order(mid, self.port.requests(), op_requests(settings, ops.last())));
                        assert(steered(settings, ops, old(self).port.requests(), self.port.requests()));
                    }
                    j = j + 1;
                }
                proof {
                    assert(ops_view(back@).take(back@.len() as int) =~= ops_view(back@));
                }
            },
            None => {
                self.store.rollback(None, revision);
                proof {
                    assert(self.port.requests().take(self.port.requests().len() as int) =~= self.port.requests());
                }
            },
        }
    }

    /// Carries out a client's request. A retry of a request (same client,
    /// same non-empty request id) is answered with the outcome remembered
    /// for it and nothing is done again. While the service is not ready,
    /// anything but a shutdown or a session replace is refused unless the
    /// port reports itself ready. The outcome of a request with an id is
    /// remembered.
    pub fn execute(&mut self, key: RequestKey, command: Command, files: &Vec<String>) -> (r: ControlResult<
        CommandOutcome,
    >)
        ensures
            executed(*old(self), *final(self), key_view(key), command, r),
    {
        if !key.request_id.as_str().is_empty() {
            match self.recall(&key) {
                Some(outcome) => {
                    return outcome;
                },
                None => {},
            }
        }
        let shutdown = match command {
            Command::Shutdown => true,
            _ => false,
        };
        let replace = match command {
            Command::ReplaceSession { .. } => true,
            _ => false,
        };
        if self.lifecycle != Lifecycle::Ready && !shutdown {
            if !self.port.is_ready() && !replace {
                let err = ControlError::unavailable("mixer is not ready");
                self.remember(&key, Err(copy_error(&err)));
                return Err(err);
            }
        }
        let result = match command {
            Command::ReplaceSession { document, expected_revision } => self.replace_session(
                *document,
                expected_revision,
                key.request_id.as_str(),
                files,
            ),
            other => self.execute_live(key.request_id.as_str(), other),
        };
        self.remember(&key, copy_outcome(&result));
        result
    }

    /// The id of the scene that `raw` names in the published session.
    pub fn resolve_scene_id(&self, raw: &str) -> (r: ControlResult<u64>)
        ensures
            same_result(r, scene_lookup(self.spec_store(), raw@)),
    {
        let doc = match self.store.document() {
            Some(d) => d,
            None => {
                return Err(ControlError::unavailable("session not published"));
            },
        };
        match self.resolver.resolve_scene(doc, raw) {
            Ok(scene) => Ok(scene.id),
            Err(e) => Err(e),
        }
    }

    /// The GPU id of the scene that `raw` names; `"0"` stands for no scene.
    pub fn resolve_scene_gpu(&self, raw: &str) -> (r: ControlResult<u64>)
        ensures
            same_result(r, scene_gpu_lookup(self.spec_store(), raw@)),
    {
        let doc = match self.store.document() {
            Some(d) => d,
            None => {
                return Err(ControlError::unavailable("session not published"));
            },
        };
        proof {
            reveal_strlit("0");
        }
        if raw.unicode_len() == 1 && raw.get_char(0) == '0' {
            proof {
                assert(raw@ =~= "0"@);
            }
            return Ok(0);
        }
        match self.resolver.resolve_scene(doc, raw) {
            Ok(scene) => Ok(scene_gpu_id(scene.id)),
            Err(e) => Err(e),
        }
    }

    /// A vMix `Cut`: with a named input, that scene goes to Program and
    /// Preview stays; without one, Preview and Program swap.
    pub fn vmix_cut(&mut self, unit_id: u64, input_raw: &str, named_input: bool) -> (r: ControlResult<
        CommandOutcome,
    >)
        ensures
            vmix_done(
                *old(self),
                *final(self),
                named_input,
                input_raw@,
                |incoming: Incoming| Command::Cut { unit_id, swap: !named_input, incoming },
                r,
            ),
    {
        let incoming = if named_input {
            match self.resolve_scene_gpu(input_raw) {
                Ok(gpu) => Incoming::Source(gpu),
                Err(e) => {
                    return Err(e);
                },
            }
        } else {
            Incoming::Preview
        };
        let files: Vec<String> = Vec::new();
        self.execute(vmix_key(), Command::Cut { unit_id, swap: !named_input, incoming }, &files)
    }

    /// A vMix `PreviewInput`: the named scene goes to Preview.
    pub fn vmix_preview(&mut self, unit_id: u64, input_raw: &str) -> (r: ControlResult<CommandOutcome>)
        ensures
            match scene_lookup(old(self).spec_store(), input_raw@) {
                Err(e) => r matches Err(x) && x@ == e && *final(self) == *old(self),
                Ok(scene_id) => executed(
                    *old(self),
                    *final(self),
                    ("vmix"@, Seq::<char>::empty()),
                    Command::Preview { unit_id, scene_id },
                    r,
                ),
            },
    {
        let scene_id = match self.resolve_scene_id(input_raw) {
            Ok(id) => id,
            Err(e) => {
                return Err(e);
            },
        };
        let files: Vec<String> = Vec::new();
        self.execute(vmix_key(), Command::Preview { unit_id, scene_id }, &files)
    }

    /// A vMix `Fade`: a one-frame-or-longer mix with the fixed style vMix
    /// uses, to the named scene or (without one) from Preview, keeping
    /// Preview afterwards.
    pub fn vmix_auto(&mut self, unit_id: u64, input_raw: &str, named_input: bool, duration_ms: u32) -> (r:
        ControlResult<CommandOutcome>)
        ensures
            vmix_done(
                *old(self),
                *final(self),
                named_input,
                input_raw@,
                |incoming: Incoming| vmix_fade(unit_id, named_input, duration_ms, incoming),
                r,
            ),
    {
        let incoming = if named_input {
            match self.resolve_scene_gpu(input_raw) {
                Ok(gpu) => Incoming::Source(gpu),
                Err(e) => {
                    return Err(e);
                },
            }
        } else {
            Incoming::Preview
        };
        let duration_ms = if duration_ms < 1 {
            1
        } else {
            duration_ms
        };
        let files: Vec<String> = Vec::new();
        self.execute(
            vmix_key(),
            Command::Auto {
                unit_id,
                kind: 1,
                duration_ms,
                swap: !named_input,
                keep_preview: true,
                easing: 0,
                direction: 0,
                dip_r: 0,
                dip_g: 0,
                dip_b: 0,
                dip_a: ONE,
                incoming,
                softness: VMIX_SOFTNESS,
                param: 0,
            },
            &files,
        )
    }

    /// Plays, pauses and restarts video inputs whose roles changed, as the
    /// live state the port reports shows them. Without a session, or when
    /// the port cannot report its live state, nothing happens.
    fn tick_video(&mut self, request_id: &str)
        ensures
            final(self).store == old(self).store,
            final(self).hub == old(self).hub,
            final(self).lifecycle == old(self).lifecycle,
            final(self).resources == old(self).resources,
            final(self).dedupe == old(self).dedupe,
            final(self).dedupe_order == old(self).dedupe_order,
            extends(old(self).port.requests(), final(self).port.requests()),
            old(self).store@.document is None ==> final(self).video_roles == old(self).video_roles
                && final(self).port == old(self).port,
            old(self).store@.document is Some ==> (final(self).video_roles == old(self).video_roles
                && final(self).port == old(self).port) || exists|units: Map<u64, UnitLiveState>|
                video_driven(
                    old(self).store@.document->0,
                    units,
                    old(self).video_roles@,
                    final(self).video_roles@,
                    old(self).port.requests(),
                    final(self).port.requests(),
                ),
    {
        proof {
            assert(self.port.requests().take(self.port.requests().len() as int) =~= self.port.requests());
        }
        let doc = match self.store.document_cloned() {
            Some(d) => d,
            None => {
                return;
            },
        };
        let live = match self.port.live_state() {
            Ok(l) => l,
            Err(_) => {
                return;
            },
        };
        self.drive_video(&doc, &live);
        proof {
            assert(doc@ == old(self).store@.document->0);
        }
        let _ = request_id;
    }

    /// Given the live state `live`, updates the remembered video roles and
    /// asks the port to play, pause or restart each video input whose
    /// roles changed, in input order, whatever the port answers.
    fn drive_video(&mut self, doc: &Document, live: &LiveState)
        ensures
            video_driven(
                doc@,
                live.units@,
                old(self).video_roles@,
                final(self).video_roles@,
                old(self).port.requests(),
                final(self).port.requests(),
            ),
            final(self).store == old(self).store,
            final(self).hub == old(self).hub,
            final(self).lifecycle == old(self).lifecycle,
            final(self).resources == old(self).resources,
            final(self).dedupe == old(self).dedupe,
            final(self).dedupe_order == old(self).dedupe_order,
    {
        let ghost before = self.port.requests();
        let actions = video_trigger::tick(doc, live, &mut self.video_roles);
        let ghost reqs = actions@.map_values(|a: (u64, VideoAction)| video_request(a));
        let ghost roles = self.video_roles@;
        proof {
            assert(before.take(before.len() as int) =~= before);
            assert(reqs.take(0) =~= Seq::<PortRequest>::empty());
        }
        let mut i: usize = 0;
        while i < actions.len()
            invariant
                i <= actions@.len(),
                reqs == actions@.map_values(|a: (u64, VideoAction)| video_request(a)),
                requested_all(before, self.port.requests(), reqs.take(i as int)),
                self.store == old(self).store,
                self.hub == old(self).hub,
                self.lifecycle == old(self).lifecycle,
                self.resources == old(self).resources,
                self.dedupe == old(self).dedupe,
                self.dedupe_order == old(self).dedupe_order,
                self.video_roles@ == roles,
            decreases actions@.len() - i,
        {
            let ghost mid = self.port.requests();
            let (id, action) = actions[i];
            let _ = match action {
                VideoAction::SeekZero => self.port.video_seek(id, 0),
                VideoAction::Pause => self.port.video_set_playing(id, false),
                VideoAction::Play => self.port.video_set_playing(id, true),
            };
            proof {
                assert(self.port.requests().last().0 == reqs[i as int]);
                lemma_requested_one_more(before, mid, self.port.requests().last(), reqs, i as int);
            }
            i = i + 1;
        }
        proof {
            assert(reqs.take(actions@.len() as int) =~= reqs);
        }
    }

    /// Publishes that a live command was applied (and that a transition
    /// started), then the live state, and updates video transport.
    fn after_live(&mut self, name: &str, request_id: &str, unit_id: Option<u64>, transition: bool) -> (r:
        ControlResult<CommandOutcome>)
        ensures
            r matches Ok(o) && o.revision == old(self).store@.revision && o.sequence
                == final(self).hub.spec_next_sequence() - 1,
            announces(final(self).hub.retained(), name@, transition && unit_id is Some),
            extends(old(self).port.requests(), final(self).port.requests()),
            final(self).store == old(self).store,
            final(self).lifecycle == old(self).lifecycle,
            final(self).dedupe == old(self).dedupe,
            final(self).dedupe_order == old(self).dedupe_order,
    {
        let live = match self.port.live_state() {
            Ok(l) => l,
            Err(_) => LiveState::default(),
        };
        let meta = self.meta(request_id);
        self.hub.publish(Event::CommandApplied { meta: copy_meta(&meta), command: owned(name) });
        let ghost after_applied = self.hub.retained();
        if transition {
            match unit_id {
                Some(unit_id) => {
                    self.hub.publish(Event::TransitionStarted { meta: copy_meta(&meta), unit_id });
                },
                None => {},
            }
        }
        let ghost after_started = self.hub.retained();
        self.hub.publish(Event::LiveChanged { meta, live });
        proof {
            let n = self.hub.retained();
            assert(n[n.len() - 1 - 1] == after_started[after_started.len() - 1]);
            if transition && unit_id is Some {
                assert(n[n.len() - 1 - 2] == after_started[after_started.len() - 2]);
                assert(after_started[after_started.len() - 1 - 1] == after_applied[after_applied.len() - 1]);
            }
        }
        self.tick_video(request_id);
        assert(self.hub.spec_next_sequence() >= 1);
        Ok(CommandOutcome { revision: self.store.revision(), sequence: self.hub.next_sequence() })
    }
}

/// The request a live command makes of the mixer; none for a command
/// that the mixer is not asked about (a discovery is a query).
pub open spec fn live_requests(command: Command) -> Seq<PortRequest> {
    match command {
        Command::Preview { unit_id, scene_id } => seq![
            PortRequest::UnitSetPreview { unit_id, scene_gpu_id: spec_scene_gpu_id(scene_id) },
        ],
        Command::Cut { unit_id, swap, incoming } => seq![
            PortRequest::UnitCut { unit_id, swap, incoming: spec_incoming_to_u64(incoming) },
        ],
        Command::Auto {
            unit_id,
            kind,
            duration_ms,
            swap,
            keep_preview,
            easing,
            direction,
            dip_r,
            dip_g,
            dip_b,
            dip_a,
            incoming,
            softness,
            param,
        } => seq![
            PortRequest::UnitAuto(
                AutoApply {
                    unit_id,
                    kind,
                    duration_ms,
                    swap,
                    keep_preview,
                    easing,
                    direction,
                    dip_r,
                    dip_g,
                    dip_b,
                    dip_a,
                    incoming: spec_incoming_to_u64(incoming),
                    softness,
                    param,
                },
            ),
        ],
        Command::SetMix { unit_id, value } => seq![PortRequest::UnitSetMix { unit_id, mix: value }],
        Command::VideoPlay { input_id, playing } => seq![PortRequest::VideoSetPlaying { id: input_id, playing }],
        Command::VideoLoop { input_id, looping } => seq![PortRequest::VideoSetLoop { id: input_id, looping }],
        Command::VideoSeek { input_id, position_hns } => seq![
            PortRequest::VideoSeek { id: input_id, position_hns },
        ],
        Command::AudioSetInput { input_id, bus_mask, gain, mute } => seq![
            PortRequest::AudioSetInput { id: input_id, bus_mask, gain, mute },
        ],
        Command::AudioSetBus { bus_id, gain, mute } => seq![PortRequest::AudioSetBusGain { id: bus_id, gain, mute }],
        Command::Snapshot { unit_id, kind, path } => seq![
            PortRequest::Snapshot { unit_id, kind: spec_snapshot_kind_abi(kind), path: path@ },
        ],
        _ => Seq::empty(),
    }
}

/// The request a video action makes of the mixer.
pub open spec fn video_request(a: (u64, VideoAction)) -> PortRequest {
    match a.1 {
        VideoAction::SeekZero => PortRequest::VideoSeek { id: a.0, position_hns: 0 },
        VideoAction::Pause => PortRequest::VideoSetPlaying { id: a.0, playing: false },
        VideoAction::Play => PortRequest::VideoSetPlaying { id: a.0, playing: true },
    }
}

/// With the units showing `units`, the video roles went from `before` to
/// what a tick over `doc` leaves, and the port was asked for each action of
/// that tick, in order.
pub open spec fn video_driven(
    doc: DocumentView,
    units: Map<u64, UnitLiveState>,
    roles_before: Map<u64, VideoRoles>,
    roles_after: Map<u64, VideoRoles>,
    before: Seq<PortCall>,
    after: Seq<PortCall>,
) -> bool {
    let (state, actions) = tick_upto(doc.inputs, spec_roles(doc, units), roles_before, doc.inputs.len() as int);
    &&& roles_after == state
    &&& requested_all(before, after, actions.map_values(|a: (u64, VideoAction)| video_request(a)))
}

/// The mixer was asked, in order and each answered so that applying went
/// on, for the requests `reqs`: right after `before`, or right after a
/// start of the mixer that it accepted. More requests may follow.
pub open spec fn plan_sent(before: Seq<PortCall>, after: Seq<PortCall>, reqs: Seq<PortRequest>) -> bool {
    ||| (before.len() + reqs.len() <= after.len() && all_went_on(
        before,
        after.take((before.len() + reqs.len()) as int),
        reqs,
    ))
    ||| (before.len() + 1 + reqs.len() <= after.len() && after[before.len() as int].0 is Create
        && after[before.len() as int].1 is Ok && all_went_on(
        before.push(after[before.len() as int]),
        after.take((before.len() + 1 + reqs.len()) as int),
        reqs,
    ))
}

/// The request a live command makes, when it makes one, went to the mixer
/// first; a refusal is handed back as it came and ends the command there.
/// A command that makes no request succeeds, unless it is a discovery of
/// network sources, whose answer is the mixer's.
pub open spec fn live_sent(before: Seq<PortCall>, after: Seq<PortCall>, command: Command, r: ControlResult<CommandOutcome>) -> bool {
    let reqs = live_requests(command);
    &&& extends(before, after)
    &&& reqs.len() == 1 ==> {
        &&& before.len() < after.len()
        &&& after[before.len() as int].0 == reqs[0]
        &&& match after[before.len() as int].1 {
            Ok(()) => r is Ok,
            Err(e) => r == Err::<CommandOutcome, ControlError>(e) && after.len() == before.len() + 1,
        }
    }
    &&& (reqs.len() == 0 && !(command matches Command::Discover { kind } && !(kind is Audio))) ==> r is Ok
}

/// The mixer was asked, operation by operation, for the requests that
/// bring each of `ops` about under the settings `s`, each operation's
/// requests in order and stopping after a refusal.
pub open spec fn steered(s: SessionSettingsView, ops: Seq<OpView>, before: Seq<PortCall>, after: Seq<PortCall>) -> bool
    decreases ops.len(),
{
    if ops.len() == 0 {
        after == before
    } else {
        exists|mid: Seq<PortCall>|
            steered(s, ops.drop_last(), before, mid) && #[trigger] tried_in_order(mid, after, op_requests(s, ops.last()))
    }
}

/// The mixer is as it was, or it was asked to start and accepted.
pub open spec fn started(before: Seq<PortCall>, after: Seq<PortCall>) -> bool {
    ||| after == before
    ||| (after.len() == before.len() + 1 && after.drop_last() == before && after.last().0 is Create
        && after.last().1 is Ok)
}

/// Why a replace failed with `e`: the mixer refused to start; or the store
/// refused the expected revision (a conflict) or the document (its first
/// issue); or, with both accepted, the mixer refused a request of the plan.
pub open spec fn replace_refused(
    before: Seq<PortCall>,
    after: Seq<PortCall>,
    store: StoreView,
    document: DocumentView,
    expected_revision: Option<u64>,
    e: ControlError,
) -> bool {
    ||| (after.len() == before.len() + 1 && after.drop_last() == before && after.last().0 is Create
        && after.last().1 == Err::<(), ControlError>(e))
    ||| (started(before, after) && revision_conflicts(store, expected_revision) && e@ == (ControlErrorView {
        kind: ErrorKind::Conflict,
        message: conflict_message(expected_revision->0, store.revision),
    }))
    ||| (started(before, after) && !revision_conflicts(store, expected_revision) && (validation_issue(
        document,
    ) matches Some(i) && e@ == (ControlErrorView { kind: ErrorKind::InvalidArgument, message: issue_message(i) })))
    ||| (!revision_conflicts(store, expected_revision) && validation_issue(document) is None && exists|p: int|
        before.len() <= p < after.len() && (#[trigger] after[p]).1 == Err::<(), ControlError>(e) && extends(
            before,
            after.take(p + 1),
        ))
}

/// A refused request of the plan: its refusal is the failure, and the
/// requests after it steer the mixer back to the previous session (none
/// when there was none).
pub open spec fn steered_back_after(
    before: Seq<PortCall>,
    after: Seq<PortCall>,
    previous: Option<DocumentView>,
    document: DocumentView,
    files: Seq<Seq<char>>,
    e: ControlError,
) -> bool {
    exists|p: int|
        before.len() <= p < after.len() && (#[trigger] after[p]).1 == Err::<(), ControlError>(e) && extends(
            before,
            after.take(p + 1),
        ) && match previous {
            Some(prev) => steered(prev.settings, spec_plan(Some(document), prev, files), after.take(p + 1), after),
            None => after.len() == p + 1,
        }
}

/// The number the port's snapshot call takes for what it captures.
pub open spec fn spec_snapshot_kind_abi(kind: SnapshotKind) -> u32 {
    match kind {
        SnapshotKind::Program => 0,
        SnapshotKind::Preview => 1,
        SnapshotKind::Source(_) => 3,
    }
}

pub fn snapshot_kind_abi(kind: SnapshotKind) -> (r: u32)
    ensures
        r == spec_snapshot_kind_abi(kind),
{
    match kind {
        SnapshotKind::Program => 0,
        SnapshotKind::Preview => 1,
        SnapshotKind::Source(_) => 3,
    }
}

/// The sequence number of the last event `svc` published (0 before any).
pub open spec fn last_sequence<P: MixerPort>(svc: ControlService<P>) -> u64 {
    if svc.spec_next_sequence() == 0 {
        0
    } else {
        (svc.spec_next_sequence() - 1) as u64
    }
}

/// What carrying out a command other than a session replace does. A
/// session command routed here is refused as an internal error; a shutdown
/// stops everything; any other command leaves the session alone and, when
/// its port call succeeds, announces itself, and publishes nothing when it
/// fails.
pub open spec fn live_outcome<P: MixerPort>(
    before: ControlService<P>,
    after: ControlService<P>,
    command: Command,
    r: ControlResult<CommandOutcome>,
) -> bool {
    match command {
        Command::ReplaceSession { .. } | Command::MutateSession { .. } => {
            &&& r matches Err(e) && e@ == (ControlErrorView {
                kind: ErrorKind::Internal,
                message: "replace routed incorrectly"@,
            })
            &&& after.spec_store() == before.spec_store()
            &&& after.spec_events() == before.spec_events()
            &&& after.spec_next_sequence() == before.spec_next_sequence()
            &&& after.spec_lifecycle() == before.spec_lifecycle()
        },
        Command::Shutdown => {
            &&& r matches Ok(o) && o.revision == 0 && o.sequence == last_sequence(after)
            &&& after.spec_lifecycle() == Lifecycle::Stopped
            &&& after.spec_store() == (StoreView { document: None, revision: 0 })
            &&& after.spec_resources().len() == 0
            &&& after.spec_events().last() is Shutdown
        },
        _ => {
            &&& after.spec_store() == before.spec_store()
            &&& after.spec_lifecycle() == before.spec_lifecycle()
            &&& live_sent(before.spec_port().requests(), after.spec_port().requests(), command, r)
            &&& match r {
                Err(_) => after.spec_events() == before.spec_events() && after.spec_next_sequence()
                    == before.spec_next_sequence(),
                Ok(o) => {
                    &&& o.revision == before.spec_store().revision
                    &&& o.sequence == last_sequence(after)
                    &&& announces(after.spec_events(), spec_command_name(command), command is Auto)
                },
            }
        },
    }
}

/// What replacing the session did to the store: a replace is accepted
/// only when the expected revision matches and the document is valid, and
/// then the document is in place at the next revision; a refused or failed
/// replace leaves the store as it was.
pub open spec fn replaced(
    before: StoreView,
    after: StoreView,
    document: DocumentView,
    expected_revision: Option<u64>,
    r: ControlResult<CommandOutcome>,
) -> bool {
    match r {
        Ok(o) => {
            &&& !revision_conflicts(before, expected_revision)
            &&& validation_issue(document) is None
            &&& after == after_replace(before, document)
            &&& o.revision == after.revision
        },
        Err(_) => after == before,
    }
}

/// A request the service may turn away while it is not ready.
pub open spec fn may_refuse<P: MixerPort>(before: ControlService<P>, command: Command) -> bool {
    before.spec_lifecycle() != Lifecycle::Ready && !(command is Shutdown) && !(command is ReplaceSession)
}

/// A request turned away because the mixer is not ready: nothing changes
/// but what is remembered.
pub open spec fn refused<P: MixerPort>(
    before: ControlService<P>,
    after: ControlService<P>,
    r: ControlResult<CommandOutcome>,
) -> bool {
    &&& r matches Err(e) && e@ == (ControlErrorView {
        kind: ErrorKind::Unavailable,
        message: "mixer is not ready"@,
    })
    &&& after.spec_store() == before.spec_store()
    &&& after.spec_events() == before.spec_events()
    &&& after.spec_next_sequence() == before.spec_next_sequence()
    &&& after.spec_lifecycle() == before.spec_lifecycle()
}

/// What carrying out `command` did.
pub open spec fn carried_out<P: MixerPort>(
    before: ControlService<P>,
    after: ControlService<P>,
    command: Command,
    r: ControlResult<CommandOutcome>,
) -> bool {
    match command {
        Command::ReplaceSession { document, expected_revision } => {
            &&& replaced(before.spec_store(), after.spec_store(), document@, expected_revision, r)
            &&& r matches Err(e) ==> replace_refused(
                before.spec_port().requests(),
                after.spec_port().requests(),
                before.spec_store(),
                document@,
                expected_revision,
                e,
            )
            &&& r is Ok ==> after.spec_lifecycle() == Lifecycle::Ready
            &&& r is Ok ==> session_announced(
                before.spec_events(),
                after.spec_events(),
                before.spec_capacity(),
                document@,
            )
        },
        _ => live_outcome(before, after, command, r),
    }
}

/// Everything remembered afterwards was remembered before, or is this
/// request's outcome under its key (only when it carries an id).
pub open spec fn remembers_only<P: MixerPort>(
    before: ControlService<P>,
    after: ControlService<P>,
    k: (Seq<char>, Seq<char>),
    r: ControlResult<CommandOutcome>,
) -> bool {
    forall|e: Remembered| #[trigger]
        after.spec_remembered().contains(e) ==> before.spec_remembered().contains(e) || (key_view(e.key) == k
            && k.1.len() > 0 && e.outcome == r)
}

/// What executing a request does: a retry of a remembered request gets
/// the remembered outcome and changes nothing; any other request is
/// carried out, or turned away while the mixer is not ready, and only its
/// own outcome joins what is remembered.
pub open spec fn executed<P: MixerPort>(
    before: ControlService<P>,
    after: ControlService<P>,
    k: (Seq<char>, Seq<char>),
    command: Command,
    r: ControlResult<CommandOutcome>,
) -> bool {
    if k.1.len() > 0 && before.spec_recalled(k) is Some {
        r == before.spec_recalled(k)->0 && after == before
    } else {
        &&& carried_out(before, after, command, r) || (may_refuse(before, command) && refused(before, after, r))
        &&& remembers_only(before, after, k, r)
        &&& k.1.len() > 0 ==> after.spec_recalled(k) == Some(r)
    }
}

/// Bit pattern of the `f32` edge softness, 0.02, of a vMix fade.
pub const VMIX_SOFTNESS: u32 = 0x3ca3_d70a;

/// The key of vMix requests: they carry no request id.
fn vmix_key() -> (r: RequestKey)
    ensures
        key_view(r) == ("vmix"@, Seq::<char>::empty()),
{
    proof {
        reveal_strlit("");
    }
    let r = RequestKey { client_instance_id: owned("vmix"), request_id: String::new() };
    assert(r.request_id@ =~= Seq::<char>::empty());
    r
}

/// A result matches its spec value: the same `Ok` value, or an error with
/// the same view.
pub open spec fn same_result(r: ControlResult<u64>, s: Result<u64, ControlErrorView>) -> bool {
    match s {
        Ok(v) => r == Ok::<u64, ControlError>(v),
        Err(e) => r matches Err(x) && x@ == e,
    }
}

/// The id of the scene `raw` names in the stored session.
pub open spec fn scene_lookup(store: StoreView, raw: Seq<char>) -> Result<u64, ControlErrorView> {
    match store.document {
        None => Err(ControlErrorView { kind: ErrorKind::Unavailable, message: "session not published"@ }),
        Some(d) => match spec_resolve_scene(d, raw) {
            Ok(k) => Ok(d.scenes[k].id),
            Err(e) => Err(e),
        },
    }
}

/// The GPU id of the scene `raw` names; `"0"` is no scene.
pub open spec fn scene_gpu_lookup(store: StoreView, raw: Seq<char>) -> Result<u64, ControlErrorView> {
    if store.document is Some && raw == "0"@ {
        Ok(0)
    } else {
        match scene_lookup(store, raw) {
            Ok(id) => Ok(spec_scene_gpu_id(id)),
            Err(e) => Err(e),
        }
    }
}

/// A vMix request: with a named input that does not resolve, its error and
/// no change; otherwise the command built for what it brings to Program
/// (the named scene, or Preview), executed without a request id.
pub open spec fn vmix_done<P: MixerPort>(
    before: ControlService<P>,
    after: ControlService<P>,
    named_input: bool,
    raw: Seq<char>,
    command: spec_fn(Incoming) -> Command,
    r: ControlResult<CommandOutcome>,
) -> bool {
    if named_input {
        match scene_gpu_lookup(before.spec_store(), raw) {
            Err(e) => r matches Err(x) && x@ == e && after == before,
            Ok(gpu) => executed(before, after, ("vmix"@, Seq::<char>::empty()), command(Incoming::Source(gpu)), r),
        }
    } else {
        executed(before, after, ("vmix"@, Seq::<char>::empty()), command(Incoming::Preview), r)
    }
}

/// The automatic transition a vMix fade asks for: a mix of at least one
/// millisecond, opaque dip color, 0.02 softness, Preview kept.
pub open spec fn vmix_fade(unit_id: u64, named_input: bool, duration_ms: u32, incoming: Incoming) -> Command {
    Command::Auto {
        unit_id,
        kind: 1,
        duration_ms: if duration_ms < 1 {
            1
        } else {
            duration_ms
        },
        swap: !named_input,
        keep_preview: true,
        easing: 0,
        direction: 0,
        dip_r: 0,
        dip_g: 0,
        dip_b: 0,
        dip_a: ONE,
        incoming,
        softness: VMIX_SOFTNESS,
        param: 0,
    }
}

/// The events a replace published on top of `before`: possibly the mixer
/// coming up, then the new session (with `document`), then the command,
/// then one resource status per resource the apply reported.
pub open spec fn session_announced(before: Seq<Event>, after: Seq<Event>, capacity: usize, document: DocumentView) -> bool {
    exists|p: Seq<Event>, k: int|
        #![trigger ring_extend(before, capacity, p), p[k]]
        {
            &&& 0 <= k <= 1
            &&& after == ring_extend(before, capacity, p)
            &&& p.len() >= k + 2
            &&& k == 1 ==> p[0] is Ready
            &&& p[k] matches Event::SessionChanged { document: d, .. } && d@ == document
            &&& p[k + 1] matches Event::CommandApplied { command, .. } && command@ == "ReplaceSession"@
            &&& forall|i: int| k + 2 <= i < p.len() ==> #[trigger] p[i] is Resource
        }
}

/// A retry of a remembered request gets the remembered outcome, and the
/// service does nothing again.
pub proof fn lemma_retry_is_answered_from_memory<P: MixerPort>(
    before: ControlService<P>,
    after: ControlService<P>,
    k: (Seq<char>, Seq<char>),
    command: Command,
    r: ControlResult<CommandOutcome>,
)
    requires
        executed(before, after, k, command, r),
        k.1.len() > 0,
        before.spec_recalled(k) is Some,
    ensures
        Some(r) == before.spec_recalled(k),
        after == before,
{
}

/// Replacing the session is all or nothing: a replace that fails leaves
/// the session and revision as they were, and a replace that expects a
/// revision other than the stored one never succeeds.
pub proof fn lemma_replace_is_atomic(
    before: StoreView,
    after: StoreView,
    document: DocumentView,
    expected_revision: Option<u64>,
    r: ControlResult<CommandOutcome>,
)
    requires
        replaced(before, after, document, expected_revision, r),
    ensures
        r is Err ==> after == before,
        revision_conflicts(before, expected_revision) ==> r is Err,
        r is Ok ==> after.document == Some(document),
{
}

/// A request turned away while the mixer is down changes neither the
/// session nor the events.
pub proof fn lemma_refusal_changes_nothing<P: MixerPort>(
    before: ControlService<P>,
    after: ControlService<P>,
    r: ControlResult<CommandOutcome>,
)
    requires
        refused(before, after, r),
    ensures
        after.spec_store() == before.spec_store(),
        after.spec_events() == before.spec_events(),
        r is Err,
{
}

/// What a snapshot answers of `svc`: unavailable unless the mixer is
/// starting or ready, and otherwise the revision, the last sequence
/// number, the document (the default one while none is published), the
/// resources and the lifecycle.
pub open spec fn answers<P: MixerPort>(svc: ControlService<P>, r: ControlResult<Snapshot>) -> bool {
    let l = svc.spec_lifecycle();
    match r {
        Err(e) => l != Lifecycle::Ready && l != Lifecycle::Starting && e@ == (ControlErrorView {
            kind: ErrorKind::Unavailable,
            message: "mixer is not ready"@,
        }),
        Ok(s) => {
            &&& l == Lifecycle::Ready || l == Lifecycle::Starting
            &&& s.revision == svc.spec_store().revision
            &&& s.sequence == if svc.spec_next_sequence() == 0 {
                0
            } else {
                (svc.spec_next_sequence() - 1) as u64
            }
            &&& s.document@ == match svc.spec_store().document {
                Some(d) => d,
                None => Document::spec_default(),
            }
            &&& s.resources@ == svc.spec_resources()
            &&& s.lifecycle == l
            &&& s.capabilities.protocol_version@ == "eiviz.control.v1"@
            &&& s.capabilities.mixer_version@ == spec_mixer_version()
        },
    }
}

/// The last events announce a live command: that it was applied, then
/// (for a transition on a unit) that the transition started, then the live
/// state.
pub open spec fn announces(events: Seq<Event>, name: Seq<char>, transition: bool) -> bool {
    let k = if transition {
        3int
    } else {
        2int
    };
    &&& events.len() >= k
    &&& events[events.len() - k] matches Event::CommandApplied { command, .. } && command@ == name
    &&& transition ==> events[events.len() - 2] is TransitionStarted
    &&& events.last() is LiveChanged
}

} // verus!
