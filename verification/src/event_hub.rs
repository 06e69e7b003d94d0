//! Bounded ring of control events. Publishing never waits: when the ring is
//! full the oldest event goes, and a subscriber that falls behind the ring
//! is told how many events it missed.

use std::collections::VecDeque;

use vstd::prelude::*;

use crate::clock::unix_ms;
use crate::event::{copy_event, spec_event_kind, spec_meta, with_sequence, EnvelopeMeta, Event};
use crate::text::owned;

verus! {

/// How many events a hub keeps by default.
pub const DEFAULT_CAPACITY: usize = 1024;

/// The smallest ring a hub keeps.
pub const MIN_CAPACITY: usize = 8;

pub struct EventHub {
    capacity: usize,
    next_sequence: u64,
    dropped: u64,
    events: VecDeque<Event>,
}

/// The ring after publishing: the oldest event goes when the ring is full,
/// and the new one is last.
pub open spec fn ring_after(events: Seq<Event>, capacity: usize, e: Event) -> Seq<Event> {
    if events.len() >= capacity {
        events.drop_first().push(e)
    } else {
        events.push(e)
    }
}

/// The ring after publishing each of `added` in turn.
pub open spec fn ring_extend(events: Seq<Event>, capacity: usize, added: Seq<Event>) -> Seq<Event>
    decreases added.len(),
{
    if added.len() == 0 {
        events
    } else {
        ring_after(ring_extend(events, capacity, added.drop_last()), capacity, added.last())
    }
}

/// The subscriber asking for events after `after` lags behind the ring: the
/// oldest kept event is past the next one it expects.
pub open spec fn lags(events: Seq<Event>, after: u64) -> bool {
    events.len() > 0 && after + 1 < spec_meta(events[0]).sequence
}

pub open spec fn newer_than(after: u64) -> spec_fn(Event) -> bool {
    |e: Event| spec_meta(e).sequence > after
}

/// `out` lists events of the same variants and envelopes as `kept`, in order.
pub open spec fn relays(out: Seq<Event>, kept: Seq<Event>) -> bool {
    &&& out.len() == kept.len()
    &&& forall|i: int|
        0 <= i < out.len() ==> spec_meta(#[trigger] out[i]) == spec_meta(kept[i]) && spec_event_kind(
            out[i],
        ) == spec_event_kind(kept[i])
}

impl EventHub {
    #[verifier::type_invariant]
    spec fn bounded(self) -> bool {
        &&& self.capacity >= MIN_CAPACITY
        &&& self.events@.len() <= self.capacity
    }

    pub closed spec fn spec_capacity(self) -> usize {
        self.capacity
    }

    pub closed spec fn spec_next_sequence(self) -> u64 {
        self.next_sequence
    }

    pub closed spec fn spec_dropped(self) -> u64 {
        self.dropped
    }

    /// The events kept, oldest first.
    pub closed spec fn retained(self) -> Seq<Event> {
        self.events@
    }

    /// An empty hub keeping `capacity` events, but never fewer than eight.
    pub fn new(capacity: usize) -> (r: Self)
        ensures
            r.spec_capacity() == if capacity < MIN_CAPACITY {
                MIN_CAPACITY
            } else {
                capacity
            },
            r.spec_next_sequence() == 1,
            r.spec_dropped() == 0,
            r.retained().len() == 0,
    {
        let capacity = if capacity < MIN_CAPACITY {
            MIN_CAPACITY
        } else {
            capacity
        };
        EventHub { capacity, next_sequence: 1, dropped: 0, events: VecDeque::new() }
    }

    /// The number of events kept at most.
    pub fn capacity(&self) -> (r: usize)
        ensures
            r == self.spec_capacity(),
            r >= MIN_CAPACITY,
            self.retained().len() <= r,
    {
        proof {
            use_type_invariant(self);
        }
        self.capacity
    }

    /// The sequence number of the last event published (0 before any).
    pub fn next_sequence(&self) -> (r: u64)
        ensures
            r == if self.spec_next_sequence() == 0 {
                0
            } else {
                (self.spec_next_sequence() - 1) as u64
            },
    {
        self.next_sequence.saturating_sub(1)
    }

    /// How many events the ring has let go.
    pub fn dropped(&self) -> (r: u64)
        ensures
            r == self.spec_dropped(),
    {
        self.dropped
    }

    /// The envelope for the next event: its sequence number, the session
    /// revision and request it answers, and the time now.
    pub fn meta(&self, session_revision: u64, request_id: &str) -> (r: EnvelopeMeta)
        ensures
            r.sequence == self.spec_next_sequence(),
            r.session_revision == session_revision,
            r.request_id@ == request_id@,
    {
        EnvelopeMeta {
            sequence: self.next_sequence,
            session_revision,
            unix_ms: unix_ms(),
            request_id: owned(request_id),
        }
    }

    /// Stamps the event with the next sequence number and keeps it, letting
    /// the oldest event go when the ring is full. The count of events let go
    /// stops at its largest value.
    pub fn publish(&mut self, event: Event)
        ensures
            final(self).spec_capacity() == old(self).spec_capacity(),
            final(self).spec_next_sequence() == if old(self).spec_next_sequence() == u64::MAX {
                u64::MAX
            } else {
                (old(self).spec_next_sequence() + 1) as u64
            },
            final(self).retained() == ring_after(
                old(self).retained(),
                old(self).spec_capacity(),
                with_sequence(event, old(self).spec_next_sequence()),
            ),
            final(self).spec_dropped() == if old(self).retained().len() >= old(self).spec_capacity()
                && old(self).spec_dropped() < u64::MAX {
                (old(self).spec_dropped() + 1) as u64
            } else {
                old(self).spec_dropped()
            },
            final(self).retained().len() <= final(self).spec_capacity(),
            final(self).retained().len() > 0,
            final(self).retained().len() >= old(self).retained().len(),
            final(self).retained().len() >= MIN_CAPACITY || final(self).retained().len()
                == old(self).retained().len() + 1,
            final(self).retained().last() == with_sequence(event, old(self).spec_next_sequence()),
            forall|j: int|
                1 <= j < MIN_CAPACITY && j <= old(self).retained().len() ==> #[trigger] final(self).retained()[final(self).retained().len() - 1 - j]
                    == old(self).retained()[old(self).retained().len() - j],
    {
        proof {
            use_type_invariant(&*self);
        }
        let sequence = self.next_sequence;
        self.next_sequence = self.next_sequence.saturating_add(1);
        let event = event.with_sequence(sequence);
        let mut events: VecDeque<Event> = VecDeque::new();
        std::mem::swap(&mut events, &mut self.events);
        if events.len() >= self.capacity {
            let _ = events.pop_front();
            self.dropped = self.dropped.saturating_add(1);
        }
        events.push_back(event);
        self.events = events;
        proof {
            let o = old(self).events@;
            let n = self.events@;
            assert forall|j: int| 1 <= j < MIN_CAPACITY && j <= o.len() implies #[trigger] n[n.len() - 1 - j]
                == o[o.len() - j] by {
                if o.len() >= old(self).capacity {
                    assert(n == o.drop_first().push(n.last()));
                } else {
                    assert(n == o.push(n.last()));
                }
            }
        }
    }

    /// Events with a sequence number after `after`, oldest first. When the
    /// subscriber has lagged past the ring, a `Lag` event with the number of
    /// events it missed comes first.
    pub fn after(&self, after: u64) -> (r: Vec<Event>)
        requires
            after < u64::MAX,
        ensures
            ({
                let kept = self.retained().filter(newer_than(after));
                if lags(self.retained(), after) {
                    &&& r@.len() > 0
                    &&& r@[0] matches Event::Lag { meta, missed } && meta.sequence == after
                        && meta.session_revision == 0 && meta.request_id@.len() == 0 && missed
                        == spec_meta(self.retained()[0]).sequence - (after + 1)
                    &&& relays(r@.drop_first(), kept)
                } else {
                    relays(r@, kept)
                }
            }),
    {
        let mut out: Vec<Event> = Vec::new();
        if self.events.len() > 0 {
            let oldest = self.events[0].meta().sequence;
            if after + 1 < oldest {
                out.push(
                    Event::Lag {
                        meta: EnvelopeMeta {
                            sequence: after,
                            session_revision: 0,
                            unix_ms: unix_ms(),
                            request_id: String::new(),
                        },
                        missed: oldest - (after + 1),
                    },
                );
            }
        }
        let ghost start: int = out@.len() as int;
        let ghost events = self.events@;
        let mut i: usize = 0;
        while i < self.events.len()
            invariant
                i <= events.len(),
                events == self.events@,
                start == out@.len() - events.take(i as int).filter(newer_than(after)).len(),
                start == if lags(events, after) {
                    1int
                } else {
                    0int
                },
                start == 1 ==> (out@[0] matches Event::Lag { meta, missed } && meta.sequence == after
                    && meta.session_revision == 0 && meta.request_id@.len() == 0 && missed
                    == spec_meta(events[0]).sequence - (after + 1)),
                relays(out@.skip(start), events.take(i as int).filter(newer_than(after))),
            decreases events.len() - i,
        {
            let e = &self.events[i];
            proof {
                assert(events.take(i + 1) =~= events.take(i as int).push(events[i as int]));
                events.take(i as int).lemma_filter_push(events[i as int], newer_than(after));
            }
            if e.meta().sequence > after {
                let ghost before = out@;
                out.push(copy_event(e));
                proof {
                    let kept0 = events.take(i as int).filter(newer_than(after));
                    let kept1 = events.take(i + 1).filter(newer_than(after));
                    assert(kept1 == kept0.push(events[i as int]));
                    assert(out@.skip(start) =~= before.skip(start).push(out@.last()));
                    assert forall|k: int| 0 <= k < out@.skip(start).len() implies spec_meta(
                        #[trigger] out@.skip(start)[k],
                    ) == spec_meta(kept1[k]) && spec_event_kind(out@.skip(start)[k])
                        == spec_event_kind(kept1[k]) by {
                        if k < kept0.len() {
                            assert(out@.skip(start)[k] == before.skip(start)[k]);
                        }
                    }
                }
            }
            i = i + 1;
        }
        proof {
            assert(events.take(i as int) =~= events);
            if start == 1 {
                assert(out@.skip(1) =~= out@.drop_first());
            } else {
                assert(out@.skip(0) =~= out@);
            }
        }
        out
    }
}

/// The kept events carry ascending sequence numbers, all below `next`.
pub open spec fn numbered_below(events: Seq<Event>, next: u64) -> bool {
    &&& forall|i: int, j: int|
        0 <= i < j < events.len() ==> spec_meta(#[trigger] events[i]).sequence < spec_meta(
            #[trigger] events[j],
        ).sequence
    &&& forall|i: int| 0 <= i < events.len() ==> spec_meta(#[trigger] events[i]).sequence < next
}

/// Publishing keeps the ring in sequence order: the new event is numbered
/// after every event kept, as long as the counter has not reached its end.
pub proof fn lemma_publish_keeps_order(events: Seq<Event>, capacity: usize, e: Event, next: u64)
    requires
        numbered_below(events, next),
        next < u64::MAX,
        0 < capacity,
        events.len() <= capacity,
    ensures
        numbered_below(ring_after(events, capacity, with_sequence(e, next)), (next + 1) as u64),
        spec_meta(ring_after(events, capacity, with_sequence(e, next)).last()).sequence == next,
{
    let s = with_sequence(e, next);
    assert(spec_meta(s).sequence == next);
    let r = ring_after(events, capacity, s);
    let base = if events.len() >= capacity {
        events.drop_first()
    } else {
        events
    };
    assert(numbered_below(base, next)) by {
        if events.len() >= capacity {
            assert forall|i: int, j: int| 0 <= i < j < base.len() implies spec_meta(
                #[trigger] base[i],
            ).sequence < spec_meta(#[trigger] base[j]).sequence by {
                assert(base[i] == events[i + 1] && base[j] == events[j + 1]);
            }
            assert forall|i: int| 0 <= i < base.len() implies spec_meta(#[trigger] base[i]).sequence
                < next by {
                assert(base[i] == events[i + 1]);
            }
        }
    }
    assert(r == base.push(s));
    assert forall|i: int, j: int| 0 <= i < j < r.len() implies spec_meta(#[trigger] r[i]).sequence
        < spec_meta(#[trigger] r[j]).sequence by {
        assert(r[i] == base[i]);
        if j < base.len() {
            assert(r[j] == base[j]);
        }
    }
    assert forall|i: int| 0 <= i < r.len() implies spec_meta(#[trigger] r[i]).sequence < next + 1 by {
        if i < base.len() {
            assert(r[i] == base[i]);
        }
    }
}

impl Default for EventHub {
    /// A hub keeping `DEFAULT_CAPACITY` events.
    fn default() -> (r: Self)
        ensures
            r.spec_capacity() == DEFAULT_CAPACITY,
            r.spec_next_sequence() == 1,
            r.spec_dropped() == 0,
            r.retained().len() == 0,
    {
        EventHub::new(DEFAULT_CAPACITY)
    }
}

} // verus!
