use eiviz::command::{Command, Incoming};
use eiviz::event::{command_name, EnvelopeMeta, Event};
use eiviz::event_hub::EventHub;

#[test]
fn lag_is_signaled_when_ring_wraps() {
    let mut hub = EventHub::new(8);
    for _ in 0..20 {
        let meta = hub.meta(1, "r");
        hub.publish(Event::Ready { meta });
    }
    let events = hub.after(0);
    assert!(matches!(events.first(), Some(Event::Lag { missed, .. }) if *missed > 0));
}

#[test]
fn ring_keeps_newest_events_in_sequence_order() {
    let mut hub = EventHub::new(2);
    assert_eq!(hub.capacity(), 8);
    assert_eq!(hub.next_sequence(), 0);
    for n in 0..10u64 {
        let meta = hub.meta(n, "req");
        hub.publish(Event::TransitionStarted { meta, unit_id: n });
    }
    assert_eq!(hub.next_sequence(), 10);
    assert_eq!(hub.dropped(), 2);
    let events = hub.after(0);
    match &events[0] {
        Event::Lag { meta, missed } => {
            assert_eq!(meta.sequence, 0);
            assert_eq!(*missed, 2);
        }
        other => panic!("expected lag, got {}", other.kind_name()),
    }
    let sequences: Vec<u64> = events[1..].iter().map(|e| e.meta().sequence).collect();
    assert_eq!(sequences, vec![3, 4, 5, 6, 7, 8, 9, 10]);
    let caught_up = hub.after(8);
    assert_eq!(caught_up.len(), 2);
    assert!(matches!(caught_up[0], Event::TransitionStarted { unit_id: 8, .. }));
    assert!(hub.after(10).is_empty());
}

#[test]
fn envelope_carries_request_and_revision() {
    let hub = EventHub::default();
    let meta = hub.meta(42, "abc");
    assert_eq!(meta.sequence, 1);
    assert_eq!(meta.session_revision, 42);
    assert_eq!(meta.request_id, "abc");
    let e = Event::Shutdown { meta: EnvelopeMeta { sequence: 3, session_revision: 0, unix_ms: 0, request_id: String::new() } };
    assert_eq!(e.kind_name(), "Shutdown");
    assert_eq!(e.with_sequence(9).meta().sequence, 9);
}

#[test]
fn command_classes_and_names() {
    let cut = Command::Cut { unit_id: 1, swap: false, incoming: Incoming::Preview };
    assert!(cut.is_live() && !cut.is_session() && cut.requires_idempotency());
    assert_eq!(command_name(&cut), "Cut");
    let mix = Command::SetMix { unit_id: 1, value: 0x3f00_0000 };
    assert!(mix.is_live() && !mix.requires_idempotency());
    assert_eq!(command_name(&Command::Shutdown), "Shutdown");
    assert!(Command::Shutdown.requires_idempotency() && !Command::Shutdown.is_live());
}
