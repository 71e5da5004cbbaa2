use std::sync::Arc;
use std::time::Duration;

use sgx_selector::event::{Event, EventKind, Events};
use sgx_selector::id::{IdCounter, RegistrationId};
use sgx_selector::interest::{Interest, Token};
use sgx_selector::selector::{Provider, Registration, Selector, SelectorSharedInner};
use sgx_selector::waker::Waker;

type TestSelector = Selector<&'static str, &'static str>;

fn setup() -> (TestSelector, SelectorSharedInner, IdCounter) {
    let mut selector_ids = IdCounter::new();
    let selector = Selector::new(&mut selector_ids, "handler", "cell").unwrap();
    (selector, SelectorSharedInner::new(), IdCounter::new())
}

fn event(kind: EventKind, token: usize) -> Event {
    Event::new(kind, Token(token))
}

#[test]
fn ids_count_up_from_one() {
    let mut ids = IdCounter::new();
    assert_eq!(ids.advance(), 1);
    assert_eq!(RegistrationId::new(&mut ids), RegistrationId(2));
    assert_eq!(RegistrationId::new(&mut ids), RegistrationId(3));
}

#[test]
fn selectors_have_ids_and_handles() {
    let mut ids = IdCounter::new();
    let first: TestSelector = Selector::new(&mut ids, "h1", "c1").unwrap();
    let second: TestSelector = Selector::new(&mut ids, "h2", "c2").unwrap();
    assert_eq!(first.id(), 1);
    assert_eq!(second.id(), 2);
    let clone = second.try_clone().unwrap();
    assert_eq!(clone.id(), 2);
    assert!(Arc::ptr_eq(clone.shared_inner(), second.shared_inner()));
    assert!(Arc::ptr_eq(clone.callback_handler(), second.callback_handler()));
    assert_eq!(**clone.callback_handler(), "h2");
    let provider = Provider::new(&first);
    assert!(Arc::ptr_eq(provider.shared_inner(), first.shared_inner()));
    assert!(Arc::ptr_eq(provider.handle().shared_inner(), first.shared_inner()));
}

#[test]
fn events_reach_the_poll_in_order() {
    let (selector, mut inner, mut ids) = setup();
    let a = Registration::new(&selector, &mut inner, &mut ids, Token(10), Interest::READABLE);
    let b = Registration::new(&selector, &mut inner, &mut ids, Token(20), Interest::WRITABLE);
    assert!(a.push_event(&mut inner, EventKind::Readable));
    assert!(b.push_event(&mut inner, EventKind::Writable));
    assert!(!a.push_event(&mut inner, EventKind::Writable));
    assert!(!b.push_event(&mut inner, EventKind::ReadClosed));
    assert!(a.push_event(&mut inner, EventKind::WriteError));
    let mut events: Events = Vec::with_capacity(16);
    events.push(event(EventKind::Readable, 1));
    selector.select(&mut inner, &mut events).unwrap();
    assert_eq!(
        events,
        [
            event(EventKind::Readable, 10),
            event(EventKind::Writable, 20),
            event(EventKind::WriteError, 10),
        ]
    );
    selector.select(&mut inner, &mut events).unwrap();
    assert!(events.is_empty());
}

#[test]
fn filling_stops_at_the_limit() {
    let (selector, mut inner, mut ids) = setup();
    let a = Registration::new(&selector, &mut inner, &mut ids, Token(1), Interest::READABLE);
    for _ in 0..5 {
        a.push_event(&mut inner, EventKind::Readable);
    }
    let mut events: Events = Vec::new();
    inner.fill(&mut events, 2);
    assert_eq!(events.len(), 2);
    inner.fill(&mut events, 2);
    assert_eq!(events.len(), 2);
    inner.fill(&mut events, 1);
    assert_eq!(events.len(), 2);
    inner.fill(&mut events, 10);
    assert_eq!(events, [event(EventKind::Readable, 1); 5]);
}

#[test]
fn polls_together_hand_out_everything() {
    let (selector, mut inner, mut ids) = setup();
    let a = Registration::new(&selector, &mut inner, &mut ids, Token(5), Interest::READABLE);
    let gone = Registration::new(&selector, &mut inner, &mut ids, Token(6), Interest::READABLE);
    for _ in 0..40 {
        a.push_event(&mut inner, EventKind::Readable);
        gone.push_event(&mut inner, EventKind::Readable);
    }
    gone.unregister(&mut inner);
    let mut events: Events = Vec::with_capacity(3);
    let mut total: Events = Vec::new();
    while selector.poll_timeout(&inner, None).is_some() {
        selector.select(&mut inner, &mut events).unwrap();
        assert!(events.len() <= events.capacity());
        total.extend(events.iter());
    }
    assert_eq!(total, [event(EventKind::Readable, 5); 40]);
}

#[test]
fn buffer_without_room_takes_one_unwanted_message() {
    let (selector, mut inner, mut ids) = setup();
    let gone = Registration::new(&selector, &mut inner, &mut ids, Token(6), Interest::READABLE);
    gone.push_event(&mut inner, EventKind::Readable);
    gone.push_event(&mut inner, EventKind::Readable);
    gone.unregister(&mut inner);
    let mut events: Events = Vec::new();
    selector.select(&mut inner, &mut events).unwrap();
    assert!(events.is_empty());
    assert!(inner.deliver_next(&mut events));
    assert!(!inner.deliver_next(&mut events));
    assert!(events.is_empty());
}

#[test]
fn buffer_without_room_grows_for_a_wanted_message() {
    let (selector, mut inner, mut ids) = setup();
    let a = Registration::new(&selector, &mut inner, &mut ids, Token(6), Interest::READABLE);
    a.push_event(&mut inner, EventKind::Readable);
    let mut events: Events = Vec::new();
    selector.select(&mut inner, &mut events).unwrap();
    assert_eq!(events, [event(EventKind::Readable, 6)]);
}

#[test]
fn queued_events_shorten_the_wait() {
    let (selector, mut inner, mut ids) = setup();
    let wait = Some(Duration::from_secs(3));
    assert_eq!(selector.poll_timeout(&inner, wait), wait);
    assert_eq!(selector.poll_timeout(&inner, None), None);
    let a = Registration::new(&selector, &mut inner, &mut ids, Token(1), Interest::READABLE);
    a.push_event(&mut inner, EventKind::Readable);
    assert_eq!(selector.poll_timeout(&inner, wait), Some(Duration::from_nanos(0)));
    assert_eq!(selector.poll_timeout(&inner, None), Some(Duration::from_nanos(0)));
}

#[test]
fn changed_details_apply_to_queued_events() {
    let (selector, mut inner, mut ids) = setup();
    let mut a = Registration::new(&selector, &mut inner, &mut ids, Token(1), Interest::READABLE);
    assert!(!a.change_details(&mut inner, Token(1), Interest::READABLE));
    a.push_event(&mut inner, EventKind::Readable);
    a.push_event(&mut inner, EventKind::ReadError);
    assert!(a.change_details(&mut inner, Token(2), Interest::READABLE));
    assert!(a.change_details(&mut inner, Token(2), Interest::WRITABLE));
    assert!(!a.change_details(&mut inner, Token(2), Interest::WRITABLE));
    assert_eq!(a.token(), Token(2));
    let mut events: Events = Vec::with_capacity(4);
    selector.select(&mut inner, &mut events).unwrap();
    assert_eq!(events, [event(EventKind::ReadError, 2)]);
}

#[test]
fn ended_registration_leaves_others_alone() {
    let (selector, mut inner, mut ids) = setup();
    let a = Registration::new(&selector, &mut inner, &mut ids, Token(1), Interest::READABLE);
    let b = Registration::new(&selector, &mut inner, &mut ids, Token(2), Interest::READABLE);
    a.push_event(&mut inner, EventKind::Readable);
    b.push_event(&mut inner, EventKind::Readable);
    a.push_event(&mut inner, EventKind::ReadError);
    a.unregister(&mut inner);
    let mut events: Events = Vec::with_capacity(4);
    selector.select(&mut inner, &mut events).unwrap();
    assert_eq!(events, [event(EventKind::Readable, 2)]);
}

#[test]
fn registration_knows_its_provider() {
    let (selector, mut inner, mut ids) = setup();
    let a = Registration::new(&selector, &mut inner, &mut ids, Token(1), Interest::READABLE);
    assert!(Arc::ptr_eq(a.provider().shared_inner(), selector.shared_inner()));
}

#[test]
fn waker_makes_an_event() {
    let (selector, mut inner, mut ids) = setup();
    let waker = Waker::new(&selector, &mut inner, &mut ids, Token(77)).unwrap();
    assert_eq!(waker.token(), Token(77));
    let request = waker.wake().unwrap();
    assert_eq!((request.size, request.alignment), (0, 2));
    assert!(Arc::ptr_eq(request.provider.shared_inner(), selector.shared_inner()));
    assert!(Arc::ptr_eq(waker.provider().shared_inner(), selector.shared_inner()));
    assert!(waker.woken(&mut inner));
    let mut events: Events = Vec::with_capacity(4);
    selector.select(&mut inner, &mut events).unwrap();
    assert_eq!(events, [event(EventKind::Readable, 77)]);
    waker.woken(&mut inner);
    waker.close(&mut inner);
    selector.select(&mut inner, &mut events).unwrap();
    assert!(events.is_empty());
}

#[test]
fn refilling_goes_by_the_given_capacity() {
    let (selector, mut inner, mut ids) = setup();
    let a = Registration::new(&selector, &mut inner, &mut ids, Token(1), Interest::READABLE);
    let gone = Registration::new(&selector, &mut inner, &mut ids, Token(2), Interest::READABLE);
    for _ in 0..4 {
        a.push_event(&mut inner, EventKind::Readable);
    }
    gone.push_event(&mut inner, EventKind::Readable);
    gone.unregister(&mut inner);
    let mut events: Events = Vec::new();
    assert!(inner.refill(&mut events, 0));
    assert_eq!(events.len(), 1);
    assert!(!inner.refill(&mut events, 2));
    assert_eq!(events.len(), 2);
    assert!(!inner.refill(&mut events, 1));
    assert_eq!(events, [event(EventKind::Readable, 1)]);
    assert!(!inner.refill(&mut events, 0));
    assert!(events.is_empty());
    assert!(!inner.deliver_next(&mut events));
}

#[test]
fn capacity_is_at_least_what_the_buffer_held() {
    let (selector, mut inner, mut ids) = setup();
    let a = Registration::new(&selector, &mut inner, &mut ids, Token(1), Interest::READABLE);
    for _ in 0..2 {
        a.push_event(&mut inner, EventKind::Readable);
    }
    let mut events: Events = vec![event(EventKind::Writable, 8), event(EventKind::Writable, 9)];
    selector.select(&mut inner, &mut events).unwrap();
    assert_eq!(events, [event(EventKind::Readable, 1); 2]);
}

#[test]
fn room_for_the_wanted_events_is_enough() {
    let (selector, mut inner, mut ids) = setup();
    let a = Registration::new(&selector, &mut inner, &mut ids, Token(1), Interest::READABLE);
    let gone = Registration::new(&selector, &mut inner, &mut ids, Token(2), Interest::READABLE);
    gone.push_event(&mut inner, EventKind::Readable);
    a.push_event(&mut inner, EventKind::Readable);
    gone.push_event(&mut inner, EventKind::Readable);
    gone.unregister(&mut inner);
    let mut events: Events = Vec::new();
    inner.refill(&mut events, 1);
    assert_eq!(events, [event(EventKind::Readable, 1)]);
    // What is left is wanted by nobody.
    inner.refill(&mut events, 1);
    assert!(events.is_empty());
}

#[test]
fn events_are_discarded_after_the_last_handle() {
    let (selector, mut inner, mut ids) = setup();
    let a = Registration::new(&selector, &mut inner, &mut ids, Token(1), Interest::READABLE);
    a.push_event(&mut inner, EventKind::Readable);
    inner.disconnect();
    let mut events: Events = Vec::with_capacity(4);
    assert!(!inner.deliver_next(&mut events));
    // The report still asks for a wake-up, but queues nothing.
    assert!(a.push_event(&mut inner, EventKind::Readable));
    assert!(!inner.deliver_next(&mut events));
    assert!(events.is_empty());
    assert_eq!(selector.poll_timeout(&inner, None), None);
}
