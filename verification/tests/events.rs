use sgx_selector::event::{
    debug_details, is_aio, is_error, is_lio, is_priority, is_read_closed, is_readable, is_writable,
    is_write_closed, token, Event, EventKind,
};
use sgx_selector::interest::{Interest, Token};

const KINDS: [EventKind; 6] = [
    EventKind::Readable,
    EventKind::ReadClosed,
    EventKind::ReadError,
    EventKind::Writable,
    EventKind::WriteClosed,
    EventKind::WriteError,
];

fn answers(question: fn(&Event) -> bool) -> Vec<bool> {
    KINDS.iter().map(|kind| question(&Event::new(*kind, Token(1)))).collect()
}

#[test]
fn kinds_answer_questions() {
    assert_eq!(answers(is_readable), [true, true, true, false, false, false]);
    assert_eq!(answers(is_writable), [false, false, false, true, true, true]);
    assert_eq!(answers(is_error), [false, false, true, false, false, true]);
    assert_eq!(answers(is_read_closed), [false, true, false, false, false, false]);
    assert_eq!(answers(is_write_closed), [false, false, false, false, true, false]);
    assert_eq!(answers(is_priority), [false; 6]);
    assert_eq!(answers(is_aio), [false; 6]);
    assert_eq!(answers(is_lio), [false; 6]);
}

#[test]
fn event_keeps_its_token() {
    let event = Event::new(EventKind::Writable, Token(99));
    assert_eq!(token(&event), Token(99));
    assert_eq!(event.kind, EventKind::Writable);
}

#[test]
fn interest_selects_kinds() {
    let wanted = |interest: Interest| -> Vec<bool> {
        KINDS.iter().map(|kind| kind.matches_interest(&interest)).collect()
    };
    assert_eq!(wanted(Interest::READABLE), [true, true, true, false, false, true]);
    assert_eq!(wanted(Interest::WRITABLE), [false, false, true, true, true, true]);
    assert_eq!(wanted(Interest::READABLE.add(Interest::WRITABLE)), [true; 6]);
}

#[test]
fn interests_add_up() {
    let both = Interest::WRITABLE.add(Interest::READABLE);
    assert!(both.is_readable() && both.is_writable());
    assert_eq!(both.add(Interest::READABLE), both);
    assert_eq!(Interest::READABLE.add(Interest::READABLE), Interest::READABLE);
    assert!(!Interest::READABLE.is_writable());
    assert!(!Interest::WRITABLE.is_readable());
}

#[test]
fn debug_details_match_the_debug_format() {
    for kind in KINDS {
        for n in [0, 7, 10, 12345, usize::MAX] {
            let event = Event::new(kind, Token(n));
            assert_eq!(debug_details(&event, false), format!("{:?}", event));
            assert_eq!(debug_details(&event, true), format!("{:#?}", event));
        }
    }
}

#[test]
fn debug_details_of_one_event() {
    let event = Event::new(EventKind::Readable, Token(42));
    assert_eq!(debug_details(&event, false), "Event { kind: Readable, token: Token(42) }");
}
