use std::io;
use std::sync::Arc;

use sgx_selector::error::Error;
use sgx_selector::event::{Event, EventKind, Events};
use sgx_selector::id::IdCounter;
use sgx_selector::interest::{Interest, Token};
use sgx_selector::listener::TcpListener;
use sgx_selector::selector::{Selector, SelectorSharedInner};
use sgx_selector::state::State;

type TestListener = TcpListener<u32, &'static str, &'static str>;

struct Fixture {
    selector: Selector<(), &'static str>,
    inner: SelectorSharedInner,
    ids: IdCounter,
    listener: TestListener,
}

fn setup() -> Fixture {
    let selector = Selector::new(&mut IdCounter::new(), (), "cell").unwrap();
    Fixture {
        selector,
        inner: SelectorSharedInner::new(),
        ids: IdCounter::new(),
        listener: TcpListener::from_std(31),
    }
}

impl Fixture {
    fn register(&mut self, token: usize, interest: Interest) -> Result<bool, Error> {
        self.listener
            .register(&self.selector, &mut self.inner, &mut self.ids, Token(token), interest)
            .map(|request| request.is_some())
    }

    fn poll(&mut self) -> Events {
        let mut events: Events = Vec::with_capacity(16);
        self.selector.select(&mut self.inner, &mut events).unwrap();
        events
    }

    fn complete(&mut self, result: io::Result<&'static str>) -> bool {
        self.listener.accept_completed(&mut self.inner, result)
    }
}

fn message<T>(result: Result<T, Error>) -> &'static str {
    match result {
        Err(Error::Other(message)) => message,
        _ => panic!("expected another error"),
    }
}

fn would_block(listener: &mut TestListener) -> bool {
    matches!(listener.accept(), (Err(Error::WouldBlock), None))
}

#[test]
fn unregistered_listener_never_accepts() {
    let mut f = setup();
    assert!(would_block(&mut f.listener));
    assert!(f.listener.accept_state().is_new());
    assert!(f.listener.provider().is_none());
    assert!(f.listener.schedule_accept().is_none());
}

#[test]
fn registering_requests_an_accept() {
    let mut f = setup();
    let request = f
        .listener
        .register(&f.selector, &mut f.inner, &mut f.ids, Token(4), Interest::READABLE)
        .unwrap()
        .unwrap();
    assert_eq!(request.fd, 31);
    assert!(Arc::ptr_eq(request.provider.shared_inner(), f.selector.shared_inner()));
    assert!(f.listener.accept_state().is_pending());
    assert!(f.listener.is_registered());
    assert!(f.listener.schedule_accept().is_none());
    assert!(Arc::ptr_eq(
        f.listener.provider().unwrap().shared_inner(),
        f.selector.shared_inner()
    ));
}

#[test]
fn connection_is_accepted_once() {
    let mut f = setup();
    assert!(f.register(4, Interest::READABLE).unwrap());
    f.listener.accept_submitted(1);
    assert!(would_block(&mut f.listener));
    assert!(f.complete(Ok("stream")));
    assert!(f.listener.accept_state().is_ready());
    assert_eq!(f.poll(), [Event::new(EventKind::Readable, Token(4))]);
    let (result, request) = f.listener.accept();
    assert_eq!(result.unwrap(), "stream");
    assert_eq!(request.unwrap().fd, 31);
    assert!(would_block(&mut f.listener));
}

#[test]
fn failure_is_reported_whatever_the_interest() {
    let mut f = setup();
    f.register(4, Interest::WRITABLE).unwrap();
    assert!(f.complete(Err(io::ErrorKind::ConnectionAborted.into())));
    assert!(f.listener.accept_state().is_error());
    assert_eq!(f.poll(), [Event::new(EventKind::ReadError, Token(4))]);
    let (result, request) = f.listener.accept();
    match result {
        Err(Error::Io(error)) => assert_eq!(error.kind(), io::ErrorKind::ConnectionAborted),
        _ => panic!("expected the error of the host"),
    }
    assert!(request.is_some());
}

#[test]
fn connection_is_not_reported_to_writers() {
    let mut f = setup();
    f.register(4, Interest::WRITABLE).unwrap();
    assert!(!f.complete(Ok("stream")));
    assert!(f.poll().is_empty());
}

#[test]
fn second_registration_is_refused() {
    let mut f = setup();
    f.register(4, Interest::READABLE).unwrap();
    assert_eq!(
        message(f.register(5, Interest::WRITABLE)),
        "I/O source already registered with a `Registry`"
    );
    assert_eq!(f.ids.advance(), 2);
    f.complete(Ok("stream"));
    assert_eq!(f.poll(), [Event::new(EventKind::Readable, Token(4))]);
}

#[test]
fn unregistered_listener_refuses_changes() {
    let mut f = setup();
    let expected = "I/O source not registered with `Registry`";
    assert_eq!(
        message(f.listener.reregister(&mut f.inner, Token(1), Interest::READABLE)),
        expected
    );
    assert_eq!(message(f.listener.deregister(&mut f.inner)), expected);
    assert!(!f.listener.is_registered());
}

#[test]
fn changed_registration_is_told_again() {
    let mut f = setup();
    f.register(4, Interest::WRITABLE).unwrap();
    f.complete(Ok("stream"));
    assert!(!f.listener.reregister(&mut f.inner, Token(4), Interest::WRITABLE).unwrap());
    assert!(!f.listener.reregister(&mut f.inner, Token(5), Interest::WRITABLE).unwrap());
    assert!(f.poll().is_empty());
    assert!(f.listener.reregister(&mut f.inner, Token(5), Interest::READABLE).unwrap());
    assert_eq!(f.poll(), [Event::new(EventKind::Readable, Token(5))]);
    assert!(!f.listener.reregister(&mut f.inner, Token(5), Interest::READABLE).unwrap());
    assert!(f.poll().is_empty());
}

#[test]
fn changed_registration_is_told_of_a_failure_again() {
    let mut f = setup();
    f.register(4, Interest::READABLE).unwrap();
    f.complete(Err(io::ErrorKind::Other.into()));
    f.poll();
    assert!(f.listener.reregister(&mut f.inner, Token(9), Interest::WRITABLE).unwrap());
    assert_eq!(f.poll(), [Event::new(EventKind::ReadError, Token(9))]);
}

#[test]
fn pending_accept_is_not_told_on_change() {
    let mut f = setup();
    f.register(4, Interest::READABLE).unwrap();
    assert!(!f.listener.reregister(&mut f.inner, Token(9), Interest::READABLE).unwrap());
    assert!(f.poll().is_empty());
    f.complete(Ok("stream"));
    assert_eq!(f.poll(), [Event::new(EventKind::Readable, Token(9))]);
}

#[test]
fn deregistered_listener_keeps_its_call() {
    let mut f = setup();
    f.register(4, Interest::READABLE).unwrap();
    f.listener.deregister(&mut f.inner).unwrap();
    assert!(!f.listener.is_registered());
    assert!(!f.complete(Ok("stream")));
    assert!(f.poll().is_empty());
    // The connection is still there for the next registration.
    assert!(!f.register(6, Interest::READABLE).unwrap());
    assert_eq!(f.listener.accept().0.unwrap(), "stream");
}

#[test]
fn closing_returns_the_cancel_handle() {
    let mut f = setup();
    f.register(4, Interest::READABLE).unwrap();
    f.listener.accept_submitted(55);
    assert_eq!(f.listener.close(&mut f.inner), Some(55));
    assert_eq!(f.listener.close(&mut f.inner), None);
    assert!(f.listener.accept_state().is_pending());
    assert!(!f.complete(Ok("stream")));
    assert!(f.poll().is_empty());
}

#[test]
fn closing_without_a_call_cancels_nothing() {
    let mut f = setup();
    assert_eq!(f.listener.close(&mut f.inner), None);
    f.register(4, Interest::READABLE).unwrap();
    f.listener.accept_submitted(55);
    f.complete(Ok("stream"));
    assert_eq!(f.listener.close(&mut f.inner), None);
    assert!(f.listener.accept_state().is_ready());
    assert!(f.poll().is_empty());
}

#[test]
fn results_become_states() {
    let ready: State<(), u8, u16> = State::from(Ok(3));
    assert!(ready.is_ready() && !ready.is_error() && !ready.is_new() && !ready.is_pending());
    let failed: State<(), u8, u16> = State::from(Err(io::ErrorKind::Other.into()));
    assert!(failed.is_error() && !failed.is_ready());
    assert!(State::<(), u8, u16>::Pending(1).is_pending());
    assert!(State::<(), u8, u16>::New(()).is_new());
}
