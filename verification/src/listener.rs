//! A listening socket that keeps an accept call in flight with the host, so that
//! a connection is there when the caller asks for it.

use std::sync::Arc;

use vstd::prelude::*;

use crate::error::Error;
use crate::event::EventKind;
use crate::id::{successor, IdCounter, RegistrationId};
use crate::interest::{Interest, Token};
use crate::selector::{
    Provider, Registration, RegistrationView, Selector, SelectorSharedInner, SharedView,
};
use crate::state::{finished, State};

verus! {

/// A descriptor of the host.
pub type Fd = u64;

/// A listener over handles `C` that cancel a call, accepted streams `T`, and the
/// cells `S` of selectors.
pub struct TcpListener<C, T, S> {
    fd: Fd,
    accept_state: State<(), Option<C>, T>,
    registration: Option<Registration<S>>,
    provider: Option<Provider<S>>,
}

/// An accept call that has to be submitted through `provider`.
pub struct AcceptRequest<S> {
    pub provider: Provider<S>,
    pub fd: Fd,
}

/// A listener as its contracts see it.
pub struct ListenerView<C, T, S> {
    pub fd: Fd,
    pub accept_state: State<(), Option<C>, T>,
    pub registration: Option<RegistrationView<S>>,
    pub provider: Option<Arc<S>>,
}

impl<C, T, S> ListenerView<C, T, S> {
    /// No accept call was made since the last result was fetched, and one can be.
    pub open spec fn wants_accept(self) -> bool {
        self.provider is Some && self.accept_state is New
    }

    /// The listener once the call that it wants is in flight.
    pub open spec fn scheduled(self) -> ListenerView<C, T, S> {
        if self.wants_accept() {
            ListenerView { accept_state: State::Pending(None), ..self }
        } else {
            self
        }
    }

    /// The listener once its result has been fetched.
    pub open spec fn fetched(self) -> ListenerView<C, T, S> {
        if self.accept_state is Pending {
            self
        } else {
            ListenerView { accept_state: State::New(()), ..self }
        }
    }

    /// A call is requested exactly if the listener wants one: on its descriptor,
    /// through its provider.
    pub open spec fn requested(self, request: Option<AcceptRequest<S>>) -> bool {
        match request {
            Some(request) => {
                &&& self.wants_accept()
                &&& request.fd == self.fd
                &&& request.provider@ == self.provider->0
            },
            None => !self.wants_accept(),
        }
    }

    /// What a caller that asks for a connection gets.
    pub open spec fn accept_result(self) -> Result<T, Error> {
        match self.accept_state {
            State::Ready(stream) => Ok(stream),
            State::Error(error) => Err(Error::Io(error)),
            _ => Err(Error::WouldBlock),
        }
    }

    /// A listener that is registered has the provider of the same selector; and once
    /// it has a provider, an accept call is in flight or its result waits to be
    /// fetched.
    pub open spec fn wf(self) -> bool {
        &&& self.registration is Some ==> self.provider == Some(self.registration->0.shared_inner)
        &&& self.provider is Some <==> !(self.accept_state is New)
    }

    /// The listener once its call has ended with this result.
    pub open spec fn completed(self, result: Result<T, std::io::Error>) -> ListenerView<C, T, S> {
        ListenerView { accept_state: finished(result), ..self }
    }

    /// The listener once its registration has ended.
    pub open spec fn deregistered(self) -> ListenerView<C, T, S> {
        ListenerView { registration: None, ..self }
    }

    /// Someone is registered to hear of events of this kind.
    pub open spec fn announces(self, kind: EventKind) -> bool {
        self.registration is Some && kind.wanted_by(self.registration->0.interest)
    }

    /// The shared state after the listener reported an event of this kind.
    pub open spec fn pushed(self, inner: SharedView, kind: EventKind) -> SharedView {
        match self.registration {
            Some(registration) => registration.pushed(inner, kind),
            None => inner,
        }
    }

    /// The kind of event that tells of the result that waits to be fetched.
    pub open spec fn unfetched_kind(self) -> Option<EventKind> {
        match self.accept_state {
            State::Ready(_) => Some(EventKind::Readable),
            State::Error(_) => Some(EventKind::ReadError),
            _ => None,
        }
    }

    /// The shared state without the listener's registration.
    pub open spec fn released(self, inner: SharedView) -> SharedView {
        match self.registration {
            Some(registration) => inner.without(registration.id),
            None => inner,
        }
    }
}

/// The kind of event that tells of the end of an accept call.
pub open spec fn completion_kind<T>(result: Result<T, std::io::Error>) -> EventKind {
    if result is Err {
        EventKind::ReadError
    } else {
        EventKind::Readable
    }
}

impl<C, T, S> View for TcpListener<C, T, S> {
    type V = ListenerView<C, T, S>;

    closed spec fn view(&self) -> ListenerView<C, T, S> {
        ListenerView {
            fd: self.fd,
            accept_state: self.accept_state,
            registration: match self.registration {
                Some(registration) => Some(registration@),
                None => None,
            },
            provider: match self.provider {
                Some(provider) => Some(provider@),
                None => None,
            },
        }
    }
}

impl<C, T, S> TcpListener<C, T, S> {
    /// A listener over the descriptor of a bound socket.
    pub fn from_std(fd: Fd) -> (listener: TcpListener<C, T, S>)
        ensures
            listener@ == (ListenerView::<C, T, S> {
                fd,
                accept_state: State::New(()),
                registration: None,
                provider: None,
            }),
            listener@.wf(),
    {
        TcpListener { fd, accept_state: State::New(()), registration: None, provider: None }
    }

    /// Fetches a connection, if the host has accepted one.  The second value is
    /// the call that has to be submitted for the next one.
    pub fn accept(&mut self) -> (ret: (Result<T, Error>, Option<AcceptRequest<S>>))
        ensures
            ret.0 == old(self)@.accept_result(),
            old(self)@.fetched().requested(ret.1),
            final(self)@ == old(self)@.fetched().scheduled(),
            final(self)@.fd == old(self)@.fd,
            final(self)@.registration == old(self)@.registration,
            final(self)@.provider == old(self)@.provider,
            old(self)@.accept_state is Pending ==> final(self)@.accept_state
                == old(self)@.accept_state,
            !(old(self)@.accept_state is Pending) ==> final(self)@.accept_state == if old(
                self,
            )@.provider is Some {
                State::<(), Option<C>, T>::Pending(None)
            } else {
                State::New(())
            },
            ret.1 is Some <==> old(self)@.provider is Some && !(old(self)@.accept_state is Pending),
            ret.1 matches Some(request) ==> request.fd == old(self)@.fd && Some(request.provider@)
                == old(self)@.provider,
            old(self)@.accept_state matches State::Ready(stream) ==> ret.0 == Ok::<T, Error>(
                stream,
            ),
            old(self)@.accept_state matches State::Error(error) ==> ret.0 == Err::<T, Error>(
                Error::Io(error),
            ),
            old(self)@.accept_state is New || old(self)@.accept_state is Pending ==> ret.0
                == Err::<T, Error>(Error::WouldBlock),
            old(self)@.wf() ==> final(self)@.wf(),
    {
        let mut state: State<(), Option<C>, T> = State::New(());
        std::mem::swap(&mut self.accept_state, &mut state);
        let result = match state {
            State::New(()) => Err(Error::WouldBlock),
            State::Pending(cancel_handle) => {
                self.accept_state = State::Pending(cancel_handle);
                return (Err(Error::WouldBlock), None);
            },
            State::Ready(stream) => Ok(stream),
            State::Error(error) => Err(Error::Io(error)),
        };
        (result, self.schedule_accept())
    }

    /// Asks for an accept call, if none is in flight, no result waits to be
    /// fetched, and there is a provider to submit it through.
    pub fn schedule_accept(&mut self) -> (request: Option<AcceptRequest<S>>)
        ensures
            old(self)@.requested(request),
            final(self)@ == old(self)@.scheduled(),
            final(self)@.fd == old(self)@.fd,
            final(self)@.registration == old(self)@.registration,
            final(self)@.provider == old(self)@.provider,
            request is Some <==> old(self)@.provider is Some && old(self)@.accept_state is New,
            request matches Some(request) ==> request.fd == old(self)@.fd && Some(
                request.provider@,
            ) == old(self)@.provider,
            final(self)@.accept_state == if request is Some {
                State::<(), Option<C>, T>::Pending(None)
            } else {
                old(self)@.accept_state
            },
    {
        let provider = match &self.provider {
            Some(provider) => provider.handle(),
            None => return None,
        };
        match self.accept_state {
            State::New(()) => {},
            _ => return None,
        }
        self.accept_state = State::Pending(None);
        Some(AcceptRequest { provider, fd: self.fd })
    }

    /// Keeps the handle that cancels the call in flight.
    pub fn accept_submitted(&mut self, cancel_handle: C)
        requires
            old(self)@.accept_state is Pending,
        ensures
            final(self)@ == (ListenerView {
                accept_state: State::Pending(Some(cancel_handle)),
                ..old(self)@
            }),
            old(self)@.wf() ==> final(self)@.wf(),
    {
        self.accept_state = State::Pending(Some(cancel_handle));
    }

    /// Takes the result of the call in flight and reports it.  Tells whether a
    /// poll that waits has to be woken.
    pub fn accept_completed(
        &mut self,
        inner: &mut SelectorSharedInner,
        result: Result<T, std::io::Error>,
    ) -> (wake: bool)
        requires
            old(self)@.accept_state is Pending,
        ensures
            final(self)@ == old(self)@.completed(result),
            old(self)@.wf() ==> final(self)@.wf(),
            wake == old(self)@.announces(completion_kind(result)),
            final(inner)@ == old(self)@.pushed(old(inner)@, completion_kind(result)),
            final(self)@.fd == old(self)@.fd,
            final(self)@.registration == old(self)@.registration,
            final(self)@.provider == old(self)@.provider,
            final(self)@.accept_state == match result {
                Ok(stream) => State::<(), Option<C>, T>::Ready(stream),
                Err(error) => State::Error(error),
            },
            wake <==> old(self)@.registration is Some && (result is Err || old(
                self,
            )@.registration->0.interest != Interest::Writable),
            final(inner)@.queue == if wake && old(inner)@.connected {
                old(inner)@.queue.push(
                    (
                        old(self)@.registration->0.id,
                        if result is Err {
                            EventKind::ReadError
                        } else {
                            EventKind::Readable
                        },
                    ),
                )
            } else {
                old(inner)@.queue
            },
            final(inner)@.registrations == old(inner)@.registrations,
            final(inner)@.connected == old(inner)@.connected,
    {
        self.accept_state = State::from(result);
        let kind = if self.accept_state.is_error() {
            EventKind::ReadError
        } else {
            EventKind::Readable
        };
        self.push_event(inner, kind)
    }

    /// Reports an event to whoever is registered.
    pub fn push_event(&self, inner: &mut SelectorSharedInner, kind: EventKind) -> (wake: bool)
        ensures
            wake == self@.announces(kind),
            final(inner)@ == self@.pushed(old(inner)@, kind),
            wake <==> self@.registration is Some && kind.wanted_by(self@.registration->0.interest),
            final(inner)@.queue == if wake && old(inner)@.connected {
                old(inner)@.queue.push((self@.registration->0.id, kind))
            } else {
                old(inner)@.queue
            },
            final(inner)@.registrations == old(inner)@.registrations,
            final(inner)@.connected == old(inner)@.connected,
    {
        match &self.registration {
            Some(registration) => registration.push_event(inner, kind),
            None => false,
        }
    }

    /// Registers with a selector, whose shared state `inner` is.  The value is the
    /// accept call that has to be submitted, if any.
    pub fn register<H>(
        &mut self,
        selector: &Selector<H, S>,
        inner: &mut SelectorSharedInner,
        ids: &mut IdCounter,
        token: Token,
        interest: Interest,
    ) -> (ret: Result<Option<AcceptRequest<S>>, Error>)
        ensures
            ret is Ok == (old(self)@.registration is None),
            ret matches Err(error) ==> {
                &&& error matches Error::Other(message)
                &&& message@ == "I/O source already registered with a `Registry`"@
                &&& final(self)@ == old(self)@
                &&& final(inner)@ == old(inner)@
                &&& final(ids)@ == old(ids)@
            },
            ret matches Ok(request) ==> {
                let registered = ListenerView {
                    registration: Some(
                        RegistrationView {
                            id: RegistrationId(old(ids)@),
                            shared_inner: selector@.shared_inner,
                            token,
                            interest,
                        },
                    ),
                    provider: Some(selector@.shared_inner),
                    ..old(self)@
                };
                &&& registered.requested(request)
                &&& final(self)@ == registered.scheduled()
                &&& final(inner)@ == old(inner)@.with(
                    RegistrationId(old(ids)@),
                    (token, interest),
                )
                &&& final(ids)@ == successor(old(ids)@)
                &&& final(self)@.fd == old(self)@.fd
                &&& final(self)@.registration == registered.registration
                &&& final(self)@.provider == registered.provider
                &&& request is Some <==> old(self)@.accept_state is New
                &&& request matches Some(request) ==> request.fd == old(self)@.fd
                    && request.provider@ == selector@.shared_inner
                &&& final(self)@.accept_state == if request is Some {
                    State::<(), Option<C>, T>::Pending(None)
                } else {
                    old(self)@.accept_state
                }
                &&& final(inner)@.registrations == old(inner)@.registrations.insert(
                    old(ids)@,
                    (token, interest),
                )
                &&& final(inner)@.queue == old(inner)@.queue
                &&& final(inner)@.connected == old(inner)@.connected
            },
            old(self)@.wf() ==> final(self)@.wf(),
    {
        match &self.registration {
            Some(_) => return Err(
                Error::Other("I/O source already registered with a `Registry`"),
            ),
            None => {},
        }
        self.registration = Some(Registration::new(selector, inner, ids, token, interest));
        self.provider = Some(Provider::new(selector));
        Ok(self.schedule_accept())
    }

    /// Replaces token and interest of the registration, in the shared state
    /// `inner` of the selector that it was made with.  If that changes anything
    /// and a result waits to be fetched, it is reported again.  The value tells
    /// whether a poll that waits has to be woken.
    pub fn reregister(
        &mut self,
        inner: &mut SelectorSharedInner,
        token: Token,
        interest: Interest,
    ) -> (ret: Result<bool, Error>)
        ensures
            ret is Ok == (old(self)@.registration is Some),
            ret matches Err(error) ==> {
                &&& error matches Error::Other(message)
                &&& message@ == "I/O source not registered with `Registry`"@
                &&& final(self)@ == old(self)@
                &&& final(inner)@ == old(inner)@
            },
            ret matches Ok(wake) ==> {
                let registration = old(self)@.registration->0;
                let updated = registration.updated(old(inner)@, token, interest);
                let reported = registration.differs(token, interest)
                    && old(self)@.unfetched_kind() is Some;
                let kind = old(self)@.unfetched_kind()->0;
                &&& final(self)@ == (ListenerView {
                    registration: Some(registration.with_details(token, interest)),
                    ..old(self)@
                })
                &&& wake == (reported && kind.wanted_by(interest))
                &&& final(inner)@ == if reported {
                    final(self)@.pushed(updated, kind)
                } else {
                    updated
                }
            },
            ret matches Ok(wake) ==> {
                let registration = old(self)@.registration->0;
                let changed = registration.token != token || registration.interest != interest;
                &&& wake <==> changed && (old(self)@.accept_state is Error || (old(
                    self,
                )@.accept_state is Ready && interest != Interest::Writable))
                &&& final(inner)@.queue == if wake && old(inner)@.connected {
                    old(inner)@.queue.push(
                        (
                            registration.id,
                            if old(self)@.accept_state is Error {
                                EventKind::ReadError
                            } else {
                                EventKind::Readable
                            },
                        ),
                    )
                } else {
                    old(inner)@.queue
                }
                &&& final(inner)@.registrations == if changed {
                    old(inner)@.registrations.insert(registration.id.0, (token, interest))
                } else {
                    old(inner)@.registrations
                }
                &&& final(inner)@.connected == old(inner)@.connected
                &&& final(self)@.registration == Some(
                    RegistrationView { token, interest, ..registration },
                )
            },
            final(self)@.fd == old(self)@.fd,
            final(self)@.accept_state == old(self)@.accept_state,
            final(self)@.provider == old(self)@.provider,
            old(self)@.wf() ==> final(self)@.wf(),
    {
        let mut held: Option<Registration<S>> = None;
        std::mem::swap(&mut self.registration, &mut held);
        let changed: bool = match held {
            Some(mut registration) => {
                let changed: bool = registration.change_details(inner, token, interest);
                self.registration = Some(registration);
                changed
            },
            None => return Err(Error::Other("I/O source not registered with `Registry`")),
        };
        let mut wake: bool = false;
        if changed && self.accept_state.is_ready() {
            wake = self.push_event(inner, EventKind::Readable);
        }
        if changed && self.accept_state.is_error() {
            wake = self.push_event(inner, EventKind::ReadError);
        }
        Ok(wake)
    }

    /// Ends the registration, in the shared state `inner` of the selector that it
    /// was made with.  A call in flight goes on, and its result can still be
    /// fetched.
    pub fn deregister(&mut self, inner: &mut SelectorSharedInner) -> (ret: Result<(), Error>)
        ensures
            ret is Ok == (old(self)@.registration is Some),
            ret matches Err(error) ==> {
                &&& error matches Error::Other(message)
                &&& message@ == "I/O source not registered with `Registry`"@
            },
            final(self)@ == old(self)@.deregistered(),
            old(self)@.wf() ==> final(self)@.wf(),
            final(inner)@ == old(self)@.released(old(inner)@),
            final(self)@.registration is None,
            final(self)@.fd == old(self)@.fd,
            final(self)@.accept_state == old(self)@.accept_state,
            final(self)@.provider == old(self)@.provider,
            final(inner)@.registrations == match old(self)@.registration {
                Some(registration) => old(inner)@.registrations.remove(registration.id.0),
                None => old(inner)@.registrations,
            },
            final(inner)@.queue == old(inner)@.queue,
            final(inner)@.connected == old(inner)@.connected,
    {
        match &self.registration {
            Some(registration) => registration.unregister(inner),
            None => return Err(Error::Other("I/O source not registered with `Registry`")),
        }
        self.registration = None;
        Ok(())
    }

    /// Shuts the listener down: nobody hears of it any more.  The value is the
    /// handle by which to cancel the call in flight, if there is one.
    pub fn close(&mut self, inner: &mut SelectorSharedInner) -> (cancel: Option<C>)
        ensures
            cancel == match old(self)@.accept_state {
                State::Pending(cancel_handle) => cancel_handle,
                _ => None,
            },
            final(self)@ == (ListenerView {
                registration: None,
                accept_state: match old(self)@.accept_state {
                    State::Pending(_) => State::Pending(None),
                    state => state,
                },
                ..old(self)@
            }),
            final(inner)@ == old(self)@.released(old(inner)@),
            old(self)@.wf() ==> final(self)@.wf(),
            final(inner)@.registrations == match old(self)@.registration {
                Some(registration) => old(inner)@.registrations.remove(registration.id.0),
                None => old(inner)@.registrations,
            },
            final(inner)@.queue == old(inner)@.queue,
            final(inner)@.connected == old(inner)@.connected,
    {
        match &self.registration {
            Some(registration) => registration.unregister(inner),
            None => {},
        }
        self.registration = None;
        match &mut self.accept_state {
            State::Pending(cancel_handle) => cancel_handle.take(),
            _ => None,
        }
    }

    pub fn accept_state(&self) -> (state: &State<(), Option<C>, T>)
        ensures
            *state == self@.accept_state,
    {
        &self.accept_state
    }

    pub fn is_registered(&self) -> (yes: bool)
        ensures
            yes == (self@.registration is Some),
    {
        self.registration.is_some()
    }

    /// The provider of the selector that the listener was last registered with.
    pub fn provider(&self) -> (provider: Option<Provider<S>>)
        ensures
            match provider {
                Some(provider) => self@.provider == Some(provider@),
                None => self@.provider is None,
            },
    {
        match &self.provider {
            Some(provider) => Some(provider.handle()),
            None => None,
        }
    }
}

} // verus!
