//! A handle that makes a poll return from another thread.

use vstd::prelude::*;

use crate::error::Error;
use crate::event::EventKind;
use crate::id::{successor, IdCounter, RegistrationId};
use crate::interest::{Interest, Token};
use crate::selector::{
    Provider, Registration, RegistrationView, Selector, SelectorSharedInner,
};

verus! {

/// A registration that nothing but [`Waker::wake`] reports events for.
pub struct Waker<S>(Registration<S>);

/// A call to free a null buffer that has to be submitted through `provider`: the
/// host does nothing for it, and its callback makes the poll return.
pub struct FreeRequest<S> {
    pub provider: Provider<S>,
    pub size: usize,
    pub alignment: usize,
}

impl<S> View for Waker<S> {
    type V = RegistrationView<S>;

    closed spec fn view(&self) -> RegistrationView<S> {
        self.0@
    }
}

impl<S> Waker<S> {
    /// A waker is registered for what it reports.
    #[verifier::type_invariant]
    closed spec fn registered_for_reading(self) -> bool {
        self.0@.interest is Readable
    }

    /// A waker of the selector whose shared state `inner` is, registered under the
    /// next number of `ids`.
    pub fn new<H>(
        selector: &Selector<H, S>,
        inner: &mut SelectorSharedInner,
        ids: &mut IdCounter,
        token: Token,
    ) -> (waker: Result<Waker<S>, Error>)
        ensures
            waker is Ok,
            waker->Ok_0@ == (RegistrationView {
                id: RegistrationId(old(ids)@),
                shared_inner: selector@.shared_inner,
                token,
                interest: Interest::Readable,
            }),
            final(ids)@ == successor(old(ids)@),
            final(inner)@ == old(inner)@.with(waker->Ok_0@.id, (token, Interest::Readable)),
            final(inner)@.registrations == old(inner)@.registrations.insert(
                old(ids)@,
                (token, Interest::Readable),
            ),
            final(inner)@.queue == old(inner)@.queue,
            final(inner)@.connected == old(inner)@.connected,
    {
        Ok(Waker(Registration::new(selector, inner, ids, token, Interest::READABLE)))
    }

    /// Asks for a call whose callback is [`Waker::woken`].
    pub fn wake(&self) -> (request: Result<FreeRequest<S>, Error>)
        ensures
            request is Ok,
            request->Ok_0.provider@ == self@.shared_inner,
            request->Ok_0.size == 0,
            request->Ok_0.alignment == 2,
    {
        Ok(FreeRequest { provider: self.0.provider(), size: 0, alignment: 2 })
    }

    /// Reports the event that the call was made for.  Tells whether a poll that
    /// waits has to be woken, which is always so.
    pub fn woken(&self, inner: &mut SelectorSharedInner) -> (wake: bool)
        ensures
            wake,
            self@.interest == Interest::Readable,
            final(inner)@ == self@.pushed(old(inner)@, EventKind::Readable),
            old(inner)@.connected ==> final(inner)@.queue == old(inner)@.queue.push(
                (self@.id, EventKind::Readable),
            ),
            !old(inner)@.connected ==> final(inner)@.queue == old(inner)@.queue,
            final(inner)@.registrations == old(inner)@.registrations,
            final(inner)@.connected == old(inner)@.connected,
    {
        proof {
            use_type_invariant(self);
        }
        self.0.push_event(inner, EventKind::Readable)
    }

    pub fn token(&self) -> (token: Token)
        ensures
            token == self@.token,
    {
        self.0.token()
    }

    /// The provider of the selector that the waker belongs to.
    pub fn provider(&self) -> (provider: Provider<S>)
        ensures
            provider@ == self@.shared_inner,
    {
        self.0.provider()
    }

    /// Ends the registration.
    pub fn close(&self, inner: &mut SelectorSharedInner)
        ensures
            final(inner)@ == old(inner)@.without(self@.id),
            final(inner)@.registrations == old(inner)@.registrations.remove(self@.id.0),
            final(inner)@.queue == old(inner)@.queue,
            final(inner)@.connected == old(inner)@.connected,
    {
        self.0.unregister(inner)
    }
}

} // verus!
