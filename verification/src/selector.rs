//! Selectors, the registrations made with them, and the state that the two
//! share.
//!
//! A process keeps the shared state of a selector in some cell that all handles
//! point to.  The type parameter `S` is that cell: handles carry it, and whoever
//! opens it passes the [`SelectorSharedInner`] inside.

use std::collections::HashMap;
use std::sync::Arc;
use std::time::Duration;

use vstd::prelude::*;

use crate::channel::{EventChannel, Message};
use crate::error::Error;
use crate::event::{Event, EventKind, Events};
use crate::id::{successor, IdCounter, RegistrationId};
use crate::interest::{Interest, Token};

verus! {

broadcast use vstd::std_specs::hash::group_hash_axioms;

/// What is registered under an id.
pub type Details = (Token, Interest);

/// The event that a message turns into, if it is for a registration that exists
/// and wants to hear of it.
pub open spec fn delivery(registrations: Map<usize, Details>, message: Message) -> Option<Event> {
    let (id, kind) = message;
    if registrations.contains_key(id.0) && kind.wanted_by(registrations[id.0].1) {
        Some(Event { kind, token: registrations[id.0].0 })
    } else {
        None
    }
}

/// The events that the messages turn into, in the same order.
pub open spec fn delivered(registrations: Map<usize, Details>, messages: Seq<Message>) -> Seq<Event>
    decreases messages.len(),
{
    if messages.len() == 0 {
        Seq::empty()
    } else {
        let before = delivered(registrations, messages.drop_last());
        match delivery(registrations, messages.last()) {
            Some(event) => before.push(event),
            None => before,
        }
    }
}

/// How many messages, taken from the front, it takes to come by `room` events:
/// all of them, if they turn into fewer.
pub open spec fn consumed(
    registrations: Map<usize, Details>,
    messages: Seq<Message>,
    room: nat,
) -> nat
    decreases messages.len(),
{
    if room == 0 || messages.len() == 0 {
        0
    } else if delivery(registrations, messages[0]) is Some {
        1 + consumed(registrations, messages.drop_first(), (room - 1) as nat)
    } else {
        1 + consumed(registrations, messages.drop_first(), room)
    }
}

/// How many more elements fit below a limit.
pub open spec fn room_left(len: nat, limit: nat) -> nat {
    if len < limit {
        (limit - len) as nat
    } else {
        0
    }
}

/// How many messages a poll takes into a buffer that reports `capacity` when it
/// is empty and, where that is 0, `grown` once it holds an event.  It takes at
/// least one, and stops as soon as the buffer is full.
pub open spec fn polled(
    registrations: Map<usize, Details>,
    messages: Seq<Message>,
    capacity: nat,
    grown: nat,
) -> nat {
    if capacity > 0 {
        consumed(registrations, messages, capacity)
    } else if messages.len() == 0 {
        0
    } else if delivery(registrations, messages[0]) is None {
        1
    } else {
        consumed(registrations, messages, grown)
    }
}

/// The state that a selector shares with the registrations made with it, as its
/// contracts see it.
#[verifier::ext_equal]
pub struct SharedView {
    /// The registrations by their id.
    pub registrations: Map<usize, Details>,
    /// The events that no poll has taken yet, the oldest first.
    pub queue: Seq<Message>,
    /// Some handle to the selector is left, through which events can be polled.
    pub connected: bool,
}

/// The state that a selector shares with the registrations made with it.
pub struct SelectorSharedInner {
    /// The queue, for as long as there is a handle to poll it.
    events: Option<EventChannel>,
    registrations: HashMap<usize, Details>,
}

impl View for SelectorSharedInner {
    type V = SharedView;

    closed spec fn view(&self) -> SharedView {
        SharedView {
            registrations: self.registrations@,
            queue: match self.events {
                Some(events) => events@,
                None => Seq::empty(),
            },
            connected: self.events is Some,
        }
    }
}

/// A poll into an empty buffer that reported these capacities led from the one
/// shared state to the other and left `events` in the buffer.
pub open spec fn polled_into(
    before: SharedView,
    after: SharedView,
    events: Seq<Event>,
    capacity: nat,
    grown: nat,
) -> bool {
    let n = polled(before.registrations, before.queue, capacity, grown);
    &&& grown > 0
    &&& n <= before.queue.len()
    &&& after == (SharedView { queue: before.queue.skip(n as int), ..before })
    &&& events == delivered(before.registrations, before.queue.take(n as int))
}

/// A poll of `buffer` led from the one shared state to the other and left `events` in
/// it.  The capacities are those that the buffer reported: as it was handed in and,
/// where that was 0, when it held its first event.
pub open spec fn polled_reporting(
    before: SharedView,
    after: SharedView,
    buffer: Events,
    events: Seq<Event>,
    capacity: usize,
    grown: usize,
) -> bool {
    &&& reports_capacity(buffer, capacity)
    &&& polled_into(before, after, events, capacity as nat, grown as nat)
    &&& capacity == 0 && events.len() > 0 ==> exists|one: Events| #[trigger]
        reports_capacity(one, grown) && one@ == events.take(1)
}

/// A poll of `buffer` led from the one shared state to the other and left `events` in
/// it.
pub open spec fn polled_by(
    before: SharedView,
    after: SharedView,
    buffer: Events,
    events: Seq<Event>,
) -> bool {
    exists|capacity: usize, grown: usize| #[trigger]
        polled_reporting(before, after, buffer, events, capacity, grown)
}

/// Calls `Vec::capacity`, which tells how many elements the vector can hold
/// without reallocating.  It is at least the length; more is up to the
/// allocator.
#[verifier::external_body]
fn events_capacity(events: &Events) -> (capacity: usize)
    ensures
        capacity >= events@.len(),
{
    events.capacity()
}

/// The buffer, asked for its capacity, may give this answer.
pub closed spec fn reports_capacity(events: Events, capacity: usize) -> bool {
    call_ensures(events_capacity, (&events,), capacity)
}

/// What a buffer reports is an answer of `Vec::capacity` and of nothing else.
proof fn reports_are_answers(events: Events, capacity: usize)
    ensures
        reports_capacity(events, capacity) <==> call_ensures(
            events_capacity,
            (&events,),
            capacity,
        ),
{
}

/// No buffer reports less than it holds.
pub proof fn reported_capacity_covers_the_contents(events: Events, capacity: usize)
    requires
        reports_capacity(events, capacity),
    ensures
        events@.len() <= capacity,
{
    reports_are_answers(events, capacity);
}

/// The duration that `Duration::from_nanos` makes of a number.
pub uninterp spec fn duration_from_nanos(nanos: u64) -> Duration;

/// Calls `Duration::from_nanos`.  The result depends on the number alone.
#[verifier::external_body]
fn duration_of_nanos(nanos: u64) -> (duration: Duration)
    ensures
        duration == duration_from_nanos(nanos),
{
    Duration::from_nanos(nanos)
}

impl SelectorSharedInner {
    /// No registrations and no events.
    pub fn new() -> (inner: SelectorSharedInner)
        ensures
            inner@.registrations == Map::<usize, Details>::empty(),
            inner@.queue == Seq::<Message>::empty(),
            inner@.connected,
    {
        SelectorSharedInner { events: Some(EventChannel::new()), registrations: HashMap::new() }
    }

    /// The last handle to the selector is gone.  The queued events are discarded, and
    /// so will be all that are reported from now on.
    pub fn disconnect(&mut self)
        ensures
            final(self)@ == old(self)@.disconnected(),
            final(self)@.queue.len() == 0,
            !final(self)@.connected,
            final(self)@.registrations == old(self)@.registrations,
    {
        self.events = None;
    }

    /// Takes the oldest message and appends the event that it turns into, if any.
    /// Tells whether there was a message.
    pub fn deliver_next(&mut self, events: &mut Events) -> (taken: bool)
        ensures
            taken == (old(self)@.queue.len() > 0),
            !taken ==> final(self)@ == old(self)@ && final(events)@ == old(events)@,
            taken ==> final(self)@ == (SharedView {
                queue: old(self)@.queue.drop_first(),
                ..old(self)@
            }) && final(events)@ == match delivery(
                old(self)@.registrations,
                old(self)@.queue[0],
            ) {
                Some(event) => old(events)@.push(event),
                None => old(events)@,
            },
    {
        let next = match &mut self.events {
            Some(queue) => queue.try_next(),
            None => None,
        };
        match next {
            Some((id, kind)) => {
                if let Some((token, interest)) = self.registrations.get(&id.0) {
                    if kind.matches_interest(interest) {
                        events.push(Event::new(kind, *token));
                    }
                }
                true
            },
            None => false,
        }
    }

    /// Delivers messages until `events` holds `limit` events or no message is
    /// left.
    pub fn fill(&mut self, events: &mut Events, limit: usize)
        ensures
            ({
                let n = consumed(
                    old(self)@.registrations,
                    old(self)@.queue,
                    room_left(old(events)@.len(), limit as nat),
                );
                &&& n <= old(self)@.queue.len()
                &&& final(self)@ == (SharedView {
                    queue: old(self)@.queue.skip(n as int),
                    ..old(self)@
                })
                &&& final(events)@ == old(events)@ + delivered(
                    old(self)@.registrations,
                    old(self)@.queue.take(n as int),
                )
            }),
            final(events)@.len() > old(events)@.len() ==> final(events)@.len() <= limit,
            final(events)@.len() >= limit || final(self)@.queue.len() == 0,
            old(events)@.len() >= limit ==> final(self)@ == old(self)@,
    {
        let ghost start = self@;
        let ghost registrations = self@.registrations;
        let ghost queue = self@.queue;
        let ghost before = events@;
        let ghost mut taken: int = 0;
        let ghost target = consumed(
            registrations,
            queue,
            room_left(events@.len(), limit as nat),
        );
        assert(queue.skip(0) == queue);
        assert(queue.take(0) == Seq::<Message>::empty());
        while events.len() < limit
            invariant
                0 <= taken <= queue.len(),
                self@ == (SharedView { queue: queue.skip(taken), ..start }),
                taken > 0 ==> before.len() < limit,
                events@.len() > before.len() ==> events@.len() <= limit,
                start.registrations == registrations,
                events@ == before + delivered(registrations, queue.take(taken)),
                target == taken + consumed(
                    registrations,
                    queue.skip(taken),
                    room_left(events@.len(), limit as nat),
                ),
            ensures
                taken == target,
                events@.len() >= limit || taken == queue.len(),
            decreases queue.len() - taken,
        {
            if !self.deliver_next(events) {
                break ;
            }
            proof {
                assert(queue.skip(taken).drop_first() == queue.skip(taken + 1));
                assert(queue.take(taken + 1).drop_last() == queue.take(taken));
                assert(queue.take(taken + 1).last() == queue[taken]);
                taken = taken + 1;
            }
        }
    }

    /// Replaces what `events` holds by as many events as its capacity admits.  A
    /// buffer with no capacity takes one message, which makes it grow if it turns
    /// into an event.  Tells whether that happened, so that there may be room for
    /// more.
    pub fn refill(&mut self, events: &mut Events, capacity: usize) -> (grew: bool)
        ensures
            grew == (capacity == 0 && final(events)@.len() > 0),
            polled_into(old(self)@, final(self)@, final(events)@, capacity as nat, 1),
    {
        events.clear();
        if capacity > 0 {
            self.fill(events, capacity);
            false
        } else {
            let ghost queue = self@.queue;
            let taken: bool = self.deliver_next(events);
            proof {
                reveal_with_fuel(delivered, 2);
                reveal_with_fuel(consumed, 2);
                if taken {
                    assert(queue.take(1).last() == queue[0]);
                    assert(queue.skip(1) == queue.drop_first());
                } else {
                    assert(queue.skip(0) == queue);
                    assert(queue.take(0) == Seq::<Message>::empty());
                }
            }
            events.len() > 0
        }
    }
}

/// A handle to a selector: the handler `H` that runs the callbacks of finished
/// usercalls, and the cell `S` with the shared state.
pub struct Selector<H, S> {
    id: usize,
    callback_handler: Arc<H>,
    shared_inner: Arc<S>,
    /// An aid to debugging: starts out false and is copied to clones.
    has_waker: bool,
}

/// A selector handle as its contracts see it.
pub struct SelectorView<H, S> {
    pub id: usize,
    pub callback_handler: Arc<H>,
    pub shared_inner: Arc<S>,
    pub has_waker: bool,
}

impl<H, S> View for Selector<H, S> {
    type V = SelectorView<H, S>;

    closed spec fn view(&self) -> SelectorView<H, S> {
        SelectorView {
            id: self.id,
            callback_handler: self.callback_handler,
            shared_inner: self.shared_inner,
            has_waker: self.has_waker,
        }
    }
}

/// A poll led from the one shared state to the other and handed out `events`.  What
/// capacities the buffer reported is up to the allocator.
pub open spec fn is_poll(before: SharedView, after: SharedView, events: Seq<Event>) -> bool {
    exists|capacity: nat, grown: nat| #[trigger]
        polled_into(before, after, events, capacity, grown)
}

impl<H, S> Selector<H, S> {
    /// A selector under the next number of `ids`, over a handler of callbacks and
    /// a cell with shared state.
    pub fn new(ids: &mut IdCounter, callback_handler: H, shared_inner: S) -> (selector: Result<
        Selector<H, S>,
        Error,
    >)
        ensures
            selector is Ok,
            selector->Ok_0@ == (SelectorView {
                id: old(ids)@,
                callback_handler: Arc::new(callback_handler),
                shared_inner: Arc::new(shared_inner),
                has_waker: false,
            }),
            final(ids)@ == successor(old(ids)@),
    {
        Ok(
            Selector {
                id: ids.advance(),
                callback_handler: Arc::new(callback_handler),
                shared_inner: Arc::new(shared_inner),
                has_waker: false,
            },
        )
    }

    /// Another handle to the same selector.
    pub fn try_clone(&self) -> (clone: Result<Selector<H, S>, Error>)
        ensures
            clone is Ok,
            clone->Ok_0@ == self@,
    {
        Ok(
            Selector {
                id: self.id,
                callback_handler: self.callback_handler.clone(),
                shared_inner: self.shared_inner.clone(),
                has_waker: self.has_waker,
            },
        )
    }

    pub fn id(&self) -> (id: usize)
        ensures
            id == self@.id,
    {
        self.id
    }

    pub fn callback_handler(&self) -> (callback_handler: &Arc<H>)
        ensures
            *callback_handler == self@.callback_handler,
    {
        &self.callback_handler
    }

    pub fn shared_inner(&self) -> (shared_inner: &Arc<S>)
        ensures
            *shared_inner == self@.shared_inner,
    {
        &self.shared_inner
    }

    /// How long a poll may wait for callbacks: not at all while events are
    /// queued, else as long as the caller said.
    pub fn poll_timeout(
        &self,
        shared_inner: &SelectorSharedInner,
        timeout: Option<Duration>,
    ) -> (allowed: Option<Duration>)
        ensures
            allowed == if shared_inner@.queue.len() > 0 {
                Some(duration_from_nanos(0))
            } else {
                timeout
            },
    {
        match &shared_inner.events {
            Some(queue) if !queue.is_empty() => Some(duration_of_nanos(0)),
            _ => timeout,
        }
    }

    /// Replaces what `events` holds by events from the queue, until its capacity,
    /// which is at least what it held, is used up or the queue is empty.
    pub fn select(&self, shared_inner: &mut SelectorSharedInner, events: &mut Events) -> (result:
        Result<(), Error>)
        ensures
            result is Ok,
            is_poll(old(shared_inner)@, final(shared_inner)@, final(events)@),
            exists|capacity: nat, grown: nat|
                capacity >= old(events)@.len() && #[trigger] polled_into(
                    old(shared_inner)@,
                    final(shared_inner)@,
                    final(events)@,
                    capacity,
                    grown,
                ),
            polled_by(old(shared_inner)@, final(shared_inner)@, *old(events), final(events)@),
            final(shared_inner)@.registrations == old(shared_inner)@.registrations,
            final(shared_inner)@.connected == old(shared_inner)@.connected,
    {
        let ghost before = shared_inner@;
        let ghost buffer = *events;
        let capacity: usize = events_capacity(events);
        proof {
            reports_are_answers(buffer, capacity);
        }
        if shared_inner.refill(events, capacity) {
            let ghost one = *events;
            let ghost first = before.queue.take(1);
            let ghost rest = shared_inner@.queue;
            proof {
                reveal_with_fuel(consumed, 2);
                reveal_with_fuel(delivered, 2);
                assert(before.queue.len() > 0);
                assert(first.last() == before.queue[0]);
                assert(events@.len() == 1);
            }
            let grown: usize = events_capacity(events);
            shared_inner.fill(events, grown);
            proof {
                reports_are_answers(one, grown);
                let n = consumed(before.registrations, rest, (grown - 1) as nat) as int;
                assert(before.queue.drop_first() == rest);
                assert(before.queue.take(n + 1) == first + rest.take(n));
                assert(before.queue.skip(n + 1) == rest.skip(n));
                lemma_delivered_concat(before.registrations, first, rest.take(n));
                assert(polled_into(before, shared_inner@, events@, 0, grown as nat));
                assert(events@.take(1) == one@);
                assert(polled_reporting(before, shared_inner@, buffer, events@, 0, grown));
            }
        } else {
            assert(polled_reporting(before, shared_inner@, buffer, events@, capacity, 1));
        }
        Ok(())
    }
}

/// Nothing is queued where nobody is left to poll.
pub proof fn queue_is_empty_when_disconnected(inner: SelectorSharedInner)
    ensures
        !inner@.connected ==> inner@.queue.len() == 0,
{
}

/// Messages taken one batch after the other turn into the events of the first
/// batch followed by those of the second.
pub proof fn lemma_delivered_concat(
    registrations: Map<usize, Details>,
    first: Seq<Message>,
    second: Seq<Message>,
)
    ensures
        delivered(registrations, first + second) == delivered(registrations, first) + delivered(
            registrations,
            second,
        ),
    decreases second.len(),
{
    if second.len() == 0 {
        assert(first + second == first);
    } else {
        lemma_delivered_concat(registrations, first, second.drop_last());
        assert((first + second).drop_last() == first + second.drop_last());
    }
}

/// A handle to the usercall provider of a selector, through which calls are
/// submitted whose callbacks that selector runs.
pub struct Provider<S>(Arc<S>);

impl<S> View for Provider<S> {
    type V = Arc<S>;

    closed spec fn view(&self) -> Arc<S> {
        self.0
    }
}

impl<S> Provider<S> {
    pub fn new<H>(selector: &Selector<H, S>) -> (provider: Provider<S>)
        ensures
            provider@ == selector@.shared_inner,
    {
        Provider(selector.shared_inner.clone())
    }

    /// Another handle to the same provider.
    pub fn handle(&self) -> (provider: Provider<S>)
        ensures
            provider@ == self@,
    {
        Provider(self.0.clone())
    }

    /// The cell that the provider lives in.
    pub fn shared_inner(&self) -> (shared_inner: &Arc<S>)
        ensures
            *shared_inner == self@,
    {
        &self.0
    }
}

/// A claim to events: what is registered, under which id, and where.
pub struct Registration<S> {
    id: RegistrationId,
    shared_inner: Arc<S>,
    token: Token,
    interest: Interest,
}

/// A registration as its contracts see it.
pub struct RegistrationView<S> {
    pub id: RegistrationId,
    pub shared_inner: Arc<S>,
    pub token: Token,
    pub interest: Interest,
}

impl<S> RegistrationView<S> {
    /// The shared state knows this registration as it is.
    pub open spec fn registered_in(self, inner: SharedView) -> bool {
        &&& inner.registrations.contains_key(self.id.0)
        &&& inner.registrations[self.id.0] == (self.token, self.interest)
    }

    /// Another token or another interest than these.
    pub open spec fn differs(self, token: Token, interest: Interest) -> bool {
        self.token != token || self.interest != interest
    }

    /// The registration with this token and interest.
    pub open spec fn with_details(self, token: Token, interest: Interest) -> RegistrationView<S> {
        RegistrationView { token, interest, ..self }
    }

    /// The shared state once the registration has this token and interest.
    pub open spec fn updated(
        self,
        inner: SharedView,
        token: Token,
        interest: Interest,
    ) -> SharedView {
        if self.differs(token, interest) {
            inner.with(self.id, (token, interest))
        } else {
            inner
        }
    }

    /// The shared state after this registration reported an event of this kind.  It is
    /// queued if the interest admits it and someone is left to poll it.
    pub open spec fn pushed(self, inner: SharedView, kind: EventKind) -> SharedView {
        if inner.connected && kind.wanted_by(self.interest) {
            SharedView { queue: inner.queue.push((self.id, kind)), ..inner }
        } else {
            inner
        }
    }
}

impl SharedView {
    /// The shared state with these details under this id.
    pub open spec fn with(self, id: RegistrationId, details: Details) -> SharedView {
        SharedView { registrations: self.registrations.insert(id.0, details), ..self }
    }

    /// The shared state once nobody is left to poll it.
    pub open spec fn disconnected(self) -> SharedView {
        SharedView { queue: Seq::empty(), connected: false, ..self }
    }

    /// The shared state with nothing under this id.
    pub open spec fn without(self, id: RegistrationId) -> SharedView {
        SharedView { registrations: self.registrations.remove(id.0), ..self }
    }
}

impl<S> View for Registration<S> {
    type V = RegistrationView<S>;

    closed spec fn view(&self) -> RegistrationView<S> {
        RegistrationView {
            id: self.id,
            shared_inner: self.shared_inner,
            token: self.token,
            interest: self.interest,
        }
    }
}

impl<S> Registration<S> {
    /// Registers with a selector under the next number of `ids`.  `inner` is the
    /// state in the selector's cell.
    pub fn new<H>(
        selector: &Selector<H, S>,
        inner: &mut SelectorSharedInner,
        ids: &mut IdCounter,
        token: Token,
        interest: Interest,
    ) -> (registration: Registration<S>)
        ensures
            registration@ == (RegistrationView {
                id: RegistrationId(old(ids)@),
                shared_inner: selector@.shared_inner,
                token,
                interest,
            }),
            final(ids)@ == successor(old(ids)@),
            final(inner)@ == old(inner)@.with(registration@.id, (token, interest)),
            final(inner)@.registrations == old(inner)@.registrations.insert(
                old(ids)@,
                (token, interest),
            ),
            final(inner)@.queue == old(inner)@.queue,
            final(inner)@.connected == old(inner)@.connected,
    {
        let id = RegistrationId::new(ids);
        inner.registrations.insert(id.0, (token, interest));
        Registration { id, shared_inner: selector.shared_inner.clone(), token, interest }
    }

    /// The provider of the selector that this is registered with.
    pub fn provider(&self) -> (provider: Provider<S>)
        ensures
            provider@ == self@.shared_inner,
    {
        Provider(self.shared_inner.clone())
    }

    /// Replaces token and interest.  Tells whether that changed anything.
    pub fn change_details(
        &mut self,
        inner: &mut SelectorSharedInner,
        token: Token,
        interest: Interest,
    ) -> (changed: bool)
        ensures
            changed == old(self)@.differs(token, interest),
            final(self)@ == old(self)@.with_details(token, interest),
            final(inner)@ == old(self)@.updated(old(inner)@, token, interest),
            changed <==> old(self)@.token != token || old(self)@.interest != interest,
            final(self)@.token == token,
            final(self)@.interest == interest,
            final(self)@.id == old(self)@.id,
            final(self)@.shared_inner == old(self)@.shared_inner,
            final(inner)@.registrations == if changed {
                old(inner)@.registrations.insert(old(self)@.id.0, (token, interest))
            } else {
                old(inner)@.registrations
            },
            final(inner)@.queue == old(inner)@.queue,
            final(inner)@.connected == old(inner)@.connected,
    {
        if self.token == token && self.interest == interest {
            return false;
        }
        self.token = token;
        self.interest = interest;
        inner.registrations.insert(self.id.0, (self.token, self.interest));
        true
    }

    pub fn token(&self) -> (token: Token)
        ensures
            token == self@.token,
    {
        self.token
    }

    /// Queues an event of this kind, unless the interest rules it out.  Once the last
    /// handle to the selector is gone, it is discarded.  Tells whether the selector has
    /// to be woken, which goes by the interest alone.
    pub fn push_event(&self, inner: &mut SelectorSharedInner, kind: EventKind) -> (wake: bool)
        ensures
            wake == kind.wanted_by(self@.interest),
            final(inner)@ == self@.pushed(old(inner)@, kind),
            final(inner)@.queue == if wake && old(inner)@.connected {
                old(inner)@.queue.push((self@.id, kind))
            } else {
                old(inner)@.queue
            },
            final(inner)@.registrations == old(inner)@.registrations,
            final(inner)@.connected == old(inner)@.connected,
    {
        if kind.matches_interest(&self.interest) {
            match &mut inner.events {
                Some(queue) => queue.send((self.id, kind)),
                None => {},
            }
            true
        } else {
            false
        }
    }

    /// Ends the registration.  Its queued events will reach nobody.
    pub fn unregister(&self, inner: &mut SelectorSharedInner)
        ensures
            final(inner)@ == old(inner)@.without(self@.id),
            final(inner)@.registrations == old(inner)@.registrations.remove(self@.id.0),
            final(inner)@.queue == old(inner)@.queue,
            final(inner)@.connected == old(inner)@.connected,
    {
        inner.registrations.remove(&self.id.0);
    }
}

} // verus!
