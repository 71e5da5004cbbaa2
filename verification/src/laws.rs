//! What holds of the operations taken together.

use vstd::prelude::*;

use crate::channel::Message;
use crate::error::Error;
use crate::event::{debug_text, decimal, digit, Event, EventKind, Events};
use crate::id::{successor, RegistrationId};
use crate::interest::{Interest, Token};
use crate::listener::{completion_kind, AcceptRequest, ListenerView};
use crate::selector::{
    consumed, delivered, delivery, is_poll, lemma_delivered_concat, polled, polled_by, polled_into,
    polled_reporting, reports_capacity, room_left, Details, RegistrationView, SharedView,
};
use crate::state::{finished, State};

verus! {

/// Failures are reported whatever the interest.
pub proof fn failures_are_always_wanted(kind: EventKind, interest: Interest)
    requires
        kind.failure(),
    ensures
        kind.wanted_by(interest),
{
}

/// An event concerns either reading or writing, and a closed side is reported as
/// readiness of that side.
pub proof fn kinds_have_one_side(kind: EventKind)
    ensures
        kind.read_side() != kind.write_side(),
        kind is ReadClosed ==> kind.read_side(),
        kind is WriteClosed ==> kind.write_side(),
{
}

/// Each kind, by what it is about.
pub proof fn kinds_are_classified(kind: EventKind)
    ensures
        kind.read_side() <==> kind == EventKind::Readable || kind == EventKind::ReadClosed || kind
            == EventKind::ReadError,
        kind.write_side() <==> kind == EventKind::Writable || kind == EventKind::WriteClosed || kind
            == EventKind::WriteError,
        kind.failure() <==> kind == EventKind::ReadError || kind == EventKind::WriteError,
{
}

/// Who hears of which kind: readiness and the end of a side go to those interested in
/// that side, failures to everyone.
pub proof fn interest_decides(kind: EventKind, interest: Interest)
    ensures
        interest.wants_read() <==> interest != Interest::Writable,
        interest.wants_write() <==> interest != Interest::Readable,
        kind == EventKind::Readable || kind == EventKind::ReadClosed ==> (kind.wanted_by(interest)
            <==> interest != Interest::Writable),
        kind == EventKind::Writable || kind == EventKind::WriteClosed ==> (kind.wanted_by(interest)
            <==> interest != Interest::Readable),
        kind == EventKind::ReadError || kind == EventKind::WriteError ==> kind.wanted_by(interest),
        Interest::READABLE == Interest::Readable,
        Interest::WRITABLE == Interest::Writable,
{
}

/// A union of interests hears what one of them hears.
pub proof fn union_hears_what_either_hears(
    kind: EventKind,
    one: Interest,
    other: Interest,
    both: Interest,
)
    requires
        both.wants_read() == (one.wants_read() || other.wants_read()),
        both.wants_write() == (one.wants_write() || other.wants_write()),
    ensures
        kind.wanted_by(both) <==> kind.wanted_by(one) || kind.wanted_by(other),
{
}

/// The number that a row of digits stands for.
pub open spec fn digits_value(digits: Seq<char>) -> int
    decreases digits.len(),
{
    if digits.len() == 0 {
        0
    } else {
        10 * digits_value(digits.drop_last()) + (digits.last() as int - '0' as int)
    }
}

/// Decimal notation is a non-empty row of digits that stands for the number and does not
/// start with a needless zero.
pub proof fn decimal_reads_back(n: nat)
    ensures
        digits_value(decimal(n)) == n,
        decimal(n).len() > 0,
        decimal(n).len() > 1 <==> n >= 10,
        decimal(n).len() > 1 ==> decimal(n)[0] != '0',
        forall|i: int| 0 <= i < decimal(n).len() ==> '0' <= #[trigger] decimal(n)[i] <= '9',
    decreases n,
{
    assert(digit(n % 10) as int == '0' as int + n % 10);
    if n < 10 {
        assert(decimal(n).drop_last() == Seq::<char>::empty());
        reveal_with_fuel(digits_value, 2);
    } else {
        decimal_reads_back(n / 10);
        assert(decimal(n).drop_last() == decimal(n / 10));
        assert(decimal(n)[0] == decimal(n / 10)[0]);
        if n / 10 < 10 {
            assert(decimal(n / 10) == seq![digit(n / 10)]);
            assert(digit(n / 10) as int == '0' as int + n / 10);
        }
    }
}

/// The text of an event for debugging names its kind and its token.
pub proof fn debug_text_names_kind_and_token(e: Event)
    ensures
        e.kind.name() == match e.kind {
            EventKind::Readable => "Readable"@,
            EventKind::ReadClosed => "ReadClosed"@,
            EventKind::ReadError => "ReadError"@,
            EventKind::Writable => "Writable"@,
            EventKind::WriteClosed => "WriteClosed"@,
            EventKind::WriteError => "WriteError"@,
        },
        debug_text(e, false) == "Event { kind: "@ + e.kind.name() + ", token: Token("@ + decimal(
            e.token.0 as nat,
        ) + ") }"@,
        debug_text(e, true) == "Event {\n    kind: "@ + e.kind.name()
            + ",\n    token: Token(\n        "@ + decimal(e.token.0 as nat) + ",\n    ),\n}"@,
{
}

/// The counter goes up by one at a time and never gives the same number to two of its
/// states, until it has been through all numbers.
pub proof fn counter_goes_up_by_one(n: usize, m: usize)
    ensures
        n < usize::MAX ==> successor(n) == n + 1,
        n == usize::MAX ==> successor(n) == 0,
        successor(n) == successor(m) ==> n == m,
{
}

/// A message turns into an event exactly if its registration exists and wants to hear of
/// it; the event has the kind of the message and the token of the registration.
pub proof fn wanted_messages_become_events(
    registrations: Map<usize, Details>,
    id: RegistrationId,
    kind: EventKind,
    event: Event,
)
    ensures
        delivery(registrations, (id, kind)) == Some(event) <==> {
            &&& registrations.contains_key(id.0)
            &&& kind.wanted_by(registrations[id.0].1)
            &&& event.kind == kind
            &&& event.token == registrations[id.0].0
        },
{
}

/// The events that messages turn into are, one for one and in their order, those of the
/// messages whose registration exists and wants to hear of them.
pub proof fn delivered_is_what_is_wanted(
    registrations: Map<usize, Details>,
    messages: Seq<Message>,
)
    ensures
        delivered(registrations, messages) == messages.filter(
            |m: Message|
                registrations.contains_key(m.0.0) && m.1.wanted_by(registrations[m.0.0].1),
        ).map_values(|m: Message| Event { kind: m.1, token: registrations[m.0.0].0 }),
    decreases messages.len(),
{
    let wanted = |m: Message|
        registrations.contains_key(m.0.0) && m.1.wanted_by(registrations[m.0.0].1);
    let event = |m: Message| Event { kind: m.1, token: registrations[m.0.0].0 };
    reveal(Seq::filter);
    if messages.len() > 0 {
        delivered_is_what_is_wanted(registrations, messages.drop_last());
        let before = messages.drop_last().filter(wanted);
        if wanted(messages.last()) {
            assert(before.push(messages.last()).map_values(event) == before.map_values(event).push(
                event(messages.last()),
            ));
        }
    }
}

/// The room below a limit is what is missing to reach it.
pub proof fn room_reaches_the_limit(len: nat, limit: nat)
    ensures
        len <= limit ==> len + room_left(len, limit) == limit,
        len >= limit ==> room_left(len, limit) == 0,
{
}

/// Filling a buffer takes the fewest messages that yield `room` events, or all
/// messages if they yield fewer.
pub proof fn filling_takes_the_fewest(
    registrations: Map<usize, Details>,
    messages: Seq<Message>,
    room: nat,
)
    ensures
        ({
            let n = consumed(registrations, messages, room) as int;
            &&& n <= messages.len()
            &&& delivered(registrations, messages.take(n)).len() <= room
            &&& n < messages.len() ==> delivered(registrations, messages.take(n)).len() == room
            &&& forall|m: int|
                0 <= m < n ==> (#[trigger] delivered(registrations, messages.take(m))).len() < room
        }),
    decreases messages.len(),
{
    let n = consumed(registrations, messages, room) as int;
    if room == 0 || messages.len() == 0 {
        assert(messages.take(0) == Seq::<Message>::empty());
    } else {
        let first = messages.take(1);
        let rest = messages.drop_first();
        let left = if delivery(registrations, messages[0]) is Some {
            (room - 1) as nat
        } else {
            room
        };
        filling_takes_the_fewest(registrations, rest, left);
        assert(first.last() == messages[0]);
        assert(first.drop_last() == Seq::<Message>::empty());
        assert(delivered(registrations, first).len() == room - left) by {
            reveal_with_fuel(delivered, 2);
        }
        assert forall|m: int| 1 <= m <= messages.len() implies delivered(
            registrations,
            messages.take(m),
        ).len() == room - left + (#[trigger] delivered(registrations, rest.take(m - 1))).len() by {
            assert(messages.take(m) == first + rest.take(m - 1));
            lemma_delivered_concat(registrations, first, rest.take(m - 1));
        }
        assert forall|m: int| 0 <= m < n implies (#[trigger] delivered(
            registrations,
            messages.take(m),
        )).len() < room by {
            if m == 0 {
                assert(messages.take(0) == Seq::<Message>::empty());
            } else {
                assert(delivered(registrations, rest.take(m - 1)).len() < left);
            }
        }
        assert(delivered(registrations, messages.take(n)).len() == room - left + delivered(
            registrations,
            rest.take(n - 1),
        ).len());
    }
}

/// The room that a poll finds in a buffer that reported these capacities.
pub open spec fn room(capacity: nat, grown: nat) -> nat {
    if capacity > 0 {
        capacity
    } else {
        grown
    }
}

/// A poll never hands out more events than the buffer has room for.
pub proof fn poll_fits_the_buffer(
    before: SharedView,
    after: SharedView,
    events: Seq<Event>,
    capacity: nat,
    grown: nat,
)
    requires
        polled_into(before, after, events, capacity, grown),
    ensures
        events.len() <= room(capacity, grown),
{
    filling_takes_the_fewest(before.registrations, before.queue, capacity);
    filling_takes_the_fewest(before.registrations, before.queue, grown);
    assert(before.queue.take(0) == Seq::<Message>::empty());
    assert(before.queue.len() > 0 ==> before.queue.take(1).last() == before.queue[0]);
    reveal_with_fuel(delivered, 2);
}

/// A poll of a queue that is not empty takes something from it.
pub proof fn poll_makes_progress(
    before: SharedView,
    after: SharedView,
    events: Seq<Event>,
    capacity: nat,
    grown: nat,
)
    requires
        polled_into(before, after, events, capacity, grown),
        before.queue.len() > 0,
    ensures
        after.queue.len() < before.queue.len(),
{
    assert(polled(before.registrations, before.queue, capacity, grown) > 0);
}

/// A poll whose buffer has room for all wanted events hands them all out, and what it
/// leaves in the queue nobody wants.  With room to spare it empties the queue.  A buffer
/// without capacity counts by the capacity that it grows to, which it does for a wanted
/// event at the front.
pub proof fn poll_with_room_takes_everything(
    before: SharedView,
    after: SharedView,
    events: Seq<Event>,
    capacity: nat,
    grown: nat,
)
    requires
        polled_into(before, after, events, capacity, grown),
        room(capacity, grown) >= delivered(before.registrations, before.queue).len(),
        capacity > 0 || delivered(before.registrations, before.queue).len() == 0 || delivery(
            before.registrations,
            before.queue[0],
        ) is Some,
    ensures
        events == delivered(before.registrations, before.queue),
        delivered(after.registrations, after.queue).len() == 0,
        (capacity > 0 || delivered(before.registrations, before.queue).len() > 0) && room(
            capacity,
            grown,
        ) > delivered(before.registrations, before.queue).len() ==> after.queue.len() == 0,
{
    let n = polled(before.registrations, before.queue, capacity, grown) as int;
    let taken = before.queue.take(n);
    let left = before.queue.skip(n);
    filling_takes_the_fewest(before.registrations, before.queue, room(capacity, grown));
    lemma_delivered_concat(before.registrations, taken, left);
    assert(taken + left == before.queue);
    if delivered(before.registrations, left).len() == 0 {
        assert(events =~= delivered(before.registrations, before.queue));
    } else {
        assert(n < before.queue.len());
    }
}

/// The smaller of two numbers.
pub open spec fn least(a: int, b: int) -> int {
    if a <= b {
        a
    } else {
        b
    }
}

/// A poll into a buffer with room for `room` events hands out the first of the wanted
/// events, as many as fit.  The others stay queued, and so does every message behind
/// the one that filled the buffer.
pub open spec fn takes_what_fits(
    before: SharedView,
    after: SharedView,
    events: Seq<Event>,
    room: nat,
) -> bool {
    let wanted = delivered(before.registrations, before.queue);
    let taken = before.queue.len() - after.queue.len();
    &&& events == wanted.take(least(room as int, wanted.len() as int))
    &&& delivered(after.registrations, after.queue) == wanted.skip(events.len() as int)
    &&& 0 <= taken
    &&& after.queue == before.queue.skip(taken)
    &&& after.queue.len() > 0 ==> events.len() == room
    &&& forall|m: int|
        0 <= m < taken ==> (#[trigger] delivered(
            before.registrations,
            before.queue.take(m),
        )).len() < room
}

proof fn lemma_filling_takes_what_fits(
    before: SharedView,
    after: SharedView,
    events: Seq<Event>,
    room: nat,
)
    requires
        ({
            let n = consumed(before.registrations, before.queue, room) as int;
            &&& after == (SharedView { queue: before.queue.skip(n), ..before })
            &&& events == delivered(before.registrations, before.queue.take(n))
        }),
    ensures
        takes_what_fits(before, after, events, room),
{
    let n = consumed(before.registrations, before.queue, room) as int;
    filling_takes_the_fewest(before.registrations, before.queue, room);
    lemma_delivered_concat(before.registrations, before.queue.take(n), before.queue.skip(n));
    assert(before.queue.take(n) + before.queue.skip(n) == before.queue);
    if n == before.queue.len() {
        assert(before.queue.skip(n) == Seq::<Message>::empty());
    }
    let wanted = delivered(before.registrations, before.queue);
    assert(events == wanted.take(least(room as int, wanted.len() as int)));
    assert(delivered(after.registrations, after.queue) == wanted.skip(events.len() as int));
}

/// A poll hands out what fits into the buffer, by the capacity that the buffer itself
/// reports, and nothing else changes.  A buffer without capacity takes one message: if
/// nobody wants it that is all, else the buffer grows, and what fits then is handed out.
pub proof fn poll_hands_out_what_fits(
    before: SharedView,
    after: SharedView,
    buffer: Events,
    events: Seq<Event>,
)
    requires
        polled_by(before, after, buffer, events),
    ensures
        after.registrations == before.registrations,
        after.connected == before.connected,
        exists|capacity: usize| #[trigger]
            reports_capacity(buffer, capacity) && {
                &&& capacity > 0 ==> takes_what_fits(before, after, events, capacity as nat)
                &&& capacity == 0 && before.queue.len() == 0 ==> events.len() == 0
                    && after.queue.len() == 0
                &&& capacity == 0 && before.queue.len() > 0 && delivery(
                    before.registrations,
                    before.queue[0],
                ) is None ==> events.len() == 0 && after.queue == before.queue.drop_first()
                &&& capacity == 0 && before.queue.len() > 0 && delivery(
                    before.registrations,
                    before.queue[0],
                ) is Some ==> exists|one: Events, grown: usize| #[trigger]
                    reports_capacity(one, grown) && one@ == events.take(1) && takes_what_fits(
                        before,
                        after,
                        events,
                        grown as nat,
                    )
            },
{
    let (capacity, grown) = choose|capacity: usize, grown: usize| #[trigger]
        polled_reporting(before, after, buffer, events, capacity, grown);
    let queue = before.queue;
    if capacity > 0 {
        lemma_filling_takes_what_fits(before, after, events, capacity as nat);
    } else if queue.len() == 0 {
        assert(queue.take(0) == Seq::<Message>::empty());
        assert(events.len() == 0);
    } else if delivery(before.registrations, queue[0]) is None {
        reveal_with_fuel(delivered, 2);
        assert(queue.take(1).last() == queue[0]);
        assert(queue.skip(1) == queue.drop_first());
    } else {
        lemma_filling_takes_what_fits(before, after, events, grown as nat);
        filling_takes_the_fewest(before.registrations, queue, grown as nat);
        let wanted = delivered(before.registrations, queue);
        lemma_delivered_concat(before.registrations, queue.take(1), queue.skip(1));
        assert(queue.take(1) + queue.skip(1) == queue);
        reveal_with_fuel(delivered, 2);
        assert(queue.take(1).last() == queue[0]);
        assert(wanted.len() > 0);
        assert(events.len() > 0);
        let one = choose|one: Events| #[trigger]
            reports_capacity(one, grown) && one@ == events.take(1);
        assert(reports_capacity(one, grown));
    }
    assert(reports_capacity(buffer, capacity));
}

/// Each state is the one before it after a poll, which handed out the batch of the
/// same index.
pub open spec fn polls(states: Seq<SharedView>, batches: Seq<Seq<Event>>) -> bool {
    &&& states.len() == batches.len() + 1
    &&& forall|i: int|
        0 <= i < batches.len() ==> is_poll(states[i], states[i + 1], #[trigger] batches[i])
}

/// Polls in a row hand out, in order and without gaps or repetitions, what the
/// messages that they took turn into.  The other messages stay in the queue.
pub proof fn polls_lose_nothing(states: Seq<SharedView>, batches: Seq<Seq<Event>>)
    requires
        polls(states, batches),
    ensures
        states.last().registrations == states[0].registrations,
        ({
            let n = states[0].queue.len() - states.last().queue.len();
            &&& 0 <= n
            &&& states.last().queue == states[0].queue.skip(n)
            &&& batches.flatten() == delivered(states[0].registrations, states[0].queue.take(n))
        }),
    decreases batches.len(),
{
    let first = states[0];
    let last = states.last();
    if batches.len() == 0 {
        assert(first.queue.take(0) == Seq::<Message>::empty());
        assert(first.queue.skip(0) == first.queue);
        assert(batches.flatten() == Seq::<Event>::empty());
    } else {
        let earlier = states.drop_last();
        let before = earlier.last();
        let batch = batches.last();
        assert forall|i: int| 0 <= i < batches.len() - 1 implies is_poll(
            earlier[i],
            earlier[i + 1],
            #[trigger] batches.drop_last()[i],
        ) by {
            assert(is_poll(states[i], states[i + 1], batches[i]));
        }
        polls_lose_nothing(earlier, batches.drop_last());
        assert(is_poll(before, last, batch));
        let (capacity, grown) = choose|capacity: nat, grown: nat| #[trigger]
            polled_into(before, last, batch, capacity, grown);
        let n1 = first.queue.len() - before.queue.len();
        let n2 = polled(before.registrations, before.queue, capacity, grown) as int;
        assert(first.queue.take(n1 + n2) == first.queue.take(n1) + before.queue.take(n2));
        assert(first.queue.skip(n1 + n2) == before.queue.skip(n2));
        lemma_delivered_concat(first.registrations, first.queue.take(n1), before.queue.take(n2));
        assert(batches == batches.drop_last().push(batch));
        batches.drop_last().lemma_flatten_push(batch);
    }
}

/// Every event that is handed out was reported for a registration that exists and
/// wants it, and carries the token of that registration.
pub proof fn events_belong_to_registrations(
    registrations: Map<usize, Details>,
    messages: Seq<Message>,
    i: int,
) -> (j: int)
    requires
        0 <= i < delivered(registrations, messages).len(),
    ensures
        0 <= j < messages.len(),
        registrations.contains_key(messages[j].0.0),
        messages[j].1.wanted_by(registrations[messages[j].0.0].1),
        delivered(registrations, messages)[i] == (Event {
            kind: messages[j].1,
            token: registrations[messages[j].0.0].0,
        }),
    decreases messages.len(),
{
    if i < delivered(registrations, messages.drop_last()).len() {
        events_belong_to_registrations(registrations, messages.drop_last(), i)
    } else {
        messages.len() - 1
    }
}

/// An event that a registration reports comes behind all that are queued, if the
/// interest admits it, and with the registration's token; otherwise the report
/// changes nothing.
pub proof fn reported_event_is_delivered<S>(
    registration: RegistrationView<S>,
    inner: SharedView,
    kind: EventKind,
)
    requires
        registration.registered_in(inner),
        inner.connected,
    ensures
        ({
            let pushed = registration.pushed(inner, kind);
            &&& pushed.registrations == inner.registrations
            &&& delivered(pushed.registrations, pushed.queue) == if kind.wanted_by(
                registration.interest,
            ) {
                delivered(inner.registrations, inner.queue).push(
                    Event { kind, token: registration.token },
                )
            } else {
                delivered(inner.registrations, inner.queue)
            }
        }),
{
    let queue = inner.queue.push((registration.id, kind));
    assert(queue.drop_last() == inner.queue);
}

/// Polls that empty the queue after a registration reported an event hand it out
/// last, with the registration's token.
pub proof fn reported_event_is_polled<S>(
    registration: RegistrationView<S>,
    inner: SharedView,
    kind: EventKind,
    states: Seq<SharedView>,
    batches: Seq<Seq<Event>>,
)
    requires
        registration.registered_in(inner),
        inner.connected,
        kind.wanted_by(registration.interest),
        polls(states, batches),
        states[0] == registration.pushed(inner, kind),
        states.last().queue.len() == 0,
    ensures
        batches.flatten().len() > 0,
        batches.flatten().last() == (Event { kind, token: registration.token }),
{
    reported_event_is_delivered(registration, inner, kind);
    polls_lose_nothing(states, batches);
    let queue = states[0].queue;
    assert(queue.take(queue.len() as int) == queue);
}

/// Not queueing what the interest rules out saves a place in the queue and changes
/// nothing about what a poll hands out.
pub proof fn early_filter_is_unobservable<S>(
    registration: RegistrationView<S>,
    inner: SharedView,
    kind: EventKind,
)
    requires
        registration.registered_in(inner),
        inner.connected,
    ensures
        delivered(inner.registrations, registration.pushed(inner, kind).queue) == delivered(
            inner.registrations,
            inner.queue.push((registration.id, kind)),
        ),
{
    let queue = inner.queue.push((registration.id, kind));
    assert(queue.drop_last() == inner.queue);
}

/// Once the last handle to the selector is gone, nothing is queued any more, whoever
/// reports it; the registrations stay.
pub proof fn disconnected_state_discards_events<S>(
    registration: RegistrationView<S>,
    inner: SharedView,
    kind: EventKind,
)
    ensures
        registration.pushed(inner.disconnected(), kind) == inner.disconnected(),
        inner.disconnected().queue.len() == 0,
        registration.registered_in(inner) ==> registration.registered_in(inner.disconnected()),
{
}

/// Once a registration has ended, messages turn into the events that they would
/// turn into if those of the registration had never been queued.
pub proof fn ended_registration_hears_nothing(
    inner: SharedView,
    id: RegistrationId,
    messages: Seq<Message>,
)
    ensures
        delivered(inner.without(id).registrations, messages) == delivered(
            inner.registrations,
            messages.filter(|m: Message| m.0 != id),
        ),
    decreases messages.len(),
{
    let others = |m: Message| m.0 != id;
    reveal(Seq::filter);
    if messages.len() > 0 {
        ended_registration_hears_nothing(inner, id, messages.drop_last());
        let rest = messages.drop_last().filter(others);
        if others(messages.last()) {
            assert(rest.push(messages.last()).drop_last() == rest);
            assert(messages.last().0.0 != id.0);
        }
    }
}

/// Queued events follow a change of token and interest.
pub proof fn queued_events_follow_the_details<S>(
    registration: RegistrationView<S>,
    inner: SharedView,
    token: Token,
    interest: Interest,
    kind: EventKind,
)
    requires
        registration.registered_in(inner),
    ensures
        delivery(
            registration.updated(inner, token, interest).registrations,
            (registration.id, kind),
        ) == if kind.wanted_by(interest) {
            Some(Event { kind, token })
        } else {
            None
        },
{
}

/// A change of details keeps the registration and the shared state in step, and
/// making it twice is making it once.
pub proof fn changed_details_are_registered<S>(
    registration: RegistrationView<S>,
    inner: SharedView,
    token: Token,
    interest: Interest,
)
    requires
        registration.registered_in(inner),
    ensures
        registration.with_details(token, interest).registered_in(
            registration.updated(inner, token, interest),
        ),
        registration.updated(inner, token, interest) == inner.with(
            registration.id,
            (token, interest),
        ),
        !registration.with_details(token, interest).differs(token, interest),
{
    assert(registration.updated(inner, token, interest).registrations == inner.with(
        registration.id,
        (token, interest),
    ).registrations);
}

/// Registering makes the registration known to the shared state, and reporting events
/// keeps it known.
pub proof fn registrations_are_known<S>(
    registration: RegistrationView<S>,
    inner: SharedView,
    reporter: RegistrationView<S>,
    kind: EventKind,
)
    ensures
        registration.registered_in(
            inner.with(registration.id, (registration.token, registration.interest)),
        ),
        registration.registered_in(inner) ==> registration.registered_in(
            reporter.pushed(inner, kind),
        ),
{
}

/// Registering, changing and ending one registration leaves the others alone.
pub proof fn registrations_are_independent<S>(
    other: RegistrationView<S>,
    inner: SharedView,
    id: RegistrationId,
    details: Details,
)
    requires
        other.registered_in(inner),
        other.id != id,
    ensures
        other.registered_in(inner.with(id, details)),
        other.registered_in(inner.without(id)),
{
}

/// Registering sets one entry and nothing else.
pub proof fn registering_sets_one_entry(
    inner: SharedView,
    id: RegistrationId,
    details: Details,
    other: usize,
)
    ensures
        inner.with(id, details).registrations.contains_key(id.0),
        inner.with(id, details).registrations[id.0] == details,
        other != id.0 ==> (inner.with(id, details).registrations.contains_key(other)
            <==> inner.registrations.contains_key(other)),
        other != id.0 ==> inner.with(id, details).registrations[other]
            == inner.registrations[other],
        inner.with(id, details).queue == inner.queue,
        inner.with(id, details).connected == inner.connected,
{
}

/// Ending a registration removes one entry and nothing else.
pub proof fn ending_removes_one_entry(inner: SharedView, id: RegistrationId, other: usize)
    ensures
        !inner.without(id).registrations.contains_key(id.0),
        other != id.0 ==> (inner.without(id).registrations.contains_key(other)
            <==> inner.registrations.contains_key(other)),
        other != id.0 && inner.registrations.contains_key(other) ==> inner.without(
            id,
        ).registrations[other] == inner.registrations[other],
        inner.without(id).queue == inner.queue,
        inner.without(id).connected == inner.connected,
{
}

/// A registration that changes its details keeps its id and its cell, and changes its own
/// entry and nothing else.
pub proof fn change_touches_own_entry_only<S>(
    registration: RegistrationView<S>,
    inner: SharedView,
    token: Token,
    interest: Interest,
    other: usize,
)
    ensures
        registration.differs(token, interest) <==> !(registration.token == token
            && registration.interest == interest),
        registration.with_details(token, interest).id == registration.id,
        registration.with_details(token, interest).shared_inner == registration.shared_inner,
        registration.with_details(token, interest).token == token,
        registration.with_details(token, interest).interest == interest,
        registration.updated(inner, token, interest).queue == inner.queue,
        registration.updated(inner, token, interest).connected == inner.connected,
        registration.token == token && registration.interest == interest ==> registration.updated(
            inner,
            token,
            interest,
        ) == inner,
        registration.token != token || registration.interest != interest ==> registration.updated(
            inner,
            token,
            interest,
        ).registrations.contains_key(registration.id.0) && registration.updated(
            inner,
            token,
            interest,
        ).registrations[registration.id.0] == (token, interest),
        other != registration.id.0 ==> (registration.updated(
            inner,
            token,
            interest,
        ).registrations.contains_key(other) <==> inner.registrations.contains_key(other)),
        other != registration.id.0 ==> registration.updated(
            inner,
            token,
            interest,
        ).registrations[other] == inner.registrations[other],
{
}

/// The shared state knows a registration exactly if its token and interest stand under
/// its id.
pub proof fn known_means_entered<S>(registration: RegistrationView<S>, inner: SharedView)
    ensures
        registration.registered_in(inner) <==> inner.registrations.contains_key(registration.id.0)
            && inner.registrations[registration.id.0].0 == registration.token
            && inner.registrations[registration.id.0].1 == registration.interest,
{
}

/// A report adds one message at the end of the queue, or none, and nothing else changes.
/// Where somebody is left to poll, the queue gets longer exactly if the kind is wanted,
/// which is when the poll is woken.
pub proof fn report_adds_one_message<S>(
    registration: RegistrationView<S>,
    inner: SharedView,
    kind: EventKind,
)
    ensures
        ({
            let pushed = registration.pushed(inner, kind);
            &&& pushed.registrations == inner.registrations
            &&& pushed.connected == inner.connected
            &&& pushed.queue == inner.queue || pushed.queue == inner.queue.push(
                (registration.id, kind),
            )
            &&& inner.connected ==> (pushed.queue.len() > inner.queue.len() <==> kind.wanted_by(
                registration.interest,
            ))
            &&& !inner.connected ==> pushed.queue == inner.queue
        }),
{
}

/// All ids in use lie below this number.
pub open spec fn ids_below(registrations: Map<usize, Details>, n: usize) -> bool {
    forall|id: usize| #[trigger] registrations.contains_key(id) ==> id < n
}

/// A new registration gets an id that nobody has, and so will the next one, until the
/// counter starts over.
pub proof fn new_ids_are_unused(inner: SharedView, next: usize, details: Details)
    requires
        ids_below(inner.registrations, next),
    ensures
        !inner.registrations.contains_key(next),
        next < usize::MAX ==> ids_below(
            inner.with(RegistrationId(next), details).registrations,
            successor(next),
        ),
{
}

/// Ending a registration keeps all ids in use below the counter.
pub proof fn ended_ids_stay_below(inner: SharedView, next: usize, id: RegistrationId)
    requires
        ids_below(inner.registrations, next),
    ensures
        ids_below(inner.without(id).registrations, next),
{
}

/// Ending a registration undoes making it.
pub proof fn ending_undoes_registering(inner: SharedView, id: RegistrationId, details: Details)
    requires
        !inner.registrations.contains_key(id.0),
    ensures
        inner.with(id, details).without(id) == inner,
{
    assert(inner.registrations.insert(id.0, details).remove(id.0) == inner.registrations);
}

/// Fetching a result and asking for the next call change nothing but the accept state: the
/// listener stays registered, as it was, on the same descriptor.
pub proof fn accepting_changes_the_accept_state_only<C, T, S>(listener: ListenerView<C, T, S>)
    ensures
        listener.fetched().fd == listener.fd,
        listener.fetched().registration == listener.registration,
        listener.fetched().provider == listener.provider,
        listener.scheduled().fd == listener.fd,
        listener.scheduled().registration == listener.registration,
        listener.scheduled().provider == listener.provider,
        listener.accept_state is Pending ==> listener.fetched().accept_state
            == listener.accept_state,
        !(listener.accept_state is Pending) ==> listener.fetched().accept_state is New,
        listener.provider is None || !(listener.accept_state is New)
            ==> listener.scheduled().accept_state == listener.accept_state,
        listener.provider is Some && listener.accept_state is New
            ==> listener.scheduled().accept_state == State::<(), Option<C>, T>::Pending(None),
{
}

/// A call is asked for exactly if there is a provider and neither a call nor its result,
/// and then for the listener's descriptor through that provider.
pub proof fn request_is_for_this_listener<C, T, S>(
    listener: ListenerView<C, T, S>,
    request: Option<AcceptRequest<S>>,
)
    requires
        listener.requested(request),
    ensures
        request is Some <==> listener.provider is Some && listener.accept_state is New,
        request is Some ==> request->0.fd == listener.fd,
        request is Some ==> Some(request->0.provider@) == listener.provider,
        listener.wants_accept() <==> request is Some,
{
}

/// The end of a call changes nothing but the accept state, which then holds the result;
/// the end of a registration changes nothing but the registration.
pub proof fn endings_change_one_thing<C, T, S>(
    listener: ListenerView<C, T, S>,
    result: Result<T, std::io::Error>,
)
    ensures
        listener.completed(result).fd == listener.fd,
        listener.completed(result).registration == listener.registration,
        listener.completed(result).provider == listener.provider,
        result matches Ok(stream) ==> listener.completed(result).accept_state == State::<
            (),
            Option<C>,
            T,
        >::Ready(stream),
        result matches Err(error) ==> listener.completed(result).accept_state == State::<
            (),
            Option<C>,
            T,
        >::Error(error),
        listener.completed(result).accept_state == finished::<(), Option<C>, T>(result),
        listener.deregistered().fd == listener.fd,
        listener.deregistered().accept_state == listener.accept_state,
        listener.deregistered().provider == listener.provider,
        listener.deregistered().registration is None,
{
}

/// What waits to be fetched, and the event that tells of it, goes by the result of the
/// call alone, whoever is registered.
pub proof fn waiting_result_has_its_kind<C, T, S>(
    listener: ListenerView<C, T, S>,
    result: Result<T, std::io::Error>,
)
    ensures
        listener.completed(result).unfetched_kind() == Some(completion_kind(result)),
        result is Ok ==> completion_kind(result) == EventKind::Readable,
        result is Err ==> completion_kind(result) == EventKind::ReadError,
        listener.accept_state is Ready ==> listener.unfetched_kind() == Some(EventKind::Readable),
        listener.accept_state is Error ==> listener.unfetched_kind() == Some(EventKind::ReadError),
        listener.accept_state is New || listener.accept_state is Pending
            ==> listener.unfetched_kind() is None,
        listener.accept_state is New || listener.accept_state is Pending <==> listener.accept_result()
            == Err::<T, Error>(Error::WouldBlock),
{
}

/// Whoever queues an event wakes the poll: a listener reports to its registration and to
/// nobody else, and where somebody is left to poll, it asks for a wake-up exactly if the
/// queue got longer.
pub proof fn report_wakes_the_poll<C, T, S>(
    listener: ListenerView<C, T, S>,
    inner: SharedView,
    kind: EventKind,
)
    ensures
        listener.registration is Some ==> (listener.announces(kind) <==> kind.wanted_by(
            listener.registration->0.interest,
        )),
        listener.registration is None ==> !listener.announces(kind),
        inner.connected ==> (listener.announces(kind) <==> listener.pushed(inner, kind).queue.len()
            > inner.queue.len()),
        listener.pushed(inner, kind).registrations == inner.registrations,
        listener.pushed(inner, kind).connected == inner.connected,
        listener.pushed(inner, kind).queue.len() > inner.queue.len() ==> listener.pushed(
            inner,
            kind,
        ).queue == inner.queue.push((listener.registration->0.id, kind)),
        listener.pushed(inner, kind).queue.len() <= inner.queue.len() ==> listener.pushed(
            inner,
            kind,
        ).queue == inner.queue,
{
}

/// A listener that was registered, had a connection, and was asked for it hears of the next
/// end of a call just as of the first one.
pub proof fn every_completion_is_delivered<C, T, S>(
    listener: ListenerView<C, T, S>,
    first: Result<T, std::io::Error>,
    second: Result<T, std::io::Error>,
    inner: SharedView,
)
    requires
        listener.wf(),
        listener.accept_state is Pending,
        listener.registration is Some,
        listener.registration->0.registered_in(inner),
        inner.connected,
    ensures
        ({
            let next = listener.completed(first).fetched().scheduled();
            let pushed = next.pushed(inner, completion_kind(second));
            let registration = listener.registration->0;
            &&& next.accept_state is Pending
            &&& next.wf()
            &&& second is Err || registration.interest != Interest::Writable ==> next.announces(
                completion_kind(second),
            ) && delivered(pushed.registrations, pushed.queue) == delivered(
                inner.registrations,
                inner.queue,
            ).push(
                Event {
                    kind: if second is Err {
                        EventKind::ReadError
                    } else {
                        EventKind::Readable
                    },
                    token: registration.token,
                },
            )
        }),
{
    let next = listener.completed(first).fetched().scheduled();
    completion_is_delivered(next, inner, second);
}

/// A listener whose details change while a result waits to be fetched tells of it again,
/// under the new token and by the new interest, whatever the old ones were.
pub proof fn change_tells_of_a_waiting_result<C, T, S>(
    listener: ListenerView<C, T, S>,
    inner: SharedView,
    token: Token,
    interest: Interest,
)
    requires
        listener.registration is Some,
        listener.registration->0.registered_in(inner),
        listener.registration->0.token != token || listener.registration->0.interest != interest,
        inner.connected,
        listener.unfetched_kind() is Some,
    ensures
        ({
            let registration = listener.registration->0;
            let changed = ListenerView {
                registration: Some(registration.with_details(token, interest)),
                ..listener
            };
            let updated = registration.updated(inner, token, interest);
            let pushed = changed.pushed(updated, listener.unfetched_kind()->0);
            let told = delivered(updated.registrations, updated.queue);
            &&& listener.accept_state is Error ==> delivered(pushed.registrations, pushed.queue)
                == told.push(Event { kind: EventKind::ReadError, token })
            &&& listener.accept_state is Ready && interest != Interest::Writable ==> delivered(
                pushed.registrations,
                pushed.queue,
            ) == told.push(Event { kind: EventKind::Readable, token })
            &&& listener.accept_state is Ready && interest == Interest::Writable ==> delivered(
                pushed.registrations,
                pushed.queue,
            ) == told
        }),
{
    let registration = listener.registration->0;
    changed_details_are_registered(registration, inner, token, interest);
    reported_event_is_delivered(
        registration.with_details(token, interest),
        registration.updated(inner, token, interest),
        listener.unfetched_kind()->0,
    );
}

/// A listener that is deregistered or closed takes its own entry with it and leaves
/// everyone else alone: the queue stays, others stay registered, what is queued turns into
/// the events of the others, and what another one reports afterwards is delivered.
pub proof fn release_affects_nobody_else<C, T, S>(
    listener: ListenerView<C, T, S>,
    inner: SharedView,
    other: RegistrationView<S>,
    kind: EventKind,
)
    requires
        listener.registration is Some,
        other.registered_in(inner),
        other.id != listener.registration->0.id,
    ensures
        ({
            let id = listener.registration->0.id;
            let after = listener.released(inner);
            let told = delivered(after.registrations, after.queue);
            let pushed = other.pushed(after, kind);
            &&& !after.registrations.contains_key(id.0)
            &&& after.queue == inner.queue
            &&& after.connected == inner.connected
            &&& other.registered_in(after)
            &&& told == delivered(inner.registrations, inner.queue.filter(|m: Message| m.0 != id))
            &&& inner.connected && kind.wanted_by(other.interest) ==> delivered(
                pushed.registrations,
                pushed.queue,
            ) == told.push(Event { kind, token: other.token })
        }),
{
    let id = listener.registration->0.id;
    registrations_are_independent(other, inner, id, (other.token, other.interest));
    ended_registration_hears_nothing(inner, id, inner.queue);
    if inner.connected {
        reported_event_is_delivered(other, listener.released(inner), kind);
    }
}

/// Releasing a listener that is not registered changes nothing.
pub proof fn release_of_unregistered_changes_nothing<C, T, S>(
    listener: ListenerView<C, T, S>,
    inner: SharedView,
)
    requires
        listener.registration is None,
    ensures
        listener.released(inner) == inner,
{
}

/// A listener is well-formed exactly if its registration and its provider belong to one
/// selector, and a provider goes with a call in flight or a waiting result.
pub proof fn provider_goes_with_a_call<C, T, S>(listener: ListenerView<C, T, S>)
    ensures
        listener.wf() && listener.registration is Some ==> listener.provider == Some(
            listener.registration->0.shared_inner,
        ),
        listener.wf() && listener.provider is Some ==> listener.accept_state is Pending
            || listener.unfetched_kind() is Some,
        listener.wf() && listener.provider is None ==> listener.accept_state is New,
{
}

/// A listener has at most one accept call in flight: it wants none while one is,
/// and none right after it asked for one.
pub proof fn one_call_in_flight<C, T, S>(listener: ListenerView<C, T, S>)
    ensures
        listener.accept_state is Pending ==> !listener.wants_accept(),
        !listener.scheduled().wants_accept(),
        listener.wants_accept() ==> listener.scheduled().accept_state is Pending,
{
}

/// The result of an accept call is fetched exactly once: the first caller that asks
/// gets it, the next one is told to wait, and by then the next call is in flight.
pub proof fn result_is_fetched_once<C, T, S>(
    listener: ListenerView<C, T, S>,
    result: Result<T, std::io::Error>,
)
    requires
        listener.wf(),
        listener.accept_state is Pending,
    ensures
        listener.accept_result() == Err::<T, Error>(Error::WouldBlock),
        listener.completed(result).accept_result() == match result {
            Ok(stream) => Ok(stream),
            Err(error) => Err(Error::Io(error)),
        },
        ({
            let next = listener.completed(result).fetched();
            &&& next.wants_accept()
            &&& next.scheduled().accept_state == State::<(), Option<C>, T>::Pending(None)
            &&& next.scheduled().accept_result() == Err::<T, Error>(Error::WouldBlock)
        }),
{
}

/// The end of an accept call reaches whoever is registered: a connection if reading
/// is of interest, a failure in any case.
pub proof fn completion_is_delivered<C, T, S>(
    listener: ListenerView<C, T, S>,
    inner: SharedView,
    result: Result<T, std::io::Error>,
)
    requires
        listener.registration is Some,
        listener.registration->0.registered_in(inner),
        inner.connected,
    ensures
        ({
            let registration = listener.registration->0;
            let kind = completion_kind(result);
            let pushed = listener.pushed(inner, kind);
            delivered(pushed.registrations, pushed.queue) == if result is Err
                || registration.interest.wants_read() {
                delivered(inner.registrations, inner.queue).push(
                    Event { kind, token: registration.token },
                )
            } else {
                delivered(inner.registrations, inner.queue)
            }
        }),
{
    reported_event_is_delivered(listener.registration->0, inner, completion_kind(result));
}

/// A listener whose registration has ended reports nothing.
pub proof fn deregistered_listener_is_silent<C, T, S>(
    listener: ListenerView<C, T, S>,
    inner: SharedView,
    kind: EventKind,
)
    ensures
        !listener.deregistered().announces(kind),
        listener.deregistered().pushed(inner, kind) == inner,
{
}

/// A wake-up is heard: the event that the waker reports is handed out, with the
/// waker's token.
pub proof fn wake_up_is_delivered<S>(waker: RegistrationView<S>, inner: SharedView)
    requires
        waker.interest is Readable,
        waker.registered_in(inner),
        inner.connected,
    ensures
        ({
            let pushed = waker.pushed(inner, EventKind::Readable);
            delivered(pushed.registrations, pushed.queue) == delivered(
                inner.registrations,
                inner.queue,
            ).push(Event { kind: EventKind::Readable, token: waker.token })
        }),
{
    reported_event_is_delivered(waker, inner, EventKind::Readable);
}

} // verus!
