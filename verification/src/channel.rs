//! The queue between those who report events and the poll that hands them out:
//! an unbounded channel of which one value owns both ends.

use crossbeam_channel::{Receiver, Sender};
use vstd::prelude::*;

use crate::event::EventKind;
use crate::id::RegistrationId;

verus! {

/// An event on its way to a poll: which registration it is for, and its kind.
pub type Message = (RegistrationId, EventKind);

/// The sending end of a channel, opaque to the verifier.
#[verifier::external_type_specification]
#[verifier::external_body]
#[verifier::reject_recursive_types(T)]
pub struct ExSender<T>(Sender<T>);

/// The receiving end of a channel, opaque to the verifier.
#[verifier::external_type_specification]
#[verifier::external_body]
#[verifier::reject_recursive_types(T)]
pub struct ExReceiver<T>(Receiver<T>);

/// The messages that wait in the channel of this receiving end, the oldest first.
pub uninterp spec fn channel_messages(receiver: Receiver<Message>) -> Seq<Message>;

/// Whether the two are the ends of one channel without a limit on its messages,
/// and the channel has no other ends.
pub uninterp spec fn channel_ends(sender: Sender<Message>, receiver: Receiver<Message>) -> bool;

/// Both ends of the event queue.  Neither end is ever cloned or lent out, so the
/// messages in it change only through the methods below.
pub struct EventChannel {
    sender: Sender<Message>,
    receiver: Receiver<Message>,
}

impl View for EventChannel {
    type V = Seq<Message>;

    /// The waiting messages, the oldest first.
    closed spec fn view(&self) -> Seq<Message> {
        channel_messages(self.receiver)
    }
}

/// Calls `crossbeam_channel::unbounded`, which makes a channel with no limit on
/// its messages and none in it, and returns its only two ends.
#[verifier::external_body]
fn channel_unbounded() -> (ends: (Sender<Message>, Receiver<Message>))
    ensures
        channel_ends(ends.0, ends.1),
        channel_messages(ends.1) == Seq::<Message>::empty(),
{
    crossbeam_channel::unbounded()
}

impl EventChannel {
    /// The two ends belong together.  Every value of this type is built with a
    /// proof of it.
    #[verifier::type_invariant]
    closed spec fn connected(self) -> bool {
        channel_ends(self.sender, self.receiver)
    }

    pub fn new() -> (channel: EventChannel)
        ensures
            channel@ == Seq::<Message>::empty(),
    {
        let (sender, receiver) = channel_unbounded();
        EventChannel { sender, receiver }
    }

    /// Calls `crossbeam_channel::Sender::send`, which puts the message behind all
    /// those that wait.  On a channel without a limit it does not block, and it
    /// fails only when no receiving end is left; here it is a field of `self`.
    #[verifier::external_body]
    pub(crate) fn send(&mut self, message: Message)
        ensures
            final(self)@ == old(self)@.push(message),
    {
        let _ = self.sender.send(message);
    }

    /// Calls `next` on `crossbeam_channel::Receiver::try_iter`, which takes the
    /// oldest message out of the channel without blocking, and gives `None` if
    /// there is none.
    #[verifier::external_body]
    pub(crate) fn try_next(&mut self) -> (next: Option<Message>)
        ensures
            match next {
                Some(message) => old(self)@.len() > 0 && message == old(self)@[0] && final(self)@
                    == old(self)@.drop_first(),
                None => old(self)@.len() == 0 && final(self)@ == old(self)@,
            },
    {
        self.receiver.try_iter().next()
    }

    /// Calls `crossbeam_channel::Receiver::is_empty`, which tells whether no
    /// message waits in the channel.
    #[verifier::external_body]
    pub(crate) fn is_empty(&self) -> (empty: bool)
        ensures
            empty == (self@.len() == 0),
    {
        self.receiver.is_empty()
    }
}

} // verus!
