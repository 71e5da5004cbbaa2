//! What a caller asks for when it registers: a token to be told apart by, and
//! the kinds of readiness it wants to hear of.

use vstd::prelude::*;

verus! {

/// A number chosen by the caller, handed back with every event of the
/// registration that it was given for.
#[derive(Clone, Copy, Debug, PartialEq, Eq, PartialOrd, Ord, Hash, Structural)]
pub struct Token(pub usize);

/// A non-empty set of the two kinds of readiness.
#[derive(Clone, Copy, Debug, PartialEq, Eq, Hash, Structural)]
pub enum Interest {
    Readable,
    Writable,
    ReadableWritable,
}

impl Interest {
    /// Interest in readable readiness alone.
    pub const READABLE: Interest = Interest::Readable;

    /// Interest in writable readiness alone.
    pub const WRITABLE: Interest = Interest::Writable;

    pub open spec fn wants_read(self) -> bool {
        self is Readable || self is ReadableWritable
    }

    pub open spec fn wants_write(self) -> bool {
        self is Writable || self is ReadableWritable
    }

    /// The union of two interests.
    pub fn add(self, other: Interest) -> (both: Interest)
        ensures
            both.wants_read() == (self.wants_read() || other.wants_read()),
            both.wants_write() == (self.wants_write() || other.wants_write()),
    {
        if self == other {
            self
        } else {
            Interest::ReadableWritable
        }
    }

    pub fn is_readable(self) -> (yes: bool)
        ensures
            yes == self.wants_read(),
    {
        match self {
            Interest::Readable | Interest::ReadableWritable => true,
            Interest::Writable => false,
        }
    }

    pub fn is_writable(self) -> (yes: bool)
        ensures
            yes == self.wants_write(),
    {
        match self {
            Interest::Writable | Interest::ReadableWritable => true,
            Interest::Readable => false,
        }
    }
}

} // verus!
