//! Readiness events and the questions that can be asked of them.

use vstd::prelude::*;

use crate::interest::{Interest, Token};

verus! {

/// What happened to an I/O source.
#[derive(Clone, Copy, Debug, PartialEq, Eq, Structural)]
pub enum EventKind {
    Readable,
    ReadClosed,
    ReadError,
    Writable,
    WriteClosed,
    WriteError,
}

impl EventKind {
    /// The kinds that concern reading.
    pub open spec fn read_side(self) -> bool {
        self is Readable || self is ReadClosed || self is ReadError
    }

    /// The kinds that concern writing.
    pub open spec fn write_side(self) -> bool {
        self is Writable || self is WriteClosed || self is WriteError
    }

    /// The kinds that report a failure.
    pub open spec fn failure(self) -> bool {
        self is ReadError || self is WriteError
    }

    /// Whether a registration with this interest hears of an event of this kind.
    /// Failures are always reported.
    pub open spec fn wanted_by(self, interest: Interest) -> bool {
        self.failure() || (self.read_side() && interest.wants_read()) || (self.write_side()
            && interest.wants_write())
    }

    pub fn matches_interest(&self, interest: &Interest) -> (yes: bool)
        ensures
            yes == self.wanted_by(*interest),
    {
        match self {
            EventKind::Readable | EventKind::ReadClosed => interest.is_readable(),
            EventKind::Writable | EventKind::WriteClosed => interest.is_writable(),
            EventKind::ReadError | EventKind::WriteError => true,
        }
    }
}

/// An event as a poll reports it.
#[derive(Clone, Copy, Debug, PartialEq, Eq, Structural)]
pub struct Event {
    pub kind: EventKind,
    pub token: Token,
}

/// The buffer that a poll fills.
pub type Events = Vec<Event>;

impl Event {
    pub fn new(kind: EventKind, token: Token) -> (event: Event)
        ensures
            event == (Event { kind, token }),
    {
        Event { kind, token }
    }
}

/// The token of the registration that the event belongs to.
pub fn token(e: &Event) -> (token: Token)
    ensures
        token == e.token,
{
    e.token
}

pub fn is_readable(e: &Event) -> (yes: bool)
    ensures
        yes == e.kind.read_side(),
{
    match e.kind {
        EventKind::Readable | EventKind::ReadClosed | EventKind::ReadError => true,
        _ => false,
    }
}

pub fn is_writable(e: &Event) -> (yes: bool)
    ensures
        yes == e.kind.write_side(),
{
    match e.kind {
        EventKind::Writable | EventKind::WriteClosed | EventKind::WriteError => true,
        _ => false,
    }
}

pub fn is_error(e: &Event) -> (yes: bool)
    ensures
        yes == e.kind.failure(),
{
    match e.kind {
        EventKind::ReadError | EventKind::WriteError => true,
        _ => false,
    }
}

pub fn is_read_closed(e: &Event) -> (yes: bool)
    ensures
        yes == (e.kind is ReadClosed),
{
    match e.kind {
        EventKind::ReadClosed => true,
        _ => false,
    }
}

pub fn is_write_closed(e: &Event) -> (yes: bool)
    ensures
        yes == (e.kind is WriteClosed),
{
    match e.kind {
        EventKind::WriteClosed => true,
        _ => false,
    }
}

/// Enclaves have no priority events.
pub fn is_priority(_e: &Event) -> (yes: bool)
    ensures
        !yes,
{
    false
}

/// Enclaves have no asynchronous file I/O events.
pub fn is_aio(_e: &Event) -> (yes: bool)
    ensures
        !yes,
{
    false
}

/// Enclaves have no list I/O events.
pub fn is_lio(_e: &Event) -> (yes: bool)
    ensures
        !yes,
{
    false
}

/// The character for a digit.
pub open spec fn digit(d: nat) -> char {
    (('0' as int) + d) as char
}

/// A number in decimal notation.
pub open spec fn decimal(n: nat) -> Seq<char>
    decreases n,
{
    if n < 10 {
        seq![digit(n)]
    } else {
        decimal(n / 10).push(digit(n % 10))
    }
}

impl EventKind {
    /// The name of the kind.
    pub open spec fn name(self) -> Seq<char> {
        match self {
            EventKind::Readable => "Readable"@,
            EventKind::ReadClosed => "ReadClosed"@,
            EventKind::ReadError => "ReadError"@,
            EventKind::Writable => "Writable"@,
            EventKind::WriteClosed => "WriteClosed"@,
            EventKind::WriteError => "WriteError"@,
        }
    }
}

/// An event in the form that a debugging format gives it, on one line or, where
/// `alternate` is set, on several.
pub open spec fn debug_text(e: Event, alternate: bool) -> Seq<char> {
    if alternate {
        "Event {\n    kind: "@ + e.kind.name() + ",\n    token: Token(\n        "@ + decimal(
            e.token.0 as nat,
        ) + ",\n    ),\n}"@
    } else {
        "Event { kind: "@ + e.kind.name() + ", token: Token("@ + decimal(e.token.0 as nat) + ") }"@
    }
}

fn digit_text(d: usize) -> (text: &'static str)
    requires
        d < 10,
    ensures
        text@ == seq![digit(d as nat)],
{
    proof {
        reveal_strlit("0");
        reveal_strlit("1");
        reveal_strlit("2");
        reveal_strlit("3");
        reveal_strlit("4");
        reveal_strlit("5");
        reveal_strlit("6");
        reveal_strlit("7");
        reveal_strlit("8");
        reveal_strlit("9");
    }
    match d {
        0 => "0",
        1 => "1",
        2 => "2",
        3 => "3",
        4 => "4",
        5 => "5",
        6 => "6",
        7 => "7",
        8 => "8",
        _ => "9",
    }
}

fn append_decimal(text: &mut String, n: usize)
    ensures
        final(text)@ == old(text)@ + decimal(n as nat),
    decreases n,
{
    if n >= 10 {
        append_decimal(text, n / 10);
    }
    text.append(digit_text(n % 10));
}

fn kind_text(kind: EventKind) -> (text: &'static str)
    ensures
        text@ == kind.name(),
{
    match kind {
        EventKind::Readable => "Readable",
        EventKind::ReadClosed => "ReadClosed",
        EventKind::ReadError => "ReadError",
        EventKind::Writable => "Writable",
        EventKind::WriteClosed => "WriteClosed",
        EventKind::WriteError => "WriteError",
    }
}

/// Describes an event for debugging.
pub fn debug_details(e: &Event, alternate: bool) -> (text: String)
    ensures
        text@ == debug_text(*e, alternate),
{
    let mut text = String::new();
    if alternate {
        text.append("Event {\n    kind: ");
        text.append(kind_text(e.kind));
        text.append(",\n    token: Token(\n        ");
        append_decimal(&mut text, e.token.0);
        text.append(",\n    ),\n}");
    } else {
        text.append("Event { kind: ");
        text.append(kind_text(e.kind));
        text.append(", token: Token(");
        append_decimal(&mut text, e.token.0);
        text.append(") }");
    }
    text
}

} // verus!
