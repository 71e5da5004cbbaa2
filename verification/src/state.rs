//! The progress of an operation that the host carries out.

use vstd::prelude::*;

verus! {

/// An operation is new, in flight, or over with a result or an error.
#[derive(Debug)]
pub enum State<N, P, R> {
    New(N),
    Pending(P),
    Ready(R),
    Error(std::io::Error),
}

impl<N, P, R> State<N, P, R> {
    pub fn is_new(&self) -> (yes: bool)
        ensures
            yes == (self is New),
    {
        match self {
            State::New(_) => true,
            _ => false,
        }
    }

    pub fn is_pending(&self) -> (yes: bool)
        ensures
            yes == (self is Pending),
    {
        match self {
            State::Pending(_) => true,
            _ => false,
        }
    }

    pub fn is_ready(&self) -> (yes: bool)
        ensures
            yes == (self is Ready),
    {
        match self {
            State::Ready(_) => true,
            _ => false,
        }
    }

    pub fn is_error(&self) -> (yes: bool)
        ensures
            yes == (self is Error),
    {
        match self {
            State::Error(_) => true,
            _ => false,
        }
    }
}

/// The state of an operation that ended with this result.
pub open spec fn finished<N, P, R>(result: Result<R, std::io::Error>) -> State<N, P, R> {
    match result {
        Ok(value) => State::Ready(value),
        Err(error) => State::Error(error),
    }
}

impl<N, P, R> From<Result<R, std::io::Error>> for State<N, P, R> {
    fn from(result: Result<R, std::io::Error>) -> (state: State<N, P, R>) {
        match result {
            Ok(value) => State::Ready(value),
            Err(error) => State::Error(error),
        }
    }
}

impl<N, P, R> vstd::std_specs::convert::FromSpecImpl<Result<R, std::io::Error>> for State<N, P, R> {
    open spec fn obeys_from_spec() -> bool {
        true
    }

    open spec fn from_spec(result: Result<R, std::io::Error>) -> State<N, P, R> {
        finished(result)
    }
}

} // verus!
