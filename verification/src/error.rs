//! Why an operation on an I/O source failed.

use vstd::prelude::*;

verus! {

/// An error of the operating system, opaque to the verifier.
#[verifier::external_type_specification]
#[verifier::external_body]
pub struct ExIoError(std::io::Error);

#[derive(Debug)]
pub enum Error {
    /// There is no result yet; an event will tell when to try again.
    WouldBlock,
    /// The caller asked for something that the state of the source does not allow.
    Other(&'static str),
    /// The host reported this error.
    Io(std::io::Error),
}

} // verus!
