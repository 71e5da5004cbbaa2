//! The event selector of a non-blocking I/O library for SGX enclaves.
//!
//! An enclave cannot wait on file descriptors itself.  It submits usercalls to
//! the host and is called back with their results.  This crate holds the rules
//! that turn those results into readiness events: who is registered for what,
//! which events are queued and which of them a poll hands out, and how a
//! listening socket keeps one accept call in flight.
//!
//! Nothing here blocks, locks or calls the host.  State that several handles
//! share is passed in by `&mut`, and what the host has to do is returned as a
//! value.

pub mod channel;
pub mod error;
pub mod event;
pub mod id;
pub mod interest;
pub mod laws;
pub mod listener;
pub mod selector;
pub mod state;
pub mod waker;
