# sgx_selector

The event selector of a non-blocking I/O library for SGX enclaves, written in
Verus.

An enclave cannot wait on descriptors.  It submits usercalls to the host and is
called back with their results.  The library decides what those results mean for
a poll: which events are queued, which of them a poll hands out, and when a
listening socket submits its next accept call.

## Layout

- `src/` is the verified library.  State that several handles share is passed to
  it by `&mut`; what the host has to do comes back as a value.
  - `interest`, `event`, `id`, `error`, `state`: the vocabulary.
  - `channel`: the event queue, a channel of `crossbeam-channel` of which one value
    owns both ends.
  - `selector`: selectors, registrations and the state that they share.
  - `waker`, `listener`: the two event sources.
  - `laws`: what holds of the operations taken together.

  Taken on trust are what `channel` says of the four channel operations and of the
  two ends' types, what `selector` says of `Vec::capacity` and
  `Duration::from_nanos`, and that `error` may carry a `std::io::Error` around.
- `app/` puts locks around the library and drives it with `async-usercalls`.  It
  builds for `x86_64-fortanix-unknown-sgx` only.
- `tests/` runs the library.
