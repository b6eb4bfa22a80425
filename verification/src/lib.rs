//! Single-threaded submission/completion lifecycle manager for a kernel
//! ring-buffer I/O interface.
//!
//! The crate verifies the bookkeeping around asynchronous submissions: a
//! dense-key pending table mapping kernel tags to wake tokens, the oneshot
//! and multishot result stores with their slot state machines, and the
//! user-facing I/O handles that drive submission, polling and teardown.
//! The blocking kernel calls themselves (submitting descriptors, waiting
//! for completions, cancelling by tag) live with the embedding runtime,
//! which hands raw completions to [`reactor::Reactor::react`] as plain
//! values.

pub mod io;
pub mod multishot;
pub mod oneshot;
pub mod quiescence;
pub mod slot_table;
pub mod reactor;
pub mod stores;
