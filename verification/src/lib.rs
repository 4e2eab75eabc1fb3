//! Combinators for asynchronous streams, sinks and futures, as verified state machines.
//!
//! Every combinator here is the deciding half of an asynchronous adapter: it owns the
//! bookkeeping, is told what each poll of a source produced, and answers what the
//! adapter must report to its own caller. Polling itself, which needs a task context,
//! is left to the caller.

pub mod future;
pub mod sink;
pub mod stream;
