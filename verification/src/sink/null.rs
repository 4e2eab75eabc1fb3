use vstd::prelude::*;
use std::marker::PhantomData;

verus! {

/// Sink that accepts and ignores everything sent to it.
///
/// `T` and `E` are respectively the sink item and error types.
#[derive(Debug)]
pub struct Null<T, E> {
    item_phantom: PhantomData<T>,
    error_phantom: PhantomData<E>,
}

impl<T, E> Null<T, E> {
    /// Creates a new `Null` sink.
    pub fn new() -> Self {
        Null { item_phantom: PhantomData, error_phantom: PhantomData }
    }

    /// Accepts `item` and drops it. Never fails.
    pub fn start_send(&mut self, item: T) -> (sent: Result<(), E>)
        ensures
            sent is Ok,
    {
        Ok(())
    }

    /// Completes whatever was sent, which is nothing. Never fails and is always ready.
    pub fn poll_complete(&mut self) -> (done: Result<(), E>)
        ensures
            done is Ok,
    {
        Ok(())
    }
}

impl<T, E> Default for Null<T, E> {
    fn default() -> Self {
        Null::new()
    }
}

} // verus!
