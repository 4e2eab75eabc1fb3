use vstd::prelude::*;

verus! {

/// An item on its way to one of two destinations.
#[derive(Debug, PartialEq, Eq)]
pub enum Routed<L, R> {
    /// For the left destination.
    Left(L),
    /// For the right destination.
    Right(R),
}

/// What a destination answered when it was polled for readiness, flushing or closing.
#[derive(Debug, PartialEq, Eq)]
pub enum Progress<E> {
    /// The operation is complete.
    Ready,
    /// The destination failed.
    Failed(E),
    /// The operation is not complete yet; the destination will wake the task.
    NotReady,
}

/// What is to happen after a poll for readiness.
#[derive(Debug, PartialEq, Eq)]
pub enum Handoff<L, R, E> {
    /// The buffered item was released: it is to be sent to its destination, and the
    /// outcome of that is the answer.
    Send(Routed<L, R>),
    /// This is the answer.
    Report(Progress<E>),
}

/// The joint answer of two destinations that were both asked to flush or to close: the
/// failure of the left one if it failed, else that of the right one; ready if both
/// are; not ready otherwise.
pub open spec fn joint<E>(left: Progress<E>, right: Progress<E>) -> Progress<E> {
    match (left, right) {
        (Progress::Failed(e), _) => Progress::Failed(e),
        (_, Progress::Failed(e)) => Progress::Failed(e),
        (Progress::Ready, Progress::Ready) => Progress::Ready,
        _ => Progress::NotReady,
    }
}

/// The answer of a destination to closing, where a destination that has confirmed
/// before is not asked again and counts as ready.
pub open spec fn or_closed<E>(answer: Option<Progress<E>>) -> Progress<E> {
    match answer {
        Some(progress) => progress,
        None => Progress::Ready,
    }
}

/// Router in front of two destinations: every item is bound for the left or the right
/// one. At most one item is held back until its destination is ready for it, and each
/// destination's confirmation of closing is remembered.
///
/// `LV` and `RV` are the item types of the left and the right destination.
#[derive(Debug)]
pub struct Fork<LV, RV> {
    left_closed: bool,
    right_closed: bool,
    buffer: Option<Routed<LV, RV>>,
}

impl<LV, RV> Fork<LV, RV> {
    /// The item held back, if any.
    pub closed spec fn buffer(&self) -> Option<Routed<LV, RV>> {
        self.buffer
    }

    /// Whether the left destination has confirmed closing.
    pub closed spec fn left_closed(&self) -> bool {
        self.left_closed
    }

    /// Whether the right destination has confirmed closing.
    pub closed spec fn right_closed(&self) -> bool {
        self.right_closed
    }

    /// A router that holds nothing, in front of two open destinations.
    pub fn new() -> (fork: Self)
        ensures
            fork.buffer() is None,
            !fork.left_closed(),
            !fork.right_closed(),
    {
        Fork { left_closed: false, right_closed: false, buffer: None }
    }

    /// Whether an item is held back for the left destination, which is then to be
    /// polled for readiness.
    pub fn awaits_left(&self) -> (r: bool)
        ensures
            r == (self.buffer() matches Some(Routed::Left(_))),
    {
        matches!(&self.buffer, Some(Routed::Left(_)))
    }

    /// Whether an item is held back for the right destination, which is then to be
    /// polled for readiness.
    pub fn awaits_right(&self) -> (r: bool)
        ensures
            r == (self.buffer() matches Some(Routed::Right(_))),
    {
        matches!(&self.buffer, Some(Routed::Right(_)))
    }

    /// Whether the left destination is still to be asked to close.
    pub fn left_open(&self) -> (r: bool)
        ensures
            r == !self.left_closed(),
    {
        !self.left_closed
    }

    /// Whether the right destination is still to be asked to close.
    pub fn right_open(&self) -> (r: bool)
        ensures
            r == !self.right_closed(),
    {
        !self.right_closed
    }

    /// A poll for readiness. `readiness` is what the destination of the held item
    /// answered, `None` if no item is held. With nothing held the router is ready; a
    /// held item is released once its destination is ready, and stays otherwise.
    pub fn poll_ready<E>(&mut self, readiness: Option<Progress<E>>) -> (step: Handoff<LV, RV, E>)
        requires
            readiness is Some <==> old(self).buffer() is Some,
        ensures
            final(self).left_closed() == old(self).left_closed(),
            final(self).right_closed() == old(self).right_closed(),
            match (old(self).buffer(), readiness) {
                (Some(item), Some(Progress::Ready)) => step == Handoff::<LV, RV, E>::Send(item)
                    && final(self).buffer() is None,
                (Some(item), Some(answer)) => step == Handoff::<LV, RV, E>::Report(answer)
                    && final(self).buffer() == Some(item),
                _ => step == Handoff::<LV, RV, E>::Report(Progress::Ready)
                    && final(self).buffer() is None,
            },
    {
        match (self.buffer.take(), readiness) {
            (Some(item), Some(Progress::Ready)) => Handoff::Send(item),
            (Some(item), Some(answer)) => {
                self.buffer = Some(item);
                Handoff::Report(answer)
            },
            _ => Handoff::Report(Progress::Ready),
        }
    }

    /// Takes an item in. The router must hold none, which a poll for readiness that
    /// answered ready guarantees.
    pub fn start_send(&mut self, item: Routed<LV, RV>)
        requires
            old(self).buffer() is None,
        ensures
            final(self).buffer() == Some(item),
            final(self).left_closed() == old(self).left_closed(),
            final(self).right_closed() == old(self).right_closed(),
    {
        self.buffer = Some(item);
    }

    /// The answer to a flush, from what the two destinations answered to theirs.
    pub fn poll_flush<E>(&self, left: Progress<E>, right: Progress<E>) -> (out: Progress<E>)
        ensures
            out == joint(left, right),
    {
        Self::join(left, right)
    }

    /// The answer to closing, from what the destinations answered to theirs; `None`
    /// stands for a destination that confirmed before and was not asked again. A
    /// confirmation is remembered, so that closing is reported once both destinations
    /// have confirmed, in whichever calls they did.
    pub fn poll_close<E>(&mut self, left: Option<Progress<E>>, right: Option<Progress<E>>) -> (out:
        Progress<E>)
        requires
            left is Some <==> !old(self).left_closed(),
            right is Some <==> !old(self).right_closed(),
        ensures
            final(self).buffer() == old(self).buffer(),
            final(self).left_closed() == (old(self).left_closed() || left == Some(
                Progress::<E>::Ready,
            )),
            final(self).right_closed() == (old(self).right_closed() || right == Some(
                Progress::<E>::Ready,
            )),
            out == joint(or_closed(left), or_closed(right)),
            out is Ready <==> final(self).left_closed() && final(self).right_closed(),
    {
        let left_res = match left {
            Some(res) => {
                if let Progress::Ready = res {
                    self.left_closed = true;
                }
                res
            },
            None => Progress::Ready,
        };
        let right_res = match right {
            Some(res) => {
                if let Progress::Ready = res {
                    self.right_closed = true;
                }
                res
            },
            None => Progress::Ready,
        };
        Self::join(left_res, right_res)
    }

    fn join<E>(left: Progress<E>, right: Progress<E>) -> (out: Progress<E>)
        ensures
            out == joint(left, right),
    {
        match (left, right) {
            (Progress::Failed(e), _) => Progress::Failed(e),
            (_, Progress::Failed(e)) => Progress::Failed(e),
            (Progress::Ready, Progress::Ready) => Progress::Ready,
            _ => Progress::NotReady,
        }
    }
}

} // verus!
