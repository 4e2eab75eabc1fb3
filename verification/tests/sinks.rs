//! The sink machines behind real sinks: each adapter below polls its destinations as
//! the machine asks and reports what the machine answers.

use either::{Either, Left, Right};
use futures::channel::mpsc;
use futures::executor::block_on;
use futures::stream;
use futures::{Sink, SinkExt, StreamExt};
use futuristic::sink::{Fork, Handoff, Null, Progress, Routed};
use std::marker::PhantomData;
use std::pin::Pin;
use std::task::{Context, Poll};

fn progress<E>(poll: Poll<Result<(), E>>) -> Progress<E> {
    match poll {
        Poll::Ready(Ok(())) => Progress::Ready,
        Poll::Ready(Err(e)) => Progress::Failed(e),
        Poll::Pending => Progress::NotReady,
    }
}

fn poll<E>(progress: Progress<E>) -> Poll<Result<(), E>> {
    match progress {
        Progress::Ready => Poll::Ready(Ok(())),
        Progress::Failed(e) => Poll::Ready(Err(e)),
        Progress::NotReady => Poll::Pending,
    }
}

struct ForkSink<T, LS, RS, F, LV, RV> {
    left_sink: LS,
    right_sink: RS,
    switch: F,
    fork: Fork<LV, RV>,
    phantom: PhantomData<fn(T)>,
}

impl<T, LS, RS, F, LV, RV> Unpin for ForkSink<T, LS, RS, F, LV, RV> {}

fn fork<T, LS, RS, F, LV, RV>(left_sink: LS, right_sink: RS, switch: F) -> ForkSink<T, LS, RS, F, LV, RV>
where
    F: FnMut(T) -> Either<LV, RV>,
    LS: Sink<LV> + Unpin,
    RS: Sink<RV, Error = LS::Error> + Unpin,
{
    ForkSink { left_sink, right_sink, switch, fork: Fork::new(), phantom: PhantomData }
}

impl<T, LS, RS, F, LV, RV> Sink<T> for ForkSink<T, LS, RS, F, LV, RV>
where
    F: FnMut(T) -> Either<LV, RV>,
    LS: Sink<LV> + Unpin,
    RS: Sink<RV, Error = LS::Error> + Unpin,
{
    type Error = LS::Error;

    fn poll_ready(mut self: Pin<&mut Self>, ctx: &mut Context<'_>) -> Poll<Result<(), Self::Error>> {
        let this = &mut *self;
        let readiness = if this.fork.awaits_left() {
            Some(progress(Pin::new(&mut this.left_sink).poll_ready(ctx)))
        } else if this.fork.awaits_right() {
            Some(progress(Pin::new(&mut this.right_sink).poll_ready(ctx)))
        } else {
            None
        };
        match this.fork.poll_ready(readiness) {
            Handoff::Send(Routed::Left(item)) => {
                Poll::Ready(Pin::new(&mut this.left_sink).start_send(item))
            }
            Handoff::Send(Routed::Right(item)) => {
                Poll::Ready(Pin::new(&mut this.right_sink).start_send(item))
            }
            Handoff::Report(answer) => poll(answer),
        }
    }

    fn start_send(mut self: Pin<&mut Self>, item: T) -> Result<(), Self::Error> {
        let this = &mut *self;
        assert!(!this.fork.awaits_left() && !this.fork.awaits_right());
        let routed = match (this.switch)(item) {
            Left(x) => Routed::Left(x),
            Right(x) => Routed::Right(x),
        };
        this.fork.start_send(routed);
        Ok(())
    }

    fn poll_flush(mut self: Pin<&mut Self>, ctx: &mut Context<'_>) -> Poll<Result<(), Self::Error>> {
        match self.as_mut().poll_ready(ctx) {
            Poll::Ready(Ok(())) => {}
            other => return other,
        }
        let this = &mut *self;
        let left = progress(Pin::new(&mut this.left_sink).poll_flush(ctx));
        let right = progress(Pin::new(&mut this.right_sink).poll_flush(ctx));
        poll(this.fork.poll_flush(left, right))
    }

    fn poll_close(mut self: Pin<&mut Self>, ctx: &mut Context<'_>) -> Poll<Result<(), Self::Error>> {
        match self.as_mut().poll_ready(ctx) {
            Poll::Ready(Ok(())) => {}
            other => return other,
        }
        let this = &mut *self;
        let left = if this.fork.left_open() {
            Some(progress(Pin::new(&mut this.left_sink).poll_close(ctx)))
        } else {
            None
        };
        let right = if this.fork.right_open() {
            Some(progress(Pin::new(&mut this.right_sink).poll_close(ctx)))
        } else {
            None
        };
        poll(this.fork.poll_close(left, right))
    }
}

struct NullSink<T, E>(Null<T, E>);

impl<T, E> Unpin for NullSink<T, E> {}

impl<T, E> Sink<T> for NullSink<T, E> {
    type Error = E;

    fn poll_ready(self: Pin<&mut Self>, _: &mut Context<'_>) -> Poll<Result<(), E>> {
        Poll::Ready(Ok(()))
    }

    fn start_send(mut self: Pin<&mut Self>, item: T) -> Result<(), E> {
        self.0.start_send(item)
    }

    fn poll_flush(mut self: Pin<&mut Self>, _: &mut Context<'_>) -> Poll<Result<(), E>> {
        Poll::Ready(self.0.poll_complete())
    }

    fn poll_close(mut self: Pin<&mut Self>, _: &mut Context<'_>) -> Poll<Result<(), E>> {
        Poll::Ready(self.0.poll_complete())
    }
}

#[test]
fn fork_it_works() {
    let numbers = stream::iter(0..10).map(Ok::<u32, ()>);
    let (even_sender, even_receiver) = mpsc::unbounded();
    let (odd_sender, odd_receiver) = mpsc::unbounded();
    let res = numbers.forward(
        fork(even_sender, odd_sender, |n| if n % 2 == 0 { Left(n) } else { Right(n) })
            .sink_map_err(|_| ()),
    );
    block_on(res).unwrap();
    let (even_nums, odd_nums) = (0..10).partition::<Vec<u32>, _>(|&n| n % 2 == 0);
    let received_evens = block_on(even_receiver.collect::<Vec<_>>());
    let received_odds = block_on(odd_receiver.collect::<Vec<_>>());
    assert_eq!(received_evens, even_nums);
    assert_eq!(received_odds, odd_nums);
}

#[test]
fn null_it_works() {
    block_on(stream::iter(0..10).map(Ok::<u32, ()>).forward(NullSink(Null::new())))
        .map(|_| ())
        .unwrap();
}

#[test]
fn null_default_accepts_everything() {
    let mut sink: Null<u8, ()> = Null::default();
    assert_eq!(sink.start_send(1), Ok(()));
    assert_eq!(sink.start_send(2), Ok(()));
    assert_eq!(sink.poll_complete(), Ok(()));
}

#[test]
fn fork_with_nothing_held_is_ready() {
    let mut fork: Fork<u8, char> = Fork::new();
    assert!(!fork.awaits_left());
    assert!(!fork.awaits_right());
    assert_eq!(fork.poll_ready::<()>(None), Handoff::Report(Progress::Ready));
}

#[test]
fn fork_holds_an_item_until_its_destination_is_ready() {
    let mut fork: Fork<u8, char> = Fork::new();
    fork.start_send(Routed::Right('x'));
    assert!(fork.awaits_right());
    assert!(!fork.awaits_left());
    assert_eq!(
        fork.poll_ready::<()>(Some(Progress::NotReady)),
        Handoff::Report(Progress::NotReady)
    );
    assert!(fork.awaits_right());
    assert_eq!(
        fork.poll_ready::<()>(Some(Progress::Ready)),
        Handoff::Send(Routed::Right('x'))
    );
    assert!(!fork.awaits_right());
    fork.start_send(Routed::Left(7));
    assert!(fork.awaits_left());
    assert_eq!(fork.poll_ready::<()>(Some(Progress::Ready)), Handoff::Send(Routed::Left(7)));
}

#[test]
fn fork_keeps_the_item_when_its_destination_fails() {
    let mut fork: Fork<u8, char> = Fork::new();
    fork.start_send(Routed::Left(1));
    assert_eq!(
        fork.poll_ready(Some(Progress::Failed("full"))),
        Handoff::Report(Progress::Failed("full"))
    );
    assert!(fork.awaits_left());
}

#[test]
fn fork_flush_needs_both_destinations() {
    let fork: Fork<u8, char> = Fork::new();
    assert_eq!(fork.poll_flush::<()>(Progress::Ready, Progress::Ready), Progress::Ready);
    assert_eq!(fork.poll_flush::<()>(Progress::Ready, Progress::NotReady), Progress::NotReady);
    assert_eq!(fork.poll_flush::<()>(Progress::NotReady, Progress::Ready), Progress::NotReady);
    assert_eq!(
        fork.poll_flush(Progress::NotReady, Progress::Failed(2)),
        Progress::Failed(2)
    );
    assert_eq!(
        fork.poll_flush(Progress::Failed(1), Progress::Failed(2)),
        Progress::Failed(1)
    );
}

#[test]
fn fork_remembers_which_destination_has_closed() {
    let mut fork: Fork<u8, char> = Fork::new();
    assert!(fork.left_open());
    assert!(fork.right_open());
    assert_eq!(
        fork.poll_close::<()>(Some(Progress::Ready), Some(Progress::NotReady)),
        Progress::NotReady
    );
    assert!(!fork.left_open());
    assert!(fork.right_open());
    assert_eq!(fork.poll_close::<()>(None, Some(Progress::Ready)), Progress::Ready);
    assert!(!fork.right_open());
}

#[test]
fn fork_close_reports_the_left_failure_first() {
    let mut fork: Fork<u8, char> = Fork::new();
    assert_eq!(
        fork.poll_close(Some(Progress::Failed(1)), Some(Progress::Failed(2))),
        Progress::Failed(1)
    );
    assert!(fork.left_open());
    assert!(fork.right_open());
    assert_eq!(
        fork.poll_close(Some(Progress::Ready), Some(Progress::Failed(2))),
        Progress::Failed(2)
    );
    assert!(!fork.left_open());
    assert!(fork.right_open());
}
