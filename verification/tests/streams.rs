//! The zipping state machines driven by real streams: each adapter below polls its
//! sources as the machine asks and reports what the machine answers.

use futures::executor::block_on;
use futures::future::{join_all, JoinAll};
use futures::stream::{empty, repeat, Fuse, FuturesUnordered, StreamFuture};
use futures::{Stream, StreamExt};
use futuristic::future::{yield_now, YieldNow};
use futuristic::stream::{
    zip_latest, zip_latest_all, zip_latest_with, zip_latest_with_all, Arrival, IndexedStream,
    Polled, ZipLatest, ZipLatestAll, ZipLatestWith, ZipLatestWithAll,
};
use std::future::Future;
use std::pin::Pin;
use std::task::{Context, Poll};

fn polled<T>(poll: Poll<Option<T>>) -> Polled<T> {
    match poll {
        Poll::Ready(Some(x)) => Polled::Item(x),
        Poll::Ready(None) => Polled::Ended,
        Poll::Pending => Polled::NotReady,
    }
}

fn poll<T>(polled: Polled<T>) -> Poll<Option<T>> {
    match polled {
        Polled::Item(x) => Poll::Ready(Some(x)),
        Polled::Ended => Poll::Ready(None),
        Polled::NotReady => Poll::Pending,
    }
}

struct Yield(YieldNow);

impl Future for Yield {
    type Output = ();

    fn poll(mut self: Pin<&mut Self>, ctx: &mut Context<'_>) -> Poll<()> {
        if self.0.poll() {
            Poll::Ready(())
        } else {
            ctx.waker().wake_by_ref();
            Poll::Pending
        }
    }
}

fn yield_on_none<I, T>(items: I) -> impl Stream<Item = T>
where
    I: IntoIterator<Item = Option<T>>,
{
    futures::stream::iter(items).filter_map(|x| async move {
        if x.is_none() {
            Yield(yield_now()).await;
        }
        x
    })
}

struct PairWith<A: Stream, B: Stream, F> {
    stream: Pin<Box<Fuse<A>>>,
    other_stream: Pin<Box<Fuse<B>>>,
    zip: ZipLatestWith<A::Item, B::Item, F>,
}

impl<A: Stream, B: Stream, F> Unpin for PairWith<A, B, F> {}

impl<A, B, F, T> Stream for PairWith<A, B, F>
where
    A: Stream,
    B: Stream,
    F: FnMut(&A::Item, &B::Item) -> T,
{
    type Item = T;

    fn poll_next(mut self: Pin<&mut Self>, ctx: &mut Context<'_>) -> Poll<Option<T>> {
        let this = &mut *self;
        assert!(!this.zip.is_terminated());
        let first = if this.zip.needs_poll() {
            Some(polled(this.stream.as_mut().poll_next(ctx)))
        } else {
            None
        };
        let second = if this.zip.other_needs_poll() {
            Some(polled(this.other_stream.as_mut().poll_next(ctx)))
        } else {
            None
        };
        poll(this.zip.poll_next(first, second))
    }
}

fn pair_with<A, B, F, T>(a: A, b: B, combine: F) -> PairWith<A, B, F>
where
    A: Stream,
    B: Stream,
    F: FnMut(&A::Item, &B::Item) -> T,
{
    PairWith {
        stream: Box::pin(a.fuse()),
        other_stream: Box::pin(b.fuse()),
        zip: zip_latest_with(combine),
    }
}

struct Pair<A: Stream, B: Stream> {
    stream: Pin<Box<Fuse<A>>>,
    other_stream: Pin<Box<Fuse<B>>>,
    zip: ZipLatest<A::Item, B::Item>,
}

impl<A: Stream, B: Stream> Unpin for Pair<A, B> {}

impl<A, B> Stream for Pair<A, B>
where
    A: Stream,
    A::Item: Clone,
    B: Stream,
    B::Item: Clone,
{
    type Item = (A::Item, B::Item);

    fn poll_next(mut self: Pin<&mut Self>, ctx: &mut Context<'_>) -> Poll<Option<Self::Item>> {
        let this = &mut *self;
        assert!(!this.zip.is_terminated());
        let first = if this.zip.needs_poll() {
            Some(polled(this.stream.as_mut().poll_next(ctx)))
        } else {
            None
        };
        let second = if this.zip.other_needs_poll() {
            Some(polled(this.other_stream.as_mut().poll_next(ctx)))
        } else {
            None
        };
        poll(this.zip.poll_next(first, second))
    }
}

fn pair<A, B>(a: A, b: B) -> Pair<A, B>
where
    A: Stream,
    A::Item: Clone,
    B: Stream,
    B::Item: Clone,
{
    Pair { stream: Box::pin(a.fuse()), other_stream: Box::pin(b.fuse()), zip: zip_latest() }
}

struct Tagged<S>(IndexedStream<S>);

impl<S: Stream + Unpin> Stream for Tagged<S> {
    type Item = (usize, S::Item);

    fn poll_next(mut self: Pin<&mut Self>, ctx: &mut Context<'_>) -> Poll<Option<Self::Item>> {
        let inner = polled(Pin::new(&mut self.0.s).poll_next(ctx));
        poll(self.0.poll_next(inner))
    }
}

enum Feed<S: Stream + Unpin> {
    Fill(JoinAll<StreamFuture<S>>),
    Filled(FuturesUnordered<StreamFuture<Tagged<S>>>),
}

impl<S: Stream + Unpin> Feed<S> {
    fn new<I: IntoIterator<Item = S>>(streams: I) -> Self {
        Feed::Fill(join_all(streams.into_iter().map(|s| s.into_future())))
    }

    /// What arrived since the last round, or `None` while the first values are awaited.
    fn arrival(&mut self, ctx: &mut Context<'_>) -> Option<(Arrival<S::Item>, Vec<Tagged<S>>)> {
        match self {
            Feed::Fill(all) => match Pin::new(all).poll(ctx) {
                Poll::Ready(items_and_streams) => {
                    let mut firsts = Vec::new();
                    let mut streams = Vec::new();
                    for (i, (item, stream)) in items_and_streams.into_iter().enumerate() {
                        firsts.push(item);
                        streams.push(Tagged(IndexedStream::new(i, stream)));
                    }
                    *self = Feed::Filled(FuturesUnordered::new());
                    Some((Arrival::Firsts(firsts), streams))
                }
                Poll::Pending => None,
            },
            Feed::Filled(next_items) => {
                let mut completions = Vec::new();
                let mut yielded = Vec::new();
                loop {
                    match Pin::new(&mut *next_items).poll_next(ctx) {
                        Poll::Ready(Some((Some((i, head)), tail))) => {
                            completions.push((i, Some(head)));
                            yielded.push(tail);
                        }
                        Poll::Ready(Some((None, tail))) => completions.push((tail.0.i, None)),
                        Poll::Ready(None) | Poll::Pending => break,
                    }
                }
                Some((Arrival::Completions(completions), yielded))
            }
        }
    }

    fn resubmit(&mut self, streams: Vec<Tagged<S>>) {
        if let Feed::Filled(next_items) = self {
            next_items.extend(streams.into_iter().map(|s| s.into_future()));
        }
    }
}

struct AllWith<S: Stream + Unpin, F> {
    feed: Feed<S>,
    zip: ZipLatestWithAll<S::Item, F>,
}

impl<S: Stream + Unpin, F> Unpin for AllWith<S, F> {}

impl<S, F, T> Stream for AllWith<S, F>
where
    S: Stream + Unpin,
    F: FnMut(&[S::Item]) -> T,
{
    type Item = T;

    fn poll_next(mut self: Pin<&mut Self>, ctx: &mut Context<'_>) -> Poll<Option<T>> {
        let this = &mut *self;
        let Some((arrival, streams)) = this.feed.arrival(ctx) else {
            return Poll::Pending;
        };
        assert!(this.zip.accepts(&arrival));
        let out = this.zip.poll_next(arrival);
        if !this.zip.is_terminated() {
            this.feed.resubmit(streams);
        }
        poll(out)
    }
}

struct All<S: Stream + Unpin> {
    feed: Feed<S>,
    zip: ZipLatestAll<S::Item>,
}

impl<S: Stream + Unpin> Unpin for All<S> {}

impl<S> Stream for All<S>
where
    S: Stream + Unpin,
    S::Item: Clone,
{
    type Item = Vec<S::Item>;

    fn poll_next(mut self: Pin<&mut Self>, ctx: &mut Context<'_>) -> Poll<Option<Self::Item>> {
        let this = &mut *self;
        let Some((arrival, streams)) = this.feed.arrival(ctx) else {
            return Poll::Pending;
        };
        assert!(this.zip.accepts(&arrival));
        let out = this.zip.poll_next(arrival);
        if !this.zip.is_terminated() {
            this.feed.resubmit(streams);
        }
        poll(out)
    }
}

fn all_with<I, F, T>(streams: I, combine: F) -> AllWith<I::Item, F>
where
    I: IntoIterator,
    I::Item: Stream + Unpin,
    F: FnMut(&[<I::Item as Stream>::Item]) -> T,
{
    AllWith { feed: Feed::new(streams), zip: zip_latest_with_all(combine) }
}

fn all<I>(streams: I) -> All<I::Item>
where
    I: IntoIterator,
    I::Item: Stream + Unpin,
    <I::Item as Stream>::Item: Clone,
{
    All { feed: Feed::new(streams), zip: zip_latest_all() }
}

#[test]
fn zip_latest_it_works() {
    let a = yield_on_none([Some(0), None, Some(1), None, None, Some(2)]);
    let b = yield_on_none([None, Some(10), Some(11), Some(12), None, None, Some(13)]);
    let expected = [(0, 10), (0, 11), (1, 12), (2, 13)];
    let actual = block_on(pair(a, b).collect::<Vec<_>>());
    assert_eq!(actual, expected);
}

#[test]
fn zip_latest_zipping_latest_of_2_empty_streams_gives_empty_stream() {
    let r = block_on(pair(empty::<()>(), empty::<()>()).collect::<Vec<_>>());
    assert_eq!(r, []);
}

#[test]
fn zip_latest_zipping_latest_of_empty_and_infinite_streams_gives_empty_stream() {
    let r = block_on(pair(empty::<()>(), repeat(())).collect::<Vec<_>>());
    assert_eq!(r, []);
}

#[test]
fn zip_latest_with_it_works() {
    let a = yield_on_none([Some(0), None, Some(1), None, None, Some(2)]);
    let b = yield_on_none([None, Some(10), Some(11), Some(12), None, None, Some(13)]);
    let expected = [10, 11, 13, 15];
    let actual = block_on(pair_with(a, b, |i, j| i + j).collect::<Vec<_>>());
    assert_eq!(actual, expected);
}

#[test]
fn zip_latest_all_it_works() {
    let a = Box::pin(yield_on_none([Some(0), None, Some(1), None, None, Some(2)]));
    let b = Box::pin(yield_on_none([None, Some(10), Some(11), Some(12), None, None, Some(13)]));
    let expected = [vec![0, 10], vec![1, 11], vec![1, 12], vec![2, 12], vec![2, 13]];
    let actual = block_on(all([a.left_stream(), b.right_stream()]).collect::<Vec<_>>());
    assert_eq!(actual, expected);
}

#[test]
fn zip_latest_all_zipping_latest_of_2_empty_streams_gives_empty_stream() {
    let r = block_on(all([empty::<()>(), empty()]).collect::<Vec<_>>());
    assert_eq!(r, <[Vec<()>; 0]>::default());
}

#[test]
fn zip_latest_all_zipping_latest_of_empty_and_infinite_streams_gives_empty_stream() {
    let r = block_on(
        all([empty::<()>().left_stream(), repeat(()).right_stream()]).collect::<Vec<_>>(),
    );
    assert_eq!(r, <[Vec<()>; 0]>::default());
}

#[test]
fn zip_latest_with_all_it_works() {
    let a = Box::pin(yield_on_none([Some(0), None, Some(1), None, None, Some(2)]));
    let b = Box::pin(yield_on_none([None, Some(10), Some(11), Some(12), None, None, Some(13)]));
    let expected = [10, 12, 13, 14, 15];
    let actual = block_on(
        all_with([a.left_stream(), b.right_stream()], |items| items.iter().sum::<i32>())
            .collect::<Vec<_>>(),
    );
    assert_eq!(actual, expected);
}

#[test]
fn zipping_no_stream_at_all_gives_one_empty_snapshot() {
    let none: [futures::stream::Empty<u8>; 0] = [];
    let r = block_on(all(none).collect::<Vec<_>>());
    assert_eq!(r, [Vec::<u8>::new()]);
}

#[test]
fn a_source_that_ends_keeps_its_last_value_as_fallback() {
    let a = futures::stream::iter([1]);
    let b = yield_on_none([Some(10), None, Some(11), None, Some(12)]);
    let r = block_on(pair(a, b).collect::<Vec<_>>());
    assert_eq!(r, [(1, 10), (1, 11), (1, 12)]);
}
