//! Tools for streams.

use vstd::prelude::*;

pub mod freshness;
pub mod multiplex;
pub mod multiplex_runs;
pub mod pair_runs;
pub mod polled;
pub mod zip_latest;
pub mod zip_latest_all;
pub mod zip_latest_with;
pub mod zip_latest_with_all;

pub use freshness::{PairState, StreamState};
pub use multiplex::{Arrival, Phase};
pub use polled::Polled;
pub use zip_latest::ZipLatest;
pub use zip_latest_all::ZipLatestAll;
pub use zip_latest_with::ZipLatestWith;
pub use zip_latest_with_all::{IndexedStream, ZipLatestWithAll};

verus! {

/// Zips two sources using their latest values when one is not ready.
///
/// The combination keeps the latest item of both sources. If one source has ended or
/// is not ready and the other produces a new item, `combine` is applied to the new item
/// and the latest item of the source that produced nothing new.
///
/// It ends when both sources have ended, or when one ends without ever having produced
/// an item.
///
/// ```text
/// ---0-----------1-----------------2-------> first
/// ------10-------11-------12---------------> second
/// ------10-------12-------13-------14------> zip_latest_with(|a, b| a + b)
/// ```
pub fn zip_latest_with<A, B, F, T>(combine: F) -> (zip: ZipLatestWith<A, B, F>) where
    F: FnMut(&A, &B) -> T,

    requires
        forall|a: &A, b: &B| call_requires(combine, (a, b)),
    ensures
        zip.wf(),
        zip@ == PairState::<A, B>::initial(),
        zip.combiner() == combine,
{
    ZipLatestWith::new(combine)
}

/// Zips two sources using their latest values when one is not ready.
///
/// The combination keeps the latest item of both sources. If one source has ended or
/// is not ready and the other produces a new item, a copy of it is returned alongside a
/// copy of the latest item of the source that produced nothing new.
///
/// It ends when both sources have ended, or when one ends without ever having produced
/// an item.
///
/// ```text
/// ---a-----------b-----------------c-------> first
/// ------0--------1--------2----------------> second
/// ------(a, 0)---(b, 1)---(b, 2)---(c, 2)--> zip_latest()
/// ```
pub fn zip_latest<A: Clone, B: Clone>() -> (zip: ZipLatest<A, B>)
    ensures
        zip@ == PairState::<A, B>::initial(),
{
    ZipLatest::new()
}

/// Zips any number of sources using their latest values for the ones that are not ready.
///
/// The combination keeps the latest item of every source. If some sources have ended or
/// are not ready and at least one other produces a new item, `combine` is applied to the
/// new items together with the latest items of the sources that produced nothing new.
///
/// It ends when all sources have ended, or when one ends without ever having produced
/// an item.
///
/// ```text
/// ---0-----------1-----------------2-------> a
/// ------10-------11-------12---------------> b
/// ------10-------12-------13-------14------> zip_latest_with_all(|items| a + b)
/// ```
pub fn zip_latest_with_all<T, F, Out>(combine: F) -> (zip: ZipLatestWithAll<T, F>) where
    F: FnMut(&[T]) -> Out,

    requires
        forall|items: &[T]| call_requires(combine, (items,)),
    ensures
        zip.wf(),
        zip@ == Phase::<T>::Filling,
        zip.combiner() == combine,
{
    ZipLatestWithAll::new(combine)
}

/// Zips any number of sources using their latest values for the ones that are not ready.
///
/// The combination keeps the latest item of every source. If some sources have ended or
/// are not ready and at least one other produces a new item, a copy of it is returned
/// alongside copies of the latest items of the sources that produced nothing new.
///
/// It ends when all sources have ended, or when one ends without ever having produced
/// an item.
///
/// ```text
/// ---0--------------------1--------------------------> a
/// ------10----------------11-------------------------> b
/// ----------20--------------------------21-----------> c
/// ----------[0, 10, 20]---[1, 11, 20]---[1, 11, 21]--> zip_latest_all()
/// ```
pub fn zip_latest_all<T: Clone>() -> (zip: ZipLatestAll<T>)
    ensures
        zip.wf(),
        zip@ == Phase::<T>::Filling,
{
    ZipLatestAll::new()
}

} // verus!
