//! What every backend offers to the aggregator, and how its calls can fail.

use crate::model::{Engines, ResultRow};
use vstd::prelude::*;

verus! {

/// Why a search did not return rows.
#[derive(Debug)]
pub enum EngineError<E> {
    /// A transport failure other than a timeout, with its message. The breaker
    /// is not touched.
    ReqwestError(String),
    /// A page could not be taken apart.
    ParseError(String),
    /// A failure that only this backend knows.
    EngineSpecificError(E),
    /// A request timed out; the breaker of the engine is now open.
    Timeout,
    /// The engine is resting between requests.
    Cooldown,
    /// The breaker is open or the cooldown is running: skip the backend or come
    /// back later.
    NotAvailable,
}

/// One search backend.
///
/// `search` returns up to `count` rows that begin at offset `start` in the
/// backend's own order. It is meant to be called only after `is_available` has
/// returned `true`, with no other call on the engine in between.
///
/// `reports` and `answers` are the engine's own account of its two calls. They
/// promise nothing of an engine: one that gives no account admits every call.
/// They let a caller say which calls it made.
pub trait Engine {
    type Error: std::fmt::Debug;

    /// Whether a call of `is_available` on the engine `self` can leave it as
    /// `after` and report `available`.
    open spec fn reports(&self, after: &Self, available: bool) -> bool {
        true
    }

    /// Whether a call of `search` on the engine `self` for `count` rows of
    /// `query` from offset `start` on can leave it as `after` and return
    /// `answer`.
    open spec fn answers(
        &self,
        after: &Self,
        query: Seq<char>,
        start: usize,
        count: usize,
        answer: Result<Vec<ResultRow>, EngineError<Self::Error>>,
    ) -> bool {
        true
    }

    /// Which backend this is.
    fn name(&self) -> Engines;

    /// Holds the engine's timers against the clock and reports whether a search
    /// may start.
    fn is_available(&mut self) -> (available: bool)
        ensures
            old(self).reports(&*final(self), available),
    ;

    /// Searches `query`.
    fn search(&mut self, query: &str, start: usize, count: usize) -> (answer: Result<
        Vec<ResultRow>,
        EngineError<Self::Error>,
    >)
        ensures
            old(self).answers(&*final(self), query@, start, count, answer),
    ;
}

/// Why a window could not be served.
#[derive(Debug)]
pub enum FetchError<E> {
    /// The store behind the cache failed, with its message.
    Sqlx(String),
    /// The engine failed or was not available.
    Engine(EngineError<E>),
}

} // verus!
