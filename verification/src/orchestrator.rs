//! Putting the answers of several backends together. Each backend is asked on
//! its own and under its own deadline; what is decided here is what their
//! outcomes add up to.

use crate::engine::{EngineError, FetchError};
use crate::model::{Engines, ResultView, WebSiteResult};
use vstd::prelude::*;

verus! {

/// How the fetch of one backend ended.
#[derive(Debug)]
pub enum Outcome {
    /// It returned rows, possibly none.
    Success(Vec<WebSiteResult>),
    /// It ran out of time: the engine reported a timeout, or the deadline of the
    /// backend passed before it answered.
    Timeout,
    /// It failed otherwise.
    Error,
}

/// The outcome of one backend.
#[derive(Debug)]
pub struct BackendOutcome {
    pub engine: Engines,
    pub outcome: Outcome,
}

/// What the backends returned together.
#[derive(Debug)]
pub struct Merged {
    /// The rows of the backends that succeeded, backend after backend in the
    /// order in which the caller named them.
    pub rows: Vec<WebSiteResult>,
    /// The backends that ran out of time, in that order. Not empty means: the
    /// rows are there, but some backends were too slow.
    pub timed_out: Vec<Engines>,
    /// The backends that failed otherwise, in that order.
    pub failed: Vec<Engines>,
}

/// Why the backends together returned nothing.
#[derive(Debug, Clone, Copy, PartialEq, Eq, Structural)]
pub enum SearchError {
    /// No backend produced data.
    AllEnginesFailed,
}

/// The rows of an outcome: those of a success, none otherwise.
pub open spec fn rows_of(outcome: Outcome) -> Seq<ResultView> {
    match outcome {
        Outcome::Success(rows) => rows.deep_view(),
        _ => Seq::empty(),
    }
}

/// The rows of the first `upto` outcomes, one backend after the other.
pub open spec fn merged_rows(outcomes: Seq<BackendOutcome>, upto: nat) -> Seq<ResultView>
    decreases upto,
{
    if 0 < upto <= outcomes.len() {
        merged_rows(outcomes, (upto - 1) as nat) + rows_of(outcomes[upto - 1].outcome)
    } else {
        Seq::empty()
    }
}

/// The backends among the first `upto` that ran out of time.
pub open spec fn timed_out(outcomes: Seq<BackendOutcome>, upto: nat) -> Seq<Engines>
    decreases upto,
{
    if 0 < upto <= outcomes.len() {
        if outcomes[upto - 1].outcome is Timeout {
            timed_out(outcomes, (upto - 1) as nat).push(outcomes[upto - 1].engine)
        } else {
            timed_out(outcomes, (upto - 1) as nat)
        }
    } else {
        Seq::empty()
    }
}

/// The backends among the first `upto` that failed without running out of
/// time.
pub open spec fn failed(outcomes: Seq<BackendOutcome>, upto: nat) -> Seq<Engines>
    decreases upto,
{
    if 0 < upto <= outcomes.len() {
        if outcomes[upto - 1].outcome is Error {
            failed(outcomes, (upto - 1) as nat).push(outcomes[upto - 1].engine)
        } else {
            failed(outcomes, (upto - 1) as nat)
        }
    } else {
        Seq::empty()
    }
}

/// Whether one of the first `upto` backends succeeded.
pub open spec fn any_success(outcomes: Seq<BackendOutcome>, upto: nat) -> bool {
    exists|i: int| 0 <= i < upto && i < outcomes.len() && (#[trigger] outcomes[i]).outcome is Success
}

/// Sorts the end of one backend's fetch into success, timeout and error.
/// `None` stands for a backend whose deadline passed before it answered.
pub fn classify<E>(answer: Option<Result<Vec<WebSiteResult>, FetchError<E>>>) -> (outcome: Outcome)
    ensures
        match answer {
            None => outcome is Timeout,
            Some(Ok(rows)) => outcome == Outcome::Success(rows),
            Some(Err(FetchError::Engine(EngineError::Timeout))) => outcome is Timeout,
            Some(Err(_)) => outcome is Error,
        },
{
    match answer {
        None => Outcome::Timeout,
        Some(Ok(rows)) => Outcome::Success(rows),
        Some(Err(FetchError::Engine(EngineError::Timeout))) => Outcome::Timeout,
        Some(Err(_)) => Outcome::Error,
    }
}

/// Merges the outcomes of the backends, given in the order in which the caller
/// named them.
///
/// Where at least one backend succeeded, the rows of all that succeeded are
/// returned, backend after backend in that order, together with the backends
/// that ran out of time and those that failed. Where none succeeded, the result
/// is `AllEnginesFailed`.
pub fn merge(outcomes: &Vec<BackendOutcome>) -> (merged: Result<Merged, SearchError>)
    ensures
        merged is Ok <==> any_success(outcomes@, outcomes@.len()),
        merged matches Ok(all) ==> {
            &&& all.rows.deep_view() == merged_rows(outcomes@, outcomes@.len())
            &&& all.timed_out@ == timed_out(outcomes@, outcomes@.len())
            &&& all.failed@ == failed(outcomes@, outcomes@.len())
        },
{
    let mut rows: Vec<WebSiteResult> = Vec::new();
    let mut slow: Vec<Engines> = Vec::new();
    let mut broken: Vec<Engines> = Vec::new();
    let mut succeeded = false;
    let mut i: usize = 0;
    proof {
        assert(rows.deep_view() =~= merged_rows(outcomes@, 0));
    }
    while i < outcomes.len()
        invariant
            i <= outcomes.len(),
            rows.deep_view() == merged_rows(outcomes@, i as nat),
            slow@ == timed_out(outcomes@, i as nat),
            broken@ == failed(outcomes@, i as nat),
            succeeded == any_success(outcomes@, i as nat),
        decreases outcomes.len() - i,
    {
        let ghost seen = any_success(outcomes@, i as nat);
        match &outcomes[i].outcome {
            Outcome::Success(found) => {
                let mut k: usize = 0;
                let ghost head = rows.deep_view();
                while k < found.len()
                    invariant
                        k <= found.len(),
                        rows.deep_view() == head + found.deep_view().subrange(0, k as int),
                    decreases found.len() - k,
                {
                    let ghost so_far = rows.deep_view();
                    rows.push(found[k].clone());
                    assert(rows.deep_view() =~= so_far.push(found[k as int]@));
                    assert(found.deep_view().subrange(0, k + 1) =~= found.deep_view().subrange(
                        0,
                        k as int,
                    ).push(found[k as int]@));
                    k += 1;
                }
                assert(found.deep_view().subrange(0, found.len() as int) =~= found.deep_view());
                succeeded = true;
            },
            Outcome::Timeout => {
                slow.push(outcomes[i].engine);
            },
            Outcome::Error => {
                broken.push(outcomes[i].engine);
            },
        }
        proof {
            if seen {
                let w = choose|w: int|
                    0 <= w < i && w < outcomes@.len() && (#[trigger] outcomes@[w]).outcome
                        is Success;
                assert(outcomes@[w].outcome is Success);
            }
            if any_success(outcomes@, (i + 1) as nat) && !(outcomes@[i as int].outcome is Success) {
                let w = choose|w: int|
                    0 <= w < i + 1 && w < outcomes@.len() && (#[trigger] outcomes@[w]).outcome
                        is Success;
                assert(w < i);
            }
            if outcomes@[i as int].outcome is Success {
                assert(any_success(outcomes@, (i + 1) as nat));
            }
            assert(rows.deep_view() =~= merged_rows(outcomes@, (i + 1) as nat));
        }
        i += 1;
    }
    if succeeded {
        Ok(Merged { rows, timed_out: slow, failed: broken })
    } else {
        Err(SearchError::AllEnginesFailed)
    }
}

} // verus!
