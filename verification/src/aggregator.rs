//! Serving a window of results for one backend: the cached prefix as it is,
//! and only the missing suffix from the engine.

use crate::cache::{RecordView, ResultCache};
use crate::clock::now;
use crate::engine::{Engine, EngineError, FetchError};
use crate::model::{tagged, untagged, Engines, ResultRow, ResultView, RowView, WebSiteResult};
use vstd::prelude::*;

verus! {

/// The smaller of two numbers.
pub open spec fn least(a: int, b: int) -> int {
    if a <= b {
        a
    } else {
        b
    }
}

/// The part of the window `[start, start + count)` that the cache can serve.
pub open spec fn served(cached: Seq<RowView>, start: int, count: int) -> Seq<RowView> {
    cached.subrange(least(start, cached.len() as int), least(start + count, cached.len() as int))
}

/// The end of the window `[start, start + count)`, held at the largest offset
/// that a row can have.
pub open spec fn window_end(start: int, count: int) -> int {
    least(start + count, usize::MAX as int)
}

/// How many rows the engine is asked for: the length of `[cached_len, start +
/// count)` as far as a row can have the offset, which is 0 where the cache
/// reaches the end of the window.
pub open spec fn missing(cached_len: int, start: int, count: int) -> int {
    if window_end(start, count) > cached_len {
        window_end(start, count) - cached_len
    } else {
        0
    }
}

/// What the caller gets: the served part tagged as cached, then the fresh rows
/// tagged as not.
pub open spec fn window(
    cached: Seq<RowView>,
    fresh: Seq<RowView>,
    engine: Engines,
    start: int,
    count: int,
) -> Seq<ResultView> {
    tagged(served(cached, start, count), engine, true) + tagged(fresh, engine, false)
}

/// One call of `Engine::search`: `need` rows from offset `start` on.
#[derive(Debug, Clone, Copy, PartialEq, Eq, Structural)]
pub struct EngineCall {
    pub start: usize,
    pub need: usize,
}

/// What to do for a window, given how many rows are cached.
#[derive(Debug, Clone, Copy, PartialEq, Eq, Structural)]
pub struct FetchPlan {
    /// Serve the cached rows `[from, to)`.
    pub from: usize,
    pub to: usize,
    /// The one engine call to make; `None` for no call.
    pub missing: Option<EngineCall>,
}

/// Decides what a window needs. The rows `[min(start, cached_len), min(start +
/// count, cached_len))` come from the cache. No engine call is made where the cache
/// reaches the end of the window; else exactly one, for the rows from `cached_len`
/// up to the end of the window. A window whose end is past the largest offset
/// that a row can have ends there.
pub fn plan_fetch(cached_len: usize, start: usize, count: usize) -> (plan: FetchPlan)
    ensures
        plan.from == least(start as int, cached_len as int),
        plan.to == least(start + count, cached_len as int),
        plan.from <= plan.to <= cached_len,
        start + count <= cached_len ==> plan.missing is None,
        cached_len < start + count <= usize::MAX ==> plan.missing == Some(
            EngineCall { start: cached_len, need: (start + count - cached_len) as usize },
        ),
        plan.missing == if missing(cached_len as int, start as int, count as int) > 0 {
            Some(
                EngineCall {
                    start: cached_len,
                    need: missing(cached_len as int, start as int, count as int) as usize,
                },
            )
        } else {
            None
        },
{
    let end = if count <= usize::MAX - start {
        start + count
    } else {
        usize::MAX
    };
    let from = if start < cached_len {
        start
    } else {
        cached_len
    };
    let to = if end < cached_len {
        end
    } else {
        cached_len
    };
    let missing = if cached_len < end {
        Some(EngineCall { start: cached_len, need: end - cached_len })
    } else {
        None
    };
    FetchPlan { from, to, missing }
}

/// The rows `rows[from..to]`, each tagged with `engine` and `cached`.
pub fn tag_rows(rows: &Vec<ResultRow>, from: usize, to: usize, engine: Engines, cached: bool) -> (out:
    Vec<WebSiteResult>)
    requires
        from <= to <= rows.len(),
    ensures
        out.deep_view() == tagged(rows.deep_view().subrange(from as int, to as int), engine, cached),
{
    let mut out: Vec<WebSiteResult> = Vec::new();
    let mut i: usize = from;
    while i < to
        invariant
            from <= i <= to <= rows.len(),
            out.deep_view() == tagged(
                rows.deep_view().subrange(from as int, i as int),
                engine,
                cached,
            ),
        decreases to - i,
    {
        let ghost before = out.deep_view();
        out.push(WebSiteResult::from_row(&rows[i], engine, cached));
        assert(out.deep_view() =~= before.push(ResultView { row: rows[i as int]@, engine, cached }));
        assert(rows.deep_view().subrange(from as int, i + 1) =~= rows.deep_view().subrange(
            from as int,
            i as int,
        ).push(rows[i as int]@));
        i += 1;
    }
    out
}

/// The rows among the first `upto` of `results` that were fetched during the
/// call, without their tags.
pub open spec fn fresh_of(results: Seq<ResultView>, upto: nat) -> Seq<RowView>
    decreases upto,
{
    if 0 < upto <= results.len() {
        if results[upto - 1].cached {
            fresh_of(results, (upto - 1) as nat)
        } else {
            fresh_of(results, (upto - 1) as nat).push(results[upto - 1].row)
        }
    } else {
        Seq::empty()
    }
}

/// The rows of `results` that were fetched during the call and so are not in
/// the store yet, in their order and without their tags.
pub fn fresh_rows(results: &Vec<WebSiteResult>) -> (rows: Vec<ResultRow>)
    ensures
        rows.deep_view() == fresh_of(results.deep_view(), results.len() as nat),
{
    let mut rows: Vec<ResultRow> = Vec::new();
    let mut i: usize = 0;
    proof {
        assert(rows.deep_view() =~= fresh_of(results.deep_view(), 0));
    }
    while i < results.len()
        invariant
            i <= results.len(),
            rows.deep_view() == fresh_of(results.deep_view(), i as nat),
        decreases results.len() - i,
    {
        if !results[i].cached {
            let ghost before = rows.deep_view();
            let row = ResultRow {
                url: results[i].url.clone(),
                title: results[i].title.clone(),
                description: results[i].description.clone(),
            };
            rows.push(row);
            assert(rows.deep_view() =~= before.push(results.deep_view()[i as int].row));
        }
        i += 1;
    }
    rows
}

/// The fresh rows of a window are the rows that the engine returned.
pub proof fn lemma_fresh_of_window(
    cached: Seq<RowView>,
    fresh: Seq<RowView>,
    engine: Engines,
    start: int,
    count: int,
)
    ensures
        fresh_of(
            window(cached, fresh, engine, start, count),
            window(cached, fresh, engine, start, count).len(),
        ) == fresh,
{
    let head = tagged(served(cached, start, count), engine, true);
    lemma_fresh_of_cached(head, head.len());
    lemma_fresh_of_tail(head, fresh, engine, fresh.len());
    assert(head + tagged(fresh, engine, false) =~= window(cached, fresh, engine, start, count));
}

/// Rows that are all tagged as cached hold no fresh row.
proof fn lemma_fresh_of_cached(results: Seq<ResultView>, upto: nat)
    requires
        upto <= results.len(),
        forall|i: int| 0 <= i < results.len() ==> (#[trigger] results[i]).cached,
    ensures
        fresh_of(results, upto) == Seq::<RowView>::empty(),
    decreases upto,
{
    if upto > 0 {
        lemma_fresh_of_cached(results, (upto - 1) as nat);
    }
}

/// Behind a head without fresh rows, the fresh rows are those of the tail.
proof fn lemma_fresh_of_tail(head: Seq<ResultView>, fresh: Seq<RowView>, engine: Engines, upto: nat)
    requires
        upto <= fresh.len(),
        fresh_of(head, head.len()) == Seq::<RowView>::empty(),
    ensures
        fresh_of(head + tagged(fresh, engine, false), head.len() + upto) == fresh.subrange(
            0,
            upto as int,
        ),
    decreases upto,
{
    let all = head + tagged(fresh, engine, false);
    if upto == 0 {
        lemma_fresh_of_prefix(all, head, head.len());
        assert(fresh.subrange(0, 0) =~= Seq::<RowView>::empty());
    } else {
        lemma_fresh_of_tail(head, fresh, engine, (upto - 1) as nat);
        assert(all[head.len() + upto - 1] == tagged(fresh, engine, false)[upto - 1]);
        assert(fresh.subrange(0, upto as int) =~= fresh.subrange(0, upto - 1).push(
            fresh[upto - 1],
        ));
    }
}

/// The fresh rows of a prefix do not depend on what follows it.
proof fn lemma_fresh_of_prefix(all: Seq<ResultView>, head: Seq<ResultView>, upto: nat)
    requires
        head.is_prefix_of(all),
        upto <= head.len(),
    ensures
        fresh_of(all, upto) == fresh_of(head, upto),
    decreases upto,
{
    if upto > 0 {
        lemma_fresh_of_prefix(all, head, (upto - 1) as nat);
        assert(all[upto - 1] == head[upto - 1]);
    }
}

/// Reads what the cache holds for `engine` and `query`. The backend gets its
/// identifier if it had none; the records stay as they are.
pub fn cached_rows(cache: &mut ResultCache, engine: Engines, query: &str) -> (rows: Vec<ResultRow>)
    requires
        old(cache).wf(),
    ensures
        final(cache).wf(),
        final(cache)@ == old(cache)@,
        rows.deep_view() == old(cache).rows(engine, query@),
{
    let backend_id = cache.get_backend_id(engine);
    proof {
        cache.lemma_ids_agree(engine, backend_id, query@);
    }
    match cache.get_query_record(query, backend_id) {
        Some(id) => cache.get_rows(id),
        None => {
            let rows: Vec<ResultRow> = Vec::new();
            assert(rows.deep_view() =~= Seq::<RowView>::empty());
            rows
        },
    }
}

/// Finishes a fetch once the engine has answered. Rows that came back are
/// appended to the cache, with `fetched_at` as the time of the fetch, and follow
/// `served` in the result, tagged as fresh. An engine error is handed on and
/// leaves the cache as it was.
pub fn absorb<E>(
    cache: &mut ResultCache,
    engine: Engines,
    query: &str,
    served: Vec<WebSiteResult>,
    answer: Result<Vec<ResultRow>, EngineError<E>>,
    fetched_at: i64,
) -> (outcome: Result<Vec<WebSiteResult>, FetchError<E>>)
    requires
        old(cache).wf(),
    ensures
        final(cache).wf(),
        final(cache).extends(*old(cache)),
        match answer {
            Ok(fresh) => {
                &&& outcome matches Ok(results)
                &&& results.deep_view() == served.deep_view() + tagged(
                    fresh.deep_view(),
                    engine,
                    false,
                )
                &&& final(cache)@ == old(cache)@.insert(
                    (engine, query@),
                    RecordView {
                        fetched_at,
                        rows: old(cache).rows(engine, query@) + fresh.deep_view(),
                    },
                )
            },
            Err(error) => outcome == Err::<Vec<WebSiteResult>, FetchError<E>>(
                FetchError::Engine(error),
            ) && final(cache)@ == old(cache)@,
        },
{
    match answer {
        Ok(fresh) => {
            let mut results = served;
            let mut tail = tag_rows(&fresh, 0, fresh.len(), engine, false);
            proof {
                assert(fresh.deep_view().subrange(0, fresh.len() as int) =~= fresh.deep_view());
            }
            let ghost head = results.deep_view();
            let ghost rest = tail.deep_view();
            results.append(&mut tail);
            assert(results.deep_view() =~= head + rest);
            let backend_id = cache.get_backend_id(engine);
            cache.append_rows(backend_id, query, fresh, fetched_at);
            Ok(results)
        },
        Err(error) => Err(FetchError::Engine(error)),
    }
}

/// What `absorb` makes of the engine's `answer`: rows are appended to the cache
/// at the time `at` and follow the served part of the cache in the result; an
/// error is handed on and the cache is as before.
pub open spec fn absorbed<E>(
    before: ResultCache,
    after: ResultCache,
    name: Engines,
    query: Seq<char>,
    start: int,
    count: int,
    answer: Result<Vec<ResultRow>, EngineError<E>>,
    at: i64,
    outcome: Result<Vec<WebSiteResult>, FetchError<E>>,
) -> bool {
    match answer {
        Ok(fresh) => {
            &&& outcome matches Ok(results)
            &&& results.deep_view() == window(
                before.rows(name, query),
                fresh.deep_view(),
                name,
                start,
                count,
            )
            &&& after@ == before@.insert(
                (name, query),
                RecordView {
                    fetched_at: at,
                    rows: before.rows(name, query) + fresh.deep_view(),
                },
            )
        },
        Err(error) => outcome == Err::<Vec<WebSiteResult>, FetchError<E>>(
            FetchError::Engine(error),
        ) && after@ == before@,
    }
}

/// What a fetch does where rows are missing, once the engine has reported
/// whether it is available and has been left as `asked`.
///
/// An engine that is not available is not searched: the fetch ends with
/// `NotAvailable` and the cache is as before. An engine that is available is
/// searched once, for the rows from the end of the cache to the end of the
/// window, and its answer is absorbed.
pub open spec fn engine_step<E: Engine>(
    asked: E,
    engine_after: E,
    available: bool,
    before: ResultCache,
    after: ResultCache,
    name: Engines,
    query: Seq<char>,
    start: int,
    count: int,
    outcome: Result<Vec<WebSiteResult>, FetchError<E::Error>>,
) -> bool {
    let cached = before.rows(name, query).len();
    if !available {
        &&& engine_after == asked
        &&& outcome == Err::<Vec<WebSiteResult>, FetchError<E::Error>>(
            FetchError::Engine(EngineError::NotAvailable),
        )
        &&& after@ == before@
    } else {
        exists|answer: Result<Vec<ResultRow>, EngineError<E::Error>>, at: i64|
            {
                &&& #[trigger] asked.answers(
                    &engine_after,
                    query,
                    cached as usize,
                    missing(cached as int, start, count) as usize,
                    answer,
                )
                &&& #[trigger] absorbed(
                    before,
                    after,
                    name,
                    query,
                    start,
                    count,
                    answer,
                    at,
                    outcome,
                )
            }
    }
}

/// What a fetch does, call by call.
///
/// With nothing missing the engine is not touched; the result is the served
/// part of the cache and the cache is as before. With rows missing the engine
/// is asked once whether it is available, and then `engine_step` says the rest.
pub open spec fn fetched<E: Engine>(
    engine: E,
    engine_after: E,
    before: ResultCache,
    after: ResultCache,
    name: Engines,
    query: Seq<char>,
    start: int,
    count: int,
    outcome: Result<Vec<WebSiteResult>, FetchError<E::Error>>,
) -> bool {
    if missing(before.rows(name, query).len() as int, start, count) == 0 {
        &&& engine_after == engine
        &&& outcome matches Ok(results)
        &&& results.deep_view() == window(
            before.rows(name, query),
            Seq::empty(),
            name,
            start,
            count,
        )
        &&& after@ == before@
    } else {
        exists|asked: E, available: bool|
            {
                &&& #[trigger] engine.reports(&asked, available)
                &&& #[trigger] engine_step(
                    asked,
                    engine_after,
                    available,
                    before,
                    after,
                    name,
                    query,
                    start,
                    count,
                    outcome,
                )
            }
    }
}

/// Serves the window `[start, start + count)` of `query` for the backend
/// `name`, whose engine is `engine`.
///
/// Where the cache reaches the end of the window, the rows come from the cache
/// alone and the engine is not touched. Else the engine is asked whether it is
/// available. If it is not, the fetch ends with `EngineError::NotAvailable`. If
/// it is, it is searched once, for the rows from the end of the cache to the end
/// of the window; what it returns is appended to the cache and to the result. A
/// window that comes out shorter than `count` is no error.
pub fn fetch_named<E: Engine>(
    cache: &mut ResultCache,
    name: Engines,
    engine: &mut E,
    query: &str,
    start: usize,
    count: usize,
) -> (outcome: Result<Vec<WebSiteResult>, FetchError<E::Error>>)
    requires
        old(cache).wf(),
    ensures
        final(cache).wf(),
        final(cache).extends(*old(cache)),
        fetched(
            *old(engine),
            *final(engine),
            *old(cache),
            *final(cache),
            name,
            query@,
            start as int,
            count as int,
            outcome,
        ),
{
    let cached = cached_rows(cache, name, query);
    let plan = plan_fetch(cached.len(), start, count);
    let served = tag_rows(&cached, plan.from, plan.to, name, true);
    match plan.missing {
        None => {
            proof {
                assert(served.deep_view() + tagged(Seq::<RowView>::empty(), name, false)
                    =~= served.deep_view());
            }
            Ok(served)
        },
        Some(call) => {
            let available = engine.is_available();
            let ghost asked = *engine;
            if available {
                let answer = engine.search(query, call.start, call.need);
                let fetched_at = now();
                let ghost answered = answer;
                let outcome = absorb(cache, name, query, served, answer, fetched_at);
                proof {
                    let have = old(cache).rows(name, query@).len();
                    assert(cached.deep_view().len() == cached.len());
                    assert(call.start == have as usize);
                    assert(call.need == missing(have as int, start as int, count as int) as usize);
                    assert(asked.answers(
                        &*engine,
                        query@,
                        have as usize,
                        missing(have as int, start as int, count as int) as usize,
                        answered,
                    ));
                    assert(absorbed(
                        *old(cache),
                        *cache,
                        name,
                        query@,
                        start as int,
                        count as int,
                        answered,
                        fetched_at,
                        outcome,
                    ));
                    assert(engine_step(
                        asked,
                        *engine,
                        available,
                        *old(cache),
                        *cache,
                        name,
                        query@,
                        start as int,
                        count as int,
                        outcome,
                    ));
                }
                outcome
            } else {
                let outcome = Err(FetchError::Engine(EngineError::NotAvailable));
                proof {
                    assert(engine_step(
                        asked,
                        *engine,
                        available,
                        *old(cache),
                        *cache,
                        name,
                        query@,
                        start as int,
                        count as int,
                        outcome,
                    ));
                }
                outcome
            }
        },
    }
}

/// Checks the cache first; what it lacks is fetched from `engine` and stored.
///
/// The backend is the one that `engine` names, and for that backend the fetch
/// is what `fetch_named` makes of it.
pub fn fetch_or_cache_query<E: Engine>(
    cache: &mut ResultCache,
    engine: &mut E,
    query: &str,
    start: usize,
    count: usize,
) -> (outcome: Result<Vec<WebSiteResult>, FetchError<E::Error>>)
    requires
        old(cache).wf(),
    ensures
        final(cache).wf(),
        final(cache).extends(*old(cache)),
        exists|name: Engines|
            {
                &&& call_ensures(E::name, (&*old(engine),), name)
                &&& #[trigger] fetched(
                    *old(engine),
                    *final(engine),
                    *old(cache),
                    *final(cache),
                    name,
                    query@,
                    start as int,
                    count as int,
                    outcome,
                )
            },
{
    let name = engine.name();
    fetch_named(cache, name, engine, query, start, count)
}

/// Asking again for a window that was served in full is answered from the cache
/// alone, with the same rows in the same order.
///
/// `cached` is the record before the first call and `fresh` what the engine
/// returned in it: all the rows that were missing. The window starts inside the
/// record or at its end.
pub proof fn lemma_repeat_is_served_from_cache(
    cached: Seq<RowView>,
    fresh: Seq<RowView>,
    engine: Engines,
    start: nat,
    count: nat,
)
    requires
        start <= cached.len(),
        fresh.len() == missing(cached.len() as int, start as int, count as int),
    ensures
        missing((cached + fresh).len() as int, start as int, count as int) == 0,
        untagged(window(cached + fresh, Seq::empty(), engine, start as int, count as int))
            == untagged(window(cached, fresh, engine, start as int, count as int)),
{
    let first = window(cached, fresh, engine, start as int, count as int);
    let again = window(cached + fresh, Seq::empty(), engine, start as int, count as int);
    assert(untagged(first) =~= served(cached, start as int, count as int) + fresh);
    assert(untagged(again) =~= served(cached + fresh, start as int, count as int));
    assert(served(cached + fresh, start as int, count as int) =~= served(
        cached,
        start as int,
        count as int,
    ) + fresh);
}

/// The cache never serves more rows than were asked for, and it serves all of
/// them where it holds the whole window.
pub proof fn lemma_served_fits(cached: Seq<RowView>, start: nat, count: nat)
    ensures
        served(cached, start as int, count as int).len() <= count,
        start + count <= cached.len() ==> served(cached, start as int, count as int).len()
            == count,
        start >= cached.len() ==> served(cached, start as int, count as int).len() == 0,
{
}

/// A window that the cache holds in full needs no engine call, and one that it
/// does not hold in full needs exactly the rows from the end of the cache to the
/// end of the window.
pub proof fn lemma_missing_range(cached_len: nat, start: nat, count: nat)
    ensures
        start + count <= cached_len ==> missing(cached_len as int, start as int, count as int)
            == 0,
        cached_len < start + count <= usize::MAX ==> cached_len + missing(
            cached_len as int,
            start as int,
            count as int,
        ) == start + count,
        cached_len <= usize::MAX ==> cached_len + missing(
            cached_len as int,
            start as int,
            count as int,
        ) <= usize::MAX,
{
}

} // verus!
