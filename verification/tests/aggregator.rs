use private_search_engines::aggregator::{
    absorb, cached_rows, fetch_named, fetch_or_cache_query, fresh_rows, plan_fetch, tag_rows,
    EngineCall, FetchPlan,
};
use private_search_engines::cache::ResultCache;
use private_search_engines::engine::{Engine, EngineError, FetchError};
use private_search_engines::model::{Engines, ResultRow, WebSiteResult};

/// An engine that serves rows `row<i>` from a fixed supply and records its
/// calls.
struct Canned {
    name: Engines,
    supply: usize,
    available: bool,
    fail_with_timeout: bool,
    calls: Vec<(String, usize, usize)>,
    checks: usize,
}

impl Canned {
    fn new(name: Engines, supply: usize) -> Canned {
        Canned { name, supply, available: true, fail_with_timeout: false, calls: Vec::new(), checks: 0 }
    }
}

fn row(i: usize) -> ResultRow {
    ResultRow {
        url: format!("https://example.com/{}", i),
        title: format!("title {}", i),
        description: format!("description {}", i),
    }
}

impl Engine for Canned {
    type Error = u8;

    fn name(&self) -> Engines {
        self.name
    }

    fn is_available(&mut self) -> bool {
        self.checks += 1;
        self.available
    }

    fn search(&mut self, query: &str, start: usize, count: usize) -> Result<Vec<ResultRow>, EngineError<u8>> {
        self.calls.push((query.to_string(), start, count));
        if self.fail_with_timeout {
            return Err(EngineError::Timeout);
        }
        let end = start.saturating_add(count).min(self.supply);
        Ok((start.min(end)..end).map(row).collect())
    }
}

fn seed(cache: &mut ResultCache, engine: Engines, query: &str, rows: Vec<ResultRow>, at: i64) {
    let backend = cache.get_backend_id(engine);
    assert!(cache.append_rows(backend, query, rows, at).is_some());
}

fn urls(results: &[WebSiteResult]) -> Vec<String> {
    results.iter().map(|r| r.url.clone()).collect()
}

fn flags(results: &[WebSiteResult]) -> Vec<bool> {
    results.iter().map(|r| r.cached).collect()
}

fn expected_urls(from: usize, to: usize) -> Vec<String> {
    (from..to).map(|i| format!("https://example.com/{}", i)).collect()
}

#[test]
fn plan_inside_the_cache_makes_no_call() {
    assert_eq!(plan_fetch(10, 0, 10), FetchPlan { from: 0, to: 10, missing: None });
    assert_eq!(plan_fetch(10, 3, 4), FetchPlan { from: 3, to: 7, missing: None });
    assert_eq!(plan_fetch(10, 10, 0), FetchPlan { from: 10, to: 10, missing: None });
    assert_eq!(plan_fetch(0, 0, 0), FetchPlan { from: 0, to: 0, missing: None });
}

#[test]
fn plan_past_the_cache_asks_for_the_missing_suffix() {
    assert_eq!(
        plan_fetch(0, 0, 10),
        FetchPlan { from: 0, to: 0, missing: Some(EngineCall { start: 0, need: 10 }) }
    );
    assert_eq!(
        plan_fetch(10, 5, 10),
        FetchPlan { from: 5, to: 10, missing: Some(EngineCall { start: 10, need: 5 }) }
    );
    assert_eq!(
        plan_fetch(10, 9, 2),
        FetchPlan { from: 9, to: 10, missing: Some(EngineCall { start: 10, need: 1 }) }
    );
}

#[test]
fn plan_that_starts_past_the_cache_serves_nothing_cached() {
    assert_eq!(
        plan_fetch(3, 5, 10),
        FetchPlan { from: 3, to: 3, missing: Some(EngineCall { start: 3, need: 12 }) }
    );
}

#[test]
fn tag_rows_copies_the_range_with_its_tags() {
    let rows: Vec<ResultRow> = (0..5).map(row).collect();
    let tagged = tag_rows(&rows, 1, 4, Engines::Bing, true);
    assert_eq!(urls(&tagged), expected_urls(1, 4));
    assert!(tagged.iter().all(|r| r.cached && r.engine == Engines::Bing));
    assert_eq!(tagged[0].title, "title 1");
    assert_eq!(tagged[2].description, "description 3");
    assert!(tag_rows(&rows, 2, 2, Engines::Bing, false).is_empty());
}

#[test]
fn empty_cache_then_overlapping_window() {
    let mut cache = ResultCache::new();
    let mut engine = Canned::new(Engines::DuckDuckGo, 100);

    let first = fetch_or_cache_query(&mut cache, &mut engine, "rust", 0, 10).unwrap();
    assert_eq!(engine.calls, vec![("rust".to_string(), 0, 10)]);
    assert_eq!(urls(&first), expected_urls(0, 10));
    assert_eq!(flags(&first), vec![false; 10]);
    assert_eq!(cached_rows(&mut cache, Engines::DuckDuckGo, "rust").len(), 10);

    let second = fetch_or_cache_query(&mut cache, &mut engine, "rust", 5, 10).unwrap();
    assert_eq!(engine.calls.len(), 2);
    assert_eq!(engine.calls[1], ("rust".to_string(), 10, 5));
    assert_eq!(second.len(), 10);
    assert_eq!(urls(&second), expected_urls(5, 15));
    assert_eq!(flags(&second), vec![true, true, true, true, true, false, false, false, false, false]);
    assert!(second.iter().all(|r| r.engine == Engines::DuckDuckGo));
    assert_eq!(cached_rows(&mut cache, Engines::DuckDuckGo, "rust").len(), 15);
}

#[test]
fn repeated_call_is_served_from_the_cache() {
    let mut cache = ResultCache::new();
    let mut engine = Canned::new(Engines::Google, 100);
    let first = fetch_or_cache_query(&mut cache, &mut engine, "verus", 0, 7).unwrap();
    let again = fetch_or_cache_query(&mut cache, &mut engine, "verus", 0, 7).unwrap();
    assert_eq!(engine.calls.len(), 1);
    assert_eq!(engine.checks, 1);
    assert_eq!(urls(&first), urls(&again));
    assert_eq!(
        first.iter().map(|r| (r.title.clone(), r.description.clone())).collect::<Vec<_>>(),
        again.iter().map(|r| (r.title.clone(), r.description.clone())).collect::<Vec<_>>()
    );
    assert_eq!(flags(&again), vec![true; 7]);
}

#[test]
fn window_inside_the_cache_does_not_touch_the_engine() {
    let mut cache = ResultCache::new();
    seed(&mut cache, Engines::Bing, "q", (0..20).map(row).collect(), 1_000);
    let mut engine = Canned::new(Engines::Bing, 100);
    engine.available = false;
    let results = fetch_or_cache_query(&mut cache, &mut engine, "q", 5, 15).unwrap();
    assert_eq!(urls(&results), expected_urls(5, 20));
    assert_eq!(flags(&results), vec![true; 15]);
    assert!(engine.calls.is_empty());
    assert_eq!(engine.checks, 0);
}

#[test]
fn exhausted_backend_gives_a_shorter_window() {
    let mut cache = ResultCache::new();
    let mut engine = Canned::new(Engines::DuckDuckGo, 4);
    let results = fetch_or_cache_query(&mut cache, &mut engine, "rare", 0, 10).unwrap();
    assert_eq!(urls(&results), expected_urls(0, 4));
    assert_eq!(cached_rows(&mut cache, Engines::DuckDuckGo, "rare").len(), 4);
    let again = fetch_or_cache_query(&mut cache, &mut engine, "rare", 0, 10).unwrap();
    assert_eq!(engine.calls, vec![("rare".to_string(), 0, 10), ("rare".to_string(), 4, 6)]);
    assert_eq!(urls(&again), expected_urls(0, 4));
    assert_eq!(flags(&again), vec![true; 4]);
}

#[test]
fn window_that_starts_past_the_cache_returns_all_fresh_rows() {
    let mut cache = ResultCache::new();
    let mut engine = Canned::new(Engines::DuckDuckGo, 100);
    let results = fetch_or_cache_query(&mut cache, &mut engine, "deep", 5, 10).unwrap();
    assert_eq!(engine.calls, vec![("deep".to_string(), 0, 15)]);
    assert_eq!(urls(&results), expected_urls(0, 15));
    assert_eq!(flags(&results), vec![false; 15]);
}

#[test]
fn unavailable_engine_is_reported_and_the_cache_kept() {
    let mut cache = ResultCache::new();
    seed(&mut cache, Engines::Bing, "q", (0..3).map(row).collect(), 1_000);
    let mut engine = Canned::new(Engines::Bing, 100);
    engine.available = false;
    let outcome = fetch_or_cache_query(&mut cache, &mut engine, "q", 0, 10);
    assert!(matches!(outcome, Err(FetchError::Engine(EngineError::NotAvailable))));
    assert!(engine.calls.is_empty());
    assert_eq!(engine.checks, 1);
    assert_eq!(cached_rows(&mut cache, Engines::Bing, "q").len(), 3);
}

#[test]
fn engine_error_is_handed_on_and_the_cache_kept() {
    let mut cache = ResultCache::new();
    seed(&mut cache, Engines::Bing, "q", (0..3).map(row).collect(), 1_000);
    let mut engine = Canned::new(Engines::Bing, 100);
    engine.fail_with_timeout = true;
    let outcome = fetch_or_cache_query(&mut cache, &mut engine, "q", 0, 10);
    assert!(matches!(outcome, Err(FetchError::Engine(EngineError::Timeout))));
    assert_eq!(engine.calls, vec![("q".to_string(), 3, 7)]);
    assert_eq!(cached_rows(&mut cache, Engines::Bing, "q").len(), 3);
}

#[test]
fn cached_row_count_never_shrinks() {
    let mut cache = ResultCache::new();
    let mut engine = Canned::new(Engines::DuckDuckGo, 12);
    let mut last = 0;
    for (start, count) in [(0, 5), (0, 3), (4, 4), (2, 20), (0, 1), (30, 5)] {
        let _ = fetch_or_cache_query(&mut cache, &mut engine, "q", start, count);
        let now = cached_rows(&mut cache, Engines::DuckDuckGo, "q").len();
        assert!(now >= last);
        last = now;
    }
    assert_eq!(last, 12);
}

#[test]
fn queries_and_backends_are_kept_apart() {
    let mut cache = ResultCache::new();
    let mut ddg = Canned::new(Engines::DuckDuckGo, 100);
    let mut bing = Canned::new(Engines::Bing, 100);
    fetch_or_cache_query(&mut cache, &mut ddg, "a", 0, 3).unwrap();
    fetch_or_cache_query(&mut cache, &mut bing, "a", 0, 5).unwrap();
    fetch_or_cache_query(&mut cache, &mut ddg, "b", 0, 7).unwrap();
    assert_eq!(cached_rows(&mut cache, Engines::DuckDuckGo, "a").len(), 3);
    assert_eq!(cached_rows(&mut cache, Engines::Bing, "a").len(), 5);
    assert_eq!(cached_rows(&mut cache, Engines::DuckDuckGo, "b").len(), 7);
    assert_eq!(cached_rows(&mut cache, Engines::Bing, "b").len(), 0);
}

#[test]
fn fetch_named_uses_the_given_backend() {
    let mut cache = ResultCache::new();
    let mut engine = Canned::new(Engines::Google, 100);
    let results = fetch_named(&mut cache, Engines::Brave, &mut engine, "q", 0, 2).unwrap();
    assert!(results.iter().all(|r| r.engine == Engines::Brave));
    assert_eq!(cached_rows(&mut cache, Engines::Brave, "q").len(), 2);
    assert_eq!(cached_rows(&mut cache, Engines::Google, "q").len(), 0);
}

#[test]
fn absorb_appends_fresh_rows_after_the_served_ones() {
    let mut cache = ResultCache::new();
    seed(&mut cache, Engines::Bing, "q", (0..2).map(row).collect(), 1_000);
    let stored = cached_rows(&mut cache, Engines::Bing, "q");
    let served = tag_rows(&stored, 1, 2, Engines::Bing, true);
    let answer: Result<Vec<ResultRow>, EngineError<u8>> = Ok((2..4).map(row).collect());
    let results = absorb(&mut cache, Engines::Bing, "q", served, answer, 2_000).unwrap();
    assert_eq!(urls(&results), expected_urls(1, 4));
    assert_eq!(flags(&results), vec![true, false, false]);
    let stored = cached_rows(&mut cache, Engines::Bing, "q");
    assert_eq!(stored.iter().map(|r| r.url.clone()).collect::<Vec<_>>(), expected_urls(0, 4));
}

#[test]
fn absorb_hands_an_engine_error_on() {
    let mut cache = ResultCache::new();
    let answer: Result<Vec<ResultRow>, EngineError<u8>> = Err(EngineError::EngineSpecificError(7));
    let outcome = absorb(&mut cache, Engines::Bing, "q", Vec::new(), answer, 2_000);
    assert!(matches!(outcome, Err(FetchError::Engine(EngineError::EngineSpecificError(7)))));
    assert_eq!(cached_rows(&mut cache, Engines::Bing, "q").len(), 0);
}

#[test]
fn fresh_rows_are_those_not_served_from_the_cache() {
    let mut cache = ResultCache::new();
    let mut engine = Canned::new(Engines::DuckDuckGo, 100);
    let first = fetch_or_cache_query(&mut cache, &mut engine, "q", 0, 4).unwrap();
    assert_eq!(fresh_rows(&first).iter().map(|r| r.url.clone()).collect::<Vec<_>>(), expected_urls(0, 4));
    let second = fetch_or_cache_query(&mut cache, &mut engine, "q", 2, 5).unwrap();
    let fresh = fresh_rows(&second);
    assert_eq!(fresh.iter().map(|r| r.url.clone()).collect::<Vec<_>>(), expected_urls(4, 7));
    assert_eq!(fresh[0].title, "title 4");
    assert_eq!(fresh[0].description, "description 4");
    let third = fetch_or_cache_query(&mut cache, &mut engine, "q", 0, 7).unwrap();
    assert!(fresh_rows(&third).is_empty());
    assert!(fresh_rows(&Vec::new()).is_empty());
}

#[test]
fn plan_for_a_window_that_ends_past_the_largest_offset() {
    assert_eq!(
        plan_fetch(10, usize::MAX - 3, 10),
        FetchPlan {
            from: 10,
            to: 10,
            missing: Some(EngineCall { start: 10, need: usize::MAX - 10 }),
        }
    );
    assert_eq!(
        plan_fetch(10, 4, usize::MAX),
        FetchPlan { from: 4, to: 10, missing: Some(EngineCall { start: 10, need: usize::MAX - 10 }) }
    );
    assert_eq!(
        plan_fetch(0, usize::MAX, 0),
        FetchPlan { from: 0, to: 0, missing: Some(EngineCall { start: 0, need: usize::MAX }) }
    );
}

#[test]
fn window_that_ends_past_the_largest_offset_is_served_as_far_as_rows_go() {
    let mut cache = ResultCache::new();
    let mut engine = Canned::new(Engines::DuckDuckGo, 6);
    let results = fetch_or_cache_query(&mut cache, &mut engine, "q", 2, usize::MAX).unwrap();
    assert_eq!(engine.calls, vec![("q".to_string(), 0, usize::MAX)]);
    assert_eq!(urls(&results), expected_urls(0, 6));
    assert_eq!(cached_rows(&mut cache, Engines::DuckDuckGo, "q").len(), 6);
}
