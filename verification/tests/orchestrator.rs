use private_search_engines::engine::{EngineError, FetchError};
use private_search_engines::model::{Engines, WebSiteResult};
use private_search_engines::orchestrator::{
    classify, merge, BackendOutcome, Merged, Outcome, SearchError,
};

fn rows(engine: Engines, n: usize) -> Vec<WebSiteResult> {
    (0..n)
        .map(|i| WebSiteResult {
            url: format!("https://{:?}.example/{}", engine, i),
            title: format!("{:?} {}", engine, i),
            description: String::new(),
            engine,
            cached: i % 2 == 0,
        })
        .collect()
}

fn success(engine: Engines, n: usize) -> BackendOutcome {
    BackendOutcome { engine, outcome: Outcome::Success(rows(engine, n)) }
}

fn timeout(engine: Engines) -> BackendOutcome {
    BackendOutcome { engine, outcome: Outcome::Timeout }
}

fn error(engine: Engines) -> BackendOutcome {
    BackendOutcome { engine, outcome: Outcome::Error }
}

fn unwrap(merged: Result<Merged, SearchError>) -> Merged {
    match merged {
        Ok(all) => all,
        Err(e) => panic!("unexpected {:?}", e),
    }
}

#[test]
fn one_timeout_among_three_is_a_soft_condition() {
    let outcomes = vec![
        success(Engines::DuckDuckGo, 5),
        timeout(Engines::Google),
        success(Engines::Bing, 5),
    ];
    let all = unwrap(merge(&outcomes));
    assert_eq!(all.rows.len(), 10);
    let urls: Vec<String> = all.rows.iter().map(|r| r.url.clone()).collect();
    let expected: Vec<String> = rows(Engines::DuckDuckGo, 5)
        .into_iter()
        .chain(rows(Engines::Bing, 5))
        .map(|r| r.url)
        .collect();
    assert_eq!(urls, expected);
    assert!(all.rows[..5].iter().all(|r| r.engine == Engines::DuckDuckGo));
    assert!(all.rows[5..].iter().all(|r| r.engine == Engines::Bing));
    assert_eq!(all.timed_out, vec![Engines::Google]);
    assert!(all.failed.is_empty());
}

#[test]
fn all_timed_out_is_all_engines_failed() {
    let outcomes = vec![timeout(Engines::DuckDuckGo), timeout(Engines::Google), timeout(Engines::Bing)];
    assert!(matches!(merge(&outcomes), Err(SearchError::AllEnginesFailed)));
}

#[test]
fn errors_and_timeouts_only_is_all_engines_failed() {
    let outcomes = vec![error(Engines::DuckDuckGo), timeout(Engines::Google)];
    assert!(matches!(merge(&outcomes), Err(SearchError::AllEnginesFailed)));
}

#[test]
fn no_backends_is_all_engines_failed() {
    assert!(matches!(merge(&Vec::new()), Err(SearchError::AllEnginesFailed)));
}

#[test]
fn success_without_rows_still_counts() {
    let outcomes = vec![error(Engines::Brave), success(Engines::Bing, 0)];
    let all = unwrap(merge(&outcomes));
    assert!(all.rows.is_empty());
    assert!(all.timed_out.is_empty());
    assert_eq!(all.failed, vec![Engines::Brave]);
}

#[test]
fn rows_keep_the_order_of_the_backends_and_their_fields() {
    let outcomes = vec![
        success(Engines::Bing, 2),
        error(Engines::Google),
        success(Engines::DuckDuckGo, 3),
        timeout(Engines::Brave),
        success(Engines::Bing, 1),
    ];
    let all = unwrap(merge(&outcomes));
    let seen: Vec<(String, String, Engines, bool)> =
        all.rows.iter().map(|r| (r.url.clone(), r.title.clone(), r.engine, r.cached)).collect();
    let expected: Vec<(String, String, Engines, bool)> = rows(Engines::Bing, 2)
        .into_iter()
        .chain(rows(Engines::DuckDuckGo, 3))
        .chain(rows(Engines::Bing, 1))
        .map(|r| (r.url, r.title, r.engine, r.cached))
        .collect();
    assert_eq!(seen, expected);
    assert_eq!(all.timed_out, vec![Engines::Brave]);
    assert_eq!(all.failed, vec![Engines::Google]);
}

#[test]
fn degraded_backends_are_listed_in_caller_order() {
    let outcomes = vec![
        timeout(Engines::Brave),
        error(Engines::Bing),
        timeout(Engines::Google),
        success(Engines::DuckDuckGo, 1),
        error(Engines::Google),
    ];
    let all = unwrap(merge(&outcomes));
    assert_eq!(all.timed_out, vec![Engines::Brave, Engines::Google]);
    assert_eq!(all.failed, vec![Engines::Bing, Engines::Google]);
}

#[test]
fn classify_sorts_the_ends_of_a_fetch() {
    let none: Option<Result<Vec<WebSiteResult>, FetchError<u8>>> = None;
    assert!(matches!(classify(none), Outcome::Timeout));
    let ok: Option<Result<Vec<WebSiteResult>, FetchError<u8>>> = Some(Ok(rows(Engines::Bing, 2)));
    match classify(ok) {
        Outcome::Success(found) => {
            assert_eq!(found.len(), 2);
            assert_eq!(found[1].url, "https://Bing.example/1");
        }
        other => panic!("unexpected {:?}", other),
    }
    let timed: Option<Result<Vec<WebSiteResult>, FetchError<u8>>> =
        Some(Err(FetchError::Engine(EngineError::Timeout)));
    assert!(matches!(classify(timed), Outcome::Timeout));
    let unavailable: Option<Result<Vec<WebSiteResult>, FetchError<u8>>> =
        Some(Err(FetchError::Engine(EngineError::NotAvailable)));
    assert!(matches!(classify(unavailable), Outcome::Error));
    let transport: Option<Result<Vec<WebSiteResult>, FetchError<u8>>> =
        Some(Err(FetchError::Engine(EngineError::ReqwestError("connection reset".to_string()))));
    assert!(matches!(classify(transport), Outcome::Error));
    let specific: Option<Result<Vec<WebSiteResult>, FetchError<u8>>> =
        Some(Err(FetchError::Engine(EngineError::EngineSpecificError(3))));
    assert!(matches!(classify(specific), Outcome::Error));
    let store: Option<Result<Vec<WebSiteResult>, FetchError<u8>>> =
        Some(Err(FetchError::Sqlx("disk full".to_string())));
    assert!(matches!(classify(store), Outcome::Error));
}
