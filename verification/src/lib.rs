//! The core of a metasearch service.
//!
//! A search backend offers no interface but its result pages, so its rows are
//! scraped. What was scraped is kept in a cache, by backend and query, and a
//! request for a window of results is served from the cache as far as it
//! reaches; only the rows behind it are fetched.
//!
//! - `model`: the rows and the backends.
//! - `cache`: the append-only store of rows.
//! - `engine`: what a backend offers, and how it can fail.
//! - `breaker`: the health of an engine, a circuit breaker and a cooldown.
//! - `aggregator`: serving one window for one backend.
//! - `orchestrator`: merging the outcomes of several backends.
//! - `duckduckgo`: one engine in full, as a machine that says which request to
//!   send and digests its reply.
//! - `dom`, `redirect`: the text of a subtree, and where a link leads.
//! - `request`: what is settled before a request reaches the engines.
//! - `html`, `pattern`, `text`, `clock`: what other crates and the standard
//!   library do for the rest; their contracts are taken on trust.
//!
//! Nothing here reads from the network or from disk. The caller sends the
//! requests and keeps the store.

pub mod aggregator;
pub mod breaker;
pub mod cache;
pub mod clock;
pub mod dom;
pub mod duckduckgo;
pub mod engine;
pub mod html;
pub mod model;
pub mod orchestrator;
pub mod pattern;
pub mod redirect;
pub mod request;
pub mod text;

pub use crate::aggregator::fetch_or_cache_query;
pub use crate::duckduckgo::DuckDuckGo;
pub use crate::engine::{Engine, EngineError, FetchError};
pub use crate::model::{Engines, ResultRow, WebSiteResult};
