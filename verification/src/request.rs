//! What is settled about a request before it reaches the engines.

use crate::text::{has_prefix, same_text, starts_with};
use vstd::prelude::*;
use vstd::string::*;

verus! {

/// The most rows that one request may ask for.
pub const MAX_COUNT: usize = 25;

/// The tabs of the result page.
#[derive(Debug, Clone, Copy, PartialEq, Eq, Structural)]
pub enum Tab {
    General,
    Images,
}

/// Which tab is shown.
#[derive(Debug, Clone, Copy, PartialEq, Eq, Structural)]
pub struct TabFlags {
    pub general: bool,
    pub images: bool,
}

/// Why a request is turned away.
#[derive(Debug, Clone, Copy, PartialEq, Eq, Structural)]
pub enum RequestError {
    /// It asks for more than `MAX_COUNT` rows.
    CountTooLarge,
    /// It names a tab that does not exist.
    UnknownTab,
}

/// The tab that `name` names: each tab by its name, capitalised or in lower
/// case.
pub open spec fn tab_named(name: Seq<char>) -> Option<Tab> {
    if name == "General"@ || name == "general"@ {
        Some(Tab::General)
    } else if name == "Images"@ || name == "images"@ {
        Some(Tab::Images)
    } else {
        None
    }
}

/// What a request with this tab name and count is answered with: too many rows
/// are refused first, then an unknown tab.
pub open spec fn checked(tab: Seq<char>, count: usize) -> Result<Tab, RequestError> {
    if count > MAX_COUNT {
        Err(RequestError::CountTooLarge)
    } else {
        match tab_named(tab) {
            Some(tab) => Ok(tab),
            None => Err(RequestError::UnknownTab),
        }
    }
}

/// Whether answers for `path` may be kept by the client: the static files, the
/// search page and the home page.
pub open spec fn cacheable(path: Seq<char>) -> bool {
    has_prefix(path, "/static/"@) || has_prefix(path, "/search"@) || path == "/"@
}

impl TabFlags {
    /// The flags that show `tab` and nothing else.
    pub fn of(tab: Tab) -> (flags: TabFlags)
        ensures
            flags.general == (tab is General),
            flags.images == (tab is Images),
    {
        match tab {
            Tab::General => TabFlags { general: true, images: false },
            Tab::Images => TabFlags { general: false, images: true },
        }
    }
}

impl RequestError {
    /// The sentence that tells the client what was wrong.
    pub fn message(&self) -> (text: String)
        ensures
            text@ == match *self {
                RequestError::CountTooLarge => "maximum allowed count is 25"@,
                RequestError::UnknownTab => "Unknown Tab query requested"@,
            },
    {
        match self {
            RequestError::CountTooLarge => String::from_str("maximum allowed count is 25"),
            RequestError::UnknownTab => String::from_str("Unknown Tab query requested"),
        }
    }
}

/// The tab that `name` names, if it names one.
pub fn parse_tab(name: &str) -> (tab: Option<Tab>)
    ensures
        tab == tab_named(name@),
{
    if same_text(name, "General") || same_text(name, "general") {
        Some(Tab::General)
    } else if same_text(name, "Images") || same_text(name, "images") {
        Some(Tab::Images)
    } else {
        None
    }
}

/// Checks a request before any engine is asked.
pub fn check_request(tab: &str, count: usize) -> (outcome: Result<Tab, RequestError>)
    ensures
        outcome == checked(tab@, count),
{
    if count > MAX_COUNT {
        return Err(RequestError::CountTooLarge);
    }
    match parse_tab(tab) {
        Some(tab) => Ok(tab),
        None => Err(RequestError::UnknownTab),
    }
}

/// The `Cache-Control` header for the answer to a request for `path`: a day of
/// public caching where the path is cacheable, none otherwise.
pub fn cache_control(path: &str) -> (header: Option<&'static str>)
    ensures
        header is Some <==> cacheable(path@),
        header matches Some(value) ==> value@ == "public, max-age=86400 "@,
{
    if starts_with(path, "/static/") || starts_with(path, "/search") || same_text(path, "/") {
        Some("public, max-age=86400 ")
    } else {
        None
    }
}

} // verus!
