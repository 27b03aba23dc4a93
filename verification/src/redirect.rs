//! Links as DuckDuckGo hands them out: redirects that wrap the destination in
//! a query parameter, and paid placements that carry a marker.

use crate::model::RowView;
use crate::text::{contains, is_substring, same_text};
use vstd::prelude::*;
use vstd::string::*;
use vstd::utf8::is_ascii_chars;

verus! {

/// The query string of `href` resolved against `base`: what `Url::parse(base)`,
/// `Url::join(href)` on the result and `Url::query` on that give, the text
/// between `?` and `#` as the URL is written out, percent-escapes left as they
/// are. `None` where `base` does not parse or `href` cannot be joined to it;
/// `Some(None)` where the joined URL has no query.
pub uninterp spec fn joined_query(base: Seq<char>, href: Seq<char>) -> Option<Option<Seq<char>>>;

/// `text` with its percent-escapes decoded, as `percent_decode` on the bytes of
/// `text` followed by `decode_utf8` yields it. `None` where the decoded bytes
/// are not UTF-8.
pub uninterp spec fn percent_decoded(text: Seq<char>) -> Option<Seq<char>>;

/// `Url::parse` on `base`, `Url::join` with `href`, then `Url::query`, copied
/// out. `Url::query` gives the query as a percent-encoded ASCII string.
#[verifier::external_body]
fn query_of(base: &str, href: &str) -> (query: Option<Option<String>>)
    ensures
        query.deep_view() == joined_query(base@, href@),
        query matches Some(Some(text)) ==> is_ascii_chars(text@),
{
    let url = url::Url::parse(base).ok()?.join(href).ok()?;
    Some(url.query().map(|query| query.to_string()))
}

/// `percent_encoding::percent_decode` on the bytes of `text`, then
/// `PercentDecode::decode_utf8`.
#[verifier::external_body]
fn percent_decode_utf8(text: &str) -> (decoded: Option<String>)
    ensures
        decoded.deep_view() == percent_decoded(text@),
{
    percent_encoding::percent_decode(text.as_bytes()).decode_utf8().ok().map(|s| s.into_owned())
}

/// The address that relative links are resolved against.
pub open spec fn base() -> Seq<char> {
    "https://duckduckgo.com"@
}

/// The query parameter that holds the destination of a redirect.
pub open spec fn destination_key() -> Seq<char> {
    "uddg"@
}

/// Where `mark` first stands in `text` at or behind `from`; the length of
/// `text` where it stands nowhere there.
pub open spec fn position_of(text: Seq<char>, mark: char, from: int) -> int
    decreases text.len() - from,
{
    if from < 0 || from >= text.len() {
        text.len() as int
    } else if text[from] == mark {
        from
    } else {
        position_of(text, mark, from + 1)
    }
}

/// The place that `position_of` gives is not before `from` and not behind the
/// end of the text, and where it is inside the text, the mark stands there.
pub proof fn lemma_position_of(text: Seq<char>, mark: char, from: int)
    requires
        0 <= from <= text.len(),
    ensures
        from <= position_of(text, mark, from) <= text.len(),
        position_of(text, mark, from) < text.len() ==> text[position_of(text, mark, from)] == mark,
    decreases text.len() - from,
{
    if from < text.len() && text[from] != mark {
        lemma_position_of(text, mark, from + 1);
    }
}

#[via_fn]
proof fn raw_value_ends(query: Seq<char>, key: Seq<char>, from: int) {
    if 0 <= from <= query.len() {
        lemma_position_of(query, '&', from);
    }
}

/// The value, as it is written, of the first pair of `query[from..]` whose key
/// is written as `key`. Pairs are parted by `&`, and in a pair the key ends at
/// the first `=`; a pair without `=` has an empty value.
pub open spec fn raw_value(query: Seq<char>, key: Seq<char>, from: int) -> Option<Seq<char>>
    decreases query.len() - from,
    via raw_value_ends
{
    if from < 0 || from > query.len() {
        None
    } else {
        let end = position_of(query, '&', from);
        let equals = position_of(query.subrange(0, end), '=', from);
        if query.subrange(from, equals) == key {
            Some(query.subrange(if equals < end { equals + 1 } else { end }, end))
        } else if end >= query.len() {
            None
        } else {
            raw_value(query, key, end + 1)
        }
    }
}

/// What a link decodes to. A link that cannot be resolved decodes to nothing.
/// One that carries the destination parameter decodes to the first such value,
/// percent-decoded once, or to nothing where that is not UTF-8. One without the
/// parameter decodes to itself.
pub open spec fn decoded_link(href: Seq<char>) -> Option<Seq<char>> {
    match joined_query(base(), href) {
        None => None,
        Some(None) => Some(href),
        Some(Some(query)) => match raw_value(query, destination_key(), 0) {
            Some(value) => percent_decoded(value),
            None => Some(href),
        },
    }
}

/// Where a link leads: what it decodes to, or the link itself where it decodes
/// to nothing.
pub open spec fn destination(href: Seq<char>) -> Seq<char> {
    match decoded_link(href) {
        Some(url) => url,
        None => href,
    }
}

/// Whether an address is a paid placement: it contains one of the two markers.
pub open spec fn sponsored(url: Seq<char>) -> bool {
    is_substring("?ad_domain"@, url) || is_substring("?ad_provider"@, url)
}

/// None of the rows from position `from` on is a paid placement.
pub open spec fn unsponsored(rows: Seq<RowView>, from: int) -> bool {
    forall|i: int| from <= i < rows.len() ==> !sponsored((#[trigger] rows[i]).url)
}

/// Where the ASCII character `mark` first stands in `text[from..end]`; `end`
/// where it stands nowhere there.
fn find(text: &str, mark: u8, from: usize, end: usize) -> (at: usize)
    requires
        is_ascii_chars(text@),
        mark < 128,
        from <= end <= text@.len(),
    ensures
        at == position_of(text@.subrange(0, end as int), mark as char, from as int),
        from <= at <= end,
{
    let ghost part = text@.subrange(0, end as int);
    let mut at: usize = from;
    while at < end
        invariant
            is_ascii_chars(text@),
            mark < 128,
            from <= at <= end <= text@.len(),
            part == text@.subrange(0, end as int),
            position_of(part, mark as char, from as int) == position_of(
                part,
                mark as char,
                at as int,
            ),
        decreases end - at,
    {
        let here = text.get_ascii(at);
        assert(part[at as int] == text@[at as int]);
        assert(here == mark <==> text@[at as int] == mark as char);
        if here == mark {
            return at;
        }
        at += 1;
    }
    at
}

/// The value, as it is written, of the first pair of `query` whose key is
/// written as `key`.
fn find_raw_value<'a>(query: &'a str, key: &str) -> (found: Option<&'a str>)
    requires
        is_ascii_chars(query@),
    ensures
        found.deep_view() == raw_value(query@, key@, 0),
{
    let len = query.unicode_len();
    let mut from: usize = 0;
    loop
        invariant
            is_ascii_chars(query@),
            len == query@.len(),
            from <= len,
            raw_value(query@, key@, 0) == raw_value(query@, key@, from as int),
        decreases len - from,
    {
        let end = find(query, 38u8, from, len);
        let equals = find(query, 61u8, from, end);
        proof {
            assert(query@.subrange(0, len as int) =~= query@);
            assert(38u8 as char == '&');
            assert(61u8 as char == '=');
        }
        if same_text(query.substring_ascii(from, equals), key) {
            let start = if equals < end {
                equals + 1
            } else {
                end
            };
            return Some(query.substring_ascii(start, end));
        }
        if end >= len {
            return None;
        }
        from = end + 1;
    }
}

/// Decodes a redirect link.
///
/// A link that cannot be resolved against the site decodes to nothing. A link
/// whose query carries the destination parameter decodes to the value of the
/// first such parameter, percent-decoded once, or to nothing where that is not
/// UTF-8. Any other link decodes to itself.
pub fn extract_ddg_url(ddg_href: &str) -> (url: Option<String>)
    ensures
        url.deep_view() == decoded_link(ddg_href@),
{
    match query_of("https://duckduckgo.com", ddg_href) {
        None => None,
        Some(None) => Some(String::from_str(ddg_href)),
        Some(Some(query)) => match find_raw_value(query.as_str(), "uddg") {
            Some(value) => percent_decode_utf8(value),
            None => Some(String::from_str(ddg_href)),
        },
    }
}

/// Where a link leads: the decoded destination of a redirect, the link itself
/// where it is no redirect or cannot be decoded.
pub fn resolve(href: &str) -> (url: String)
    ensures
        url@ == destination(href@),
{
    match extract_ddg_url(href) {
        Some(url) => url,
        None => String::from_str(href),
    }
}

/// Whether an address is a paid placement.
pub fn is_sponsored(ddg_href: &str) -> (paid: bool)
    ensures
        paid == sponsored(ddg_href@),
{
    contains(ddg_href, "?ad_domain") || contains(ddg_href, "?ad_provider")
}

/// A link whose first destination parameter can be percent-decoded leads to
/// the decoded value. A link that resolves and has no such parameter, or one
/// whose parameter cannot be decoded, leads to itself.
pub proof fn lemma_redirect_decoding(href: Seq<char>)
    ensures
        joined_query(base(), href) matches Some(Some(query)) ==> {
            match raw_value(query, destination_key(), 0) {
                Some(value) => match percent_decoded(value) {
                    Some(decoded) => destination(href) == decoded,
                    None => destination(href) == href,
                },
                None => destination(href) == href,
            }
        },
        joined_query(base(), href) matches Some(None) ==> destination(href) == href,
        joined_query(base(), href) is None ==> destination(href) == href,
{
}

} // verus!
