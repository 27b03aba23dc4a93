//! Regular expressions, matched by the `regex` crate.

use vstd::prelude::*;

verus! {

/// The text of capture group `group` in the leftmost match of the regular
/// expression `pattern` in `text`, as `Regex::new`, `Regex::captures` and
/// `Captures::get` yield it. `None` where `pattern` does not compile, where it
/// matches nowhere in `text`, and where the group does not exist or took no
/// part in the match.
pub uninterp spec fn captured(pattern: Seq<char>, text: Seq<char>, group: usize) -> Option<
    Seq<char>,
>;

/// `Regex::new` on `pattern`, `Regex::captures` on `text`, then `Captures::get`
/// for `group`, copied out of `text`.
#[verifier::external_body]
pub(crate) fn capture(pattern: &str, text: &str, group: usize) -> (found: Option<String>)
    ensures
        found.deep_view() == captured(pattern@, text@, group),
{
    let regex = regex::Regex::new(pattern).ok()?;
    regex.captures(text)?.get(group).map(|found| found.as_str().to_string())
}

} // verus!
