//! Text predicates, and the `str` operations of the standard library that the
//! scrapers lean on.

use vstd::prelude::*;
use vstd::string::*;

verus! {

/// `needle` occurs in `hay` as one contiguous run.
pub open spec fn is_substring(needle: Seq<char>, hay: Seq<char>) -> bool {
    exists|i: int|
        0 <= i && i + needle.len() <= hay.len() && #[trigger] hay.subrange(
            i,
            i + needle.len(),
        ) == needle
}

/// `s` begins with `prefix`.
pub open spec fn has_prefix(s: Seq<char>, prefix: Seq<char>) -> bool {
    prefix.len() <= s.len() && s.subrange(0, prefix.len() as int) == prefix
}

/// Whether `c` has the Unicode property White_Space, which is what
/// `char::is_whitespace` tests: the controls from tab to carriage return, the
/// space, next line, the no-break space, the ogham space mark, the spaces from
/// en quad to hair space, the line and the paragraph separator, the narrow
/// no-break space, the medium mathematical space and the ideographic space.
pub open spec fn is_whitespace(c: char) -> bool {
    ||| '\u{9}' <= c <= '\u{d}'
    ||| c == ' '
    ||| c == '\u{85}'
    ||| c == '\u{a0}'
    ||| c == '\u{1680}'
    ||| '\u{2000}' <= c <= '\u{200a}'
    ||| c == '\u{2028}'
    ||| c == '\u{2029}'
    ||| c == '\u{202f}'
    ||| c == '\u{205f}'
    ||| c == '\u{3000}'
}

/// `s` without its leading whitespace.
pub open spec fn trim_start(s: Seq<char>) -> Seq<char>
    decreases s.len(),
{
    if s.len() > 0 && is_whitespace(s[0]) {
        trim_start(s.drop_first())
    } else {
        s
    }
}

/// `s` without its trailing whitespace.
pub open spec fn trim_end(s: Seq<char>) -> Seq<char>
    decreases s.len(),
{
    if s.len() > 0 && is_whitespace(s.last()) {
        trim_end(s.drop_last())
    } else {
        s
    }
}

/// `s` without leading and trailing whitespace.
pub open spec fn trimmed(s: Seq<char>) -> Seq<char> {
    trim_end(trim_start(s))
}

/// The words of `parts` with one space between neighbours.
pub open spec fn join_words(parts: Seq<Seq<char>>) -> Seq<char>
    decreases parts.len(),
{
    if parts.len() == 0 {
        Seq::empty()
    } else if parts.len() == 1 {
        parts[0]
    } else {
        join_words(parts.drop_last()) + seq![' '] + parts.last()
    }
}

/// Every word of `parts` has at least one character.
pub open spec fn all_nonempty(parts: Seq<Seq<char>>) -> bool {
    forall|i: int| 0 <= i < parts.len() ==> (#[trigger] parts[i]).len() > 0
}

/// Joined words are empty only when there are no words.
pub proof fn lemma_join_empty(parts: Seq<Seq<char>>)
    requires
        all_nonempty(parts),
    ensures
        join_words(parts).len() == 0 <==> parts.len() == 0,
    decreases parts.len(),
{
    if parts.len() >= 2 {
        lemma_join_empty(parts.drop_last());
    }
}

/// Joining two runs of words: the joined halves, with a space between them
/// where both have words.
pub proof fn lemma_join_concat(left: Seq<Seq<char>>, right: Seq<Seq<char>>)
    ensures
        join_words(left + right) == if right.len() == 0 {
            join_words(left)
        } else if left.len() == 0 {
            join_words(right)
        } else {
            join_words(left) + seq![' '] + join_words(right)
        },
    decreases right.len(),
{
    if right.len() == 0 {
        assert(left + right =~= left);
    } else if left.len() == 0 {
        assert(left + right =~= right);
    } else {
        let whole = left + right;
        assert(whole.drop_last() =~= left + right.drop_last());
        assert(whole.last() == right.last());
        lemma_join_concat(left, right.drop_last());
        if right.len() == 1 {
            assert(right.drop_last().len() == 0);
        } else {
            assert(join_words(whole) =~= join_words(left) + seq![' '] + join_words(right));
        }
    }
}

/// No word of `parts` is empty or has whitespace at either end.
pub open spec fn all_clean(parts: Seq<Seq<char>>) -> bool {
    forall|i: int|
        0 <= i < parts.len() ==> (#[trigger] parts[i]).len() > 0 && !is_whitespace(parts[i][0])
            && !is_whitespace(parts[i].last())
}

/// What is left after trimming is empty or has no whitespace at either end.
pub proof fn lemma_trimmed_ends(s: Seq<char>)
    ensures
        trimmed(s).len() > 0 ==> !is_whitespace(trimmed(s)[0]) && !is_whitespace(
            trimmed(s).last(),
        ),
{
    lemma_trim_start_head(s);
    lemma_trim_end_last(trim_start(s));
}

/// After the leading whitespace is gone, the text is empty or begins with
/// something else.
proof fn lemma_trim_start_head(s: Seq<char>)
    ensures
        trim_start(s).len() > 0 ==> !is_whitespace(trim_start(s)[0]),
    decreases s.len(),
{
    if s.len() > 0 && is_whitespace(s[0]) {
        lemma_trim_start_head(s.drop_first());
    }
}

/// After the trailing whitespace is gone, the text is empty or ends with
/// something else; and a text that begins with something else still begins with
/// it.
proof fn lemma_trim_end_last(s: Seq<char>)
    ensures
        trim_end(s).len() > 0 ==> !is_whitespace(trim_end(s).last()),
        s.len() > 0 && !is_whitespace(s[0]) ==> trim_end(s).len() > 0 && trim_end(s)[0] == s[0],
    decreases s.len(),
{
    if s.len() > 0 && is_whitespace(s.last()) {
        lemma_trim_end_last(s.drop_last());
    }
}

/// Trimming changes nothing in a text that is empty or has no whitespace at
/// either end.
pub proof fn lemma_trimmed_fixed(s: Seq<char>)
    requires
        s.len() > 0 ==> !is_whitespace(s[0]) && !is_whitespace(s.last()),
    ensures
        trimmed(s) == s,
{
}

/// Clean words joined by single spaces have no whitespace at either end.
pub proof fn lemma_join_clean(parts: Seq<Seq<char>>)
    requires
        all_clean(parts),
    ensures
        parts.len() > 0 ==> join_words(parts).len() > 0 && join_words(parts)[0] == parts[0][0]
            && join_words(parts).last() == parts.last().last(),
        trimmed(join_words(parts)) == join_words(parts),
    decreases parts.len(),
{
    if parts.len() >= 2 {
        lemma_join_clean(parts.drop_last());
    }
    lemma_trimmed_fixed(join_words(parts));
}

/// The character of one decimal digit.
pub open spec fn digit(d: nat) -> char {
    if d == 0 {
        '0'
    } else if d == 1 {
        '1'
    } else if d == 2 {
        '2'
    } else if d == 3 {
        '3'
    } else if d == 4 {
        '4'
    } else if d == 5 {
        '5'
    } else if d == 6 {
        '6'
    } else if d == 7 {
        '7'
    } else if d == 8 {
        '8'
    } else {
        '9'
    }
}

/// `n` in decimal digits, without leading zeros.
pub open spec fn decimal(n: nat) -> Seq<char>
    decreases n,
{
    if n < 10 {
        seq![digit(n)]
    } else {
        decimal(n / 10).push(digit(n % 10))
    }
}

/// One decimal digit as text.
fn digit_text(d: usize) -> (text: &'static str)
    requires
        d < 10,
    ensures
        text@ == seq![digit(d as nat)],
{
    proof {
        reveal_strlit("0");
        reveal_strlit("1");
        reveal_strlit("2");
        reveal_strlit("3");
        reveal_strlit("4");
        reveal_strlit("5");
        reveal_strlit("6");
        reveal_strlit("7");
        reveal_strlit("8");
        reveal_strlit("9");
    }
    let text = if d == 0 {
        "0"
    } else if d == 1 {
        "1"
    } else if d == 2 {
        "2"
    } else if d == 3 {
        "3"
    } else if d == 4 {
        "4"
    } else if d == 5 {
        "5"
    } else if d == 6 {
        "6"
    } else if d == 7 {
        "7"
    } else if d == 8 {
        "8"
    } else {
        "9"
    };
    assert(text@ =~= seq![digit(d as nat)]);
    text
}

/// `n` in decimal digits.
pub fn to_decimal(n: usize) -> (digits: String)
    ensures
        digits@ == decimal(n as nat),
    decreases n,
{
    if n < 10 {
        String::from_str(digit_text(n))
    } else {
        let mut digits = to_decimal(n / 10);
        digits.append(digit_text(n % 10));
        assert(digits@ =~= decimal((n / 10) as nat).push(digit((n % 10) as nat)));
        digits
    }
}

/// `str::contains` with a string as the pattern: whether `needle` matches a
/// sub-slice of `hay`.
#[verifier::external_body]
pub(crate) fn contains(hay: &str, needle: &str) -> (found: bool)
    ensures
        found == is_substring(needle@, hay@),
{
    hay.contains(needle)
}

/// `str::starts_with` with a string as the pattern: whether `prefix` matches
/// a prefix of `s`.
#[verifier::external_body]
pub(crate) fn starts_with(s: &str, prefix: &str) -> (found: bool)
    ensures
        found == has_prefix(s@, prefix@),
{
    s.starts_with(prefix)
}

/// `str::trim`: the slice with leading and trailing whitespace removed, where
/// whitespace is what `char::is_whitespace` accepts.
#[verifier::external_body]
pub(crate) fn trim(s: &str) -> (t: &str)
    ensures
        t@ == trimmed(s@),
{
    s.trim()
}

/// `==` on `str`: whether both slices hold the same characters.
#[verifier::external_body]
pub(crate) fn same_text(a: &str, b: &str) -> (same: bool)
    ensures
        same == (a@ == b@),
{
    a == b
}

} // verus!
