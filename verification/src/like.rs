//! Classification of LIKE patterns.

use vstd::prelude::*;
use crate::text::{chars_of, vec_contains_char, range_contains_char, trim_char, trim_matches_char};

verus! {

/// A string test that can stand in for a LIKE whose pattern is simple enough.
#[derive(Clone, Copy, Debug, PartialEq, Eq, Structural)]
pub enum StringTest {
    /// The text equals the argument.
    Equals,
    /// The text starts with the argument.
    StartsWith,
    /// The text ends with the argument.
    EndsWith,
    /// The argument occurs somewhere in the text.
    Contains,
}

/// The pattern holds neither `%` nor `_`.
pub open spec fn spec_can_str_compare(s: Seq<char>) -> bool {
    !s.contains('%') && !s.contains('_')
}

/// Checks if the string actually contains any pattern characters. If it
/// doesn't, we can just compare the strings directly.
pub fn can_str_compare(s: &str) -> (r: bool)
    ensures
        r == spec_can_str_compare(s@),
{
    let v = chars_of(s);
    !vec_contains_char(&v, '%') && !vec_contains_char(&v, '_')
}

/// `%text%` where `text` holds no `%` or `_` and does not end in a backslash
/// (which would escape the closing `%`).
pub open spec fn spec_is_contains_pattern(s: Seq<char>) -> bool {
    &&& s.len() >= 2
    &&& s[0] == '%'
    &&& s[s.len() - 1] == '%'
    &&& !(s.len() > 2 && s[s.len() - 2] == '\\')
    &&& spec_can_str_compare(s.subrange(1, s.len() - 1))
}

/// `text%` where the final `%` is the only one, is not escaped by a
/// backslash, and the pattern holds no `_`.
pub open spec fn spec_is_prefix_pattern(s: Seq<char>) -> bool {
    &&& s.len() >= 1
    &&& s[s.len() - 1] == '%'
    &&& !s.drop_last().contains('%')
    &&& !s.contains('_')
    &&& !(s.len() >= 2 && s[s.len() - 2] == '\\')
}

/// `%text` where the leading `%` is the only one and the pattern holds no `_`.
pub open spec fn spec_is_suffix_pattern(s: Seq<char>) -> bool {
    &&& s.len() >= 1
    &&& s[0] == '%'
    &&& !s.drop_first().contains('%')
    &&& !s.contains('_')
}

/// Whether the pattern is `%text%` with a plain `text`, so that LIKE can be
/// answered by a substring test.
pub fn is_contains_pattern(s: &str) -> (r: bool)
    ensures
        r == spec_is_contains_pattern(s@),
{
    let v = chars_of(s);
    let n = v.len();
    if n < 2 {
        return false;
    }
    if v[0] != '%' {
        return false;
    }
    if v[n - 1] != '%' {
        return false;
    }
    // Check if trailing '%' was escaped.
    if n > 2 && v[n - 2] == '\\' {
        return false;
    }
    if range_contains_char(&v, 1, n - 1, '%') || range_contains_char(&v, 1, n - 1, '_') {
        return false;
    }
    true
}

/// Whether the pattern is `text%` with a plain `text`, so that LIKE can be
/// answered by a prefix test.
pub fn is_prefix_pattern(s: &str) -> (r: bool)
    ensures
        r == spec_is_prefix_pattern(s@),
{
    let v = chars_of(s);
    let n = v.len();
    if n == 0 {
        return false;
    }
    if vec_contains_char(&v, '_') {
        return false;
    }
    if v[n - 1] != '%' || range_contains_char(&v, 0, n - 1, '%') {
        assert(v@.subrange(0, n - 1) =~= v@.drop_last());
        return false;
    }
    assert(v@.subrange(0, n - 1) =~= v@.drop_last());
    // Ensure '%' isn't escaped.
    if n >= 2 && v[n - 2] == '\\' {
        return false;
    }
    true
}

/// Whether the pattern is `%text` with a plain `text`, so that LIKE can be
/// answered by a suffix test.
pub fn is_suffix_pattern(s: &str) -> (r: bool)
    ensures
        r == spec_is_suffix_pattern(s@),
{
    let v = chars_of(s);
    let n = v.len();
    if n == 0 {
        return false;
    }
    if v[0] != '%' {
        return false;
    }
    let rest_has_percent = range_contains_char(&v, 1, n, '%');
    assert(v@.subrange(1, n as int) =~= v@.drop_first());
    if rest_has_percent || vec_contains_char(&v, '_') {
        return false;
    }
    true
}

/// The string test that answers LIKE for pattern `p`, with its argument, when
/// the pattern is simple enough; the checks are tried in this order. A
/// pattern with a `\` escape is never replaced, since the string tests do not
/// read escapes.
pub open spec fn like_replacement(p: Seq<char>) -> Option<(StringTest, Seq<char>)> {
    if p.contains('\\') {
        None
    } else if spec_can_str_compare(p) {
        Some((StringTest::Equals, p))
    } else if spec_is_prefix_pattern(p) {
        Some((StringTest::StartsWith, trim_char(p, '%')))
    } else if spec_is_suffix_pattern(p) {
        Some((StringTest::EndsWith, trim_char(p, '%')))
    } else if spec_is_contains_pattern(p) {
        Some((StringTest::Contains, trim_char(p, '%')))
    } else {
        None
    }
}

/// Picks the string test that can replace LIKE with pattern `pattern`, and
/// its argument: the pattern itself for equality, else the pattern with its
/// `%` signs trimmed. A pattern with a `\` escape gets none.
pub fn choose_like_replacement(pattern: &str) -> (r: Option<(StringTest, String)>)
    ensures
        match r {
            Some((kind, arg)) => like_replacement(pattern@) == Some((kind, arg@)),
            None => like_replacement(pattern@) is None,
        },
{
    if vec_contains_char(&chars_of(pattern), '\\') {
        None
    } else if can_str_compare(pattern) {
        Some((StringTest::Equals, String::from_str(pattern)))
    } else if is_prefix_pattern(pattern) {
        // LIKE -> STARTS_WITH
        Some((StringTest::StartsWith, trim_matches_char(pattern, '%')))
    } else if is_suffix_pattern(pattern) {
        // LIKE -> ENDS_WITH
        Some((StringTest::EndsWith, trim_matches_char(pattern, '%')))
    } else if is_contains_pattern(pattern) {
        // LIKE -> CONTAINS
        Some((StringTest::Contains, trim_matches_char(pattern, '%')))
    } else {
        None
    }
}

} // verus!
