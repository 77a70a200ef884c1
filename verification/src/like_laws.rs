//! What a LIKE pattern matches, and the proof that every pattern the
//! classifiers accept answers LIKE exactly as the cheaper string test does.

use vstd::prelude::*;
use crate::like::{
    StringTest, spec_can_str_compare, spec_is_prefix_pattern, spec_is_suffix_pattern,
    spec_is_contains_pattern, like_replacement,
};
use crate::text::{trim_char, trim_start_char, trim_end_char};

verus! {

/// SQL LIKE: `%` matches any run of characters, `_` matches exactly one
/// character, a backslash followed by a character matches that character,
/// and every other character matches itself.
pub open spec fn like_matches(t: Seq<char>, p: Seq<char>) -> bool
    decreases p.len(), t.len(),
{
    if p.len() == 0 {
        t.len() == 0
    } else if p[0] == '%' {
        like_matches(t, p.drop_first()) || (t.len() > 0 && like_matches(t.drop_first(), p))
    } else if t.len() == 0 {
        false
    } else if p[0] == '_' {
        like_matches(t.drop_first(), p.drop_first())
    } else if p[0] == '\\' && p.len() >= 2 {
        t[0] == p[1] && like_matches(t.drop_first(), p.subrange(2, p.len() as int))
    } else {
        t[0] == p[0] && like_matches(t.drop_first(), p.drop_first())
    }
}

/// `q` occurs somewhere in `t` as a contiguous run.
pub open spec fn has_substring(t: Seq<char>, q: Seq<char>) -> bool {
    exists|i: int| 0 <= i && i + q.len() <= t.len() && #[trigger] t.subrange(i, i + q.len()) == q
}

/// What a cheaper string test checks of a text `t` against an argument `q`.
pub open spec fn string_test_holds(kind: StringTest, t: Seq<char>, q: Seq<char>) -> bool {
    match kind {
        StringTest::Equals => t == q,
        StringTest::StartsWith => q.is_prefix_of(t),
        StringTest::EndsWith => q.is_suffix_of(t),
        StringTest::Contains => has_substring(t, q),
    }
}

/// A plain pattern (no `%`, `_` or backslash) matches exactly itself.
proof fn lemma_plain_pattern(t: Seq<char>, p: Seq<char>)
    requires
        spec_can_str_compare(p),
        !p.contains('\\'),
    ensures
        like_matches(t, p) <==> t == p,
    decreases p.len(), t.len(),
{
    if p.len() == 0 {
        if t.len() != 0 {
            assert(t.len() != p.len());
        } else {
            assert(t =~= p);
        }
    } else {
        assert(p[0] != '%' && p[0] != '_' && p[0] != '\\') by {
            assert(p.contains(p[0]));
        }
        if t.len() > 0 {
            let p1 = p.drop_first();
            assert forall|c: char| p1.contains(c) implies p.contains(c) by {
                let k = choose|k: int| 0 <= k < p1.len() && p1[k] == c;
                assert(p[k + 1] == c);
            }
            lemma_plain_pattern(t.drop_first(), p1);
            if t == p {
                assert(t.drop_first() == p1);
            }
            if t[0] == p[0] && t.drop_first() == p1 {
                assert(t =~= p) by {
                    assert forall|i: int| 0 <= i < t.len() implies t[i] == p[i] by {
                        if i > 0 {
                            assert(t[i] == t.drop_first()[i - 1]);
                        }
                    }
                }
            }
        } else {
            assert(t.len() != p.len());
        }
    }
}

/// A lone `%` matches every text.
proof fn lemma_percent_matches_all(t: Seq<char>)
    ensures
        like_matches(t, seq!['%']),
    decreases t.len(),
{
    let p = seq!['%'];
    assert(p.drop_first() =~= Seq::<char>::empty());
    if t.len() > 0 {
        lemma_percent_matches_all(t.drop_first());
        assert(like_matches(t.drop_first(), p));
    } else {
        assert(like_matches(t, p.drop_first()));
    }
}

/// `q%` with a plain `q` matches exactly the texts that start with `q`.
proof fn lemma_prefix_pattern(t: Seq<char>, q: Seq<char>)
    requires
        spec_can_str_compare(q),
        !q.contains('\\'),
    ensures
        like_matches(t, q.push('%')) <==> q.is_prefix_of(t),
    decreases q.len(),
{
    let p = q.push('%');
    if q.len() == 0 {
        assert(p =~= seq!['%']);
        lemma_percent_matches_all(t);
        assert(q =~= t.subrange(0, 0));
    } else {
        assert(q[0] != '%' && q[0] != '_' && q[0] != '\\') by {
            assert(q.contains(q[0]));
        }
        assert(p[0] == q[0]);
        let q1 = q.drop_first();
        assert(p.drop_first() =~= q1.push('%'));
        assert forall|c: char| q1.contains(c) implies q.contains(c) by {
            let k = choose|k: int| 0 <= k < q1.len() && q1[k] == c;
            assert(q[k + 1] == c);
        }
        if t.len() > 0 {
            let t1 = t.drop_first();
            lemma_prefix_pattern(t1, q1);
            if q.is_prefix_of(t) {
                assert(q1 =~= t1.subrange(0, q1.len() as int)) by {
                    assert forall|i: int| 0 <= i < q1.len() implies q1[i] == t1.subrange(0, q1.len() as int)[i] by {
                        assert(q[i + 1] == t.subrange(0, q.len() as int)[i + 1]);
                    }
                }
                assert(t[0] == t.subrange(0, q.len() as int)[0]);
            }
            if t[0] == q[0] && q1.is_prefix_of(t1) {
                assert(q =~= t.subrange(0, q.len() as int)) by {
                    assert forall|i: int| 0 <= i < q.len() implies q[i] == t.subrange(0, q.len() as int)[i] by {
                        if i > 0 {
                            assert(q1[i - 1] == t1.subrange(0, q1.len() as int)[i - 1]);
                        }
                    }
                }
            }
        }
    }
}

/// `%q` with a plain `q` matches exactly the texts that end with `q`.
proof fn lemma_suffix_pattern(t: Seq<char>, q: Seq<char>)
    requires
        spec_can_str_compare(q),
        !q.contains('\\'),
    ensures
        like_matches(t, seq!['%'] + q) <==> q.is_suffix_of(t),
    decreases t.len(),
{
    let p = seq!['%'] + q;
    assert(p[0] == '%');
    assert(p.drop_first() =~= q);
    lemma_plain_pattern(t, q);
    if t.len() > 0 {
        let t1 = t.drop_first();
        lemma_suffix_pattern(t1, q);
        if q.is_suffix_of(t) && t != q {
            assert(q.len() < t.len()) by {
                if q.len() == t.len() {
                    assert(t.subrange(0, t.len() as int) =~= t);
                }
            }
            assert(q =~= t1.subrange(t1.len() - q.len(), t1.len() as int)) by {
                assert forall|i: int| 0 <= i < q.len() implies q[i] == t1.subrange(t1.len() - q.len(), t1.len() as int)[i] by {
                    assert(q[i] == t.subrange(t.len() - q.len(), t.len() as int)[i]);
                }
            }
        }
        if q.is_suffix_of(t1) {
            assert(q =~= t.subrange(t.len() - q.len(), t.len() as int)) by {
                assert forall|i: int| 0 <= i < q.len() implies q[i] == t.subrange(t.len() - q.len(), t.len() as int)[i] by {
                    assert(q[i] == t1.subrange(t1.len() - q.len(), t1.len() as int)[i]);
                }
            }
        }
        if t == q {
            assert(t.subrange(0, t.len() as int) =~= t);
        }
    } else {
        if q.is_suffix_of(t) {
            assert(q.len() == 0);
            assert(t =~= q);
        }
    }
}

/// `%q%` with a plain `q` matches exactly the texts that contain `q`.
proof fn lemma_contains_pattern(t: Seq<char>, q: Seq<char>)
    requires
        spec_can_str_compare(q),
        !q.contains('\\'),
    ensures
        like_matches(t, seq!['%'] + q.push('%')) <==> has_substring(t, q),
    decreases t.len(),
{
    let p = seq!['%'] + q.push('%');
    assert(p[0] == '%');
    assert(p.drop_first() =~= q.push('%'));
    lemma_prefix_pattern(t, q);
    if q.is_prefix_of(t) {
        assert(t.subrange(0, 0 + q.len() as int) == q);
    }
    if t.len() > 0 {
        let t1 = t.drop_first();
        lemma_contains_pattern(t1, q);
        if has_substring(t1, q) {
            let i = choose|i: int| 0 <= i && i + q.len() <= t1.len() && #[trigger] t1.subrange(i, i + q.len()) == q;
            assert(t.subrange(i + 1, i + 1 + q.len()) =~= t1.subrange(i, i + q.len()));
        }
        if has_substring(t, q) {
            let i = choose|i: int| 0 <= i && i + q.len() <= t.len() && #[trigger] t.subrange(i, i + q.len()) == q;
            if i == 0 {
                assert(q.is_prefix_of(t));
            } else {
                assert(t1.subrange(i - 1, i - 1 + q.len()) =~= t.subrange(i, i + q.len()));
            }
        }
    } else {
        if has_substring(t, q) {
            let i = choose|i: int| 0 <= i && i + q.len() <= t.len() && #[trigger] t.subrange(i, i + q.len()) == q;
            assert(q.len() == 0);
            assert(q.is_prefix_of(t));
        }
    }
}

/// Every character of `a` occurs in `b`.
proof fn lemma_sub_contains(a: Seq<char>, b: Seq<char>, off: int)
    requires
        0 <= off,
        off + a.len() <= b.len(),
        a == b.subrange(off, off + a.len()),
    ensures
        forall|c: char| a.contains(c) ==> b.contains(c),
{
    assert forall|c: char| a.contains(c) implies b.contains(c) by {
        let k = choose|k: int| 0 <= k < a.len() && a[k] == c;
        assert(b[off + k] == c);
    }
}

/// Trimming `%` from a prefix pattern drops its final `%`.
proof fn lemma_trim_prefix(p: Seq<char>)
    requires
        spec_is_prefix_pattern(p),
    ensures
        trim_char(p, '%') == p.drop_last(),
{
    let q = p.drop_last();
    if q.len() == 0 {
        assert(p.drop_first() =~= Seq::<char>::empty());
        assert(trim_start_char(p, '%') == trim_start_char(p.drop_first(), '%'));
        assert(trim_start_char(Seq::<char>::empty(), '%') =~= Seq::<char>::empty());
        assert(q =~= Seq::<char>::empty());
    } else {
        assert(q.contains(q[0]));
        assert(p[0] == q[0]);
        assert(trim_start_char(p, '%') == p);
        assert(q.contains(q[q.len() - 1]));
        assert(trim_end_char(q, '%') == q);
    }
}

/// Trimming `%` from a suffix pattern drops its leading `%`.
proof fn lemma_trim_suffix(p: Seq<char>)
    requires
        spec_is_suffix_pattern(p),
    ensures
        trim_char(p, '%') == p.drop_first(),
{
    let q = p.drop_first();
    if q.len() == 0 {
        assert(trim_start_char(q, '%') == q);
        assert(trim_end_char(q, '%') == q);
    } else {
        assert(q.contains(q[0]));
        assert(trim_start_char(q, '%') == q);
        assert(q.contains(q[q.len() - 1]));
        assert(trim_end_char(q, '%') == q);
    }
}

/// Trimming `%` from a contains pattern drops both of its outer `%` signs.
proof fn lemma_trim_contains(p: Seq<char>)
    requires
        spec_is_contains_pattern(p),
    ensures
        trim_char(p, '%') == p.subrange(1, p.len() - 1),
{
    let q = p.subrange(1, p.len() - 1);
    let r = p.drop_first();
    assert(r =~= q.push('%'));
    if q.len() == 0 {
        assert(r =~= seq!['%']);
        assert(r.drop_first() =~= Seq::<char>::empty());
        assert(trim_start_char(r, '%') == trim_start_char(r.drop_first(), '%'));
        assert(trim_start_char(Seq::<char>::empty(), '%') =~= Seq::<char>::empty());
        assert(q =~= Seq::<char>::empty());
    } else {
        assert(q.contains(q[0]));
        assert(r[0] == q[0]);
        assert(trim_start_char(r, '%') == r);
        assert(r.drop_last() =~= q);
        assert(q.contains(q[q.len() - 1]));
        assert(trim_end_char(q, '%') == q);
    }
}

/// LIKE rewriting is sound: whenever a pattern is simple enough to be
/// replaced, LIKE with that pattern holds of a text exactly when the chosen
/// string test holds of the text and the chosen argument.
pub proof fn lemma_like_replacement_is_equivalent(t: Seq<char>, p: Seq<char>)
    requires
        like_replacement(p) is Some,
    ensures
        like_matches(t, p) == string_test_holds(like_replacement(p).unwrap().0, t, like_replacement(p).unwrap().1),
{
    if spec_can_str_compare(p) {
        lemma_plain_pattern(t, p);
    } else if spec_is_prefix_pattern(p) {
        lemma_trim_prefix(p);
        let q = p.drop_last();
        lemma_sub_contains(q, p, 0);
        assert(p =~= q.push('%'));
        lemma_prefix_pattern(t, q);
    } else if spec_is_suffix_pattern(p) {
        lemma_trim_suffix(p);
        let q = p.drop_first();
        lemma_sub_contains(q, p, 1);
        assert(p =~= seq!['%'] + q);
        lemma_suffix_pattern(t, q);
    } else {
        assert(spec_is_contains_pattern(p));
        lemma_trim_contains(p);
        let q = p.subrange(1, p.len() - 1);
        lemma_sub_contains(q, p, 1);
        assert(p =~= seq!['%'] + q.push('%'));
        lemma_contains_pattern(t, q);
    }
}

/// Every simple pattern over a plain text `q` (no `%`, `_` or `\\`) is
/// replaced: `q` itself by an equality with `q`, `q%` by a prefix test for
/// `q`, `%q` (for a nonempty `q`) by a suffix test for `q`, and `%q%` by a
/// substring test for `q`.
pub proof fn lemma_simple_patterns_are_replaced(q: Seq<char>)
    requires
        !q.contains('%'),
        !q.contains('_'),
        !q.contains('\\'),
    ensures
        like_replacement(q) == Some((StringTest::Equals, q)),
        like_replacement(q.push('%')) == Some((StringTest::StartsWith, q)),
        q.len() > 0 ==> like_replacement(seq!['%'] + q) == Some((StringTest::EndsWith, q)),
        like_replacement(seq!['%'] + q.push('%')) == Some((StringTest::Contains, q)),
{
    let pre = q.push('%');
    assert(pre.drop_last() =~= q);
    assert(!pre.contains('\\')) by {
        if pre.contains('\\') {
            let i = choose|i: int| 0 <= i < pre.len() && pre[i] == '\\';
            assert(q.contains(pre[i]));
        }
    }
    assert(!pre.contains('_')) by {
        if pre.contains('_') {
            let i = choose|i: int| 0 <= i < pre.len() && pre[i] == '_';
            assert(q.contains(pre[i]));
        }
    }
    assert(pre.contains('%')) by {
        assert(pre[pre.len() - 1] == '%');
    }
    if q.len() > 0 {
        assert(q.contains(q[q.len() - 1]));
    }
    assert(spec_is_prefix_pattern(pre));
    lemma_trim_prefix(pre);

    let suf = seq!['%'] + q;
    assert(suf.drop_first() =~= q);
    assert(suf[0] == '%');
    assert(suf.contains('%'));
    assert(!suf.contains('\\')) by {
        if suf.contains('\\') {
            let i = choose|i: int| 0 <= i < suf.len() && suf[i] == '\\';
            assert(i > 0);
            assert(q.contains(suf[i]));
        }
    }
    assert(!suf.contains('_')) by {
        if suf.contains('_') {
            let i = choose|i: int| 0 <= i < suf.len() && suf[i] == '_';
            assert(i > 0);
            assert(q.contains(suf[i]));
        }
    }
    if q.len() > 0 {
        assert(!spec_is_prefix_pattern(suf)) by {
            assert(suf.drop_last()[0] == '%');
            assert(suf.drop_last().contains(suf.drop_last()[0]));
        }
        assert(spec_is_suffix_pattern(suf));
        lemma_trim_suffix(suf);
    }

    let con = seq!['%'] + q.push('%');
    assert(con.subrange(1, con.len() - 1) =~= q);
    assert(con[0] == '%');
    assert(con[con.len() - 1] == '%');
    assert(con.contains('%'));
    assert(!con.contains('\\')) by {
        if con.contains('\\') {
            let i = choose|i: int| 0 <= i < con.len() && con[i] == '\\';
            assert(0 < i < con.len() - 1);
            assert(q.contains(con[i]));
        }
    }
    assert(!con.contains('_')) by {
        if con.contains('_') {
            let i = choose|i: int| 0 <= i < con.len() && con[i] == '_';
            assert(0 < i < con.len() - 1);
            assert(q.contains(con[i]));
        }
    }
    assert(!spec_is_prefix_pattern(con)) by {
        assert(con.drop_last()[0] == '%');
        assert(con.drop_last().contains('%'));
    }
    assert(!spec_is_suffix_pattern(con)) by {
        assert(con.drop_first()[con.drop_first().len() - 1] == '%');
        assert(con.drop_first().contains('%'));
    }
    if q.len() > 0 {
        assert(con[con.len() - 2] == q[q.len() - 1]);
    }
    assert(spec_is_contains_pattern(con));
    lemma_trim_contains(con);
}

} // verus!
