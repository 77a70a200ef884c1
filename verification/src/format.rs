//! Rendering values as text.

use vstd::prelude::*;
use crate::scalar::{ScalarValue, SpecScalar};

verus! {

/// The decimal digit for `d` (below ten).
pub open spec fn digit_char(d: nat) -> char {
    if d == 0 { '0' }
    else if d == 1 { '1' }
    else if d == 2 { '2' }
    else if d == 3 { '3' }
    else if d == 4 { '4' }
    else if d == 5 { '5' }
    else if d == 6 { '6' }
    else if d == 7 { '7' }
    else if d == 8 { '8' }
    else { '9' }
}

/// The decimal digits of `n`, most significant first, without leading zeros.
pub open spec fn decimal_digits(n: nat) -> Seq<char>
    decreases n,
{
    if n < 10 {
        seq![digit_char(n)]
    } else {
        decimal_digits(n / 10).push(digit_char(n % 10))
    }
}

/// The decimal text of `x`, with a leading `-` when it is negative.
pub open spec fn int_text(x: int) -> Seq<char> {
    if x < 0 {
        seq!['-'] + decimal_digits((-x) as nat)
    } else {
        decimal_digits(x as nat)
    }
}

/// The number that a run of decimal digits denotes, most significant first.
pub open spec fn digits_value(s: Seq<char>) -> int
    decreases s.len(),
{
    if s.len() == 0 {
        0
    } else {
        digits_value(s.drop_last()) * 10 + (s.last() as int - '0' as int)
    }
}

/// The decimal text of `n` is a run of the digits `0` to `9` that denotes
/// `n`, with no leading zero unless `n` is zero.
pub proof fn lemma_decimal_digits_denote(n: nat)
    ensures
        decimal_digits(n).len() > 0,
        forall|i: int| 0 <= i < decimal_digits(n).len() ==> '0' <= #[trigger] decimal_digits(n)[i] <= '9',
        digits_value(decimal_digits(n)) == n,
        n > 0 ==> decimal_digits(n)[0] != '0',
    decreases n,
{
    assert(digit_char(n % 10) as int - '0' as int == n % 10);
    if n < 10 {
        assert(decimal_digits(n) =~= seq![digit_char(n)]);
        assert(seq![digit_char(n)].drop_last() =~= Seq::<char>::empty());
        assert(digits_value(decimal_digits(n)) == digits_value(Seq::<char>::empty()) * 10 + (digit_char(n) as int - '0' as int));
        assert(n % 10 == n);
    } else {
        assert(n == (n / 10) * 10 + n % 10);
        lemma_decimal_digits_denote(n / 10);
        let d = decimal_digits(n);
        assert(d.drop_last() == decimal_digits(n / 10));
        assert(d.last() == digit_char(n % 10));
        assert forall|i: int| 0 <= i < d.len() implies '0' <= #[trigger] d[i] <= '9' by {
            if i < d.len() - 1 {
                assert(d[i] == decimal_digits(n / 10)[i]);
            }
        }
        assert(d[0] == decimal_digits(n / 10)[0]);
        assert(digits_value(d) == digits_value(d.drop_last()) * 10 + (d.last() as int - '0' as int));
    }
}

/// The text of a negative integer is `-` followed by the digits of its
/// magnitude, and that of any other integer is its digits alone.
pub proof fn lemma_int_text_sign(x: int)
    ensures
        x < 0 ==> int_text(x)[0] == '-' && int_text(x).drop_first() == decimal_digits((-x) as nat),
        x >= 0 ==> int_text(x) == decimal_digits(x as nat) && digits_value(int_text(x)) == x,
{
    if x < 0 {
        assert((seq!['-'] + decimal_digits((-x) as nat)).drop_first() =~= decimal_digits((-x) as nat));
    } else {
        lemma_decimal_digits_denote(x as nat);
    }
}

fn digit_str(d: u64) -> (r: &'static str)
    requires
        d < 10,
    ensures
        r@ == seq![digit_char(d as nat)],
{
    if d == 0 { proof { reveal_strlit("0"); } "0" }
    else if d == 1 { proof { reveal_strlit("1"); } "1" }
    else if d == 2 { proof { reveal_strlit("2"); } "2" }
    else if d == 3 { proof { reveal_strlit("3"); } "3" }
    else if d == 4 { proof { reveal_strlit("4"); } "4" }
    else if d == 5 { proof { reveal_strlit("5"); } "5" }
    else if d == 6 { proof { reveal_strlit("6"); } "6" }
    else if d == 7 { proof { reveal_strlit("7"); } "7" }
    else if d == 8 { proof { reveal_strlit("8"); } "8" }
    else { proof { reveal_strlit("9"); } "9" }
}

/// The decimal text of `n`.
pub fn decimal_string(n: u64) -> (r: String)
    ensures
        r@ == decimal_digits(n as nat),
    decreases n,
{
    if n < 10 {
        String::from_str(digit_str(n))
    } else {
        let mut s = decimal_string(n / 10);
        s.append(digit_str(n % 10));
        s
    }
}

/// The decimal text of `x`, signed.
pub fn int_string(x: i64) -> (r: String)
    ensures
        r@ == int_text(x as int),
{
    if x < 0 {
        let magnitude: u64 = if x == i64::MIN { 9223372036854775808u64 } else { (-x) as u64 };
        let mut s = String::from_str("-");
        proof {
            reveal_strlit("-");
        }
        s.append(decimal_string(magnitude).as_str());
        s
    } else {
        decimal_string(x as u64)
    }
}

/// How values are written: the text for NULL, and the text for an empty string.
pub struct FormatOptions {
    pub null: &'static str,
    pub empty_string: &'static str,
}

/// The text of value `v` under options with NULL text `null` and empty-string
/// text `empty`.
pub open spec fn format_spec(null: Seq<char>, empty: Seq<char>, v: SpecScalar) -> Seq<char> {
    match v {
        SpecScalar::Null => null,
        SpecScalar::Boolean(b) => if b { seq!['t', 'r', 'u', 'e'] } else { seq!['f', 'a', 'l', 's', 'e'] },
        SpecScalar::Int32(x) => int_text(x as int),
        SpecScalar::Int64(x) => int_text(x as int),
        SpecScalar::Utf8(s) => if s.len() == 0 { empty } else { s },
    }
}

/// Writes values as text.
pub struct Formatter {
    pub options: FormatOptions,
}

impl Formatter {
    /// A formatter with the given options.
    pub fn new(options: FormatOptions) -> (r: Formatter)
        ensures
            r.options == options,
    {
        Formatter { options }
    }

    /// The text of `v`; see [`format_spec`].
    pub fn format_value(&self, v: &ScalarValue) -> (r: String)
        ensures
            r@ == format_spec(self.options.null@, self.options.empty_string@, v@),
    {
        match v {
            ScalarValue::Null => String::from_str(self.options.null),
            ScalarValue::Boolean(b) => if *b {
                proof { reveal_strlit("true"); }
                String::from_str("true")
            } else {
                proof { reveal_strlit("false"); }
                String::from_str("false")
            },
            ScalarValue::Int32(x) => int_string(*x as i64),
            ScalarValue::Int64(x) => int_string(*x),
            ScalarValue::Utf8(s) => if s.as_str().is_empty() {
                String::from_str(self.options.empty_string)
            } else {
                s.clone()
            },
        }
    }
}

} // verus!
