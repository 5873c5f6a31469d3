//! Decimal amounts as they travel in RPC replies.

use crate::external::{decimal_quotient, decimal_ratio};
use vstd::prelude::*;

verus! {

/// Whether `c` is one of the ASCII digits `0`..`9`.
pub open spec fn is_digit(c: char) -> bool {
    '0' <= c && c <= '9'
}

/// The numeric value of an ASCII digit.
pub open spec fn digit_value(c: char) -> int {
    (c as int) - ('0' as int)
}

/// Whether every character of `s` is an ASCII digit.
pub open spec fn all_digits(s: Seq<char>) -> bool {
    forall|i: int| 0 <= i < s.len() ==> #[trigger] is_digit(s[i])
}

/// The value of a string of decimal digits, most significant digit first.
pub open spec fn digits_value(s: Seq<char>) -> int
    decreases s.len(),
{
    if s.len() == 0 {
        0
    } else {
        digits_value(s.drop_last()) * 10 + digit_value(s.last())
    }
}

/// `s` with one leading `+` sign removed, if it has one.
pub open spec fn without_plus(s: Seq<char>) -> Seq<char> {
    if s.len() > 0 && s[0] == '+' {
        s.drop_first()
    } else {
        s
    }
}

/// What reading `s` as an unsigned 64-bit decimal integer gives: an optional
/// `+` followed by at least one digit, and nothing else, whose value fits.
pub open spec fn spec_parse_u64(s: Seq<char>) -> Option<u64> {
    let d = without_plus(s);
    if d.len() > 0 && all_digits(d) && digits_value(d) <= u64::MAX {
        Some(digits_value(d) as u64)
    } else {
        None
    }
}

proof fn lemma_digits_value_nonneg(s: Seq<char>)
    requires
        all_digits(s),
    ensures
        digits_value(s) >= 0,
    decreases s.len(),
{
    if s.len() > 0 {
        assert(is_digit(s[s.len() - 1]));
        lemma_digits_value_nonneg(s.drop_last());
    }
}

/// On digit strings, a longer prefix never has a smaller value.
proof fn lemma_prefix_value_monotone(s: Seq<char>, j: int, k: int)
    requires
        all_digits(s),
        0 <= j <= k <= s.len(),
    ensures
        digits_value(s.take(j)) <= digits_value(s.take(k)),
    decreases k - j,
{
    if j < k {
        lemma_prefix_value_monotone(s, j, k - 1);
        let t = s.take(k);
        assert(t.drop_last() =~= s.take(k - 1));
        assert(is_digit(s[k - 1]));
        assert(all_digits(s.take(k - 1)));
        lemma_digits_value_nonneg(s.take(k - 1));
    }
}

/// Reads `s` as an unsigned 64-bit decimal integer, as `str::parse::<u64>`
/// does: `None` for an empty string, a stray character (whitespace, `-`,
/// `_` included) or a value above `u64::MAX`.
pub fn parse_u64(s: &str) -> (r: Option<u64>)
    ensures
        r == spec_parse_u64(s@),
{
    let n = s.unicode_len();
    let mut i: usize = 0;
    if n > 0 && s.get_char(0) == '+' {
        i = 1;
    }
    let ghost d = without_plus(s@);
    let ghost start = i as int;
    assert(d =~= s@.subrange(start, n as int));
    if i == n {
        return None;
    }
    let mut acc: u64 = 0;
    while i < n
        invariant
            n == s@.len(),
            start <= i <= n,
            start == 0 || start == 1,
            d =~= s@.subrange(start, n as int),
            d == without_plus(s@),
            d.len() > 0,
            all_digits(d.take(i - start)),
            acc as int == digits_value(d.take(i - start)),
        decreases n - i,
    {
        let c = s.get_char(i);
        if !('0' <= c && c <= '9') {
            assert(!is_digit(d[i - start]));
            return None;
        }
        let dv = (c as u32 - '0' as u32) as u64;
        let ghost k = i - start;
        assert(d.take(k + 1).drop_last() =~= d.take(k));
        assert(d.take(k + 1).last() == c);
        match acc.checked_mul(10) {
            Some(m) => match m.checked_add(dv) {
                Some(v) => {
                    acc = v;
                }
                None => {
                    proof {
                        if all_digits(d) {
                            lemma_prefix_value_monotone(d, k + 1, d.len() as int);
                            assert(d.take(d.len() as int) =~= d);
                        }
                    }
                    return None;
                }
            },
            None => {
                proof {
                    if all_digits(d) {
                        lemma_digits_value_nonneg(d.take(k));
                        lemma_prefix_value_monotone(d, k + 1, d.len() as int);
                        assert(d.take(d.len() as int) =~= d);
                    }
                }
                return None;
            }
        }
        i = i + 1;
        assert(all_digits(d.take(i - start))) by {
            assert forall|j: int| 0 <= j < d.take(i - start).len() implies #[trigger] is_digit(
                d.take(i - start)[j],
            ) by {
                if j < k {
                    assert(d.take(i - start)[j] == d.take(k)[j]);
                }
            }
        }
    }
    assert(d.take(n - start) =~= d);
    Some(acc)
}

/// The ASCII digit of a value below ten.
pub open spec fn digit_char(d: nat) -> char {
    ((d + 48) as u32) as char
}

/// The usual decimal text of `v`: no sign, no leading zeros, `0` for zero.
pub open spec fn decimal_text(v: nat) -> Seq<char>
    decreases v,
{
    if v < 10 {
        seq![digit_char(v)]
    } else {
        decimal_text(v / 10).push(digit_char(v % 10))
    }
}

proof fn lemma_decimal_text_digits(v: nat)
    ensures
        decimal_text(v).len() > 0,
        all_digits(decimal_text(v)),
        digits_value(decimal_text(v)) == v,
        is_digit(decimal_text(v)[0]),
    decreases v,
{
    if v < 10 {
        assert(decimal_text(v).drop_last() =~= Seq::<char>::empty());
        assert(digit_value(digit_char(v)) == v);
        assert(digits_value(decimal_text(v)) == digits_value(decimal_text(v).drop_last()) * 10
            + digit_value(decimal_text(v).last()));
    } else {
        lemma_decimal_text_digits(v / 10);
        let t = decimal_text(v);
        assert(digit_value(digit_char(v % 10)) == v % 10);
        assert(v == (v / 10) * 10 + v % 10);
        assert(t.drop_last() =~= decimal_text(v / 10));
        assert(t.last() == digit_char(v % 10));
        assert(digits_value(t) == digits_value(t.drop_last()) * 10 + digit_value(t.last()));
        assert(t[0] == decimal_text(v / 10)[0]);
        assert forall|i: int| 0 <= i < t.len() implies #[trigger] is_digit(t[i]) by {
            if i < t.len() - 1 {
                assert(t[i] == decimal_text(v / 10)[i]);
            }
        }
    }
}

/// Reading back the decimal text of any `u64` gives that value: amounts the
/// node writes in the usual form are read exactly.
pub proof fn lemma_parse_decimal_text(v: u64)
    ensures
        spec_parse_u64(decimal_text(v as nat)) == Some(v),
{
    lemma_decimal_text_digits(v as nat);
    let t = decimal_text(v as nat);
    assert(t[0] != '+');
    assert(without_plus(t) == t);
}

/// Ten to the power `n`.
pub open spec fn pow10(n: nat) -> nat
    decreases n,
{
    if n == 0 {
        1
    } else {
        10 * pow10((n - 1) as nat)
    }
}

/// `pow10` is the power of ten: `10^0 = 1`, each further power is ten times
/// the one before, and it agrees with vstd's general power `10^n`.
pub proof fn lemma_pow10_is_power_of_ten(n: nat)
    ensures
        pow10(0) == 1,
        pow10(n + 1) == 10 * pow10(n),
        pow10(n) == vstd::arithmetic::power::pow(10, n),
    decreases n,
{
    reveal(vstd::arithmetic::power::pow);
    if n > 0 {
        lemma_pow10_is_power_of_ten((n - 1) as nat);
    }
}

proof fn lemma_pow10_monotone(i: nat, j: nat)
    requires
        i <= j,
    ensures
        pow10(i) <= pow10(j),
    decreases j,
{
    if i < j {
        lemma_pow10_monotone(i, (j - 1) as nat);
    }
}

/// `10u64.pow(n)`, for the exponents where it fits in a `u64`.
pub fn pow10_u64(n: u32) -> (r: u64)
    requires
        n <= 19,
    ensures
        r == pow10(n as nat),
        r == vstd::arithmetic::power::pow(10, n as nat),
{
    proof {
        assert(pow10(19) == 10_000_000_000_000_000_000) by {
            reveal_with_fuel(pow10, 20);
        }
    }
    let mut r: u64 = 1;
    let mut i: u32 = 0;
    while i < n
        invariant
            i <= n <= 19,
            r == pow10(i as nat),
            pow10(19) == 10_000_000_000_000_000_000,
        decreases n - i,
    {
        proof {
            lemma_pow10_monotone((i + 1) as nat, 19);
        }
        r = r * 10;
        i = i + 1;
    }
    proof {
        lemma_pow10_is_power_of_ten(n as nat);
    }
    r
}

/// The token amount `numerator / 10^decimals` as a `rust_decimal` value, the
/// way the tracker computes it: `Decimal::from(numerator)` divided by
/// `Decimal::from(10u64.pow(decimals))`.
pub fn scaled_decimal(numerator: i128, decimals: u32) -> (d: rust_decimal::Decimal)
    requires
        decimals <= 19,
        -0x1_0000_0000_0000_0000 <= numerator < 0x1_0000_0000_0000_0000,
    ensures
        d == decimal_quotient(numerator as int, pow10(decimals as nat) as int),
        d == decimal_quotient(numerator as int, vstd::arithmetic::power::pow(10, decimals as nat)),
{
    let divisor = pow10_u64(decimals);
    proof {
        lemma_pow10_is_power_of_ten(decimals as nat);
        lemma_pow10_monotone(0, decimals as nat);
    }
    decimal_ratio(numerator, divisor)
}

} // verus!
