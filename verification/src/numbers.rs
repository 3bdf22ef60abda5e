//! Decimal numerals: printing them, and reading them back.

use crate::text::{chars_of, concat};
use vstd::prelude::*;

verus! {

/// The character that stands for the digit `d`.
pub open spec fn digit_char(d: nat) -> char {
    (48 + d) as char
}

/// Whether `c` is one of `0` to `9`.
pub open spec fn is_digit(c: char) -> bool {
    '0' <= c <= '9'
}

/// The decimal numeral of `n`, without leading zeros.
pub open spec fn decimal(n: nat) -> Seq<char>
    decreases n,
{
    if n < 10 {
        seq![digit_char(n)]
    } else {
        decimal(n / 10).push(digit_char(n % 10))
    }
}

/// The number that a sequence of digits stands for.
pub open spec fn digits_value(s: Seq<char>) -> nat
    decreases s.len(),
{
    if s.len() == 0 {
        0
    } else {
        digits_value(s.drop_last()) * 10 + (s.last() as nat - '0' as nat) as nat
    }
}

/// Whether `s` is a non-empty sequence of digits.
pub open spec fn all_digits(s: Seq<char>) -> bool {
    s.len() > 0 && forall|i: int| 0 <= i < s.len() ==> is_digit(#[trigger] s[i])
}

/// The number an unsigned numeral stands for: digits with an optional `+`.
pub open spec fn parsed_u64(s: Seq<char>) -> Option<u64> {
    let digits = if s.len() > 0 && s[0] == '+' {
        s.skip(1)
    } else {
        s
    };
    if all_digits(digits) && digits_value(digits) <= u64::MAX {
        Some(digits_value(digits) as u64)
    } else {
        None
    }
}

/// The number a signed numeral stands for: digits with an optional `+` or `-`.
pub open spec fn parsed_i64(s: Seq<char>) -> Option<i64> {
    let negative = s.len() > 0 && s[0] == '-';
    let digits = if s.len() > 0 && (s[0] == '+' || s[0] == '-') {
        s.skip(1)
    } else {
        s
    };
    let value = if negative {
        -(digits_value(digits) as int)
    } else {
        digits_value(digits) as int
    };
    if all_digits(digits) && i64::MIN <= value <= i64::MAX {
        Some(value as i64)
    } else {
        None
    }
}

/// The decimal numeral of `n`.
pub fn to_decimal(n: u64) -> (out: String)
    ensures
        out@ == decimal(n as nat),
    decreases n,
{
    let last: char = digit_of((n % 10) as u8);
    if n < 10 {
        let mut out = String::new();
        out.push(last);
        assert(out@ =~= seq![digit_char(n as nat)]);
        out
    } else {
        let mut out = to_decimal(n / 10);
        out.push(last);
        out
    }
}

/// The decimal numeral of a signed number.
pub open spec fn signed_decimal(n: int) -> Seq<char> {
    if n < 0 {
        "-"@ + decimal((-n) as nat)
    } else {
        decimal(n as nat)
    }
}

/// The decimal numeral of a signed number.
pub fn to_signed_decimal(n: i32) -> (out: String)
    ensures
        out@ == signed_decimal(n as int),
{
    if n < 0 {
        let magnitude: String = to_decimal((-(n as i64)) as u64);
        concat("-", magnitude.as_str())
    } else {
        to_decimal(n as u64)
    }
}

fn digit_of(d: u8) -> (c: char)
    requires
        d < 10,
    ensures
        c == digit_char(d as nat),
{
    (48 + d) as char
}

/// A prefix of a sequence of digits stands for no more than the whole.
proof fn lemma_prefix_value(s: Seq<char>, n: int)
    requires
        0 <= n <= s.len(),
    ensures
        digits_value(s.take(n)) <= digits_value(s),
    decreases s.len(),
{
    if n < s.len() {
        lemma_prefix_value(s.drop_last(), n);
        assert(s.drop_last().take(n) =~= s.take(n));
    } else {
        assert(s.take(n) =~= s);
    }
}

/// The value of `chars[from..]` where it is a numeral that fits.
fn digits_at(chars: &Vec<char>, from: usize) -> (r: Option<u64>)
    requires
        from <= chars@.len(),
    ensures
        r == ({
            let digits = chars@.skip(from as int);
            if all_digits(digits) && digits_value(digits) <= u64::MAX {
                Some(digits_value(digits) as u64)
            } else {
                None::<u64>
            }
        }),
{
    let ghost digits = chars@.skip(from as int);
    if from == chars.len() {
        return None;
    }
    let mut value: u64 = 0;
    let mut i: usize = from;
    assert(digits.take(0) =~= Seq::<char>::empty());
    while i < chars.len()
        invariant
            from <= i <= chars@.len(),
            digits == chars@.skip(from as int),
            value == digits_value(digits.take(i - from)),
            forall|j: int| 0 <= j < i - from ==> is_digit(#[trigger] digits[j]),
        decreases chars@.len() - i,
    {
        let c: char = chars[i];
        assert(digits[i - from] == c);
        if c < '0' || c > '9' {
            return None;
        }
        let d: u64 = (c as u32 - 48) as u64;
        proof {
            assert(digits.take(i + 1 - from).drop_last() =~= digits.take(i - from));
            lemma_prefix_value(digits, i + 1 - from);
        }
        if value > (u64::MAX - d) / 10 {
            return None;
        }
        value = value * 10 + d;
        i += 1;
    }
    assert(digits.take(i - from) =~= digits);
    Some(value)
}

/// Reads an unsigned numeral.
pub fn parse_u64(s: &str) -> (r: Option<u64>)
    ensures
        r == parsed_u64(s@),
{
    let chars: Vec<char> = chars_of(s);
    if chars.len() > 0 && chars[0] == '+' {
        digits_at(&chars, 1)
    } else {
        assert(chars@.skip(0) =~= chars@);
        digits_at(&chars, 0)
    }
}

/// Reads a signed numeral.
pub fn parse_i64(s: &str) -> (r: Option<i64>)
    ensures
        r == parsed_i64(s@),
{
    let chars: Vec<char> = chars_of(s);
    assert(chars@.skip(0) =~= chars@);
    let negative: bool = chars.len() > 0 && chars[0] == '-';
    let from: usize = if chars.len() > 0 && (chars[0] == '+' || chars[0] == '-') {
        1
    } else {
        0
    };
    match digits_at(&chars, from) {
        None => None,
        Some(magnitude) => {
            if negative {
                if magnitude <= 0x7fff_ffff_ffff_ffff {
                    Some(-(magnitude as i64))
                } else if magnitude == 0x8000_0000_0000_0000 {
                    Some(i64::MIN)
                } else {
                    None
                }
            } else if magnitude <= 0x7fff_ffff_ffff_ffff {
                Some(magnitude as i64)
            } else {
                None
            }
        },
    }
}

pub proof fn lemma_decimal_digits(n: nat)
    ensures
        all_digits(decimal(n)),
        digits_value(decimal(n)) == n,
    decreases n,
{
    reveal_with_fuel(digits_value, 2);
    if n < 10 {
        assert(decimal(n).drop_last() =~= Seq::<char>::empty());
    } else {
        lemma_decimal_digits(n / 10);
        assert(decimal(n).drop_last() =~= decimal(n / 10));
    }
}

/// Reading the numeral of a number gives the number back.
pub proof fn law_decimal_reads_back(n: u64)
    ensures
        parsed_u64(decimal(n as nat)) == Some(n),
        n <= i64::MAX ==> parsed_i64(decimal(n as nat)) == Some(n as i64),
{
    lemma_decimal_digits(n as nat);
    let s = decimal(n as nat);
    assert(is_digit(s[0]));
}

/// A numeral has a digit for each decimal place and no leading zero: appending a
/// digit to the numeral of a number other than zero gives the numeral of ten
/// times the number and the digit.
pub proof fn law_numerals_are_decimal(n: nat, d: nat)
    requires
        d < 10,
    ensures
        n > 0 ==> decimal(10 * n + d) == decimal(n).push((48 + d) as char),
        decimal(d) == seq![(48 + d) as char],
        decimal(n).len() > 0,
        n > 0 ==> decimal(n)[0] != '0',
{
    lemma_decimal_digits(n);
    if n > 0 {
        assert((10 * n + d) / 10 == n);
        assert((10 * n + d) % 10 == d);
        lemma_no_leading_zero(n);
    }
}

proof fn lemma_no_leading_zero(n: nat)
    requires
        n > 0,
    ensures
        decimal(n).len() > 0,
        decimal(n)[0] != '0',
    decreases n,
{
    if n >= 10 {
        lemma_no_leading_zero(n / 10);
    }
}

/// What a numeral stands for: each further digit makes it ten times as much and
/// the digit, as far as the number fits. A sign in front counts, and what holds
/// anything else but digits is no numeral.
pub proof fn law_numerals_are_read_digit_by_digit(s: Seq<char>, d: nat, c: char)
    requires
        d < 10,
    ensures
        all_digits(s) ==> (parsed_u64(s.push((48 + d) as char)) matches Some(longer) ==> parsed_u64(
            s,
        ) is Some && longer == 10 * parsed_u64(s)->0 + d),
        all_digits(s) && parsed_u64(s) is Some && 10 * parsed_u64(s)->0 + d <= u64::MAX
            ==> parsed_u64(s.push((48 + d) as char)) is Some,
        parsed_u64(seq![(48 + d) as char]) == Some(d as u64),
        all_digits(s) ==> parsed_u64(seq!['+'] + s) == parsed_u64(s),
        all_digits(s) ==> parsed_i64(seq!['+'] + s) == parsed_i64(s),
        all_digits(s) ==> (parsed_i64(s) matches Some(n) ==> n >= 0 && parsed_u64(s) == Some(
            n as u64,
        ) && parsed_i64(seq!['-'] + s) == Some((-n) as i64)),
        all_digits(s) && parsed_u64(s) is Some && parsed_u64(s)->0 <= i64::MAX ==> parsed_i64(s)
            is Some,
        !('0' <= c <= '9') && s.len() > 0 ==> parsed_u64(s.push(c)) is None && parsed_i64(s.push(c))
            is None,
        parsed_u64(Seq::empty()) is None,
        parsed_i64(Seq::empty()) is None,
        parsed_u64(seq!['-'] + s) is None,
{
    let longer = s.push((48 + d) as char);
    reveal_with_fuel(digits_value, 2);
    assert(longer.drop_last() =~= s);
    if all_digits(s) {
        assert(is_digit(s[0]));
        assert(longer[0] == s[0]);
        assert forall|i: int| 0 <= i < longer.len() implies is_digit(#[trigger] longer[i]) by {
            if i < s.len() {
                assert(is_digit(s[i]));
            }
        }
        assert((seq!['+'] + s).skip(1) =~= s);
        assert((seq!['-'] + s).skip(1) =~= s);
    }
    let one = seq![(48 + d) as char];
    assert(one.drop_last() =~= Seq::<char>::empty());
    assert(is_digit(one[0]));
    if !('0' <= c <= '9') && s.len() > 0 {
        let other = s.push(c);
        assert(other[other.len() - 1] == c);
        assert(other.skip(1)[other.len() - 2] == c);
        assert(!all_digits(other));
        assert(!all_digits(other.skip(1)));
    }
    assert((seq!['-'] + s)[0] == '-');
}

/// Reading the numeral of a signed number gives the number back.
pub proof fn law_signed_numerals_read_back(n: i64)
    ensures
        parsed_i64(signed_decimal(n as int)) == Some(n),
        n < 0 ==> signed_decimal(n as int) == seq!['-'] + decimal((-n) as nat),
        n >= 0 ==> signed_decimal(n as int) == decimal(n as nat),
{
    reveal_strlit("-");
    assert("-"@ =~= seq!['-']);
    if n < 0 {
        let digits = decimal((-n) as nat);
        lemma_decimal_digits((-n) as nat);
        assert((seq!['-'] + digits).skip(1) =~= digits);
    } else {
        lemma_decimal_digits(n as nat);
        assert(is_digit(decimal(n as nat)[0]));
    }
}

/// What is no numeral: a sign alone, a text that begins with anything but a digit
/// or a sign, and a text with anything but digits behind its first character.
pub proof fn law_what_is_no_numeral(s: Seq<char>, i: int)
    requires
        0 <= i < s.len(),
        !('0' <= s[i] <= '9'),
    ensures
        i > 0 ==> parsed_u64(s) is None && parsed_i64(s) is None,
        i == 0 && s[0] != '+' && s[0] != '-' ==> parsed_u64(s) is None && parsed_i64(s) is None,
        s.len() == 1 ==> parsed_u64(s) is None && parsed_i64(s) is None,
{
    assert(!all_digits(s)) by {
        assert(!is_digit(s[i]));
    }
    if i > 0 {
        assert(s.skip(1)[i - 1] == s[i]);
        assert(!is_digit(s.skip(1)[i - 1]));
        assert(!all_digits(s.skip(1)));
    }
}

} // verus!
