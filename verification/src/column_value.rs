//! Values that come from JavaScript.
//!
//! A number of JavaScript is a double. It is held by the bits of its
//! representation: a sign bit, eleven bits of exponent and fifty-two of
//! fraction.

use crate::collections::copy_bytes;
use crate::numbers::{decimal, law_decimal_reads_back, parse_i64, parsed_i64};
use crate::types::{Cell, ColumnValue};
use vstd::arithmetic::power2::{
    lemma2_to64, lemma2_to64_rest, lemma_pow2_adds, lemma_pow2_pos, lemma_pow2_strictly_increases,
    lemma_pow2_unfold, pow2,
};
use vstd::prelude::*;

verus! {

/// The sign of a double.
pub open spec fn negative(bits: u64) -> bool {
    bits >= 0x8000_0000_0000_0000
}

/// The exponent field of a double.
pub open spec fn exponent_field(bits: u64) -> nat {
    ((bits / 0x10_0000_0000_0000) % 0x800) as nat
}

/// The fraction field of a double.
pub open spec fn fraction_field(bits: u64) -> nat {
    (bits % 0x10_0000_0000_0000) as nat
}

/// Whether a double is a number, and not infinite.
pub open spec fn finite(bits: u64) -> bool {
    exponent_field(bits) != 0x7ff
}

/// Whether a double is not a number.
pub open spec fn not_a_number(bits: u64) -> bool {
    exponent_field(bits) == 0x7ff && fraction_field(bits) != 0
}

/// The significand of a finite double, as an integer.
pub open spec fn significand(bits: u64) -> nat {
    if exponent_field(bits) == 0 {
        fraction_field(bits)
    } else {
        0x10_0000_0000_0000 + fraction_field(bits)
    }
}

/// The power of two by which the significand is scaled.
pub open spec fn scale(bits: u64) -> int {
    if exponent_field(bits) == 0 {
        -1074
    } else {
        exponent_field(bits) - 1075
    }
}

/// The integer part of the magnitude of a finite double.
pub open spec fn whole_part(bits: u64) -> nat {
    if scale(bits) >= 0 {
        significand(bits) * pow2(scale(bits) as nat)
    } else {
        significand(bits) / pow2((-scale(bits)) as nat)
    }
}

/// Whether a double is an integer.
pub open spec fn integral(bits: u64) -> bool {
    finite(bits) && (scale(bits) >= 0 || significand(bits) % pow2((-scale(bits)) as nat) == 0)
}

/// The integer part of a finite double.
pub open spec fn integer_part(bits: u64) -> int {
    if negative(bits) {
        -(whole_part(bits) as int)
    } else {
        whole_part(bits) as int
    }
}

/// The nearest number that fits.
pub open spec fn clamped(n: int) -> i64 {
    if n < i64::MIN {
        i64::MIN
    } else if n > i64::MAX {
        i64::MAX
    } else {
        n as i64
    }
}

/// A double as an integer: its integer part, or the nearest number that fits.
/// What is not a number becomes zero.
pub open spec fn truncated(bits: u64) -> i64 {
    if finite(bits) {
        clamped(integer_part(bits))
    } else if not_a_number(bits) {
        0
    } else if negative(bits) {
        i64::MIN
    } else {
        i64::MAX
    }
}

/// Whether a double is an integer between the least integer that fits and the
/// double nearest to the greatest.
pub open spec fn fits(bits: u64) -> bool {
    integral(bits) && -0x8000_0000_0000_0000 <= integer_part(bits) <= 0x8000_0000_0000_0000
}

/// A power of two that fits.
fn power_of_two(n: u32) -> (r: u64)
    requires
        n < 64,
    ensures
        r == pow2(n as nat),
        r > 0,
{
    proof {
        lemma2_to64();
        lemma2_to64_rest();
    }
    let mut r: u64 = 1;
    let mut i: u32 = 0;
    while i < n
        invariant
            i <= n < 64,
            r == pow2(i as nat),
            pow2(63) == 0x8000_0000_0000_0000,
        decreases n - i,
    {
        proof {
            lemma_pow2_unfold((i + 1) as nat);
            if i + 1 < 63 {
                lemma_pow2_strictly_increases((i + 1) as nat, 63);
            }
        }
        r = r * 2;
        i += 1;
    }
    proof {
        lemma_pow2_pos(n as nat);
    }
    r
}

/// The integer part of the magnitude of a double, or nothing where it is
/// 2 to the power of 64 or more, and whether the double is an integer.
fn magnitude(bits: u64) -> (r: (Option<u64>, bool))
    requires
        finite(bits),
    ensures
        r.0 matches Some(n) ==> n == whole_part(bits),
        r.0 is None ==> whole_part(bits) > 0xffff_ffff_ffff_ffff,
        r.1 == integral(bits),
{
    let exponent: u64 = (bits / 0x10_0000_0000_0000) % 0x800;
    let fraction: u64 = bits % 0x10_0000_0000_0000;
    let significand: u64 = if exponent == 0 {
        fraction
    } else {
        0x10_0000_0000_0000 + fraction
    };
    let biased: u64 = if exponent == 0 {
        1
    } else {
        exponent
    };
    proof {
        lemma2_to64();
        lemma2_to64_rest();
    }
    if biased >= 1075 {
        let shift: u32 = (biased - 1075) as u32;
        if shift > 11 {
            proof {
                lemma_pow2_adds(12, (shift - 12) as nat);
                lemma_pow2_pos((shift - 12) as nat);
                assert(significand * pow2(shift as nat) >= 0x10_0000_0000_0000 * 4096)
                    by (nonlinear_arith)
                    requires
                        significand >= 0x10_0000_0000_0000,
                        pow2(shift as nat) == 4096 * pow2((shift - 12) as nat),
                        pow2((shift - 12) as nat) >= 1,
                ;
            }
            return (None, true);
        }
        let power: u64 = power_of_two(shift);
        proof {
            if shift < 11 {
                lemma_pow2_strictly_increases(shift as nat, 11);
            }
            assert(significand * power <= 0xffff_ffff_ffff_ffff) by (nonlinear_arith)
                requires
                    significand < 0x20_0000_0000_0000,
                    power <= 2048,
            ;
        }
        (Some(significand * power), true)
    } else {
        let shift: u32 = (1075 - biased) as u32;
        if shift > 53 {
            proof {
                lemma_pow2_strictly_increases(53, shift as nat);
                let power = pow2(shift as nat) as int;
                vstd::arithmetic::div_mod::lemma_small_mod(significand as nat, power as nat);
                vstd::arithmetic::div_mod::lemma_basic_div(significand as int, power);
            }
            return (Some(0), significand == 0);
        }
        let power: u64 = power_of_two(shift);
        (Some(significand / power), significand % power == 0)
    }
}

/// A double as an integer.
pub fn truncate_double(bits: u64) -> (r: i64)
    ensures
        r == truncated(bits),
{
    let exponent: u64 = (bits / 0x10_0000_0000_0000) % 0x800;
    let fraction: u64 = bits % 0x10_0000_0000_0000;
    let below_zero: bool = bits >= 0x8000_0000_0000_0000;
    if exponent == 0x7ff {
        return if fraction != 0 {
            0
        } else if below_zero {
            i64::MIN
        } else {
            i64::MAX
        };
    }
    match magnitude(bits).0 {
        None => if below_zero {
            i64::MIN
        } else {
            i64::MAX
        },
        Some(n) => if n <= 0x7fff_ffff_ffff_ffff {
            if below_zero {
                -(n as i64)
            } else {
                n as i64
            }
        } else if below_zero {
            i64::MIN
        } else {
            i64::MAX
        },
    }
}

/// The integer that a double is, if it is one and fits.
pub fn integer_of_double(bits: u64) -> (r: Option<i64>)
    ensures
        r == if fits(bits) {
            Some(truncated(bits))
        } else {
            None
        },
{
    let exponent: u64 = (bits / 0x10_0000_0000_0000) % 0x800;
    if exponent == 0x7ff {
        return None;
    }
    match magnitude(bits) {
        (Some(n), true) => if n <= 0x8000_0000_0000_0000 {
            Some(truncate_double(bits))
        } else {
            None
        },
        _ => None,
    }
}

/// A value of JavaScript, as far as it matters here.
#[derive(Debug)]
pub enum JsInput {
    /// `null` or `undefined`.
    Missing,
    Text(String),
    /// A number, by its bits.
    Number(u64),
    /// An object: the time that it stands for as a date, by the bits of its
    /// milliseconds, and the text that it is shown as.
    Object { time: u64, shown: String },
    /// Anything else.
    Other,
}

/// What a [`JsInput`] stands for.
#[verifier::ext_equal]
pub enum Input {
    Missing,
    Text(Seq<char>),
    Number(u64),
    Object { time: u64, shown: Seq<char> },
    Other,
}

impl JsInput {
    pub open spec fn view(&self) -> Input {
        match self {
            JsInput::Missing => Input::Missing,
            JsInput::Text(text) => Input::Text(text@),
            JsInput::Number(bits) => Input::Number(*bits),
            JsInput::Object { time, shown } => Input::Object { time: *time, shown: shown@ },
            JsInput::Other => Input::Other,
        }
    }
}

/// The value for a value of JavaScript. A text that is a numeral, and a number
/// that is an integer, become integers as far as they fit; an object becomes a
/// date where it stands for a time, and a text otherwise.
pub open spec fn converted(input: Input) -> Cell {
    match input {
        Input::Missing => Cell::Null,
        Input::Text(text) => match parsed_i64(text) {
            Some(n) => Cell::Integer(n),
            None => Cell::Text(text),
        },
        Input::Number(bits) => if fits(bits) {
            Cell::Integer(truncated(bits))
        } else {
            Cell::Real(bits)
        },
        Input::Object { time, shown } => if finite(time) {
            Cell::Date(truncated(time))
        } else {
            Cell::Text(shown)
        },
        Input::Other => Cell::Null,
    }
}

/// A value made by JavaScript.
#[derive(Debug)]
pub struct WasmColumnValue {
    pub inner: ColumnValue,
}

impl WasmColumnValue {
    pub fn create_null() -> (r: WasmColumnValue)
        ensures
            r.inner@ == Cell::Null,
    {
        WasmColumnValue { inner: ColumnValue::Null }
    }

    pub fn create_integer(value: i64) -> (r: WasmColumnValue)
        ensures
            r.inner@ == Cell::Integer(value),
    {
        WasmColumnValue { inner: ColumnValue::Integer(value) }
    }

    /// The real number with these bits.
    pub fn create_real(bits: u64) -> (r: WasmColumnValue)
        ensures
            r.inner@ == Cell::Real(bits),
    {
        WasmColumnValue { inner: ColumnValue::Real(bits) }
    }

    pub fn create_text(value: String) -> (r: WasmColumnValue)
        ensures
            r.inner@ == Cell::Text(value@),
    {
        WasmColumnValue { inner: ColumnValue::Text(value) }
    }

    pub fn create_blob(value: &Vec<u8>) -> (r: WasmColumnValue)
        ensures
            r.inner@ == Cell::Blob(value@),
    {
        WasmColumnValue { inner: ColumnValue::Blob(copy_bytes(value)) }
    }

    pub fn create_bigint(value: &str) -> (r: WasmColumnValue)
        ensures
            r.inner@ == Cell::BigInt(value@),
    {
        WasmColumnValue { inner: ColumnValue::BigInt(value.to_owned()) }
    }

    /// The date whose milliseconds are the integer part of the double with
    /// these bits.
    pub fn create_date(timestamp_bits: u64) -> (r: WasmColumnValue)
        ensures
            r.inner@ == Cell::Date(truncated(timestamp_bits)),
    {
        WasmColumnValue { inner: ColumnValue::Date(truncate_double(timestamp_bits)) }
    }

    /// The value for a value of JavaScript.
    pub fn from_js_value(value: &JsInput) -> (r: WasmColumnValue)
        ensures
            r.inner@ == converted(value@),
    {
        let inner: ColumnValue = match value {
            JsInput::Missing => ColumnValue::Null,
            JsInput::Text(text) => match parse_i64(text.as_str()) {
                Some(n) => ColumnValue::Integer(n),
                None => ColumnValue::Text(text.clone()),
            },
            JsInput::Number(bits) => match integer_of_double(*bits) {
                Some(n) => ColumnValue::Integer(n),
                None => ColumnValue::Real(*bits),
            },
            JsInput::Object { time, shown } => {
                let exponent: u64 = (*time / 0x10_0000_0000_0000) % 0x800;
                if exponent != 0x7ff {
                    ColumnValue::Date(truncate_double(*time))
                } else {
                    ColumnValue::Text(shown.clone())
                }
            },
            JsInput::Other => ColumnValue::Null,
        };
        WasmColumnValue { inner }
    }

    pub fn null() -> (r: WasmColumnValue)
        ensures
            r.inner@ == Cell::Null,
    {
        Self::create_null()
    }

    /// The integer part of the double with these bits.
    pub fn integer(bits: u64) -> (r: WasmColumnValue)
        ensures
            r.inner@ == Cell::Integer(truncated(bits)),
    {
        Self::create_integer(truncate_double(bits))
    }

    /// The real number with these bits.
    pub fn real_number(bits: u64) -> (r: WasmColumnValue)
        ensures
            r.inner@ == Cell::Real(bits),
    {
        Self::create_real(bits)
    }

    pub fn text(value: String) -> (r: WasmColumnValue)
        ensures
            r.inner@ == Cell::Text(value@),
    {
        Self::create_text(value)
    }

    pub fn blob(value: Vec<u8>) -> (r: WasmColumnValue)
        ensures
            r.inner@ == Cell::Blob(value@),
    {
        Self::create_blob(&value)
    }

    pub fn big_int(value: String) -> (r: WasmColumnValue)
        ensures
            r.inner@ == Cell::BigInt(value@),
    {
        Self::create_bigint(value.as_str())
    }

    /// The date whose milliseconds are the integer part of the double with
    /// these bits.
    pub fn date(timestamp_bits: u64) -> (r: WasmColumnValue)
        ensures
            r.inner@ == Cell::Date(truncated(timestamp_bits)),
    {
        Self::create_date(timestamp_bits)
    }
}

/// Numbers keep their value: a number becomes the integer that it is, or stays
/// a real number with the same bits. Two to the power of 63, which does not
/// fit, is left out.
pub proof fn law_numbers_keep_their_value(bits: u64)
    requires
        integral(bits) ==> integer_part(bits) != 0x8000_0000_0000_0000,
    ensures
        match converted(Input::Number(bits)) {
            Cell::Integer(n) => integral(bits) && integer_part(bits) == n,
            Cell::Real(kept) => kept == bits,
            _ => false,
        },
{
}

/// The numeral of an integer, given as a text, becomes that integer.
pub proof fn law_numerals_become_integers(n: u64)
    requires
        n <= i64::MAX,
    ensures
        converted(Input::Text(decimal(n as nat))) == Cell::Integer(n as i64),
{
    law_decimal_reads_back(n);
}

/// What the bits of a double stand for. `e` is the exponent and `f` the fraction,
/// and two to the power of 52 and `f` together are the significand. With an
/// exponent of 1075 the significand is the number; every one more doubles it,
/// and every one less halves it. The integer part is what is left without a
/// fraction, and the number is an integer exactly if there is none.
pub proof fn law_doubles_by_their_bits(bits: u64, e: nat, f: nat)
    requires
        e == (bits / 0x10_0000_0000_0000) % 0x800,
        f == bits % 0x10_0000_0000_0000,
    ensures
        finite(bits) <==> e != 2047,
        not_a_number(bits) <==> e == 2047 && f != 0,
        e >= 1075 && e != 2047 ==> integral(bits) && whole_part(bits) == (0x10_0000_0000_0000 + f)
            * pow2((e - 1075) as nat),
        0 < e < 1075 ==> {
            let halves = pow2((1075 - e) as nat);
            &&& whole_part(bits) * halves <= 0x10_0000_0000_0000 + f
            &&& 0x10_0000_0000_0000 + f < whole_part(bits) * halves + halves
            &&& integral(bits) <==> whole_part(bits) * halves == 0x10_0000_0000_0000 + f
        },
        e == 0 ==> whole_part(bits) == 0 && (integral(bits) <==> f == 0),
        bits < 0x8000_0000_0000_0000 ==> integer_part(bits) == whole_part(bits),
        bits >= 0x8000_0000_0000_0000 ==> integer_part(bits) == -whole_part(bits),
{
    assert(exponent_field(bits) == e);
    assert(fraction_field(bits) == f);
    if e < 1075 && e > 0 {
        let halves = pow2((1075 - e) as nat);
        let s = 0x10_0000_0000_0000 + f;
        lemma_pow2_pos((1075 - e) as nat);
        vstd::arithmetic::div_mod::lemma_fundamental_div_mod(s as int, halves as int);
        vstd::arithmetic::div_mod::lemma_mod_bound(s as int, halves as int);
        vstd::arithmetic::mul::lemma_mul_is_commutative(
            halves as int,
            s as int / halves as int,
        );
    }
    if e == 0 {
        lemma2_to64();
        lemma2_to64_rest();
        lemma_pow2_strictly_increases(52, 1074);
        lemma_pow2_pos(1074);
        assert(f < pow2(52));
        vstd::arithmetic::div_mod::lemma_small_mod(f, pow2(1074));
        vstd::arithmetic::div_mod::lemma_basic_div(f as int, pow2(1074) as int);
    }
}

/// A double becomes its integer part as an integer, as far as that fits, and the
/// nearest integer otherwise. What is not a number becomes zero, and what is
/// infinite the least or the greatest integer.
pub proof fn law_doubles_are_truncated(bits: u64)
    ensures
        finite(bits) && i64::MIN <= integer_part(bits) <= i64::MAX ==> truncated(bits)
            == integer_part(bits),
        finite(bits) && integer_part(bits) > i64::MAX ==> truncated(bits) == i64::MAX,
        finite(bits) && integer_part(bits) < i64::MIN ==> truncated(bits) == i64::MIN,
        not_a_number(bits) ==> truncated(bits) == 0,
        !finite(bits) && !not_a_number(bits) && bits < 0x8000_0000_0000_0000 ==> truncated(bits)
            == i64::MAX,
        !finite(bits) && !not_a_number(bits) && bits >= 0x8000_0000_0000_0000 ==> truncated(bits)
            == i64::MIN,
{
}

/// What becomes of a value of JavaScript. Every number that is an integer and
/// fits becomes that integer, and every other number keeps its bits; two to the
/// power of 63, the double next above what fits, becomes the greatest integer. A
/// text becomes the integer whose numeral it is, and otherwise stays. An object
/// becomes the date that it stands for, or else the text that it is shown as.
/// All else is null.
pub proof fn law_values_of_javascript(bits: u64, text: Seq<char>, shown: Seq<char>)
    ensures
        integral(bits) && i64::MIN <= integer_part(bits) <= i64::MAX ==> (converted(
            Input::Number(bits),
        ) matches Cell::Integer(n) && n == integer_part(bits)),
        integral(bits) && integer_part(bits) == 0x8000_0000_0000_0000 ==> converted(
            Input::Number(bits),
        ) == Cell::Integer(i64::MAX),
        !integral(bits) || integer_part(bits) > 0x8000_0000_0000_0000 || integer_part(bits)
            < i64::MIN ==> converted(Input::Number(bits)) == Cell::Real(bits),
        parsed_i64(text) is Some ==> converted(Input::Text(text)) == Cell::Integer(
            parsed_i64(text)->0,
        ),
        parsed_i64(text) is None ==> converted(Input::Text(text)) == Cell::Text(text),
        finite(bits) ==> converted(Input::Object { time: bits, shown }) == Cell::Date(
            truncated(bits),
        ),
        !finite(bits) ==> converted(Input::Object { time: bits, shown }) == Cell::Text(shown),
        converted(Input::Missing) is Null,
        converted(Input::Other) is Null,
{
}

/// A value of JavaScript is seen as it is.
pub proof fn law_inputs_are_seen_as_they_are(input: JsInput)
    ensures
        match input {
            JsInput::Missing => input@ is Missing,
            JsInput::Text(text) => input@ == Input::Text(text@),
            JsInput::Number(bits) => input@ == Input::Number(bits),
            JsInput::Object { time, shown } => input@ == (Input::Object { time, shown: shown@ }),
            JsInput::Other => input@ is Other,
        },
{
}

} // verus!
