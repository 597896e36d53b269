use vstd::prelude::*;

use rustc_apfloat::Float;
use rustc_apfloat::ieee::Double;

verus! {

// Every numeric value in this crate is carried as the 64-bit pattern of an
// IEEE binary64 number (a "word"). The arithmetic on words is done by the
// `rustc_apfloat` soft-float library behind the trusted functions below, and
// every contract in the crate speaks of their results through the
// uninterpreted names `add_bits`, `sub_bits`, `mul_bits`, `div_bits` and
// `widen_bits`.

/// The word of the value zero.
pub const ZERO_WORD: u64 = 0x0000_0000_0000_0000;

/// The word of the value one.
pub const ONE_WORD: u64 = 0x3FF0_0000_0000_0000;

/// The word of the value minus one.
pub const NEG_ONE_WORD: u64 = 0xBFF0_0000_0000_0000;

/// The word of the IEEE binary64 value nearest to one tenth.
pub const TENTH_WORD: u64 = 0x3FB9_9999_9999_999A;

/// The word of two raised to the minus sixteenth power; it scales the
/// argument of the exponential series down into its region of fast
/// convergence.
pub const EXP_SCALE_WORD: u64 = 0x3EF0_0000_0000_0000;

/// The word of two raised to the minus fifty-third power; it maps a
/// 53-bit integer draw onto the unit interval.
pub const UNIT_SCALE_WORD: u64 = 0x3CA0_0000_0000_0000;

/// Number of terms taken of the exponential power series.
pub const EXP_TERMS: u64 = 12;

/// Number of squarings that undo the argument scaling of the
/// exponential series.
pub const EXP_SQUARINGS: u64 = 16;

/// The IEEE binary64 sum of the values behind the two words.
pub uninterp spec fn add_bits(a: u64, b: u64) -> u64;

/// The IEEE binary64 difference of the values behind the two words.
pub uninterp spec fn sub_bits(a: u64, b: u64) -> u64;

/// The IEEE binary64 product of the values behind the two words.
pub uninterp spec fn mul_bits(a: u64, b: u64) -> u64;

/// The IEEE binary64 quotient of the values behind the two words.
pub uninterp spec fn div_bits(a: u64, b: u64) -> u64;

/// The word of the IEEE binary64 value nearest to the unsigned integer `n`.
pub uninterp spec fn widen_bits(n: u64) -> u64;

/// Relies on addition of `rustc_apfloat::ieee::Double` (rounding to
/// nearest, ties to even): the IEEE binary64 sum, a function of the two
/// bit patterns alone.
#[verifier::external_body]
pub(crate) fn add_words(a: u64, b: u64) -> (r: u64)
    ensures
        r == add_bits(a, b),
{
    (Double::from_bits(a as u128) + Double::from_bits(b as u128)).value.to_bits() as u64
}

/// Relies on subtraction of `rustc_apfloat::ieee::Double` (rounding to
/// nearest, ties to even): the IEEE binary64 difference, a function of the
/// two bit patterns alone.
#[verifier::external_body]
pub(crate) fn sub_words(a: u64, b: u64) -> (r: u64)
    ensures
        r == sub_bits(a, b),
{
    (Double::from_bits(a as u128) - Double::from_bits(b as u128)).value.to_bits() as u64
}

/// Relies on multiplication of `rustc_apfloat::ieee::Double` (rounding to
/// nearest, ties to even): the IEEE binary64 product, a function of the two
/// bit patterns alone.
#[verifier::external_body]
pub(crate) fn mul_words(a: u64, b: u64) -> (r: u64)
    ensures
        r == mul_bits(a, b),
{
    (Double::from_bits(a as u128) * Double::from_bits(b as u128)).value.to_bits() as u64
}

/// Relies on division of `rustc_apfloat::ieee::Double` (rounding to
/// nearest, ties to even): the IEEE binary64 quotient, a function of the
/// two bit patterns alone.
#[verifier::external_body]
pub(crate) fn div_words(a: u64, b: u64) -> (r: u64)
    ensures
        r == div_bits(a, b),
{
    (Double::from_bits(a as u128) / Double::from_bits(b as u128)).value.to_bits() as u64
}

/// Relies on `rustc_apfloat::ieee::Double::from_u128` (rounding to nearest,
/// ties to even): the IEEE binary64 value nearest to `n`, a function of `n`
/// alone.
#[verifier::external_body]
pub(crate) fn widen_word(n: u64) -> (r: u64)
    ensures
        r == widen_bits(n),
{
    Double::from_u128(n as u128).value.to_bits() as u64
}

/// Relies on `rand::random::<u64>`: a fresh draw from the thread-local
/// generator. Nothing is promised of the value.
#[verifier::external_body]
pub(crate) fn draw_word() -> u64 {
    rand::random::<u64>()
}

/// The `k`-th term of the exponential power series at `y`: `y^k / k!`,
/// accumulated term by term from its predecessor.
pub open spec fn exp_term(y: u64, k: int) -> u64
    decreases k,
{
    if k <= 0 {
        ONE_WORD
    } else {
        div_bits(mul_bits(exp_term(y, k - 1), y), widen_bits(k as u64))
    }
}

/// The exponential power series at `y`, summed through its first `n`
/// terms after the constant one.
pub open spec fn exp_series(y: u64, n: int) -> u64
    decreases n,
{
    if n <= 0 {
        ONE_WORD
    } else {
        add_bits(exp_series(y, n - 1), exp_term(y, n))
    }
}

/// The word `v` squared `n` times over.
pub open spec fn squared_times(v: u64, n: int) -> u64
    decreases n,
{
    if n <= 0 {
        v
    } else {
        let p = squared_times(v, n - 1);
        mul_bits(p, p)
    }
}

/// The natural exponential of the value behind `x`, as this crate computes
/// it: the argument is scaled down by two to the minus sixteenth, the power
/// series is summed, and the sum is squared sixteen times.
pub open spec fn exp_word_spec(x: u64) -> u64 {
    squared_times(
        exp_series(mul_bits(x, EXP_SCALE_WORD), EXP_TERMS as int),
        EXP_SQUARINGS as int,
    )
}

/// The logistic sigmoid of the value behind `v`: one over one plus the
/// exponential of the negated argument, the negation taken as a product
/// with minus one.
pub open spec fn sigmoid_bits(v: u64) -> u64 {
    div_bits(ONE_WORD, add_bits(ONE_WORD, exp_word_spec(mul_bits(NEG_ONE_WORD, v))))
}

/// Computes the natural exponential of the value behind `x` by scaling,
/// series summation and repeated squaring.
pub fn exp_word(x: u64) -> (r: u64)
    ensures
        r == exp_word_spec(x),
{
    let y = mul_words(x, EXP_SCALE_WORD);
    let mut term: u64 = ONE_WORD;
    let mut sum: u64 = ONE_WORD;
    let mut k: u64 = 1;
    while k <= EXP_TERMS
        invariant
            1 <= k <= EXP_TERMS + 1,
            term == exp_term(y, k as int - 1),
            sum == exp_series(y, k as int - 1),
        decreases EXP_TERMS + 1 - k,
    {
        term = div_words(mul_words(term, y), widen_word(k));
        sum = add_words(sum, term);
        k = k + 1;
    }
    let mut r = sum;
    let mut i: u64 = 0;
    while i < EXP_SQUARINGS
        invariant
            i <= EXP_SQUARINGS,
            r == squared_times(sum, i as int),
        decreases EXP_SQUARINGS - i,
    {
        r = mul_words(r, r);
        i = i + 1;
    }
    r
}

/// Computes the logistic sigmoid of the value behind `v`.
pub fn sigmoid_word(v: u64) -> (r: u64)
    ensures
        r == sigmoid_bits(v),
{
    let e = exp_word(mul_words(NEG_ONE_WORD, v));
    div_words(ONE_WORD, add_words(ONE_WORD, e))
}

/// The word that the uniform draw between `low` and `high` builds from an
/// integer draw `u`: `u` mapped onto the unit interval and scaled onto the
/// requested one.
pub open spec fn draw_image(low: u64, high: u64, u: u64) -> u64 {
    add_bits(low, mul_bits(sub_bits(high, low), mul_bits(widen_bits(u), UNIT_SCALE_WORD)))
}

/// The word lies in the image of the uniform draw between `low` and
/// `high`: some integer draw builds it.
pub open spec fn from_draw(w: u64, low: u64, high: u64) -> bool {
    exists|u: u64| w == draw_image(low, high, u)
}

/// Draws a fresh word whose value lies uniformly between the values behind
/// `low` and `high`: a 53-bit integer draw is mapped onto the unit interval
/// and scaled onto the requested one. Which word comes back is not
/// promised, but every outcome lies in the image of the draw.
pub(crate) fn random_word_between(low: u64, high: u64) -> (r: u64)
    ensures
        from_draw(r, low, high),
{
    let u = draw_word() >> 11;
    let t = mul_words(widen_word(u), UNIT_SCALE_WORD);
    let r = add_words(low, mul_words(sub_words(high, low), t));
    proof {
        assert(r == draw_image(low, high, u));
    }
    r
}

} // verus!
