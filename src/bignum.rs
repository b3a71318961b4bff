//! Signed integers of any size, for the solver's coefficients.

use crate::amount::{modulus, U256};
use num_bigint::{BigInt, Sign};
use vstd::prelude::*;

verus! {

/// The value of base-2^32 digits, least significant first.
pub open spec fn digits_value(d: Seq<u32>) -> nat
    decreases d.len(),
{
    if d.len() == 0 {
        0
    } else {
        d[0] as nat + 0x1_0000_0000 * digits_value(d.drop_first())
    }
}

/// Division that rounds toward zero, as signed big integers divide.
pub open spec fn tdiv(a: int, d: int) -> int {
    let q = abs(a) / abs(d);
    if (a >= 0) == (d >= 0) {
        q
    } else {
        -q
    }
}

pub open spec fn abs(a: int) -> int {
    if a >= 0 {
        a
    } else {
        -a
    }
}

/// The integer square root: the largest `r` with `r * r <= n`.
pub open spec fn isqrt(n: nat) -> nat
    decreases n,
{
    if n == 0 {
        0
    } else {
        let r = isqrt((n - 1) as nat);
        if (r + 1) * (r + 1) <= n {
            r + 1
        } else {
            r
        }
    }
}

pub proof fn lemma_isqrt_bounds(n: nat)
    ensures
        isqrt(n) * isqrt(n) <= n,
        n < (isqrt(n) + 1) * (isqrt(n) + 1),
    decreases n,
{
    reveal_with_fuel(isqrt, 2);
    if n > 0 {
        lemma_isqrt_bounds((n - 1) as nat);
        let r = isqrt((n - 1) as nat);
        assert(r * r <= n - 1 < (r + 1) * (r + 1));
        if (r + 1) * (r + 1) <= n {
            assert(isqrt(n) == r + 1);
            assert(n < (r + 2) * (r + 2)) by (nonlinear_arith)
                requires
                    n - 1 < (r + 1) * (r + 1),
                    r >= 0,
            ;
            assert(isqrt(n) * isqrt(n) <= n);
        } else {
            assert(isqrt(n) == r);
            assert(r * r <= n);
        }
    } else {
        assert(isqrt(n) == 0);
        assert(0 * 0 <= n < (0 + 1) * (0 + 1)) by (nonlinear_arith)
            requires
                n == 0,
        ;
    }
}

/// Any `r` that brackets `n` this way is the integer square root.
pub proof fn lemma_isqrt_unique(n: nat, r: nat)
    requires
        r * r <= n,
        n < (r + 1) * (r + 1),
    ensures
        r == isqrt(n),
{
    lemma_isqrt_bounds(n);
    let q = isqrt(n);
    if r < q {
        assert((r + 1) * (r + 1) <= q * q) by (nonlinear_arith)
            requires
                r + 1 <= q,
        ;
    } else if q < r {
        assert((q + 1) * (q + 1) <= r * r) by (nonlinear_arith)
            requires
                q + 1 <= r,
        ;
    }
}

/// A signed integer: a sign and the base-2^32 digits of its magnitude
/// (the parts of `num_bigint::BigInt`).
#[derive(Debug)]
pub struct BigNum {
    pub negative: bool,
    pub digits: Vec<u32>,
}

impl View for BigNum {
    type V = int;

    open spec fn view(&self) -> int {
        if self.negative {
            -digits_value(self.digits@)
        } else {
            digits_value(self.digits@) as int
        }
    }
}

/// Relies on `From<u64>` of `num_bigint::BigInt`, which keeps the value.
#[verifier::external_body]
fn big_from_u64(x: u64) -> (r: BigNum)
    ensures
        r@ == x as int,
{
    let (sign, digits) = BigInt::from(x).to_u32_digits();
    BigNum { negative: sign == Sign::Minus, digits }
}

/// Relies on `BigInt::from_bytes_le` reading the little-endian bytes that
/// `U256::to_little_endian` writes: the value is kept.
#[verifier::external_body]
fn big_from_u256(x: U256) -> (r: BigNum)
    ensures
        r@ == x@ as int,
{
    let mut buffer: [u8; 32] = [0; 32];
    web3::types::U256(x.words).to_little_endian(&mut buffer);
    let b = BigInt::from_bytes_le(Sign::Plus, &buffer);
    let (sign, digits) = b.to_u32_digits();
    BigNum { negative: sign == Sign::Minus, digits }
}

/// Relies on `BigInt::to_bytes_le` and `U256::from_little_endian`: a value
/// in range keeps its value.
#[verifier::external_body]
fn big_to_u256(x: &BigNum) -> (r: U256)
    requires
        0 <= x@ < modulus(),
    ensures
        r@ == x@,
{
    let sign = if x.negative { Sign::Minus } else { Sign::Plus };
    let bytes = BigInt::from_slice(sign, &x.digits).to_bytes_le().1;
    U256 { words: web3::types::U256::from_little_endian(&bytes).0 }
}

/// Relies on `Add` of `num_bigint::BigInt`: the exact sum.
#[verifier::external_body]
fn big_add(a: &BigNum, b: &BigNum) -> (r: BigNum)
    ensures
        r@ == a@ + b@,
{
    let x = BigInt::from_slice(if a.negative { Sign::Minus } else { Sign::Plus }, &a.digits);
    let y = BigInt::from_slice(if b.negative { Sign::Minus } else { Sign::Plus }, &b.digits);
    let (sign, digits) = (x + y).to_u32_digits();
    BigNum { negative: sign == Sign::Minus, digits }
}

/// Relies on `Sub` of `num_bigint::BigInt`: the exact difference.
#[verifier::external_body]
fn big_sub(a: &BigNum, b: &BigNum) -> (r: BigNum)
    ensures
        r@ == a@ - b@,
{
    let x = BigInt::from_slice(if a.negative { Sign::Minus } else { Sign::Plus }, &a.digits);
    let y = BigInt::from_slice(if b.negative { Sign::Minus } else { Sign::Plus }, &b.digits);
    let (sign, digits) = (x - y).to_u32_digits();
    BigNum { negative: sign == Sign::Minus, digits }
}

/// Relies on `Mul` of `num_bigint::BigInt`: the exact product.
#[verifier::external_body]
fn big_mul(a: &BigNum, b: &BigNum) -> (r: BigNum)
    ensures
        r@ == a@ * b@,
{
    let x = BigInt::from_slice(if a.negative { Sign::Minus } else { Sign::Plus }, &a.digits);
    let y = BigInt::from_slice(if b.negative { Sign::Minus } else { Sign::Plus }, &b.digits);
    let (sign, digits) = (x * y).to_u32_digits();
    BigNum { negative: sign == Sign::Minus, digits }
}

/// Relies on `Div` of `num_bigint::BigInt`, which rounds toward zero and
/// panics on a zero divisor.
#[verifier::external_body]
fn big_div(a: &BigNum, b: &BigNum) -> (r: BigNum)
    requires
        b@ != 0,
    ensures
        r@ == tdiv(a@, b@),
{
    let x = BigInt::from_slice(if a.negative { Sign::Minus } else { Sign::Plus }, &a.digits);
    let y = BigInt::from_slice(if b.negative { Sign::Minus } else { Sign::Plus }, &b.digits);
    let (sign, digits) = (x / y).to_u32_digits();
    BigNum { negative: sign == Sign::Minus, digits }
}

/// Relies on `Neg` of `num_bigint::BigInt`.
#[verifier::external_body]
fn big_neg(a: &BigNum) -> (r: BigNum)
    ensures
        r@ == -a@,
{
    let x = BigInt::from_slice(if a.negative { Sign::Minus } else { Sign::Plus }, &a.digits);
    let (sign, digits) = (-x).to_u32_digits();
    BigNum { negative: sign == Sign::Minus, digits }
}

/// Relies on `BigInt::sqrt`, the truncated square root, which panics on a
/// negative value: for `n >= 0` it returns `r` with `r * r <= n < (r + 1) * (r + 1)`.
#[verifier::external_body]
fn big_sqrt(a: &BigNum) -> (r: BigNum)
    requires
        a@ >= 0,
    ensures
        r@ >= 0,
        r@ * r@ <= a@ < (r@ + 1) * (r@ + 1),
{
    let x = BigInt::from_slice(if a.negative { Sign::Minus } else { Sign::Plus }, &a.digits);
    let (sign, digits) = x.sqrt().to_u32_digits();
    BigNum { negative: sign == Sign::Minus, digits }
}

/// Relies on the `Ord` impl of `num_bigint::BigInt`, which compares values.
#[verifier::external_body]
fn big_cmp(a: &BigNum, b: &BigNum) -> (r: core::cmp::Ordering)
    ensures
        (r == core::cmp::Ordering::Less) <==> a@ < b@,
        (r == core::cmp::Ordering::Equal) <==> a@ == b@,
        (r == core::cmp::Ordering::Greater) <==> a@ > b@,
{
    let x = BigInt::from_slice(if a.negative { Sign::Minus } else { Sign::Plus }, &a.digits);
    let y = BigInt::from_slice(if b.negative { Sign::Minus } else { Sign::Plus }, &b.digits);
    x.cmp(&y)
}

impl BigNum {
    pub fn from_u64(x: u64) -> (r: BigNum)
        ensures
            r@ == x as int,
    {
        big_from_u64(x)
    }

    pub fn from_u256(x: U256) -> (r: BigNum)
        ensures
            r@ == x@ as int,
    {
        big_from_u256(x)
    }

    pub fn to_u256(&self) -> (r: U256)
        requires
            0 <= self@ < modulus(),
        ensures
            r@ == self@,
    {
        big_to_u256(self)
    }

    pub fn add(&self, other: &BigNum) -> (r: BigNum)
        ensures
            r@ == self@ + other@,
    {
        big_add(self, other)
    }

    pub fn sub(&self, other: &BigNum) -> (r: BigNum)
        ensures
            r@ == self@ - other@,
    {
        big_sub(self, other)
    }

    pub fn mul(&self, other: &BigNum) -> (r: BigNum)
        ensures
            r@ == self@ * other@,
    {
        big_mul(self, other)
    }

    pub fn div(&self, other: &BigNum) -> (r: BigNum)
        requires
            other@ != 0,
        ensures
            r@ == tdiv(self@, other@),
    {
        big_div(self, other)
    }

    pub fn neg(&self) -> (r: BigNum)
        ensures
            r@ == -self@,
    {
        big_neg(self)
    }

    pub fn sqrt(&self) -> (r: BigNum)
        requires
            self@ >= 0,
        ensures
            r@ == isqrt(self@ as nat),
    {
        let r = big_sqrt(self);
        proof {
            lemma_isqrt_unique(self@ as nat, r@ as nat);
        }
        r
    }

    pub fn compare(&self, other: &BigNum) -> (r: core::cmp::Ordering)
        ensures
            (r == core::cmp::Ordering::Less) <==> self@ < other@,
            (r == core::cmp::Ordering::Equal) <==> self@ == other@,
            (r == core::cmp::Ordering::Greater) <==> self@ > other@,
    {
        big_cmp(self, other)
    }
}

} // verus!
