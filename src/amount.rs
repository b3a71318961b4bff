//! Unsigned 256-bit amounts, as held on chain.

use vstd::prelude::*;

verus! {

/// 2^64, the base of one word.
pub open spec fn word() -> nat {
    0x1_0000_0000_0000_0000
}

/// 2^256: every amount lies below it.
pub open spec fn modulus() -> nat {
    word() * word() * word() * word()
}

/// An unsigned 256-bit integer, stored as four 64-bit words, least
/// significant first (the layout of `web3::types::U256`).
#[derive(Clone, Copy, Debug, PartialEq, Eq)]
pub struct U256 {
    pub words: [u64; 4],
}

impl View for U256 {
    type V = nat;

    open spec fn view(&self) -> nat {
        self.words[0] as nat + word() * (self.words[1] as nat + word() * (self.words[2] as nat
            + word() * (self.words[3] as nat)))
    }
}

/// The value of an optional amount.
pub open spec fn view_opt(r: Option<U256>) -> Option<nat> {
    match r {
        Some(v) => Some(v@),
        None => None,
    }
}

/// Every amount is below 2^256.
pub proof fn lemma_below_modulus(x: U256)
    ensures
        x@ < modulus(),
{
    let w0 = x.words[0] as nat;
    let w1 = x.words[1] as nat;
    let w2 = x.words[2] as nat;
    let w3 = x.words[3] as nat;
    let b = word();
    assert(w0 < b && w1 < b && w2 < b && w3 < b);
    assert(w2 + b * w3 < b * b) by (nonlinear_arith)
        requires
            w2 < b,
            w3 < b,
    ;
    assert(w1 + b * (w2 + b * w3) < b * b * b) by (nonlinear_arith)
        requires
            w1 < b,
            w2 + b * w3 < b * b,
    ;
    assert(w0 + b * (w1 + b * (w2 + b * w3)) < b * b * b * b) by (nonlinear_arith)
        requires
            w0 < b,
            w1 + b * (w2 + b * w3) < b * b * b,
    ;
}

/// A product is at least its first factor when the second is positive.
pub proof fn lemma_mul_grows(a: nat, b: nat)
    ensures
        b > 0 ==> a <= a * b,
        b == 0 ==> a * b == 0,
{
    if b > 0 {
        assert(a <= a * b) by (nonlinear_arith)
            requires
                b > 0,
        ;
    }
}

/// Relies on `U256::checked_add` of the uint crate: the sum, or `None` on overflow.
#[verifier::external_body]
fn prim_checked_add(a: U256, b: U256) -> (r: Option<U256>)
    ensures
        r is Some <==> a@ + b@ < modulus(),
        r is Some ==> r->0@ == a@ + b@,
{
    match web3::types::U256(a.words).checked_add(web3::types::U256(b.words)) {
        Some(v) => Some(U256 { words: v.0 }),
        None => None,
    }
}

/// Relies on `U256::checked_sub` of the uint crate: the difference, or `None` on underflow.
#[verifier::external_body]
fn prim_checked_sub(a: U256, b: U256) -> (r: Option<U256>)
    ensures
        r is Some <==> b@ <= a@,
        r is Some ==> r->0@ == a@ - b@,
{
    match web3::types::U256(a.words).checked_sub(web3::types::U256(b.words)) {
        Some(v) => Some(U256 { words: v.0 }),
        None => None,
    }
}

/// Relies on `U256::checked_mul` of the uint crate: the product, or `None` on overflow.
#[verifier::external_body]
fn prim_checked_mul(a: U256, b: U256) -> (r: Option<U256>)
    ensures
        r is Some <==> a@ * b@ < modulus(),
        r is Some ==> r->0@ == a@ * b@,
{
    match web3::types::U256(a.words).checked_mul(web3::types::U256(b.words)) {
        Some(v) => Some(U256 { words: v.0 }),
        None => None,
    }
}

/// Relies on `U256::checked_div` of the uint crate: the floor quotient, or
/// `None` for a zero divisor.
#[verifier::external_body]
fn prim_checked_div(a: U256, b: U256) -> (r: Option<U256>)
    ensures
        r is Some <==> b@ != 0,
        r is Some ==> r->0@ == a@ / b@,
{
    match web3::types::U256(a.words).checked_div(web3::types::U256(b.words)) {
        Some(v) => Some(U256 { words: v.0 }),
        None => None,
    }
}

/// Relies on `U256::checked_rem` of the uint crate: the remainder, or `None`
/// for a zero divisor.
#[verifier::external_body]
fn prim_checked_rem(a: U256, b: U256) -> (r: Option<U256>)
    ensures
        r is Some <==> b@ != 0,
        r is Some ==> r->0@ == a@ % b@,
{
    match web3::types::U256(a.words).checked_rem(web3::types::U256(b.words)) {
        Some(v) => Some(U256 { words: v.0 }),
        None => None,
    }
}

/// Relies on the `Ord` impl of the uint crate's `U256`, which compares values.
#[verifier::external_body]
fn prim_cmp(a: U256, b: U256) -> (r: core::cmp::Ordering)
    ensures
        (r == core::cmp::Ordering::Less) <==> a@ < b@,
        (r == core::cmp::Ordering::Equal) <==> a@ == b@,
        (r == core::cmp::Ordering::Greater) <==> a@ > b@,
{
    web3::types::U256(a.words).cmp(&web3::types::U256(b.words))
}

/// Relies on `From<u128>` of the uint crate's `U256`, which keeps the value.
#[verifier::external_body]
fn prim_from_u128(x: u128) -> (r: U256)
    ensures
        r@ == x as nat,
{
    U256 { words: web3::types::U256::from(x).0 }
}

impl U256 {
    pub fn zero() -> (r: U256)
        ensures
            r@ == 0,
    {
        U256 { words: [0, 0, 0, 0] }
    }

    /// The largest amount, 2^256 - 1.
    pub fn max_value() -> (r: U256)
        ensures
            r@ + 1 == modulus(),
    {
        let r = U256 {
            words: [
                0xffff_ffff_ffff_ffff,
                0xffff_ffff_ffff_ffff,
                0xffff_ffff_ffff_ffff,
                0xffff_ffff_ffff_ffff,
            ],
        };
        let ghost m: nat = 0xffff_ffff_ffff_ffff;
        assert(r.words[0] == m && r.words[1] == m && r.words[2] == m && r.words[3] == m);
        assert(m + word() * (m + word() * (m + word() * m)) + 1 == word() * word() * word()
            * word());
        r
    }

    /// A value that fits in one word.
    pub fn from_u64(x: u64) -> (r: U256)
        ensures
            r@ == x as nat,
    {
        U256 { words: [x, 0, 0, 0] }
    }

    pub fn checked_add(self, other: U256) -> (r: Option<U256>)
        ensures
            r is Some <==> self@ + other@ < modulus(),
            r is Some ==> r->0@ == self@ + other@,
    {
        prim_checked_add(self, other)
    }

    pub fn checked_sub(self, other: U256) -> (r: Option<U256>)
        ensures
            r is Some <==> other@ <= self@,
            r is Some ==> r->0@ == self@ - other@,
    {
        prim_checked_sub(self, other)
    }

    pub fn checked_mul(self, other: U256) -> (r: Option<U256>)
        ensures
            r is Some <==> self@ * other@ < modulus(),
            r is Some ==> r->0@ == self@ * other@,
    {
        prim_checked_mul(self, other)
    }

    pub fn checked_div(self, other: U256) -> (r: Option<U256>)
        ensures
            r is Some <==> other@ != 0,
            r is Some ==> r->0@ == self@ / other@,
    {
        prim_checked_div(self, other)
    }

    pub fn checked_rem(self, other: U256) -> (r: Option<U256>)
        ensures
            r is Some <==> other@ != 0,
            r is Some ==> r->0@ == self@ % other@,
    {
        prim_checked_rem(self, other)
    }

    pub fn compare(self, other: U256) -> (r: core::cmp::Ordering)
        ensures
            (r == core::cmp::Ordering::Less) <==> self@ < other@,
            (r == core::cmp::Ordering::Equal) <==> self@ == other@,
            (r == core::cmp::Ordering::Greater) <==> self@ > other@,
    {
        prim_cmp(self, other)
    }

    pub fn lt(self, other: U256) -> (r: bool)
        ensures
            r == (self@ < other@),
    {
        match prim_cmp(self, other) {
            core::cmp::Ordering::Less => true,
            _ => false,
        }
    }

    pub fn le(self, other: U256) -> (r: bool)
        ensures
            r == (self@ <= other@),
    {
        match prim_cmp(self, other) {
            core::cmp::Ordering::Greater => false,
            _ => true,
        }
    }

    pub fn same(self, other: U256) -> (r: bool)
        ensures
            r == (self@ == other@),
    {
        match prim_cmp(self, other) {
            core::cmp::Ordering::Equal => true,
            _ => false,
        }
    }

    /// The smaller of two amounts.
    pub fn min(self, other: U256) -> (r: U256)
        ensures
            r@ == if self@ <= other@ { self@ } else { other@ },
    {
        if self.le(other) {
            self
        } else {
            other
        }
    }
}

impl U256 {
    pub fn from_u128(x: u128) -> (r: U256)
        ensures
            r@ == x as nat,
    {
        prim_from_u128(x)
    }
}

impl From<u128> for U256 {
    fn from(x: u128) -> (r: U256) {
        U256::from_u128(x)
    }
}

impl vstd::std_specs::convert::FromSpecImpl<u128> for U256 {
    open spec fn obeys_from_spec() -> bool {
        false
    }

    open spec fn from_spec(x: u128) -> U256 {
        arbitrary()
    }
}

} // verus!
