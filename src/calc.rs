//! Fixed-point pricing of the two pools and the maximum-profit solver.
//!
//! Every formula takes and returns 256-bit amounts, computes exactly in
//! between, and yields `None` where a divisor is zero or the result does
//! not fit 256 bits; the caller then treats the attempt as unprofitable.

use crate::amount::{lemma_below_modulus, modulus, view_opt, U256};
use crate::bignum::{isqrt, tdiv, BigNum};
use vstd::prelude::*;

verus! {

/// The fixed-point one, 10^18.
pub const BONE: u64 = 1_000_000_000_000_000_000;

pub open spec fn bone() -> nat {
    1_000_000_000_000_000_000
}

/// `(a * b + BONE / 2) / BONE`, the fixed-point product rounded half up.
pub open spec fn fixed_mul(a: int, b: int) -> int {
    (a * b + bone() / 2) / (bone() as int)
}

/// `(a * BONE + b / 2) / b`, the fixed-point quotient rounded half up.
pub open spec fn fixed_div(a: int, b: int) -> int {
    (a * bone() + b / 2) / b
}

/// An exact value as an amount: `None` when it is not in `[0, 2^256)`.
pub open spec fn fit(x: int) -> Option<nat> {
    if 0 <= x < modulus() {
        Some(x as nat)
    } else {
        None
    }
}

/// The fixed-point product, when it fits 256 bits.
pub open spec fn spec_bmul(a: nat, b: nat) -> Option<nat> {
    fit(fixed_mul(a as int, b as int))
}

/// The fixed-point quotient, when the divisor is not zero and it fits.
pub open spec fn spec_bdiv(a: nat, b: nat) -> Option<nat> {
    if b == 0 {
        None
    } else {
        fit(fixed_div(a as int, b as int))
    }
}

/// What the constant-product pair asks for `out` of its `ro` reserve, its
/// `ri` reserve on the other side, with the 0.3% fee and one unit of
/// rounding: `out * ri * 1000 / ((ro - out) * 997) + 1`, computed exactly;
/// `None` when `out` is not below `ro` or the result does not fit.
pub open spec fn spec_uniswap_in_given_out(ri: nat, ro: nat, out: nat) -> Option<nat> {
    if out < ro {
        fit((out * ri * 1000) as int / ((ro - out) * 997) + 1)
    } else {
        None
    }
}

/// What the constant-product pair gives of its `ro` reserve for `amount_in`
/// paid into its `ri` reserve: `amount_in * 997 * ro / (ri * 1000 +
/// amount_in * 997)`, computed exactly; `None` for a zero divisor or a result
/// that does not fit.
pub open spec fn spec_uniswap_out_given_in(ri: nat, ro: nat, amount_in: nat) -> Option<nat> {
    let den: int = (ri * 1000 + amount_in * 997) as int;
    if den == 0 {
        None
    } else {
        fit((amount_in * 997 * ro) as int / den)
    }
}

/// What an equal-weight weighted pool with balances `bi` (in) and `bo` (out)
/// and swap fee `s` gives for `amount_in`:
/// `bmul(bo, BONE - bdiv(bi, bi + bmul(amount_in, BONE - s)))`, computed
/// exactly; `None` when `s > BONE`, for a zero divisor, when the ratio
/// passes `BONE`, or when the result does not fit.
pub open spec fn spec_balancer_out_given_in(bi: nat, bo: nat, s: nat, amount_in: nat) -> Option<
    nat,
> {
    if s > bone() {
        None
    } else {
        let den = bi + fixed_mul(amount_in as int, bone() - s);
        if den == 0 {
            None
        } else {
            let ratio = fixed_div(bi as int, den);
            if ratio > bone() {
                None
            } else {
                fit(fixed_mul(bo as int, bone() - ratio))
            }
        }
    }
}

/// Balancer output less Uniswap input for a borrow of `amount`; `None` when
/// it would be negative or a formula fails.
pub open spec fn spec_profit(ri: nat, ro: nat, bi: nat, bo: nat, s: nat, amount: nat) -> Option<
    nat,
> {
    match (spec_balancer_out_given_in(bi, bo, s, amount), spec_uniswap_in_given_out(ri, ro, amount)) {
        (Some(out), Some(payback)) => if payback <= out {
            Some((out - payback) as nat)
        } else {
            None
        },
        _ => None,
    }
}

proof fn lemma_nonneg_mul(a: int, b: int)
    requires
        a >= 0,
        b >= 0,
    ensures
        a * b >= 0,
{
    assert(a * b >= 0) by (nonlinear_arith)
        requires
            a >= 0,
            b >= 0,
    ;
}

proof fn lemma_nonneg_div(a: int, d: int)
    requires
        a >= 0,
        d > 0,
    ensures
        a / d >= 0,
        tdiv(a, d) == a / d,
{
    assert(a / d >= 0) by (nonlinear_arith)
        requires
            a >= 0,
            d > 0,
    ;
}

fn big_fixed_mul(a: &BigNum, b: &BigNum) -> (r: BigNum)
    requires
        a@ >= 0,
        b@ >= 0,
    ensures
        r@ == fixed_mul(a@, b@),
        r@ >= 0,
{
    let p = a.mul(b);
    let t = p.add(&BigNum::from_u64(BONE / 2));
    proof {
        lemma_nonneg_mul(a@, b@);
        lemma_nonneg_div(t@, bone() as int);
    }
    t.div(&BigNum::from_u64(BONE))
}

fn big_fixed_div(a: &BigNum, b: &BigNum) -> (r: BigNum)
    requires
        a@ >= 0,
        b@ > 0,
    ensures
        r@ == fixed_div(a@, b@),
        r@ >= 0,
{
    let p = a.mul(&BigNum::from_u64(BONE));
    let h = b.div(&BigNum::from_u64(2));
    proof {
        lemma_nonneg_mul(a@, bone() as int);
        lemma_nonneg_div(b@, 2);
    }
    let t = p.add(&h);
    proof {
        lemma_nonneg_div(t@, b@);
    }
    t.div(b)
}

/// An exact value as an amount, when it fits.
fn fit_amount(x: &BigNum) -> (r: Option<U256>)
    ensures
        view_opt(r) == fit(x@),
{
    let zero = BigNum::from_u64(0);
    let max = BigNum::from_u256(U256::max_value());
    match x.compare(&zero) {
        core::cmp::Ordering::Less => return None,
        _ => {},
    }
    match x.compare(&max) {
        core::cmp::Ordering::Greater => None,
        _ => Some(x.to_u256()),
    }
}

/// Whether an amount is zero.
fn is_zero(x: &BigNum) -> (r: bool)
    ensures
        r == (x@ == 0),
{
    match x.compare(&BigNum::from_u64(0)) {
        core::cmp::Ordering::Equal => true,
        _ => false,
    }
}

/// Fixed-point product, rounded half up.
pub fn bmul(a: U256, b: U256) -> (r: Option<U256>)
    ensures
        view_opt(r) == spec_bmul(a@, b@),
{
    fit_amount(&big_fixed_mul(&BigNum::from_u256(a), &BigNum::from_u256(b)))
}

/// Fixed-point quotient, rounded half up.
pub fn bdiv(a: U256, b: U256) -> (r: Option<U256>)
    ensures
        view_opt(r) == spec_bdiv(a@, b@),
{
    let d = BigNum::from_u256(b);
    if is_zero(&d) {
        return None;
    }
    fit_amount(&big_fixed_div(&BigNum::from_u256(a), &d))
}

/// The exact input that the constant-product pair asks for `amount` out.
pub fn uniswap_in_given_out(ri: U256, ro: U256, amount: U256) -> (r: Option<U256>)
    ensures
        view_opt(r) == spec_uniswap_in_given_out(ri@, ro@, amount@),
{
    if !amount.lt(ro) {
        return None;
    }
    let out = BigNum::from_u256(amount);
    let num = out.mul(&BigNum::from_u256(ri)).mul(&BigNum::from_u64(1000));
    let den = BigNum::from_u256(ro).sub(&out).mul(&BigNum::from_u64(997));
    proof {
        lemma_nonneg_mul(out@, ri@ as int);
        lemma_nonneg_mul(out@ * ri@, 1000);
        lemma_nonneg_div(num@, den@);
    }
    let q = num.div(&den);
    fit_amount(&q.add(&BigNum::from_u64(1)))
}

/// The output that the constant-product pair gives for `amount` in.
pub fn uniswap_out_given_in(ri: U256, ro: U256, amount: U256) -> (r: Option<U256>)
    ensures
        view_opt(r) == spec_uniswap_out_given_in(ri@, ro@, amount@),
{
    let scaled = BigNum::from_u256(amount).mul(&BigNum::from_u64(997));
    let num = scaled.mul(&BigNum::from_u256(ro));
    let den = BigNum::from_u256(ri).mul(&BigNum::from_u64(1000)).add(&scaled);
    if is_zero(&den) {
        return None;
    }
    proof {
        lemma_nonneg_mul(amount@ as int, 997);
        lemma_nonneg_mul(scaled@, ro@ as int);
        lemma_nonneg_mul(ri@ as int, 1000);
        lemma_nonneg_div(num@, den@);
    }
    fit_amount(&num.div(&den))
}

/// The output of an equal-weight weighted pool for `amount` in.
pub fn balancer_out_given_in(bi: U256, bo: U256, s: U256, amount: U256) -> (r: Option<U256>)
    ensures
        view_opt(r) == spec_balancer_out_given_in(bi@, bo@, s@, amount@),
{
    let one = U256::from_u64(BONE);
    if one.lt(s) {
        return None;
    }
    let one_n = BigNum::from_u64(BONE);
    let keep = one_n.sub(&BigNum::from_u256(s));
    let net_in = big_fixed_mul(&BigNum::from_u256(amount), &keep);
    let bi_n = BigNum::from_u256(bi);
    let den = bi_n.add(&net_in);
    if is_zero(&den) {
        return None;
    }
    let ratio = big_fixed_div(&bi_n, &den);
    match ratio.compare(&one_n) {
        core::cmp::Ordering::Greater => return None,
        _ => {},
    }
    let rest = one_n.sub(&ratio);
    fit_amount(&big_fixed_mul(&BigNum::from_u256(bo), &rest))
}

/// Balancer output less Uniswap input for a borrow of `amount`.
pub fn profit(ri: U256, ro: U256, bi: U256, bo: U256, s: U256, amount: U256) -> (r: Option<U256>)
    ensures
        view_opt(r) == spec_profit(ri@, ro@, bi@, bo@, s@, amount@),
{
    let out = match balancer_out_given_in(bi, bo, s, amount) {
        Some(v) => v,
        None => return None,
    };
    let payback = match uniswap_in_given_out(ri, ro, amount) {
        Some(v) => v,
        None => return None,
    };
    out.checked_sub(payback)
}

/// The quadratic's `x^2` coefficient, in exact integer arithmetic.
pub open spec fn coef_a(ri: int, ro: int, bi: int, bo: int, s: int) -> int {
    let one: int = bone() as int;
    (tdiv(bi * bo * 997, 1000) + tdiv(ri * ro * 2 * s, one)) - (ri * ro + tdiv(
        bi * bo * 997 * s,
        1000 * one,
    ) + tdiv(ri * ro * (s * s), one * one))
}

/// The quadratic's `x` coefficient.
pub open spec fn coef_b(ri: int, ro: int, bi: int, bo: int, s: int) -> int {
    let one: int = bone() as int;
    (tdiv(bi * ri * ro * 2 * s, one) + tdiv(bi * bo * ro * 2 * 997 * s, 1000 * one))
        - (bi * ri * ro * 2 + tdiv(bi * bo * ro * 2 * 997, 1000))
}

/// The quadratic's constant coefficient.
pub open spec fn coef_c(ri: int, ro: int, bi: int, bo: int, s: int) -> int {
    let one: int = bone() as int;
    tdiv(bi * bo * (ro * ro) * 997, 1000) - (bi * bi * ri * ro + tdiv(
        bi * bo * (ro * ro) * 997 * s,
        1000 * one,
    ))
}

/// A root is viable when it is a borrow the pair can lend: in `(0, ro]`.
pub open spec fn viable(x: int, ro: nat) -> bool {
    0 < x <= ro
}

/// The borrow size at which the profit's derivative vanishes: the one viable
/// root of the quadratic, or `None` when it has none, two, or no real root.
pub open spec fn spec_root(ri: nat, ro: nat, bi: nat, bo: nat, s: nat) -> Option<nat> {
    let a = coef_a(ri as int, ro as int, bi as int, bo as int, s as int);
    let b = coef_b(ri as int, ro as int, bi as int, bo as int, s as int);
    let c = coef_c(ri as int, ro as int, bi as int, bo as int, s as int);
    let delta = b * b - a * c * 4;
    if delta < 0 || a == 0 {
        None
    } else {
        let sq = isqrt(delta as nat) as int;
        let root0 = tdiv(-b + sq, a * 2);
        let root1 = tdiv(-b - sq, a * 2);
        if viable(root0, ro) && !viable(root1, ro) {
            Some(root0 as nat)
        } else if viable(root1, ro) && !viable(root0, ro) {
            Some(root1 as nat)
        } else {
            None
        }
    }
}

/// The solver's answer: borrow, payback and profit at the viable root.
pub open spec fn spec_max_profit(ri: nat, ro: nat, bi: nat, bo: nat, s: nat) -> Option<
    (nat, nat, nat),
> {
    match spec_root(ri, ro, bi, bo, s) {
        None => None,
        Some(x) => match (
            spec_balancer_out_given_in(bi, bo, s, x),
            spec_uniswap_in_given_out(ri, ro, x),
        ) {
            (Some(out), Some(payback)) => if payback <= out {
                Some((x, payback, (out - payback) as nat))
            } else {
                None
            },
            _ => None,
        },
    }
}

fn solver_a(ri: &BigNum, ro: &BigNum, bi: &BigNum, bo: &BigNum, s: &BigNum) -> (r: BigNum)
    ensures
        r@ == coef_a(ri@, ro@, bi@, bo@, s@),
{
    let bone = BigNum::from_u64(BONE);
    let tho = BigNum::from_u64(1000);
    let nns = BigNum::from_u64(997);
    let two = BigNum::from_u64(2);
    let bibo = bi.mul(bo);
    let riro = ri.mul(ro);
    let bibo_nns = bibo.mul(&nns);
    let tho_bone = tho.mul(&bone);
    let t1 = bibo_nns.div(&tho);
    let t2 = riro.mul(&two).mul(s).div(&bone);
    let t3 = bibo_nns.mul(s).div(&tho_bone);
    let t4 = riro.mul(&s.mul(s)).div(&bone.mul(&bone));
    t1.add(&t2).sub(&riro.add(&t3).add(&t4))
}

fn solver_b(ri: &BigNum, ro: &BigNum, bi: &BigNum, bo: &BigNum, s: &BigNum) -> (r: BigNum)
    ensures
        r@ == coef_b(ri@, ro@, bi@, bo@, s@),
{
    let bone = BigNum::from_u64(BONE);
    let tho = BigNum::from_u64(1000);
    let nns = BigNum::from_u64(997);
    let two = BigNum::from_u64(2);
    let biriro2 = bi.mul(ri).mul(ro).mul(&two);
    let biboro2nns = bi.mul(bo).mul(ro).mul(&two).mul(&nns);
    let t1 = biriro2.mul(s).div(&bone);
    let t2 = biboro2nns.mul(s).div(&tho.mul(&bone));
    let t3 = biboro2nns.div(&tho);
    t1.add(&t2).sub(&biriro2.add(&t3))
}

fn solver_c(ri: &BigNum, ro: &BigNum, bi: &BigNum, bo: &BigNum, s: &BigNum) -> (r: BigNum)
    ensures
        r@ == coef_c(ri@, ro@, bi@, bo@, s@),
{
    let bone = BigNum::from_u64(BONE);
    let tho = BigNum::from_u64(1000);
    let nns = BigNum::from_u64(997);
    let biboro2nns = bi.mul(bo).mul(&ro.mul(ro)).mul(&nns);
    let t1 = biboro2nns.div(&tho);
    let t2 = bi.mul(bi).mul(ri).mul(ro);
    let t3 = biboro2nns.mul(s).div(&tho.mul(&bone));
    t1.sub(&t2.add(&t3))
}

fn is_viable(x: &BigNum, ro: &BigNum) -> (r: bool)
    ensures
        r == (0 < x@ <= ro@),
{
    let zero = BigNum::from_u64(0);
    match x.compare(&zero) {
        core::cmp::Ordering::Greater => match x.compare(ro) {
            core::cmp::Ordering::Greater => false,
            _ => true,
        },
        _ => false,
    }
}

/// The solver's borrow size (see `spec_root`).
pub fn root(ri: U256, ro: U256, bi: U256, bo: U256, s: U256) -> (r: Option<U256>)
    ensures
        view_opt(r) == spec_root(ri@, ro@, bi@, bo@, s@),
{
    let bi_n = BigNum::from_u256(bi);
    let bo_n = BigNum::from_u256(bo);
    let ri_n = BigNum::from_u256(ri);
    let ro_n = BigNum::from_u256(ro);
    let s_n = BigNum::from_u256(s);
    let a = solver_a(&ri_n, &ro_n, &bi_n, &bo_n, &s_n);
    let b = solver_b(&ri_n, &ro_n, &bi_n, &bo_n, &s_n);
    let c = solver_c(&ri_n, &ro_n, &bi_n, &bo_n, &s_n);
    let four = BigNum::from_u64(4);
    let delta = b.mul(&b).sub(&a.mul(&c).mul(&four));
    let zero = BigNum::from_u64(0);
    let negative = match delta.compare(&zero) {
        core::cmp::Ordering::Less => true,
        _ => false,
    };
    let flat = match a.compare(&zero) {
        core::cmp::Ordering::Equal => true,
        _ => false,
    };
    if negative || flat {
        return None;
    }
    let sq = delta.sqrt();
    let two_a = a.mul(&BigNum::from_u64(2));
    let minus_b = b.neg();
    let root0 = minus_b.add(&sq).div(&two_a);
    let root1 = minus_b.sub(&sq).div(&two_a);
    let v0 = is_viable(&root0, &ro_n);
    let v1 = is_viable(&root1, &ro_n);
    proof {
        lemma_below_modulus(ro);
    }
    if v0 && !v1 {
        Some(root0.to_u256())
    } else if v1 && !v0 {
        Some(root1.to_u256())
    } else {
        None
    }
}

/// The borrow that maximises Balancer output less Uniswap input, with its
/// payback to Uniswap and the profit; `None` when no profitable borrow is
/// found.
pub fn max_profit(ri: U256, ro: U256, bi: U256, bo: U256, s: U256) -> (r: Option<(U256, U256, U256)>)
    ensures
        match r {
            Some((x, payback, gain)) => spec_max_profit(ri@, ro@, bi@, bo@, s@) == Some(
                (x@, payback@, gain@),
            ),
            None => spec_max_profit(ri@, ro@, bi@, bo@, s@) is None,
        },
{
    let amount = match root(ri, ro, bi, bo, s) {
        Some(x) => x,
        None => return None,
    };
    let out = match balancer_out_given_in(bi, bo, s, amount) {
        Some(v) => v,
        None => return None,
    };
    let payback = match uniswap_in_given_out(ri, ro, amount) {
        Some(v) => v,
        None => return None,
    };
    match out.checked_sub(payback) {
        Some(gain) => Some((amount, payback, gain)),
        None => None,
    }
}

/// The solver's answer is a borrow the pair can lend, its payback is the
/// pair's exact input for that borrow, and its profit is the pool's output
/// less that payback.
pub proof fn lemma_max_profit_sound(ri: nat, ro: nat, bi: nat, bo: nat, s: nat)
    requires
        spec_max_profit(ri, ro, bi, bo, s) is Some,
    ensures
        ({
            let (x, payback, gain) = spec_max_profit(ri, ro, bi, bo, s)->0;
            &&& 0 < x <= ro
            &&& spec_root(ri, ro, bi, bo, s) == Some(x)
            &&& spec_uniswap_in_given_out(ri, ro, x) == Some(payback)
            &&& spec_profit(ri, ro, bi, bo, s, x) == Some(gain)
            &&& spec_balancer_out_given_in(bi, bo, s, x) == Some(payback + gain)
        }),
{
}

} // verus!
