use pooller::amount::U256;
use pooller::bignum::BigNum;
use pooller::calc::{
    balancer_out_given_in, bdiv, bmul, max_profit, profit, root, uniswap_in_given_out,
    uniswap_out_given_in,
};

const BONE: u128 = 1_000_000_000_000_000_000;

fn u(x: u128) -> U256 {
    U256::from(x)
}

#[test]
fn works() {
    let ro = U256::from(560407980246u128);
    let ri = U256::from(185214260915118229728572u128);
    let bo = U256::from(674650730267410526933u128);
    let bi = U256::from(2032847980u128);
    let s = U256::from(300000000000000u128);

    let (amount, _payback, profit) = max_profit(ri, ro, bi, bo, s).unwrap();

    assert_eq!(amount, U256::from(860531u128));
    assert_eq!(profit, U256::from(121209478698546u128));
}

#[test]
fn solver_answer_is_consistent() {
    let ro = u(560407980246);
    let ri = u(185214260915118229728572);
    let bo = u(674650730267410526933);
    let bi = u(2032847980);
    let s = u(300000000000000);
    let (amount, payback, gain) = max_profit(ri, ro, bi, bo, s).unwrap();
    assert_eq!(root(ri, ro, bi, bo, s), Some(amount));
    assert_eq!(uniswap_in_given_out(ri, ro, amount), Some(payback));
    assert_eq!(profit(ri, ro, bi, bo, s, amount), Some(gain));
    let out = balancer_out_given_in(bi, bo, s, amount).unwrap();
    assert_eq!(out.checked_sub(payback), Some(gain));
}

#[test]
fn swapped_balances_give_no_profit() {
    let ro = u(560407980246);
    let ri = u(185214260915118229728572);
    let bi = u(674650730267410526933);
    let bo = u(2032847980);
    let s = u(300000000000000);
    assert_eq!(max_profit(ri, ro, bi, bo, s), None);
}

#[test]
fn no_profit_spot_check() {
    let ro = 560407980246u128;
    let ri = u(185214260915118229728572);
    let bi = u(674650730267410526933);
    let bo = u(2032847980);
    let s = u(300000000000000);
    for x in [1u128, 1_000, 860_531, 1_000_000_000, ro / 2, ro - 1, ro] {
        match profit(ri, u(ro), bi, bo, s, u(x)) {
            Some(p) => assert_eq!(p, u(0)),
            None => {}
        }
    }
}

#[test]
fn fixed_point_product_and_quotient() {
    assert_eq!(bmul(u(2 * BONE), u(3 * BONE)), Some(u(6 * BONE)));
    assert_eq!(bmul(u(1), u(BONE / 2)), Some(u(1)));
    assert_eq!(bmul(u(1), u(BONE / 2 - 1)), Some(u(0)));
    assert_eq!(bdiv(u(1), u(2)), Some(u(BONE / 2)));
    assert_eq!(bdiv(u(6 * BONE), u(3 * BONE)), Some(u(2 * BONE)));
    assert_eq!(bdiv(u(1), u(0)), None);
}

#[test]
fn uniswap_formulas() {
    assert_eq!(uniswap_in_given_out(u(1000), u(1000), u(500)), Some(u(1004)));
    assert_eq!(uniswap_in_given_out(u(1000), u(1000), u(1000)), None);
    assert_eq!(uniswap_in_given_out(u(1000), u(1000), u(1001)), None);
    assert_eq!(uniswap_out_given_in(u(1000), u(1000), u(100)), Some(u(90)));
    assert_eq!(uniswap_out_given_in(u(0), u(1000), u(0)), None);
}

#[test]
fn balancer_formula() {
    assert_eq!(balancer_out_given_in(u(BONE), u(BONE), u(0), u(BONE)), Some(u(BONE / 2)));
    assert_eq!(balancer_out_given_in(u(BONE), u(BONE), u(BONE + 1), u(BONE)), None);
    assert_eq!(balancer_out_given_in(u(0), u(BONE), u(0), u(0)), None);
}

#[test]
fn overflow_fails_the_formula() {
    let big = U256 { words: [u64::MAX, u64::MAX, u64::MAX, u64::MAX] };
    assert_eq!(big.checked_add(u(1)), None);
    assert_eq!(big.checked_mul(u(2)), None);
    // Intermediates may pass 256 bits: only the result has to fit.
    assert_eq!(uniswap_in_given_out(big, big, u(2)), Some(u(3)));
    assert_eq!(uniswap_in_given_out(big, u(2), u(1)), None);
    assert_eq!(big.checked_add(u(0)), Some(big));
}

#[test]
fn amount_arithmetic() {
    assert_eq!(u(7).checked_add(u(5)), Some(u(12)));
    assert_eq!(u(7).checked_sub(u(5)), Some(u(2)));
    assert_eq!(u(5).checked_sub(u(7)), None);
    assert_eq!(u(7).checked_mul(u(5)), Some(u(35)));
    assert_eq!(u(7).checked_div(u(2)), Some(u(3)));
    assert_eq!(u(7).checked_div(u(0)), None);
    assert!(u(3).lt(u(4)));
    assert!(!u(4).lt(u(4)));
    assert!(u(4).le(u(4)));
    assert_eq!(u(9).min(u(4)), u(4));
    assert_eq!(u(1u128 << 100), U256 { words: [0, 1 << 36, 0, 0] });
}

#[test]
fn big_numbers() {
    let a = BigNum::from_u64(7);
    let b = BigNum::from_u64(6);
    assert_eq!(a.mul(&b).to_u256(), u(42));
    assert_eq!(a.add(&b).to_u256(), u(13));
    assert_eq!(a.sub(&b).to_u256(), u(1));
    let minus_seven = a.neg();
    assert_eq!(minus_seven.div(&BigNum::from_u64(2)).neg().to_u256(), u(3));
    assert_eq!(BigNum::from_u64(50).sqrt().to_u256(), u(7));
    assert_eq!(BigNum::from_u256(u(1u128 << 90)).to_u256(), u(1u128 << 90));
    assert_eq!(minus_seven.compare(&b), std::cmp::Ordering::Less);
    assert_eq!(b.sub(&a).compare(&minus_seven), std::cmp::Ordering::Greater);
}

#[test]
fn wide_intermediates() {
    let half = U256 { words: [0, 0, 0, 1 << 63] };
    let expected = U256 {
        words: [14857307413429057120, 17521631532400145817, 17447622529095393353, 9251125413094057981],
    };
    assert_eq!(uniswap_in_given_out(half, u(2), u(1)), Some(expected));
    assert_eq!(balancer_out_given_in(half, u(BONE), u(0), u(0)), Some(u(0)));
    let bo = U256 { words: [0, 0, 0, 1 << 5] };
    let out = U256 { words: [231731382504702773, 12990006092314174228, 18446744073709551025, 31] };
    assert_eq!(balancer_out_given_in(u(1), bo, u(0), u(BONE)), Some(out));
    assert_eq!(bmul(half, u(2 * BONE)), None);
    assert_eq!(bmul(half, u(BONE)), Some(half));
    assert_eq!(bdiv(half, half), Some(u(BONE)));
}
