use pooller::amount::U256;
use pooller::probe::{eth_parts, second_leg, settle, ProbeOutcome, Search, SecondLeg};

fn u(x: u128) -> U256 {
    U256::from(x)
}

#[test]
fn second_leg_sells_where_bought_less() {
    assert_eq!(second_leg(u(10), u(9)), SecondLeg::SellOnBalancer(u(10)));
    assert_eq!(second_leg(u(9), u(10)), SecondLeg::SellOnUniswap(u(10)));
    assert_eq!(second_leg(u(9), u(9)), SecondLeg::SellOnUniswap(u(9)));
}

#[test]
fn settle_measures_gain_or_loss() {
    assert_eq!(settle(u(100), u(130)), ProbeOutcome { input: u(100), delta: u(30), profit: true });
    assert_eq!(settle(u(100), u(70)), ProbeOutcome { input: u(100), delta: u(30), profit: false });
    assert_eq!(settle(u(100), u(100)), ProbeOutcome { input: u(100), delta: u(0), profit: false });
}

#[test]
fn bisection_narrows_to_tolerance() {
    let first = settle(u(100), u(101));
    assert!(Search::start(settle(u(100), u(99)), u(100), u(1000), u(10)).is_none());
    let mut s = Search::start(first, u(100), u(1000), u(10)).unwrap();
    assert_eq!(s.next_input(), Some(u(550)));
    s.record(u(550), settle(u(550), u(560)));
    assert_eq!((s.lo, s.hi), (u(550), u(1000)));
    assert_eq!(s.best.delta, u(10));
    assert_eq!(s.next_input(), Some(u(775)));
    s.record(u(775), settle(u(775), u(780)));
    assert_eq!((s.lo, s.hi), (u(550), u(775)));
    let mut steps = 0;
    while let Some(x) = s.next_input() {
        s.record(x, settle(x, x));
        steps += 1;
    }
    assert!(steps > 0);
    assert!(s.hi.checked_sub(s.lo).unwrap().le(u(10)));
    assert_eq!(s.best.input, u(550));
}

#[test]
fn eth_amounts_in_ten_thousandths() {
    assert_eq!(eth_parts(u(1_234_500_000_000_000_000)), (u(1), u(2345)));
    assert_eq!(eth_parts(u(99_999_999_999_999)), (u(0), u(0)));
}
