use pooller::amount::U256;
use pooller::evaluate::{
    best_attempt, classify, count_results, ArbitrageAttempt, ArbitragePair, ArbitrageResult,
    BalancerPoolResolved, Block, Config, Context, UniswapPairResolved,
};
use pooller::registry::{Address, Token};
use std::cmp::Ordering;

fn u(x: u128) -> U256 {
    U256::from(x)
}

fn addr(b: u8) -> Address {
    Address { bytes: [b; 20] }
}

fn token(b: u8, symbol: &str, weth_pair: Option<Address>) -> Token {
    Token { address: addr(b), symbol: symbol.to_string(), decimals: 18, weth_uniswap_pair: weth_pair }
}

fn block(gas_price: u128, balance: u128) -> Block {
    Block { number: 100, gas_price: u(gas_price), balance: u(balance), nonce: u(7) }
}

fn gross(w: u128, a: u128) -> ArbitrageResult {
    ArbitrageResult::GrossProfit { weth_profit: u(w), amount: u(a) }
}

fn net(w: u128, g: u128, a: u128) -> ArbitrageResult {
    ArbitrageResult::NetProfit { weth_profit: u(w), gas_price: u(g), amount: u(a) }
}

const TARGET: u128 = 10_000_000_000_000_000;

#[test]
fn results_are_ordered_by_variant_first() {
    let not = ArbitrageResult::NotProfit;
    assert_eq!(not.compare(&gross(0, 0)), Ordering::Less);
    assert_eq!(gross(u64::MAX as u128, 5).compare(&net(0, 0, 0)), Ordering::Less);
    assert_eq!(net(0, 0, 0).compare(&not), Ordering::Greater);
    assert_eq!(not.compare(&not), Ordering::Equal);
}

#[test]
fn results_within_a_variant() {
    assert_eq!(gross(2, 1).compare(&gross(1, 9)), Ordering::Greater);
    assert_eq!(gross(2, 1).compare(&gross(2, 9)), Ordering::Less);
    assert_eq!(net(5, 1, 9).compare(&net(5, 2, 0)), Ordering::Less);
    assert_eq!(net(5, 2, 3).compare(&net(5, 2, 3)), Ordering::Equal);
    assert_eq!(net(6, 0, 0).compare(&net(5, 9, 9)), Ordering::Greater);
}

#[test]
fn below_target_is_gross() {
    let config = Config::standard();
    let b = block(10_000_000_000, 1_000_000_000_000_000_000);
    assert_eq!(classify(u(TARGET), u(3), &b, &config), gross(TARGET, 3));
}

#[test]
fn net_profit_at_target_gas_price() {
    let config = Config::standard();
    let b = block(10_000_000_000, 1_000_000_000_000_000_000);
    let w = TARGET + 350_000 * 30_000_000_000;
    assert_eq!(classify(u(w), u(3), &b, &config), net(w, 30_000_000_000, 3));
}

#[test]
fn gas_price_clamped_to_maximum() {
    let config = Config::standard();
    let b = block(10_000_000_000, 1_000_000_000_000_000_000);
    let w = TARGET + 350_000 * 1_000_000_000_000;
    assert_eq!(classify(u(w), u(3), &b, &config), net(w, 50_000_000_000, 3));
    // The balance bounds the price too.
    let poor = block(10_000_000_000, 400_000 * 30_000_000_000);
    assert_eq!(classify(u(w), u(3), &poor, &config), net(w, 30_000_000_000, 3));
}

#[test]
fn too_cheap_or_too_poor_is_gross() {
    let config = Config::standard();
    let b = block(10_000_000_000, 1_000_000_000_000_000_000);
    let w = TARGET + 350_000 * 10_000_000_000;
    assert_eq!(classify(u(w), u(3), &b, &config), gross(w, 3));
    let poor = block(10_000_000_000, 400_000 * 10_000_000_000);
    let rich = TARGET + 350_000 * 1_000_000_000_000;
    assert_eq!(classify(u(rich), u(3), &poor, &config), gross(rich, 3));
}

fn s1_context(profit_is_weth: bool) -> (ArbitragePair, Context) {
    let weth = token(0xee, "WETH", None);
    let t = token(0x11, "TKN", Some(addr(0xa0)));
    let other = token(0x22, "OTH", Some(addr(0xa1)));
    let profit_token = if profit_is_weth { weth.clone() } else { other.clone() };
    let pair = ArbitragePair {
        balancer_pool: addr(0xb0),
        uniswap_pair: addr(0xa0),
        token0: t.clone(),
        token1: profit_token.clone(),
        weth,
    };
    let mut pairs = vec![(
        addr(0xa0),
        UniswapPairResolved {
            reserve0: u(560407980246),
            reserve1: u(185214260915118229728572),
            token0: t.address,
        },
    )];
    // The profit token's WETH pair: 1 OTH for 2 WETH.
    pairs.push((
        addr(0xa1),
        UniswapPairResolved {
            reserve0: u(1_000_000_000_000_000_000),
            reserve1: u(2_000_000_000_000_000_000),
            token0: other.address,
        },
    ));
    let pools = vec![(
        addr(0xb0),
        BalancerPoolResolved {
            balances: vec![
                (t.address, u(2032847980)),
                (profit_token.address, u(674650730267410526933)),
            ],
            swap_fee: u(300000000000000),
        },
    )];
    let ctx = Context {
        block: block(10_000_000_000, 1_000_000_000_000_000_000),
        config: Config::standard(),
        pairs,
        pools,
    };
    (pair, ctx)
}

#[test]
fn run_prices_profit_in_weth() {
    let (pair, ctx) = s1_context(true);
    let r = pair.run(&pair.token0, &pair.token1, &ctx).unwrap();
    assert_eq!(r, gross(121209478698546, 860531));
}

#[test]
fn run_converts_profit_through_weth_pair() {
    let (pair, ctx) = s1_context(false);
    let r = pair.run(&pair.token0, &pair.token1, &ctx).unwrap();
    // 121209478698546 OTH sold for WETH at about 2 WETH each, less the fee.
    let expected = (121209478698546u128 * 997 * 2_000_000_000_000_000_000)
        / (1_000_000_000_000_000_000 * 1000 + 121209478698546u128 * 997);
    assert_eq!(r, gross(expected, 860531));
}

#[test]
fn run_without_snapshot_is_none() {
    let (pair, mut ctx) = s1_context(true);
    ctx.pools.clear();
    assert_eq!(pair.run(&pair.token0, &pair.token1, &ctx), None);
    assert!(pair.attempts(&ctx).is_none());
}

#[test]
fn attempts_cover_both_directions() {
    let (pair, ctx) = s1_context(true);
    let attempts = pair.attempts(&ctx).unwrap();
    assert_eq!(attempts.len(), 2);
    assert_eq!(attempts[0].borrow_token.address, pair.token0.address);
    assert_eq!(attempts[1].borrow_token.address, pair.token1.address);
    assert_eq!(attempts[0].result, gross(121209478698546, 860531));
    assert_eq!(Some(attempts[1].result), pair.run(&pair.token1, &pair.token0, &ctx));
}

fn attempt_with(pair: &ArbitragePair, ctx: &Context, result: ArbitrageResult) -> ArbitrageAttempt {
    ArbitrageAttempt {
        pair: pair.clone(),
        borrow_token: pair.token0.clone(),
        profit_token: pair.token1.clone(),
        result,
        config: ctx.config,
        block: ctx.block,
    }
}

#[test]
fn best_attempt_is_last_greatest() {
    let (pair, ctx) = s1_context(true);
    let attempts = vec![
        attempt_with(&pair, &ctx, gross(5, 1)),
        attempt_with(&pair, &ctx, net(1, 1, 1)),
        attempt_with(&pair, &ctx, ArbitrageResult::NotProfit),
        attempt_with(&pair, &ctx, net(1, 1, 1)),
        attempt_with(&pair, &ctx, gross(9, 9)),
    ];
    assert_eq!(best_attempt(&attempts), Some(3));
    assert_eq!(best_attempt(&vec![]), None);
    assert_eq!(count_results(&attempts), (1, 2, 2));
}

#[test]
fn standard_config() {
    let c = Config::standard();
    assert_eq!(c.expected_gas_usage, u(350_000));
    assert_eq!(c.max_gas_usage, u(400_000));
    assert_eq!(c.target_weth_profit, u(TARGET));
    assert_eq!((c.min_gas_scale, c.max_gas_scale), (2, 5));
}
