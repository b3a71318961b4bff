use pooller::amount::U256;
use pooller::evaluate::{
    ArbitrageAttempt, ArbitragePair, ArbitrageResult, BalancerPoolResolved, Block, Config, Context,
    UniswapPairResolved,
};
use pooller::gate::{perform_call, ExecutionGate, GateDecision};
use pooller::registry::{Address, Token};
use pooller::txs::{Swap, SwapMatch, Transaction, TxHash};

fn u(x: u128) -> U256 {
    U256::from(x)
}

fn addr(b: u8) -> Address {
    Address { bytes: [b; 20] }
}

fn token(b: u8, symbol: &str) -> Token {
    Token { address: addr(b), symbol: symbol.to_string(), decimals: 18, weth_uniswap_pair: None }
}

fn pair() -> ArbitragePair {
    ArbitragePair {
        balancer_pool: addr(0xb1),
        uniswap_pair: addr(0xa1),
        token0: token(0x11, "TKA"),
        token1: token(0x22, "TKB"),
        weth: token(0xee, "WETH"),
    }
}

fn attempt(number: u64, result: ArbitrageResult) -> ArbitrageAttempt {
    let p = pair();
    ArbitrageAttempt {
        borrow_token: p.token1.clone(),
        profit_token: p.token0.clone(),
        pair: p,
        result,
        config: Config::standard(),
        block: Block { number, gas_price: u(1), balance: u(2), nonce: u(42) },
    }
}

fn net() -> ArbitrageResult {
    ArbitrageResult::NetProfit { weth_profit: u(100), gas_price: u(30), amount: u(7) }
}

#[test]
fn same_block_twice_is_dropped() {
    let mut gate = ExecutionGate::new();
    let first = gate.offer(&attempt(100, net()));
    match first {
        GateDecision::Submit(s) => {
            assert_eq!(s.block_number, 100);
            assert_eq!(s.gas_price, u(30));
            assert_eq!(s.amount, u(7));
            assert_eq!(s.nonce, u(42));
            assert_eq!(s.gas, u(400_000));
            assert_eq!(s.confirmations, 1);
        }
        other => panic!("expected a submission, got {:?}", other),
    }
    assert!(gate.is_held());
    assert!(matches!(gate.offer(&attempt(100, net())), GateDecision::Busy));
    gate.release();
    assert!(!gate.is_held());
    assert!(matches!(gate.offer(&attempt(100, net())), GateDecision::Stale));
}

#[test]
fn stale_candidate_is_dropped() {
    let mut gate = ExecutionGate::new();
    assert!(matches!(gate.offer(&attempt(100, net())), GateDecision::Submit(_)));
    gate.release();
    assert!(matches!(gate.offer(&attempt(99, net())), GateDecision::Stale));
    assert!(!gate.is_held());
    assert!(matches!(gate.offer(&attempt(101, net())), GateDecision::Submit(_)));
}

#[test]
fn only_net_profit_is_submitted() {
    let mut gate = ExecutionGate::new();
    let g = ArbitrageResult::GrossProfit { weth_profit: u(1), amount: u(1) };
    assert!(matches!(gate.offer(&attempt(100, g)), GateDecision::NotNetProfit));
    assert!(matches!(gate.offer(&attempt(100, ArbitrageResult::NotProfit)), GateDecision::NotNetProfit));
    assert!(!gate.is_held());
}

fn pool_swap(pool: Address, token_in: Address, token_out: Address) -> Swap {
    let mut input = vec![0x82, 0x01, 0xaa, 0x3f];
    for a in [token_in, token_out] {
        input.extend_from_slice(&[0u8; 12]);
        input.extend_from_slice(&a.bytes);
    }
    let tx = Transaction { to: Some(pool), input, gas_price: u(1), hash: TxHash { bytes: [0; 32] } };
    let tokens = vec![token(0x11, "TKA"), token(0x22, "TKB")];
    Swap::from_transaction(&tx, &addr(0x7a), &vec![addr(0xb1), addr(0xb2)], &tokens).unwrap()
}

#[test]
fn observes_pending_swaps_while_held() {
    let mut gate = ExecutionGate::new();
    let swap = pool_swap(addr(0xb1), addr(0x22), addr(0x11));
    assert_eq!(gate.observe(&swap), None);
    gate.offer(&attempt(100, net()));
    // The attempt borrows TKB and takes profit in TKA on pool 0xb1.
    assert_eq!(gate.observe(&swap), Some(SwapMatch::SameDirection));
    assert_eq!(gate.observe(&pool_swap(addr(0xb1), addr(0x11), addr(0x22))), Some(SwapMatch::OppositeDirection));
    assert_eq!(gate.observe(&pool_swap(addr(0xb2), addr(0x22), addr(0x11))), None);
}

#[test]
fn perform_arguments() {
    let ctx = Context {
        block: Block { number: 100, gas_price: u(1), balance: u(2), nonce: u(42) },
        config: Config::standard(),
        pairs: vec![(addr(0xa1), UniswapPairResolved { reserve0: u(10), reserve1: u(20), token0: addr(0x11) })],
        pools: vec![(
            addr(0xb1),
            BalancerPoolResolved { balances: vec![(addr(0x22), u(40)), (addr(0x11), u(30))], swap_fee: u(3) },
        )],
    };
    let c = perform_call(&attempt(100, net()), &ctx).unwrap();
    assert_eq!(c.borrow, 1);
    assert_eq!(c.amount, u(7));
    assert_eq!((c.reserve0, c.reserve1), (u(10), u(20)));
    assert_eq!((c.balance0, c.balance1), (u(30), u(40)));
    assert_eq!((c.token0, c.token1), (addr(0x11), addr(0x22)));
    assert_eq!((c.uniswap_pair, c.balancer_pool), (addr(0xa1), addr(0xb1)));
    assert!(perform_call(&attempt(100, ArbitrageResult::NotProfit), &ctx).is_none());
    let mut missing = ctx.clone();
    missing.pools.clear();
    assert!(perform_call(&attempt(100, net()), &missing).is_none());
}
