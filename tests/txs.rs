use pooller::amount::U256;
use pooller::pending_tx::{Kind, PendingTx};
use pooller::registry::{Address, Token};
use pooller::txs::{
    BalancerSwap, BalancerSwapMethod, Swap, SwapMatch, Transaction, TxHash, UniswapSwap,
    UniswapSwapMethod,
};

fn addr(b: u8) -> Address {
    Address { bytes: [b; 20] }
}

fn token(b: u8, symbol: &str) -> Token {
    Token { address: addr(b), symbol: symbol.to_string(), decimals: 18, weth_uniswap_pair: None }
}

fn registry() -> Vec<Token> {
    vec![token(0xee, "WETH"), token(0x11, "TKA"), token(0x22, "TKB")]
}

fn slot(a: &Address) -> Vec<u8> {
    let mut v = vec![0u8; 12];
    v.extend_from_slice(&a.bytes);
    v
}

fn router() -> Address {
    addr(0x7a)
}

fn tx(to: Address, input: Vec<u8>) -> Transaction {
    Transaction { to: Some(to), input, gas_price: U256::from(5u128), hash: TxHash { bytes: [9; 32] } }
}

fn router_call(selector: [u8; 4], head_slots: usize, path: &[Address]) -> Vec<u8> {
    let mut input = selector.to_vec();
    for i in 0..head_slots {
        input.extend_from_slice(&[i as u8 + 1; 32]);
    }
    for a in path {
        input.extend(slot(a));
    }
    input
}

fn pool_call(selector: [u8; 4], token_in: &Address, token_out: &Address) -> Vec<u8> {
    let mut input = selector.to_vec();
    input.extend(slot(token_in));
    input.extend(slot(token_out));
    input.extend_from_slice(&[3u8; 64]);
    input
}

fn path_addresses(s: &UniswapSwap) -> Vec<Option<Address>> {
    s.tokens.iter().map(|t| t.as_ref().map(|t| t.address)).collect()
}

#[test]
fn decodes_exact_eth_for_tokens() {
    let input = router_call([0x7f, 0xf3, 0x6a, 0xb5], 5, &[addr(0xee), addr(0x11)]);
    let s = UniswapSwap::from_transaction(&tx(router(), input), &router(), &registry()).unwrap();
    assert_eq!(s.method, UniswapSwapMethod::ExactETHForTokens);
    assert_eq!(path_addresses(&s), vec![Some(addr(0xee)), Some(addr(0x11))]);
    assert_eq!(s.tokens[1].as_ref().unwrap().symbol, "TKA");
    assert_eq!(s.gas_price, U256::from(5u128));
    assert_eq!(s.tx_hash, TxHash { bytes: [9; 32] });
}

#[test]
fn every_router_method_decodes() {
    let table: [([u8; 4], usize, UniswapSwapMethod); 6] = [
        ([0x88, 0x03, 0xdb, 0xee], 6, UniswapSwapMethod::TokensForExactTokens),
        ([0x38, 0xed, 0x17, 0x39], 6, UniswapSwapMethod::ExactTokensForTokens),
        ([0x4a, 0x25, 0xd9, 0x4a], 6, UniswapSwapMethod::TokensForExactETH),
        ([0x18, 0xcb, 0xaf, 0xe5], 6, UniswapSwapMethod::ExactTokensForETH),
        ([0xfb, 0x3b, 0xdb, 0x41], 5, UniswapSwapMethod::ETHForExactTokens),
        ([0x7f, 0xf3, 0x6a, 0xb5], 5, UniswapSwapMethod::ExactETHForTokens),
    ];
    for (selector, head, method) in table {
        let path = [addr(0x11), addr(0x33), addr(0x22)];
        let input = router_call(selector, head, &path);
        let s = UniswapSwap::from_transaction(&tx(router(), input), &router(), &registry()).unwrap();
        assert_eq!(s.method, method);
        assert_eq!(path_addresses(&s), vec![Some(addr(0x11)), None, Some(addr(0x22))]);
    }
}

#[test]
fn router_calls_that_are_dropped() {
    let reg = registry();
    // Another contract.
    let input = router_call([0x7f, 0xf3, 0x6a, 0xb5], 5, &[addr(0xee), addr(0x11)]);
    assert!(UniswapSwap::from_transaction(&tx(addr(0x01), input.clone()), &router(), &reg).is_none());
    // Unknown selector.
    let other = router_call([0x7f, 0xf3, 0x6a, 0xb6], 5, &[addr(0xee), addr(0x11)]);
    assert!(UniswapSwap::from_transaction(&tx(router(), other), &router(), &reg).is_none());
    // Payload not a multiple of 32 bytes.
    let mut ragged = input.clone();
    ragged.push(0);
    assert!(UniswapSwap::from_transaction(&tx(router(), ragged), &router(), &reg).is_none());
    // Only unknown tokens.
    let unknown = router_call([0x7f, 0xf3, 0x6a, 0xb5], 5, &[addr(0x33), addr(0x44)]);
    assert!(UniswapSwap::from_transaction(&tx(router(), unknown), &router(), &reg).is_none());
    // Selector alone.
    assert!(UniswapSwap::from_transaction(&tx(router(), vec![0x7f, 0xf3, 0x6a, 0xb5]), &router(), &reg).is_none());
}

#[test]
fn slot_with_nonzero_prefix_is_unknown() {
    let mut input = router_call([0x7f, 0xf3, 0x6a, 0xb5], 5, &[addr(0xee), addr(0x11)]);
    input[4 + 32 * 5] = 1;
    let s = UniswapSwap::from_transaction(&tx(router(), input), &router(), &registry()).unwrap();
    assert_eq!(path_addresses(&s), vec![None, Some(addr(0x11))]);
}

#[test]
fn decodes_pool_swaps() {
    let pools = vec![addr(0xb1), addr(0xb2)];
    let input = pool_call([0x82, 0x01, 0xaa, 0x3f], &addr(0x11), &addr(0x22));
    let s = BalancerSwap::from_transaction(&tx(addr(0xb2), input), &pools, &registry()).unwrap();
    assert_eq!(s.method, BalancerSwapMethod::ExactAmountIn);
    assert_eq!(s.pool, addr(0xb2));
    assert_eq!(s.token_in.as_ref().unwrap().address, addr(0x11));
    assert_eq!(s.token_out.as_ref().unwrap().address, addr(0x22));
    let input = pool_call([0x7c, 0x5e, 0x9e, 0xa4], &addr(0x33), &addr(0x22));
    let s = BalancerSwap::from_transaction(&tx(addr(0xb1), input), &pools, &registry()).unwrap();
    assert_eq!(s.method, BalancerSwapMethod::ExactAmountOut);
    assert!(s.token_in.is_none());
    // Unknown pool, unknown tokens, non-zero prefix.
    let input = pool_call([0x82, 0x01, 0xaa, 0x3f], &addr(0x11), &addr(0x22));
    assert!(BalancerSwap::from_transaction(&tx(addr(0xb3), input.clone()), &pools, &registry()).is_none());
    let unknown = pool_call([0x82, 0x01, 0xaa, 0x3f], &addr(0x33), &addr(0x44));
    assert!(BalancerSwap::from_transaction(&tx(addr(0xb1), unknown), &pools, &registry()).is_none());
    let mut dirty = input;
    dirty[40] = 1;
    assert!(BalancerSwap::from_transaction(&tx(addr(0xb1), dirty), &pools, &registry()).is_none());
}

#[test]
fn pool_conflicts_only_on_the_same_pool() {
    let pools = vec![addr(0xb1), addr(0xb2)];
    let (ta, tb) = (addr(0x11), addr(0x22));
    let on_p1 = Swap::from_transaction(&tx(addr(0xb1), pool_call([0x82, 0x01, 0xaa, 0x3f], &ta, &tb)), &router(), &pools, &registry()).unwrap();
    assert_eq!(on_p1.tokens_match(&ta, &tb, &addr(0xb1)), Some(SwapMatch::SameDirection));
    assert_eq!(on_p1.tokens_match(&tb, &ta, &addr(0xb1)), Some(SwapMatch::OppositeDirection));
    let on_p2 = Swap::from_transaction(&tx(addr(0xb2), pool_call([0x82, 0x01, 0xaa, 0x3f], &ta, &tb)), &router(), &pools, &registry()).unwrap();
    assert_eq!(on_p2.tokens_match(&ta, &tb, &addr(0xb1)), None);
    // Only one side matching is the opposite direction.
    assert_eq!(on_p1.tokens_match(&ta, &addr(0x33), &addr(0xb1)), Some(SwapMatch::OppositeDirection));
    assert_eq!(on_p1.tokens_match(&addr(0xee), &addr(0x33), &addr(0xb1)), Some(SwapMatch::OppositeDirection));
    assert_eq!(on_p2.gas_price(), U256::from(5u128));
    assert_eq!(on_p2.tx_hash(), TxHash { bytes: [9; 32] });
}

#[test]
fn router_conflicts_are_symmetric() {
    let input = router_call([0x38, 0xed, 0x17, 0x39], 6, &[addr(0xee), addr(0x11), addr(0x22)]);
    let s = UniswapSwap::from_transaction(&tx(router(), input), &router(), &registry()).unwrap();
    let (a, b, c) = (addr(0xee), addr(0x11), addr(0x22));
    assert_eq!(s.tokens_match(&a, &b), Some(SwapMatch::SameDirection));
    assert_eq!(s.tokens_match(&b, &a), Some(SwapMatch::OppositeDirection));
    assert_eq!(s.tokens_match(&c, &b), Some(SwapMatch::OppositeDirection));
    assert_eq!(s.tokens_match(&b, &c), Some(SwapMatch::SameDirection));
    assert_eq!(s.tokens_match(&a, &c), None);
    assert_eq!(s.tokens_match(&c, &a), None);
}

#[test]
fn swap_prefers_router_then_pool() {
    let pools = vec![router()];
    let input = router_call([0x7f, 0xf3, 0x6a, 0xb5], 5, &[addr(0xee), addr(0x11)]);
    let s = Swap::from_transaction(&tx(router(), input), &router(), &pools, &registry()).unwrap();
    assert!(matches!(s, Swap::UniswapSwap(_)));
    let nothing = Swap::from_transaction(&tx(addr(0x01), vec![1, 2, 3]), &router(), &pools, &registry());
    assert!(nothing.is_none());
}

fn wesker() -> Address {
    Address {
        bytes: [
            0x00, 0x00, 0x00, 0x00, 0x00, 0x00, 0x7f, 0x15, 0x0b, 0xd6, 0xf5, 0x4c, 0x40, 0xa3,
            0x4d, 0x7c, 0x3d, 0x5e, 0x9f, 0x56,
        ],
    }
}

#[test]
fn pending_operator_calls_always_conflict() {
    let pools = vec![addr(0xb1)];
    let p = PendingTx::from_transaction(&tx(wesker(), vec![0x01, 0x02, 0xe8, 0x92, 0xff]), &router(), &pools, &registry()).unwrap();
    assert!(matches!(p.kind, Kind::WeskerOperation));
    assert!(p.conflicts(&addr(0x11), &addr(0x22), &addr(0xb1)));
    assert!(PendingTx::from_transaction(&tx(wesker(), vec![0x01, 0x02, 0xe8, 0x93]), &router(), &pools, &registry()).is_none());
    assert!(PendingTx::from_transaction(&tx(wesker(), vec![0x01, 0x02]), &router(), &pools, &registry()).is_none());
}

#[test]
fn pending_swaps_conflict_in_either_direction() {
    let pools = vec![addr(0xb1)];
    let input = router_call([0x38, 0xed, 0x17, 0x39], 6, &[addr(0x11), addr(0x22)]);
    let p = PendingTx::from_transaction(&tx(router(), input), &router(), &pools, &registry()).unwrap();
    assert!(p.conflicts(&addr(0x11), &addr(0x22), &addr(0xb1)));
    assert!(p.conflicts(&addr(0x22), &addr(0x11), &addr(0xb1)));
    assert!(!p.conflicts(&addr(0x11), &addr(0xee), &addr(0xb1)));
    let input = pool_call([0x82, 0x01, 0xaa, 0x3f], &addr(0x11), &addr(0x22));
    let q = PendingTx::from_transaction(&tx(addr(0xb1), input), &router(), &pools, &registry()).unwrap();
    assert!(q.conflicts(&addr(0x11), &addr(0x33), &addr(0xb1)));
    assert!(q.conflicts(&addr(0x22), &addr(0x11), &addr(0xb1)));
    assert!(q.conflicts(&addr(0xee), &addr(0x33), &addr(0xb1)));
    assert!(!q.conflicts(&addr(0x11), &addr(0x22), &addr(0xb2)));
    assert_eq!(q.gas_price, U256::from(5u128));
}
