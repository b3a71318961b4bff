use pooller::ingest::{build_pairs, find_weth_pair, join_pairs, priced_pairs, RawPair, RawToken};
use pooller::order::compare_bytes;
use pooller::registry::{Address, Pair, Token};
use std::cmp::Ordering;

fn addr(b: u8) -> Address {
    Address { bytes: [b; 20] }
}

fn raw_token(b: u8) -> RawToken {
    RawToken { address: addr(b), symbol: format!("T{}", b), decimals: 18 }
}

fn raw(pair: u8, t0: u8, t1: u8) -> RawPair {
    RawPair { address: addr(pair), token0: raw_token(t0), token1: raw_token(t1) }
}

const WETH: u8 = 0xee;

#[test]
fn joins_pairs_listed_from_both_sides() {
    let pairs0 = vec![raw(0xa1, 0x11, WETH), raw(0xa2, 0x22, WETH), raw(0xa3, 0x11, 0x22)];
    let joined = join_pairs(&pairs0, &vec![addr(0xa3), addr(0xa1), addr(0xa9)]);
    let ids: Vec<Address> = joined.iter().map(|p| p.address).collect();
    assert_eq!(ids, vec![addr(0xa1), addr(0xa3)]);
}

#[test]
fn prices_tokens_on_their_weth_pair() {
    let pairs = vec![raw(0xa1, 0x11, WETH), raw(0xa2, WETH, 0x22), raw(0xa3, 0x11, 0x22), raw(0xa4, 0x33, 0x11)];
    assert_eq!(find_weth_pair(&pairs, &addr(WETH), &addr(0x11)), Some(addr(0xa1)));
    assert_eq!(find_weth_pair(&pairs, &addr(WETH), &addr(0x22)), Some(addr(0xa2)));
    assert_eq!(find_weth_pair(&pairs, &addr(WETH), &addr(0x33)), None);
    let (priced, dropped) = priced_pairs(&pairs, &addr(WETH));
    assert_eq!(dropped, 1);
    assert_eq!(priced.len(), 3);
    assert_eq!(priced[0].0, addr(0xa1));
    assert_eq!(priced[0].1.weth_uniswap_pair, Some(addr(0xa1)));
    assert_eq!(priced[0].2.weth_uniswap_pair, None);
    assert_eq!(priced[1].2.weth_uniswap_pair, Some(addr(0xa2)));
    assert_eq!(priced[2].1.weth_uniswap_pair, Some(addr(0xa1)));
    assert_eq!(priced[2].2.symbol, "T34");
}

#[test]
fn later_weth_pair_wins() {
    let pairs = vec![raw(0xa1, 0x11, WETH), raw(0xa5, 0x11, WETH)];
    assert_eq!(find_weth_pair(&pairs, &addr(WETH), &addr(0x11)), Some(addr(0xa5)));
}

fn token(b: u8) -> Token {
    Token { address: addr(b), symbol: format!("T{}", b), decimals: 18, weth_uniswap_pair: None }
}

#[test]
fn builds_registry_once_each() {
    let up = vec![(addr(0xa1), token(0x11), token(WETH)), (addr(0xa3), token(0x11), token(0x22))];
    let pools = vec![vec![addr(0xb1), addr(0xb2), addr(0xb1)], vec![addr(0xb1)]];
    let registry = build_pairs(&up, &pools);
    let tokens: Vec<Address> = registry.tokens.iter().map(|t| t.address).collect();
    assert_eq!(tokens, vec![addr(0x11), addr(0x22), addr(WETH)]);
    assert_eq!(
        registry.pairs,
        vec![
            Pair { balancer: addr(0xb1), uniswap: addr(0xa1), token0: addr(0x11), token1: addr(WETH) },
            Pair { balancer: addr(0xb1), uniswap: addr(0xa3), token0: addr(0x11), token1: addr(0x22) },
            Pair { balancer: addr(0xb2), uniswap: addr(0xa1), token0: addr(0x11), token1: addr(WETH) },
        ]
    );
    let short = build_pairs(&up, &vec![vec![addr(0xb1)]]);
    assert_eq!(short.pairs.len(), 1);
    assert_eq!(short.tokens.len(), 2);
}

#[test]
fn byte_order_is_lexicographic() {
    assert_eq!(compare_bytes(&[1, 2, 3], &[1, 2, 4]), Ordering::Less);
    assert_eq!(compare_bytes(&[1, 3], &[1, 2, 9]), Ordering::Greater);
    assert_eq!(compare_bytes(&[1, 2], &[1, 2, 0]), Ordering::Less);
    assert_eq!(compare_bytes(&[7, 7], &[7, 7]), Ordering::Equal);
    assert_eq!(compare_bytes(&[], &[]), Ordering::Equal);
}
