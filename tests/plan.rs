use pooller::abi::{
    address_at, amounts_out_calldata, call_with_address, call_with_words, call_without_arguments,
    perform_calldata, word_at,
};
use pooller::amount::U256;
use pooller::evaluate::{min_required_profit, split_amount, Block, Config};
use pooller::gate::PerformCall;
use pooller::heads::HeadSource;
use pooller::registry::{find_token, Address, Pair, Pairs, Token};
use pooller::watchlist::{arbitrage_pairs, balancer_sources, pool_tokens, uniswap_sources};

fn u(x: u128) -> U256 {
    U256::from(x)
}

fn addr(b: u8) -> Address {
    Address { bytes: [b; 20] }
}

fn token(b: u8, weth_pair: Option<u8>) -> Token {
    Token { address: addr(b), symbol: format!("T{}", b), decimals: 6, weth_uniswap_pair: weth_pair.map(addr) }
}

fn pair(balancer: u8, uniswap: u8, t0: u8, t1: u8) -> Pair {
    Pair { balancer: addr(balancer), uniswap: addr(uniswap), token0: addr(t0), token1: addr(t1) }
}

fn registry() -> Pairs {
    Pairs {
        tokens: vec![token(0xee, None), token(0x11, Some(0xa1)), token(0x22, Some(0xa9))],
        pairs: vec![
            pair(0xb1, 0xa1, 0x11, 0xee),
            pair(0xb1, 0xa2, 0x11, 0x22),
            pair(0xb2, 0xa1, 0x11, 0xee),
        ],
    }
}

#[test]
fn uniswap_sources_are_distinct() {
    let sources = uniswap_sources(&registry());
    assert_eq!(
        sources,
        vec![(addr(0xa1), Some(addr(0x11))), (addr(0xa2), Some(addr(0x11))), (addr(0xa9), None)]
    );
}

#[test]
fn balancer_sources_collect_tokens() {
    let sources = balancer_sources(&registry());
    assert_eq!(sources.len(), 2);
    assert_eq!(sources[0], (addr(0xb1), vec![addr(0x11), addr(0xee), addr(0x22)]));
    assert_eq!(sources[1], (addr(0xb2), vec![addr(0x11), addr(0xee)]));
    assert!(pool_tokens(&registry().pairs, &addr(0xb3)).is_empty());
}

#[test]
fn arbitrage_pairs_resolve_tokens() {
    let r = registry();
    let pairs = arbitrage_pairs(&r, &addr(0xee)).unwrap();
    assert_eq!(pairs.len(), 3);
    assert_eq!(pairs[1].token1.symbol, "T34");
    assert_eq!(pairs[2].balancer_pool, addr(0xb2));
    assert_eq!(pairs[0].weth.address, addr(0xee));
    assert!(arbitrage_pairs(&r, &addr(0x99)).is_none());
    let mut broken = registry();
    broken.pairs.push(pair(0xb1, 0xa1, 0x11, 0x55));
    assert!(arbitrage_pairs(&broken, &addr(0xee)).is_none());
    assert_eq!(find_token(&r.tokens, &addr(0x22)).unwrap().symbol, "T34");
    assert!(find_token(&r.tokens, &addr(0x23)).is_none());
}

#[test]
fn head_source_coalesces() {
    let mut s = HeadSource::new();
    assert_eq!(s.on_head(1), None);
    assert_eq!(s.on_head(2), None);
    assert_eq!(s.on_request(), Some(2));
    assert_eq!(s.on_request(), None);
    assert_eq!(s.on_head(3), Some(3));
    assert_eq!(s.on_head(4), None);
    assert!(s.running());
    s.on_close();
    assert!(!s.running());
    assert_eq!(s.on_request(), Some(4));
}

#[test]
fn call_data_words() {
    assert_eq!(call_without_arguments([1, 2, 3, 4]), vec![1, 2, 3, 4]);
    let data = call_with_address([9, 9, 9, 9], &addr(0x42));
    assert_eq!(data.len(), 36);
    assert_eq!(&data[4..16], &[0u8; 12]);
    assert_eq!(&data[16..36], &[0x42u8; 20]);
    let mut answer = vec![0u8; 64];
    answer[31] = 7;
    answer[62] = 1;
    assert_eq!(word_at(&answer, 0), Some(u(7)));
    assert_eq!(word_at(&answer, 1), Some(u(256)));
    assert_eq!(word_at(&answer, 2), None);
    assert_eq!(address_at(&data[4..].to_vec(), 0), Some(addr(0x42)));
    answer[0] = 1;
    assert_eq!(address_at(&answer, 0), None);
}

#[test]
fn perform_call_data() {
    let call = PerformCall {
        borrow: 1,
        amount: u(0x0102),
        uniswap_pair: addr(0xa1),
        balancer_pool: addr(0xb1),
        token0: addr(0x11),
        token1: addr(0x22),
        reserve0: u(3),
        reserve1: u(4),
        balance0: u(5),
        balance1: u(6),
    };
    let data = perform_calldata([0xde, 0xad, 0xbe, 0xef], &call);
    assert_eq!(data.len(), 324);
    assert_eq!(&data[0..4], &[0xde, 0xad, 0xbe, 0xef]);
    let words: Vec<U256> = (0..10).map(|i| word_at(&data[4..].to_vec(), i).unwrap()).collect();
    assert_eq!(words[0], u(1));
    assert_eq!(words[1], u(0x0102));
    assert_eq!(address_at(&data[4..].to_vec(), 2), Some(addr(0xa1)));
    assert_eq!(address_at(&data[4..].to_vec(), 5), Some(addr(0x22)));
    assert_eq!(&words[6..], &[u(3), u(4), u(5), u(6)]);
}

#[test]
fn amounts_split_at_the_decimal_point() {
    assert_eq!(split_amount(u(1_234_567), 6), (u(1), u(234_567)));
    assert_eq!(split_amount(u(1_234_567), 0), (u(1_234_567), u(0)));
    let big = u(5 * 10u128.pow(36) + 17);
    assert_eq!(split_amount(big, 36), (u(5), u(17)));
}

#[test]
fn required_profit() {
    let block = Block { number: 1, gas_price: u(10_000_000_000), balance: u(0), nonce: u(0) };
    let expected = 10_000_000_000_000_000u128 + 2 * 10_000_000_000 * 350_000;
    assert_eq!(min_required_profit(&block, &Config::standard()), Some(u(expected)));
    let huge = Block { number: 1, gas_price: U256 { words: [0, 0, 0, 1 << 62] }, balance: u(0), nonce: u(0) };
    assert_eq!(min_required_profit(&huge, &Config::standard()), None);
}

#[test]
fn words_call_data() {
    let data = call_with_words([1, 2, 3, 4], &vec![u(5), u(6)]);
    assert_eq!(data.len(), 68);
    assert_eq!(word_at(&data[4..].to_vec(), 1), Some(u(6)));
    let quote = amounts_out_calldata([1, 2, 3, 4], u(9), &addr(0x11), &addr(0x22));
    let body = quote[4..].to_vec();
    assert_eq!(word_at(&body, 0), Some(u(9)));
    assert_eq!(word_at(&body, 1), Some(u(64)));
    assert_eq!(word_at(&body, 2), Some(u(2)));
    assert_eq!(address_at(&body, 3), Some(addr(0x11)));
    assert_eq!(address_at(&body, 4), Some(addr(0x22)));
}
