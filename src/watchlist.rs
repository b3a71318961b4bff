//! What the engine reads at each block, planned once from the registry: the
//! distinct pairs and pools, and the arbitrage pairs with their tokens.

use crate::evaluate::ArbitragePair;
use crate::registry::{contains_address, find_token, is_address, spec_find_token, Address, Pair, Pairs, Token};
use vstd::prelude::*;

verus! {

/// No two entries share an address.
pub open spec fn distinct_keys<V>(s: Seq<(Address, V)>) -> bool {
    forall|i: int, j: int| 0 <= i < j < s.len() ==> s[i].0@ != s[j].0@
}

/// Some entry has address `a`.
pub open spec fn has_key<V>(s: Seq<(Address, V)>, a: Seq<u8>) -> bool {
    exists|i: int| 0 <= i < s.len() && s[i].0@ == a
}

/// The position of the entry with address `a`.
pub fn index_of<V>(s: &Vec<(Address, V)>, a: &Address) -> (r: Option<usize>)
    ensures
        match r {
            Some(i) => i < s@.len() && s@[i as int].0@ == a@,
            None => !has_key(s@, a@),
        },
{
    let mut i: usize = 0;
    while i < s.len()
        invariant
            0 <= i <= s@.len(),
            forall|j: int| 0 <= j < i ==> s@[j].0@ != a@,
        decreases s@.len() - i,
    {
        if s[i].0.same(a) {
            return Some(i);
        }
        i = i + 1;
    }
    None
}

/// Some pair of `pairs` trades on the constant-product pair `a`.
pub open spec fn pair_uses(pairs: Seq<Pair>, a: Seq<u8>) -> bool {
    exists|j: int| 0 <= j < pairs.len() && pairs[j].uniswap@ == a
}

/// Some token of `tokens` is priced on the pair `a`.
pub open spec fn prices_on(tokens: Seq<Token>, a: Seq<u8>) -> bool {
    exists|k: int| 0 <= k < tokens.len() && is_address(tokens[k].weth_uniswap_pair, a)
}

/// Whether an entry of the constant-product plan is right: one that the
/// arbitrage pairs use, with the `token0` of such a pair, or one that only
/// prices a token, whose `token0` is still to be read.
pub open spec fn uniswap_entry_ok(
    pairs: Seq<Pair>,
    tokens: Seq<Token>,
    e: (Address, Option<Address>),
) -> bool {
    match e.1 {
        Some(t0) => exists|j: int|
            0 <= j < pairs.len() && pairs[j].uniswap@ == e.0@ && pairs[j].token0 == t0,
        None => !pair_uses(pairs, e.0@) && prices_on(tokens, e.0@),
    }
}

/// The distinct constant-product pairs to read at each block: those of the
/// arbitrage pairs, with their `token0`, then those that price a profit
/// token in WETH and are not among them.
pub fn uniswap_sources(registry: &Pairs) -> (r: Vec<(Address, Option<Address>)>)
    ensures
        distinct_keys(r@),
        forall|j: int|
            0 <= j < registry.pairs@.len() ==> has_key(r@, #[trigger] registry.pairs@[j].uniswap@),
        forall|k: int|
            0 <= k < registry.tokens@.len() && (#[trigger] registry.tokens@[k]).weth_uniswap_pair
                is Some ==> has_key(r@, registry.tokens@[k].weth_uniswap_pair->0@),
        forall|m: int|
            0 <= m < r@.len() ==> uniswap_entry_ok(
                registry.pairs@,
                registry.tokens@,
                #[trigger] r@[m],
            ),
{
    let pairs = &registry.pairs;
    let tokens = &registry.tokens;
    let mut out: Vec<(Address, Option<Address>)> = Vec::new();
    let mut i: usize = 0;
    while i < pairs.len()
        invariant
            0 <= i <= pairs@.len(),
            distinct_keys(out@),
            forall|j: int| 0 <= j < i ==> has_key(out@, #[trigger] pairs@[j].uniswap@),
            forall|m: int|
                0 <= m < out@.len() ==> (#[trigger] out@[m]).1 is Some && exists|j: int|
                    0 <= j < pairs@.len() && pairs@[j].uniswap@ == out@[m].0@ && pairs@[j].token0
                        == out@[m].1->0,
        decreases pairs@.len() - i,
    {
        let p = pairs[i];
        if index_of(&out, &p.uniswap).is_none() {
            let ghost prev = out@;
            out.push((p.uniswap, Some(p.token0)));
            proof {
                assert forall|j: int| 0 <= j < i implies has_key(out@, #[trigger] pairs@[j].uniswap@) by {
                    let m = choose|m: int| 0 <= m < prev.len() && prev[m].0@ == pairs@[j].uniswap@;
                    assert(out@[m] == prev[m]);
                }
                assert(out@[prev.len() as int].0@ == pairs@[i as int].uniswap@);
            }
        }
        i = i + 1;
    }
    let mut k: usize = 0;
    while k < tokens.len()
        invariant
            0 <= k <= tokens@.len(),
            pairs == &registry.pairs,
            tokens == &registry.tokens,
            distinct_keys(out@),
            forall|j: int| 0 <= j < pairs@.len() ==> has_key(out@, #[trigger] pairs@[j].uniswap@),
            forall|q: int|
                0 <= q < k && (#[trigger] tokens@[q]).weth_uniswap_pair is Some ==> has_key(
                    out@,
                    tokens@[q].weth_uniswap_pair->0@,
                ),
            forall|m: int| 0 <= m < out@.len() ==> uniswap_entry_ok(pairs@, tokens@, #[trigger] out@[m]),
        decreases tokens@.len() - k,
    {
        if let Some(w) = tokens[k].weth_uniswap_pair {
            if index_of(&out, &w).is_none() {
                let ghost prev = out@;
                out.push((w, None));
                proof {
                    assert forall|j: int| 0 <= j < pairs@.len() implies has_key(
                        out@,
                        #[trigger] pairs@[j].uniswap@,
                    ) by {
                        let m = choose|m: int| 0 <= m < prev.len() && prev[m].0@ == pairs@[j].uniswap@;
                        assert(out@[m] == prev[m]);
                    }
                    assert forall|q: int|
                        0 <= q < k + 1 && (#[trigger] tokens@[q]).weth_uniswap_pair is Some implies has_key(
                            out@,
                            tokens@[q].weth_uniswap_pair->0@,
                        ) by {
                        if q < k {
                            let w2 = tokens@[q].weth_uniswap_pair->0;
                            let m = choose|m: int| 0 <= m < prev.len() && prev[m].0@ == w2@;
                            assert(out@[m] == prev[m]);
                        } else {
                            assert(out@[prev.len() as int].0@ == w@);
                        }
                    }
                    assert(!pair_uses(pairs@, w@)) by {
                        if pair_uses(pairs@, w@) {
                            let j = choose|j: int| 0 <= j < pairs@.len() && pairs@[j].uniswap@ == w@;
                            assert(has_key(prev, pairs@[j].uniswap@));
                        }
                    }
                    assert(prices_on(tokens@, w@));
                    assert(uniswap_entry_ok(pairs@, tokens@, out@[prev.len() as int]));
                }
            }
        }
        k = k + 1;
    }
    out
}

/// `a` is one of `list`.
pub open spec fn listed(list: Seq<Address>, a: Seq<u8>) -> bool {
    exists|i: int| 0 <= i < list.len() && list[i]@ == a
}

/// Whether `list` holds each token of the pairs on `pool` once, and nothing
/// else.
#[verifier::opaque]
pub open spec fn pool_tokens_ok(pairs: Seq<Pair>, pool: Seq<u8>, list: Seq<Address>) -> bool {
    &&& forall|i: int, j: int| 0 <= i < j < list.len() ==> list[i]@ != list[j]@
    &&& forall|j: int|
        0 <= j < pairs.len() && (#[trigger] pairs[j]).balancer@ == pool ==> listed(
            list,
            pairs[j].token0@,
        ) && listed(list, pairs[j].token1@)
    &&& forall|i: int| 0 <= i < list.len() ==> from_pool(pairs, pool, (#[trigger] list[i])@)
}

/// `x` is a token of some pair on `pool`.
pub open spec fn from_pool(pairs: Seq<Pair>, pool: Seq<u8>, x: Seq<u8>) -> bool {
    exists|j: int|
        0 <= j < pairs.len() && pairs[j].balancer@ == pool && (pairs[j].token0@ == x
            || pairs[j].token1@ == x)
}

fn push_new(list: &mut Vec<Address>, a: Address)
    ensures
        listed(final(list)@, a@),
        forall|x: Seq<u8>| listed(final(list)@, x) <==> (listed(old(list)@, x) || x == a@),
        (forall|i: int, j: int| 0 <= i < j < old(list)@.len() ==> old(list)@[i]@ != old(list)@[j]@)
            ==> (forall|i: int, j: int|
            0 <= i < j < final(list)@.len() ==> final(list)@[i]@ != final(list)@[j]@),
        forall|i: int| 0 <= i < final(list)@.len() ==> (listed(old(list)@, (#[trigger] final(list)@[i])@)
            || final(list)@[i]@ == a@),
{
    if !contains_address(list, &a) {
        let ghost prev = list@;
        list.push(a);
        proof {
            assert(list@[prev.len() as int]@ == a@);
            assert forall|x: Seq<u8>| listed(list@, x) <==> (listed(prev, x) || x == a@) by {
                if listed(prev, x) {
                    let i = choose|i: int| 0 <= i < prev.len() && prev[i]@ == x;
                    assert(list@[i] == prev[i]);
                }
                if x == a@ {
                    assert(list@[prev.len() as int]@ == x);
                }
                if listed(list@, x) {
                    let i = choose|i: int| 0 <= i < list@.len() && list@[i]@ == x;
                    if i < prev.len() {
                        assert(prev[i] == list@[i]);
                    }
                }
            }
            assert forall|i: int| 0 <= i < list@.len() implies (listed(prev, (#[trigger] list@[i])@)
                || list@[i]@ == a@) by {
                if i < prev.len() {
                    assert(prev[i] == list@[i]);
                }
            }
        }
    } else {
        assert forall|i: int| 0 <= i < list@.len() implies (listed(old(list)@, (#[trigger] list@[i])@)
            || list@[i]@ == a@) by {
            assert(old(list)@[i] == list@[i]);
        }
    }
}

/// The tokens of the pairs on `pool`, each once.
pub fn pool_tokens(pairs: &Vec<Pair>, pool: &Address) -> (r: Vec<Address>)
    ensures
        pool_tokens_ok(pairs@, pool@, r@),
{
    let mut list: Vec<Address> = Vec::new();
    let mut j: usize = 0;
    while j < pairs.len()
        invariant
            0 <= j <= pairs@.len(),
            forall|a: int, b: int| 0 <= a < b < list@.len() ==> list@[a]@ != list@[b]@,
            forall|q: int|
                0 <= q < j && (#[trigger] pairs@[q]).balancer@ == pool@ ==> listed(
                    list@,
                    pairs@[q].token0@,
                ) && listed(list@, pairs@[q].token1@),
            forall|i: int| 0 <= i < list@.len() ==> from_pool(pairs@, pool@, (#[trigger] list@[i])@),
        decreases pairs@.len() - j,
    {
        let p = pairs[j];
        if p.balancer.same(pool) {
            let ghost l0 = list@;
            push_new(&mut list, p.token0);
            let ghost l1 = list@;
            push_new(&mut list, p.token1);
            proof {
                assert forall|i: int| 0 <= i < list@.len() implies from_pool(
                    pairs@,
                    pool@,
                    (#[trigger] list@[i])@,
                ) by {
                    let x = list@[i]@;
                    if listed(l0, x) {
                        let k = choose|k: int| 0 <= k < l0.len() && l0[k]@ == x;
                        assert(from_pool(pairs@, pool@, l0[k]@));
                    } else {
                        assert(listed(list@, x));
                        assert(pairs@[j as int].balancer@ == pool@);
                        assert(pairs@[j as int].token0@ == x || pairs@[j as int].token1@ == x);
                    }
                }
            }
        }
        j = j + 1;
    }
    proof {
        reveal(pool_tokens_ok);
    }
    list
}

/// The distinct weighted pools to read at each block, each with the tokens
/// of the pairs on it.
pub fn balancer_sources(registry: &Pairs) -> (r: Vec<(Address, Vec<Address>)>)
    ensures
        distinct_keys(r@),
        forall|j: int|
            0 <= j < registry.pairs@.len() ==> has_key(r@, #[trigger] registry.pairs@[j].balancer@),
        forall|m: int|
            0 <= m < r@.len() ==> pool_tokens_ok(registry.pairs@, (#[trigger] r@[m]).0@, r@[m].1@),
{
    let pairs = &registry.pairs;
    let mut out: Vec<(Address, Vec<Address>)> = Vec::new();
    let mut i: usize = 0;
    while i < pairs.len()
        invariant
            0 <= i <= pairs@.len(),
            pairs == &registry.pairs,
            distinct_keys(out@),
            forall|j: int| 0 <= j < i ==> has_key(out@, #[trigger] pairs@[j].balancer@),
            forall|m: int| 0 <= m < out@.len() ==> pool_tokens_ok(pairs@, (#[trigger] out@[m]).0@, out@[m].1@),
        decreases pairs@.len() - i,
    {
        let p = pairs[i];
        if index_of(&out, &p.balancer).is_none() {
            let tokens = pool_tokens(pairs, &p.balancer);
            let ghost prev = out@;
            out.push((p.balancer, tokens));
            proof {
                assert forall|j: int| 0 <= j < i implies has_key(out@, #[trigger] pairs@[j].balancer@) by {
                    let m = choose|m: int| 0 <= m < prev.len() && prev[m].0@ == pairs@[j].balancer@;
                    assert(out@[m] == prev[m]);
                }
                assert(out@[prev.len() as int].0@ == pairs@[i as int].balancer@);
                assert forall|m: int| 0 <= m < out@.len() implies pool_tokens_ok(
                    pairs@,
                    (#[trigger] out@[m]).0@,
                    out@[m].1@,
                ) by {
                    if m < prev.len() {
                        assert(out@[m] == prev[m]);
                    }
                }
            }
        }
        i = i + 1;
    }
    out
}

/// Each pair of the registry with its token records and WETH's; `None`
/// when a token is not in the registry.
pub fn arbitrage_pairs(registry: &Pairs, weth: &Address) -> (r: Option<Vec<ArbitragePair>>)
    ensures
        match r {
            Some(v) => {
                &&& v@.len() == registry.pairs@.len()
                &&& spec_find_token(registry.tokens@, weth@) is Some
                &&& forall|i: int|
                    0 <= i < v@.len() ==> {
                        let p = registry.pairs@[i];
                        &&& (#[trigger] v@[i]).balancer_pool == p.balancer
                        &&& v@[i].uniswap_pair == p.uniswap
                        &&& spec_find_token(registry.tokens@, p.token0@) == Some(v@[i].token0)
                        &&& spec_find_token(registry.tokens@, p.token1@) == Some(v@[i].token1)
                        &&& spec_find_token(registry.tokens@, weth@) == Some(v@[i].weth)
                    }
            },
            None => spec_find_token(registry.tokens@, weth@) is None || exists|i: int|
                0 <= i < registry.pairs@.len() && (spec_find_token(
                    registry.tokens@,
                    (#[trigger] registry.pairs@[i]).token0@,
                ) is None || spec_find_token(registry.tokens@, registry.pairs@[i].token1@) is None),
        },
{
    let weth_token = match find_token(&registry.tokens, weth) {
        Some(t) => t,
        None => return None,
    };
    let mut out: Vec<ArbitragePair> = Vec::new();
    let mut i: usize = 0;
    while i < registry.pairs.len()
        invariant
            0 <= i <= registry.pairs@.len(),
            out@.len() == i,
            spec_find_token(registry.tokens@, weth@) == Some(weth_token),
            forall|k: int|
                0 <= k < i ==> {
                    let p = registry.pairs@[k];
                    &&& (#[trigger] out@[k]).balancer_pool == p.balancer
                    &&& out@[k].uniswap_pair == p.uniswap
                    &&& spec_find_token(registry.tokens@, p.token0@) == Some(out@[k].token0)
                    &&& spec_find_token(registry.tokens@, p.token1@) == Some(out@[k].token1)
                    &&& out@[k].weth == weth_token
                },
        decreases registry.pairs@.len() - i,
    {
        let p = registry.pairs[i];
        let token0 = match find_token(&registry.tokens, &p.token0) {
            Some(t) => t,
            None => return None,
        };
        let token1 = match find_token(&registry.tokens, &p.token1) {
            Some(t) => t,
            None => return None,
        };
        out.push(
            ArbitragePair {
                balancer_pool: p.balancer,
                uniswap_pair: p.uniswap,
                token0,
                token1,
                weth: weth_token.duplicate(),
            },
        );
        i = i + 1;
    }
    Some(out)
}

} // verus!
