//! Building the registry from the pairs that the subgraphs list: keep the
//! pairs listed from both sides, price each token on its WETH pair, drop
//! the pairs with a token that has none, and collect tokens and pairs once
//! each.

use crate::order::{bytes_lt, compare_bytes, lemma_lt_irreflexive, lemma_lt_transitive};
use crate::registry::{Address, Pair, Pairs, Token};
use vstd::prelude::*;

verus! {

/// A token as a subgraph describes it.
#[derive(Clone, Debug)]
pub struct RawToken {
    pub address: Address,
    pub symbol: String,
    pub decimals: usize,
}

/// A constant-product pair as a subgraph describes it.
#[derive(Clone, Debug)]
pub struct RawPair {
    pub address: Address,
    pub token0: RawToken,
    pub token1: RawToken,
}

impl RawPair {
    /// A field-by-field copy.
    pub fn duplicate(&self) -> (r: RawPair)
        ensures
            r == *self,
    {
        RawPair {
            address: self.address,
            token0: RawToken {
                address: self.token0.address,
                symbol: self.token0.symbol.clone(),
                decimals: self.token0.decimals,
            },
            token1: RawToken {
                address: self.token1.address,
                symbol: self.token1.symbol.clone(),
                decimals: self.token1.decimals,
            },
        }
    }
}

/// `a` is one of `ids`.
pub open spec fn id_listed(ids: Seq<Address>, a: Seq<u8>) -> bool {
    exists|i: int| 0 <= i < ids.len() && ids[i]@ == a
}

/// The pairs of `s` whose address `ids` lists, in order.
pub open spec fn spec_join(s: Seq<RawPair>, ids: Seq<Address>) -> Seq<RawPair>
    decreases s.len(),
{
    if s.len() == 0 {
        s
    } else if id_listed(ids, s.last().address@) {
        spec_join(s.drop_last(), ids).push(s.last())
    } else {
        spec_join(s.drop_last(), ids)
    }
}

/// The pairs listed from both sides: those of `pairs0` whose address
/// `pairs1` lists too.
pub fn join_pairs(pairs0: &Vec<RawPair>, pairs1: &Vec<Address>) -> (r: Vec<RawPair>)
    ensures
        r@ == spec_join(pairs0@, pairs1@),
{
    let mut out: Vec<RawPair> = Vec::new();
    let mut i: usize = 0;
    while i < pairs0.len()
        invariant
            0 <= i <= pairs0@.len(),
            out@ == spec_join(pairs0@.subrange(0, i as int), pairs1@),
        decreases pairs0@.len() - i,
    {
        proof {
            let s = pairs0@.subrange(0, i + 1);
            assert(s.drop_last() =~= pairs0@.subrange(0, i as int));
            assert(s.last() == pairs0@[i as int]);
        }
        if crate::registry::contains_address(pairs1, &pairs0[i].address) {
            out.push(pairs0[i].duplicate());
        }
        i = i + 1;
    }
    assert(pairs0@.subrange(0, pairs0@.len() as int) =~= pairs0@);
    out
}

/// The pair that prices token `t` in WETH: the last pair of `s` that trades
/// `t` against `weth`.
pub open spec fn weth_pair_of(s: Seq<RawPair>, weth: Seq<u8>, t: Seq<u8>) -> Option<Address>
    decreases s.len(),
{
    if s.len() == 0 {
        None
    } else {
        let p = s.last();
        if (p.token0.address@ == weth && p.token1.address@ == t) || (p.token0.address@ != weth
            && p.token1.address@ == weth && p.token0.address@ == t) {
            Some(p.address)
        } else {
            weth_pair_of(s.drop_last(), weth, t)
        }
    }
}

/// Finds the pair that prices token `t` in WETH.
pub fn find_weth_pair(pairs: &Vec<RawPair>, weth: &Address, t: &Address) -> (r: Option<Address>)
    ensures
        r == weth_pair_of(pairs@, weth@, t@),
{
    let mut i: usize = pairs.len();
    assert(pairs@.subrange(0, i as int) =~= pairs@);
    while i > 0
        invariant
            0 <= i <= pairs@.len(),
            weth_pair_of(pairs@, weth@, t@) == weth_pair_of(pairs@.subrange(0, i as int), weth@, t@),
        decreases i,
    {
        proof {
            let s = pairs@.subrange(0, i as int);
            assert(s.drop_last() =~= pairs@.subrange(0, i - 1));
            assert(s.last() == pairs@[i - 1]);
        }
        let p = &pairs[i - 1];
        let a0 = p.token0.address.same(weth);
        let b0 = p.token1.address.same(t);
        let a1 = p.token1.address.same(weth);
        let b1 = p.token0.address.same(t);
        if (a0 && b0) || (!a0 && a1 && b1) {
            return Some(p.address);
        }
        i = i - 1;
    }
    None
}

/// The registry record of a token: WETH has no pricing pair; any other
/// token needs one, else `None`.
pub open spec fn price_token(all: Seq<RawPair>, weth: Seq<u8>, t: RawToken) -> Option<Token> {
    if t.address@ == weth {
        Some(Token { address: t.address, symbol: t.symbol, decimals: t.decimals, weth_uniswap_pair: None })
    } else {
        match weth_pair_of(all, weth, t.address@) {
            None => None,
            Some(p) => Some(
                Token {
                    address: t.address,
                    symbol: t.symbol,
                    decimals: t.decimals,
                    weth_uniswap_pair: Some(p),
                },
            ),
        }
    }
}

/// The pairs of `s` whose two tokens can be priced, with their records;
/// pricing looks at all the pairs `all`.
pub open spec fn spec_priced(all: Seq<RawPair>, s: Seq<RawPair>, weth: Seq<u8>) -> Seq<(Address, Token, Token)>
    decreases s.len(),
{
    if s.len() == 0 {
        Seq::empty()
    } else {
        let p = s.last();
        let rest = spec_priced(all, s.drop_last(), weth);
        match (price_token(all, weth, p.token0), price_token(all, weth, p.token1)) {
            (Some(t0), Some(t1)) => rest.push((p.address, t0, t1)),
            _ => rest,
        }
    }
}

fn make_token(all: &Vec<RawPair>, weth: &Address, t: &RawToken) -> (r: Option<Token>)
    ensures
        r == price_token(all@, weth@, *t),
{
    if t.address.same(weth) {
        return Some(
            Token { address: t.address, symbol: t.symbol.clone(), decimals: t.decimals, weth_uniswap_pair: None },
        );
    }
    match find_weth_pair(all, weth, &t.address) {
        None => None,
        Some(p) => Some(
            Token {
                address: t.address,
                symbol: t.symbol.clone(),
                decimals: t.decimals,
                weth_uniswap_pair: Some(p),
            },
        ),
    }
}

/// The pairs whose tokens are WETH or have a WETH pair, with their token
/// records, and how many pairs were dropped.
pub fn priced_pairs(pairs: &Vec<RawPair>, weth: &Address) -> (r: (Vec<(Address, Token, Token)>, usize))
    ensures
        r.0@ == spec_priced(pairs@, pairs@, weth@),
        r.0@.len() + r.1 == pairs@.len(),
{
    let mut out: Vec<(Address, Token, Token)> = Vec::new();
    let mut dropped: usize = 0;
    let mut i: usize = 0;
    while i < pairs.len()
        invariant
            0 <= i <= pairs@.len(),
            out@ == spec_priced(pairs@, pairs@.subrange(0, i as int), weth@),
            out@.len() + dropped == i,
        decreases pairs@.len() - i,
    {
        proof {
            let s = pairs@.subrange(0, i + 1);
            assert(s.drop_last() =~= pairs@.subrange(0, i as int));
            assert(s.last() == pairs@[i as int]);
        }
        let p = &pairs[i];
        match (make_token(pairs, weth, &p.token0), make_token(pairs, weth, &p.token1)) {
            (Some(t0), Some(t1)) => out.push((p.address, t0, t1)),
            _ => dropped = dropped + 1,
        }
        i = i + 1;
    }
    assert(pairs@.subrange(0, pairs@.len() as int) =~= pairs@);
    (out, dropped)
}

/// What identifies and orders a pair: its pool, its constant-product pair
/// and its tokens, byte after byte.
pub open spec fn pair_key(p: Pair) -> Seq<u8> {
    p.balancer@ + p.uniswap@ + p.token0@ + p.token1@
}

/// The pair of the `i`-th priced pair and the `k`-th pool found for it.
pub open spec fn joined_pair(
    uniswap_pairs: Seq<(Address, Token, Token)>,
    balancer_pools: Seq<Vec<Address>>,
    i: int,
    k: int,
) -> Pair {
    Pair {
        balancer: balancer_pools[i]@[k],
        uniswap: uniswap_pairs[i].0,
        token0: uniswap_pairs[i].1.address,
        token1: uniswap_pairs[i].2.address,
    }
}

/// `t` is a token of one of the first `n` priced pairs.
pub open spec fn input_token(uniswap_pairs: Seq<(Address, Token, Token)>, n: int, t: Token) -> bool {
    exists|i: int| 0 <= i < n && (uniswap_pairs[i].1 == t || uniswap_pairs[i].2 == t)
}

/// Pairs in strictly increasing order of their keys (so each key once).
pub open spec fn pairs_sorted(pairs: Seq<Pair>) -> bool {
    forall|a: int, b: int|
        0 <= a < b < pairs.len() ==> bytes_lt(pair_key(#[trigger] pairs[a]), pair_key(#[trigger] pairs[b]))
}

/// Tokens in strictly increasing order of their addresses (so each address
/// once).
pub open spec fn tokens_sorted(tokens: Seq<Token>) -> bool {
    forall|a: int, b: int|
        0 <= a < b < tokens.len() ==> bytes_lt((#[trigger] tokens[a]).address@, (#[trigger] tokens[b]).address@)
}

/// Whether `pairs` holds, in order, each joined pair of the first `n` priced
/// pairs once, and nothing else.
pub open spec fn pairs_ok(
    uniswap_pairs: Seq<(Address, Token, Token)>,
    balancer_pools: Seq<Vec<Address>>,
    n: int,
    pairs: Seq<Pair>,
) -> bool {
    &&& pairs_sorted(pairs)
    &&& forall|m: int| 0 <= m < pairs.len() ==> joined(uniswap_pairs, balancer_pools, n, #[trigger] pairs[m])
}

/// `p` is a joined pair of one of the first `n` priced pairs.
pub open spec fn joined(
    uniswap_pairs: Seq<(Address, Token, Token)>,
    balancer_pools: Seq<Vec<Address>>,
    n: int,
    p: Pair,
) -> bool {
    exists|i: int, k: int|
        0 <= i < n && 0 <= k < balancer_pools[i]@.len() && p == joined_pair(
            uniswap_pairs,
            balancer_pools,
            i,
            k,
        )
}

proof fn lemma_pairs_ok_grow(
    up: Seq<(Address, Token, Token)>,
    bp: Seq<Vec<Address>>,
    n: int,
    pairs: Seq<Pair>,
)
    requires
        pairs_ok(up, bp, n, pairs),
    ensures
        pairs_ok(up, bp, n + 1, pairs),
{
    assert forall|m: int| 0 <= m < pairs.len() implies joined(up, bp, n + 1, #[trigger] pairs[m]) by {
        assert(joined(up, bp, n, pairs[m]));
        let (i, k) = choose|i: int, k: int|
            0 <= i < n && 0 <= k < bp[i]@.len() && pairs[m] == joined_pair(up, bp, i, k);
        assert(0 <= i < n + 1 && 0 <= k < bp[i]@.len() && pairs[m] == joined_pair(up, bp, i, k));
    }
}

/// `pairs` holds a pair with the key of `p`.
pub open spec fn has_pair(pairs: Seq<Pair>, p: Pair) -> bool {
    exists|m: int| 0 <= m < pairs.len() && pair_key(pairs[m]) == pair_key(p)
}

/// `tokens` holds a token with address `a`.
pub open spec fn has_token(tokens: Seq<Token>, a: Seq<u8>) -> bool {
    exists|m: int| 0 <= m < tokens.len() && tokens[m].address@ == a
}

fn push_address_bytes(out: &mut Vec<u8>, a: &Address)
    ensures
        final(out)@ == old(out)@ + a@,
{
    let ghost start = out@;
    let mut i: usize = 0;
    while i < 20
        invariant
            0 <= i <= 20,
            a@.len() == 20,
            out@ == start + a@.subrange(0, i as int),
        decreases 20 - i,
    {
        out.push(a.bytes[i]);
        i = i + 1;
        assert(out@ =~= start + a@.subrange(0, i as int));
    }
    assert(a@.subrange(0, 20) =~= a@);
}

fn pair_key_bytes(p: &Pair) -> (r: Vec<u8>)
    ensures
        r@ == pair_key(*p),
{
    let mut out: Vec<u8> = Vec::new();
    push_address_bytes(&mut out, &p.balancer);
    push_address_bytes(&mut out, &p.uniswap);
    push_address_bytes(&mut out, &p.token0);
    push_address_bytes(&mut out, &p.token1);
    assert(out@ =~= pair_key(*p));
    out
}

/// Where `p` goes in sorted `pairs`: after every smaller key, and whether
/// its key is already there.
fn pair_position(pairs: &Vec<Pair>, p: &Pair) -> (r: (usize, bool))
    ensures
        r.0 <= pairs@.len(),
        forall|k: int| 0 <= k < r.0 ==> bytes_lt(pair_key(#[trigger] pairs@[k]), pair_key(*p)),
        r.1 ==> r.0 < pairs@.len() && pair_key(pairs@[r.0 as int]) == pair_key(*p),
        !r.1 ==> r.0 == pairs@.len() || bytes_lt(pair_key(*p), pair_key(pairs@[r.0 as int])),
{
    let key = pair_key_bytes(p);
    let mut i: usize = 0;
    while i < pairs.len()
        invariant
            0 <= i <= pairs@.len(),
            key@ == pair_key(*p),
            forall|k: int| 0 <= k < i ==> bytes_lt(pair_key(#[trigger] pairs@[k]), pair_key(*p)),
        decreases pairs@.len() - i,
    {
        let here = pair_key_bytes(&pairs[i]);
        match compare_bytes(here.as_slice(), key.as_slice()) {
            core::cmp::Ordering::Less => {},
            core::cmp::Ordering::Equal => return (i, true),
            core::cmp::Ordering::Greater => return (i, false),
        }
        i = i + 1;
    }
    (i, false)
}

/// Inserts `p` in its place in sorted `pairs`, unless its key is there.
#[verifier::rlimit(80)]
#[verifier::spinoff_prover]
fn insert_pair(pairs: &mut Vec<Pair>, p: Pair)
    requires
        pairs_sorted(old(pairs)@),
    ensures
        pairs_sorted(final(pairs)@),
        has_pair(final(pairs)@, p),
        forall|q: Pair| has_pair(final(pairs)@, q) <==> (has_pair(old(pairs)@, q) || pair_key(q) == pair_key(p)),
        forall|m: int|
            0 <= m < final(pairs)@.len() ==> (#[trigger] final(pairs)@[m] == p || exists|k: int|
                0 <= k < old(pairs)@.len() && old(pairs)@[k] == final(pairs)@[m]),
{
    let (i, found) = pair_position(pairs, &p);
    let ghost old_s = pairs@;
    if found {
        assert(pair_key(old_s[i as int]) == pair_key(p));
        assert forall|q: Pair| has_pair(pairs@, q) <==> (has_pair(old_s, q) || pair_key(q) == pair_key(p)) by {
            if pair_key(q) == pair_key(p) {
                assert(pair_key(old_s[i as int]) == pair_key(q));
            }
        }
        assert forall|m: int| 0 <= m < pairs@.len() implies (#[trigger] pairs@[m] == p || exists|k: int|
            0 <= k < old_s.len() && old_s[k] == pairs@[m]) by {
            assert(old_s[m] == pairs@[m]);
        }
        return;
    }
    pairs.insert(i, p);
    proof {
        let s = pairs@;
        assert(s == old_s.insert(i as int, p));
        assert(s[i as int] == p);
        assert forall|a: int, b: int| 0 <= a < b < s.len() implies bytes_lt(pair_key(#[trigger] s[a]), pair_key(#[trigger] s[b])) by {
            if b < i {
                assert(s[a] == old_s[a] && s[b] == old_s[b]);
            } else if b == i {
                assert(s[a] == old_s[a] && s[b] == p);
            } else if a < i {
                assert(s[a] == old_s[a] && s[b] == old_s[b - 1]);
                assert(bytes_lt(pair_key(old_s[a]), pair_key(old_s[b - 1])));
            } else if a == i {
                assert(s[a] == p && s[b] == old_s[b - 1]);
                if b - 1 > i {
                    assert(bytes_lt(pair_key(old_s[i as int]), pair_key(old_s[b - 1])));
                    lemma_lt_transitive(pair_key(p), pair_key(old_s[i as int]), pair_key(old_s[b - 1]));
                }
            } else {
                assert(s[a] == old_s[a - 1] && s[b] == old_s[b - 1]);
                assert(bytes_lt(pair_key(old_s[a - 1]), pair_key(old_s[b - 1])));
            }
        }
        assert forall|q: Pair| has_pair(s, q) <==> (has_pair(old_s, q) || pair_key(q) == pair_key(p)) by {
            if has_pair(old_s, q) {
                let k = choose|k: int| 0 <= k < old_s.len() && pair_key(old_s[k]) == pair_key(q);
                if k < i {
                    assert(s[k] == old_s[k]);
                } else {
                    assert(s[k + 1] == old_s[k]);
                }
            }
            if pair_key(q) == pair_key(p) {
                assert(s[i as int] == p);
            }
            if has_pair(s, q) {
                let m = choose|m: int| 0 <= m < s.len() && pair_key(s[m]) == pair_key(q);
                if m < i {
                    assert(s[m] == old_s[m]);
                } else if m > i {
                    assert(s[m] == old_s[m - 1]);
                }
            }
        }
        assert forall|m: int| 0 <= m < s.len() implies (#[trigger] s[m] == p || exists|k: int|
            0 <= k < old_s.len() && old_s[k] == s[m]) by {
            if m < i {
                assert(old_s[m] == s[m]);
            } else if m > i {
                assert(old_s[m - 1] == s[m]);
            }
        }
    }
}

/// Where a token with address `a` goes in sorted `tokens`, and whether the
/// address is already there.
fn token_position(tokens: &Vec<Token>, a: &Address) -> (r: (usize, bool))
    ensures
        r.0 <= tokens@.len(),
        forall|k: int| 0 <= k < r.0 ==> bytes_lt((#[trigger] tokens@[k]).address@, a@),
        r.1 ==> r.0 < tokens@.len() && tokens@[r.0 as int].address@ == a@,
        !r.1 ==> r.0 == tokens@.len() || bytes_lt(a@, tokens@[r.0 as int].address@),
{
    let mut i: usize = 0;
    while i < tokens.len()
        invariant
            0 <= i <= tokens@.len(),
            forall|k: int| 0 <= k < i ==> bytes_lt((#[trigger] tokens@[k]).address@, a@),
        decreases tokens@.len() - i,
    {
        match compare_bytes(tokens[i].address.bytes.as_slice(), a.bytes.as_slice()) {
            core::cmp::Ordering::Less => {},
            core::cmp::Ordering::Equal => return (i, true),
            core::cmp::Ordering::Greater => return (i, false),
        }
        i = i + 1;
    }
    (i, false)
}

/// Inserts a copy of `t` in its place in sorted `tokens`, unless its
/// address is there.
#[verifier::rlimit(80)]
#[verifier::spinoff_prover]
fn add_token(tokens: &mut Vec<Token>, t: &Token, Ghost(up): Ghost<Seq<(Address, Token, Token)>>, Ghost(n): Ghost<int>)
    requires
        tokens_sorted(old(tokens)@),
        forall|m: int| 0 <= m < old(tokens)@.len() ==> input_token(up, n, #[trigger] old(tokens)@[m]),
        input_token(up, n, *t),
    ensures
        tokens_sorted(final(tokens)@),
        forall|m: int| 0 <= m < final(tokens)@.len() ==> input_token(up, n, #[trigger] final(tokens)@[m]),
        has_token(final(tokens)@, t.address@),
        forall|a: Seq<u8>| has_token(old(tokens)@, a) ==> has_token(final(tokens)@, a),
{
    let (i, found) = token_position(tokens, &t.address);
    if found {
        return;
    }
    let ghost old_s = tokens@;
    tokens.insert(i, t.duplicate());
    proof {
        let s = tokens@;
        assert(s == old_s.insert(i as int, *t));
        assert forall|a: int, b: int| 0 <= a < b < s.len() implies bytes_lt((#[trigger] s[a]).address@, (#[trigger] s[b]).address@) by {
            if b < i {
                assert(s[a] == old_s[a] && s[b] == old_s[b]);
            } else if b == i {
                assert(s[a] == old_s[a] && s[b] == *t);
            } else if a < i {
                assert(s[a] == old_s[a] && s[b] == old_s[b - 1]);
                assert(bytes_lt(old_s[a].address@, old_s[b - 1].address@));
            } else if a == i {
                assert(s[a] == *t && s[b] == old_s[b - 1]);
                if b - 1 > i {
                    assert(bytes_lt(old_s[i as int].address@, old_s[b - 1].address@));
                    lemma_lt_transitive(t.address@, old_s[i as int].address@, old_s[b - 1].address@);
                }
            } else {
                assert(s[a] == old_s[a - 1] && s[b] == old_s[b - 1]);
                assert(bytes_lt(old_s[a - 1].address@, old_s[b - 1].address@));
            }
        }
        assert(s[i as int].address@ == t.address@);
        assert forall|a: Seq<u8>| has_token(old_s, a) implies has_token(s, a) by {
            let k = choose|k: int| 0 <= k < old_s.len() && old_s[k].address@ == a;
            if k < i {
                assert(s[k] == old_s[k]);
            } else {
                assert(s[k + 1] == old_s[k]);
            }
        }
        assert forall|m: int| 0 <= m < s.len() implies input_token(up, n, #[trigger] s[m]) by {
            if m < i {
                assert(s[m] == old_s[m]);
            } else if m > i {
                assert(s[m] == old_s[m - 1]);
            }
        }
    }
}

proof fn lemma_sorted_distinct(tokens: Seq<Token>)
    requires
        tokens_sorted(tokens),
    ensures
        forall|a: int, b: int| 0 <= a < b < tokens.len() ==> tokens[a].address@ != tokens[b].address@,
{
    assert forall|a: int, b: int| 0 <= a < b < tokens.len() implies tokens[a].address@ != tokens[b].address@ by {
        lemma_lt_irreflexive(tokens[a].address@);
        assert(bytes_lt(tokens[a].address@, tokens[b].address@));
    }
}

/// The registry of the priced pairs, each with the pools found for it:
/// their tokens once each, in order of address, and one pair per pool and
/// priced pair, once each, in order of pool, pair and tokens.
pub fn build_pairs(
    uniswap_pairs: &Vec<(Address, Token, Token)>,
    balancer_pools: &Vec<Vec<Address>>,
) -> (r: Pairs)
    ensures
        r.wf(),
        ({
            let n = if uniswap_pairs@.len() <= balancer_pools@.len() {
                uniswap_pairs@.len() as int
            } else {
                balancer_pools@.len() as int
            };
            &&& tokens_sorted(r.tokens@)
            &&& forall|m: int| 0 <= m < r.tokens@.len() ==> input_token(uniswap_pairs@, n, #[trigger] r.tokens@[m])
            &&& forall|i: int|
                0 <= i < n ==> has_token(r.tokens@, (#[trigger] uniswap_pairs@[i]).1.address@)
                    && has_token(r.tokens@, uniswap_pairs@[i].2.address@)
            &&& pairs_ok(uniswap_pairs@, balancer_pools@, n, r.pairs@)
            &&& forall|i: int, k: int|
                0 <= i < n && 0 <= k < balancer_pools@[i]@.len() ==> has_pair(
                    r.pairs@,
                    #[trigger] joined_pair(uniswap_pairs@, balancer_pools@, i, k),
                )
        }),
{
    let n: usize = if uniswap_pairs.len() <= balancer_pools.len() {
        uniswap_pairs.len()
    } else {
        balancer_pools.len()
    };
    let ghost up = uniswap_pairs@;
    let ghost bp = balancer_pools@;
    let mut tokens: Vec<Token> = Vec::new();
    let mut pairs: Vec<Pair> = Vec::new();
    let mut i: usize = 0;
    while i < n
        invariant
            0 <= i <= n,
            n <= up.len() && n <= bp.len(),
            up == uniswap_pairs@,
            bp == balancer_pools@,
            tokens_sorted(tokens@),
            forall|m: int| 0 <= m < tokens@.len() ==> input_token(up, n as int, #[trigger] tokens@[m]),
            forall|j: int|
                0 <= j < i ==> has_token(tokens@, (#[trigger] up[j]).1.address@) && has_token(
                    tokens@,
                    up[j].2.address@,
                ),
            pairs_ok(up, bp, i as int, pairs@),
            forall|j: int, k: int|
                0 <= j < i && 0 <= k < bp[j]@.len() ==> has_pair(pairs@, #[trigger] joined_pair(up, bp, j, k)),
        decreases n - i,
    {
        let (uniswap, token0, token1) = (&uniswap_pairs[i].0, &uniswap_pairs[i].1, &uniswap_pairs[i].2);
        let pools = &balancer_pools[i];
        proof {
            lemma_pairs_ok_grow(up, bp, i as int, pairs@);
        }
        let mut k: usize = 0;
        while k < pools.len()
            invariant
                0 <= k <= pools@.len(),
                i < n,
                n <= up.len() && n <= bp.len(),
                up == uniswap_pairs@,
                bp == balancer_pools@,
                pools@ == bp[i as int]@,
                *uniswap == up[i as int].0 && *token0 == up[i as int].1 && *token1 == up[i as int].2,
                pairs_ok(up, bp, i + 1, pairs@),
                forall|j: int, q: int|
                    0 <= j < i && 0 <= q < bp[j]@.len() ==> has_pair(pairs@, #[trigger] joined_pair(up, bp, j, q)),
                forall|q: int| 0 <= q < k ==> has_pair(pairs@, #[trigger] joined_pair(up, bp, i as int, q)),
            decreases pools@.len() - k,
        {
            let p = Pair { balancer: pools[k], uniswap: *uniswap, token0: token0.address, token1: token1.address };
            assert(p == joined_pair(up, bp, i as int, k as int));
            let ghost prev = pairs@;
            insert_pair(&mut pairs, p);
            proof {
                assert forall|m: int| 0 <= m < pairs@.len() implies joined(up, bp, i + 1, #[trigger] pairs@[m]) by {
                    if pairs@[m] != p {
                        let q = choose|q: int| 0 <= q < prev.len() && prev[q] == pairs@[m];
                        assert(joined(up, bp, i + 1, prev[q]));
                    }
                }
                assert(has_pair(pairs@, p));
            }
            k = k + 1;
        }
        proof {
            assert forall|j: int, q: int|
                0 <= j < i + 1 && 0 <= q < bp[j]@.len() implies has_pair(pairs@, #[trigger] joined_pair(up, bp, j, q)) by {
                if j == i {
                    assert(has_pair(pairs@, joined_pair(up, bp, i as int, q)));
                }
            }
        }
        add_token(&mut tokens, token0, Ghost(up), Ghost(n as int));
        add_token(&mut tokens, token1, Ghost(up), Ghost(n as int));
        i = i + 1;
    }
    proof {
        lemma_sorted_distinct(tokens@);
    }
    Pairs { tokens, pairs }
}

} // verus!
