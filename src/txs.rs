//! Decoding of mempool transactions sent to the pair router or to a
//! weighted pool, and the test of whether one trades against a candidate.

use crate::amount::U256;
use crate::registry::{find_token, is_address, spec_find_token, contains_address, Address, Token};
use vstd::prelude::*;

verus! {

/// A 32-byte transaction hash.
#[derive(Clone, Copy, Debug, PartialEq, Eq, Hash)]
pub struct TxHash {
    pub bytes: [u8; 32],
}

/// The parts of a transaction that the decoder reads.
#[derive(Clone, Debug)]
pub struct Transaction {
    pub to: Option<Address>,
    pub input: Vec<u8>,
    pub gas_price: U256,
    pub hash: TxHash,
}

#[derive(Clone, Copy, Debug, PartialEq, Eq)]
pub enum UniswapSwapMethod {
    ExactTokensForTokens,
    ExactETHForTokens,
    ExactTokensForETH,
    TokensForExactTokens,
    TokensForExactETH,
    ETHForExactTokens,
}

#[derive(Clone, Copy, Debug, PartialEq, Eq)]
pub enum BalancerSwapMethod {
    ExactAmountOut,
    ExactAmountIn,
}

/// How a pending swap relates to a candidate's direction.
#[derive(Clone, Copy, Debug, PartialEq, Eq)]
pub enum SwapMatch {
    OppositeDirection,
    SameDirection,
}

/// A router swap: its method and its token path, a slot per hop, `None`
/// where the address is unknown or malformed.
#[derive(Debug)]
pub struct UniswapSwap {
    pub method: UniswapSwapMethod,
    pub tokens: Vec<Option<Token>>,
    pub gas_price: U256,
    pub tx_hash: TxHash,
}

/// A weighted-pool swap.
#[derive(Debug)]
pub struct BalancerSwap {
    pub method: BalancerSwapMethod,
    pub token_in: Option<Token>,
    pub token_out: Option<Token>,
    pub gas_price: U256,
    pub tx_hash: TxHash,
    pub pool: Address,
}

#[derive(Debug)]
pub enum Swap {
    UniswapSwap(UniswapSwap),
    BalancerSwap(BalancerSwap),
}

/// The router method that a selector names, with the slot (counted from
/// one) where its token path begins.
pub open spec fn spec_uniswap_method(b0: u8, b1: u8, b2: u8, b3: u8) -> Option<
    (UniswapSwapMethod, nat),
> {
    if (b0, b1, b2, b3) == (0x88u8, 0x03u8, 0xdbu8, 0xeeu8) {
        Some((UniswapSwapMethod::TokensForExactTokens, 7))
    } else if (b0, b1, b2, b3) == (0x38u8, 0xedu8, 0x17u8, 0x39u8) {
        Some((UniswapSwapMethod::ExactTokensForTokens, 7))
    } else if (b0, b1, b2, b3) == (0x4au8, 0x25u8, 0xd9u8, 0x4au8) {
        Some((UniswapSwapMethod::TokensForExactETH, 7))
    } else if (b0, b1, b2, b3) == (0x18u8, 0xcbu8, 0xafu8, 0xe5u8) {
        Some((UniswapSwapMethod::ExactTokensForETH, 7))
    } else if (b0, b1, b2, b3) == (0xfbu8, 0x3bu8, 0xdbu8, 0x41u8) {
        Some((UniswapSwapMethod::ETHForExactTokens, 6))
    } else if (b0, b1, b2, b3) == (0x7fu8, 0xf3u8, 0x6au8, 0xb5u8) {
        Some((UniswapSwapMethod::ExactETHForTokens, 6))
    } else {
        None
    }
}

/// The weighted-pool method that a selector names.
pub open spec fn spec_balancer_method(b0: u8, b1: u8, b2: u8, b3: u8) -> Option<
    BalancerSwapMethod,
> {
    if (b0, b1, b2, b3) == (0x82u8, 0x01u8, 0xaau8, 0x3fu8) {
        Some(BalancerSwapMethod::ExactAmountIn)
    } else if (b0, b1, b2, b3) == (0x7cu8, 0x5eu8, 0x9eu8, 0xa4u8) {
        Some(BalancerSwapMethod::ExactAmountOut)
    } else {
        None
    }
}

/// Whether `input[start..start + n]` is all zero bytes.
pub open spec fn zero_run(input: Seq<u8>, start: int, n: int) -> bool {
    forall|j: int| start <= j < start + n ==> input[j] == 0
}

/// The token of an address slot at byte `start`: twelve zero bytes, then
/// the address; `None` for a non-zero prefix or an unknown address.
pub open spec fn slot_token(input: Seq<u8>, start: int, tokens: Seq<Token>) -> Option<Token> {
    if zero_run(input, start, 12) {
        spec_find_token(tokens, input.subrange(start + 12, start + 32))
    } else {
        None
    }
}

/// The number of 32-byte slots after the selector.
pub open spec fn slot_count(input: Seq<u8>) -> int {
    (input.len() - 4) / 32
}

/// The token path of a router call: one entry per slot from slot `first`
/// (counted from zero) on.
pub open spec fn uniswap_path(input: Seq<u8>, first: int, tokens: Seq<Token>) -> Seq<Option<Token>> {
    let n = if slot_count(input) > first {
        slot_count(input) - first
    } else {
        0
    };
    Seq::new(n as nat, |i: int| slot_token(input, 4 + 32 * (first + i), tokens))
}

/// Whether every entry of a path is `None`.
pub open spec fn all_unknown(path: Seq<Option<Token>>) -> bool {
    forall|i: int| 0 <= i < path.len() ==> path[i] is None
}

/// The method and token path of a transaction to the router, or `None`
/// when it is not a decodable router swap.
pub open spec fn spec_uniswap_decode(tx: Transaction, router: Seq<u8>, tokens: Seq<Token>) -> Option<
    (UniswapSwapMethod, Seq<Option<Token>>),
> {
    let input = tx.input@;
    if !is_address(tx.to, router) || input.len() <= 4 || (input.len() - 4) % 32 != 0 {
        None
    } else {
        match spec_uniswap_method(input[0], input[1], input[2], input[3]) {
            None => None,
            Some((method, offset)) => {
                let path = uniswap_path(input, offset - 1, tokens);
                if all_unknown(path) {
                    None
                } else {
                    Some((method, path))
                }
            },
        }
    }
}

/// The method, token in and token out of a transaction to one of `pools`,
/// or `None` when it is not a decodable pool swap.
pub open spec fn spec_balancer_decode(tx: Transaction, pools: Seq<Address>, tokens: Seq<Token>) -> Option<
    (BalancerSwapMethod, Option<Token>, Option<Token>),
> {
    let input = tx.input@;
    let known_pool = match tx.to {
        Some(to) => exists|i: int| 0 <= i < pools.len() && pools[i]@ == to@,
        None => false,
    };
    if !known_pool || input.len() < 68 || (input.len() - 4) % 32 != 0 {
        None
    } else {
        match spec_balancer_method(input[0], input[1], input[2], input[3]) {
            None => None,
            Some(method) => if !zero_run(input, 4, 12) || !zero_run(input, 36, 12) {
                None
            } else {
                let token_in = spec_find_token(tokens, input.subrange(16, 36));
                let token_out = spec_find_token(tokens, input.subrange(48, 68));
                if token_in is None && token_out is None {
                    None
                } else {
                    Some((method, token_in, token_out))
                }
            },
        }
    }
}

/// Whether `input[start..start + n]` is all zero bytes.
fn is_zero_run(input: &Vec<u8>, start: usize, n: usize) -> (r: bool)
    requires
        start + n <= input@.len(),
    ensures
        r == zero_run(input@, start as int, n as int),
{
    let len = input.len();
    let mut i: usize = 0;
    while i < n
        invariant
            0 <= i <= n,
            len == input@.len(),
            start + n <= input@.len(),
            forall|j: int| start <= j < start + i ==> input@[j] == 0,
        decreases n - i,
    {
        if input[start + i] != 0 {
            return false;
        }
        i = i + 1;
    }
    true
}

fn uniswap_method(b0: u8, b1: u8, b2: u8, b3: u8) -> (r: Option<(UniswapSwapMethod, usize)>)
    ensures
        match r {
            Some((m, o)) => spec_uniswap_method(b0, b1, b2, b3) == Some((m, o as nat)),
            None => spec_uniswap_method(b0, b1, b2, b3) is None,
        },
{
    match (b0, b1, b2, b3) {
        (0x88, 0x03, 0xdb, 0xee) => Some((UniswapSwapMethod::TokensForExactTokens, 7)),
        (0x38, 0xed, 0x17, 0x39) => Some((UniswapSwapMethod::ExactTokensForTokens, 7)),
        (0x4a, 0x25, 0xd9, 0x4a) => Some((UniswapSwapMethod::TokensForExactETH, 7)),
        (0x18, 0xcb, 0xaf, 0xe5) => Some((UniswapSwapMethod::ExactTokensForETH, 7)),
        (0xfb, 0x3b, 0xdb, 0x41) => Some((UniswapSwapMethod::ETHForExactTokens, 6)),
        (0x7f, 0xf3, 0x6a, 0xb5) => Some((UniswapSwapMethod::ExactETHForTokens, 6)),
        _ => None,
    }
}

fn balancer_method(b0: u8, b1: u8, b2: u8, b3: u8) -> (r: Option<BalancerSwapMethod>)
    ensures
        r == spec_balancer_method(b0, b1, b2, b3),
{
    match (b0, b1, b2, b3) {
        (0x82, 0x01, 0xaa, 0x3f) => Some(BalancerSwapMethod::ExactAmountIn),
        (0x7c, 0x5e, 0x9e, 0xa4) => Some(BalancerSwapMethod::ExactAmountOut),
        _ => None,
    }
}

/// The token of the address slot at byte `start`.
fn read_slot(input: &Vec<u8>, start: usize, tokens: &Vec<Token>) -> (r: Option<Token>)
    requires
        start + 32 <= input@.len(),
    ensures
        r == slot_token(input@, start as int, tokens@),
{
    let _len = input.len();
    if !is_zero_run(input, start, 12) {
        return None;
    }
    let address = Address::from_slice(input.as_slice(), start + 12);
    find_token(tokens, &address)
}

proof fn lemma_slot_fits(len: int, k: int)
    requires
        len >= 4,
        0 <= k < (len - 4) / 32,
    ensures
        4 + 32 * k + 32 <= len,
{
    assert(32 * ((len - 4) / 32) <= len - 4) by (nonlinear_arith)
        requires
            len >= 4,
    ;
    assert(32 * (k + 1) <= 32 * ((len - 4) / 32)) by (nonlinear_arith)
        requires
            k + 1 <= (len - 4) / 32,
    ;
}

impl UniswapSwap {
    /// Decodes a transaction sent to the router `router`.
    pub fn from_transaction(tx: &Transaction, router: &Address, tokens: &Vec<Token>) -> (r: Option<
        UniswapSwap,
    >)
        ensures
            match r {
                Some(s) => spec_uniswap_decode(*tx, router@, tokens@) == Some(
                    (s.method, s.tokens@),
                ) && s.gas_price == tx.gas_price && s.tx_hash == tx.hash,
                None => spec_uniswap_decode(*tx, router@, tokens@) is None,
            },
    {
        let to = match tx.to {
            Some(t) => t,
            None => return None,
        };
        if !to.same(router) {
            return None;
        }
        let len = tx.input.len();
        if len <= 4 || (len - 4) % 32 != 0 {
            return None;
        }
        let (method, offset) = match uniswap_method(
            tx.input[0],
            tx.input[1],
            tx.input[2],
            tx.input[3],
        ) {
            Some(m) => m,
            None => return None,
        };
        let count = (len - 4) / 32;
        let first = offset - 1;
        let ghost input = tx.input@;
        let ghost path_spec = uniswap_path(input, first as int, tokens@);
        let mut path: Vec<Option<Token>> = Vec::new();
        let mut known = false;
        let mut k = first;
        while k < count
            invariant
                input == tx.input@,
                len == input.len(),
                len > 4,
                count == slot_count(input),
                first == offset - 1,
                offset == 6 || offset == 7,
                path_spec == uniswap_path(input, first as int, tokens@),
                first <= k,
                k <= count || k == first,
                path@.len() == k - first,
                forall|i: int| 0 <= i < path@.len() ==> path@[i] == path_spec[i],
                known == exists|i: int| 0 <= i < path@.len() && path@[i] is Some,
            decreases count - k,
        {
            proof {
                lemma_slot_fits(len as int, k as int);
            }
            let t = read_slot(&tx.input, 4 + 32 * k, tokens);
            if t.is_some() {
                known = true;
            }
            let ghost prev = path@;
            let ghost tg = t;
            path.push(t);
            proof {
                assert(path@ == prev.push(tg));
                if tg is Some {
                    assert(path@[prev.len() as int] is Some);
                } else {
                    assert(forall|i: int| 0 <= i < prev.len() ==> path@[i] == prev[i]);
                }
            }
            k = k + 1;
        }
        proof {
            assert(path@ =~= path_spec);
        }
        if !known {
            return None;
        }
        Some(UniswapSwap { method, tokens: path, gas_price: tx.gas_price, tx_hash: tx.hash })
    }
}

impl BalancerSwap {
    /// Decodes a transaction sent to one of the pools `pools`.
    pub fn from_transaction(tx: &Transaction, pools: &Vec<Address>, tokens: &Vec<Token>) -> (r:
        Option<BalancerSwap>)
        ensures
            match r {
                Some(s) => spec_balancer_decode(*tx, pools@, tokens@) == Some(
                    (s.method, s.token_in, s.token_out),
                ) && is_address(tx.to, s.pool@) && s.gas_price == tx.gas_price && s.tx_hash
                    == tx.hash,
                None => spec_balancer_decode(*tx, pools@, tokens@) is None,
            },
    {
        let pool = match tx.to {
            Some(t) => t,
            None => return None,
        };
        if !contains_address(pools, &pool) {
            return None;
        }
        let len = tx.input.len();
        if len < 68 || (len - 4) % 32 != 0 {
            return None;
        }
        let method = match balancer_method(tx.input[0], tx.input[1], tx.input[2], tx.input[3]) {
            Some(m) => m,
            None => return None,
        };
        if !is_zero_run(&tx.input, 4, 12) || !is_zero_run(&tx.input, 36, 12) {
            return None;
        }
        let token_in = find_token(tokens, &Address::from_slice(tx.input.as_slice(), 16));
        let token_out = find_token(tokens, &Address::from_slice(tx.input.as_slice(), 48));
        if token_in.is_none() && token_out.is_none() {
            return None;
        }
        Some(BalancerSwap { method, token_in, token_out, gas_price: tx.gas_price, tx_hash: tx.hash, pool })
    }
}

/// Whether an optional token is present with address `a`.
pub open spec fn token_is(t: Option<Token>, a: Seq<u8>) -> bool {
    match t {
        Some(token) => token.address@ == a,
        None => false,
    }
}

/// The direction of the first hop of `path` that trades `from` and `to`.
pub open spec fn spec_path_match(path: Seq<Option<Token>>, from: Seq<u8>, to: Seq<u8>) -> Option<
    SwapMatch,
>
    decreases path.len(),
{
    if path.len() < 2 {
        None
    } else if token_is(path[0], from) && token_is(path[1], to) {
        Some(SwapMatch::SameDirection)
    } else if token_is(path[0], to) && token_is(path[1], from) {
        Some(SwapMatch::OppositeDirection)
    } else {
        spec_path_match(path.drop_first(), from, to)
    }
}

/// How a pool swap on `swap_pool` with tokens `token_in` and `token_out`
/// relates to a candidate that sells `from` for `to` on `pool`: no conflict
/// on another pool; on the same pool, the same direction when it sells
/// `from` for `to`, the opposite direction otherwise.
pub open spec fn spec_pool_match(
    swap_pool: Seq<u8>,
    token_in: Option<Token>,
    token_out: Option<Token>,
    from: Seq<u8>,
    to: Seq<u8>,
    pool: Seq<u8>,
) -> Option<SwapMatch> {
    if swap_pool != pool {
        None
    } else if token_is(token_in, from) && token_is(token_out, to) {
        Some(SwapMatch::SameDirection)
    } else {
        Some(SwapMatch::OppositeDirection)
    }
}

fn is_token(t: &Option<Token>, a: &Address) -> (r: bool)
    ensures
        r == token_is(*t, a@),
{
    match t {
        Some(token) => token.address.same(a),
        None => false,
    }
}

impl UniswapSwap {
    /// The direction of the first hop of the path that trades
    /// `token_from` and `token_to`, if any.
    pub fn tokens_match(&self, token_from: &Address, token_to: &Address) -> (r: Option<SwapMatch>)
        ensures
            r == spec_path_match(self.tokens@, token_from@, token_to@),
    {
        let n = self.tokens.len();
        if n < 2 {
            return None;
        }
        let mut i: usize = 0;
        assert(self.tokens@.subrange(0, n as int) =~= self.tokens@);
        while i + 1 < n
            invariant
                n == self.tokens@.len(),
                n >= 2,
                0 <= i <= n - 1,
                spec_path_match(self.tokens@, token_from@, token_to@) == spec_path_match(
                    self.tokens@.subrange(i as int, n as int),
                    token_from@,
                    token_to@,
                ),
            decreases n - i,
        {
            let ghost rest = self.tokens@.subrange(i as int, n as int);
            proof {
                assert(rest.drop_first() =~= self.tokens@.subrange(i + 1, n as int));
            }
            let a = &self.tokens[i];
            let b = &self.tokens[i + 1];
            if is_token(a, token_from) && is_token(b, token_to) {
                return Some(SwapMatch::SameDirection);
            }
            if is_token(a, token_to) && is_token(b, token_from) {
                return Some(SwapMatch::OppositeDirection);
            }
            i = i + 1;
        }
        None
    }
}

impl BalancerSwap {
    /// How this swap relates to a candidate that sells `token_in` for
    /// `token_out` on `pool`.
    pub fn tokens_match(&self, token_in: &Address, token_out: &Address, pool: &Address) -> (r:
        Option<SwapMatch>)
        ensures
            r == spec_pool_match(
                self.pool@,
                self.token_in,
                self.token_out,
                token_in@,
                token_out@,
                pool@,
            ),
    {
        if !self.pool.same(pool) {
            return None;
        }
        if is_token(&self.token_in, token_in) && is_token(&self.token_out, token_out) {
            Some(SwapMatch::SameDirection)
        } else {
            Some(SwapMatch::OppositeDirection)
        }
    }
}

/// What `Swap::from_transaction` decodes.
pub open spec fn spec_swap_decode(
    tx: Transaction,
    router: Seq<u8>,
    pools: Seq<Address>,
    tokens: Seq<Token>,
    s: Swap,
) -> bool {
    match s {
        Swap::UniswapSwap(u) => spec_uniswap_decode(tx, router, tokens) == Some(
            (u.method, u.tokens@),
        ) && u.gas_price == tx.gas_price && u.tx_hash == tx.hash,
        Swap::BalancerSwap(b) => spec_uniswap_decode(tx, router, tokens) is None
            && spec_balancer_decode(tx, pools, tokens) == Some((b.method, b.token_in, b.token_out))
            && is_address(tx.to, b.pool@) && b.gas_price == tx.gas_price && b.tx_hash == tx.hash,
    }
}

impl Swap {
    /// Decodes a router swap, else a pool swap.
    pub fn from_transaction(
        tx: &Transaction,
        uniswap_router_address: &Address,
        balancer_pools: &Vec<Address>,
        tokens: &Vec<Token>,
    ) -> (r: Option<Swap>)
        ensures
            match r {
                Some(s) => spec_swap_decode(*tx, uniswap_router_address@, balancer_pools@, tokens@, s),
                None => spec_uniswap_decode(*tx, uniswap_router_address@, tokens@) is None
                    && spec_balancer_decode(*tx, balancer_pools@, tokens@) is None,
            },
    {
        if let Some(s) = UniswapSwap::from_transaction(tx, uniswap_router_address, tokens) {
            return Some(Swap::UniswapSwap(s));
        }
        if let Some(s) = BalancerSwap::from_transaction(tx, balancer_pools, tokens) {
            return Some(Swap::BalancerSwap(s));
        }
        None
    }

    /// How this swap relates to a candidate that sells `token_from` for
    /// `token_to`, the pool side of it on `balancer_pool`.
    pub fn tokens_match(&self, token_from: &Address, token_to: &Address, balancer_pool: &Address) -> (r:
        Option<SwapMatch>)
        ensures
            r == match self {
                Swap::UniswapSwap(s) => spec_path_match(s.tokens@, token_from@, token_to@),
                Swap::BalancerSwap(s) => spec_pool_match(
                    s.pool@,
                    s.token_in,
                    s.token_out,
                    token_from@,
                    token_to@,
                    balancer_pool@,
                ),
            },
    {
        match self {
            Swap::UniswapSwap(s) => s.tokens_match(token_from, token_to),
            Swap::BalancerSwap(s) => s.tokens_match(token_from, token_to, balancer_pool),
        }
    }

    pub fn gas_price(&self) -> (r: U256)
        ensures
            r == match self {
                Swap::UniswapSwap(s) => s.gas_price,
                Swap::BalancerSwap(s) => s.gas_price,
            },
    {
        match self {
            Swap::UniswapSwap(s) => s.gas_price,
            Swap::BalancerSwap(s) => s.gas_price,
        }
    }

    pub fn tx_hash(&self) -> (r: TxHash)
        ensures
            r == match self {
                Swap::UniswapSwap(s) => s.tx_hash,
                Swap::BalancerSwap(s) => s.tx_hash,
            },
    {
        match self {
            Swap::UniswapSwap(s) => s.tx_hash,
            Swap::BalancerSwap(s) => s.tx_hash,
        }
    }
}

/// Conflict symmetry: for two different tokens, a path trades against a
/// candidate selling `a` for `b` exactly when it trades with one selling
/// `b` for `a`.
pub proof fn lemma_conflict_symmetry(path: Seq<Option<Token>>, a: Seq<u8>, b: Seq<u8>)
    requires
        a != b,
    ensures
        (spec_path_match(path, a, b) == Some(SwapMatch::OppositeDirection)) <==> (spec_path_match(
            path,
            b,
            a,
        ) == Some(SwapMatch::SameDirection)),
        (spec_path_match(path, a, b) == Some(SwapMatch::SameDirection)) <==> (spec_path_match(
            path,
            b,
            a,
        ) == Some(SwapMatch::OppositeDirection)),
        spec_path_match(path, a, b) is None <==> spec_path_match(path, b, a) is None,
    decreases path.len(),
{
    if path.len() >= 2 {
        lemma_conflict_symmetry(path.drop_first(), a, b);
    }
}

/// The selector of a router method.
pub open spec fn uniswap_selector(m: UniswapSwapMethod) -> Seq<u8> {
    match m {
        UniswapSwapMethod::TokensForExactTokens => seq![0x88u8, 0x03u8, 0xdbu8, 0xeeu8],
        UniswapSwapMethod::ExactTokensForTokens => seq![0x38u8, 0xedu8, 0x17u8, 0x39u8],
        UniswapSwapMethod::TokensForExactETH => seq![0x4au8, 0x25u8, 0xd9u8, 0x4au8],
        UniswapSwapMethod::ExactTokensForETH => seq![0x18u8, 0xcbu8, 0xafu8, 0xe5u8],
        UniswapSwapMethod::ETHForExactTokens => seq![0xfbu8, 0x3bu8, 0xdbu8, 0x41u8],
        UniswapSwapMethod::ExactETHForTokens => seq![0x7fu8, 0xf3u8, 0x6au8, 0xb5u8],
    }
}

/// How many 32-byte slots come before a router method's token path.
pub open spec fn uniswap_head_slots(m: UniswapSwapMethod) -> nat {
    match m {
        UniswapSwapMethod::ETHForExactTokens | UniswapSwapMethod::ExactETHForTokens => 5,
        _ => 6,
    }
}

/// Addresses laid out as 32-byte slots: twelve zero bytes, then the address.
pub open spec fn address_slots(path: Seq<Seq<u8>>) -> Seq<u8> {
    Seq::new(
        32 * path.len(),
        |k: int|
            if k % 32 < 12 {
                0u8
            } else {
                path[k / 32][k % 32 - 12]
            },
    )
}

/// Router calldata: the method's selector, its leading slots, then the path.
pub open spec fn uniswap_calldata(m: UniswapSwapMethod, head: Seq<u8>, path: Seq<Seq<u8>>) -> Seq<
    u8,
> {
    uniswap_selector(m) + head + address_slots(path)
}

proof fn lemma_slot_index(i: int, j: int)
    requires
        0 <= j < 32,
    ensures
        (32 * i + j) / 32 == i,
        (32 * i + j) % 32 == j,
{
    assert((32 * i + j) / 32 == i && (32 * i + j) % 32 == j) by (nonlinear_arith)
        requires
            0 <= j < 32,
    ;
}

/// Decoder round trip for router calls: calldata built from a method, its
/// leading slots and a path of addresses decodes to that method and to
/// the registry's token for each address, when one of them is known.
pub proof fn lemma_uniswap_round_trip(
    tx: Transaction,
    router: Seq<u8>,
    tokens: Seq<Token>,
    m: UniswapSwapMethod,
    head: Seq<u8>,
    path: Seq<Seq<u8>>,
)
    requires
        is_address(tx.to, router),
        head.len() == 32 * uniswap_head_slots(m),
        path.len() > 0,
        forall|i: int| 0 <= i < path.len() ==> (#[trigger] path[i]).len() == 20,
        exists|i: int| 0 <= i < path.len() && spec_find_token(tokens, #[trigger] path[i]) is Some,
        tx.input@ == uniswap_calldata(m, head, path),
    ensures
        spec_uniswap_decode(tx, router, tokens) == Some(
            (m, path.map_values(|a: Seq<u8>| spec_find_token(tokens, a))),
        ),
{
    let input = tx.input@;
    let h = uniswap_head_slots(m) as int;
    let n = path.len() as int;
    let sel = uniswap_selector(m);
    assert(input.len() == 4 + 32 * h + 32 * n);
    assert(input[0] == sel[0] && input[1] == sel[1] && input[2] == sel[2] && input[3] == sel[3]);
    assert(spec_uniswap_method(input[0], input[1], input[2], input[3]) == Some(
        (m, (h + 1) as nat),
    ));
    assert((input.len() - 4) % 32 == 0 && slot_count(input) == h + n) by {
        lemma_slot_index(h + n, 0);
        assert(input.len() - 4 == 32 * (h + n) + 0);
    }
    let decoded = uniswap_path(input, h, tokens);
    let expected = path.map_values(|a: Seq<u8>| spec_find_token(tokens, a));
    assert forall|i: int| 0 <= i < n implies decoded[i] == expected[i] by {
        let start = 4 + 32 * (h + i);
        assert forall|j: int| start <= j < start + 12 implies input[j] == 0 by {
            lemma_slot_index(i, j - start);
            assert(input[j] == address_slots(path)[32 * i + (j - start)]);
        }
        assert(input.subrange(start + 12, start + 32) =~= path[i]) by {
            assert forall|j: int| 0 <= j < 20 implies input.subrange(start + 12, start + 32)[j]
                == path[i][j] by {
                lemma_slot_index(i, j + 12);
                assert(input[start + 12 + j] == address_slots(path)[32 * i + (j + 12)]);
            }
        }
    }
    assert(decoded =~= expected);
    let w = choose|i: int| 0 <= i < path.len() && spec_find_token(tokens, #[trigger] path[i]) is Some;
    assert(decoded[w] is Some);
}

/// The selector of a weighted-pool method.
pub open spec fn balancer_selector(m: BalancerSwapMethod) -> Seq<u8> {
    match m {
        BalancerSwapMethod::ExactAmountIn => seq![0x82u8, 0x01u8, 0xaau8, 0x3fu8],
        BalancerSwapMethod::ExactAmountOut => seq![0x7cu8, 0x5eu8, 0x9eu8, 0xa4u8],
    }
}

/// Pool calldata: the selector, the token-in slot, the token-out slot, then
/// whatever slots follow.
pub open spec fn balancer_calldata(
    m: BalancerSwapMethod,
    token_in: Seq<u8>,
    token_out: Seq<u8>,
    tail: Seq<u8>,
) -> Seq<u8> {
    balancer_selector(m) + address_slots(seq![token_in, token_out]) + tail
}

/// Decoder round trip for pool calls: calldata built from a method and two
/// addresses, sent to a known pool, decodes to that method and to the
/// registry's tokens for the two addresses, when one of them is known.
pub proof fn lemma_balancer_round_trip(
    tx: Transaction,
    pools: Seq<Address>,
    tokens: Seq<Token>,
    m: BalancerSwapMethod,
    token_in: Seq<u8>,
    token_out: Seq<u8>,
    tail: Seq<u8>,
)
    requires
        tx.to matches Some(to) && exists|i: int| 0 <= i < pools.len() && pools[i]@ == to@,
        token_in.len() == 20,
        token_out.len() == 20,
        tail.len() % 32 == 0,
        spec_find_token(tokens, token_in) is Some || spec_find_token(tokens, token_out) is Some,
        tx.input@ == balancer_calldata(m, token_in, token_out, tail),
    ensures
        spec_balancer_decode(tx, pools, tokens) == Some(
            (m, spec_find_token(tokens, token_in), spec_find_token(tokens, token_out)),
        ),
{
    let input = tx.input@;
    let path = seq![token_in, token_out];
    let sel = balancer_selector(m);
    assert(input.len() == 68 + tail.len());
    assert(input[0] == sel[0] && input[1] == sel[1] && input[2] == sel[2] && input[3] == sel[3]);
    assert((input.len() - 4) % 32 == 0) by {
        assert(input.len() - 4 == 64 + tail.len());
    }
    assert(zero_run(input, 4, 12)) by {
        assert forall|j: int| 4 <= j < 16 implies input[j] == 0 by {
            lemma_slot_index(0, j - 4);
            assert(input[j] == address_slots(path)[32 * 0 + (j - 4)]);
        }
    }
    assert(zero_run(input, 36, 12)) by {
        assert forall|j: int| 36 <= j < 48 implies input[j] == 0 by {
            lemma_slot_index(1, j - 36);
            assert(input[j] == address_slots(path)[32 * 1 + (j - 36)]);
        }
    }
    assert(input.subrange(16, 36) =~= token_in) by {
        assert forall|j: int| 0 <= j < 20 implies input.subrange(16, 36)[j] == token_in[j] by {
            lemma_slot_index(0, j + 12);
            assert(input[16 + j] == address_slots(path)[32 * 0 + (j + 12)]);
        }
    }
    assert(input.subrange(48, 68) =~= token_out) by {
        assert forall|j: int| 0 <= j < 20 implies input.subrange(48, 68)[j] == token_out[j] by {
            lemma_slot_index(1, j + 12);
            assert(input[48 + j] == address_slots(path)[32 * 1 + (j + 12)]);
        }
    }
}

} // verus!
