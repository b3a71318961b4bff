//! Per-block evaluation of arbitrage pairs: results and their order, the
//! gas-price decision, and the run of one direction of one pair.

use crate::amount::{modulus, U256};
use crate::calc::{max_profit, spec_max_profit, spec_uniswap_out_given_in, uniswap_out_given_in};
use crate::registry::{Address, Token};
use vstd::prelude::*;

verus! {

/// The outcome of one arbitrage attempt.
#[derive(Clone, Copy, Debug, PartialEq, Eq)]
pub enum ArbitrageResult {
    /// No positive-profit trade exists.
    NotProfit,
    /// Profit exists but does not pay for gas at the current price.
    GrossProfit { weth_profit: U256, amount: U256 },
    /// Profitable after gas at `gas_price`.
    NetProfit { weth_profit: U256, gas_price: U256, amount: U256 },
}

/// An `ArbitrageResult` with its amounts as numbers.
pub enum ResultModel {
    NotProfit,
    GrossProfit { weth_profit: nat, amount: nat },
    NetProfit { weth_profit: nat, gas_price: nat, amount: nat },
}

impl View for ArbitrageResult {
    type V = ResultModel;

    open spec fn view(&self) -> ResultModel {
        match *self {
            ArbitrageResult::NotProfit => ResultModel::NotProfit,
            ArbitrageResult::GrossProfit { weth_profit, amount } => ResultModel::GrossProfit {
                weth_profit: weth_profit@,
                amount: amount@,
            },
            ArbitrageResult::NetProfit { weth_profit, gas_price, amount } => ResultModel::NetProfit {
                weth_profit: weth_profit@,
                gas_price: gas_price@,
                amount: amount@,
            },
        }
    }
}

/// The sort key of a result: its variant's rank, then weth profit, gas
/// price and amount.
pub open spec fn result_key(r: ResultModel) -> (nat, nat, nat, nat) {
    match r {
        ResultModel::NotProfit => (0, 0, 0, 0),
        ResultModel::GrossProfit { weth_profit, amount } => (1, weth_profit, 0, amount),
        ResultModel::NetProfit { weth_profit, gas_price, amount } => (
            2,
            weth_profit,
            gas_price,
            amount,
        ),
    }
}

/// Lexicographic "less than" on sort keys.
pub open spec fn key_lt(a: (nat, nat, nat, nat), b: (nat, nat, nat, nat)) -> bool {
    a.0 < b.0 || (a.0 == b.0 && (a.1 < b.1 || (a.1 == b.1 && (a.2 < b.2 || (a.2 == b.2 && a.3
        < b.3)))))
}

/// The total order on results: `NotProfit < GrossProfit < NetProfit`, then
/// by weth profit, gas price and amount.
pub open spec fn result_lt(a: ResultModel, b: ResultModel) -> bool {
    key_lt(result_key(a), result_key(b))
}

pub open spec fn result_le(a: ResultModel, b: ResultModel) -> bool {
    result_lt(a, b) || a == b
}

pub open spec fn spec_result_cmp(a: ResultModel, b: ResultModel) -> core::cmp::Ordering {
    if result_lt(a, b) {
        core::cmp::Ordering::Less
    } else if a == b {
        core::cmp::Ordering::Equal
    } else {
        core::cmp::Ordering::Greater
    }
}

fn cmp_amounts(a: U256, b: U256) -> (r: core::cmp::Ordering)
    ensures
        r == (if a@ < b@ {
            core::cmp::Ordering::Less
        } else if a@ == b@ {
            core::cmp::Ordering::Equal
        } else {
            core::cmp::Ordering::Greater
        }),
{
    a.compare(b)
}

impl ArbitrageResult {
    /// Where this result stands among the variants.
    pub fn rank(&self) -> (r: u8)
        ensures
            r as nat == result_key(self@).0,
    {
        match self {
            ArbitrageResult::NotProfit => 0,
            ArbitrageResult::GrossProfit { .. } => 1,
            ArbitrageResult::NetProfit { .. } => 2,
        }
    }

    /// Compares two results in the total order.
    pub fn compare(&self, other: &ArbitrageResult) -> (r: core::cmp::Ordering)
        ensures
            r == spec_result_cmp(self@, other@),
    {
        let (ra, rb) = (self.rank(), other.rank());
        if ra < rb {
            return core::cmp::Ordering::Less;
        }
        if ra > rb {
            return core::cmp::Ordering::Greater;
        }
        let zero = U256::zero();
        let (wa, ga, aa) = match *self {
            ArbitrageResult::NotProfit => (zero, zero, zero),
            ArbitrageResult::GrossProfit { weth_profit, amount } => (weth_profit, zero, amount),
            ArbitrageResult::NetProfit { weth_profit, gas_price, amount } => (weth_profit, gas_price, amount),
        };
        let (wb, gb, ab) = match *other {
            ArbitrageResult::NotProfit => (zero, zero, zero),
            ArbitrageResult::GrossProfit { weth_profit, amount } => (weth_profit, zero, amount),
            ArbitrageResult::NetProfit { weth_profit, gas_price, amount } => (weth_profit, gas_price, amount),
        };
        match cmp_amounts(wa, wb) {
            core::cmp::Ordering::Equal => {},
            o => return o,
        }
        match cmp_amounts(ga, gb) {
            core::cmp::Ordering::Equal => {},
            o => return o,
        }
        cmp_amounts(aa, ab)
    }
}

/// Gas bounds and the profit target.
#[derive(Clone, Copy, Debug)]
pub struct Config {
    pub expected_gas_usage: U256,
    pub max_gas_usage: U256,
    pub target_weth_profit: U256,
    pub min_gas_scale: u8,
    pub max_gas_scale: u8,
}

impl Config {
    /// Both gas usages are divisors.
    pub open spec fn wf(&self) -> bool {
        self.expected_gas_usage@ > 0 && self.max_gas_usage@ > 0
    }

    /// The engine's defaults: 350 000 gas expected, 400 000 at most, a
    /// target of 0.01 WETH, and gas prices between 2 and 5 times the
    /// market's.
    pub fn standard() -> (r: Config)
        ensures
            r.wf(),
            r.expected_gas_usage@ == 350_000,
            r.max_gas_usage@ == 400_000,
            r.target_weth_profit@ == 10_000_000_000_000_000,
            r.min_gas_scale == 2,
            r.max_gas_scale == 5,
    {
        Config {
            expected_gas_usage: U256::from_u64(350_000),
            max_gas_usage: U256::from_u64(400_000),
            target_weth_profit: U256::from_u64(10_000_000_000_000_000),
            min_gas_scale: 2,
            max_gas_scale: 5,
        }
    }
}

/// A block head with the executor account's state at it.
#[derive(Clone, Copy, Debug)]
pub struct Block {
    pub number: u64,
    pub gas_price: U256,
    pub balance: U256,
    pub nonce: U256,
}

pub open spec fn min_nat(a: nat, b: nat) -> nat {
    if a <= b {
        a
    } else {
        b
    }
}

/// The lowest gas price worth paying: the market's times the low scale.
pub open spec fn min_gas_price(block: Block, config: Config) -> nat {
    block.gas_price@ * config.min_gas_scale as nat
}

/// The highest: what the balance pays for the largest gas usage, and at
/// most the market's price times the high scale.
pub open spec fn max_gas_price(block: Block, config: Config) -> nat {
    min_nat(block.balance@ / config.max_gas_usage@, block.gas_price@ * config.max_gas_scale as nat)
}

/// The gas price at which `weth_profit` leaves exactly the target after gas.
pub open spec fn target_gas_price(weth_profit: nat, config: Config) -> nat {
    ((weth_profit - config.target_weth_profit@) / (config.expected_gas_usage@ as int)) as nat
}

/// The class of a borrow of `amount` that yields `weth_profit`: gross when
/// it does not beat the target or no gas price in range pays for it, net at
/// the lower of the target and the highest gas price otherwise, and
/// `NotProfit` when a gas bound leaves 256 bits.
pub open spec fn spec_classify(weth_profit: nat, amount: nat, block: Block, config: Config) -> ResultModel {
    if weth_profit <= config.target_weth_profit@ {
        ResultModel::GrossProfit { weth_profit, amount }
    } else if block.gas_price@ * config.max_gas_scale as nat >= modulus() || block.gas_price@
        * config.min_gas_scale as nat >= modulus() {
        ResultModel::NotProfit
    } else if max_gas_price(block, config) < min_gas_price(block, config) || target_gas_price(
        weth_profit,
        config,
    ) < min_gas_price(block, config) {
        ResultModel::GrossProfit { weth_profit, amount }
    } else {
        ResultModel::NetProfit {
            weth_profit,
            gas_price: min_nat(target_gas_price(weth_profit, config), max_gas_price(block, config)),
            amount,
        }
    }
}

/// Classifies a borrow of `amount` that yields `weth_profit`.
pub fn classify(weth_profit: U256, amount: U256, block: &Block, config: &Config) -> (r: ArbitrageResult)
    requires
        config.wf(),
    ensures
        r@ == spec_classify(weth_profit@, amount@, *block, *config),
{
    if weth_profit.le(config.target_weth_profit) {
        return ArbitrageResult::GrossProfit { weth_profit, amount };
    }
    let high = match block.gas_price.checked_mul(U256::from_u64(config.max_gas_scale as u64)) {
        Some(v) => v,
        None => return ArbitrageResult::NotProfit,
    };
    let min_gas = match block.gas_price.checked_mul(U256::from_u64(config.min_gas_scale as u64)) {
        Some(v) => v,
        None => return ArbitrageResult::NotProfit,
    };
    let affordable = block.balance.checked_div(config.max_gas_usage).unwrap();
    let max_gas = affordable.min(high);
    let surplus = weth_profit.checked_sub(config.target_weth_profit).unwrap();
    let target_gas = surplus.checked_div(config.expected_gas_usage).unwrap();
    if max_gas.lt(min_gas) || target_gas.lt(min_gas) {
        ArbitrageResult::GrossProfit { weth_profit, amount }
    } else {
        ArbitrageResult::NetProfit { weth_profit, gas_price: target_gas.min(max_gas), amount }
    }
}

/// A constant-product pair's reserves at a block.
#[derive(Clone, Copy, Debug)]
pub struct UniswapPairResolved {
    pub reserve0: U256,
    pub reserve1: U256,
    pub token0: Address,
}

/// A weighted pool's balances and swap fee at a block.
#[derive(Clone, Debug)]
pub struct BalancerPoolResolved {
    pub balances: Vec<(Address, U256)>,
    pub swap_fee: U256,
}

/// Everything one block's evaluation reads: the block, the configuration,
/// and the snapshots of the pairs and pools, by address.
#[derive(Clone, Debug)]
pub struct Context {
    pub block: Block,
    pub config: Config,
    pub pairs: Vec<(Address, UniswapPairResolved)>,
    pub pools: Vec<(Address, BalancerPoolResolved)>,
}

/// A pair and a pool to arbitrage, with WETH for pricing the profit.
#[derive(Clone, Debug)]
pub struct ArbitragePair {
    pub balancer_pool: Address,
    pub uniswap_pair: Address,
    pub token0: Token,
    pub token1: Token,
    pub weth: Token,
}

/// The value of the first entry of `s` keyed by `a`.
pub open spec fn spec_entry<V>(s: Seq<(Address, V)>, a: Seq<u8>) -> Option<V>
    decreases s.len(),
{
    if s.len() == 0 {
        None
    } else if s[0].0@ == a {
        Some(s[0].1)
    } else {
        spec_entry(s.drop_first(), a)
    }
}

/// Looks an entry up by its address.
pub fn find_entry<'a, V>(s: &'a Vec<(Address, V)>, a: &Address) -> (r: Option<&'a V>)
    ensures
        match r {
            Some(v) => spec_entry(s@, a@) == Some(*v),
            None => spec_entry(s@, a@) is None,
        },
{
    let mut i: usize = 0;
    assert(s@.subrange(0, s@.len() as int) =~= s@);
    while i < s.len()
        invariant
            0 <= i <= s@.len(),
            spec_entry(s@, a@) == spec_entry(s@.subrange(i as int, s@.len() as int), a@),
        decreases s@.len() - i,
    {
        proof {
            let rest = s@.subrange(i as int, s@.len() as int);
            assert(rest.drop_first() =~= s@.subrange(i + 1, s@.len() as int));
        }
        if s[i].0.same(a) {
            return Some(&s[i].1);
        }
        i = i + 1;
    }
    None
}

/// A pair's reserves as (reserve of token `t`, reserve of the other token).
pub open spec fn reserves_of(u: UniswapPairResolved, t: Seq<u8>) -> (nat, nat) {
    if u.token0@ == t {
        (u.reserve0@, u.reserve1@)
    } else {
        (u.reserve1@, u.reserve0@)
    }
}

fn reserves_for(u: &UniswapPairResolved, t: &Address) -> (r: (U256, U256))
    ensures
        (r.0@, r.1@) == reserves_of(*u, t@),
{
    if u.token0.same(t) {
        (u.reserve0, u.reserve1)
    } else {
        (u.reserve1, u.reserve0)
    }
}

/// Whether the context holds everything that the run of `pair`, borrowing
/// `borrow` and taking profit in `profit`, reads.
pub open spec fn has_inputs(pair: ArbitragePair, borrow: Token, profit: Token, ctx: Context) -> bool {
    &&& spec_entry(ctx.pairs@, pair.uniswap_pair@) is Some
    &&& spec_entry(ctx.pools@, pair.balancer_pool@) matches Some(pool) && spec_entry(
        pool.balances@,
        borrow.address@,
    ) is Some && spec_entry(pool.balances@, profit.address@) is Some
    &&& profit.address@ != pair.weth.address@ ==> (profit.weth_uniswap_pair matches Some(w)
        && spec_entry(ctx.pairs@, w@) is Some)
}

/// The profit of a borrow of `x` that paid back `payback` and gained `gain`
/// in the profit token, in WETH: priced on the profit token's WETH pair,
/// whose reserves have moved by the arbitrage when it is the arbitrage's
/// own pair.
pub open spec fn spec_weth_profit(
    pair: ArbitragePair,
    profit: Token,
    ctx: Context,
    x: nat,
    payback: nat,
    gain: nat,
) -> Option<nat> {
    if profit.address@ == pair.weth.address@ {
        Some(gain)
    } else {
        let w = profit.weth_uniswap_pair->0;
        let q = spec_entry(ctx.pairs@, w@)->0;
        let (ri, ro) = reserves_of(q, profit.address@);
        if w@ == pair.uniswap_pair@ {
            if ri + payback < modulus() && x <= ro {
                spec_uniswap_out_given_in(ri + payback, (ro - x) as nat, gain)
            } else {
                None
            }
        } else {
            spec_uniswap_out_given_in(ri, ro, gain)
        }
    }
}

/// The result of one direction of one pair.
pub open spec fn spec_run(pair: ArbitragePair, borrow: Token, profit: Token, ctx: Context) -> ResultModel {
    let u = spec_entry(ctx.pairs@, pair.uniswap_pair@)->0;
    let pool = spec_entry(ctx.pools@, pair.balancer_pool@)->0;
    let (ro, ri) = reserves_of(u, borrow.address@);
    let bi = spec_entry(pool.balances@, borrow.address@)->0;
    let bo = spec_entry(pool.balances@, profit.address@)->0;
    match spec_max_profit(ri, ro, bi@, bo@, pool.swap_fee@) {
        None => ResultModel::NotProfit,
        Some((x, payback, gain)) => match spec_weth_profit(pair, profit, ctx, x, payback, gain) {
            None => ResultModel::NotProfit,
            Some(w) => spec_classify(w, x, ctx.block, ctx.config),
        },
    }
}

fn weth_profit(
    pair: &ArbitragePair,
    profit: &Token,
    ctx: &Context,
    x: U256,
    payback: U256,
    gain: U256,
) -> (r: Option<U256>)
    requires
        profit.address@ != pair.weth.address@ ==> (profit.weth_uniswap_pair matches Some(w)
            && spec_entry(ctx.pairs@, w@) is Some),
    ensures
        match r {
            Some(v) => spec_weth_profit(*pair, *profit, *ctx, x@, payback@, gain@) == Some(v@),
            None => spec_weth_profit(*pair, *profit, *ctx, x@, payback@, gain@) is None,
        },
{
    if profit.address.same(&pair.weth.address) {
        return Some(gain);
    }
    let w = match profit.weth_uniswap_pair {
        Some(w) => w,
        None => return None,
    };
    let q = match find_entry(&ctx.pairs, &w) {
        Some(q) => q,
        None => return None,
    };
    let (ri, ro) = reserves_for(q, &profit.address);
    if w.same(&pair.uniswap_pair) {
        let ri2 = match ri.checked_add(payback) {
            Some(v) => v,
            None => return None,
        };
        let ro2 = match ro.checked_sub(x) {
            Some(v) => v,
            None => return None,
        };
        uniswap_out_given_in(ri2, ro2, gain)
    } else {
        uniswap_out_given_in(ri, ro, gain)
    }
}

impl ArbitragePair {
    /// Evaluates borrowing `borrow_token` from the pair, selling it on the
    /// pool for `profit_token`, and paying the pair back; `None` when the
    /// context lacks a snapshot or balance that this reads.
    pub fn run(&self, borrow_token: &Token, profit_token: &Token, ctx: &Context) -> (r: Option<
        ArbitrageResult,
    >)
        requires
            ctx.config.wf(),
        ensures
            match r {
                Some(res) => has_inputs(*self, *borrow_token, *profit_token, *ctx) && res@
                    == spec_run(*self, *borrow_token, *profit_token, *ctx),
                None => !has_inputs(*self, *borrow_token, *profit_token, *ctx),
            },
    {
        let u = match find_entry(&ctx.pairs, &self.uniswap_pair) {
            Some(u) => u,
            None => return None,
        };
        let pool = match find_entry(&ctx.pools, &self.balancer_pool) {
            Some(p) => p,
            None => return None,
        };
        let bi = match find_entry(&pool.balances, &borrow_token.address) {
            Some(b) => *b,
            None => return None,
        };
        let bo = match find_entry(&pool.balances, &profit_token.address) {
            Some(b) => *b,
            None => return None,
        };
        if !profit_token.address.same(&self.weth.address) {
            match profit_token.weth_uniswap_pair {
                Some(w) => {
                    if find_entry(&ctx.pairs, &w).is_none() {
                        return None;
                    }
                },
                None => return None,
            }
        }
        let (ro, ri) = reserves_for(u, &borrow_token.address);
        let (x, payback, gain) = match max_profit(ri, ro, bi, bo, pool.swap_fee) {
            Some(t) => t,
            None => return Some(ArbitrageResult::NotProfit),
        };
        match weth_profit(self, profit_token, ctx, x, payback, gain) {
            Some(w) => Some(classify(w, x, &ctx.block, &ctx.config)),
            None => Some(ArbitrageResult::NotProfit),
        }
    }
}

/// One evaluated direction of one pair at one block.
#[derive(Clone, Debug)]
pub struct ArbitrageAttempt {
    pub pair: ArbitragePair,
    pub borrow_token: Token,
    pub profit_token: Token,
    pub result: ArbitrageResult,
    pub config: Config,
    pub block: Block,
}

impl ArbitragePair {
    /// A field-by-field copy.
    pub fn duplicate(&self) -> (r: ArbitragePair)
        ensures
            r == *self,
    {
        ArbitragePair {
            balancer_pool: self.balancer_pool,
            uniswap_pair: self.uniswap_pair,
            token0: self.token0.duplicate(),
            token1: self.token1.duplicate(),
            weth: self.weth.duplicate(),
        }
    }

    /// The two attempts of this pair: borrowing `token0` for profit in
    /// `token1`, then the reverse; `None` when the context lacks an input.
    pub fn attempts(&self, ctx: &Context) -> (r: Option<Vec<ArbitrageAttempt>>)
        requires
            ctx.config.wf(),
        ensures
            match r {
                Some(v) => {
                    &&& has_inputs(*self, self.token0, self.token1, *ctx)
                    &&& has_inputs(*self, self.token1, self.token0, *ctx)
                    &&& v@.len() == 2
                    &&& v@[0].pair == *self && v@[1].pair == *self
                    &&& v@[0].borrow_token == self.token0 && v@[0].profit_token == self.token1
                    &&& v@[1].borrow_token == self.token1 && v@[1].profit_token == self.token0
                    &&& v@[0].result@ == spec_run(*self, self.token0, self.token1, *ctx)
                    &&& v@[1].result@ == spec_run(*self, self.token1, self.token0, *ctx)
                    &&& v@[0].block == ctx.block && v@[1].block == ctx.block
                    &&& v@[0].config == ctx.config && v@[1].config == ctx.config
                },
                None => !has_inputs(*self, self.token0, self.token1, *ctx) || !has_inputs(
                    *self,
                    self.token1,
                    self.token0,
                    *ctx,
                ),
            },
    {
        let forward = match self.run(&self.token0, &self.token1, ctx) {
            Some(r) => r,
            None => return None,
        };
        let backward = match self.run(&self.token1, &self.token0, ctx) {
            Some(r) => r,
            None => return None,
        };
        let mut v: Vec<ArbitrageAttempt> = Vec::new();
        v.push(
            ArbitrageAttempt {
                pair: self.duplicate(),
                borrow_token: self.token0.duplicate(),
                profit_token: self.token1.duplicate(),
                result: forward,
                config: ctx.config,
                block: ctx.block,
            },
        );
        v.push(
            ArbitrageAttempt {
                pair: self.duplicate(),
                borrow_token: self.token1.duplicate(),
                profit_token: self.token0.duplicate(),
                result: backward,
                config: ctx.config,
                block: ctx.block,
            },
        );
        Some(v)
    }
}

/// The index of the best attempt: a greatest result, the last of equals;
/// `None` for no attempts.
pub fn best_attempt(attempts: &Vec<ArbitrageAttempt>) -> (r: Option<usize>)
    ensures
        match r {
            Some(i) => {
                &&& i < attempts@.len()
                &&& forall|j: int|
                    0 <= j < attempts@.len() ==> result_le(
                        attempts@[j].result@,
                        attempts@[i as int].result@,
                    )
                &&& forall|j: int|
                    i < j < attempts@.len() ==> result_lt(
                        attempts@[j].result@,
                        attempts@[i as int].result@,
                    )
            },
            None => attempts@.len() == 0,
        },
{
    if attempts.len() == 0 {
        return None;
    }
    let mut best: usize = 0;
    let mut i: usize = 1;
    while i < attempts.len()
        invariant
            1 <= i <= attempts@.len(),
            best < i,
            forall|j: int| 0 <= j < i ==> result_le(attempts@[j].result@, attempts@[best as int].result@),
            forall|j: int| best < j < i ==> result_lt(attempts@[j].result@, attempts@[best as int].result@),
        decreases attempts@.len() - i,
    {
        match attempts[i].result.compare(&attempts[best].result) {
            core::cmp::Ordering::Less => {},
            _ => {
                proof {
                    let n = attempts@[i as int].result@;
                    let o = attempts@[best as int].result@;
                    assert forall|j: int| 0 <= j < i implies result_le(attempts@[j].result@, n) by {
                        let m = attempts@[j].result@;
                        assert(result_le(m, o));
                        assert(!result_lt(n, o));
                    }
                }
                best = i;
            },
        }
        i = i + 1;
    }
    Some(best)
}

/// How many results fall in each class: not, gross and net profit.
pub open spec fn spec_counts(results: Seq<ArbitrageAttempt>) -> (nat, nat, nat)
    decreases results.len(),
{
    if results.len() == 0 {
        (0, 0, 0)
    } else {
        let (n, g, p) = spec_counts(results.drop_last());
        match results.last().result {
            ArbitrageResult::NotProfit => (n + 1, g, p),
            ArbitrageResult::GrossProfit { .. } => (n, g + 1, p),
            ArbitrageResult::NetProfit { .. } => (n, g, p + 1),
        }
    }
}

/// Counts the attempts of each class: not, gross and net profit.
pub fn count_results(attempts: &Vec<ArbitrageAttempt>) -> (r: (usize, usize, usize))
    ensures
        (r.0 as nat, r.1 as nat, r.2 as nat) == spec_counts(attempts@),
{
    let mut not_profit: usize = 0;
    let mut gross: usize = 0;
    let mut net: usize = 0;
    let mut i: usize = 0;
    while i < attempts.len()
        invariant
            0 <= i <= attempts@.len(),
            (not_profit as nat, gross as nat, net as nat) == spec_counts(attempts@.subrange(0, i as int)),
            not_profit + gross + net == i,
        decreases attempts@.len() - i,
    {
        proof {
            assert(attempts@.subrange(0, i + 1).drop_last() =~= attempts@.subrange(0, i as int));
        }
        match attempts[i].result {
            ArbitrageResult::NotProfit => not_profit = not_profit + 1,
            ArbitrageResult::GrossProfit { .. } => gross = gross + 1,
            ArbitrageResult::NetProfit { .. } => net = net + 1,
        }
        i = i + 1;
    }
    assert(attempts@.subrange(0, attempts@.len() as int) =~= attempts@);
    (not_profit, gross, net)
}

/// The order on results is total: of two results, exactly one is smaller
/// or they are equal.
pub proof fn lemma_result_order_total(a: ResultModel, b: ResultModel)
    ensures
        result_lt(a, b) || a == b || result_lt(b, a),
        !(result_lt(a, b) && result_lt(b, a)),
        !(result_lt(a, b) && a == b),
{
}

/// The order is antisymmetric.
pub proof fn lemma_result_order_antisymmetric(a: ResultModel, b: ResultModel)
    requires
        result_le(a, b),
        result_le(b, a),
    ensures
        a == b,
{
}

/// The order is transitive.
pub proof fn lemma_result_order_transitive(a: ResultModel, b: ResultModel, c: ResultModel)
    requires
        result_le(a, b),
        result_le(b, c),
    ensures
        result_le(a, c),
        result_lt(a, b) || result_lt(b, c) ==> result_lt(a, c),
{
}

/// `NotProfit` is below every gross profit, and every gross profit below
/// every net profit.
pub proof fn lemma_result_variants_ordered(w1: nat, a1: nat, w2: nat, g2: nat, a2: nat)
    ensures
        result_lt(ResultModel::NotProfit, ResultModel::GrossProfit { weth_profit: w1, amount: a1 }),
        result_lt(
            ResultModel::GrossProfit { weth_profit: w1, amount: a1 },
            ResultModel::NetProfit { weth_profit: w2, gas_price: g2, amount: a2 },
        ),
        result_lt(
            ResultModel::NotProfit,
            ResultModel::NetProfit { weth_profit: w2, gas_price: g2, amount: a2 },
        ),
{
}

/// A net profit's gas price lies between the lowest and the highest gas
/// price of its block.
pub proof fn lemma_gas_clamp(weth_profit: nat, amount: nat, block: Block, config: Config)
    requires
        config.wf(),
        spec_classify(weth_profit, amount, block, config) is NetProfit,
    ensures
        min_gas_price(block, config) <= spec_classify(
            weth_profit,
            amount,
            block,
            config,
        )->NetProfit_gas_price <= max_gas_price(block, config),
{
}

/// The least weth profit that makes a net profit at a block: the target
/// plus the expected gas at the lowest gas price.
pub open spec fn spec_min_required_profit(block: Block, config: Config) -> nat {
    config.target_weth_profit@ + block.gas_price@ * config.min_gas_scale as nat
        * config.expected_gas_usage@
}

/// The least weth profit that makes a net profit, or `None` when it leaves
/// 256 bits.
pub fn min_required_profit(block: &Block, config: &Config) -> (r: Option<U256>)
    requires
        config.wf(),
    ensures
        match r {
            Some(v) => v@ == spec_min_required_profit(*block, *config),
            None => spec_min_required_profit(*block, *config) >= modulus(),
        },
{
    let low = match block.gas_price.checked_mul(U256::from_u64(config.min_gas_scale as u64)) {
        Some(v) => v,
        None => {
            proof {
                crate::amount::lemma_mul_grows(
                    block.gas_price@ * config.min_gas_scale as nat,
                    config.expected_gas_usage@,
                );
            }
            return None;
        },
    };
    let gas = match low.checked_mul(config.expected_gas_usage) {
        Some(v) => v,
        None => return None,
    };
    config.target_weth_profit.checked_add(gas)
}

/// Ten to the power `n`.
pub open spec fn pow10(n: nat) -> nat
    decreases n,
{
    if n == 0 {
        1
    } else {
        10 * pow10((n - 1) as nat)
    }
}

/// An amount of a token with `decimals` decimals, split into whole units
/// and the fraction, counted in the smallest unit.
pub fn split_amount(amount: U256, decimals: u8) -> (r: (U256, U256))
    requires
        decimals <= 36,
    ensures
        r.0@ == amount@ / pow10(decimals as nat),
        r.1@ == amount@ % pow10(decimals as nat),
{
    let mut scale = U256::from_u64(1);
    let mut i: u8 = 0;
    while i < decimals
        invariant
            i <= decimals <= 36,
            scale@ == pow10(i as nat),
        decreases decimals - i,
    {
        proof {
            lemma_pow10_bound(i as nat + 1);
        }
        scale = scale.checked_mul(U256::from_u64(10)).unwrap();
        i = i + 1;
    }
    proof {
        lemma_pow10_bound(decimals as nat);
    }
    let whole = amount.checked_div(scale).unwrap();
    let fraction = amount.checked_rem(scale).unwrap();
    (whole, fraction)
}

proof fn lemma_pow10_bound(n: nat)
    requires
        n <= 37,
    ensures
        0 < pow10(n) <= pow10(37),
        pow10(37) < modulus(),
    decreases n,
{
    reveal_with_fuel(pow10, 38);
    if n > 0 {
        lemma_pow10_bound((n - 1) as nat);
    }
}

} // verus!
