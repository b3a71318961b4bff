//! The single-flight execution lock: at most one submission in flight, and
//! each accepted candidate from a later block than the one before.

use crate::amount::U256;
use crate::evaluate::{find_entry, spec_entry, ArbitrageAttempt, ArbitrageResult, Context};
use crate::registry::Address;
use crate::txs::{spec_path_match, spec_pool_match, Swap, SwapMatch};
use vstd::prelude::*;

verus! {

/// The tokens and pool of the attempt that holds the lock.
#[derive(Clone, Copy, Debug)]
pub struct Executing {
    pub block_number: u64,
    pub borrow_token: Address,
    pub profit_token: Address,
    pub balancer_pool: Address,
}

/// The lock's state: the attempt in flight, if any, and the block of the
/// last accepted one.
#[derive(Clone, Copy, Debug)]
pub struct ExecutionGate {
    pub executing: Option<Executing>,
    pub last_block: Option<u64>,
}

/// The transaction parameters of an accepted candidate: the gas limit, the
/// gas price, the nonce, the one block it may be included in, the
/// confirmations to wait for, and the amount to borrow.
#[derive(Clone, Copy, Debug)]
pub struct Submission {
    pub gas: U256,
    pub gas_price: U256,
    pub nonce: U256,
    pub block_number: u64,
    pub confirmations: u64,
    pub amount: U256,
}

/// What the lock does with a candidate.
#[derive(Clone, Copy, Debug)]
pub enum GateDecision {
    /// Submit it: the lock is now held.
    Submit(Submission),
    /// Drop it: another submission is in flight.
    Busy,
    /// Drop it: its block is not after the last accepted one.
    Stale,
    /// Drop it: it does not pay for its gas.
    NotNetProfit,
}

/// The lock after `attempt` is offered, with its decision: a net profit is
/// submitted when nothing is in flight and its block is after the last
/// accepted one, with the gas limit of its configuration, its gas price,
/// its block's nonce and its block as the only one it may be included in.
pub open spec fn spec_offer(
    g: ExecutionGate,
    attempt: ArbitrageAttempt,
) -> (ExecutionGate, GateDecision) {
    match attempt.result {
        ArbitrageResult::NetProfit { gas_price, amount, .. } => if g.executing is Some {
            (g, GateDecision::Busy)
        } else if g.last_block matches Some(last) && attempt.block.number <= last {
            (g, GateDecision::Stale)
        } else {
            (
                ExecutionGate {
                    executing: Some(
                        Executing {
                            block_number: attempt.block.number,
                            borrow_token: attempt.borrow_token.address,
                            profit_token: attempt.profit_token.address,
                            balancer_pool: attempt.pair.balancer_pool,
                        },
                    ),
                    last_block: Some(attempt.block.number),
                },
                GateDecision::Submit(
                    Submission {
                        gas: attempt.config.max_gas_usage,
                        gas_price,
                        nonce: attempt.block.nonce,
                        block_number: attempt.block.number,
                        confirmations: 1,
                        amount,
                    },
                ),
            )
        },
        _ => (g, GateDecision::NotNetProfit),
    }
}

/// The lock after its submission is confirmed or fails.
pub open spec fn spec_release(g: ExecutionGate) -> ExecutionGate {
    ExecutionGate { executing: None, last_block: g.last_block }
}

impl ExecutionGate {
    /// A free lock that has accepted nothing yet.
    pub fn new() -> (r: ExecutionGate)
        ensures
            r.executing is None,
            r.last_block is None,
    {
        ExecutionGate { executing: None, last_block: None }
    }

    /// Whether a submission is in flight.
    pub fn is_held(&self) -> (r: bool)
        ensures
            r == self.executing is Some,
    {
        self.executing.is_some()
    }

    /// Offers a candidate: submitted only when it is a net profit, the lock
    /// is free and its block is after the last accepted one.
    pub fn offer(&mut self, attempt: &ArbitrageAttempt) -> (r: GateDecision)
        ensures
            (*final(self), r) == spec_offer(*old(self), *attempt),
    {
        let (gas_price, amount) = match attempt.result {
            ArbitrageResult::NetProfit { gas_price, amount, .. } => (gas_price, amount),
            _ => return GateDecision::NotNetProfit,
        };
        if self.executing.is_some() {
            return GateDecision::Busy;
        }
        if let Some(last) = self.last_block {
            if attempt.block.number <= last {
                return GateDecision::Stale;
            }
        }
        self.executing = Some(
            Executing {
                block_number: attempt.block.number,
                borrow_token: attempt.borrow_token.address,
                profit_token: attempt.profit_token.address,
                balancer_pool: attempt.pair.balancer_pool,
            },
        );
        self.last_block = Some(attempt.block.number);
        GateDecision::Submit(
            Submission {
                gas: attempt.config.max_gas_usage,
                gas_price,
                nonce: attempt.block.nonce,
                block_number: attempt.block.number,
                confirmations: 1,
                amount,
            },
        )
    }

    /// Releases the lock once the submission is confirmed or has failed.
    pub fn release(&mut self)
        ensures
            *final(self) == spec_release(*old(self)),
    {
        self.executing = None;
    }

    /// How a pending swap relates to the attempt in flight: `None` when the
    /// lock is free or the swap does not trade its tokens.
    pub fn observe(&self, swap: &Swap) -> (r: Option<SwapMatch>)
        ensures
            r == match self.executing {
                None => None,
                Some(e) => match *swap {
                    Swap::UniswapSwap(s) => spec_path_match(
                        s.tokens@,
                        e.borrow_token@,
                        e.profit_token@,
                    ),
                    Swap::BalancerSwap(s) => spec_pool_match(
                        s.pool@,
                        s.token_in,
                        s.token_out,
                        e.borrow_token@,
                        e.profit_token@,
                        e.balancer_pool@,
                    ),
                },
            },
    {
        match &self.executing {
            None => None,
            Some(e) => swap.tokens_match(&e.borrow_token, &e.profit_token, &e.balancer_pool),
        }
    }
}

/// The arguments of the executor's `perform` call.
#[derive(Clone, Copy, Debug)]
pub struct PerformCall {
    /// 0 when the pair lends `token0`, 1 when it lends `token1`.
    pub borrow: u8,
    pub amount: U256,
    pub uniswap_pair: Address,
    pub balancer_pool: Address,
    pub token0: Address,
    pub token1: Address,
    pub reserve0: U256,
    pub reserve1: U256,
    pub balance0: U256,
    pub balance1: U256,
}

/// The `perform` arguments of a net-profit attempt, from the snapshots it
/// was evaluated on; `None` for another result or when a snapshot or
/// balance is missing.
pub fn perform_call(attempt: &ArbitrageAttempt, ctx: &Context) -> (r: Option<PerformCall>)
    ensures
        match r {
            Some(c) => {
                &&& attempt.result matches ArbitrageResult::NetProfit { amount, .. } && c.amount
                    == amount
                &&& c.borrow == (if attempt.pair.token0.address@ == attempt.borrow_token.address@ {
                    0u8
                } else {
                    1u8
                })
                &&& c.uniswap_pair == attempt.pair.uniswap_pair
                &&& c.balancer_pool == attempt.pair.balancer_pool
                &&& c.token0 == attempt.pair.token0.address
                &&& c.token1 == attempt.pair.token1.address
                &&& spec_entry(ctx.pairs@, attempt.pair.uniswap_pair@) matches Some(u) && c.reserve0
                    == u.reserve0 && c.reserve1 == u.reserve1
                &&& spec_entry(ctx.pools@, attempt.pair.balancer_pool@) matches Some(p) && spec_entry(
                    p.balances@,
                    attempt.pair.token0.address@,
                ) == Some(c.balance0) && spec_entry(p.balances@, attempt.pair.token1.address@)
                    == Some(c.balance1)
            },
            None => !(attempt.result is NetProfit) || spec_entry(
                ctx.pairs@,
                attempt.pair.uniswap_pair@,
            ) is None || match spec_entry(ctx.pools@, attempt.pair.balancer_pool@) {
                None => true,
                Some(p) => spec_entry(p.balances@, attempt.pair.token0.address@) is None
                    || spec_entry(p.balances@, attempt.pair.token1.address@) is None,
            },
        },
{
    let amount = match attempt.result {
        ArbitrageResult::NetProfit { amount, .. } => amount,
        _ => return None,
    };
    let borrow: u8 = if attempt.pair.token0.address.same(&attempt.borrow_token.address) {
        0
    } else {
        1
    };
    let pair = match find_entry(&ctx.pairs, &attempt.pair.uniswap_pair) {
        Some(u) => u,
        None => return None,
    };
    let pool = match find_entry(&ctx.pools, &attempt.pair.balancer_pool) {
        Some(p) => p,
        None => return None,
    };
    let balance0 = match find_entry(&pool.balances, &attempt.pair.token0.address) {
        Some(b) => *b,
        None => return None,
    };
    let balance1 = match find_entry(&pool.balances, &attempt.pair.token1.address) {
        Some(b) => *b,
        None => return None,
    };
    Some(
        PerformCall {
            borrow,
            amount,
            uniswap_pair: attempt.pair.uniswap_pair,
            balancer_pool: attempt.pair.balancer_pool,
            token0: attempt.pair.token0.address,
            token1: attempt.pair.token1.address,
            reserve0: pair.reserve0,
            reserve1: pair.reserve1,
            balance0,
            balance1,
        },
    )
}

/// The lock accepts a candidate only from a block after the last accepted
/// one, and remembers that block.
pub proof fn lemma_block_monotonic(g: ExecutionGate, attempt: ArbitrageAttempt)
    requires
        spec_offer(g, attempt).1 is Submit,
    ensures
        g.last_block matches Some(last) ==> last < attempt.block.number,
        spec_offer(g, attempt).0.last_block == Some(attempt.block.number),
{
}

/// Of two candidates accepted one after the other, whatever releases came
/// between, the second is from a later block.
pub proof fn lemma_accepted_blocks_increase(
    g: ExecutionGate,
    first: ArbitrageAttempt,
    second: ArbitrageAttempt,
    released: bool,
)
    requires
        spec_offer(g, first).1 is Submit,
        ({
            let g1 = spec_offer(g, first).0;
            let g2 = if released {
                spec_release(g1)
            } else {
                g1
            };
            spec_offer(g2, second).1 is Submit
        }),
    ensures
        first.block.number < second.block.number,
{
}

/// Single flight: a candidate is submitted only while nothing is in flight,
/// and of two candidates offered with no release between, at most one is
/// submitted.
pub proof fn lemma_single_flight(g: ExecutionGate, first: ArbitrageAttempt, second: ArbitrageAttempt)
    ensures
        spec_offer(g, first).1 is Submit ==> g.executing is None && spec_offer(
            g,
            first,
        ).0.executing is Some,
        !(spec_offer(g, first).1 is Submit && spec_offer(spec_offer(g, first).0, second).1 is Submit),
{
}

} // verus!
