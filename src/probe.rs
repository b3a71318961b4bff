//! The round-trip probe: sell WETH for a token on one venue, sell the token
//! back on the other, and search the input that gains the most.

use crate::amount::U256;
use vstd::prelude::*;

verus! {

/// A probe's outcome: its WETH input, how far the output is from it, and
/// whether the output is more.
#[derive(Clone, Copy, Debug, PartialEq, Eq)]
pub struct ProbeOutcome {
    pub input: U256,
    pub delta: U256,
    pub profit: bool,
}

/// Where the token bought first is sold back.
#[derive(Clone, Copy, Debug, PartialEq, Eq)]
pub enum SecondLeg {
    /// The pair gave more tokens: sell them on the pool.
    SellOnBalancer(U256),
    /// The pool gave at least as many: sell them on the pair.
    SellOnUniswap(U256),
}

/// Buys on the venue that gives more tokens for the WETH and sells back on
/// the other.
pub fn second_leg(uniswap_output: U256, balancer_output: U256) -> (r: SecondLeg)
    ensures
        r == (if uniswap_output@ > balancer_output@ {
            SecondLeg::SellOnBalancer(uniswap_output)
        } else {
            SecondLeg::SellOnUniswap(balancer_output)
        }),
{
    if balancer_output.lt(uniswap_output) {
        SecondLeg::SellOnBalancer(uniswap_output)
    } else {
        SecondLeg::SellOnUniswap(balancer_output)
    }
}

/// The outcome of a probe that put in `eth_input` and got `weth_output` back.
pub fn settle(eth_input: U256, weth_output: U256) -> (r: ProbeOutcome)
    ensures
        r.input == eth_input,
        r.profit == (weth_output@ > eth_input@),
        r.delta@ == if r.profit {
            weth_output@ - eth_input@
        } else {
            eth_input@ - weth_output@
        },
{
    if weth_output.le(eth_input) {
        ProbeOutcome { input: eth_input, delta: eth_input.checked_sub(weth_output).unwrap(), profit: false }
    } else {
        ProbeOutcome { input: eth_input, delta: weth_output.checked_sub(eth_input).unwrap(), profit: true }
    }
}

/// A bisection over WETH inputs between `lo` and `hi`, keeping the best
/// outcome so far.
#[derive(Clone, Copy, Debug)]
pub struct Search {
    pub lo: U256,
    pub hi: U256,
    pub tolerance: U256,
    pub best: ProbeOutcome,
}

impl Search {
    /// The bounds stay ordered.
    pub open spec fn wf(&self) -> bool {
        self.lo@ <= self.hi@
    }

    /// Starts from the outcome at `lo`: no search when that loses.
    pub fn start(first: ProbeOutcome, lo: U256, hi: U256, tolerance: U256) -> (r: Option<Search>)
        requires
            lo@ <= hi@,
        ensures
            match r {
                Some(s) => first.profit && s == (Search { lo, hi, tolerance, best: first }) && s.wf(),
                None => !first.profit,
            },
    {
        if !first.profit {
            return None;
        }
        Some(Search { lo, hi, tolerance, best: first })
    }

    /// The next input to probe, the middle of the bounds, while they are
    /// farther apart than the tolerance.
    pub fn next_input(&self) -> (r: Option<U256>)
        requires
            self.wf(),
        ensures
            match r {
                Some(x) => self.hi@ - self.lo@ > self.tolerance@ && x@ == (self.lo@ + self.hi@) / 2,
                None => self.hi@ - self.lo@ <= self.tolerance@,
            },
    {
        let width = self.hi.checked_sub(self.lo).unwrap();
        if width.le(self.tolerance) {
            return None;
        }
        let half = width.checked_div(U256::from_u64(2)).unwrap();
        proof {
            crate::amount::lemma_below_modulus(self.hi);
        }
        Some(self.lo.checked_add(half).unwrap())
    }

    /// Records the outcome at the middle input `x`: a better gain moves the
    /// low bound up and becomes the best, anything else moves the high
    /// bound down.
    pub fn record(&mut self, x: U256, outcome: ProbeOutcome)
        requires
            old(self).wf(),
            old(self).lo@ <= x@ <= old(self).hi@,
        ensures
            final(self).wf(),
            final(self).tolerance == old(self).tolerance,
            if outcome.profit && outcome.delta@ > old(self).best.delta@ {
                final(self).lo == x && final(self).hi == old(self).hi && final(self).best == outcome
            } else {
                final(self).hi == x && final(self).lo == old(self).lo && final(self).best == old(
                    self,
                ).best
            },
    {
        if outcome.profit && self.best.delta.lt(outcome.delta) {
            self.lo = x;
            self.best = outcome;
        } else {
            self.hi = x;
        }
    }
}

/// The WETH amount `n` as whole units and ten-thousandths, read through
/// units of 10^14.
pub fn eth_parts(n: U256) -> (r: (U256, U256))
    ensures
        r.0@ == n@ / 100_000_000_000_000 / 10_000,
        r.1@ == n@ / 100_000_000_000_000 % 10_000,
{
    let units = n.checked_div(U256::from_u64(100_000_000_000_000)).unwrap();
    let whole = units.checked_div(U256::from_u64(10_000)).unwrap();
    let frac = units.checked_rem(U256::from_u64(10_000)).unwrap();
    (whole, frac)
}

} // verus!
