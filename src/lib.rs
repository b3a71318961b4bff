//! Arbitrage engine between a constant-product pair and an equal-weight
//! weighted pool.
//!
//! - `amount`, `bignum`: 256-bit amounts and signed big integers.
//! - `calc`: fixed-point pricing of both pools and the maximum-profit solver.
//! - `registry`, `ingest`, `watchlist`: tokens and pairs, how the registry is
//!   built, and what is read at each block.
//! - `evaluate`: per-block evaluation, results and their order, gas prices.
//! - `txs`, `pending_tx`: decoding of mempool swaps and conflict tests.
//! - `gate`: the single-flight submission lock.
//! - `heads`: the latest-head source.
//! - `abi`: call data and answer words of the contract calls.
//! - `probe`: the round-trip probe and its bisection.

pub mod abi;
pub mod amount;
pub mod bignum;
pub mod calc;
pub mod evaluate;
pub mod gate;
pub mod heads;
pub mod ingest;
pub mod pending_tx;
pub mod probe;
pub mod order;
pub mod registry;
pub mod txs;
pub mod watchlist;
