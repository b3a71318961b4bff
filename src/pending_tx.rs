//! Pending transactions that may trade against a candidate: router and pool
//! swaps, and calls to a known arbitrage operator's contract.

use crate::amount::U256;
use crate::registry::{Address, Token};
use crate::txs::{
    spec_balancer_decode, spec_path_match, spec_uniswap_decode, BalancerSwap, Transaction, TxHash,
    UniswapSwap,
};
use vstd::prelude::*;

verus! {

/// What a pending transaction does.
#[derive(Debug)]
pub enum Kind {
    UniswapSwap(UniswapSwap),
    BalancerSwap(BalancerSwap),
    /// A call into the operator contract: assumed to conflict with anything.
    WeskerOperation,
}

#[derive(Debug)]
pub struct PendingTx {
    pub gas_price: U256,
    pub hash: TxHash,
    pub kind: Kind,
}

/// The operator contract's address.
pub open spec fn wesker_address() -> Seq<u8> {
    seq![
        0x00u8, 0x00u8, 0x00u8, 0x00u8, 0x00u8, 0x00u8, 0x7fu8, 0x15u8, 0x0bu8, 0xd6u8,
        0xf5u8, 0x4cu8, 0x40u8, 0xa3u8, 0x4du8, 0x7cu8, 0x3du8, 0x5eu8, 0x9fu8, 0x56u8,
    ]
}

/// The operator contract's entry points.
pub open spec fn wesker_selector(b0: u8, b1: u8, b2: u8, b3: u8) -> bool {
    let sel = (b0, b1, b2, b3);
    sel == (0x03u8, 0x03u8, 0x19u8, 0x1cu8) || sel == (0x00u8, 0x03u8, 0x19u8, 0x1cu8) || sel == (
        0x03u8,
        0x02u8,
        0x19u8,
        0x1cu8,
    ) || sel == (0x01u8, 0x02u8, 0x19u8, 0x1cu8) || sel == (0x01u8, 0x03u8, 0x19u8, 0x1cu8) || sel
        == (0x03u8, 0x02u8, 0xe8u8, 0x92u8) || sel == (0x00u8, 0x02u8, 0x19u8, 0x1cu8) || sel == (
        0x01u8,
        0x02u8,
        0xe8u8,
        0x92u8,
    ) || sel == (0x00u8, 0x02u8, 0xe8u8, 0x92u8) || sel == (0x03u8, 0x03u8, 0xe8u8, 0x92u8)
}

fn wesker() -> (r: Address)
    ensures
        r@ == wesker_address(),
{
    let r = Address {
        bytes: [
            0x00, 0x00, 0x00, 0x00, 0x00, 0x00, 0x7f, 0x15, 0x0b, 0xd6, 0xf5, 0x4c, 0x40, 0xa3,
            0x4d, 0x7c, 0x3d, 0x5e, 0x9f, 0x56,
        ],
    };
    assert(r@ =~= wesker_address());
    r
}

/// Whether a transaction calls the operator contract.
pub open spec fn spec_is_wesker(tx: Transaction) -> bool {
    &&& tx.input@.len() >= 4
    &&& tx.to matches Some(to) && to@ == wesker_address()
    &&& wesker_selector(tx.input@[0], tx.input@[1], tx.input@[2], tx.input@[3])
}

fn is_wesker(tx: &Transaction) -> (r: bool)
    requires
        tx.input@.len() >= 4,
    ensures
        r == spec_is_wesker(*tx),
{
    let to = match tx.to {
        Some(t) => t,
        None => return false,
    };
    if !to.same(&wesker()) {
        return false;
    }
    let (b0, b1, b2, b3) = (tx.input[0], tx.input[1], tx.input[2], tx.input[3]);
    match (b0, b1, b2, b3) {
        (0x03, 0x03, 0x19, 0x1c) | (0x00, 0x03, 0x19, 0x1c) | (0x03, 0x02, 0x19, 0x1c) | (
            0x01,
            0x02,
            0x19,
            0x1c,
        ) | (0x01, 0x03, 0x19, 0x1c) | (0x03, 0x02, 0xe8, 0x92) | (0x00, 0x02, 0x19, 0x1c) | (
            0x01,
            0x02,
            0xe8,
            0x92,
        ) | (0x00, 0x02, 0xe8, 0x92) | (0x03, 0x03, 0xe8, 0x92) => true,
        _ => false,
    }
}

/// What `PendingTx::from_transaction` decodes: an operator call first, then
/// a pool swap, then a router swap.
pub open spec fn spec_pending_decode(
    tx: Transaction,
    router: Seq<u8>,
    pools: Seq<Address>,
    tokens: Seq<Token>,
    p: PendingTx,
) -> bool {
    &&& p.gas_price == tx.gas_price
    &&& p.hash == tx.hash
    &&& match p.kind {
        Kind::WeskerOperation => spec_is_wesker(tx),
        Kind::BalancerSwap(b) => !spec_is_wesker(tx) && spec_balancer_decode(tx, pools, tokens)
            == Some((b.method, b.token_in, b.token_out)),
        Kind::UniswapSwap(u) => !spec_is_wesker(tx) && spec_balancer_decode(tx, pools, tokens) is None
            && spec_uniswap_decode(tx, router, tokens) == Some((u.method, u.tokens@)),
    }
}

impl PendingTx {
    /// Decodes a pending transaction; `None` for one that is none of the
    /// three kinds.
    pub fn from_transaction(
        tx: &Transaction,
        uniswap_router_address: &Address,
        balancer_pools: &Vec<Address>,
        tokens: &Vec<Token>,
    ) -> (r: Option<PendingTx>)
        ensures
            match r {
                Some(p) => spec_pending_decode(
                    *tx,
                    uniswap_router_address@,
                    balancer_pools@,
                    tokens@,
                    p,
                ),
                None => !spec_is_wesker(*tx) && spec_balancer_decode(*tx, balancer_pools@, tokens@)
                    is None && spec_uniswap_decode(*tx, uniswap_router_address@, tokens@) is None,
            },
    {
        if tx.input.len() < 4 {
            return None;
        }
        let kind = if is_wesker(tx) {
            Kind::WeskerOperation
        } else if let Some(b) = BalancerSwap::from_transaction(tx, balancer_pools, tokens) {
            Kind::BalancerSwap(b)
        } else if let Some(u) = UniswapSwap::from_transaction(tx, uniswap_router_address, tokens) {
            Kind::UniswapSwap(u)
        } else {
            return None;
        };
        Some(PendingTx { gas_price: tx.gas_price, hash: tx.hash, kind })
    }

    /// Whether this transaction trades against a candidate that sells
    /// `token_from` for `token_to` on `balancer_pool`: a router swap with a
    /// hop between the two tokens in either direction, a pool swap on that
    /// pool, or any operator call.
    pub fn conflicts(&self, token_from: &Address, token_to: &Address, balancer_pool: &Address) -> (r:
        bool)
        ensures
            r == match self.kind {
                Kind::UniswapSwap(s) => spec_path_match(s.tokens@, token_from@, token_to@) is Some,
                Kind::BalancerSwap(s) => s.pool@ == balancer_pool@,
                Kind::WeskerOperation => true,
            },
    {
        match &self.kind {
            Kind::UniswapSwap(s) => s.tokens_match(token_from, token_to).is_some(),
            Kind::BalancerSwap(s) => s.pool.same(balancer_pool),
            Kind::WeskerOperation => true,
        }
    }
}

} // verus!
