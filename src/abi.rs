//! The call data of the contract calls the engine makes, and the words of
//! their answers: 32-byte big-endian slots after a 4-byte selector.

use crate::amount::U256;
use crate::gate::PerformCall;
use crate::registry::Address;
use vstd::prelude::*;

verus! {

/// The value of big-endian bytes.
pub open spec fn be_value(s: Seq<u8>) -> nat
    decreases s.len(),
{
    if s.len() == 0 {
        0
    } else {
        be_value(s.drop_last()) * 256 + s.last() as nat
    }
}

/// The address slot of `a`: twelve zero bytes, then the address.
pub open spec fn address_word(a: Seq<u8>) -> Seq<u8> {
    Seq::new(12, |i: int| 0u8) + a
}

/// The `i`-th 32-byte slot after a selector.
pub open spec fn slot(data: Seq<u8>, i: int) -> Seq<u8> {
    data.subrange(4 + 32 * i, 4 + 32 * i + 32)
}

/// Relies on `U256::to_big_endian` of the uint crate: 32 bytes, most
/// significant first.
#[verifier::external_body]
fn prim_to_big_endian(x: U256) -> (r: [u8; 32])
    ensures
        be_value(r@) == x@,
{
    let mut bytes = [0u8; 32];
    web3::types::U256(x.words).to_big_endian(&mut bytes);
    bytes
}

/// Relies on `U256::from_big_endian` of the uint crate, which reads at most
/// 32 bytes, most significant first, and panics on more.
#[verifier::external_body]
fn prim_from_big_endian(bytes: &[u8]) -> (r: U256)
    requires
        bytes@.len() <= 32,
    ensures
        r@ == be_value(bytes@),
{
    U256 { words: web3::types::U256::from_big_endian(bytes).0 }
}

fn push_bytes(out: &mut Vec<u8>, bytes: &[u8; 32])
    ensures
        final(out)@ == old(out)@ + bytes@,
{
    let ghost start = out@;
    let mut i: usize = 0;
    while i < 32
        invariant
            0 <= i <= 32,
            out@ == start + bytes@.subrange(0, i as int),
        decreases 32 - i,
    {
        out.push(bytes[i]);
        i = i + 1;
        assert(out@ =~= start + bytes@.subrange(0, i as int));
    }
    assert(bytes@.subrange(0, 32) =~= bytes@);
}

fn push_address(out: &mut Vec<u8>, a: &Address)
    ensures
        final(out)@ == old(out)@ + address_word(a@),
{
    let ghost start = out@;
    let mut i: usize = 0;
    while i < 12
        invariant
            0 <= i <= 12,
            out@ == start + Seq::new(i as nat, |j: int| 0u8),
        decreases 12 - i,
    {
        out.push(0);
        i = i + 1;
        assert(out@ =~= start + Seq::new(i as nat, |j: int| 0u8));
    }
    let mut k: usize = 0;
    while k < 20
        invariant
            0 <= k <= 20,
            a@.len() == 20,
            out@ == start + address_word(a@.subrange(0, k as int)),
        decreases 20 - k,
    {
        out.push(a.bytes[k]);
        k = k + 1;
        assert(out@ =~= start + address_word(a@.subrange(0, k as int)));
    }
    assert(a@.subrange(0, 20) =~= a@);
}

/// The call data of a method that takes one address.
pub fn call_with_address(selector: [u8; 4], a: &Address) -> (r: Vec<u8>)
    ensures
        r@ == selector@ + address_word(a@),
{
    let mut out = call_without_arguments(selector);
    push_address(&mut out, a);
    out
}

/// The call data of a method without arguments.
pub fn call_without_arguments(selector: [u8; 4]) -> (r: Vec<u8>)
    ensures
        r@ == selector@,
{
    let mut out: Vec<u8> = Vec::new();
    let mut i: usize = 0;
    while i < 4
        invariant
            0 <= i <= 4,
            out@ == selector@.subrange(0, i as int),
        decreases 4 - i,
    {
        out.push(selector[i]);
        i = i + 1;
        assert(out@ =~= selector@.subrange(0, i as int));
    }
    assert(selector@.subrange(0, 4) =~= selector@);
    out
}

/// The call data of the executor's `perform`: the selector, then the ten
/// arguments in order, one slot each.
pub fn perform_calldata(selector: [u8; 4], call: &PerformCall) -> (r: Vec<u8>)
    ensures
        r@.len() == 4 + 32 * 10,
        r@.subrange(0, 4) == selector@,
        be_value(slot(r@, 0)) == call.borrow as nat,
        be_value(slot(r@, 1)) == call.amount@,
        slot(r@, 2) == address_word(call.uniswap_pair@),
        slot(r@, 3) == address_word(call.balancer_pool@),
        slot(r@, 4) == address_word(call.token0@),
        slot(r@, 5) == address_word(call.token1@),
        be_value(slot(r@, 6)) == call.reserve0@,
        be_value(slot(r@, 7)) == call.reserve1@,
        be_value(slot(r@, 8)) == call.balance0@,
        be_value(slot(r@, 9)) == call.balance1@,
{
    let w0 = prim_to_big_endian(U256::from_u64(call.borrow as u64));
    let w1 = prim_to_big_endian(call.amount);
    let w6 = prim_to_big_endian(call.reserve0);
    let w7 = prim_to_big_endian(call.reserve1);
    let w8 = prim_to_big_endian(call.balance0);
    let w9 = prim_to_big_endian(call.balance1);
    let mut out = call_without_arguments(selector);
    push_bytes(&mut out, &w0);
    push_bytes(&mut out, &w1);
    push_address(&mut out, &call.uniswap_pair);
    push_address(&mut out, &call.balancer_pool);
    push_address(&mut out, &call.token0);
    push_address(&mut out, &call.token1);
    push_bytes(&mut out, &w6);
    push_bytes(&mut out, &w7);
    push_bytes(&mut out, &w8);
    push_bytes(&mut out, &w9);
    proof {
        let r = out@;
        assert(r.subrange(0, 4) =~= selector@);
        assert(slot(r, 0) =~= w0@);
        assert(slot(r, 1) =~= w1@);
        assert(slot(r, 2) =~= address_word(call.uniswap_pair@));
        assert(slot(r, 3) =~= address_word(call.balancer_pool@));
        assert(slot(r, 4) =~= address_word(call.token0@));
        assert(slot(r, 5) =~= address_word(call.token1@));
        assert(slot(r, 6) =~= w6@);
        assert(slot(r, 7) =~= w7@);
        assert(slot(r, 8) =~= w8@);
        assert(slot(r, 9) =~= w9@);
    }
    out
}

/// The `index`-th word of a call's answer, or `None` when the answer is
/// too short.
pub fn word_at(data: &Vec<u8>, index: usize) -> (r: Option<U256>)
    ensures
        match r {
            Some(v) => 32 * index + 32 <= data@.len() && v@ == be_value(
                data@.subrange(32 * index as int, 32 * index + 32),
            ),
            None => 32 * index + 32 > data@.len(),
        },
{
    let len = data.len();
    if index >= len / 32 {
        proof {
            assert(32 * (len / 32) <= len) by (nonlinear_arith);
            assert(32 * index + 32 > len) by (nonlinear_arith)
                requires
                    index >= len / 32,
            ;
        }
        return None;
    }
    proof {
        assert(32 * index + 32 <= len) by (nonlinear_arith)
            requires
                index < len / 32,
        ;
    }
    let start = 32 * index;
    let mut word: Vec<u8> = Vec::new();
    let mut i: usize = 0;
    while i < 32
        invariant
            0 <= i <= 32,
            start == 32 * index,
            start + 32 <= len == data@.len(),
            word@ == data@.subrange(start as int, start + i),
        decreases 32 - i,
    {
        word.push(data[start + i]);
        i = i + 1;
        assert(word@ =~= data@.subrange(start as int, start + i));
    }
    Some(prim_from_big_endian(word.as_slice()))
}

/// The address in the `index`-th word of a call's answer, or `None` when
/// the answer is too short or the word's first twelve bytes are not zero.
pub fn address_at(data: &Vec<u8>, index: usize) -> (r: Option<Address>)
    ensures
        match r {
            Some(a) => 32 * index + 32 <= data@.len() && data@.subrange(
                32 * index as int,
                32 * index + 32,
            ) == address_word(a@),
            None => 32 * index + 32 > data@.len() || exists|j: int|
                32 * index <= j < 32 * index + 12 && data@[j] != 0,
        },
{
    let len = data.len();
    if index >= len / 32 {
        proof {
            assert(32 * (len / 32) <= len) by (nonlinear_arith);
            assert(32 * index + 32 > len) by (nonlinear_arith)
                requires
                    index >= len / 32,
            ;
        }
        return None;
    }
    proof {
        assert(32 * index + 32 <= len) by (nonlinear_arith)
            requires
                index < len / 32,
        ;
    }
    let start = 32 * index;
    let mut i: usize = 0;
    while i < 12
        invariant
            0 <= i <= 12,
            start == 32 * index,
            start + 32 <= len == data@.len(),
            forall|j: int| start <= j < start + i ==> data@[j] == 0,
        decreases 12 - i,
    {
        if data[start + i] != 0 {
            return None;
        }
        i = i + 1;
    }
    let a = Address::from_slice(data.as_slice(), start + 12);
    assert(data@.subrange(start as int, start + 32) =~= address_word(a@));
    Some(a)
}

/// The call data of a method whose arguments are all words.
pub fn call_with_words(selector: [u8; 4], words: &Vec<U256>) -> (r: Vec<u8>)
    ensures
        r@.len() == 4 + 32 * words@.len(),
        r@.subrange(0, 4) == selector@,
        forall|i: int| 0 <= i < words@.len() ==> be_value(slot(r@, i)) == (#[trigger] words@[i])@,
{
    let mut out = call_without_arguments(selector);
    let mut k: usize = 0;
    while k < words.len()
        invariant
            0 <= k <= words@.len(),
            out@.len() == 4 + 32 * k,
            out@.subrange(0, 4) == selector@,
            forall|i: int| 0 <= i < k ==> be_value(slot(out@, i)) == (#[trigger] words@[i])@,
        decreases words@.len() - k,
    {
        let b = prim_to_big_endian(words[k]);
        let ghost prev = out@;
        push_bytes(&mut out, &b);
        proof {
            assert forall|i: int| 0 <= i < k + 1 implies be_value(slot(out@, i)) == (
            #[trigger] words@[i])@ by {
                if i < k {
                    assert(slot(out@, i) =~= slot(prev, i));
                } else {
                    assert(slot(out@, i) =~= b@);
                }
            }
            assert(out@.subrange(0, 4) =~= prev.subrange(0, 4));
        }
        k = k + 1;
    }
    out
}

/// The call data of a router quote for `amount` along the path `from`,
/// `to`: the amount, the offset and length of the path, then its two
/// addresses.
pub fn amounts_out_calldata(selector: [u8; 4], amount: U256, from: &Address, to: &Address) -> (r:
    Vec<u8>)
    ensures
        r@.len() == 4 + 32 * 5,
        r@.subrange(0, 4) == selector@,
        be_value(slot(r@, 0)) == amount@,
        be_value(slot(r@, 1)) == 64,
        be_value(slot(r@, 2)) == 2,
        slot(r@, 3) == address_word(from@),
        slot(r@, 4) == address_word(to@),
{
    let mut words: Vec<U256> = Vec::new();
    words.push(amount);
    words.push(U256::from_u64(64));
    words.push(U256::from_u64(2));
    let mut out = call_with_words(selector, &words);
    let ghost head = out@;
    push_address(&mut out, from);
    push_address(&mut out, to);
    proof {
        let r = out@;
        assert(r.subrange(0, 4) =~= head.subrange(0, 4));
        assert(slot(r, 0) =~= slot(head, 0));
        assert(slot(r, 1) =~= slot(head, 1));
        assert(slot(r, 2) =~= slot(head, 2));
        assert(words@[0] == amount && words@[1]@ == 64 && words@[2]@ == 2);
        assert(slot(r, 3) =~= address_word(from@));
        assert(slot(r, 4) =~= address_word(to@));
    }
    out
}

} // verus!
