//! Addresses, tokens and the pairs that the engine watches.

use vstd::prelude::*;

verus! {

/// A 20-byte account or contract address.
#[derive(Clone, Copy, Debug, PartialEq, Eq, Hash)]
pub struct Address {
    pub bytes: [u8; 20],
}

impl View for Address {
    type V = Seq<u8>;

    open spec fn view(&self) -> Seq<u8> {
        self.bytes@
    }
}

impl Address {
    /// The twenty bytes of `input` that start at `start`.
    pub fn from_slice(input: &[u8], start: usize) -> (r: Address)
        requires
            start + 20 <= input@.len(),
        ensures
            r@ == input@.subrange(start as int, start + 20),
    {
        let mut bytes: [u8; 20] = [0; 20];
        let n = input.len();
        let mut i: usize = 0;
        while i < 20
            invariant
                0 <= i <= 20,
                n == input@.len(),
                start + 20 <= input@.len(),
                bytes@.len() == 20,
                forall|j: int| 0 <= j < i ==> bytes@[j] == input@[start + j],
            decreases 20 - i,
        {
            bytes[i] = input[start + i];
            i = i + 1;
        }
        let r = Address { bytes };
        assert(r@ =~= input@.subrange(start as int, start + 20));
        r
    }

    /// Whether two addresses are the same.
    pub fn same(&self, other: &Address) -> (r: bool)
        ensures
            r == (self@ == other@),
    {
        let mut i: usize = 0;
        while i < 20
            invariant
                0 <= i <= 20,
                self@.len() == 20,
                other@.len() == 20,
                forall|j: int| 0 <= j < i ==> self@[j] == other@[j],
            decreases 20 - i,
        {
            if self.bytes[i] != other.bytes[i] {
                return false;
            }
            i = i + 1;
        }
        assert(self@ =~= other@);
        true
    }
}

/// Whether an optional address is present and equal to `a`.
pub open spec fn is_address(o: Option<Address>, a: Seq<u8>) -> bool {
    match o {
        Some(x) => x@ == a,
        None => false,
    }
}

/// An ERC-20 token as the registry knows it.
#[derive(Clone, Debug)]
pub struct Token {
    pub address: Address,
    pub symbol: String,
    pub decimals: usize,
    /// The constant-product pair against WETH that prices this token.
    pub weth_uniswap_pair: Option<Address>,
}

impl Token {
    /// A field-by-field copy.
    pub fn duplicate(&self) -> (r: Token)
        ensures
            r == *self,
    {
        Token {
            address: self.address,
            symbol: self.symbol.clone(),
            decimals: self.decimals,
            weth_uniswap_pair: self.weth_uniswap_pair,
        }
    }
}

/// A constant-product pair and a weighted pool that both trade `token0`
/// against `token1`.
#[derive(Clone, Copy, Debug, PartialEq, Eq, Hash)]
pub struct Pair {
    pub balancer: Address,
    pub uniswap: Address,
    pub token0: Address,
    pub token1: Address,
}

/// The registry: the known tokens and the watched pairs.
#[derive(Clone, Debug)]
pub struct Pairs {
    pub tokens: Vec<Token>,
    pub pairs: Vec<Pair>,
}

impl Pairs {
    /// Each token address appears once, so tokens are known by address.
    pub open spec fn wf(&self) -> bool {
        forall|i: int, j: int|
            0 <= i < j < self.tokens@.len() ==> self.tokens@[i].address@ != self.tokens@[j].address@
    }
}

/// The first token of `tokens` with address `a`.
pub open spec fn spec_find_token(tokens: Seq<Token>, a: Seq<u8>) -> Option<Token>
    decreases tokens.len(),
{
    if tokens.len() == 0 {
        None
    } else if tokens[0].address@ == a {
        Some(tokens[0])
    } else {
        spec_find_token(tokens.drop_first(), a)
    }
}

/// Looks a token up by its address.
pub fn find_token(tokens: &Vec<Token>, address: &Address) -> (r: Option<Token>)
    ensures
        r == spec_find_token(tokens@, address@),
{
    let mut i: usize = 0;
    assert(tokens@.subrange(0, tokens@.len() as int) =~= tokens@);
    while i < tokens.len()
        invariant
            0 <= i <= tokens@.len(),
            spec_find_token(tokens@, address@) == spec_find_token(
                tokens@.subrange(i as int, tokens@.len() as int),
                address@,
            ),
        decreases tokens@.len() - i,
    {
        proof {
            let rest = tokens@.subrange(i as int, tokens@.len() as int);
            assert(rest.drop_first() =~= tokens@.subrange(i + 1, tokens@.len() as int));
        }
        if tokens[i].address.same(address) {
            return Some(tokens[i].duplicate());
        }
        i = i + 1;
    }
    None
}

/// Whether `a` is one of `addresses`.
pub fn contains_address(addresses: &Vec<Address>, a: &Address) -> (r: bool)
    ensures
        r == exists|i: int| 0 <= i < addresses@.len() && addresses@[i]@ == a@,
{
    let mut i: usize = 0;
    while i < addresses.len()
        invariant
            0 <= i <= addresses@.len(),
            forall|j: int| 0 <= j < i ==> addresses@[j]@ != a@,
        decreases addresses@.len() - i,
    {
        if addresses[i].same(a) {
            return true;
        }
        i = i + 1;
    }
    false
}

} // verus!
