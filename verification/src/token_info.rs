//! Token descriptions as the token-list repository stores them (`info.json`),
//! on-chain addresses, and the ERC-20 token built from a description.

use vstd::prelude::*;
use vstd::utf8::encode_utf8;

verus! {

/// A 20-byte on-chain address.
#[derive(Clone, Copy, Debug, PartialEq, Eq)]
pub struct Address {
    pub bytes: [u8; 20],
}

impl View for Address {
    type V = Seq<u8>;

    open spec fn view(&self) -> Seq<u8> {
        self.bytes@
    }
}

/// The value of one hexadecimal digit (either case), if `c` is one.
pub open spec fn hex_digit(c: u8) -> Option<u8> {
    if 48 <= c <= 57 {
        Some((c - 48) as u8)
    } else if 97 <= c <= 102 {
        Some((c - 87) as u8)
    } else if 65 <= c <= 70 {
        Some((c - 55) as u8)
    } else {
        None
    }
}

/// `b` without a leading `0x` or `0X`.
pub open spec fn strip_hex_prefix(b: Seq<u8>) -> Seq<u8> {
    if b.len() >= 2 && b[0] == 48 && (b[1] == 120 || b[1] == 88) { b.skip(2) } else { b }
}

/// The 20 bytes that the text `b` spells in hexadecimal: an even number of
/// characters, an optional `0x`/`0X` prefix, then exactly 40 hex digits.
pub open spec fn hex_address(b: Seq<u8>) -> Option<Seq<u8>> {
    let h = strip_hex_prefix(b);
    if b.len() % 2 != 0 || h.len() != 40 {
        None
    } else if forall|i: int| 0 <= i < 40 ==> (#[trigger] hex_digit(h[i])) is Some {
        Some(Seq::new(20, |i: int| (hex_digit(h[2 * i])->0 * 16 + hex_digit(h[2 * i + 1])->0) as u8))
    } else {
        None
    }
}

/// The address that the text `s` spells.
pub open spec fn address_of_text(s: Seq<char>) -> Option<Seq<u8>> {
    hex_address(encode_utf8(s))
}

/// `alloy_primitives::Address::from_str`: it decodes the hexadecimal text as
/// `const_hex::decode_to_array` does (even length, optional `0x`/`0X`, exactly
/// 40 digits of either case) and fails otherwise.
#[verifier::external_body]
fn parse_alloy_address(s: &str) -> (res: Option<Address>)
    ensures
        address_of_text(s@) is Some ==> res is Some,
        res matches Some(a) ==> address_of_text(s@) == Some(a@),
{
    match s.parse::<alloy_primitives::Address>() {
        Ok(a) => Some(Address { bytes: a.0.0 }),
        Err(_) => None,
    }
}

impl Address {
    /// Reads an address written in hexadecimal; `None` when the text is not one.
    pub fn parse(s: &str) -> (res: Option<Address>)
        ensures
            match res {
                Some(a) => address_of_text(s@) == Some(a@),
                None => address_of_text(s@) is None,
            },
    {
        parse_alloy_address(s)
    }

    /// Whether both addresses hold the same bytes.
    pub fn same_as(&self, other: &Address) -> (res: bool)
        ensures
            res == (self@ == other@),
    {
        let mut i: usize = 0;
        while i < 20
            invariant
                i <= 20,
                forall|j: int| 0 <= j < i ==> self@[j] == other@[j],
            decreases 20 - i,
        {
            if self.bytes[i] != other.bytes[i] {
                return false;
            }
            i = i + 1;
        }
        assert(self@ =~= other@);
        true
    }

    /// Whether every byte is zero.
    pub fn is_zero(&self) -> (res: bool)
        ensures
            res == (forall|j: int| 0 <= j < 20 ==> self@[j] == 0),
    {
        let mut i: usize = 0;
        while i < 20
            invariant
                i <= 20,
                forall|j: int| 0 <= j < i ==> self@[j] == 0,
            decreases 20 - i,
        {
            if self.bytes[i] != 0 {
                assert(self@[i as int] != 0);
                return false;
            }
            i = i + 1;
        }
        true
    }
}

/// The description of one token in the token-list repository.
#[derive(Clone, Debug, PartialEq, Eq)]
pub struct TokenInfo {
    pub name: String,
    /// The token standard (the `type` key).
    pub type2: String,
    pub symbol: String,
    pub decimals: u8,
    pub website: String,
    pub description: String,
    pub explorer: String,
    /// `active`, `abandoned`, `spam`, ...
    pub status: String,
    /// The token's address as text (the `id` key).
    pub address: String,
}

/// An ERC-20 token on a given chain.
#[derive(Clone, Debug, PartialEq, Eq)]
pub struct Erc20Token {
    pub chain_id: u64,
    pub address: Address,
    pub name: String,
    pub symbol: String,
    pub decimals: u8,
}

impl TokenInfo {
    /// The address the description gives, if its text is a valid address.
    pub fn checked_address(&self) -> (res: Option<Address>)
        ensures
            match res {
                Some(a) => address_of_text(self.address@) == Some(a@),
                None => address_of_text(self.address@) is None,
            },
    {
        Address::parse(self.address.as_str())
    }

    /// The ERC-20 token this description stands for on chain `chain_id`; the
    /// address text must be valid.
    pub fn to_erc20(&self, chain_id: u64) -> (res: Erc20Token)
        requires
            address_of_text(self.address@) is Some,
        ensures
            res.chain_id == chain_id,
            address_of_text(self.address@) == Some(res.address@),
            res.name@ == self.name@,
            res.symbol@ == self.symbol@,
            res.decimals == self.decimals,
    {
        let address = match self.checked_address() {
            Some(a) => a,
            None => {
                proof {
                    assert(false);
                }
                Address { bytes: [0u8; 20] }
            },
        };
        Erc20Token {
            chain_id,
            address,
            name: self.name.clone(),
            symbol: self.symbol.clone(),
            decimals: self.decimals,
        }
    }
}

} // verus!
