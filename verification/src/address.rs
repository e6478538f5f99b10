//! Ethereum account and contract addresses.

use vstd::prelude::*;
use crate::text::{parse_hex20, prefixed_hex, lemma_parse_prefixed_hex};

verus! {

/// A 20-byte Ethereum address, big endian as written in hex.
#[derive(Clone, Copy, Debug)]
pub struct EthAddress {
    pub bytes: [u8; 20],
}

impl EthAddress {
    /// The address as ethers prints it with `{:#x}`: `0x` and forty lowercase
    /// hex digits.
    pub fn to_hex(&self) -> (res: String)
        ensures
            res@ == prefixed_hex(self.bytes@),
    {
        h160_lower_hex(self.bytes)
    }

    /// Parses an address as ethers' `Address::from_str` does: an optional
    /// lowercase `0x` prefix, then exactly forty hex digits in either case,
    /// with spaces, tabs and line breaks ignored anywhere after the prefix.
    pub fn parse(s: &str) -> (res: Option<EthAddress>)
        ensures
            match res {
                Some(a) => parse_hex20(s@) == Some(a.bytes@),
                None => parse_hex20(s@) is None,
            },
    {
        h160_from_str(s)
    }
}

/// Formatting an address and parsing it again gives the same address.
pub proof fn law_address_hex_round_trip(a: EthAddress)
    ensures
        parse_hex20(prefixed_hex(a.bytes@)) == Some(a.bytes@),
{
    lemma_parse_prefixed_hex(a.bytes@);
}

/// `LowerHex` of `ethers::types::H160` (fixed-hash) with the alternate flag:
/// `0x`, then each byte as two lowercase hex digits.
#[verifier::external_body]
fn h160_lower_hex(bytes: [u8; 20]) -> (res: String)
    ensures
        res@ == prefixed_hex(bytes@),
{
    format!("{:#x}", ethers::types::H160(bytes))
}

/// `FromStr` of `ethers::types::H160` (fixed-hash with rustc-hex): strips
/// one leading `0x`, then decodes hex digits pairwise, skipping ASCII
/// spaces, tabs, carriage returns and line feeds, and fails on any other
/// character or unless exactly twenty bytes come out.
#[verifier::external_body]
fn h160_from_str(s: &str) -> (res: Option<EthAddress>)
    ensures
        match res {
            Some(a) => parse_hex20(s@) == Some(a.bytes@),
            None => parse_hex20(s@) is None,
        },
{
    s.parse::<ethers::types::H160>().ok().map(|h| EthAddress { bytes: h.0 })
}

} // verus!
