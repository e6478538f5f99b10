//! The tokens the router quotes and settles.

use vstd::prelude::*;
use crate::text::{lowercase, owned, unicode_lowercase};

verus! {

/// A supported token. `Eth` stands for native ETH and, inside pools, WETH.
#[derive(Clone, Copy, PartialEq, Eq, Structural, Debug)]
pub enum Token {
    Eth,
    Usdc,
    Usdt,
}

/// The token that a lowercased name denotes: `eth` and `weth` for ETH,
/// `usdc`, `usdt`; anything else denotes none.
pub open spec fn token_named(name: Seq<char>) -> Option<Token> {
    if name == "eth"@ || name == "weth"@ {
        Some(Token::Eth)
    } else if name == "usdc"@ {
        Some(Token::Usdc)
    } else if name == "usdt"@ {
        Some(Token::Usdt)
    } else {
        None
    }
}

impl Token {
    /// Number of decimals of the token's raw units.
    pub open spec fn spec_decimals(self) -> u8 {
        match self {
            Token::Eth => 18,
            Token::Usdc | Token::Usdt => 6,
        }
    }

    /// Number of decimals of the token's raw units: 18 for ETH, 6 for the
    /// stablecoins.
    pub fn decimals(self) -> (res: u8)
        ensures
            res == self.spec_decimals(),
    {
        match self {
            Token::Eth => 18,
            Token::Usdc | Token::Usdt => 6,
        }
    }

    /// Whether a transaction spending this token needs an ERC-20 `approve()`
    /// first: every token but native ETH.
    pub fn requires_approval(self) -> (res: bool)
        ensures
            res == !(self is Eth),
    {
        match self {
            Token::Eth => false,
            _ => true,
        }
    }

    /// The token an already lowercased name denotes.
    pub fn from_name(name: &str) -> (res: Option<Token>)
        ensures
            res == token_named(name@),
    {
        let name = owned(name);
        if name == owned("eth") || name == owned("weth") {
            Some(Token::Eth)
        } else if name == owned("usdc") {
            Some(Token::Usdc)
        } else if name == owned("usdt") {
            Some(Token::Usdt)
        } else {
            None
        }
    }

    /// The token a user-supplied name denotes, ignoring case.
    pub fn from_str(s: &str) -> (res: Option<Token>)
        ensures
            res == token_named(unicode_lowercase(s@)),
    {
        let name = lowercase(s);
        Token::from_name(name.as_str())
    }
}

} // verus!
