//! The chains the router serves and how a request picks among them.

use vstd::prelude::*;
use crate::address::EthAddress;
use crate::text::{lemma_hex_nibbles_of_digits, lemma_parse_plain_hex20, hex_value, lowercase, owned, parse_hex20, unicode_lowercase};
use crate::token::Token;

verus! {

/// Static configuration of one chain: its RPC endpoint and the contract
/// addresses the router uses there.
pub struct ChainConfig {
    pub chain_id: u64,
    pub name: String,
    pub rpc_url: String,
    pub weth: EthAddress,
    pub usdc: EthAddress,
    pub usdt: EthAddress,
    pub quoter: EthAddress,
    pub router: EthAddress,
}

impl ChainConfig {
    /// The on-chain contract that stands for a token on this chain.
    pub open spec fn spec_resolve_token(self, token: Token) -> EthAddress {
        match token {
            Token::Eth => self.weth,
            Token::Usdc => self.usdc,
            Token::Usdt => self.usdt,
        }
    }

    /// The on-chain contract that stands for a token on this chain (WETH for
    /// ETH).
    pub fn resolve_token(&self, token: Token) -> (res: EthAddress)
        ensures
            res == self.spec_resolve_token(token),
            token is Eth ==> res == self.weth,
            token is Usdc ==> res == self.usdc,
            token is Usdt ==> res == self.usdt,
    {
        match token {
            Token::Eth => self.weth,
            Token::Usdc => self.usdc,
            Token::Usdt => self.usdt,
        }
    }

    /// Whether an RPC endpoint is configured; a chain without one is not
    /// served.
    pub fn has_rpc(&self) -> (res: bool)
        ensures
            res == (self.rpc_url@.len() > 0),
    {
        !self.rpc_url.as_str().is_empty()
    }
}

/// The address a constant hex literal denotes.
fn fixed_address(lit: &str) -> (res: EthAddress)
    requires
        parse_hex20(lit@) is Some,
    ensures
        res.bytes@ == parse_hex20(lit@)->0,
{
    match EthAddress::parse(lit) {
        Some(a) => a,
        None => {
            proof {
                assert(false);
            }
            EthAddress { bytes: [0u8; 20] }
        },
    }
}

/// Whether a configuration holds the given id, name, endpoint and the
/// addresses that the given hex literals denote.
pub open spec fn config_is(
    c: ChainConfig,
    chain_id: u64,
    name: Seq<char>,
    rpc_url: Seq<char>,
    weth: Seq<char>,
    usdc: Seq<char>,
    usdt: Seq<char>,
    quoter: Seq<char>,
    router: Seq<char>,
) -> bool {
    &&& c.chain_id == chain_id
    &&& c.name@ == name
    &&& c.rpc_url@ == rpc_url
    &&& parse_hex20(weth) == Some(c.weth.bytes@)
    &&& parse_hex20(usdc) == Some(c.usdc.bytes@)
    &&& parse_hex20(usdt) == Some(c.usdt.bytes@)
    &&& parse_hex20(quoter) == Some(c.quoter.bytes@)
    &&& parse_hex20(router) == Some(c.router.bytes@)
}

/// Proves that a `0x`-prefixed literal of forty hex digits decodes.
proof fn lemma_literal_parses(lit: &str)
    requires
        lit@.len() == 42,
        lit@[0] == '0',
        lit@[1] == 'x',
        forall|i: int| 2 <= i < 42 ==> (#[trigger] hex_value(lit@[i])) is Some,
    ensures
        parse_hex20(lit@) is Some,
{
    lemma_parse_plain_hex20(lit@);
}

/// A chain configuration from its id, name, endpoint and the hex literals
/// of its contract addresses.
fn make_chain(
    chain_id: u64,
    name: &str,
    rpc_url: String,
    weth: &str,
    usdc: &str,
    usdt: &str,
    quoter: &str,
    router: &str,
) -> (res: ChainConfig)
    requires
        parse_hex20(weth@) is Some,
        parse_hex20(usdc@) is Some,
        parse_hex20(usdt@) is Some,
        parse_hex20(quoter@) is Some,
        parse_hex20(router@) is Some,
    ensures
        config_is(res, chain_id, name@, rpc_url@, weth@, usdc@, usdt@, quoter@, router@),
        res.chain_id == chain_id,
        parse_hex20(weth@) == Some(res.weth.bytes@),
        parse_hex20(usdc@) == Some(res.usdc.bytes@),
        parse_hex20(usdt@) == Some(res.usdt.bytes@),
        parse_hex20(quoter@) == Some(res.quoter.bytes@),
        parse_hex20(router@) == Some(res.router.bytes@),
{
    ChainConfig {
        chain_id,
        name: owned(name),
        rpc_url,
        weth: fixed_address(weth),
        usdc: fixed_address(usdc),
        usdt: fixed_address(usdt),
        quoter: fixed_address(quoter),
        router: fixed_address(router),
    }
}

/// The value of an optional setting, or the given default.
fn setting_or(value: Option<String>, default: &str) -> (res: String)
    ensures
        res@ == match value {
            Some(v) => v@,
            None => default@,
        },
{
    match value {
        Some(v) => v,
        None => owned(default),
    }
}

/// The contract addresses of the default chain table, field by field: each
/// address is the one its own hex literal denotes.
pub open spec fn default_chain_contracts(res: Seq<ChainConfig>) -> bool {
    &&& res.len() == 3
    &&& parse_hex20("0xC02aaA39b223FE8D0A0e5C4F27eAD9083C756Cc2"@) == Some(res[0].weth.bytes@)
    &&& parse_hex20("0xA0b86991c6218b36c1d19D4a2e9Eb0cE3606eB48"@) == Some(res[0].usdc.bytes@)
    &&& parse_hex20("0xdAC17F958D2ee523a2206206994597C13D831ec7"@) == Some(res[0].usdt.bytes@)
    &&& parse_hex20("0x61fFE014bA17989E743c5F6cB21bF9697530B21e"@) == Some(res[0].quoter.bytes@)
    &&& parse_hex20("0x68b3465833fb72A70ecDF485E0e4C7bD8665Fc45"@) == Some(res[0].router.bytes@)
    &&& parse_hex20("0x4200000000000000000000000000000000000006"@) == Some(res[1].weth.bytes@)
    &&& parse_hex20("0x833589fCD6eDb6E08f4c7C32D4f71b54bdA02913"@) == Some(res[1].usdc.bytes@)
    &&& parse_hex20("0xfde4C96c8593536E31F229EA8f37b2ADa2699bb2"@) == Some(res[1].usdt.bytes@)
    &&& parse_hex20("0x3d4e44Eb1374240CE5F1B871ab261CD16335B76a"@) == Some(res[1].quoter.bytes@)
    &&& parse_hex20("0x2626664c2603336E57B271c5C0b26F421741e481"@) == Some(res[1].router.bytes@)
    &&& parse_hex20("0x82aF49447D8a07e3bd95BD0d56f35241523fBab1"@) == Some(res[2].weth.bytes@)
    &&& parse_hex20("0xaf88d065e77c8cC2239327C5EDb3A432268e5831"@) == Some(res[2].usdc.bytes@)
    &&& parse_hex20("0xFd086bC7CD5C481DCC9C85ebE478A1C0b69FCbb9"@) == Some(res[2].usdt.bytes@)
    &&& parse_hex20("0x61fFE014bA17989E743c5F6cB21bF9697530B21e"@) == Some(res[2].quoter.bytes@)
    &&& parse_hex20("0x68b3465833fb72A70ecDF485E0e4C7bD8665Fc45"@) == Some(res[2].router.bytes@)
}

/// The three chains the service knows: Ethereum mainnet, Base and Arbitrum,
/// with Uniswap V3 QuoterV2 and SwapRouter02 deployments. Each RPC endpoint
/// comes from the environment; Ethereum has no default, Base and Arbitrum
/// fall back to their public endpoints.
pub fn default_chains(
    ethereum_rpc: Option<String>,
    base_rpc: Option<String>,
    arbitrum_rpc: Option<String>,
) -> (res: Vec<ChainConfig>)
    ensures
        res@.len() == 3,
        default_chain_contracts(res@),
        res@[0].chain_id == 1 && res@[1].chain_id == 8453 && res@[2].chain_id == 42161,
        config_is(
            res@[0],
            1,
            "ethereum"@,
            match ethereum_rpc {
                Some(v) => v@,
                None => ""@,
            },
            "0xC02aaA39b223FE8D0A0e5C4F27eAD9083C756Cc2"@,
            "0xA0b86991c6218b36c1d19D4a2e9Eb0cE3606eB48"@,
            "0xdAC17F958D2ee523a2206206994597C13D831ec7"@,
            "0x61fFE014bA17989E743c5F6cB21bF9697530B21e"@,
            "0x68b3465833fb72A70ecDF485E0e4C7bD8665Fc45"@,
        ),
        config_is(
            res@[1],
            8453,
            "base"@,
            match base_rpc {
                Some(v) => v@,
                None => "https://mainnet.base.org"@,
            },
            "0x4200000000000000000000000000000000000006"@,
            "0x833589fCD6eDb6E08f4c7C32D4f71b54bdA02913"@,
            "0xfde4C96c8593536E31F229EA8f37b2ADa2699bb2"@,
            "0x3d4e44Eb1374240CE5F1B871ab261CD16335B76a"@,
            "0x2626664c2603336E57B271c5C0b26F421741e481"@,
        ),
        config_is(
            res@[2],
            42161,
            "arbitrum"@,
            match arbitrum_rpc {
                Some(v) => v@,
                None => "https://arb1.arbitrum.io/rpc"@,
            },
            "0x82aF49447D8a07e3bd95BD0d56f35241523fBab1"@,
            "0xaf88d065e77c8cC2239327C5EDb3A432268e5831"@,
            "0xFd086bC7CD5C481DCC9C85ebE478A1C0b69FCbb9"@,
            "0x61fFE014bA17989E743c5F6cB21bF9697530B21e"@,
            "0x68b3465833fb72A70ecDF485E0e4C7bD8665Fc45"@,
        ),
{
    proof {
        reveal_strlit("0xC02aaA39b223FE8D0A0e5C4F27eAD9083C756Cc2");
        lemma_literal_parses("0xC02aaA39b223FE8D0A0e5C4F27eAD9083C756Cc2");
        reveal_strlit("0xA0b86991c6218b36c1d19D4a2e9Eb0cE3606eB48");
        lemma_literal_parses("0xA0b86991c6218b36c1d19D4a2e9Eb0cE3606eB48");
        reveal_strlit("0xdAC17F958D2ee523a2206206994597C13D831ec7");
        lemma_literal_parses("0xdAC17F958D2ee523a2206206994597C13D831ec7");
        reveal_strlit("0x61fFE014bA17989E743c5F6cB21bF9697530B21e");
        lemma_literal_parses("0x61fFE014bA17989E743c5F6cB21bF9697530B21e");
        reveal_strlit("0x68b3465833fb72A70ecDF485E0e4C7bD8665Fc45");
        lemma_literal_parses("0x68b3465833fb72A70ecDF485E0e4C7bD8665Fc45");
        reveal_strlit("0x4200000000000000000000000000000000000006");
        lemma_literal_parses("0x4200000000000000000000000000000000000006");
        reveal_strlit("0x833589fCD6eDb6E08f4c7C32D4f71b54bdA02913");
        lemma_literal_parses("0x833589fCD6eDb6E08f4c7C32D4f71b54bdA02913");
        reveal_strlit("0xfde4C96c8593536E31F229EA8f37b2ADa2699bb2");
        lemma_literal_parses("0xfde4C96c8593536E31F229EA8f37b2ADa2699bb2");
        reveal_strlit("0x3d4e44Eb1374240CE5F1B871ab261CD16335B76a");
        lemma_literal_parses("0x3d4e44Eb1374240CE5F1B871ab261CD16335B76a");
        reveal_strlit("0x2626664c2603336E57B271c5C0b26F421741e481");
        lemma_literal_parses("0x2626664c2603336E57B271c5C0b26F421741e481");
        reveal_strlit("0x82aF49447D8a07e3bd95BD0d56f35241523fBab1");
        lemma_literal_parses("0x82aF49447D8a07e3bd95BD0d56f35241523fBab1");
        reveal_strlit("0xaf88d065e77c8cC2239327C5EDb3A432268e5831");
        lemma_literal_parses("0xaf88d065e77c8cC2239327C5EDb3A432268e5831");
        reveal_strlit("0xFd086bC7CD5C481DCC9C85ebE478A1C0b69FCbb9");
        lemma_literal_parses("0xFd086bC7CD5C481DCC9C85ebE478A1C0b69FCbb9");
    }
    let mut res: Vec<ChainConfig> = Vec::new();
    res.push(
        make_chain(
        1,
        "ethereum",
        setting_or(ethereum_rpc, ""),
        "0xC02aaA39b223FE8D0A0e5C4F27eAD9083C756Cc2",
        "0xA0b86991c6218b36c1d19D4a2e9Eb0cE3606eB48",
        "0xdAC17F958D2ee523a2206206994597C13D831ec7",
        "0x61fFE014bA17989E743c5F6cB21bF9697530B21e",
        "0x68b3465833fb72A70ecDF485E0e4C7bD8665Fc45",
    ),
    );
    res.push(
        make_chain(
        8453,
        "base",
        setting_or(base_rpc, "https://mainnet.base.org"),
        "0x4200000000000000000000000000000000000006",
        "0x833589fCD6eDb6E08f4c7C32D4f71b54bdA02913",
        "0xfde4C96c8593536E31F229EA8f37b2ADa2699bb2",
        "0x3d4e44Eb1374240CE5F1B871ab261CD16335B76a",
        "0x2626664c2603336E57B271c5C0b26F421741e481",
    ),
    );
    res.push(
        make_chain(
        42161,
        "arbitrum",
        setting_or(arbitrum_rpc, "https://arb1.arbitrum.io/rpc"),
        "0x82aF49447D8a07e3bd95BD0d56f35241523fBab1",
        "0xaf88d065e77c8cC2239327C5EDb3A432268e5831",
        "0xFd086bC7CD5C481DCC9C85ebE478A1C0b69FCbb9",
        "0x61fFE014bA17989E743c5F6cB21bF9697530B21e",
        "0x68b3465833fb72A70ecDF485E0e4C7bD8665Fc45",
    ),
    );
    res
}


/// The names of the served chains that a request asks for: with a filter,
/// the filter lowercased if such a chain is served and nothing otherwise;
/// without one, every served chain.
pub open spec fn requested_chain_names(
    filter: Option<Seq<char>>,
    available: Seq<Seq<char>>,
) -> Seq<Seq<char>> {
    match filter {
        Some(f) => if available.contains(unicode_lowercase(f)) {
            seq![unicode_lowercase(f)]
        } else {
            Seq::empty()
        },
        None => available,
    }
}

/// The names of the given strings.
pub open spec fn names_of(v: Seq<String>) -> Seq<Seq<char>> {
    v.map_values(|s: String| s@)
}

/// Whether `name` occurs among `names`.
fn contains_name(names: &Vec<String>, name: &String) -> (res: bool)
    ensures
        res == names_of(names@).contains(name@),
{
    let mut i: usize = 0;
    while i < names.len()
        invariant
            i <= names.len(),
            forall|j: int| 0 <= j < i ==> names@[j]@ != name@,
        decreases names.len() - i,
    {
        if names[i] == *name {
            assert(names_of(names@)[i as int] == name@);
            return true;
        }
        i = i + 1;
    }
    assert forall|j: int| 0 <= j < names_of(names@).len() implies names_of(names@)[j] != name@ by {
        assert(names_of(names@)[j] == names@[j]@);
    }
    false
}

/// The served chains among those a request names: the given key if such a
/// chain is served and nothing otherwise; every served chain when no key is
/// given.
pub fn select_chains(key: Option<String>, available: &Vec<String>) -> (res: Vec<String>)
    ensures
        names_of(res@) == match key {
            Some(k) => if names_of(available@).contains(k@) {
                seq![k@]
            } else {
                Seq::<Seq<char>>::empty()
            },
            None => names_of(available@),
        },
{
    match key {
        Some(k) => {
            let mut res: Vec<String> = Vec::new();
            if contains_name(available, &k) {
                res.push(k);
            }
            assert(names_of(res@) =~= (if names_of(available@).contains(k@) {
                seq![k@]
            } else {
                Seq::<Seq<char>>::empty()
            }));
            res
        },
        None => {
            let mut res: Vec<String> = Vec::new();
            let mut i: usize = 0;
            while i < available.len()
                invariant
                    i <= available.len(),
                    names_of(res@) =~= names_of(available@).take(i as int),
                decreases available.len() - i,
            {
                res.push(available[i].clone());
                assert(names_of(available@).take(i as int + 1) =~= names_of(available@).take(
                    i as int,
                ).push(available@[i as int]@));
                i = i + 1;
            }
            assert(names_of(available@).take(i as int) =~= names_of(available@));
            res
        },
    }
}

/// The chains a quote request is sent to, given the optional chain filter
/// of the request and the names of the chains being served; the filter is
/// compared in lowercase.
pub fn requested_chains(filter: Option<&str>, available: &Vec<String>) -> (res: Vec<String>)
    ensures
        names_of(res@) == requested_chain_names(
            match filter {
                Some(f) => Some(f@),
                None => None,
            },
            names_of(available@),
        ),
{
    let key = match filter {
        Some(f) => Some(lowercase(f)),
        None => None,
    };
    select_chains(key, available)
}

/// Each token resolves to the contract the chain configures for it, on
/// every chain whatever its id: ETH to WETH, USDC to USDC, USDT to USDT.
pub proof fn law_resolve_token_uses_own_contract(c: ChainConfig)
    ensures
        c.spec_resolve_token(Token::Eth) == c.weth,
        c.spec_resolve_token(Token::Usdc) == c.usdc,
        c.spec_resolve_token(Token::Usdt) == c.usdt,
{
}

/// A `0x` literal of forty hex digits decodes to bytes whose first byte is
/// given by its first two digits.
proof fn lemma_first_byte(s: Seq<char>)
    requires
        s.len() == 42,
        s[0] == '0',
        s[1] == 'x',
        forall|i: int| 2 <= i < 42 ==> (#[trigger] hex_value(s[i])) is Some,
    ensures
        parse_hex20(s) is Some,
        (parse_hex20(s)->0)[0] == (hex_value(s[2])->0 * 16 + hex_value(s[3])->0) as u8,
{
    let t = s.skip(2);
    assert forall|i: int| 0 <= i < t.len() implies (#[trigger] hex_value(t[i])) is Some by {
        assert(t[i] == s[i + 2]);
    }
    lemma_hex_nibbles_of_digits(t);
    assert(t[0] == s[2] && t[1] == s[3]);
}

/// On every default chain the WETH, USDC and USDT contracts are three
/// different addresses, so no token is ever paid or swapped as another.
pub proof fn law_default_token_contracts_distinct(res: Seq<ChainConfig>)
    requires
        default_chain_contracts(res),
    ensures
        forall|i: int|
            0 <= i < 3 ==> {
                &&& (#[trigger] res[i]).weth.bytes@ != res[i].usdc.bytes@
                &&& res[i].usdc.bytes@ != res[i].usdt.bytes@
                &&& res[i].weth.bytes@ != res[i].usdt.bytes@
            },
{
    reveal_strlit("0xC02aaA39b223FE8D0A0e5C4F27eAD9083C756Cc2");
    lemma_first_byte("0xC02aaA39b223FE8D0A0e5C4F27eAD9083C756Cc2"@);
    reveal_strlit("0xA0b86991c6218b36c1d19D4a2e9Eb0cE3606eB48");
    lemma_first_byte("0xA0b86991c6218b36c1d19D4a2e9Eb0cE3606eB48"@);
    reveal_strlit("0xdAC17F958D2ee523a2206206994597C13D831ec7");
    lemma_first_byte("0xdAC17F958D2ee523a2206206994597C13D831ec7"@);
    reveal_strlit("0x4200000000000000000000000000000000000006");
    lemma_first_byte("0x4200000000000000000000000000000000000006"@);
    reveal_strlit("0x833589fCD6eDb6E08f4c7C32D4f71b54bdA02913");
    lemma_first_byte("0x833589fCD6eDb6E08f4c7C32D4f71b54bdA02913"@);
    reveal_strlit("0xfde4C96c8593536E31F229EA8f37b2ADa2699bb2");
    lemma_first_byte("0xfde4C96c8593536E31F229EA8f37b2ADa2699bb2"@);
    reveal_strlit("0x82aF49447D8a07e3bd95BD0d56f35241523fBab1");
    lemma_first_byte("0x82aF49447D8a07e3bd95BD0d56f35241523fBab1"@);
    reveal_strlit("0xaf88d065e77c8cC2239327C5EDb3A432268e5831");
    lemma_first_byte("0xaf88d065e77c8cC2239327C5EDb3A432268e5831"@);
    reveal_strlit("0xFd086bC7CD5C481DCC9C85ebE478A1C0b69FCbb9");
    lemma_first_byte("0xFd086bC7CD5C481DCC9C85ebE478A1C0b69FCbb9"@);
    assert forall|i: int| 0 <= i < 3 implies {
        &&& (#[trigger] res[i]).weth.bytes@ != res[i].usdc.bytes@
        &&& res[i].usdc.bytes@ != res[i].usdt.bytes@
        &&& res[i].weth.bytes@ != res[i].usdt.bytes@
    } by {
        assert(res[i].weth.bytes@[0] != res[i].usdc.bytes@[0]);
        assert(res[i].usdc.bytes@[0] != res[i].usdt.bytes@[0]);
        assert(res[i].weth.bytes@[0] != res[i].usdt.bytes@[0]);
    }
}

/// A request with a chain filter goes to exactly the served chain that the
/// lowercased filter names, wherever it sits in the list, and to none when
/// no served chain has that name; without a filter it goes to every served
/// chain.
pub proof fn law_requested_chains(f: Seq<char>, available: Seq<Seq<char>>)
    ensures
        forall|i: int|
            0 <= i < available.len() && #[trigger] available[i] == unicode_lowercase(f)
                ==> requested_chain_names(Some(f), available) == seq![unicode_lowercase(f)],
        (forall|i: int| 0 <= i < available.len() ==> #[trigger] available[i] != unicode_lowercase(f))
            ==> requested_chain_names(Some(f), available).len() == 0,
        requested_chain_names(None, available) == available,
{
    assert forall|i: int|
        0 <= i < available.len() && #[trigger] available[i] == unicode_lowercase(f)
            implies requested_chain_names(Some(f), available) == seq![unicode_lowercase(f)] by {
        assert(available.contains(unicode_lowercase(f)));
    }
}

} // verus!
