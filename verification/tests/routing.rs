use lattice::abi::{swap_calldata, transfer_calldata};
use lattice::address::EthAddress;
use lattice::amounts::{
    fee_tiers, gas_limit, gas_price_wei, min_amount_out, next_scan_range, transfer_gas_units,
    watch_from_block,
};
use lattice::chain::{default_chains, requested_chains, ChainConfig};
use lattice::quote::{
    direct_transfer_quote, native_price_query, pick_quoter, pool_query, swap_quote,
    validate_tokens, QuoteError, QuoterVersion,
};
use lattice::text::decimal_string;
use lattice::token::Token;

const RECIPIENT: &str = "0xd8dA6BF26964aF9D7eEd9e03E53415D37aA96045";

fn addr(s: &str) -> EthAddress {
    EthAddress::parse(s).expect("valid address")
}

fn chains() -> Vec<ChainConfig> {
    default_chains(Some("http://eth.example".to_string()), None, None)
}

fn hex(bytes: &[u8]) -> String {
    bytes.iter().map(|b| format!("{:02x}", b)).collect()
}

fn word_addr(a: &str) -> String {
    format!("000000000000000000000000{}", a.trim_start_matches("0x").to_lowercase())
}

fn word_uint(v: u128) -> String {
    format!("{:064x}", v)
}

// ---------------------------------------------------------------------------
// Tokens
// ---------------------------------------------------------------------------

#[test]
fn token_decimals_are_correct() {
    assert_eq!(Token::Eth.decimals(), 18);
    assert_eq!(Token::Usdc.decimals(), 6);
    assert_eq!(Token::Usdt.decimals(), 6);
}

#[test]
fn eth_requires_no_approval() {
    assert!(!Token::Eth.requires_approval());
    assert!(Token::Usdc.requires_approval());
    assert!(Token::Usdt.requires_approval());
}

#[test]
fn token_names_ignore_case() {
    assert_eq!(Token::from_str("eth"), Some(Token::Eth));
    assert_eq!(Token::from_str("ETH"), Some(Token::Eth));
    assert_eq!(Token::from_str("WeTh"), Some(Token::Eth));
    assert_eq!(Token::from_str("USDC"), Some(Token::Usdc));
    assert_eq!(Token::from_str("usdt"), Some(Token::Usdt));
    assert_eq!(Token::from_str("dai"), None);
    assert_eq!(Token::from_str(""), None);
    assert_eq!(Token::from_str(" eth"), None);
}

// ---------------------------------------------------------------------------
// Request validation
// ---------------------------------------------------------------------------

#[test]
fn rejects_unknown_token_in() {
    let err = validate_tokens("dai", "usdc").err().expect("refused");
    assert_eq!(err.status_code(), 400);
    assert!(err.message().contains("token_in"));
    assert_eq!(err.message(), "unknown token_in: dai");
}

#[test]
fn rejects_unknown_token_out() {
    let err = validate_tokens("eth", "sol").err().expect("refused");
    assert_eq!(err.status_code(), 400);
    assert!(err.message().contains("token_out"));
    assert_eq!(err.message(), "unknown token_out: sol");
}

#[test]
fn unknown_token_in_is_reported_before_token_out() {
    let err = validate_tokens("dai", "sol").err().expect("refused");
    assert_eq!(err.message(), "unknown token_in: dai");
}

#[test]
fn rejects_eth_to_eth_but_accepts_same_stablecoin() {
    let err = validate_tokens("eth", "WETH").err().expect("refused");
    assert_eq!(err.status_code(), 400);
    assert_eq!(err.message(), "cannot swap ETH to ETH");
    assert_eq!(validate_tokens("usdc", "usdc").ok(), Some((Token::Usdc, Token::Usdc)));
    assert_eq!(validate_tokens("Usdt", "eth").ok(), Some((Token::Usdt, Token::Eth)));
}

#[test]
fn error_messages_and_statuses() {
    assert_eq!(QuoteError::AmountNotPositive.message(), "amount must be > 0");
    assert_eq!(QuoteError::AmountNotPositive.status_code(), 400);
    assert_eq!(QuoteError::NoLiquidity.message(), "no liquidity found on any requested chain");
    assert_eq!(QuoteError::NoLiquidity.status_code(), 500);
}

#[test]
fn unknown_chain_filter_returns_server_error() {
    let served = vec!["ethereum".to_string(), "base".to_string(), "arbitrum".to_string()];
    let targets = requested_chains(Some("solana"), &served);
    assert!(targets.is_empty());
    // no chain is asked, so no quote comes back
    assert_eq!(QuoteError::NoLiquidity.status_code(), 500);
}

#[test]
fn chain_filter_is_lowercased_and_defaults_to_all() {
    let served = vec!["ethereum".to_string(), "base".to_string()];
    assert_eq!(requested_chains(Some("BASE"), &served), vec!["base".to_string()]);
    assert_eq!(requested_chains(None, &served), served);
    assert!(requested_chains(Some("arbitrum"), &served).is_empty());
}

// ---------------------------------------------------------------------------
// Chains
// ---------------------------------------------------------------------------

#[test]
fn default_chain_table() {
    let c = default_chains(None, None, Some("http://arb.example".to_string()));
    assert_eq!(c.len(), 3);
    assert_eq!((c[0].chain_id, c[0].name.as_str(), c[0].rpc_url.as_str()), (1, "ethereum", ""));
    assert_eq!(c[1].chain_id, 8453);
    assert_eq!(c[1].rpc_url, "https://mainnet.base.org");
    assert_eq!(c[2].chain_id, 42161);
    assert_eq!(c[2].rpc_url, "http://arb.example");
    assert_eq!(c[0].weth.to_hex(), "0xc02aaa39b223fe8d0a0e5c4f27ead9083c756cc2");
    assert_eq!(c[1].weth.to_hex(), "0x4200000000000000000000000000000000000006");
    assert_eq!(c[2].router.to_hex(), "0x68b3465833fb72a70ecdf485e0e4c7bd8665fc45");
    assert!(!c[0].has_rpc());
    assert!(c[1].has_rpc());
    assert_eq!(c[1].resolve_token(Token::Usdt).to_hex(), "0xfde4c96c8593536e31f229ea8f37b2ada2699bb2");
}

// ---------------------------------------------------------------------------
// Addresses and encodings
// ---------------------------------------------------------------------------

#[test]
fn address_parse_matches_ethers() {
    let inputs = [
        RECIPIENT,
        "d8dA6BF26964aF9D7eEd9e03E53415D37aA96045",
        "0xd8dA 6BF26964aF9D7eEd9e03E53415D37aA96045\n",
        "0Xd8dA6BF26964aF9D7eEd9e03E53415D37aA96045",
        "0xd8dA6BF26964aF9D7eEd9e03E53415D37aA9604",
        "0xd8dA6BF26964aF9D7eEd9e03E53415D37aA960455",
        "0xg8dA6BF26964aF9D7eEd9e03E53415D37aA96045",
        "",
    ];
    for s in inputs {
        let ours = EthAddress::parse(s).map(|a| a.bytes);
        let theirs = s.parse::<ethers::types::H160>().ok().map(|h| h.0);
        assert_eq!(ours, theirs, "input {s:?}");
    }
    assert!(EthAddress::parse("0xd8dA 6BF26964aF9D7eEd9e03E53415D37aA96045\n").is_some());
    assert!(EthAddress::parse("0xd8dA6BF26964aF9D7eEd9e03E53415D37aA9604").is_none());
}

#[test]
fn address_hex_round_trip() {
    let a = addr(RECIPIENT);
    let printed = a.to_hex();
    assert_eq!(printed, "0xd8da6bf26964af9d7eed9e03e53415d37aa96045");
    assert_eq!(EthAddress::parse(&printed).map(|b| b.bytes), Some(a.bytes));
}

#[test]
fn decimal_strings() {
    assert_eq!(decimal_string(0), "0");
    assert_eq!(decimal_string(1_500_000_000_000_000_000), "1500000000000000000");
    assert_eq!(decimal_string(u128::MAX), u128::MAX.to_string());
}

#[test]
fn calldata_selectors_and_words() {
    let usdc = "0xA0b86991c6218b36c1d19D4a2e9Eb0cE3606eB48";
    let data = transfer_calldata(addr(RECIPIENT), 500_000_000);
    assert_eq!(hex(&data), format!("a9059cbb{}{}", word_addr(RECIPIENT), word_uint(500_000_000)));

    let weth = "0xC02aaA39b223FE8D0A0e5C4F27eAD9083C756Cc2";
    let data = swap_calldata(addr(weth), addr(usdc), 500, addr(RECIPIENT), 7, 5);
    let expected = format!(
        "04e45aaf{}{}{}{}{}{}{}",
        word_addr(weth),
        word_addr(usdc),
        word_uint(500),
        word_addr(RECIPIENT),
        word_uint(7),
        word_uint(5),
        word_uint(0)
    );
    assert_eq!(hex(&data), expected);
}

// ---------------------------------------------------------------------------
// Amounts
// ---------------------------------------------------------------------------

#[test]
fn min_amount_out_applies_slippage() {
    assert_eq!(min_amount_out(1_000_000, 50), 995_000);
    assert_eq!(min_amount_out(1_000_000, 0), 1_000_000);
    assert_eq!(min_amount_out(1_000_000, 10_000), 0);
    assert_eq!(min_amount_out(9_999, 1), 9_998);
    let big = u128::MAX;
    let expected = ethers::types::U256::from(big)
        .saturating_mul(ethers::types::U256::from(9_950u64))
        / ethers::types::U256::from(10_000u64);
    assert_eq!(ethers::types::U256::from(min_amount_out(big, 50)), expected);
}

#[test]
fn gas_limit_adds_ten_percent() {
    let value = |l: [u64; 4]| ethers::types::U256(l);
    assert_eq!(value(gas_limit(21_000)), ethers::types::U256::from(23_100u64));
    assert_eq!(value(gas_limit(65_000)), ethers::types::U256::from(71_500u64));
    assert_eq!(value(gas_limit(199)), ethers::types::U256::from(218u64));
    let big = u128::MAX;
    let expected = ethers::types::U256::from(big).saturating_mul(ethers::types::U256::from(110u64))
        / ethers::types::U256::from(100u64);
    assert_eq!(value(gas_limit(big)), expected);
}

#[test]
fn gas_price_and_constants() {
    assert_eq!(gas_price_wei(None), 11_500_000_000);
    assert_eq!(gas_price_wei(Some(2_000_000_000)), 3_500_000_000);
    assert_eq!(transfer_gas_units(Token::Eth), 21_000);
    assert_eq!(transfer_gas_units(Token::Usdt), 65_000);
    assert_eq!(fee_tiers(), vec![100, 500, 3000, 10000]);
}

#[test]
fn watcher_and_scanner_windows() {
    assert_eq!(watch_from_block(1_000), 950);
    assert_eq!(watch_from_block(50), 0);
    assert_eq!(watch_from_block(10), 0);
    assert_eq!(next_scan_range(100, 105), Some((101, 105)));
    assert_eq!(next_scan_range(105, 105), None);
    assert_eq!(next_scan_range(106, 105), None);
}

#[test]
fn quoter_preference() {
    assert_eq!(pick_quoter(true, true), Some(QuoterVersion::V1));
    assert_eq!(pick_quoter(false, true), Some(QuoterVersion::V2));
    assert_eq!(pick_quoter(false, false), None);
}

// ---------------------------------------------------------------------------
// Quotes
// ---------------------------------------------------------------------------

#[test]
fn pool_queries() {
    let c = chains();
    let q = pool_query(&c[0], Token::Eth, Token::Usdc, 10, 500);
    assert_eq!(q.token_in.to_hex(), c[0].weth.to_hex());
    assert_eq!(q.token_out.to_hex(), c[0].usdc.to_hex());
    assert_eq!((q.amount_in, q.fee), (10, 500));
    let p = native_price_query(&c[1]);
    assert_eq!(p.token_in.to_hex(), "0x4200000000000000000000000000000000000006");
    assert_eq!((p.amount_in, p.fee), (1_000_000_000_000_000_000, 3000));
}

#[test]
fn direct_usdc_transfer_quote() {
    let c = chains();
    let base = &c[1];
    let q = direct_transfer_quote(base, Token::Usdc, addr(RECIPIENT), 500_000_000);
    assert_eq!(q.fee_tier, 0, "direct transfer has no pool fee");
    assert!(!q.requires_approval, "transfer() needs no approve()");
    assert_eq!(q.tx.value, "0", "ERC-20 send has zero ETH value");
    assert_eq!(q.amount_out_min, q.amount_in);
    assert_eq!(q.amount_in, "500000000");
    assert_eq!(q.chain_name, "base");
    assert_eq!(q.chain_id, 8453);
    assert_eq!(q.tx.to, "0x833589fcd6edb6e08f4c7c32d4f71b54bda02913");
    assert_eq!(q.tx.gas_limit, "71500");
    assert_eq!(q.approval_spender, "");
    assert_eq!(q.quote_id, "");
    assert_eq!(
        q.tx.data,
        format!("0xa9059cbb{}{}", word_addr(RECIPIENT), word_uint(500_000_000))
    );
}

#[test]
fn direct_eth_transfer_quote() {
    let c = chains();
    let q = direct_transfer_quote(&c[0], Token::Eth, addr(RECIPIENT), 1_500_000_000_000_000_000);
    assert_eq!(q.tx.to, "0xd8da6bf26964af9d7eed9e03e53415d37aa96045");
    assert_eq!(q.tx.data, "0x");
    assert_eq!(q.tx.value, "1500000000000000000");
    assert_eq!(q.tx.gas_limit, "23100");
    assert_eq!(q.token_in, q.token_out);
    assert!(!q.requires_approval);
}

#[test]
fn eth_swap_quote_sends_value() {
    let c = chains();
    let eth = &c[0];
    let q = swap_quote(eth, Token::Eth, Token::Usdc, addr(RECIPIENT), 500, 1_000_000_000_000_000_000, 3_000_000_000, 150_000, 50);
    assert_eq!(q.chain_name, "ethereum");
    assert!(!q.requires_approval);
    assert_eq!(q.tx.value, "1000000000000000000");
    assert_ne!(q.tx.value, "0");
    assert_eq!(q.amount_out_min, "2985000000");
    assert_eq!(q.fee_tier, 500);
    assert_eq!(q.tx.gas_limit, "165000");
    assert_eq!(q.tx.to, "0x68b3465833fb72a70ecdf485e0e4c7bd8665fc45");
    assert_eq!(q.approval_spender, q.tx.to);
    assert!(q.tx.data.starts_with("0x04e45aaf"));
    assert_eq!(q.tx.data.len(), 2 + 8 + 7 * 64);
}

#[test]
fn stablecoin_swap_quote_needs_approval() {
    let c = chains();
    let q = swap_quote(&c[1], Token::Usdc, Token::Usdt, addr(RECIPIENT), 100, 5_000_000_000, 4_999_000_000, 120_000, 200);
    assert!(q.requires_approval);
    assert_eq!(q.tx.value, "0");
    assert_eq!(q.amount_out_min, "4899020000");
    assert_eq!(q.token_in, "0x833589fcd6edb6e08f4c7c32d4f71b54bda02913");
    assert_eq!(q.token_out, "0xfde4c96c8593536e31f229ea8f37b2ada2699bb2");
}

#[test]
fn lowercased_names_and_chain_keys() {
    assert_eq!(Token::from_name("weth"), Some(Token::Eth));
    assert_eq!(Token::from_name("WETH"), None);
    let served = vec!["ethereum".to_string(), "base".to_string()];
    assert_eq!(lattice::chain::select_chains(Some("base".to_string()), &served), vec!["base".to_string()]);
    assert!(lattice::chain::select_chains(Some("BASE".to_string()), &served).is_empty());
    assert_eq!(lattice::chain::select_chains(None, &served), served);
}

#[test]
fn selector_then_words() {
    let args = vec![lattice::abi::AbiWord::Uint(1), lattice::abi::AbiWord::Address(addr(RECIPIENT))];
    let data = lattice::abi::calldata_with_selector([1, 2, 3, 4], &args);
    assert_eq!(hex(&data), format!("01020304{}{}", word_uint(1), word_addr(RECIPIENT)));
}
