//! Building quotes: request validation, the unsigned transaction a wallet
//! broadcasts, and registration of an issued quote for settlement.

use vstd::prelude::*;
use crate::abi::{abi_words, keccak_selector, swap_args, swap_calldata, transfer_calldata, AbiWord};
use crate::address::EthAddress;
use crate::amounts::{
    gas_limit, min_amount_out, scale_down, transfer_gas_units, BPS_SCALE, ERC20_TRANSFER_GAS,
    ETH_TRANSFER_GAS,
};
use crate::chain::ChainConfig;
use crate::settlement::{spec_register, EntryView, SettlementStatus, WatcherEntry, WatcherStore};
use crate::text::{
    bytes_display, decimal_chars, decimal_string, owned, prefixed_hex,
    u256_decimal, unicode_lowercase,
};
use crate::token::{token_named, Token};

verus! {

/// An unsigned transaction for the user's wallet.
pub struct TxPayload {
    pub to: String,
    pub data: String,
    /// ETH value in wei: `0` unless ETH is spent.
    pub value: String,
    pub gas_limit: String,
}

/// A quote for a payment on one chain. Amounts are raw token units in
/// decimal. Its estimated net value in USD is computed in floating point by
/// the caller and is not part of this type.
pub struct QuoteResult {
    /// Identifier for polling the settlement status; empty until issued.
    pub quote_id: String,
    pub chain_name: String,
    pub chain_id: u64,
    pub token_in: String,
    pub token_out: String,
    pub amount_in: String,
    pub amount_out_min: String,
    /// Pool fee tier; 0 for a direct transfer.
    pub fee_tier: u32,
    /// Whether the wallet must `approve(approval_spender, amount_in)` on the
    /// input token before sending `tx`.
    pub requires_approval: bool,
    pub approval_spender: String,
    pub tx: TxPayload,
}

/// Why a quote request is refused.
pub enum QuoteError {
    AmountNotPositive,
    UnknownTokenIn(String),
    UnknownTokenOut(String),
    EthToEth,
    NoLiquidity,
}

impl QuoteError {
    /// The HTTP status the refusal is answered with: 500 when no chain
    /// offered a quote, 400 for a bad request.
    pub fn status_code(&self) -> (res: u16)
        ensures
            res == if self is NoLiquidity {
                500u16
            } else {
                400u16
            },
    {
        match self {
            QuoteError::NoLiquidity => 500,
            _ => 400,
        }
    }

    /// The error text sent to the client.
    pub open spec fn spec_message(&self) -> Seq<char> {
        match self {
            QuoteError::AmountNotPositive => "amount must be > 0"@,
            QuoteError::UnknownTokenIn(t) => "unknown token_in: "@ + t@,
            QuoteError::UnknownTokenOut(t) => "unknown token_out: "@ + t@,
            QuoteError::EthToEth => "cannot swap ETH to ETH"@,
            QuoteError::NoLiquidity => "no liquidity found on any requested chain"@,
        }
    }

    /// The error text sent to the client.
    pub fn message(&self) -> (res: String)
        ensures
            res@ == self.spec_message(),
    {
        match self {
            QuoteError::AmountNotPositive => owned("amount must be > 0"),
            QuoteError::UnknownTokenIn(t) => owned("unknown token_in: ").concat(t.as_str()),
            QuoteError::UnknownTokenOut(t) => owned("unknown token_out: ").concat(t.as_str()),
            QuoteError::EthToEth => owned("cannot swap ETH to ETH"),
            QuoteError::NoLiquidity => owned("no liquidity found on any requested chain"),
        }
    }
}

/// The tokens of a quote request, checked in the order the service checks
/// them: the input token, the output token, then that ETH is not swapped
/// for itself. A same-token stablecoin request is a direct transfer and is
/// accepted.
pub fn validate_tokens(token_in: &str, token_out: &str) -> (res: Result<(Token, Token), QuoteError>)
    ensures
        match token_named(unicode_lowercase(token_in@)) {
            None => res matches Err(QuoteError::UnknownTokenIn(t)) && t@ == token_in@,
            Some(a) => match token_named(unicode_lowercase(token_out@)) {
                None => res matches Err(QuoteError::UnknownTokenOut(t)) && t@ == token_out@,
                Some(b) => if a is Eth && b is Eth {
                    res matches Err(QuoteError::EthToEth)
                } else {
                    res == Ok::<(Token, Token), QuoteError>((a, b))
                },
            },
        },
{
    let a = match Token::from_str(token_in) {
        Some(t) => t,
        None => {
            return Err(QuoteError::UnknownTokenIn(owned(token_in)));
        },
    };
    let b = match Token::from_str(token_out) {
        Some(t) => t,
        None => {
            return Err(QuoteError::UnknownTokenOut(owned(token_out)));
        },
    };
    if a == Token::Eth && b == Token::Eth {
        return Err(QuoteError::EthToEth);
    }
    Ok((a, b))
}

/// A call to QuoterV2's `quoteExactInputSingle` with no price limit.
pub struct PoolQuery {
    pub token_in: EthAddress,
    pub token_out: EthAddress,
    pub amount_in: u128,
    pub fee: u32,
}

/// The pool query for swapping `amount_in` raw units of `token_in` into
/// `token_out` in the given fee tier on a chain.
pub fn pool_query(
    config: &ChainConfig,
    token_in: Token,
    token_out: Token,
    amount_in: u128,
    fee: u32,
) -> (res: PoolQuery)
    ensures
        res.token_in == config.spec_resolve_token(token_in),
        res.token_out == config.spec_resolve_token(token_out),
        res.amount_in == amount_in,
        res.fee == fee,
{
    PoolQuery {
        token_in: config.resolve_token(token_in),
        token_out: config.resolve_token(token_out),
        amount_in,
        fee,
    }
}

/// The pool query that prices one ETH in USDC, through the 0.3 % WETH/USDC
/// pool; used only to value gas.
pub fn native_price_query(config: &ChainConfig) -> (res: PoolQuery)
    ensures
        res.token_in == config.weth,
        res.token_out == config.usdc,
        res.amount_in == 1_000_000_000_000_000_000u128,
        res.fee == 3000,
{
    pool_query(config, Token::Eth, Token::Usdc, 1_000_000_000_000_000_000u128, 3000)
}

/// A swap quote for one fee tier, given the pool's output and gas estimate:
/// the minimum output allows `slippage_bps` of slippage, the transaction
/// calls SwapRouter02's `exactInputSingle`, sends the input amount as value
/// when ETH is spent, and offers 110 % of the gas estimate.
pub fn swap_quote(
    config: &ChainConfig,
    token_in: Token,
    token_out: Token,
    recipient: EthAddress,
    fee: u32,
    amount_in: u128,
    amount_out: u128,
    gas_units: u128,
    slippage_bps: u64,
) -> (res: QuoteResult)
    requires
        slippage_bps <= BPS_SCALE,
    ensures
        ({
            let addr_in = config.spec_resolve_token(token_in);
            let addr_out = config.spec_resolve_token(token_out);
            let min_out = scale_down(
                amount_out as int,
                (BPS_SCALE - slippage_bps) as int,
                BPS_SCALE as int,
            );
            &&& res.quote_id@ == Seq::<char>::empty()
            &&& res.chain_name@ == config.name@
            &&& res.chain_id == config.chain_id
            &&& res.token_in@ == prefixed_hex(addr_in.bytes@)
            &&& res.token_out@ == prefixed_hex(addr_out.bytes@)
            &&& res.amount_in@ == decimal_chars(amount_in as nat)
            &&& res.amount_out_min@ == decimal_chars(min_out as nat)
            &&& res.fee_tier == fee
            &&& res.requires_approval == !(token_in is Eth)
            &&& res.approval_spender@ == prefixed_hex(config.router.bytes@)
            &&& res.tx.to@ == prefixed_hex(config.router.bytes@)
            &&& res.tx.data@ == prefixed_hex(
                keccak_selector(
                    "exactInputSingle((address,address,uint24,address,uint256,uint256,uint160))"@,
                ) + abi_words(
                    swap_args(addr_in, addr_out, fee, recipient, amount_in, min_out as u128),
                ),
            )
            &&& res.tx.value@ == if token_in is Eth {
                decimal_chars(amount_in as nat)
            } else {
                "0"@
            }
            &&& res.tx.gas_limit@ == decimal_chars(scale_down(gas_units as int, 110, 100) as nat)
        }),
{
    let addr_in = config.resolve_token(token_in);
    let addr_out = config.resolve_token(token_out);
    let min_out = min_amount_out(amount_out, slippage_bps);
    let calldata = swap_calldata(addr_in, addr_out, fee, recipient, amount_in, min_out);
    let value = if token_in == Token::Eth {
        decimal_string(amount_in)
    } else {
        owned("0")
    };
    QuoteResult {
        quote_id: String::new(),
        chain_name: config.name.clone(),
        chain_id: config.chain_id,
        token_in: addr_in.to_hex(),
        token_out: addr_out.to_hex(),
        amount_in: decimal_string(amount_in),
        amount_out_min: decimal_string(min_out),
        fee_tier: fee,
        requires_approval: token_in.requires_approval(),
        approval_spender: config.router.to_hex(),
        tx: TxPayload {
            to: config.router.to_hex(),
            data: bytes_display(&calldata),
            value,
            gas_limit: u256_decimal(gas_limit(gas_units)),
        },
    }
}

/// A direct payment when the input and output token are the same: a plain
/// ETH send to the recipient, or an ERC-20 `transfer` on the token contract.
/// No pool is involved, so the fee tier is 0, the minimum output is the
/// amount itself, and no approval is needed.
pub fn direct_transfer_quote(
    config: &ChainConfig,
    token: Token,
    recipient: EthAddress,
    amount: u128,
) -> (res: QuoteResult)
    ensures
        ({
            let addr = config.spec_resolve_token(token);
            &&& res.quote_id@ == Seq::<char>::empty()
            &&& res.chain_name@ == config.name@
            &&& res.chain_id == config.chain_id
            &&& res.token_in@ == prefixed_hex(addr.bytes@)
            &&& res.token_out@ == prefixed_hex(addr.bytes@)
            &&& res.amount_in@ == decimal_chars(amount as nat)
            &&& res.amount_out_min@ == decimal_chars(amount as nat)
            &&& res.fee_tier == 0
            &&& !res.requires_approval
            &&& res.approval_spender@ == Seq::<char>::empty()
            &&& res.tx.to@ == if token is Eth {
                prefixed_hex(recipient.bytes@)
            } else {
                prefixed_hex(addr.bytes@)
            }
            &&& token is Usdc ==> res.tx.to@ == prefixed_hex(config.usdc.bytes@)
            &&& token is Usdt ==> res.tx.to@ == prefixed_hex(config.usdt.bytes@)
            &&& res.tx.data@ == if token is Eth {
                prefixed_hex(Seq::empty())
            } else {
                prefixed_hex(
                    keccak_selector("transfer(address,uint256)"@) + abi_words(
                        seq![AbiWord::Address(recipient), AbiWord::Uint(amount)],
                    ),
                )
            }
            &&& res.tx.value@ == if token is Eth {
                decimal_chars(amount as nat)
            } else {
                "0"@
            }
            &&& res.tx.gas_limit@ == decimal_chars(
                scale_down(
                    (if token is Eth {
                        ETH_TRANSFER_GAS
                    } else {
                        ERC20_TRANSFER_GAS
                    }) as int,
                    110,
                    100,
                ) as nat,
            )
        }),
{
    let addr = config.resolve_token(token);
    let (calldata, to, value): (Vec<u8>, String, String) = if token == Token::Eth {
        (Vec::new(), recipient.to_hex(), decimal_string(amount))
    } else {
        (transfer_calldata(recipient, amount), addr.to_hex(), owned("0"))
    };
    let gas_units = transfer_gas_units(token);
    QuoteResult {
        quote_id: String::new(),
        chain_name: config.name.clone(),
        chain_id: config.chain_id,
        token_in: addr.to_hex(),
        token_out: addr.to_hex(),
        amount_in: decimal_string(amount),
        amount_out_min: decimal_string(amount),
        fee_tier: 0,
        requires_approval: false,
        approval_spender: String::new(),
        tx: TxPayload {
            to,
            data: bytes_display(&calldata),
            value,
            gas_limit: u256_decimal(gas_limit(gas_units)),
        },
    }
}

/// Issues a chosen quote: stamps it with `quote_id` and registers a pending
/// settlement entry for it under that id, recording the recipient as the
/// request gave it.
pub fn issue_quote(
    quote: QuoteResult,
    quote_id: String,
    recipient: String,
    store: &mut WatcherStore,
) -> (res: QuoteResult)
    ensures
        res.quote_id@ == quote_id@,
        res.chain_name@ == quote.chain_name@,
        res.chain_id == quote.chain_id,
        res.token_in@ == quote.token_in@,
        res.token_out@ == quote.token_out@,
        res.amount_in@ == quote.amount_in@,
        res.amount_out_min@ == quote.amount_out_min@,
        res.fee_tier == quote.fee_tier,
        res.requires_approval == quote.requires_approval,
        res.approval_spender@ == quote.approval_spender@,
        res.tx == quote.tx,
        final(store).view() == spec_register(
            old(store).view(),
            EntryView {
                quote_id: quote_id@,
                chain_name: quote.chain_name@,
                recipient: recipient@,
                token_out_addr: quote.token_out@,
                amount_out_min: quote.amount_out_min@,
                status: SettlementStatus::Pending,
                tx_hash: None,
                block_number: None,
                settled_amount: None,
            },
        ),
{
    let entry = WatcherEntry::pending(
        quote_id.clone(),
        quote.chain_name.clone(),
        recipient,
        quote.token_out.clone(),
        quote.amount_out_min.clone(),
    );
    store.insert(entry);
    QuoteResult { quote_id, ..quote }
}

/// The Uniswap quoter contract generations.
#[derive(Clone, Copy, PartialEq, Eq, Structural, Debug)]
pub enum QuoterVersion {
    V1,
    V2,
}

/// Which quoter to use given where contract code is deployed: V1 when it
/// is, otherwise V2 when it is, otherwise none.
pub fn pick_quoter(v1_deployed: bool, v2_deployed: bool) -> (res: Option<QuoterVersion>)
    ensures
        res == if v1_deployed {
            Some(QuoterVersion::V1)
        } else if v2_deployed {
            Some(QuoterVersion::V2)
        } else {
            None::<QuoterVersion>
        },
{
    if v1_deployed {
        Some(QuoterVersion::V1)
    } else if v2_deployed {
        Some(QuoterVersion::V2)
    } else {
        None
    }
}

} // verus!
