//! Integer arithmetic on raw token amounts, gas and block numbers.
//!
//! Raw amounts are carried as `u128`: every amount the router reads from a
//! quote is converted to `u128` before use, so larger values never reach
//! this module. Results that may need more than 128 bits are returned as
//! four little-endian 64-bit limbs, the layout of a 256-bit word.

use vstd::prelude::*;
use vstd::arithmetic::div_mod::lemma_hoist_over_denominator;
use crate::text::limbs_value;
use crate::token::Token;

verus! {

/// Basis points in a whole: a slippage of 10 000 bps is 100 %.
pub const BPS_SCALE: u64 = 10_000;

/// Percentage of the estimated gas that is offered as the gas limit.
pub const GAS_LIMIT_PERCENT: u128 = 110;

/// Base fee assumed when the latest block reports none (10 gwei).
pub const DEFAULT_BASE_FEE_WEI: u128 = 10_000_000_000;

/// Priority fee added on top of the base fee (1.5 gwei).
pub const PRIORITY_FEE_WEI: u128 = 1_500_000_000;

/// How many blocks back the settlement watcher looks for a transfer.
pub const WATCH_LOOKBACK_BLOCKS: u64 = 50;

/// Gas for a native ETH transfer.
pub const ETH_TRANSFER_GAS: u128 = 21_000;

/// Gas budgeted for an ERC-20 `transfer`.
pub const ERC20_TRANSFER_GAS: u128 = 65_000;

/// `x * num / den`, rounded down.
pub open spec fn scale_down(x: int, num: int, den: int) -> int {
    (x * num) / den
}

/// `(q * den + r) * num / den == q * num + r * num / den`.
proof fn lemma_scale_split(x: int, num: int, den: int, q: int, r: int)
    requires
        den > 0,
        num >= 0,
        x == q * den + r,
    ensures
        scale_down(x, num, den) == q * num + (r * num) / den,
{
    lemma_hoist_over_denominator(r * num, q * num, den as nat);
    assert(x * num == r * num + (q * num) * den) by (nonlinear_arith)
        requires
            x == q * den + r,
    ;
}

/// The least output a swap may deliver under a slippage tolerance in basis
/// points: `amount_out * (10000 - slippage_bps) / 10000`, rounded down.
/// (The 256-bit product never saturates for a 128-bit amount.)
pub fn min_amount_out(amount_out: u128, slippage_bps: u64) -> (res: u128)
    requires
        slippage_bps <= BPS_SCALE,
    ensures
        res == scale_down(amount_out as int, (BPS_SCALE - slippage_bps) as int, BPS_SCALE as int),
{
    let keep: u128 = (BPS_SCALE - slippage_bps) as u128;
    let q: u128 = amount_out / 10_000;
    let r: u128 = amount_out % 10_000;
    proof {
        lemma_scale_split(amount_out as int, keep as int, 10_000, q as int, r as int);
        assert(q * keep <= q * 10_000) by (nonlinear_arith)
            requires
                keep <= 10_000,
        ;
        assert(r * keep <= 10_000 * 10_000) by (nonlinear_arith)
            requires
                keep <= 10_000,
                r < 10_000,
        ;
        assert((r * keep) / 10_000 <= r) by (nonlinear_arith)
            requires
                keep <= 10_000,
                r < 10_000,
        ;
    }
    q * keep + (r * keep) / 10_000
}

/// The gas limit offered for a transaction: 110 % of the estimate, rounded
/// down, as a 256-bit word.
pub fn gas_limit(gas_units: u128) -> (res: [u64; 4])
    ensures
        limbs_value(res@) == scale_down(gas_units as int, 110, 100),
{
    let q: u128 = gas_units / 100;
    let r: u128 = gas_units % 100;
    let a: u128 = gas_units - r;
    let b: u128 = q * 10 + (r * 110) / 100;
    proof {
        lemma_scale_split(gas_units as int, 110, 100, q as int, r as int);
        assert(a == q * 100);
    }
    let (lo, carry): (u128, u64) = if a <= u128::MAX - b {
        (a + b, 0)
    } else {
        (a - (u128::MAX - b) - 1, 1)
    };
    assert(lo + carry * 0x1_0000_0000_0000_0000_0000_0000_0000_0000 == a + b);
    assert((lo & 0xffff_ffff_ffff_ffff) <= 0xffff_ffff_ffff_ffff) by (bit_vector);
    assert((lo >> 64u32) <= 0xffff_ffff_ffff_ffff) by (bit_vector);
    assert(lo == (lo & 0xffff_ffff_ffff_ffff) + (lo >> 64u32) * 0x1_0000_0000_0000_0000) by (bit_vector);
    let l0: u64 = (lo & 0xffff_ffff_ffff_ffff) as u64;
    let l1: u64 = (lo >> 64u32) as u64;
    let res: [u64; 4] = [l0, l1, carry, 0];
    assert(res@[0] == l0 && res@[1] == l1 && res@[2] == carry && res@[3] == 0);
    res
}

/// The gas price the router assumes: the block's base fee (10 gwei when the
/// block reports none) plus a 1.5 gwei priority fee.
pub fn gas_price_wei(base_fee: Option<u128>) -> (res: u128)
    requires
        base_fee.unwrap_or(DEFAULT_BASE_FEE_WEI) + PRIORITY_FEE_WEI <= u128::MAX,
    ensures
        res == base_fee.unwrap_or(DEFAULT_BASE_FEE_WEI) + PRIORITY_FEE_WEI,
{
    let base = match base_fee {
        Some(b) => b,
        None => DEFAULT_BASE_FEE_WEI,
    };
    base + PRIORITY_FEE_WEI
}

/// Gas used by a direct transfer of a token: a plain ETH send, or an
/// ERC-20 `transfer` call.
pub fn transfer_gas_units(token: Token) -> (res: u128)
    ensures
        res == if token is Eth {
            ETH_TRANSFER_GAS
        } else {
            ERC20_TRANSFER_GAS
        },
{
    match token {
        Token::Eth => ETH_TRANSFER_GAS,
        _ => ERC20_TRANSFER_GAS,
    }
}

/// The Uniswap V3 fee tiers (hundredths of a basis point) that are quoted:
/// 0.01 %, 0.05 %, 0.3 % and 1 %.
pub fn fee_tiers() -> (res: Vec<u32>)
    ensures
        res@ == seq![100u32, 500u32, 3000u32, 10000u32],
{
    let mut v: Vec<u32> = Vec::new();
    v.push(100);
    v.push(500);
    v.push(3000);
    v.push(10000);
    v
}

/// First block of the settlement watcher's window ending at `current`:
/// fifty blocks back, or the genesis block.
pub fn watch_from_block(current: u64) -> (res: u64)
    ensures
        res == if current >= WATCH_LOOKBACK_BLOCKS {
            current - WATCH_LOOKBACK_BLOCKS
        } else {
            0
        },
{
    if current >= WATCH_LOOKBACK_BLOCKS {
        current - WATCH_LOOKBACK_BLOCKS
    } else {
        0
    }
}

/// The blocks a transfer scanner has yet to read when it last read up to
/// `last_scanned` and the chain is at `current`: from the next block through
/// `current`, or nothing when no new block exists.
pub fn next_scan_range(last_scanned: u64, current: u64) -> (res: Option<(u64, u64)>)
    ensures
        match res {
            Some((from, to)) => current > last_scanned && from == last_scanned + 1 && to
                == current,
            None => current <= last_scanned,
        },
{
    if current > last_scanned {
        Some((last_scanned + 1, current))
    } else {
        None
    }
}

/// The minimum output never exceeds the quoted output, and a zero
/// tolerance keeps all of it.
pub proof fn law_min_out_within_quote(amount_out: nat, slippage_bps: nat)
    requires
        slippage_bps <= BPS_SCALE,
    ensures
        0 <= scale_down(amount_out as int, BPS_SCALE - slippage_bps, BPS_SCALE as int)
            <= amount_out,
        scale_down(amount_out as int, BPS_SCALE as int, BPS_SCALE as int) == amount_out,
{
    let keep = BPS_SCALE - slippage_bps;
    assert(0 <= amount_out * keep <= amount_out * 10_000) by (nonlinear_arith)
        requires
            0 <= keep <= 10_000,
    ;
    assert((amount_out * keep) / 10_000 <= amount_out) by (nonlinear_arith)
        requires
            0 <= amount_out * keep <= amount_out * 10_000,
    ;
    assert((amount_out * 10_000) / 10_000 == amount_out) by (nonlinear_arith);
}

/// A larger slippage tolerance never raises the minimum output.
pub proof fn law_min_out_monotone(amount_out: nat, low_bps: nat, high_bps: nat)
    requires
        low_bps <= high_bps <= BPS_SCALE,
    ensures
        scale_down(amount_out as int, BPS_SCALE - high_bps, BPS_SCALE as int) <= scale_down(
            amount_out as int,
            BPS_SCALE - low_bps,
            BPS_SCALE as int,
        ),
{
    let a = amount_out as int;
    let k1 = BPS_SCALE - high_bps;
    let k2 = BPS_SCALE - low_bps;
    assert(a * k1 <= a * k2) by (nonlinear_arith)
        requires
            0 <= k1 <= k2,
            0 <= a,
    ;
    vstd::arithmetic::div_mod::lemma_div_is_ordered(a * k1, a * k2, 10_000);
}

/// The offered gas limit covers the gas estimate.
pub proof fn law_gas_limit_covers_estimate(gas_units: nat)
    ensures
        scale_down(gas_units as int, 110, 100) >= gas_units,
{
    let g = gas_units as int;
    vstd::arithmetic::div_mod::lemma_div_is_ordered(g * 100, g * 110, 100);
    assert((g * 100) / 100 == g) by (nonlinear_arith);
}

} // verus!
