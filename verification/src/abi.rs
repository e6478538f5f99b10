//! Contract call data: Solidity ABI encoding of the two calls the router
//! hands to wallets.

use vstd::prelude::*;
use vstd::arithmetic::power::pow;
use crate::address::EthAddress;

verus! {

/// A static ABI value: an address or an unsigned integer.
#[derive(Clone, Copy, Debug)]
pub enum AbiWord {
    Address(EthAddress),
    Uint(u128),
}

/// A 256-bit big-endian word holding `v`.
pub open spec fn be_word(v: nat) -> Seq<u8> {
    Seq::new(32, |i: int| ((v / pow(256, (31 - i) as nat) as nat) % 256) as u8)
}

/// The 32-byte encoding of one static value: an address left-padded with
/// twelve zero bytes, an integer as a big-endian word.
pub open spec fn word_bytes(w: AbiWord) -> Seq<u8> {
    match w {
        AbiWord::Address(a) => Seq::new(12, |i: int| 0u8) + a.bytes@,
        AbiWord::Uint(v) => be_word(v as nat),
    }
}

/// The ABI encoding of a sequence of static values: their words in order.
pub open spec fn abi_words(ws: Seq<AbiWord>) -> Seq<u8>
    decreases ws.len(),
{
    if ws.len() == 0 {
        Seq::empty()
    } else {
        abi_words(ws.drop_last()) + word_bytes(ws.last())
    }
}

/// The first four bytes of the Keccak-256 hash of a function signature.
pub uninterp spec fn keccak_selector(signature: Seq<char>) -> Seq<u8>;

/// `ethers::abi::encode` (ethabi): for addresses and unsigned integers every
/// token is encoded in place as one 32-byte word, addresses left-padded with
/// zeros, integers big-endian, with nothing between or after them.
#[verifier::external_body]
fn abi_encode(words: &Vec<AbiWord>) -> (res: Vec<u8>)
    ensures
        res@ == abi_words(words@),
{
    let tokens: Vec<ethers::abi::Token> = words.iter().map(|w| match w {
        AbiWord::Address(a) => ethers::abi::Token::Address(ethers::types::H160(a.bytes)),
        AbiWord::Uint(v) => ethers::abi::Token::Uint(ethers::types::U256::from(*v)),
    }).collect();
    ethers::abi::encode(&tokens)
}

/// `ethers::utils::id`: the first four bytes of the Keccak-256 hash of the
/// signature's UTF-8 bytes. Only its name is used here.
#[verifier::external_body]
fn function_selector(signature: &str) -> (res: [u8; 4])
    ensures
        res@ == keccak_selector(signature@),
{
    ethers::utils::id(signature)
}

/// A call's data: the function selector followed by the encoded arguments.
pub fn calldata_with_selector(selector: [u8; 4], args: &Vec<AbiWord>) -> (res: Vec<u8>)
    ensures
        res@ == selector@ + abi_words(args@),
{
    let mut data: Vec<u8> = Vec::new();
    data.push(selector[0]);
    data.push(selector[1]);
    data.push(selector[2]);
    data.push(selector[3]);
    assert(data@ =~= selector@);
    let mut encoded = abi_encode(args);
    data.append(&mut encoded);
    data
}

/// A call's data: the selector of `signature` followed by the encoded
/// arguments.
fn call_data(signature: &str, args: &Vec<AbiWord>) -> (res: Vec<u8>)
    ensures
        res@ == keccak_selector(signature@) + abi_words(args@),
{
    calldata_with_selector(function_selector(signature), args)
}

/// The arguments of a Uniswap SwapRouter02 `exactInputSingle` call with no
/// price limit.
pub open spec fn swap_args(
    token_in: EthAddress,
    token_out: EthAddress,
    fee: u32,
    recipient: EthAddress,
    amount_in: u128,
    amount_out_minimum: u128,
) -> Seq<AbiWord> {
    seq![
        AbiWord::Address(token_in),
        AbiWord::Address(token_out),
        AbiWord::Uint(fee as u128),
        AbiWord::Address(recipient),
        AbiWord::Uint(amount_in),
        AbiWord::Uint(amount_out_minimum),
        AbiWord::Uint(0),
    ]
}

/// Call data of SwapRouter02's
/// `exactInputSingle((address,address,uint24,address,uint256,uint256,uint160))`
/// for a single-pool swap with no price limit.
pub fn swap_calldata(
    token_in: EthAddress,
    token_out: EthAddress,
    fee: u32,
    recipient: EthAddress,
    amount_in: u128,
    amount_out_minimum: u128,
) -> (res: Vec<u8>)
    ensures
        res@ == keccak_selector(
            "exactInputSingle((address,address,uint24,address,uint256,uint256,uint160))"@,
        ) + abi_words(swap_args(token_in, token_out, fee, recipient, amount_in, amount_out_minimum)),
{
    let mut args: Vec<AbiWord> = Vec::new();
    args.push(AbiWord::Address(token_in));
    args.push(AbiWord::Address(token_out));
    args.push(AbiWord::Uint(fee as u128));
    args.push(AbiWord::Address(recipient));
    args.push(AbiWord::Uint(amount_in));
    args.push(AbiWord::Uint(amount_out_minimum));
    args.push(AbiWord::Uint(0));
    assert(args@ =~= swap_args(token_in, token_out, fee, recipient, amount_in, amount_out_minimum));
    call_data("exactInputSingle((address,address,uint24,address,uint256,uint256,uint160))", &args)
}

/// Call data of the ERC-20 `transfer(address,uint256)` call.
pub fn transfer_calldata(to: EthAddress, amount: u128) -> (res: Vec<u8>)
    ensures
        res@ == keccak_selector("transfer(address,uint256)"@) + abi_words(
            seq![AbiWord::Address(to), AbiWord::Uint(amount)],
        ),
{
    let mut args: Vec<AbiWord> = Vec::new();
    args.push(AbiWord::Address(to));
    args.push(AbiWord::Uint(amount));
    assert(args@ =~= seq![AbiWord::Address(to), AbiWord::Uint(amount)]);
    call_data("transfer(address,uint256)", &args)
}

/// The `exactInputSingle` arguments are, in order: the input token, the
/// output token, the quoted fee tier, the recipient, the input amount, the
/// minimum output and a zero price limit; so the call uses exactly the pool
/// that was quoted.
pub proof fn law_swap_args_layout(
    token_in: EthAddress,
    token_out: EthAddress,
    fee: u32,
    recipient: EthAddress,
    amount_in: u128,
    amount_out_minimum: u128,
)
    ensures
        ({
            let a = swap_args(token_in, token_out, fee, recipient, amount_in, amount_out_minimum);
            &&& a.len() == 7
            &&& a[0] == AbiWord::Address(token_in)
            &&& a[1] == AbiWord::Address(token_out)
            &&& a[2] == AbiWord::Uint(fee as u128)
            &&& a[3] == AbiWord::Address(recipient)
            &&& a[4] == AbiWord::Uint(amount_in)
            &&& a[5] == AbiWord::Uint(amount_out_minimum)
            &&& a[6] == AbiWord::Uint(0)
        }),
{
}

} // verus!
