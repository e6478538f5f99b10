//! Routing and settlement logic of a cross-chain stablecoin payment router.

pub mod text;
pub mod address;
pub mod token;
pub mod chain;
pub mod amounts;
pub mod abi;
pub mod settlement;
pub mod quote;
