//! Verified decision logic for swapping ETH and USDC through a Uniswap V2 pool.
//!
//! The arithmetic runs on 256-bit words computed by `alloy`'s `U256`; the
//! library proves what the swap quotes, slippage floors and swap plans are,
//! and the laws of the constant-product pricing that the quotes obey.

pub mod uint;
pub mod amm;
pub mod address;
pub mod balances;
pub mod swapper;
pub mod utils;
pub mod wallet;

pub use uint::{limbs_value, word_modulus, wrap, Uint256};
