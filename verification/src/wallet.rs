//! The wallet that signs the swaps, by its address; its key and the chain
//! connection stay with the caller.

use vstd::prelude::*;

use crate::address::Address;
use crate::balances::{format_token_units, units_text, ETH_DECIMALS, USDC_DECIMALS};
use crate::uint::Uint256;

verus! {

/// The wallet at `address`.
pub struct EthereumWalletBuilder {
    pub address: Address,
}

impl EthereumWalletBuilder {
    /// The wallet's ETH balance, given in wei, as decimal text in ether.
    pub fn get_eth_balance(&self, wei: &Uint256) -> (r: String)
        ensures
            r@ == units_text(wei@, 18),
    {
        format_token_units(wei, ETH_DECIMALS)
    }

    /// The wallet's USDC balance, given in the token's smallest unit, as
    /// decimal text in USDC.
    pub fn get_usdc_balance(&self, raw: &Uint256) -> (r: String)
        ensures
            r@ == units_text(raw@, 6),
    {
        format_token_units(raw, USDC_DECIMALS)
    }
}

} // verus!
