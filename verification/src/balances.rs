//! Balances of a wallet in ETH and USDC, rendered as decimal text in the
//! token's unit (`format_units`): 18 decimals for ETH, 6 for USDC.

use vstd::prelude::*;

use crate::address::Address;
use crate::uint::Uint256;

verus! {

/// The number of decimals of ETH (wei per ether is 10^18).
pub const ETH_DECIMALS: u8 = 18;

/// The number of decimals of USDC.
pub const USDC_DECIMALS: u8 = 6;

/// 10^n.
pub open spec fn pow10(n: nat) -> nat
    decreases n,
{
    if n == 0 {
        1
    } else {
        10 * pow10((n - 1) as nat)
    }
}

/// The character of a decimal digit `d < 10`.
pub open spec fn digit_char(d: nat) -> char {
    (d + 48) as char
}

/// The decimal text of `n`, without leading zeros (`"0"` for zero).
pub open spec fn decimal_text(n: nat) -> Seq<char>
    decreases n,
{
    if n < 10 {
        seq![digit_char(n)]
    } else {
        decimal_text(n / 10).push(digit_char(n % 10))
    }
}

/// `s` padded on the left with `'0'` to at least `width` characters.
pub open spec fn left_pad_zeros(s: Seq<char>, width: nat) -> Seq<char> {
    if s.len() >= width {
        s
    } else {
        Seq::new((width - s.len()) as nat, |i: int| '0') + s
    }
}

/// `value` smallest units written in a unit of `decimals` decimals: the
/// integer part, a point, and the remainder padded to `decimals` digits.
pub open spec fn units_text(value: nat, decimals: nat) -> Seq<char> {
    decimal_text(value / pow10(decimals)) + seq!['.'] + left_pad_zeros(
        decimal_text(value % pow10(decimals)),
        decimals,
    )
}

#[verifier::external_type_specification]
#[verifier::external_body]
pub struct ExUnitsError(alloy::primitives::utils::UnitsError);

/// `alloy::primitives::utils::format_units` with a number of decimals: it
/// fails exactly for more than 77 decimals, and otherwise writes the integer
/// part, a point, and the fractional part padded with zeros to `decimals` digits.
#[verifier::external_body]
fn format_units_text(value: &Uint256, decimals: u8) -> (r: Result<
    String,
    alloy::primitives::utils::UnitsError,
>)
    ensures
        r is Ok <==> decimals <= 77,
        r matches Ok(s) ==> s@ == units_text(value@, decimals as nat),
{
    alloy::primitives::utils::format_units(alloy::primitives::U256::from_limbs(value.limbs), decimals)
}

/// `value` smallest units as decimal text in a unit of `decimals` decimals;
/// `None` for more than 77 decimals, which no unit has.
pub fn format_units(value: &Uint256, decimals: u8) -> (r: Option<String>)
    ensures
        r is Some <==> decimals <= 77,
        r matches Some(s) ==> s@ == units_text(value@, decimals as nat),
{
    match format_units_text(value, decimals) {
        Ok(s) => Some(s),
        Err(_) => None,
    }
}

/// `value` as decimal text in a unit of `decimals` decimals, for the units
/// of the tokens swapped here.
pub fn format_token_units(value: &Uint256, decimals: u8) -> (r: String)
    requires
        decimals == ETH_DECIMALS || decimals == USDC_DECIMALS,
    ensures
        r@ == units_text(value@, decimals as nat),
{
    match format_units(value, decimals) {
        Some(s) => s,
        None => String::new(),
    }
}

/// The balances of one wallet; the chain is read by the caller, which hands
/// the raw amounts over.
pub struct Balances {
    address: Address,
}

impl Balances {
    /// The balances of the wallet at `address`.
    pub fn new(address: Address) -> (r: Balances)
        ensures
            r.address() == address,
    {
        Balances { address }
    }

    /// The wallet whose balances these are.
    pub closed spec fn address(&self) -> Address {
        self.address
    }

    /// The wallet whose balances these are.
    pub fn owner(&self) -> (r: Address)
        ensures
            r == self.address(),
    {
        self.address
    }

    /// The ETH balance, given in wei, as decimal text in ether.
    pub fn get_eth_balance(&self, wei: &Uint256) -> (r: String)
        ensures
            r@ == units_text(wei@, 18),
    {
        format_token_units(wei, ETH_DECIMALS)
    }

    /// The USDC balance, given in the token's smallest unit, as decimal text in USDC.
    pub fn get_usdc_balance(&self, raw: &Uint256) -> (r: String)
        ensures
            r@ == units_text(raw@, 6),
    {
        format_token_units(raw, USDC_DECIMALS)
    }
}

} // verus!
