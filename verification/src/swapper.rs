//! The swapper's decisions: which reserve of the pair belongs to which
//! token, what each swap asks of the router (amounts, slippage floor, path,
//! deadline), and when the router must first be approved to spend USDC.
//!
//! The chain itself (reading reserves and allowances, sending transactions)
//! is reached by the caller, which hands the values it read to these
//! functions and performs the actions they return.

use vstd::prelude::*;
use vstd::string::StringSliceAdditionalSpecFns;
use vstd::utf8::is_char_boundary;

use crate::address::{
    address_from_hex, bytes_lt, hex_digit_value, law_address_order, strip_hex_prefix, token0_of, Address,
};
use crate::amm::{
    amount_out_min, get_amount_out, law_floor_monotone, law_quote_below_reserve, law_slippage_floor, quote,
    quote_denominator, quote_fits, slippage_floor,
};
use crate::uint::{word_lt, Uint256};

verus! {

/// The USDC token contract.
pub const USDC_ADDRESS: &'static str = "0xA0b86991c6218b36c1d19D4a2e9Eb0cE3606eB48";

/// The WETH token contract.
pub const WETH_ADDRESS: &'static str = "0xC02aaA39b223FE8D0A0e5C4F27eAD9083C756Cc2";

/// The Uniswap V2 router.
pub const UNIV2_ROUTER_ADDRESS: &'static str = "0x7a250d5630B4cF539739dF2C5dAcb4c659F2488D";

/// The Uniswap V2 WETH/USDC pair.
pub const PAIR_ADDRESS: &'static str = "0xB4e16d0168e52d35CaCD2c6185b44281Ec28C9Dc";

/// Seconds that a swap stays valid after it is built.
pub const DEADLINE_SECONDS: u64 = 60;

/// Why a swap could not be built.
#[derive(Clone, Copy, Debug, PartialEq, Eq)]
pub enum SwapError {
    /// An address text is not forty hex digits.
    InvalidAddress,
    /// An ETH amount text is not a decimal amount of ether.
    InvalidAmount,
    /// The quote's denominator is zero: the pool is empty and nothing is paid in.
    EmptyPool,
    /// The deadline does not fit in a timestamp.
    DeadlineOverflow,
}

/// The four contract addresses are well-formed hexadecimal text.
pub proof fn lemma_contract_addresses_parse()
    ensures
        address_from_hex(USDC_ADDRESS@) is Some,
        address_from_hex(WETH_ADDRESS@) is Some,
        address_from_hex(UNIV2_ROUTER_ADDRESS@) is Some,
        address_from_hex(PAIR_ADDRESS@) is Some,
{
    reveal_strlit("0xA0b86991c6218b36c1d19D4a2e9Eb0cE3606eB48");
    reveal_strlit("0xC02aaA39b223FE8D0A0e5C4F27eAD9083C756Cc2");
    reveal_strlit("0x7a250d5630B4cF539739dF2C5dAcb4c659F2488D");
    reveal_strlit("0xB4e16d0168e52d35CaCD2c6185b44281Ec28C9Dc");
    let h = strip_hex_prefix(USDC_ADDRESS@);
    assert(forall|i: int| 0 <= i < 40 ==> (#[trigger] hex_digit_value(h[i])) is Some);
    let h = strip_hex_prefix(WETH_ADDRESS@);
    assert(forall|i: int| 0 <= i < 40 ==> (#[trigger] hex_digit_value(h[i])) is Some);
    let h = strip_hex_prefix(UNIV2_ROUTER_ADDRESS@);
    assert(forall|i: int| 0 <= i < 40 ==> (#[trigger] hex_digit_value(h[i])) is Some);
    let h = strip_hex_prefix(PAIR_ADDRESS@);
    assert(forall|i: int| 0 <= i < 40 ==> (#[trigger] hex_digit_value(h[i])) is Some);
}

/// On mainnet USDC sorts before WETH (its first byte is `0xa0`, WETH's
/// `0xc0`), so USDC is the pair's first token and its reserve is `reserve0`.
pub proof fn law_usdc_is_token0(reserve0: nat, reserve1: nat)
    ensures
        bytes_lt(address_from_hex(USDC_ADDRESS@).unwrap(), address_from_hex(WETH_ADDRESS@).unwrap()),
        oriented_reserves(
            address_from_hex(WETH_ADDRESS@).unwrap(),
            address_from_hex(USDC_ADDRESS@).unwrap(),
            reserve0,
            reserve1,
        ) == (reserve0, reserve1),
{
    lemma_contract_addresses_parse();
    reveal_strlit("0xA0b86991c6218b36c1d19D4a2e9Eb0cE3606eB48");
    reveal_strlit("0xC02aaA39b223FE8D0A0e5C4F27eAD9083C756Cc2");
    let usdc = address_from_hex(USDC_ADDRESS@).unwrap();
    let weth = address_from_hex(WETH_ADDRESS@).unwrap();
    let hu = strip_hex_prefix(USDC_ADDRESS@);
    let hw = strip_hex_prefix(WETH_ADDRESS@);
    assert(hu[0] == 'A' && hu[1] == '0');
    assert(hw[0] == 'C' && hw[1] == '0');
    assert(usdc[0] == 160u8);
    assert(weth[0] == 192u8);
    assert(usdc[0] < weth[0]);
    assert(bytes_lt(usdc, weth));
    if bytes_lt(weth, usdc) {
        let i = choose|i: int|
            0 <= i < weth.len() && i < usdc.len() && #[trigger] weth[i] < usdc[i] && forall|j: int|
                0 <= j < i ==> weth[j] == usdc[j];
        if i > 0 {
            assert(weth[0] == usdc[0]);
        }
    }
}

/// The reserves of the pair oriented for a USDC-to-WETH swap: the reserve of
/// the token that sorts first is `reserve0`, so USDC's reserve comes first
/// exactly when USDC is that token.
pub open spec fn oriented_reserves(weth: Seq<u8>, usdc: Seq<u8>, reserve0: nat, reserve1: nat) -> (nat, nat) {
    if token0_of(weth, usdc) == usdc {
        (reserve0, reserve1)
    } else {
        (reserve1, reserve0)
    }
}

/// The deadline `now_secs + 60`, or `None` where it does not fit in 64 bits.
pub fn swap_deadline(now_secs: u64) -> (r: Option<Uint256>)
    ensures
        r is Some <==> now_secs + 60 <= u64::MAX,
        r matches Some(d) ==> d@ == now_secs + 60,
{
    match now_secs.checked_add(DEADLINE_SECONDS) {
        Some(t) => Some(Uint256::from_u64(t)),
        None => None,
    }
}

/// Whether the router must be approved before it can spend `amount`: the
/// current allowance is below it.
pub fn needs_approval(allowance: &Uint256, amount: &Uint256) -> (r: bool)
    ensures
        r == (allowance@ < amount@),
{
    word_lt(allowance, amount)
}

/// A `swapExactTokensForETH` call: spend exactly `amount_in` USDC for at
/// least `amount_out_min` wei, along `path`, paid to `to`, before `deadline`.
pub struct TokenSwapPlan {
    /// The USDC amount to sell, in the token's smallest unit.
    pub amount_in: Uint256,
    /// The least ETH to accept, in wei.
    pub amount_out_min: Uint256,
    /// The quote the floor was taken from, in wei.
    pub amount_out: Uint256,
    /// The tokens along the swap: USDC, then WETH.
    pub path: Vec<Address>,
    /// Who receives the ETH.
    pub to: Address,
    /// The router, which spends the USDC.
    pub spender: Address,
    /// The USDC token, whose allowance the router needs.
    pub token: Address,
    /// The last second at which the swap may be mined.
    pub deadline: Uint256,
}

/// A `swapExactETHForTokens` call: pay `value` wei for at least
/// `amount_out_min` USDC, along `path`, paid to `to`, before `deadline`.
pub struct EthSwapPlan {
    /// The ETH paid in, in wei.
    pub value: Uint256,
    /// The least USDC to accept, in the token's smallest unit.
    pub amount_out_min: Uint256,
    /// The quote the floor was taken from.
    pub amount_out: Uint256,
    /// The tokens along the swap: WETH, then USDC.
    pub path: Vec<Address>,
    /// Who receives the USDC.
    pub to: Address,
    /// The last second at which the swap may be mined.
    pub deadline: Uint256,
}

/// The swapper: its wallet and the USDC, WETH, router and pair contracts.
/// It keeps no reserves: every swap is quoted on the reserves the caller
/// read from the pair for that swap, so at the current price.
pub struct Swapper {
    my_address: Address,
    usdc_address: Address,
    weth_address: Address,
    univ2_router: Address,
    pair: Address,
}

impl Swapper {
    /// The wallet that swaps.
    pub closed spec fn my_address_spec(&self) -> Address {
        self.my_address
    }

    /// The USDC token.
    pub closed spec fn usdc_address_spec(&self) -> Address {
        self.usdc_address
    }

    /// The WETH token.
    pub closed spec fn weth_address_spec(&self) -> Address {
        self.weth_address
    }

    /// The router.
    pub closed spec fn router_spec(&self) -> Address {
        self.univ2_router
    }

    /// The pair.
    pub closed spec fn pair_spec(&self) -> Address {
        self.pair
    }

    /// The pair's reserves `(reserve0, reserve1)` as USDC's reserve and
    /// WETH's reserve, in that order.
    pub open spec fn usdc_weth_reserves(&self, reserve0: nat, reserve1: nat) -> (nat, nat) {
        oriented_reserves(self.weth_address_spec()@, self.usdc_address_spec()@, reserve0, reserve1)
    }

    /// A swapper for the wallet at `my_address`, with the USDC, WETH, router
    /// and pair contracts of mainnet; an error where the wallet address does
    /// not parse.
    pub fn new(my_address: &str) -> (r: Result<Swapper, SwapError>)
        ensures
            r is Ok <==> address_from_hex(my_address@) is Some,
            r is Err ==> r == Err::<Swapper, SwapError>(SwapError::InvalidAddress),
            r matches Ok(s) ==> {
                &&& Some(s.usdc_address_spec()@) == address_from_hex(USDC_ADDRESS@)
                &&& Some(s.weth_address_spec()@) == address_from_hex(WETH_ADDRESS@)
                &&& Some(s.router_spec()@) == address_from_hex(UNIV2_ROUTER_ADDRESS@)
                &&& Some(s.pair_spec()@) == address_from_hex(PAIR_ADDRESS@)
                &&& Some(s.my_address_spec()@) == address_from_hex(my_address@)
            },
    {
        proof {
            lemma_contract_addresses_parse();
        }
        let usdc_address = match Address::parse(USDC_ADDRESS) {
            Some(a) => a,
            None => return Err(SwapError::InvalidAddress),
        };
        let weth_address = match Address::parse(WETH_ADDRESS) {
            Some(a) => a,
            None => return Err(SwapError::InvalidAddress),
        };
        let univ2_router = match Address::parse(UNIV2_ROUTER_ADDRESS) {
            Some(a) => a,
            None => return Err(SwapError::InvalidAddress),
        };
        let pair = match Address::parse(PAIR_ADDRESS) {
            Some(a) => a,
            None => return Err(SwapError::InvalidAddress),
        };
        let my_address = match Address::parse(my_address) {
            Some(a) => a,
            None => return Err(SwapError::InvalidAddress),
        };
        Ok(Swapper { my_address, usdc_address, weth_address, univ2_router, pair })
    }

    /// The wallet that swaps.
    pub fn my_address(&self) -> (r: Address)
        ensures
            r == self.my_address_spec(),
    {
        self.my_address
    }

    /// The USDC token.
    pub fn usdc_address(&self) -> (r: Address)
        ensures
            r == self.usdc_address_spec(),
    {
        self.usdc_address
    }

    /// The WETH token.
    pub fn weth_address(&self) -> (r: Address)
        ensures
            r == self.weth_address_spec(),
    {
        self.weth_address
    }

    /// The router.
    pub fn univ2_router(&self) -> (r: Address)
        ensures
            r == self.router_spec(),
    {
        self.univ2_router
    }

    /// The pair.
    pub fn pair(&self) -> (r: Address)
        ensures
            r == self.pair_spec(),
    {
        self.pair
    }

    /// The pair's reserves, read as `(reserve0, reserve1)`, as USDC's reserve
    /// and WETH's reserve: the pair lists the byte-wise smaller token first.
    pub fn prepare_swap(&self, reserve0: u128, reserve1: u128) -> (r: (Uint256, Uint256))
        ensures
            (r.0@, r.1@) == self.usdc_weth_reserves(reserve0 as nat, reserve1 as nat),
    {
        let token0 = if self.weth_address.lt(&self.usdc_address) {
            self.weth_address
        } else {
            self.usdc_address
        };
        let r0 = Uint256::from_u128(reserve0);
        let r1 = Uint256::from_u128(reserve1);
        if token0.is_same(&self.usdc_address) {
            (r0, r1)
        } else {
            (r1, r0)
        }
    }

    /// What selling `usdc_amount` USDC for ETH asks of the router, on the
    /// pair's current reserves `(reserve0, reserve1)`: the quote, its floor
    /// keeping `keep_per_mille` thousandths, the path USDC to WETH, and a
    /// deadline 60 seconds after `now_secs`.
    pub open spec fn usdc_for_eth_outcome(
        &self,
        reserve0: nat,
        reserve1: nat,
        usdc_amount: nat,
        keep_per_mille: nat,
        now_secs: nat,
        r: Result<TokenSwapPlan, SwapError>,
    ) -> bool {
        let (rin, rout) = self.usdc_weth_reserves(reserve0, reserve1);
        if quote_denominator(usdc_amount, rin) == 0 {
            r == Err::<TokenSwapPlan, SwapError>(SwapError::EmptyPool)
        } else if now_secs + 60 > u64::MAX {
            r == Err::<TokenSwapPlan, SwapError>(SwapError::DeadlineOverflow)
        } else {
            r matches Ok(p) && {
                &&& p.amount_in@ == usdc_amount
                &&& p.amount_out@ == quote(usdc_amount, rin, rout)
                &&& p.amount_out_min@ == slippage_floor(quote(usdc_amount, rin, rout), keep_per_mille)
                &&& p.path@ == seq![self.usdc_address_spec(), self.weth_address_spec()]
                &&& p.to == self.my_address_spec()
                &&& p.spender == self.router_spec()
                &&& p.token == self.usdc_address_spec()
                &&& p.deadline@ == now_secs + 60
            }
        }
    }

    /// Builds the swap of `usdc_amount` USDC (smallest unit) for ETH, quoted
    /// on the pair's reserves `(reserve0, reserve1)` as read for this swap,
    /// with a floor keeping `keep_per_mille` thousandths of the quote and a
    /// deadline 60 seconds after `now_secs`.
    pub fn usdc_for_eth(
        &self,
        reserve0: u128,
        reserve1: u128,
        usdc_amount: &Uint256,
        keep_per_mille: u64,
        now_secs: u64,
    ) -> (r: Result<TokenSwapPlan, SwapError>)
        ensures
            self.usdc_for_eth_outcome(
                reserve0 as nat,
                reserve1 as nat,
                usdc_amount@,
                keep_per_mille as nat,
                now_secs as nat,
                r,
            ),
    {
        let (reserve_in, reserve_out) = self.prepare_swap(reserve0, reserve1);
        let amount_out = match get_amount_out(usdc_amount, &reserve_in, &reserve_out) {
            Some(v) => v,
            None => return Err(SwapError::EmptyPool),
        };
        let min_out = amount_out_min(&amount_out, keep_per_mille);
        let deadline = match swap_deadline(now_secs) {
            Some(d) => d,
            None => return Err(SwapError::DeadlineOverflow),
        };
        let mut path: Vec<Address> = Vec::new();
        path.push(self.usdc_address);
        path.push(self.weth_address);
        assert(path@ =~= seq![self.usdc_address, self.weth_address]);
        Ok(TokenSwapPlan {
            amount_in: *usdc_amount,
            amount_out_min: min_out,
            amount_out,
            path,
            to: self.my_address,
            spender: self.univ2_router,
            token: self.usdc_address,
            deadline,
        })
    }

    /// What buying USDC with `eth_amount` wei asks of the router, on the
    /// pair's current reserves `(reserve0, reserve1)`: the quote with WETH's
    /// reserve as the input side, its floor keeping `keep_per_mille`
    /// thousandths, the path WETH to USDC, and a deadline 60 seconds after
    /// `now_secs`.
    pub open spec fn eth_for_usdc_outcome(
        &self,
        reserve0: nat,
        reserve1: nat,
        eth_amount: nat,
        keep_per_mille: nat,
        now_secs: nat,
        r: Result<EthSwapPlan, SwapError>,
    ) -> bool {
        let (usdc_reserve, weth_reserve) = self.usdc_weth_reserves(reserve0, reserve1);
        if quote_denominator(eth_amount, weth_reserve) == 0 {
            r == Err::<EthSwapPlan, SwapError>(SwapError::EmptyPool)
        } else if now_secs + 60 > u64::MAX {
            r == Err::<EthSwapPlan, SwapError>(SwapError::DeadlineOverflow)
        } else {
            r matches Ok(p) && {
                &&& p.value@ == eth_amount
                &&& p.amount_out@ == quote(eth_amount, weth_reserve, usdc_reserve)
                &&& p.amount_out_min@ == slippage_floor(
                    quote(eth_amount, weth_reserve, usdc_reserve),
                    keep_per_mille,
                )
                &&& p.path@ == seq![self.weth_address_spec(), self.usdc_address_spec()]
                &&& p.to == self.my_address_spec()
                &&& p.deadline@ == now_secs + 60
            }
        }
    }

    /// Builds the swap of `eth_amount` wei for USDC, quoted on the pair's
    /// reserves `(reserve0, reserve1)` as read for this swap, with a floor
    /// keeping `keep_per_mille` thousandths of the quote and a deadline 60
    /// seconds after `now_secs`.
    pub fn eth_for_usdc_wei(
        &self,
        reserve0: u128,
        reserve1: u128,
        eth_amount: &Uint256,
        keep_per_mille: u64,
        now_secs: u64,
    ) -> (r: Result<EthSwapPlan, SwapError>)
        ensures
            self.eth_for_usdc_outcome(
                reserve0 as nat,
                reserve1 as nat,
                eth_amount@,
                keep_per_mille as nat,
                now_secs as nat,
                r,
            ),
    {
        let (usdc_reserve, weth_reserve) = self.prepare_swap(reserve0, reserve1);
        // Selling ETH: the WETH reserve is the input side, the USDC reserve the output.
        let amount_out = match get_amount_out(eth_amount, &weth_reserve, &usdc_reserve) {
            Some(v) => v,
            None => return Err(SwapError::EmptyPool),
        };
        let min_out = amount_out_min(&amount_out, keep_per_mille);
        let deadline = match swap_deadline(now_secs) {
            Some(d) => d,
            None => return Err(SwapError::DeadlineOverflow),
        };
        let mut path: Vec<Address> = Vec::new();
        path.push(self.weth_address);
        path.push(self.usdc_address);
        assert(path@ =~= seq![self.weth_address, self.usdc_address]);
        Ok(EthSwapPlan { value: *eth_amount, amount_out_min: min_out, amount_out, path, to: self.my_address, deadline })
    }
}

/// What the caller observed since the last action of a USDC-to-ETH swap.
pub enum TokenSwapEvent {
    /// The swap is about to start.
    Begin,
    /// The router's allowance on the wallet's USDC was read.
    AllowanceRead(Uint256),
    /// The approval transaction was sent.
    ApprovalSent,
    /// The swap transaction was mined.
    SwapMined,
}

/// What the caller must do next in a USDC-to-ETH swap.
pub enum TokenSwapAction {
    /// Read how much USDC of `owner` the `spender` may spend.
    ReadAllowance { owner: Address, spender: Address },
    /// Approve `spender` to spend `amount` USDC.
    Approve { spender: Address, amount: Uint256 },
    /// Send the swap of the plan to the router and wait for it.
    SendSwap,
    /// The swap is done.
    Finish,
}

/// The step of a USDC-to-ETH swap that follows `event`: read the allowance
/// first; approve the router for exactly the amount sold when the allowance
/// is below it; send the swap once the allowance suffices or the approval
/// was sent; finish when the swap is mined.
pub fn next_token_swap_action(plan: &TokenSwapPlan, event: &TokenSwapEvent) -> (r: TokenSwapAction)
    ensures
        match *event {
            TokenSwapEvent::Begin => r == TokenSwapAction::ReadAllowance {
                owner: plan.to,
                spender: plan.spender,
            },
            TokenSwapEvent::AllowanceRead(allowance) => if allowance@ < plan.amount_in@ {
                r == TokenSwapAction::Approve { spender: plan.spender, amount: plan.amount_in }
            } else {
                r == TokenSwapAction::SendSwap
            },
            TokenSwapEvent::ApprovalSent => r == TokenSwapAction::SendSwap,
            TokenSwapEvent::SwapMined => r == TokenSwapAction::Finish,
        },
{
    match event {
        TokenSwapEvent::Begin => TokenSwapAction::ReadAllowance { owner: plan.to, spender: plan.spender },
        TokenSwapEvent::AllowanceRead(allowance) => {
            if needs_approval(allowance, &plan.amount_in) {
                TokenSwapAction::Approve { spender: plan.spender, amount: plan.amount_in }
            } else {
                TokenSwapAction::SendSwap
            }
        },
        TokenSwapEvent::ApprovalSent => TokenSwapAction::SendSwap,
        TokenSwapEvent::SwapMined => TokenSwapAction::Finish,
    }
}

/// The amount of wei that `parse_ether` reads from a decimal ether text
/// (`"1"` is 10^18 wei, `"0.5"` half of that, a negative amount its 256-bit
/// two's complement), where it reads one.
pub uninterp spec fn ether_text_wei(text: Seq<char>) -> Option<nat>;

/// A text that starts with a minus sign.
pub open spec fn is_negative_text(text: Seq<char>) -> bool {
    text.len() > 0 && text[0] == '-'
}

/// `i` is the byte index of the first `.` in `bytes`.
pub open spec fn is_first_point(bytes: Seq<u8>, i: int) -> bool {
    0 <= i < bytes.len() && bytes[i] == 46 && forall|j: int| 0 <= j < i ==> bytes[j] != 46
}

/// Whether `parse_ether` would cut the text inside a character: it drops the
/// decimals past the 18th by byte index, which for text with more than 18
/// bytes after its first `.` must fall on a character boundary.
pub open spec fn cuts_inside_char(text: &str) -> bool {
    exists|i: int|
        is_first_point(text.spec_bytes(), i) && text.spec_bytes().len() > i + 19 && !is_char_boundary(
            text.spec_bytes(),
            i + 19,
        )
}

/// `parse_ether` cuts a text inside a character exactly when the text has
/// more than 18 bytes after its first `.` and the byte 19 places after that
/// `.` continues a multi-byte character (it has the form `10xxxxxx`).
pub proof fn law_cut_lands_on_continuation_byte(text: &str)
    ensures
        cuts_inside_char(text) <==> exists|i: int|
            is_first_point(text.spec_bytes(), i) && text.spec_bytes().len() > i + 19
                && vstd::utf8::is_continuation_byte(#[trigger] text.spec_bytes()[i + 19]),
{
    let bytes = text.spec_bytes();
    vstd::utf8::encode_utf8_valid_utf8(text@);
    if cuts_inside_char(text) {
        let i = choose|i: int|
            is_first_point(bytes, i) && bytes.len() > i + 19 && !is_char_boundary(bytes, i + 19);
        vstd::utf8::is_char_boundary_iff_not_is_continuation_byte(bytes, i + 19);
        assert(vstd::utf8::is_continuation_byte(bytes[i + 19]));
    }
    if exists|i: int|
        is_first_point(bytes, i) && bytes.len() > i + 19 && vstd::utf8::is_continuation_byte(
            #[trigger] bytes[i + 19],
        ) {
        let i = choose|i: int|
            is_first_point(bytes, i) && bytes.len() > i + 19 && vstd::utf8::is_continuation_byte(
                #[trigger] bytes[i + 19],
            );
        vstd::utf8::is_char_boundary_iff_not_is_continuation_byte(bytes, i + 19);
        assert(!is_char_boundary(bytes, i + 19));
    }
}

/// An ASCII text is never cut inside a character, so `parse_ether` can
/// always be asked to read it: for ASCII text, being an amount of ether
/// comes down to not being a long negative text and `parse_ether` reading
/// an amount from it (whatever the number of decimals); for ASCII text of
/// fewer than 60 characters, or that does not start with `-`, it comes down
/// to `parse_ether` reading an amount alone.
pub proof fn law_ascii_text_never_cut(text: &str)
    requires
        vstd::string::is_ascii(text),
    ensures
        !cuts_inside_char(text),
        is_eth_amount_text(text) <==> !may_overflow_negative(text@) && ether_text_wei(text@) is Some,
        text@.len() < 60 || !(text@.len() > 0 && text@[0] == '-') ==> (is_eth_amount_text(text)
            <==> ether_text_wei(text@) is Some),
{
    let bytes = text.spec_bytes();
    vstd::string::is_ascii_spec_bytes(text);
    vstd::utf8::is_ascii_chars_nat_bound(text@);
    law_cut_lands_on_continuation_byte(text);
    assert forall|k: int| 0 <= k < bytes.len() implies !vstd::utf8::is_continuation_byte(#[trigger] bytes[k]) by {
        assert((text@[k] as nat) < 128);
        assert(bytes[k] == text@[k] as u8);
    }
}

/// Whether `parse_ether` might overflow when it scales a negative amount: the
/// scaled magnitude reaches 2^255 only for at least 59 digits, so only for
/// negative text of at least 60 characters.
pub open spec fn may_overflow_negative(text: Seq<char>) -> bool {
    is_negative_text(text) && text.len() >= 60
}

/// `alloy::primitives::utils::parse_ether`: reads a decimal amount of ether
/// as wei. What it accepts and what it reads is left to the name
/// `ether_text_wei`. It can panic in two ways, which `requires` keeps out:
/// when it cuts the decimals past the 18th inside a character, and (with
/// overflow checks) when scaling a negative amount overflows a signed 256-bit
/// integer. The second guard is wider than the panic: it also keeps out long
/// negative texts that would not overflow (leading zeros, `_`, many decimals).
#[verifier::external_body]
fn parse_ether_text(text: &str) -> (r: Result<Uint256, alloy::primitives::utils::UnitsError>)
    requires
        !cuts_inside_char(text),
        !may_overflow_negative(text@),
    ensures
        r is Ok <==> ether_text_wei(text@) is Some,
        r matches Ok(v) ==> ether_text_wei(text@) == Some(v@),
{
    match alloy::primitives::utils::parse_ether(text) {
        Ok(v) => Ok(Uint256 { limbs: v.into_limbs() }),
        Err(e) => Err(e),
    }
}

/// Whether `parse_ether` can be asked to read the text without risk of a
/// panic, and reads an amount from it.
pub open spec fn is_eth_amount_text(text: &str) -> bool {
    !cuts_inside_char(text) && !may_overflow_negative(text@) && ether_text_wei(text@) is Some
}

/// Whether the text has more than 18 bytes after its first `.` and the 18th
/// of them ends inside a character.
fn text_cuts_inside_char(text: &str) -> (r: bool)
    ensures
        r == cuts_inside_char(text),
{
    let bytes = text.as_bytes();
    let n = bytes.len();
    let mut i: usize = 0;
    while i < n
        invariant
            n == bytes@.len(),
            bytes@ == text.spec_bytes(),
            0 <= i <= n,
            forall|j: int| 0 <= j < i ==> bytes@[j] != 46,
        decreases n - i,
    {
        if bytes[i] == 46 {
            assert(is_first_point(text.spec_bytes(), i as int));
            if n - i > 19 {
                let cut = !text.is_char_boundary(i + 19);
                assert forall|k: int| #[trigger] is_first_point(text.spec_bytes(), k) implies k == i by {
                    if k < i {
                    } else if k > i {
                        assert(text.spec_bytes()[i as int] != 46);
                    }
                }
                return cut;
            } else {
                assert forall|k: int| #[trigger] is_first_point(text.spec_bytes(), k) implies k == i by {
                    if k > i {
                        assert(text.spec_bytes()[i as int] != 46);
                    }
                }
                return false;
            }
        }
        i = i + 1;
    }
    false
}

/// Reads the ether amount written in `text` (a decimal text such as
/// `"0.01"`) as wei; an error where `parse_ether` reads no amount from it,
/// or where reading it could panic.
pub fn parse_eth_amount(text: &str) -> (r: Result<Uint256, SwapError>)
    ensures
        r is Ok <==> is_eth_amount_text(text),
        r matches Ok(v) ==> ether_text_wei(text@) == Some(v@),
        r is Err ==> r == Err::<Uint256, SwapError>(SwapError::InvalidAmount),
{
    if text_cuts_inside_char(text) {
        return Err(SwapError::InvalidAmount);
    }
    let len = text.unicode_len();
    if len >= 60 && text.get_char(0) == '-' {
        return Err(SwapError::InvalidAmount);
    }
    match parse_ether_text(text) {
        Ok(wei) => Ok(wei),
        Err(_) => Err(SwapError::InvalidAmount),
    }
}

impl Swapper {
    /// Builds the swap of the ether amount written in `eth_amount` (a decimal
    /// text such as `"0.01"`) for USDC, quoted on the pair's reserves
    /// `(reserve0, reserve1)` as read for this swap, with a floor keeping
    /// `keep_per_mille` thousandths of the quote and a deadline 60 seconds
    /// after `now_secs`; an error where the text is not an amount of ether.
    pub fn eth_for_usdc(
        &self,
        reserve0: u128,
        reserve1: u128,
        eth_amount: &str,
        keep_per_mille: u64,
        now_secs: u64,
    ) -> (r: Result<EthSwapPlan, SwapError>)
        ensures
            !is_eth_amount_text(eth_amount) ==> r == Err::<EthSwapPlan, SwapError>(
                SwapError::InvalidAmount,
            ),
            is_eth_amount_text(eth_amount) ==> self.eth_for_usdc_outcome(
                reserve0 as nat,
                reserve1 as nat,
                ether_text_wei(eth_amount@).unwrap(),
                keep_per_mille as nat,
                now_secs as nat,
                r,
            ),
    {
        match parse_eth_amount(eth_amount) {
            Ok(wei) => self.eth_for_usdc_wei(reserve0, reserve1, &wei, keep_per_mille, now_secs),
            Err(e) => Err(e),
        }
    }
}

/// Selling more USDC never lowers the least ETH asked for: two USDC-to-ETH
/// swaps built by the same swapper on the same reserves with the same share,
/// both successful, ask for floors in the order of their amounts, where
/// nothing wraps.
pub proof fn law_usdc_swap_floor_monotone(
    s: Swapper,
    reserve0: nat,
    reserve1: nat,
    smaller_amount: nat,
    larger_amount: nat,
    keep_per_mille: nat,
    now1: nat,
    now2: nat,
    r1: Result<TokenSwapPlan, SwapError>,
    r2: Result<TokenSwapPlan, SwapError>,
)
    requires
        smaller_amount <= larger_amount,
        s.usdc_for_eth_outcome(reserve0, reserve1, smaller_amount, keep_per_mille, now1, r1),
        s.usdc_for_eth_outcome(reserve0, reserve1, larger_amount, keep_per_mille, now2, r2),
        r1 is Ok,
        r2 is Ok,
        quote_fits(larger_amount, s.usdc_weth_reserves(reserve0, reserve1).0, s.usdc_weth_reserves(reserve0, reserve1).1),
        quote(larger_amount, s.usdc_weth_reserves(reserve0, reserve1).0, s.usdc_weth_reserves(reserve0, reserve1).1)
            * keep_per_mille < crate::uint::word_modulus(),
    ensures
        r1.unwrap().amount_out_min@ <= r2.unwrap().amount_out_min@,
{
    let (rin, rout) = s.usdc_weth_reserves(reserve0, reserve1);
    law_floor_monotone(smaller_amount, larger_amount, rin, rout, keep_per_mille);
}

/// A USDC-to-ETH swap never asks for more than it quotes, nor for all the
/// ETH in the pool: its floor (for a share of at most the whole quote) is at
/// most the quote, and where nothing wraps the quote is below the WETH
/// reserve it was quoted on.
pub proof fn law_token_swap_plan_within_pool(
    s: Swapper,
    reserve0: nat,
    reserve1: nat,
    usdc_amount: nat,
    keep_per_mille: nat,
    now_secs: nat,
    r: Result<TokenSwapPlan, SwapError>,
)
    requires
        keep_per_mille <= 1000,
        s.usdc_for_eth_outcome(reserve0, reserve1, usdc_amount, keep_per_mille, now_secs, r),
    ensures
        r matches Ok(p) ==> p.amount_out_min@ <= p.amount_out@,
        r matches Ok(p) ==> ({
            let (rin, rout) = s.usdc_weth_reserves(reserve0, reserve1);
            rin > 0 && rout > 0 && quote_fits(usdc_amount, rin, rout) ==> p.amount_out@ < rout
        }),
{
    if let Ok(p) = r {
        let (rin, rout) = s.usdc_weth_reserves(reserve0, reserve1);
        law_slippage_floor(p.amount_out@, keep_per_mille);
        if rin > 0 && rout > 0 && quote_fits(usdc_amount, rin, rout) {
            law_quote_below_reserve(usdc_amount, rin, rout);
        }
    }
}

/// An ETH-to-USDC swap never asks for more than it quotes, nor for all the
/// USDC in the pool: its floor (for a share of at most the whole quote) is at
/// most the quote, and where nothing wraps the quote is below the USDC
/// reserve it was quoted on.
pub proof fn law_eth_swap_plan_within_pool(
    s: Swapper,
    reserve0: nat,
    reserve1: nat,
    eth_amount: nat,
    keep_per_mille: nat,
    now_secs: nat,
    r: Result<EthSwapPlan, SwapError>,
)
    requires
        keep_per_mille <= 1000,
        s.eth_for_usdc_outcome(reserve0, reserve1, eth_amount, keep_per_mille, now_secs, r),
    ensures
        r matches Ok(p) ==> p.amount_out_min@ <= p.amount_out@,
        r matches Ok(p) ==> ({
            let (usdc_reserve, weth_reserve) = s.usdc_weth_reserves(reserve0, reserve1);
            usdc_reserve > 0 && weth_reserve > 0 && quote_fits(eth_amount, weth_reserve, usdc_reserve)
                ==> p.amount_out@ < usdc_reserve
        }),
{
    if let Ok(p) = r {
        let (usdc_reserve, weth_reserve) = s.usdc_weth_reserves(reserve0, reserve1);
        law_slippage_floor(p.amount_out@, keep_per_mille);
        if usdc_reserve > 0 && weth_reserve > 0 && quote_fits(eth_amount, weth_reserve, usdc_reserve) {
            law_quote_below_reserve(eth_amount, weth_reserve, usdc_reserve);
        }
    }
}

/// The swapper's reserves for a swap, written out: USDC's reserve is
/// `reserve1` exactly when WETH sorts before USDC.
proof fn lemma_usdc_weth_reserves(s: Swapper, reserve0: nat, reserve1: nat)
    ensures
        s.usdc_weth_reserves(reserve0, reserve1) == (if bytes_lt(s.weth_address_spec()@, s.usdc_address_spec()@) {
            (reserve1, reserve0)
        } else {
            (reserve0, reserve1)
        }),
{
    let weth = s.weth_address_spec()@;
    let usdc = s.usdc_address_spec()@;
    if bytes_lt(weth, usdc) && token0_of(weth, usdc) == usdc {
        assert(weth == usdc);
        let i = choose|i: int|
            0 <= i < weth.len() && i < usdc.len() && #[trigger] weth[i] < usdc[i] && forall|j: int|
                0 <= j < i ==> weth[j] == usdc[j];
        assert(weth[i] == usdc[i]);
    }
}

/// Where the input reserve in thousandths plus the fee-adjusted input fits
/// in a word, the quote's denominator is that sum, unreduced.
proof fn lemma_denominator_exact(amount_in: nat, reserve_in: nat)
    requires
        reserve_in * 1000 + amount_in * 997 < crate::uint::word_modulus(),
    ensures
        quote_denominator(amount_in, reserve_in) == reserve_in * 1000 + amount_in * 997,
{
    crate::uint::lemma_wrap_small(amount_in * 997);
    crate::uint::lemma_wrap_small(reserve_in * 1000);
    crate::uint::lemma_wrap_small(reserve_in * 1000 + amount_in * 997);
}

/// Every USDC-to-ETH swap, whatever the amount, the reserves, the share and
/// the time, sells USDC for WETH along the path `[USDC, WETH]`, pays the
/// swapper's own wallet, lets the router spend the USDC token, sells exactly
/// the amount asked, and expires 60 seconds after it was built.
pub proof fn law_usdc_swap_route(
    s: Swapper,
    reserve0: nat,
    reserve1: nat,
    usdc_amount: nat,
    keep_per_mille: nat,
    now_secs: nat,
    r: Result<TokenSwapPlan, SwapError>,
)
    requires
        s.usdc_for_eth_outcome(reserve0, reserve1, usdc_amount, keep_per_mille, now_secs, r),
    ensures
        r matches Ok(p) ==> {
            &&& p.path@.len() == 2
            &&& p.path@[0] == s.usdc_address_spec()
            &&& p.path@[1] == s.weth_address_spec()
            &&& p.to == s.my_address_spec()
            &&& p.spender == s.router_spec()
            &&& p.token == s.usdc_address_spec()
            &&& p.amount_in@ == usdc_amount
            &&& p.deadline@ == now_secs + 60
        },
{
}

/// The amounts of a USDC-to-ETH swap, on the USDC reserve `rin` and the WETH
/// reserve `rout` of the pair: where `1000 * rin + 997 * amount` fits in a
/// word, the swap is refused as an empty pool exactly when both are zero, and
/// otherwise built whenever the deadline fits in 64 bits; the quote is
/// `997 * amount * rout / (1000 * rin + 997 * amount)` rounded down where its
/// numerator fits too; and the floor is the quote times the share in
/// thousandths, rounded down, wherever that product fits.
pub proof fn law_usdc_swap_amounts(
    s: Swapper,
    reserve0: nat,
    reserve1: nat,
    usdc_amount: nat,
    keep_per_mille: nat,
    now_secs: nat,
    r: Result<TokenSwapPlan, SwapError>,
)
    requires
        s.usdc_for_eth_outcome(reserve0, reserve1, usdc_amount, keep_per_mille, now_secs, r),
    ensures
        ({
            let rin = if bytes_lt(s.weth_address_spec()@, s.usdc_address_spec()@) { reserve1 } else { reserve0 };
            let rout = if bytes_lt(s.weth_address_spec()@, s.usdc_address_spec()@) { reserve0 } else { reserve1 };
            &&& rin * 1000 + usdc_amount * 997 < crate::uint::word_modulus() ==> (r == Err::<
                TokenSwapPlan,
                SwapError,
            >(SwapError::EmptyPool) <==> rin == 0 && usdc_amount == 0)
            &&& rin * 1000 + usdc_amount * 997 < crate::uint::word_modulus() && (rin > 0 || usdc_amount > 0)
                && now_secs + 60 <= u64::MAX ==> r is Ok
            &&& r matches Ok(p) ==> (usdc_amount * 997 * rout < crate::uint::word_modulus() && rin * 1000
                + usdc_amount * 997 < crate::uint::word_modulus() ==> p.amount_out@ == usdc_amount * 997 * rout
                / (rin * 1000 + usdc_amount * 997))
        }),
        r matches Ok(p) ==> (p.amount_out@ * keep_per_mille < crate::uint::word_modulus() ==> {
            &&& p.amount_out_min@ * 1000 <= p.amount_out@ * keep_per_mille
            &&& p.amount_out@ * keep_per_mille < p.amount_out_min@ * 1000 + 1000
        }),
{
    lemma_usdc_weth_reserves(s, reserve0, reserve1);
    let (rin, rout) = s.usdc_weth_reserves(reserve0, reserve1);
    if rin * 1000 + usdc_amount * 997 < crate::uint::word_modulus() {
        lemma_denominator_exact(usdc_amount, rin);
    }
    if usdc_amount * 997 * rout < crate::uint::word_modulus() && rin * 1000 + usdc_amount * 997
        < crate::uint::word_modulus() {
        crate::amm::lemma_quote_exact(usdc_amount, rin, rout);
    }
    if let Ok(p) = r {
        if p.amount_out@ * keep_per_mille < crate::uint::word_modulus() {
            crate::amm::law_slippage_floor_exact(p.amount_out@, keep_per_mille);
        }
    }
}

/// Every ETH-to-USDC swap, whatever the amount, the reserves, the share and
/// the time, buys USDC with WETH along the path `[WETH, USDC]`, pays the
/// swapper's own wallet, sends exactly the wei asked, and expires 60 seconds
/// after it was built.
pub proof fn law_eth_swap_route(
    s: Swapper,
    reserve0: nat,
    reserve1: nat,
    eth_amount: nat,
    keep_per_mille: nat,
    now_secs: nat,
    r: Result<EthSwapPlan, SwapError>,
)
    requires
        s.eth_for_usdc_outcome(reserve0, reserve1, eth_amount, keep_per_mille, now_secs, r),
    ensures
        r matches Ok(p) ==> {
            &&& p.path@.len() == 2
            &&& p.path@[0] == s.weth_address_spec()
            &&& p.path@[1] == s.usdc_address_spec()
            &&& p.to == s.my_address_spec()
            &&& p.value@ == eth_amount
            &&& p.deadline@ == now_secs + 60
        },
{
}

/// The amounts of an ETH-to-USDC swap, on the WETH reserve `rin` and the
/// USDC reserve `rout` of the pair: where `1000 * rin + 997 * amount` fits in
/// a word, the swap is refused as an empty pool exactly when both are zero,
/// and otherwise built whenever the deadline fits in 64 bits; the quote is
/// `997 * amount * rout / (1000 * rin + 997 * amount)` rounded down where its
/// numerator fits too; and the floor is the quote times the share in
/// thousandths, rounded down, wherever that product fits.
pub proof fn law_eth_swap_amounts(
    s: Swapper,
    reserve0: nat,
    reserve1: nat,
    eth_amount: nat,
    keep_per_mille: nat,
    now_secs: nat,
    r: Result<EthSwapPlan, SwapError>,
)
    requires
        s.eth_for_usdc_outcome(reserve0, reserve1, eth_amount, keep_per_mille, now_secs, r),
    ensures
        ({
            let rin = if bytes_lt(s.weth_address_spec()@, s.usdc_address_spec()@) { reserve0 } else { reserve1 };
            let rout = if bytes_lt(s.weth_address_spec()@, s.usdc_address_spec()@) { reserve1 } else { reserve0 };
            &&& rin * 1000 + eth_amount * 997 < crate::uint::word_modulus() ==> (r == Err::<
                EthSwapPlan,
                SwapError,
            >(SwapError::EmptyPool) <==> rin == 0 && eth_amount == 0)
            &&& rin * 1000 + eth_amount * 997 < crate::uint::word_modulus() && (rin > 0 || eth_amount > 0)
                && now_secs + 60 <= u64::MAX ==> r is Ok
            &&& r matches Ok(p) ==> (eth_amount * 997 * rout < crate::uint::word_modulus() && rin * 1000
                + eth_amount * 997 < crate::uint::word_modulus() ==> p.amount_out@ == eth_amount * 997 * rout
                / (rin * 1000 + eth_amount * 997))
        }),
        r matches Ok(p) ==> (p.amount_out@ * keep_per_mille < crate::uint::word_modulus() ==> {
            &&& p.amount_out_min@ * 1000 <= p.amount_out@ * keep_per_mille
            &&& p.amount_out@ * keep_per_mille < p.amount_out_min@ * 1000 + 1000
        }),
{
    lemma_usdc_weth_reserves(s, reserve0, reserve1);
    let (usdc_reserve, weth_reserve) = s.usdc_weth_reserves(reserve0, reserve1);
    if weth_reserve * 1000 + eth_amount * 997 < crate::uint::word_modulus() {
        lemma_denominator_exact(eth_amount, weth_reserve);
    }
    if eth_amount * 997 * usdc_reserve < crate::uint::word_modulus() && weth_reserve * 1000 + eth_amount * 997
        < crate::uint::word_modulus() {
        crate::amm::lemma_quote_exact(eth_amount, weth_reserve, usdc_reserve);
    }
    if let Ok(p) = r {
        if p.amount_out@ * keep_per_mille < crate::uint::word_modulus() {
            crate::amm::law_slippage_floor_exact(p.amount_out@, keep_per_mille);
        }
    }
}

/// Whichever of the two tokens sorts first, the oriented input reserve is
/// USDC's and the output reserve WETH's: for distinct tokens, USDC's reserve
/// is `reserve0` exactly when USDC sorts before WETH.
pub proof fn law_reserves_follow_token_order(weth: Address, usdc: Address, reserve0: nat, reserve1: nat)
    requires
        weth@ != usdc@,
    ensures
        oriented_reserves(weth@, usdc@, reserve0, reserve1) == (if bytes_lt(usdc@, weth@) {
            (reserve0, reserve1)
        } else {
            (reserve1, reserve0)
        }),
{
    law_address_order(weth, usdc, usdc);
}

} // verus!
