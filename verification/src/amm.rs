//! Constant-product pricing of a Uniswap V2 pool: the quote for an exact
//! input, the slippage floor on that quote, and the laws the quote obeys.

use vstd::prelude::*;

use crate::uint::{lemma_wrap_le, lemma_wrap_small, word_add, word_div, word_modulus, word_mul, wrap, Uint256};

verus! {

/// The share of a quote, in thousandths, that a swap keeps as its floor by
/// default: a slippage of 5%.
pub const DEFAULT_KEEP_PER_MILLE: u64 = 950;

/// The input amount after the pool's 0.3% fee, in thousandths (`amount_in * 997`).
pub open spec fn fee_adjusted_input(amount_in: nat) -> nat {
    wrap(amount_in * 997)
}

/// The numerator of the quote: fee-adjusted input times the output reserve.
pub open spec fn quote_numerator(amount_in: nat, reserve_out: nat) -> nat {
    wrap(fee_adjusted_input(amount_in) * reserve_out)
}

/// The denominator of the quote: the input reserve in thousandths plus the fee-adjusted input.
pub open spec fn quote_denominator(amount_in: nat, reserve_in: nat) -> nat {
    wrap(wrap(reserve_in * 1000) + fee_adjusted_input(amount_in))
}

/// The output amount that the pool pays for `amount_in`, computed on 256-bit
/// words as the swap code does (`numerator / denominator`).
pub open spec fn quote(amount_in: nat, reserve_in: nat, reserve_out: nat) -> nat {
    quote_numerator(amount_in, reserve_out) / quote_denominator(amount_in, reserve_in)
}

/// None of the products and sums of the quote reaches 2^256.
pub open spec fn quote_fits(amount_in: nat, reserve_in: nat, reserve_out: nat) -> bool {
    &&& amount_in * 997 * reserve_out < word_modulus()
    &&& reserve_in * 1000 + amount_in * 997 < word_modulus()
}

/// The minimum acceptable output: `amount_out * keep_per_mille / 1000` on 256-bit words.
pub open spec fn slippage_floor(amount_out: nat, keep_per_mille: nat) -> nat {
    wrap(amount_out * keep_per_mille) / 1000
}

/// The amount of output tokens the pool pays for `amount_in` input tokens,
/// given the reserves of the input and the output token; `None` where the
/// denominator is zero (the division would panic).
pub fn get_amount_out(amount_in: &Uint256, reserve_in: &Uint256, reserve_out: &Uint256) -> (r: Option<Uint256>)
    ensures
        r is None <==> quote_denominator(amount_in@, reserve_in@) == 0,
        r matches Some(v) ==> v@ == quote(amount_in@, reserve_in@, reserve_out@),
{
    let fee_multiplier = Uint256::from_u64(997);
    let reserve_multiplier = Uint256::from_u64(1000);
    let amount_in_with_fee = word_mul(amount_in, &fee_multiplier);
    let numerator = word_mul(&amount_in_with_fee, reserve_out);
    let scaled_reserve = word_mul(reserve_in, &reserve_multiplier);
    let denominator = word_add(&scaled_reserve, &amount_in_with_fee);
    if denominator.is_zero() {
        None
    } else {
        Some(word_div(&numerator, &denominator))
    }
}

/// The slippage floor on a quote: `amount_out * keep_per_mille / 1000`, where
/// `keep_per_mille` is the part of the quote, in thousandths, that the swap
/// must at least deliver.
pub fn amount_out_min(amount_out: &Uint256, keep_per_mille: u64) -> (r: Uint256)
    ensures
        r@ == slippage_floor(amount_out@, keep_per_mille as nat),
{
    let keep = Uint256::from_u64(keep_per_mille);
    let thousand = Uint256::from_u64(1000);
    let scaled = word_mul(amount_out, &keep);
    word_div(&scaled, &thousand)
}

/// `(n / d) * d` never exceeds `n`.
proof fn lemma_div_times_le(n: nat, d: nat)
    requires
        d > 0,
    ensures
        (n / d) * d <= n,
        n < (n / d) * d + d,
{
    vstd::arithmetic::div_mod::lemma_fundamental_div_mod(n as int, d as int);
    vstd::arithmetic::div_mod::lemma_mod_bound(n as int, d as int);
    vstd::arithmetic::mul::lemma_mul_is_commutative(d as int, (n / d) as int);
}

/// A multiple of `d` that does not exceed `n` has a factor at most `n / d`.
proof fn lemma_le_div(q: nat, n: nat, d: nat)
    requires
        d > 0,
        q * d <= n,
    ensures
        q <= n / d,
{
    lemma_div_times_le(n, d);
    if q > n / d {
        assert(q * d >= (n / d + 1) * d) by (nonlinear_arith)
            requires
                q >= n / d + 1,
        ;
        assert((n / d + 1) * d == (n / d) * d + d) by (nonlinear_arith);
    }
}

/// Where nothing wraps, the quote is the exact floor of
/// `997 * amount_in * reserve_out / (1000 * reserve_in + 997 * amount_in)`.
pub proof fn lemma_quote_exact(amount_in: nat, reserve_in: nat, reserve_out: nat)
    requires
        quote_fits(amount_in, reserve_in, reserve_out),
    ensures
        fee_adjusted_input(amount_in) == amount_in * 997,
        quote_numerator(amount_in, reserve_out) == amount_in * 997 * reserve_out,
        quote_denominator(amount_in, reserve_in) == reserve_in * 1000 + amount_in * 997,
        quote(amount_in, reserve_in, reserve_out) == (amount_in * 997 * reserve_out) / (
        reserve_in * 1000 + amount_in * 997),
{
    lemma_wrap_small(amount_in * 997);
    lemma_wrap_small(amount_in * 997 * reserve_out);
    lemma_wrap_small(reserve_in * 1000);
    lemma_wrap_small(reserve_in * 1000 + amount_in * 997);
}

/// The pool never pays out its whole output reserve: where nothing wraps and
/// both reserves are non-empty, the quote is strictly below the output reserve.
pub proof fn law_quote_below_reserve(amount_in: nat, reserve_in: nat, reserve_out: nat)
    requires
        quote_fits(amount_in, reserve_in, reserve_out),
        reserve_in > 0,
        reserve_out > 0,
    ensures
        quote(amount_in, reserve_in, reserve_out) < reserve_out,
{
    lemma_quote_exact(amount_in, reserve_in, reserve_out);
    let x = amount_in * 997;
    let n = x * reserve_out;
    let d = reserve_in * 1000 + x;
    let q = n / d;
    lemma_div_times_le(n, d);
    assert(q < reserve_out) by (nonlinear_arith)
        requires
            q * d <= n,
            n == x * reserve_out,
            d == reserve_in * 1000 + x,
            reserve_in > 0,
            reserve_out > 0,
    ;
}

/// The constant product never shrinks: after paying the quote for
/// `amount_in`, the pool's reserves multiply to at least what they did
/// before, also with the fee taken into account.
pub proof fn law_constant_product(amount_in: nat, reserve_in: nat, reserve_out: nat)
    requires
        quote_fits(amount_in, reserve_in, reserve_out),
        quote_denominator(amount_in, reserve_in) > 0,
    ensures
        quote(amount_in, reserve_in, reserve_out) <= reserve_out,
        (reserve_in * 1000 + amount_in * 997) * (reserve_out - quote(amount_in, reserve_in, reserve_out))
            >= reserve_in * 1000 * reserve_out,
        (reserve_in + amount_in) * (reserve_out - quote(amount_in, reserve_in, reserve_out))
            >= reserve_in * reserve_out,
{
    lemma_quote_exact(amount_in, reserve_in, reserve_out);
    let x = amount_in * 997;
    let n = x * reserve_out;
    let d = reserve_in * 1000 + x;
    let q = n / d;
    lemma_div_times_le(n, d);
    assert(q <= reserve_out) by (nonlinear_arith)
        requires
            q * d <= n,
            n == x * reserve_out,
            d == reserve_in * 1000 + x,
            d > 0,
    ;
    let rest = (reserve_out - q) as int;
    assert(d * rest >= reserve_in * 1000 * reserve_out) by (nonlinear_arith)
        requires
            q * d <= n,
            n == x * reserve_out,
            d == reserve_in * 1000 + x,
            rest == reserve_out - q,
    ;
    assert((reserve_in + amount_in) * rest >= reserve_in * reserve_out) by (nonlinear_arith)
        requires
            d * rest >= reserve_in * 1000 * reserve_out,
            d == reserve_in * 1000 + amount_in * 997,
            rest >= 0,
    ;
}

/// Paying more in never yields less out: the quote is monotone in the input
/// amount, for fixed reserves, where nothing wraps.
pub proof fn law_quote_monotone(smaller_in: nat, larger_in: nat, reserve_in: nat, reserve_out: nat)
    requires
        smaller_in <= larger_in,
        quote_fits(larger_in, reserve_in, reserve_out),
        quote_denominator(smaller_in, reserve_in) > 0,
    ensures
        quote(smaller_in, reserve_in, reserve_out) <= quote(larger_in, reserve_in, reserve_out),
{
    assert(quote_fits(smaller_in, reserve_in, reserve_out)) by (nonlinear_arith)
        requires
            smaller_in <= larger_in,
            quote_fits(larger_in, reserve_in, reserve_out),
    ;
    lemma_quote_exact(smaller_in, reserve_in, reserve_out);
    lemma_quote_exact(larger_in, reserve_in, reserve_out);
    let x1 = smaller_in * 997;
    let x2 = larger_in * 997;
    let n1 = x1 * reserve_out;
    let n2 = x2 * reserve_out;
    let d1 = reserve_in * 1000 + x1;
    let d2 = reserve_in * 1000 + x2;
    let q1 = n1 / d1;
    lemma_div_times_le(n1, d1);
    assert(q1 * d2 <= n2) by (nonlinear_arith)
        requires
            q1 * d1 <= n1,
            n1 == x1 * reserve_out,
            n2 == x2 * reserve_out,
            d1 == reserve_in * 1000 + x1,
            d2 == reserve_in * 1000 + x2,
            x1 <= x2,
            d1 > 0,
    ;
    lemma_le_div(q1, n2, d2);
}

/// The slippage floor never exceeds the quote it protects, for any share up
/// to the whole (1000 thousandths), and equals it for the whole quote where
/// the product does not wrap.
pub proof fn law_slippage_floor(amount_out: nat, keep_per_mille: nat)
    requires
        keep_per_mille <= 1000,
    ensures
        slippage_floor(amount_out, keep_per_mille) <= amount_out,
        keep_per_mille == 1000 && amount_out * 1000 < word_modulus() ==> slippage_floor(
            amount_out,
            keep_per_mille,
        ) == amount_out,
{
    let p = amount_out * keep_per_mille;
    lemma_wrap_le(p);
    lemma_div_times_le(wrap(p), 1000);
    assert(wrap(p) / 1000 <= amount_out) by (nonlinear_arith)
        requires
            (wrap(p) / 1000) * 1000 <= wrap(p),
            wrap(p) <= p,
            p == amount_out * keep_per_mille,
            keep_per_mille <= 1000,
    ;
    if keep_per_mille == 1000 && amount_out * 1000 < word_modulus() {
        lemma_wrap_small(p);
        assert(p / 1000 == amount_out) by (nonlinear_arith)
            requires
                p == amount_out * 1000,
        ;
    }
}

/// The floor is exactly `amount_out * keep_per_mille / 1000` rounded down,
/// for every share, wherever the product fits in a word: a multiple of a
/// thousand of it does not exceed the product, and the next one does.
pub proof fn law_slippage_floor_exact(amount_out: nat, keep_per_mille: nat)
    requires
        amount_out * keep_per_mille < word_modulus(),
    ensures
        slippage_floor(amount_out, keep_per_mille) * 1000 <= amount_out * keep_per_mille,
        amount_out * keep_per_mille < slippage_floor(amount_out, keep_per_mille) * 1000 + 1000,
{
    let p = amount_out * keep_per_mille;
    lemma_wrap_small(p);
    lemma_div_times_le(p, 1000);
}

/// Keeping a larger share of the same quote never lowers the floor, wherever
/// the larger product fits in a word.
pub proof fn law_floor_monotone_in_share(amount_out: nat, smaller_keep: nat, larger_keep: nat)
    requires
        smaller_keep <= larger_keep,
        amount_out * larger_keep < word_modulus(),
    ensures
        slippage_floor(amount_out, smaller_keep) <= slippage_floor(amount_out, larger_keep),
{
    assert(amount_out * smaller_keep <= amount_out * larger_keep) by (nonlinear_arith)
        requires
            smaller_keep <= larger_keep,
    ;
    lemma_wrap_small(amount_out * smaller_keep);
    lemma_wrap_small(amount_out * larger_keep);
    vstd::arithmetic::div_mod::lemma_div_is_ordered(
        (amount_out * smaller_keep) as int,
        (amount_out * larger_keep) as int,
        1000,
    );
}

/// Selling more never lowers the floor: for a fixed share and fixed reserves,
/// the slippage floor of the quote is monotone in the input amount, where
/// nothing wraps (the quote and the floor's product stay below 2^256).
pub proof fn law_floor_monotone(
    smaller_in: nat,
    larger_in: nat,
    reserve_in: nat,
    reserve_out: nat,
    keep_per_mille: nat,
)
    requires
        smaller_in <= larger_in,
        quote_fits(larger_in, reserve_in, reserve_out),
        quote_denominator(smaller_in, reserve_in) > 0,
        quote(larger_in, reserve_in, reserve_out) * keep_per_mille < word_modulus(),
    ensures
        slippage_floor(quote(smaller_in, reserve_in, reserve_out), keep_per_mille) <= slippage_floor(
            quote(larger_in, reserve_in, reserve_out),
            keep_per_mille,
        ),
{
    law_quote_monotone(smaller_in, larger_in, reserve_in, reserve_out);
    let q1 = quote(smaller_in, reserve_in, reserve_out);
    let q2 = quote(larger_in, reserve_in, reserve_out);
    assert(q1 * keep_per_mille <= q2 * keep_per_mille) by (nonlinear_arith)
        requires
            q1 <= q2,
    ;
    lemma_wrap_small(q1 * keep_per_mille);
    lemma_wrap_small(q2 * keep_per_mille);
    vstd::arithmetic::div_mod::lemma_div_is_ordered(
        (q1 * keep_per_mille) as int,
        (q2 * keep_per_mille) as int,
        1000,
    );
}

} // verus!
