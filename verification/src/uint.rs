//! 256-bit unsigned words, held as four little-endian 64-bit limbs.
//!
//! The arithmetic itself is done by `alloy::primitives::U256` (a `ruint`
//! integer); each operation is one call behind a trusted wrapper whose
//! contract states the result over the mathematical value of the words.

use vstd::prelude::*;

verus! {

/// 2^256, the number of values a 256-bit word can hold.
pub open spec fn word_modulus() -> nat {
    0x1_0000000000000000_0000000000000000_0000000000000000_0000000000000000nat
}

/// 2^64, the weight of one limb over the next lower one.
pub open spec fn limb_base() -> nat {
    0x1_0000000000000000nat
}

/// The value `x` reduced to a 256-bit word, as the wrapping operators of `U256` do.
pub open spec fn wrap(x: nat) -> nat {
    x % word_modulus()
}

/// The number that four little-endian limbs stand for.
pub open spec fn limbs_value(limbs: [u64; 4]) -> nat {
    limbs[0] as nat + limbs[1] as nat * 0x1_0000000000000000nat
        + limbs[2] as nat * 0x1_0000000000000000_0000000000000000nat
        + limbs[3] as nat * 0x1_0000000000000000_0000000000000000_0000000000000000nat
}

/// An unsigned 256-bit integer (the `U256` of Ethereum amounts and reserves).
#[derive(Clone, Copy, Debug, PartialEq, Eq)]
pub struct Uint256 {
    pub(crate) limbs: [u64; 4],
}

impl View for Uint256 {
    type V = nat;

    closed spec fn view(&self) -> nat {
        limbs_value(self.limbs)
    }
}

/// Every word is below 2^256.
pub proof fn lemma_word_bound(x: Uint256)
    ensures
        x@ < word_modulus(),
{
    let l = x.limbs;
    assert(limbs_value(l) < word_modulus()) by (nonlinear_arith)
        requires
            l[0] < limb_base(),
            l[1] < limb_base(),
            l[2] < limb_base(),
            l[3] < limb_base(),
            limb_base() == 0x1_0000000000000000nat,
            word_modulus() == 0x1_0000000000000000_0000000000000000_0000000000000000_0000000000000000nat,
    ;
}

/// Reducing a value that already fits in a word changes nothing.
pub proof fn lemma_wrap_small(x: nat)
    requires
        x < word_modulus(),
    ensures
        wrap(x) == x,
{
    vstd::arithmetic::div_mod::lemma_small_mod(x, word_modulus());
}

/// Reducing never makes a non-negative value larger, and always lands in a word.
pub proof fn lemma_wrap_le(x: nat)
    ensures
        wrap(x) <= x,
        wrap(x) < word_modulus(),
{
    vstd::arithmetic::div_mod::lemma_mod_decreases(x, word_modulus());
    vstd::arithmetic::div_mod::lemma_mod_bound(x as int, word_modulus() as int);
}

impl Uint256 {
    /// The word holding zero.
    pub fn zero() -> (r: Uint256)
        ensures
            r@ == 0,
    {
        let r = Uint256 { limbs: [0, 0, 0, 0] };
        assert(r.limbs@ =~= seq![0u64, 0u64, 0u64, 0u64]);
        r
    }

    /// The word holding a 64-bit value.
    pub fn from_u64(x: u64) -> (r: Uint256)
        ensures
            r@ == x,
    {
        let r = Uint256 { limbs: [x, 0, 0, 0] };
        assert(r.limbs@ =~= seq![x, 0u64, 0u64, 0u64]);
        r
    }

    /// The word holding a 128-bit value.
    pub fn from_u128(x: u128) -> (r: Uint256)
        ensures
            r@ == x,
    {
        let lo: u64 = #[verifier::truncate] (x as u64);
        let hi: u64 = #[verifier::truncate] ((x >> 64u32) as u64);
        assert(lo as nat + hi as nat * 0x1_0000000000000000nat == x) by (bit_vector)
            requires
                lo == x as u64,
                hi == (x >> 64u32) as u64,
        ;
        let r = Uint256 { limbs: [lo, hi, 0, 0] };
        assert(r.limbs@ =~= seq![lo, hi, 0u64, 0u64]);
        r
    }

    /// The word with the given little-endian limbs.
    pub fn from_limbs(limbs: [u64; 4]) -> (r: Uint256)
        ensures
            r@ == limbs_value(limbs),
    {
        Uint256 { limbs }
    }

    /// The little-endian limbs of this word.
    pub fn limbs(&self) -> (r: [u64; 4])
        ensures
            limbs_value(r) == self@,
    {
        self.limbs
    }

    /// Whether this word holds zero.
    pub fn is_zero(&self) -> (r: bool)
        ensures
            r == (self@ == 0),
    {
        let l = self.limbs;
        assert(limbs_value(l) == 0 <==> (l[0] == 0 && l[1] == 0 && l[2] == 0 && l[3] == 0))
            by (nonlinear_arith);
        l[0] == 0 && l[1] == 0 && l[2] == 0 && l[3] == 0
    }
}

/// `U256` multiplication (`*`), which wraps around at 2^256.
#[verifier::external_body]
pub(crate) fn word_mul(a: &Uint256, b: &Uint256) -> (r: Uint256)
    ensures
        r@ == wrap(a@ * b@),
{
    let x = alloy::primitives::U256::from_limbs(a.limbs);
    let y = alloy::primitives::U256::from_limbs(b.limbs);
    Uint256 { limbs: (x * y).into_limbs() }
}

/// `U256` addition (`+`), which wraps around at 2^256.
#[verifier::external_body]
pub(crate) fn word_add(a: &Uint256, b: &Uint256) -> (r: Uint256)
    ensures
        r@ == wrap(a@ + b@),
{
    let x = alloy::primitives::U256::from_limbs(a.limbs);
    let y = alloy::primitives::U256::from_limbs(b.limbs);
    Uint256 { limbs: (x + y).into_limbs() }
}

/// `U256` division (`/`), rounding down; it panics on a zero divisor, which
/// `requires` rules out.
#[verifier::external_body]
pub(crate) fn word_div(a: &Uint256, b: &Uint256) -> (r: Uint256)
    requires
        b@ != 0,
    ensures
        r@ == a@ / b@,
{
    let x = alloy::primitives::U256::from_limbs(a.limbs);
    let y = alloy::primitives::U256::from_limbs(b.limbs);
    Uint256 { limbs: (x / y).into_limbs() }
}

/// `U256` comparison (`<`) of the two values.
#[verifier::external_body]
pub(crate) fn word_lt(a: &Uint256, b: &Uint256) -> (r: bool)
    ensures
        r == (a@ < b@),
{
    let x = alloy::primitives::U256::from_limbs(a.limbs);
    let y = alloy::primitives::U256::from_limbs(b.limbs);
    x < y
}

} // verus!
