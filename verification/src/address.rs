//! 20-byte Ethereum account and contract addresses: their hexadecimal text
//! form and the byte-wise order in which a Uniswap pair sorts its tokens.

use vstd::prelude::*;

verus! {

/// The value of a hexadecimal digit (`0-9`, `a-f`, `A-F`), or `None`.
pub open spec fn hex_digit_value(c: char) -> Option<nat> {
    if '0' <= c && c <= '9' {
        Some((c as nat - '0' as nat) as nat)
    } else if 'a' <= c && c <= 'f' {
        Some((c as nat - 'a' as nat + 10) as nat)
    } else if 'A' <= c && c <= 'F' {
        Some((c as nat - 'A' as nat + 10) as nat)
    } else {
        None
    }
}

/// The text without a leading `0x` or `0X`.
pub open spec fn strip_hex_prefix(s: Seq<char>) -> Seq<char> {
    if s.len() >= 2 && s[0] == '0' && (s[1] == 'x' || s[1] == 'X') {
        s.skip(2)
    } else {
        s
    }
}

/// The twenty bytes that a text of forty hexadecimal digits (after an optional
/// `0x`/`0X`) spells, high digit first; `None` for any other text.
pub open spec fn address_from_hex(s: Seq<char>) -> Option<Seq<u8>> {
    let h = strip_hex_prefix(s);
    if h.len() == 40 && forall|i: int| 0 <= i < 40 ==> (#[trigger] hex_digit_value(h[i])) is Some {
        Some(
            Seq::new(
                20,
                |i: int|
                    (hex_digit_value(h[2 * i]).unwrap() * 16 + hex_digit_value(
                        h[2 * i + 1],
                    ).unwrap()) as u8,
            ),
        )
    } else {
        None
    }
}

/// Byte-wise (lexicographic) order on byte strings of equal length: the first
/// differing byte decides.
pub open spec fn bytes_lt(a: Seq<u8>, b: Seq<u8>) -> bool {
    exists|i: int|
        0 <= i < a.len() && i < b.len() && #[trigger] a[i] < b[i] && forall|j: int|
            0 <= j < i ==> a[j] == b[j]
}

/// An Ethereum address.
#[derive(Clone, Copy, Debug, PartialEq, Eq)]
pub struct Address {
    bytes: [u8; 20],
}

impl View for Address {
    type V = Seq<u8>;

    closed spec fn view(&self) -> Seq<u8> {
        self.bytes@
    }
}

#[verifier::external_type_specification]
#[verifier::external_body]
pub struct ExFromHexError(alloy::hex::FromHexError);

/// `str::parse::<alloy::primitives::Address>` (hex decoding into 20 bytes,
/// an optional `0x`/`0X` prefix allowed): it succeeds exactly on forty hex
/// digits and gives the bytes they spell.
#[verifier::external_body]
fn parse_address_text(text: &str) -> (r: Result<Address, alloy::hex::FromHexError>)
    ensures
        r is Ok <==> address_from_hex(text@) is Some,
        r matches Ok(a) ==> address_from_hex(text@) == Some(a@),
{
    match text.parse::<alloy::primitives::Address>() {
        Ok(a) => Ok(Address { bytes: a.0.0 }),
        Err(e) => Err(e),
    }
}

impl Address {
    /// The address with the given bytes.
    pub fn from_bytes(bytes: [u8; 20]) -> (r: Address)
        ensures
            r@ == bytes@,
    {
        Address { bytes }
    }

    /// The bytes of this address.
    pub fn bytes(&self) -> (r: [u8; 20])
        ensures
            r@ == self@,
    {
        self.bytes
    }

    /// Parses an address from its hexadecimal text; `None` where the text is
    /// not forty hex digits after an optional `0x`.
    pub fn parse(text: &str) -> (r: Option<Address>)
        ensures
            r is Some <==> address_from_hex(text@) is Some,
            r matches Some(a) ==> address_from_hex(text@) == Some(a@),
    {
        match parse_address_text(text) {
            Ok(a) => Some(a),
            Err(_) => None,
        }
    }

    /// Whether `self` sorts before `other` byte-wise, the order in which a
    /// pair contract sorts its two tokens.
    pub fn lt(&self, other: &Address) -> (r: bool)
        ensures
            r == bytes_lt(self@, other@),
    {
        let mut i: usize = 0;
        while i < 20
            invariant
                0 <= i <= 20,
                self.bytes@.len() == 20,
                other.bytes@.len() == 20,
                forall|j: int| 0 <= j < i ==> self.bytes@[j] == other.bytes@[j],
            decreases 20 - i,
        {
            if self.bytes[i] < other.bytes[i] {
                assert(self.bytes@[i as int] < other.bytes@[i as int]);
                return true;
            }
            if self.bytes[i] > other.bytes[i] {
                assert forall|k: int|
                    0 <= k < 20 && #[trigger] self.bytes@[k] < other.bytes@[k] implies exists|j: int|
                    0 <= j < k && self.bytes@[j] != other.bytes@[j] by {
                    if k < i {
                    } else if k == i {
                    } else {
                        assert(self.bytes@[i as int] != other.bytes@[i as int]);
                    }
                }
                return false;
            }
            i = i + 1;
        }
        assert forall|k: int| 0 <= k < 20 implies !(#[trigger] self.bytes@[k] < other.bytes@[k]) by {}
        false
    }

    /// Whether the two addresses are the same.
    pub fn is_same(&self, other: &Address) -> (r: bool)
        ensures
            r == (self@ == other@),
    {
        let mut i: usize = 0;
        while i < 20
            invariant
                0 <= i <= 20,
                self.bytes@.len() == 20,
                other.bytes@.len() == 20,
                forall|j: int| 0 <= j < i ==> self.bytes@[j] == other.bytes@[j],
            decreases 20 - i,
        {
            if self.bytes[i] != other.bytes[i] {
                return false;
            }
            i = i + 1;
        }
        assert(self.bytes@ =~= other.bytes@);
        true
    }
}

/// The token that a pair lists first: the byte-wise smaller of the two.
pub open spec fn token0_of(a: Seq<u8>, b: Seq<u8>) -> Seq<u8> {
    if bytes_lt(a, b) {
        a
    } else {
        b
    }
}

/// The byte-wise order is a strict total order on addresses: irreflexive,
/// asymmetric, transitive, and any two distinct addresses are ordered one
/// way or the other. So the first token of a pair is well defined and does
/// not depend on the order in which the two tokens are named.
pub proof fn law_address_order(a: Address, b: Address, c: Address)
    ensures
        !bytes_lt(a@, a@),
        bytes_lt(a@, b@) ==> !bytes_lt(b@, a@),
        bytes_lt(a@, b@) && bytes_lt(b@, c@) ==> bytes_lt(a@, c@),
        a@ != b@ ==> bytes_lt(a@, b@) || bytes_lt(b@, a@),
        a@ != b@ ==> token0_of(a@, b@) == token0_of(b@, a@),
{
    assert(a@.len() == 20 && b@.len() == 20 && c@.len() == 20);
    if bytes_lt(a@, b@) && bytes_lt(b@, a@) {
        let i = choose|i: int|
            0 <= i < a@.len() && i < b@.len() && #[trigger] a@[i] < b@[i] && forall|j: int|
                0 <= j < i ==> a@[j] == b@[j];
        let k = choose|k: int|
            0 <= k < b@.len() && k < a@.len() && #[trigger] b@[k] < a@[k] && forall|j: int|
                0 <= j < k ==> b@[j] == a@[j];
        if i < k {
            assert(b@[i] == a@[i]);
        } else if k < i {
            assert(a@[k] == b@[k]);
        }
    }
    if bytes_lt(a@, b@) && bytes_lt(b@, c@) {
        let i = choose|i: int|
            0 <= i < a@.len() && i < b@.len() && #[trigger] a@[i] < b@[i] && forall|j: int|
                0 <= j < i ==> a@[j] == b@[j];
        let k = choose|k: int|
            0 <= k < b@.len() && k < c@.len() && #[trigger] b@[k] < c@[k] && forall|j: int|
                0 <= j < k ==> b@[j] == c@[j];
        let m = if i < k { i } else { k };
        assert(a@[m] < c@[m]);
        assert forall|j: int| 0 <= j < m implies a@[j] == c@[j] by {
            assert(a@[j] == b@[j]);
            assert(b@[j] == c@[j]);
        }
    }
    if a@ != b@ {
        lemma_first_difference(a@, b@);
        if a@ != b@ && bytes_lt(a@, b@) {
            assert(!bytes_lt(b@, a@));
        }
    }
}

/// Two distinct byte strings of equal length differ first somewhere, and
/// there one of them is the smaller.
proof fn lemma_first_difference(a: Seq<u8>, b: Seq<u8>)
    requires
        a.len() == b.len(),
        a != b,
    ensures
        bytes_lt(a, b) || bytes_lt(b, a),
    decreases a.len(),
{
    if a.len() == 0 {
        assert(a =~= b);
    } else if a[0] != b[0] {
        if a[0] < b[0] {
            assert(a[0] < b[0]);
        } else {
            assert(b[0] < a[0]);
        }
    } else {
        let a1 = a.skip(1);
        let b1 = b.skip(1);
        if a1 =~= b1 {
            assert(a =~= b) by {
                assert forall|i: int| 0 <= i < a.len() implies a[i] == b[i] by {
                    if i > 0 {
                        assert(a[i] == a1[i - 1]);
                        assert(b[i] == b1[i - 1]);
                    }
                }
            }
        }
        lemma_first_difference(a1, b1);
        if bytes_lt(a1, b1) {
            let i = choose|i: int|
                0 <= i < a1.len() && i < b1.len() && #[trigger] a1[i] < b1[i] && forall|j: int|
                    0 <= j < i ==> a1[j] == b1[j];
            assert(a[i + 1] < b[i + 1]);
            assert forall|j: int| 0 <= j < i + 1 implies a[j] == b[j] by {
                if j > 0 {
                    assert(a1[j - 1] == b1[j - 1]);
                }
            }
        } else {
            let i = choose|i: int|
                0 <= i < b1.len() && i < a1.len() && #[trigger] b1[i] < a1[i] && forall|j: int|
                    0 <= j < i ==> b1[j] == a1[j];
            assert(b[i + 1] < a[i + 1]);
            assert forall|j: int| 0 <= j < i + 1 implies b[j] == a[j] by {
                if j > 0 {
                    assert(b1[j - 1] == a1[j - 1]);
                }
            }
        }
    }
}

} // verus!
