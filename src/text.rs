use crate::bytes::B256;
use vstd::prelude::*;

verus! {

/// The lowercase hexadecimal digit for a value below 16.
pub open spec fn hex_digit(n: u8) -> char {
    if n < 10 {
        (n + 48) as char
    } else {
        (n + 87) as char
    }
}

/// Two lowercase hexadecimal digits per byte, most significant first.
pub open spec fn hex_digits(b: Seq<u8>) -> Seq<char> {
    Seq::new(
        2 * b.len(),
        |i: int|
            if i % 2 == 0 {
                hex_digit(b[i / 2] / 16)
            } else {
                hex_digit(b[i / 2] % 16)
            },
    )
}

/// `0x` followed by the hexadecimal digits of the bytes.
pub open spec fn hex_prefixed(b: Seq<u8>) -> Seq<char> {
    seq!['0', 'x'] + hex_digits(b)
}

/// The decimal digit for a value below 10.
pub open spec fn decimal_digit(n: u64) -> char {
    (n + 48) as char
}

/// The decimal digits of `n`, without leading zeros.
pub open spec fn decimal(n: u64) -> Seq<char>
    decreases n,
{
    if n < 10 {
        seq![decimal_digit(n)]
    } else {
        decimal(n / 10).push(decimal_digit(n % 10))
    }
}

/// Relies on the `Display` of alloy_primitives::FixedBytes without the
/// alternate flag: `0x` and two lowercase hexadecimal digits per byte.
#[verifier::external_body]
pub(crate) fn b256_to_string(b: &B256) -> (r: String)
    ensures
        r@ == hex_prefixed(b@),
{
    alloy_primitives::B256::from(b.bytes).to_string()
}

/// Relies on the `Display` of `u64`: its decimal digits.
#[verifier::external_body]
pub(crate) fn u64_to_string(n: u64) -> (r: String)
    ensures
        r@ == decimal(n),
{
    n.to_string()
}

proof fn lemma_hex_digit_injective(x: u8, y: u8)
    requires
        x < 16,
        y < 16,
        hex_digit(x) == hex_digit(y),
    ensures
        x == y,
{
}

/// Distinct byte strings of one length have distinct hexadecimal renderings.
pub proof fn lemma_hex_prefixed_injective(a: Seq<u8>, b: Seq<u8>)
    requires
        a.len() == b.len(),
        hex_prefixed(a) == hex_prefixed(b),
    ensures
        a == b,
{
    assert forall|i: int| 0 <= i < a.len() implies a[i] == b[i] by {
        assert(hex_prefixed(a)[2 + 2 * i] == hex_digits(a)[2 * i]);
        assert(hex_prefixed(b)[2 + 2 * i] == hex_digits(b)[2 * i]);
        assert(hex_prefixed(a)[3 + 2 * i] == hex_digits(a)[2 * i + 1]);
        assert(hex_prefixed(b)[3 + 2 * i] == hex_digits(b)[2 * i + 1]);
        assert((2 * i) / 2 == i && (2 * i) % 2 == 0);
        assert((2 * i + 1) / 2 == i && (2 * i + 1) % 2 == 1);
        lemma_hex_digit_injective(a[i] / 16, b[i] / 16);
        lemma_hex_digit_injective(a[i] % 16, b[i] % 16);
    }
    assert(a =~= b);
}

} // verus!
