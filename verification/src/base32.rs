//! The text form of identifiers: lower-case RFC 4648 base32 without padding.
use vstd::prelude::*;

verus! {

/// Bit `j` of a byte, counted from its most significant bit.
pub open spec fn byte_bit(byte: u8, j: int) -> int {
    let weight: int = if j == 0 {
        128
    } else if j == 1 {
        64
    } else if j == 2 {
        32
    } else if j == 3 {
        16
    } else if j == 4 {
        8
    } else if j == 5 {
        4
    } else if j == 6 {
        2
    } else {
        1
    };
    (byte as int / weight) % 2
}

/// Bit `k` of the bytes read from left to right; zero behind their end.
pub open spec fn bit_at(bytes: Seq<u8>, k: int) -> int {
    if 0 <= k < 8 * bytes.len() {
        byte_bit(bytes[k / 8], k % 8)
    } else {
        0
    }
}

/// The value of the `i`-th group of five bits.
pub open spec fn digit_at(bytes: Seq<u8>, i: int) -> int {
    16 * bit_at(bytes, 5 * i) + 8 * bit_at(bytes, 5 * i + 1) + 4 * bit_at(bytes, 5 * i + 2) + 2
        * bit_at(bytes, 5 * i + 3) + bit_at(bytes, 5 * i + 4)
}

/// The character that stands for a group of five bits: `a` to `z`, then `2` to `7`.
pub open spec fn symbol(digit: int) -> char {
    if digit < 26 {
        ('a' as int + digit) as char
    } else {
        ('2' as int + digit - 26) as char
    }
}

/// The base32 text of some bytes: one character for each group of five bits, the
/// last group filled up with zeros.
pub open spec fn base32_text(bytes: Seq<u8>) -> Seq<char> {
    Seq::new(((8 * bytes.len() + 4) / 5) as nat, |i: int| symbol(digit_at(bytes, i)))
}

/// `iroh_base::base32::fmt`: the lower-case base32 text of the bytes, without
/// padding. The bytes are few enough for the length of the text to fit.
#[verifier::external_body]
pub(crate) fn fmt(bytes: &[u8]) -> (text: String)
    requires
        bytes@.len() <= 32,
    ensures
        text@ == base32_text(bytes@),
{
    iroh_base::base32::fmt(bytes)
}

proof fn lemma_digit_bits(bytes: Seq<u8>, i: int)
    ensures
        0 <= digit_at(bytes, i) < 32,
        forall|k: int| 0 <= #[trigger] bit_at(bytes, k) <= 1,
{
}

proof fn lemma_byte_of_bits(a: u8, b: u8)
    requires
        forall|j: int| 0 <= j < 8 ==> #[trigger] byte_bit(a, j) == byte_bit(b, j),
    ensures
        a == b,
{
    assert(byte_bit(a, 0) == byte_bit(b, 0));
    assert(byte_bit(a, 1) == byte_bit(b, 1));
    assert(byte_bit(a, 2) == byte_bit(b, 2));
    assert(byte_bit(a, 3) == byte_bit(b, 3));
    assert(byte_bit(a, 4) == byte_bit(b, 4));
    assert(byte_bit(a, 5) == byte_bit(b, 5));
    assert(byte_bit(a, 6) == byte_bit(b, 6));
    assert(byte_bit(a, 7) == byte_bit(b, 7));
}

/// Base32 text tells byte sequences of one length apart: equal texts come from
/// equal bytes.
pub proof fn base32_is_injective(a: Seq<u8>, b: Seq<u8>)
    requires
        a.len() == b.len(),
        base32_text(a) == base32_text(b),
    ensures
        a == b,
{
    assert forall|k: int| 0 <= k < 8 * a.len() implies bit_at(a, k) == bit_at(b, k) by {
        let i = k / 5;
        lemma_digit_bits(a, i);
        lemma_digit_bits(b, i);
        assert(0 <= i < base32_text(a).len());
        assert(base32_text(a)[i] == base32_text(b)[i]);
        assert(base32_text(a)[i] == symbol(digit_at(a, i)));
        assert(base32_text(b)[i] == symbol(digit_at(b, i)));
        assert(digit_at(a, i) == digit_at(b, i));
        assert(0 <= bit_at(a, 5 * i) <= 1 && 0 <= bit_at(b, 5 * i) <= 1);
        assert(0 <= bit_at(a, 5 * i + 1) <= 1 && 0 <= bit_at(b, 5 * i + 1) <= 1);
        assert(0 <= bit_at(a, 5 * i + 2) <= 1 && 0 <= bit_at(b, 5 * i + 2) <= 1);
        assert(0 <= bit_at(a, 5 * i + 3) <= 1 && 0 <= bit_at(b, 5 * i + 3) <= 1);
        assert(0 <= bit_at(a, 5 * i + 4) <= 1 && 0 <= bit_at(b, 5 * i + 4) <= 1);
        assert(bit_at(a, 5 * i) == bit_at(b, 5 * i));
        assert(bit_at(a, 5 * i + 1) == bit_at(b, 5 * i + 1));
        assert(bit_at(a, 5 * i + 2) == bit_at(b, 5 * i + 2));
        assert(bit_at(a, 5 * i + 3) == bit_at(b, 5 * i + 3));
    }
    assert forall|n: int| 0 <= n < a.len() implies a[n] == b[n] by {
        assert forall|j: int| 0 <= j < 8 implies #[trigger] byte_bit(a[n], j) == byte_bit(
            b[n],
            j,
        ) by {
            let k = 8 * n + j;
            assert(k / 8 == n && k % 8 == j);
            assert(bit_at(a, k) == bit_at(b, k));
        }
        lemma_byte_of_bits(a[n], b[n]);
    }
    assert(a =~= b);
}

/// The base32 text of 32 bytes has 52 characters, all of them letters or digits.
pub proof fn base32_of_identifier(bytes: Seq<u8>)
    requires
        bytes.len() == 32,
    ensures
        base32_text(bytes).len() == 52,
        forall|i: int| 0 <= i < 52 ==> #[trigger] base32_text(bytes)[i] != '/',
{
    assert forall|i: int| 0 <= i < 52 implies #[trigger] base32_text(bytes)[i] != '/' by {
        lemma_digit_bits(bytes, i);
    }
}

} // verus!
