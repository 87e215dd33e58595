//! Plugin and registration identifiers: UUIDs held as their sixteen bytes,
//! and the hyphenated lower-case text that keys and replies carry.

use vstd::prelude::*;
use vstd::utf8::*;

verus! {

/// The lower-case hexadecimal digit of `n`, for `0 <= n < 16`.
pub open spec fn hex_digit(n: int) -> char {
    if n < 10 {
        (48 + n) as char
    } else {
        (87 + n) as char
    }
}

/// The two hexadecimal digits of a byte, high nibble first.
pub open spec fn hex_byte(b: u8) -> Seq<char> {
    seq![hex_digit((b / 16) as int), hex_digit((b % 16) as int)]
}

/// The hexadecimal digits of a byte string, two per byte.
pub open spec fn hex_text(bytes: Seq<u8>) -> Seq<char>
    decreases bytes.len(),
{
    if bytes.len() == 0 {
        seq![]
    } else {
        hex_byte(bytes[0]) + hex_text(bytes.drop_first())
    }
}

/// The hyphenated form of a UUID: its bytes as lower-case hexadecimal in
/// groups of 4, 2, 2, 2 and 6 bytes, separated by `-`.
pub open spec fn hyphenated_text(b: Seq<u8>) -> Seq<char> {
    hex_text(b.subrange(0, 4)) + seq!['-'] + hex_text(b.subrange(4, 6)) + seq!['-']
        + hex_text(b.subrange(6, 8)) + seq!['-'] + hex_text(b.subrange(8, 10)) + seq!['-']
        + hex_text(b.subrange(10, 16))
}

/// A lower-case hexadecimal digit.
pub open spec fn is_hex_digit(c: char) -> bool {
    ('0' <= c && c <= '9') || ('a' <= c && c <= 'f')
}

/// The bytes of a version-4 UUID of the RFC 9562 variant.
pub open spec fn is_v4(bytes: Seq<u8>) -> bool {
    bytes.len() == 16 && bytes[6] / 16 == 4 && bytes[8] / 64 == 2
}

/// The digits of a byte string are two per byte, all hexadecimal.
pub proof fn lemma_hex_text(bytes: Seq<u8>)
    ensures
        hex_text(bytes).len() == 2 * bytes.len(),
        forall|i: int| 0 <= i < hex_text(bytes).len() ==> is_hex_digit(#[trigger] hex_text(bytes)[i]),
    decreases bytes.len(),
{
    if bytes.len() > 0 {
        lemma_hex_text(bytes.drop_first());
        let h = hex_byte(bytes[0]);
        let t = hex_text(bytes.drop_first());
        assert(hex_text(bytes) == h + t);
        assert forall|i: int| 0 <= i < hex_text(bytes).len() implies is_hex_digit(#[trigger] hex_text(bytes)[i]) by {
            if i >= 2 {
                assert(hex_text(bytes)[i] == t[i - 2]);
            }
        }
    }
}

/// The hyphenated text of sixteen bytes is 36 ASCII characters.
pub proof fn lemma_hyphenated_text(bytes: Seq<u8>)
    requires
        bytes.len() == 16,
    ensures
        hyphenated_text(bytes).len() == 36,
        is_ascii_chars(hyphenated_text(bytes)),
{
    lemma_hex_text(bytes.subrange(0, 4));
    lemma_hex_text(bytes.subrange(4, 6));
    lemma_hex_text(bytes.subrange(6, 8));
    lemma_hex_text(bytes.subrange(8, 10));
    lemma_hex_text(bytes.subrange(10, 16));
    let t = hyphenated_text(bytes);
    assert forall|i: int| 0 <= i < t.len() implies '\0' <= #[trigger] t[i] <= '\u{7f}' by {
        if i < 8 {
            assert(t[i] == hex_text(bytes.subrange(0, 4))[i]);
        } else if i == 8 || i == 13 || i == 18 || i == 23 {
        } else if i < 13 {
            assert(t[i] == hex_text(bytes.subrange(4, 6))[i - 9]);
        } else if i < 18 {
            assert(t[i] == hex_text(bytes.subrange(6, 8))[i - 14]);
        } else if i < 23 {
            assert(t[i] == hex_text(bytes.subrange(8, 10))[i - 19]);
        } else {
            assert(t[i] == hex_text(bytes.subrange(10, 16))[i - 24]);
        }
    }
}

/// Distinct nibbles have distinct digits.
pub proof fn lemma_hex_digit_injective(n: int, m: int)
    requires
        0 <= n < 16,
        0 <= m < 16,
        hex_digit(n) == hex_digit(m),
    ensures
        n == m,
{
    assert(hex_digit(n) as int == if n < 10 { 48 + n } else { 87 + n });
    assert(hex_digit(m) as int == if m < 10 { 48 + m } else { 87 + m });
}

/// Byte strings of one length with the same digits are the same.
pub proof fn lemma_hex_text_injective(a: Seq<u8>, b: Seq<u8>)
    requires
        a.len() == b.len(),
        hex_text(a) == hex_text(b),
    ensures
        a == b,
    decreases a.len(),
{
    if a.len() > 0 {
        lemma_hex_text(a.drop_first());
        lemma_hex_text(b.drop_first());
        let ha = hex_text(a);
        assert(ha[0] == hex_digit((a[0] / 16) as int));
        assert(hex_text(b)[0] == hex_digit((b[0] / 16) as int));
        assert(ha[1] == hex_digit((a[0] % 16) as int));
        assert(hex_text(b)[1] == hex_digit((b[0] % 16) as int));
        lemma_hex_digit_injective((a[0] / 16) as int, (b[0] / 16) as int);
        lemma_hex_digit_injective((a[0] % 16) as int, (b[0] % 16) as int);
        assert(a[0] == b[0]);
        assert(hex_text(a.drop_first()) =~= ha.subrange(2, ha.len() as int));
        assert(hex_text(b.drop_first()) =~= hex_text(b).subrange(2, ha.len() as int));
        lemma_hex_text_injective(a.drop_first(), b.drop_first());
        assert forall|i: int| 0 <= i < a.len() implies a[i] == b[i] by {
            if i > 0 {
                assert(a[i] == a.drop_first()[i - 1]);
                assert(b[i] == b.drop_first()[i - 1]);
            }
        }
        assert(a =~= b);
    }
}

/// Distinct UUIDs have distinct hyphenated texts.
pub proof fn lemma_hyphenated_text_injective(a: Seq<u8>, b: Seq<u8>)
    requires
        a.len() == 16,
        b.len() == 16,
        hyphenated_text(a) == hyphenated_text(b),
    ensures
        a == b,
{
    let ta = hyphenated_text(a);
    let tb = hyphenated_text(b);
    lemma_hex_text(a.subrange(0, 4));
    lemma_hex_text(a.subrange(4, 6));
    lemma_hex_text(a.subrange(6, 8));
    lemma_hex_text(a.subrange(8, 10));
    lemma_hex_text(a.subrange(10, 16));
    lemma_hex_text(b.subrange(0, 4));
    lemma_hex_text(b.subrange(4, 6));
    lemma_hex_text(b.subrange(6, 8));
    lemma_hex_text(b.subrange(8, 10));
    lemma_hex_text(b.subrange(10, 16));
    assert(ta.subrange(0, 8) =~= hex_text(a.subrange(0, 4)));
    assert(tb.subrange(0, 8) =~= hex_text(b.subrange(0, 4)));
    assert(ta.subrange(9, 13) =~= hex_text(a.subrange(4, 6)));
    assert(tb.subrange(9, 13) =~= hex_text(b.subrange(4, 6)));
    assert(ta.subrange(14, 18) =~= hex_text(a.subrange(6, 8)));
    assert(tb.subrange(14, 18) =~= hex_text(b.subrange(6, 8)));
    assert(ta.subrange(19, 23) =~= hex_text(a.subrange(8, 10)));
    assert(tb.subrange(19, 23) =~= hex_text(b.subrange(8, 10)));
    assert(ta.subrange(24, 36) =~= hex_text(a.subrange(10, 16)));
    assert(tb.subrange(24, 36) =~= hex_text(b.subrange(10, 16)));
    lemma_hex_text_injective(a.subrange(0, 4), b.subrange(0, 4));
    lemma_hex_text_injective(a.subrange(4, 6), b.subrange(4, 6));
    lemma_hex_text_injective(a.subrange(6, 8), b.subrange(6, 8));
    lemma_hex_text_injective(a.subrange(8, 10), b.subrange(8, 10));
    lemma_hex_text_injective(a.subrange(10, 16), b.subrange(10, 16));
    assert forall|i: int| 0 <= i < 16 implies a[i] == b[i] by {
        if i < 4 {
            assert(a.subrange(0, 4)[i] == b.subrange(0, 4)[i]);
        } else if i < 6 {
            assert(a.subrange(4, 6)[i - 4] == b.subrange(4, 6)[i - 4]);
        } else if i < 8 {
            assert(a.subrange(6, 8)[i - 6] == b.subrange(6, 8)[i - 6]);
        } else if i < 10 {
            assert(a.subrange(8, 10)[i - 8] == b.subrange(8, 10)[i - 8]);
        } else {
            assert(a.subrange(10, 16)[i - 10] == b.subrange(10, 16)[i - 10]);
        }
    }
    assert(a =~= b);
}

/// Calls `uuid::Uuid::new_v4` and hands back the sixteen bytes of the UUID.
/// The bytes are random: the contract claims only what every outcome has,
/// the version nibble 4 in byte 6 and the variant bits `10` in byte 8.
/// The outside function panics if the system's random source fails.
#[verifier::external_body]
pub(crate) fn new_random_uuid() -> (bytes: [u8; 16])
    ensures
        is_v4(bytes@),
{
    uuid::Uuid::new_v4().into_bytes()
}

/// Calls `uuid::Uuid::from_bytes` and formats the result with `Display`,
/// which writes the hyphenated lower-case form: the contract states it.
#[verifier::external_body]
pub(crate) fn uuid_text(bytes: &[u8; 16]) -> (text: String)
    ensures
        text@ == hyphenated_text(bytes@),
{
    uuid::Uuid::from_bytes(*bytes).to_string()
}

} // verus!
