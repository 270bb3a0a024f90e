//! Lowercase hexadecimal text of byte strings.
use vstd::prelude::*;

verus! {

/// The lowercase digit for a value below sixteen.
pub open spec fn hex_digit(n: u8) -> char {
    seq!['0', '1', '2', '3', '4', '5', '6', '7', '8', '9', 'a', 'b', 'c', 'd', 'e', 'f'][n as int]
}

/// Two lowercase digits per byte, high nibble first.
pub open spec fn hex_text(b: Seq<u8>) -> Seq<char> {
    Seq::new(
        2 * b.len(),
        |i: int|
            if i % 2 == 0 {
                hex_digit(b[i / 2] / 16)
            } else {
                hex_digit(b[i / 2] % 16)
            },
    )
}

pub open spec fn is_hex_char(c: char) -> bool {
    ('0' <= c && c <= '9') || ('a' <= c && c <= 'f') || ('A' <= c && c <= 'F')
}

/// The value of a hexadecimal digit of either case.
pub open spec fn hex_value(c: char) -> int {
    if '0' <= c && c <= '9' {
        c as int - 48
    } else if 'a' <= c && c <= 'f' {
        c as int - 87
    } else {
        c as int - 55
    }
}

/// Text that decodes: an even number of hexadecimal digits.
pub open spec fn is_hex_encoding(s: Seq<char>) -> bool {
    s.len() % 2 == 0 && forall|i: int| 0 <= i < s.len() ==> is_hex_char(#[trigger] s[i])
}

/// The bytes that hexadecimal text stands for, two digits each.
pub open spec fn hex_bytes(s: Seq<char>) -> Seq<u8> {
    Seq::new(s.len() / 2, |i: int| (hex_value(s[2 * i]) * 16 + hex_value(s[2 * i + 1])) as u8)
}

/// Relies on hex::encode: two lowercase digits for each byte, high nibble first.
#[verifier::external_body]
pub(crate) fn to_hex(b: &[u8]) -> (r: String)
    ensures
        r@ == hex_text(b@),
{
    hex::encode(b)
}

/// Relies on hex::decode: an even number of digits of either case decodes,
/// two digits to a byte; any other text is refused.
#[verifier::external_body]
pub(crate) fn from_hex(s: &str) -> (r: Option<Vec<u8>>)
    ensures
        r is Some <==> is_hex_encoding(s@),
        r matches Some(v) ==> v@ == hex_bytes(s@),
{
    hex::decode(s).ok()
}

proof fn lemma_digit_value(n: u8)
    requires
        n < 16,
    ensures
        is_hex_char(hex_digit(n)),
        hex_value(hex_digit(n)) == n as int,
{
    if n < 8 {
        if n < 4 {
            if n < 2 {
                if n == 0 {} else {}
            } else {
                if n == 2 {} else {}
            }
        } else {
            if n < 6 {
                if n == 4 {} else {}
            } else {
                if n == 6 {} else {}
            }
        }
    } else {
        if n < 12 {
            if n < 10 {
                if n == 8 {} else {}
            } else {
                if n == 10 {} else {}
            }
        } else {
            if n < 14 {
                if n == 12 {} else {}
            } else {
                if n == 14 {} else {}
            }
        }
    }
}

/// Lowercase hexadecimal text always decodes, and gives back its bytes.
pub proof fn lemma_hex_round_trip(b: Seq<u8>)
    ensures
        is_hex_encoding(hex_text(b)),
        hex_bytes(hex_text(b)) == b,
{
    let t = hex_text(b);
    assert forall|i: int| 0 <= i < t.len() implies is_hex_char(#[trigger] t[i]) by {
        lemma_digit_value(b[i / 2] / 16);
        lemma_digit_value(b[i / 2] % 16);
    }
    assert forall|i: int| 0 <= i < b.len() implies #[trigger] hex_bytes(t)[i] == b[i] by {
        assert((2 * i) / 2 == i);
        assert((2 * i + 1) / 2 == i);
        assert((2 * i) % 2 == 0);
        assert((2 * i + 1) % 2 == 1);
        lemma_digit_value(b[i] / 16);
        lemma_digit_value(b[i] % 16);
    }
    assert(hex_bytes(t) =~= b);
}

} // verus!
