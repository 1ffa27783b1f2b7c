//! Hex encoding and decoding of byte strings, as used at the service
//! boundary where public keys and addresses travel hex-encoded.

use vstd::prelude::*;

verus! {

/// The sixteen lowercase hex digit characters, in value order.
pub open spec fn hex_digits() -> Seq<char> {
    seq!['0', '1', '2', '3', '4', '5', '6', '7', '8', '9', 'a', 'b', 'c', 'd', 'e', 'f']
}

/// The lowercase hex digit character for a value below sixteen.
pub open spec fn hex_digit_char(v: int) -> char {
    hex_digits()[v]
}

/// The lowercase hex encoding of a byte string: two digits per byte,
/// high nibble first.
pub open spec fn spec_hex_encode(bytes: Seq<u8>) -> Seq<char> {
    Seq::new(
        2 * bytes.len(),
        |i: int|
            if i % 2 == 0 {
                hex_digit_char(bytes[i / 2] as int / 16)
            } else {
                hex_digit_char(bytes[i / 2] as int % 16)
            },
    )
}

/// Whether a character is a hex digit, upper or lower case.
pub open spec fn is_hex_char(c: char) -> bool {
    ('0' as int <= c as int && c as int <= '9' as int) || ('a' as int <= c as int && c as int
        <= 'f' as int) || ('A' as int <= c as int && c as int <= 'F' as int)
}

/// The value of a hex digit character.
pub open spec fn hex_char_val(c: char) -> int {
    if '0' as int <= c as int && c as int <= '9' as int {
        c as int - '0' as int
    } else if 'a' as int <= c as int && c as int <= 'f' as int {
        c as int - 'a' as int + 10
    } else {
        c as int - 'A' as int + 10
    }
}

/// Whether a character string is a well-formed hex encoding: even length,
/// hex digits throughout.
pub open spec fn valid_hex_string(s: Seq<char>) -> bool {
    s.len() % 2 == 0 && (forall|i: int| 0 <= i < s.len() ==> is_hex_char(#[trigger] s[i]))
}

/// The bytes a well-formed hex string denotes.
pub open spec fn spec_hex_decode(s: Seq<char>) -> Seq<u8> {
    Seq::new(s.len() / 2, |i: int| (16 * hex_char_val(s[2 * i]) + hex_char_val(s[2 * i + 1])) as u8)
}

/// Relies on hex::encode: each input byte becomes exactly two lowercase
/// hex digits, high nibble first.
#[verifier::external_body]
pub fn hex_encode(bytes: &[u8]) -> (r: String)
    ensures
        r@ == spec_hex_encode(bytes@),
{
    hex::encode(bytes)
}

/// Relies on hex::decode: succeeds exactly on even-length strings made of
/// hex digits (either case), returning the denoted bytes.
#[verifier::external_body]
pub fn hex_decode(s: &str) -> (r: Option<Vec<u8>>)
    ensures
        match r {
            Some(v) => valid_hex_string(s@) && v@ == spec_hex_decode(s@),
            None => !valid_hex_string(s@),
        },
{
    hex::decode(s).ok()
}

/// Decoding inverts encoding: the hex image of a byte string is
/// well formed and denotes the original bytes.
pub proof fn lemma_hex_round_trip(bytes: Seq<u8>)
    ensures
        valid_hex_string(spec_hex_encode(bytes)),
        spec_hex_decode(spec_hex_encode(bytes)) == bytes,
{
    let s = spec_hex_encode(bytes);
    assert forall|i: int| 0 <= i < s.len() implies is_hex_char(#[trigger] s[i]) by {
        let b = bytes[i / 2] as int;
        assert(0 <= b / 16 < 16);
        assert(0 <= b % 16 < 16);
    }
    assert(spec_hex_decode(s) =~= bytes) by {
        assert forall|i: int| 0 <= i < bytes.len() implies spec_hex_decode(s)[i] == bytes[i] by {
            let b = bytes[i] as int;
            assert(s[2 * i] == hex_digit_char(b / 16));
            assert(s[2 * i + 1] == hex_digit_char(b % 16));
            assert(hex_char_val(hex_digit_char(b / 16)) == b / 16);
            assert(hex_char_val(hex_digit_char(b % 16)) == b % 16);
        }
    }
}

} // verus!
