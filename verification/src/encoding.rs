//! Hexadecimal text, the form in which transactions and commitment trees travel.

use hex::FromHexError;
use vstd::prelude::*;

verus! {

/// The error that the `hex` crate reports for text that is no hexadecimal string.
#[verifier::external_type_specification]
#[verifier::external_body]
pub struct ExFromHexError(FromHexError);

/// The value of a hexadecimal digit, in either case.
pub open spec fn digit_value(c: char) -> Option<int> {
    if '0' <= c <= '9' {
        Some(c as int - '0' as int)
    } else if 'a' <= c <= 'f' {
        Some(c as int - 'a' as int + 10)
    } else if 'A' <= c <= 'F' {
        Some(c as int - 'A' as int + 10)
    } else {
        None
    }
}

/// The lower case digit for a value below sixteen.
pub open spec fn digit_char(value: int) -> char {
    if value < 10 {
        ('0' as int + value) as char
    } else {
        ('a' as int + value - 10) as char
    }
}

/// Text that stands for bytes: digits only, two for each byte.
pub open spec fn is_hex(text: Seq<char>) -> bool {
    &&& text.len() % 2 == 0
    &&& forall|i: int| 0 <= i < text.len() ==> digit_value(#[trigger] text[i]) is Some
}

/// The byte that the digits at `2 * i` and `2 * i + 1` stand for.
pub open spec fn decoded_byte(text: Seq<char>, i: int) -> u8 {
    (16 * digit_value(text[2 * i])->0 + digit_value(text[2 * i + 1])->0) as u8
}

/// The bytes that a hexadecimal text stands for.
pub open spec fn decoded(text: Seq<char>) -> Seq<u8> {
    Seq::new((text.len() / 2) as nat, |i: int| decoded_byte(text, i))
}

/// The digit at position `i` of the text for `bytes`, the high half of each byte first.
pub open spec fn encoded_digit(bytes: Seq<u8>, i: int) -> char {
    if i % 2 == 0 {
        digit_char(bytes[i / 2] as int / 16)
    } else {
        digit_char(bytes[i / 2] as int % 16)
    }
}

/// The lower case text for `bytes`.
pub open spec fn encoded(bytes: Seq<u8>) -> Seq<char> {
    Seq::new(2 * bytes.len(), |i: int| encoded_digit(bytes, i))
}

/// Calls `hex::decode`: digits of either case, mixed at will, are read in pairs, and
/// anything else, an odd number of digits too, is an error.
#[verifier::external_body]
pub(crate) fn hex_decode(text: &str) -> (r: Result<Vec<u8>, FromHexError>)
    ensures
        r is Ok <==> is_hex(text@),
        r matches Ok(bytes) ==> bytes@ == decoded(text@),
{
    hex::decode(text)
}

/// Calls `hex::encode`: two lower case digits for each byte.
#[verifier::external_body]
pub(crate) fn hex_encode(bytes: &[u8]) -> (r: String)
    ensures
        r@ == encoded(bytes@),
{
    hex::encode(bytes)
}

/// The text for `bytes` is hexadecimal, and stands for those bytes.
pub proof fn law_decode_of_encode(bytes: Seq<u8>)
    ensures
        is_hex(encoded(bytes)),
        decoded(encoded(bytes)) == bytes,
{
    let text = encoded(bytes);
    assert forall|i: int| 0 <= i < text.len() implies digit_value(#[trigger] text[i]) is Some by {
        assert(text[i] == encoded_digit(bytes, i));
    }
    assert forall|i: int| 0 <= i < bytes.len() implies decoded(text)[i] == bytes[i] by {
        assert(text[2 * i] == encoded_digit(bytes, 2 * i));
        assert(text[2 * i + 1] == encoded_digit(bytes, 2 * i + 1));
        assert((2 * i) / 2 == i && (2 * i) % 2 == 0);
        assert((2 * i + 1) / 2 == i && (2 * i + 1) % 2 == 1);
    }
    assert(decoded(text) =~= bytes);
}

/// The text that `c` has once the case of its letters is dropped.
pub open spec fn lower_case_digit(c: char) -> char {
    if 'A' <= c <= 'F' {
        (c as int - 'A' as int + 'a' as int) as char
    } else {
        c
    }
}

/// Decoding hexadecimal text and encoding the bytes gives the text back in lower case.
pub proof fn law_encode_of_decode(text: Seq<char>)
    requires
        is_hex(text),
    ensures
        encoded(decoded(text)) == text.map_values(|c: char| lower_case_digit(c)),
{
    let bytes = decoded(text);
    let lower = text.map_values(|c: char| lower_case_digit(c));
    assert forall|i: int| 0 <= i < text.len() implies encoded(bytes)[i] == lower[i] by {
        let k = i / 2;
        assert(bytes[k] == decoded_byte(text, k));
        assert(digit_value(text[2 * k]) is Some);
        assert(digit_value(text[2 * k + 1]) is Some);
        assert(i == 2 * k || i == 2 * k + 1);
        let high = digit_value(text[2 * k])->0;
        let low = digit_value(text[2 * k + 1])->0;
        assert((16 * high + low) / 16 == high && (16 * high + low) % 16 == low);
        assert(encoded(bytes)[i] == encoded_digit(bytes, i));
    }
    assert(encoded(bytes) =~= lower);
}

} // verus!
