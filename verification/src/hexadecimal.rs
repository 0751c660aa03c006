//! Hexadecimal notation of bytes, as the control port writes nonces and hashes.
//! The conversions are made by the `hex` crate; this file states what they return.

use vstd::prelude::*;

verus! {

/// Whether `c` is a hexadecimal digit, in either case.
pub open spec fn is_hex_digit(c: char) -> bool {
    ('0' <= c && c <= '9') || ('a' <= c && c <= 'f') || ('A' <= c && c <= 'F')
}

/// The value of a hexadecimal digit.
pub open spec fn hex_digit_value(c: char) -> nat {
    if '0' <= c && c <= '9' {
        (c as nat - '0' as nat) as nat
    } else if 'a' <= c && c <= 'f' {
        (c as nat - 'a' as nat + 10) as nat
    } else {
        (c as nat - 'A' as nat + 10) as nat
    }
}

/// The lower-case hexadecimal digit of a value below sixteen.
pub open spec fn lower_hex_digit(v: nat) -> char {
    if v < 10 {
        ('0' as nat + v) as char
    } else {
        ('a' as nat + v - 10) as char
    }
}

/// The lower-case hexadecimal notation of `bytes`: two digits for each byte,
/// the more significant first.
pub open spec fn hex_encoding(bytes: Seq<u8>) -> Seq<char> {
    Seq::new(
        2 * bytes.len(),
        |i: int|
            if i % 2 == 0 {
                lower_hex_digit((bytes[i / 2] / 16) as nat)
            } else {
                lower_hex_digit((bytes[i / 2] % 16) as nat)
            },
    )
}

/// Whether `s` writes whole bytes in hexadecimal digits.
pub open spec fn is_hex_text(s: Seq<char>) -> bool {
    s.len() % 2 == 0 && forall|i: int| 0 <= i < s.len() ==> is_hex_digit(#[trigger] s[i])
}

/// The bytes that the hexadecimal digits of `s` write, two digits for each byte.
pub open spec fn hex_decoding(s: Seq<char>) -> Seq<u8> {
    Seq::new(
        s.len() / 2,
        |i: int| (hex_digit_value(s[2 * i]) * 16 + hex_digit_value(s[2 * i + 1])) as u8,
    )
}

#[verifier::external_type_specification]
#[verifier::external_body]
pub struct ExFromHexError(hex::FromHexError);

/// The 32 bytes of a nonce or of a SHA-256 hash.
pub type Bytes32 = [u8; 32];

/// `hex::encode`: the lower-case hexadecimal notation of `data`, two digits
/// for each byte.
#[verifier::external_body]
pub(crate) fn encode_hex(data: &[u8]) -> (r: String)
    ensures
        r@ == hex_encoding(data@),
{
    hex::encode(data)
}

/// `hex::FromHex::from_hex` for an array of 32 bytes: it succeeds exactly on
/// 64 hexadecimal digits, of either case, and returns the bytes they write.
#[verifier::external_body]
pub(crate) fn decode_hex_32(s: &str) -> (r: Result<Bytes32, hex::FromHexError>)
    ensures
        r.is_ok() == (s@.len() == 64 && is_hex_text(s@)),
        r matches Ok(bytes) ==> bytes@ == hex_decoding(s@),
{
    hex::FromHex::from_hex(s)
}

} // verus!
