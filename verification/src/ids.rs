//! Random identifiers, drawn through the uuid crate.

use vstd::prelude::*;

verus! {

/// Whether `c` is a lower-case hexadecimal digit.
pub open spec fn is_lower_hex(c: char) -> bool {
    ('0' <= c && c <= '9') || ('a' <= c && c <= 'f')
}

/// Whether `s` is the hyphenated lower-case text of a version-4 UUID:
/// 36 characters, hyphens at 8, 13, 18 and 23, version digit `4` at 14,
/// variant digit `8`, `9`, `a` or `b` at 19, and hex digits elsewhere.
pub open spec fn is_uuid_v4_text(s: Seq<char>) -> bool {
    &&& s.len() == 36
    &&& forall|i: int|
        0 <= i < 36 ==> if i == 8 || i == 13 || i == 18 || i == 23 {
            #[trigger] s[i] == '-'
        } else {
            is_lower_hex(s[i])
        }
    &&& s[14] == '4'
    &&& (s[19] == '8' || s[19] == '9' || s[19] == 'a' || s[19] == 'b')
}

/// The lower-case hexadecimal digit for `n` (below 16).
pub open spec fn hex_digit(n: u8) -> char {
    if n < 10 {
        (n + 48) as char
    } else {
        (n + 87) as char
    }
}

/// Two lower-case hexadecimal digits per byte, high nibble first.
pub open spec fn hex_of(bytes: Seq<u8>) -> Seq<char>
    decreases bytes.len(),
{
    if bytes.len() == 0 {
        Seq::empty()
    } else {
        seq![hex_digit(bytes[0] >> 4), hex_digit(bytes[0] & 0x0f)] + hex_of(bytes.drop_first())
    }
}

/// `bytes` with the version-4 bits set in byte 6 and the RFC variant bits in
/// byte 8, as `uuid::Builder::from_random_bytes` sets them.
pub open spec fn v4_bytes(bytes: Seq<u8>) -> Seq<u8> {
    bytes.update(6, (bytes[6] & 0x0f) | 0x40).update(8, (bytes[8] & 0x3f) | 0x80)
}

/// The hyphenated lower-case text of the version-4 UUID made from `bytes`:
/// the hex digits of the 16 bytes in groups of 8, 4, 4, 4 and 12.
pub open spec fn v4_uuid_text(bytes: Seq<u8>) -> Seq<char> {
    let h = hex_of(v4_bytes(bytes));
    h.subrange(0, 8) + seq!['-'] + h.subrange(8, 12) + seq!['-'] + h.subrange(12, 16) + seq!['-']
        + h.subrange(16, 20) + seq!['-'] + h.subrange(20, 32)
}

/// Fills 16 bytes from the system's random source with `getrandom::fill`.
/// `None` when the source reports an error; which bytes come back is
/// random and is not stated.
#[verifier::external_body]
fn random_bytes_16() -> Option<[u8; 16]> {
    let mut bytes = [0u8; 16];
    match getrandom::fill(&mut bytes) {
        Ok(()) => Some(bytes),
        Err(_) => None,
    }
}

/// `uuid::Builder::from_random_bytes(bytes).into_uuid()` rendered with its
/// `Display` impl. Claimed: the text is [`v4_uuid_text`] of `bytes` (the
/// builder sets the version bits of byte 6 and the variant bits of byte 8,
/// and `Display` writes the bytes as lower-case hex via `LowerHex` in the
/// hyphenated 8-4-4-4-12 layout), and so it has the shape of a version-4,
/// RFC-variant UUID.
#[verifier::external_body]
fn uuid_v4_text(bytes: [u8; 16]) -> (s: String)
    ensures
        s@ == v4_uuid_text(bytes@),
        is_uuid_v4_text(s@),
{
    uuid::Builder::from_random_bytes(bytes).into_uuid().to_string()
}

/// The text of a random version-4 UUID, or `None` when the system's random
/// source fails.
pub(crate) fn random_uuid_text() -> (res: Option<String>)
    ensures
        res matches Some(s) ==> is_uuid_v4_text(s@),
{
    match random_bytes_16() {
        Some(bytes) => Some(uuid_v4_text(bytes)),
        None => None,
    }
}

} // verus!
