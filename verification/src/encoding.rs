//! Texts that stand for bytes.

use crate::text::{digit, hex_digit, hex_digits};
use vstd::prelude::*;
use vstd::utf8::encode_utf8;

verus! {

/// The digit of a value below 16, above nine an upper-case letter.
pub open spec fn upper_hex_digit(d: int) -> char {
    if d < 10 {
        digit(d)
    } else if d == 10 {
        'A'
    } else if d == 11 {
        'B'
    } else if d == 12 {
        'C'
    } else if d == 13 {
        'D'
    } else if d == 14 {
        'E'
    } else {
        'F'
    }
}

/// Whether a byte stands for itself in a percent-encoded text.
pub open spec fn is_unreserved(b: u8) -> bool {
    ||| '0' as int <= b <= '9' as int
    ||| 'A' as int <= b <= 'Z' as int
    ||| 'a' as int <= b <= 'z' as int
    ||| b == '-' as int
    ||| b == '_' as int
    ||| b == '.' as int
    ||| b == '~' as int
}

/// The percent-encoding of bytes: every byte that is neither alphanumeric nor
/// one of `-_.~` is a percent sign and two upper-case digits.
pub open spec fn percent_encoded(bytes: Seq<u8>) -> Seq<char>
    decreases bytes.len(),
{
    if bytes.len() == 0 {
        Seq::empty()
    } else {
        let rest = percent_encoded(bytes.drop_last());
        let b = bytes.last();
        if is_unreserved(b) {
            rest.push(b as char)
        } else {
            rest.push('%').push(upper_hex_digit(b as int / 16)).push(
                upper_hex_digit(b as int % 16),
            )
        }
    }
}

/// Calls `urlencoding::encode`, which percent-encodes the UTF-8 bytes of a
/// text but for alphanumerics and `-_.~`.
#[verifier::external_body]
pub(crate) fn url_encode(text: &str) -> (r: String)
    ensures
        r@ == percent_encoded(encode_utf8(text@)),
{
    urlencoding::encode(text).into_owned()
}

/// Two lower-case digits for every byte.
pub open spec fn hex_text(bytes: Seq<u8>) -> Seq<char>
    decreases bytes.len(),
{
    if bytes.len() == 0 {
        Seq::empty()
    } else {
        let b = bytes.last();
        hex_text(bytes.drop_last()).push(hex_digit(b as int / 16)).push(
            hex_digit(b as int % 16),
        )
    }
}

/// Calls `hex::encode`, which writes two lower-case digits for every byte.
#[verifier::external_body]
pub(crate) fn hex_encode(bytes: &Vec<u8>) -> (r: String)
    ensures
        r@ == hex_text(bytes@),
{
    hex::encode(bytes)
}

/// The SHA-256 digest of bytes.
pub uninterp spec fn sha256_digest(bytes: Seq<u8>) -> Seq<u8>;

/// Calls `sha2::Sha256::digest`, whose result of 32 bytes is a function of
/// the bytes alone and is named.
#[verifier::external_body]
pub(crate) fn sha256(bytes: &[u8]) -> (r: Vec<u8>)
    ensures
        r@ == sha256_digest(bytes@),
        r@.len() == 32,
{
    <sha2::Sha256 as sha2::Digest>::digest(bytes).to_vec()
}

/// A 128-bit id in groups of 8, 4, 4, 4 and 12 lower-case digits.
pub open spec fn uuid_text(id: u128) -> Seq<char> {
    let h = hex_digits(id as nat, 32);
    h.subrange(0, 8) + "-"@ + h.subrange(8, 12) + "-"@ + h.subrange(12, 16) + "-"@ + h.subrange(
        16,
        20,
    ) + "-"@ + h.subrange(20, 32)
}

/// The id that a text denotes, in one of the forms a UUID is written in;
/// `None` for any other text.
pub uninterp spec fn uuid_value(text: Seq<char>) -> Option<u128>;

/// Calls `uuid::Uuid::parse_str`, a function of the text alone, whose result
/// is named.
#[verifier::external_body]
pub(crate) fn parse_uuid(text: &str) -> (r: Option<u128>)
    ensures
        r == uuid_value(text@),
{
    uuid::Uuid::parse_str(text).ok().map(|u| u.as_u128())
}

/// Calls `uuid::Uuid::from_u128` and its `to_string`, which writes the id in
/// five groups of lower-case digits with hyphens between them: the standard
/// form, which `uuid::Uuid::parse_str` reads back.
#[verifier::external_body]
pub(crate) fn format_uuid(id: u128) -> (r: String)
    ensures
        r@ == uuid_text(id),
        uuid_value(r@) == Some(id),
{
    uuid::Uuid::from_u128(id).to_string()
}

/// The version 5 UUID of a text in the OID namespace.
pub uninterp spec fn seeded_uuid(seed: Seq<char>) -> u128;

/// Calls `uuid::Uuid::new_v5` on the OID namespace and the bytes of a text: a
/// function of the text alone, whose result is named.
#[verifier::external_body]
pub(crate) fn uuid_from_text(seed: &str) -> (r: u128)
    ensures
        r == seeded_uuid(seed@),
{
    uuid::Uuid::new_v5(&uuid::Uuid::NAMESPACE_OID, seed.as_bytes()).as_u128()
}

/// Whether an id is of version 4 and of the standard variant: so much of it
/// is fixed, the rest is random.
pub open spec fn is_random_uuid(id: u128) -> bool {
    &&& id / 0x1000_0000_0000_0000_0000 % 16 == 4
    &&& id / 0x4000_0000_0000_0000 % 4 == 2
}

/// Calls `uuid::Uuid::new_v4`: a random id of version 4 and of the standard
/// variant. Which one is left to chance.
#[verifier::external_body]
pub(crate) fn random_uuid() -> (r: u128)
    ensures
        is_random_uuid(r),
{
    uuid::Uuid::new_v4().as_u128()
}

} // verus!
