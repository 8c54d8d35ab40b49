//! Password-hash primitives of the bcrypt, rust-argon2 and blake3 crates, and the
//! facts about them that the verifier relies on.

use vstd::prelude::*;

verus! {

/// What `bcrypt::verify` decides for a password and an encoded hash:
/// `Some(matches)`, or `None` when the hash cannot be used.
pub uninterp spec fn bcrypt_verdict(password: Seq<char>, hash: Seq<char>) -> Option<bool>;

/// What `argon2::verify_encoded` decides for an encoded hash and a password:
/// `Some(matches)`, or `None` when the encoded hash cannot be used.
pub uninterp spec fn argon2_verdict(encoded: Seq<char>, password: Seq<char>) -> Option<bool>;

/// The BLAKE3 digest of the UTF-8 encoding of a text.
pub uninterp spec fn blake3_digest_of(text: Seq<char>) -> Seq<u8>;

/// Value of a hexadecimal digit, either case.
pub open spec fn hex_value(c: char) -> Option<u8> {
    if '0' <= c && c <= '9' {
        Some((c as u32 - '0' as u32) as u8)
    } else if 'a' <= c && c <= 'f' {
        Some((c as u32 - 'a' as u32 + 10) as u8)
    } else if 'A' <= c && c <= 'F' {
        Some((c as u32 - 'A' as u32 + 10) as u8)
    } else {
        None
    }
}

/// A 32-byte digest written as 64 hexadecimal digits.
pub open spec fn is_hex_digest(s: Seq<char>) -> bool {
    s.len() == 64 && forall|i: int| 0 <= i < 64 ==> #[trigger] hex_value(s[i]) is Some
}

/// The bytes that 64 hexadecimal digits denote, two digits per byte, high digit first.
pub open spec fn hex_digest_bytes(s: Seq<char>) -> Seq<u8> {
    Seq::new(
        32,
        |i: int| (16 * hex_value(s[2 * i]).unwrap() + hex_value(s[2 * i + 1]).unwrap()) as u8,
    )
}

/// Relies on `bcrypt::verify`: checks a password against an encoded bcrypt hash;
/// an unusable hash gives an error.
#[verifier::external_body]
pub(crate) fn bcrypt_verify(password: &str, hash: &str) -> (r: Result<bool, String>)
    ensures
        match r {
            Ok(m) => bcrypt_verdict(password@, hash@) == Some(m),
            Err(_) => bcrypt_verdict(password@, hash@) is None,
        },
{
    match bcrypt::verify(password, hash) {
        Ok(m) => Ok(m),
        Err(e) => Err(format!("{}", e)),
    }
}

/// Relies on `argon2::verify_encoded`: checks a password against an encoded Argon2
/// hash; an unusable encoding gives an error.
#[verifier::external_body]
pub(crate) fn argon2_verify(encoded: &str, password: &str) -> (r: Result<bool, String>)
    ensures
        match r {
            Ok(m) => argon2_verdict(encoded@, password@) == Some(m),
            Err(_) => argon2_verdict(encoded@, password@) is None,
        },
{
    match argon2::verify_encoded(encoded, password.as_bytes()) {
        Ok(m) => Ok(m),
        Err(e) => Err(format!("{}", e)),
    }
}

/// Relies on `blake3::hash`: the 32-byte digest of the text's bytes.
#[verifier::external_body]
pub(crate) fn blake3_digest(text: &str) -> (r: [u8; 32])
    ensures
        r@ == blake3_digest_of(text@),
{
    *blake3::hash(text.as_bytes()).as_bytes()
}

/// Relies on `blake3::Hash::from_hex`: exactly 64 hexadecimal digits of either case
/// are accepted, each pair giving one byte.
#[verifier::external_body]
pub(crate) fn parse_blake3_hex(s: &str) -> (r: Option<[u8; 32]>)
    ensures
        r is Some <==> is_hex_digest(s@),
        r is Some ==> r.unwrap()@ == hex_digest_bytes(s@),
{
    match blake3::Hash::from_hex(s) {
        Ok(h) => Some(*h.as_bytes()),
        Err(_) => None,
    }
}

} // verus!
