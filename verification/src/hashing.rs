//! The password hashing policy: hex-encoded SHA-256 of the UTF-8
//! plaintext bytes.

use sha2::Digest;
use vstd::prelude::*;

verus! {

/// The lower-case hex encoding of the SHA-256 digest of the UTF-8
/// bytes of a string. A digest has no short description; the result is
/// a function of the input characters alone.
pub uninterp spec fn sha256_hex(s: Seq<char>) -> Seq<char>;

/// Relies on sha2's `Sha256::digest`, which hashes the UTF-8 bytes of
/// the input, and on the digest's lower-case hex rendering: the 32
/// digest bytes give 64 hex characters.
#[verifier::external_body]
pub fn hash_password(password: &str) -> (r: String)
    ensures
        r@ == sha256_hex(password@),
        r@.len() == 64,
{
    format!("{:x}", sha2::Sha256::digest(password.as_bytes()))
}

} // verus!
