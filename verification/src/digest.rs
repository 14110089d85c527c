//! SHA-256 fingerprints of text, and the difficulty predicate of the
//! proof-of-work puzzle.

use vstd::prelude::*;
use vstd::string::*;
use vstd::utf8::encode_utf8;

verus! {

/// Number of trailing zero digits that the fingerprint of a guess must show
/// for the guess to count as a proof of work.
pub const DIFFICULTY: usize = 3;

/// The SHA-256 digest of `data`, written as lower-case hexadecimal digits.
pub uninterp spec fn sha256_hex(data: Seq<u8>) -> Seq<char>;

/// Calls `crypto_hash::hex_digest` with `Algorithm::SHA256`. The contract
/// only names the result: the digest is a function of the bytes alone, and
/// `sha256_hex` stands for it. Nothing is claimed about its length or digits.
/// The call fails only where the platform's hash provider fails.
#[verifier::external_body]
fn sha256_hex_digest(data: &[u8]) -> (digest: String)
    ensures
        digest@ == sha256_hex(data@),
{
    crypto_hash::hex_digest(crypto_hash::Algorithm::SHA256, data)
}

/// The fingerprint of a text: the SHA-256 digest of its UTF-8 encoding.
pub open spec fn fingerprint_of(text: Seq<char>) -> Seq<char> {
    sha256_hex(encode_utf8(text))
}

/// Computes the fingerprint of `text`.
pub fn fingerprint(text: &str) -> (digest: String)
    ensures
        digest@ == fingerprint_of(text@),
{
    sha256_hex_digest(text.as_bytes())
}

/// `digest` ends with at least `zeros` characters `0`.
pub open spec fn ends_with_zeros(digest: Seq<char>, zeros: nat) -> bool {
    &&& zeros <= digest.len()
    &&& forall|i: int| digest.len() - zeros <= i < digest.len() ==> digest[i] == '0'
}

/// Tells whether a digest meets the difficulty: whether it ends with
/// `DIFFICULTY` zero digits.
pub fn meets_difficulty(digest: &str) -> (ok: bool)
    ensures
        ok == ends_with_zeros(digest@, DIFFICULTY as nat),
{
    let len: usize = digest.unicode_len();
    if len < DIFFICULTY {
        return false;
    }
    let mut i: usize = len - DIFFICULTY;
    while i < len
        invariant
            len == digest@.len(),
            len - DIFFICULTY <= i <= len,
            forall|j: int| len - DIFFICULTY <= j < i ==> digest@[j] == '0',
        decreases len - i,
    {
        if digest.get_char(i) != '0' {
            return false;
        }
        i += 1;
    }
    true
}

} // verus!
