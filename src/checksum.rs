use vstd::prelude::*;

verus! {

/// The SHA-256 digest of `data` in lower-case hex.
pub uninterp spec fn sha256_hex_of(data: Seq<u8>) -> Seq<char>;

/// Relies on sha2::Sha256::digest, printed with `{:x}`: the 32-byte digest of
/// `data` as 64 lower-case hex digits, a function of the bytes alone.
#[verifier::external_body]
fn sha256_hex(data: &[u8]) -> (r: String)
    ensures
        r@ == sha256_hex_of(data@),
        r@.len() == 64,
{
    format!("{:x}", <sha2::Sha256 as sha2::Digest>::digest(data))
}

/// Whether a hex digest is the expected one (compared exactly).
pub fn digest_matches(digest_hex: &str, expected_hash: &str) -> (r: bool)
    ensures
        r == (digest_hex@ == expected_hash@),
{
    let a = String::from_str(digest_hex);
    let b = String::from_str(expected_hash);
    a == b
}

/// Whether the SHA-256 digest of `data`, in lower-case hex, is `expected_hash`.
pub fn verify_checksum(data: &[u8], expected_hash: &str) -> (r: bool)
    ensures
        r == (sha256_hex_of(data@) == expected_hash@),
{
    let hash = sha256_hex(data);
    digest_matches(hash.as_str(), expected_hash)
}

} // verus!
