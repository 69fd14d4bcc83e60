//! Content fingerprints: the cache key under which the embedding of a text
//! is kept.

use sha2::Digest;
use vstd::prelude::*;
use vstd::string::*;

verus! {

/// The SHA-256 digest of a byte string.
pub uninterp spec fn sha256_digest(data: Seq<u8>) -> Seq<u8>;

/// The lowercase hexadecimal digit of a value below sixteen.
pub open spec fn hex_digit(n: u8) -> char {
    if n < 10 {
        (48 + n) as u8 as char
    } else {
        (87 + n) as u8 as char
    }
}

/// Two lowercase hexadecimal digits for each byte, high digit first.
pub open spec fn hex_of(bytes: Seq<u8>) -> Seq<char>
    decreases bytes.len(),
{
    if bytes.len() == 0 {
        Seq::empty()
    } else {
        hex_of(bytes.drop_last()) + seq![
            hex_digit(bytes.last() / 16),
            hex_digit(bytes.last() % 16),
        ]
    }
}

/// The cache key of `text`: the prefix `embed:` and the hexadecimal SHA-256
/// digest of the text's UTF-8 bytes.
pub open spec fn cache_key_of(text: Seq<char>) -> Seq<char> {
    "embed:"@ + hex_of(sha256_digest(vstd::utf8::encode_utf8(text)))
}

/// Calls `sha2::Sha256::digest` on `data`. The contract names the digest and
/// states its length, 32 bytes; nothing else is claimed of it.
#[verifier::external_body]
fn sha256(data: &[u8]) -> (digest: Vec<u8>)
    ensures
        digest@ == sha256_digest(data@),
        digest@.len() == 32,
{
    sha2::Sha256::digest(data).to_vec()
}

/// Calls `hex::encode` on `bytes`: every byte becomes two lowercase
/// hexadecimal digits, the high four bits first.
#[verifier::external_body]
fn hex_encode(bytes: &Vec<u8>) -> (digits: String)
    ensures
        digits@ == hex_of(bytes@),
{
    hex::encode(bytes)
}

/// Two digits for every byte.
pub proof fn lemma_hex_len(bytes: Seq<u8>)
    ensures
        hex_of(bytes).len() == 2 * bytes.len(),
    decreases bytes.len(),
{
    if bytes.len() > 0 {
        lemma_hex_len(bytes.drop_last());
    }
}

/// The cache key for a text with the given digest: the prefix `embed:` and
/// the digest in hexadecimal.
pub fn key_of_digest(digest: &Vec<u8>) -> (key: String)
    ensures
        key@ == "embed:"@ + hex_of(digest@),
        key@.len() == 6 + 2 * digest@.len(),
{
    let digits = hex_encode(digest);
    let mut key = String::from_str("embed:");
    key.append(digits.as_str());
    proof {
        reveal_strlit("embed:");
        lemma_hex_len(digest@);
    }
    key
}

/// The key under which the embedding of `text` is cached. Equal texts have
/// equal keys; a key is `embed:` followed by 64 hexadecimal digits.
pub fn cache_key(text: &str) -> (key: String)
    ensures
        key@ == cache_key_of(text@),
        key@.len() == 70,
{
    let digest = sha256(text.as_bytes());
    key_of_digest(&digest)
}

} // verus!
