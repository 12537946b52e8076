//! The tokens that players authenticate with.
use super::random::random_seed;
use base64::Engine;
use base64::engine::general_purpose::URL_SAFE;
use sha2::{Digest, Sha256};
use vstd::prelude::*;
use vstd::string::*;

verus! {

/// The longest token that is handed out, in characters.
pub const TOKEN_LENGTH: usize = 100;

/// The SHA-256 digest of `data`.
pub uninterp spec fn sha256(data: Seq<u8>) -> Seq<u8>;

/// The base64 text of `data` in the URL-safe alphabet, with padding.
pub uninterp spec fn base64_url(data: Seq<u8>) -> Seq<char>;

/// `Sha256::digest` of the sha2 crate: the SHA-256 digest of `data`, as a
/// vector. The contract names the digest and claims its length, which the
/// crate fixes at 32 bytes.
#[verifier::external_body]
fn sha256_digest(data: &[u8]) -> (digest: Vec<u8>)
    ensures
        digest@ == sha256(data@),
        digest@.len() == 32,
{
    Sha256::digest(data).to_vec()
}

/// `Engine::encode` of the base64 crate on its `URL_SAFE` engine: the base64
/// text of `data`. The contract names the text. The call fails where the
/// length of the text does not fit `usize`, so such data is left out.
#[verifier::external_body]
fn base64_url_encode(data: &[u8]) -> (text: String)
    requires
        data@.len() / 3 * 4 + 4 <= usize::MAX,
    ensures
        text@ == base64_url(data@),
{
    URL_SAFE.encode(data)
}

/// The first `limit` characters of `text`, or all of it where it has no
/// more.
pub open spec fn truncated(text: Seq<char>, limit: nat) -> Seq<char> {
    if text.len() > limit {
        text.take(limit as int)
    } else {
        text
    }
}

/// The token that is made of `seed`: the base64 text of its SHA-256 digest,
/// cut to `TOKEN_LENGTH` characters.
pub open spec fn token_of(seed: Seq<u8>) -> Seq<char> {
    truncated(base64_url(sha256(seed)), TOKEN_LENGTH as nat)
}

/// Cuts `text` to its first `limit` characters.
pub fn truncate(text: String, limit: usize) -> (cut: String)
    ensures
        cut@ == truncated(text@, limit as nat),
{
    if text.as_str().unicode_len() > limit {
        text.as_str().substring_char(0, limit).to_owned()
    } else {
        text
    }
}

/// The token that is made of `seed`.
pub fn token_from_seed(seed: &[u8]) -> (token: String)
    ensures
        token@ == token_of(seed@),
{
    let digest = sha256_digest(seed);
    let text = base64_url_encode(digest.as_slice());
    truncate(text, TOKEN_LENGTH)
}

/// A token made of 32 bytes drawn at random.
pub fn generate_token() -> (token: String)
    ensures
        exists|seed: Seq<u8>| seed.len() == 32 && token@ == #[trigger] token_of(seed),
{
    let seed = random_seed();
    let token = token_from_seed(seed.as_slice());
    token
}

} // verus!
