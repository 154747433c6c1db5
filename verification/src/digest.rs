//! SHA-256 and HMAC-SHA256, computed by the `sha2` and `hmac` crates.

use hmac::{Hmac, Mac};
use sha2::{Digest, Sha256};
use vstd::prelude::*;
use vstd::utf8::{encode_scalar, encode_utf8};

verus! {

/// The SHA-256 digest of `bytes`, as `sha2` computes it.
pub uninterp spec fn sha256_digest(bytes: Seq<u8>) -> [u8; 32];

/// The HMAC-SHA256 authentication code of `message` under `key`, as `hmac`
/// computes it over `sha2`.
pub uninterp spec fn hmac_sha256_code(key: Seq<u8>, message: Seq<u8>) -> [u8; 32];

/// The longest message, in bytes, that can be authenticated: SHA-256 counts
/// the bits of its input in 64 bits, and the keyed hash puts one block of 64
/// bytes in front of the message.
pub const MAX_MESSAGE_LEN: u64 = 0x1FFF_FFFF_FFFF_FFBF;

/// Whether a message of `len` bytes can be authenticated.
pub open spec fn fits_message(len: nat) -> bool {
    len <= MAX_MESSAGE_LEN
}

/// Hashes `bytes` with `sha2::Sha256` (`new`, `input`, `result`). The
/// contract gives the digest its name and nothing else: the 32 bytes are
/// whatever the crate computes.
#[verifier::external_body]
pub(crate) fn sha256(bytes: &[u8]) -> (digest: [u8; 32])
    ensures
        digest == sha256_digest(bytes@),
{
    let mut hasher = Sha256::new();
    hasher.input(bytes);
    hasher.result().into()
}

/// Authenticates `message` under `key` with `hmac::Hmac<Sha256>`
/// (`new_varkey`, `input`, `result`, `code`). `new_varkey` takes a key of any
/// length; the bound on `message` keeps the hash's bit counter in range. The
/// contract gives the code its name and nothing else.
#[verifier::external_body]
pub(crate) fn hmac_sha256(key: &[u8], message: &[u8]) -> (code: [u8; 32])
    requires
        fits_message(message@.len()),
    ensures
        code == hmac_sha256_code(key@, message@),
{
    let mut mac = Hmac::<Sha256>::new_varkey(key).unwrap();
    mac.input(message);
    mac.result().code().into()
}

/// Text takes at most four bytes for each of its characters.
pub proof fn lemma_utf8_len(text: Seq<char>)
    ensures
        encode_utf8(text).len() <= 4 * text.len(),
    decreases text.len(),
{
    if text.len() > 0 {
        lemma_utf8_len(text.drop_first());
        assert(encode_scalar(text[0] as u32).len() <= 4);
    }
}

/// Text of up to a quarter of `MAX_MESSAGE_LEN` characters can be
/// authenticated, whatever its characters are.
pub proof fn lemma_text_fits(text: Seq<char>)
    requires
        4 * text.len() <= MAX_MESSAGE_LEN,
    ensures
        fits_message(encode_utf8(text).len()),
{
    lemma_utf8_len(text);
}

} // verus!
