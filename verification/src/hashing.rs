//! SHA-256 and HMAC-SHA-256 digests and their lowercase hexadecimal
//! rendering.  The digests come from the `sha2` and `hmac` crates; their
//! results are named here and believed, not computed, by the verifier.

use hmac::{Hmac, Mac};
use sha2::{Digest, Sha256};
use vstd::prelude::*;

verus! {

/// The 32-byte SHA-256 digest of `data`.
pub uninterp spec fn sha256_digest(data: Seq<u8>) -> Seq<u8>;

/// The 32-byte HMAC-SHA-256 tag of `message` under `key`.
pub uninterp spec fn hmac_sha256_tag(key: Seq<u8>, message: Seq<u8>) -> Seq<u8>;

/// Trusted: `sha2::Sha256::digest`.  The contract names the result and
/// states its length: SHA-256 produces 32 bytes.
#[verifier::external_body]
pub(crate) fn sha256_bytes(data: &[u8]) -> (digest: Vec<u8>)
    ensures
        digest@ == sha256_digest(data@),
        digest@.len() == 32,
{
    Sha256::digest(data).to_vec()
}

/// Trusted: `hmac::Hmac::<Sha256>` keyed with `key`, updated with
/// `message` and finalized.  The contract names the tag and states its
/// length of 32 bytes.  `Hmac::new_from_slice` accepts keys of every
/// length, so the `expect` never fires.
#[verifier::external_body]
pub(crate) fn hmac_sha256_bytes(key: &[u8], message: &[u8]) -> (tag: Vec<u8>)
    ensures
        tag@ == hmac_sha256_tag(key@, message@),
        tag@.len() == 32,
{
    let mut mac = <Hmac<Sha256> as Mac>::new_from_slice(key).expect("HMAC accepts keys of any size");
    mac.update(message);
    mac.finalize().into_bytes().to_vec()
}

/// The lowercase hexadecimal digit for `v` (for `0 <= v < 16`).
pub open spec fn hex_digit(v: int) -> char {
    if v < 10 {
        (48 + v) as char
    } else {
        (87 + v) as char
    }
}

/// Each byte as two lowercase hexadecimal digits, high nibble first.
pub open spec fn lower_hex(bytes: Seq<u8>) -> Seq<char>
    decreases bytes.len(),
{
    if bytes.len() == 0 {
        Seq::empty()
    } else {
        let b = bytes[bytes.len() - 1];
        lower_hex(bytes.drop_last()) + seq![hex_digit((b / 16) as int), hex_digit((b % 16) as int)]
    }
}

/// The lowercase hexadecimal rendering of the SHA-256 digest of `data`.
pub open spec fn sha256_hex(data: Seq<u8>) -> Seq<char> {
    lower_hex(sha256_digest(data))
}

/// The lowercase hexadecimal rendering of the HMAC-SHA-256 tag.
pub open spec fn hmac_sha256_hex(key: Seq<u8>, message: Seq<u8>) -> Seq<char> {
    lower_hex(hmac_sha256_tag(key, message))
}

/// The rendering is two characters per byte.
pub proof fn lemma_lower_hex_len(bytes: Seq<u8>)
    ensures
        lower_hex(bytes).len() == 2 * bytes.len(),
    decreases bytes.len(),
{
    if bytes.len() > 0 {
        lemma_lower_hex_len(bytes.drop_last());
    }
}

fn hex_char(v: u8) -> (c: char)
    requires
        v < 16,
    ensures
        c == hex_digit(v as int),
{
    if v < 10 {
        (v + 48u8) as char
    } else {
        (v + 87u8) as char
    }
}

/// The lowercase hexadecimal rendering of `bytes`.
pub fn to_lower_hex(bytes: &[u8]) -> (text: String)
    ensures
        text@ == lower_hex(bytes@),
{
    let mut text = String::new();
    let mut i: usize = 0;
    while i < bytes.len()
        invariant
            0 <= i <= bytes@.len(),
            text@ == lower_hex(bytes@.subrange(0, i as int)),
        decreases bytes@.len() - i,
    {
        let b = bytes[i];
        let ghost before = text@;
        crate::text::push_char(&mut text, hex_char(b / 16));
        crate::text::push_char(&mut text, hex_char(b % 16));
        proof {
            let next = bytes@.subrange(0, i + 1);
            assert(next.drop_last() =~= bytes@.subrange(0, i as int));
            assert(text@ =~= lower_hex(next));
        }
        i = i + 1;
    }
    assert(bytes@.subrange(0, bytes@.len() as int) =~= bytes@);
    text
}

/// The SHA-256 digest of `data` in lowercase hexadecimal (64 digits).
pub fn sha256_hex_digest(data: &[u8]) -> (digest: String)
    ensures
        digest@ == sha256_hex(data@),
        digest@.len() == 64,
{
    let raw = sha256_bytes(data);
    proof {
        lemma_lower_hex_len(raw@);
    }
    to_lower_hex(raw.as_slice())
}

/// The HMAC-SHA-256 tag of `message` under `key` in lowercase hexadecimal
/// (64 digits).
pub fn hmac_sha256_hex_digest(key: &[u8], message: &[u8]) -> (tag: String)
    ensures
        tag@ == hmac_sha256_hex(key@, message@),
        tag@.len() == 64,
{
    let raw = hmac_sha256_bytes(key, message);
    proof {
        lemma_lower_hex_len(raw@);
    }
    to_lower_hex(raw.as_slice())
}

} // verus!
