//! Cryptographic building blocks.

use aes_gcm::aead::Aead;
use aes_gcm::KeyInit;
use hmac::Mac;
use sha2::Digest;
use vstd::prelude::*;

verus! {

/// The longest text that AES-256-GCM encrypts in one go, in bytes.
pub const LONGEST_PLAINTEXT: u64 = 0x10_0000_0000;

/// The HMAC-SHA-256 tag of `payload` under `key`.
pub uninterp spec fn hmac_sha256(key: Seq<u8>, payload: Seq<u8>) -> Seq<u8>;

/// The SHA-256 digest of some bytes.
pub uninterp spec fn sha256(bytes: Seq<u8>) -> Seq<u8>;

/// What AES-256-GCM makes of a text: the encrypted text with its tag behind it.
pub uninterp spec fn gcm_sealed(key: Seq<u8>, nonce: Seq<u8>, plaintext: Seq<u8>) -> Seq<u8>;

/// What AES-256-GCM reads from an encrypted text with its tag behind it, if the tag
/// is right.
pub uninterp spec fn gcm_opened(key: Seq<u8>, nonce: Seq<u8>, sealed: Seq<u8>) -> Option<Seq<u8>>;

/// Whether `tag` is what Ed25519 verification accepts for `message` under the
/// public key `key`.
pub uninterp spec fn ed25519_accepts(key: Seq<u8>, message: Seq<u8>, tag: Seq<u8>) -> bool;

/// Calls `getrandom::getrandom`, which fills a buffer with random bytes from the
/// system. Which bytes come is left open. If the system gives none, the error is
/// turned into what it says.
#[verifier::external_body]
pub(crate) fn random_bytes(len: usize) -> (r: Result<Vec<u8>, String>)
    ensures
        r is Ok ==> r->Ok_0@.len() == len,
{
    let mut out = vec![0u8; len];
    getrandom::getrandom(&mut out).map_err(|error| error.to_string())?;
    Ok(out)
}

/// Computes a tag with `hmac::Hmac<sha2::Sha256>`, which takes a key of any length,
/// fed with all of `payload` and finished with `finalize`. A tag has 32 bytes.
#[verifier::external_body]
pub(crate) fn mac_tag(key: &Vec<u8>, payload: &Vec<u8>) -> (r: Vec<u8>)
    ensures
        r@ == hmac_sha256(key@, payload@),
        r@.len() == 32,
{
    let mut mac = <hmac::Hmac<sha2::Sha256> as Mac>::new_from_slice(key).expect("any key length");
    mac.update(payload);
    mac.finalize().into_bytes().to_vec()
}

/// Checks a tag with `verify_slice` of `hmac::Hmac<sha2::Sha256>`, fed with all of
/// `payload`. It accepts the whole tag that `finalize` gives and nothing else.
#[verifier::external_body]
pub(crate) fn mac_accepts(key: &Vec<u8>, payload: &Vec<u8>, tag: &Vec<u8>) -> (r: bool)
    ensures
        r == (tag@ == hmac_sha256(key@, payload@)),
{
    let mut mac = <hmac::Hmac<sha2::Sha256> as Mac>::new_from_slice(key).expect("any key length");
    mac.update(payload);
    mac.verify_slice(tag).is_ok()
}

/// Computes a digest with `sha2::Sha256`. A digest has 32 bytes.
#[verifier::external_body]
pub(crate) fn sha256_digest(bytes: &Vec<u8>) -> (r: Vec<u8>)
    ensures
        r@ == sha256(bytes@),
        r@.len() == 32,
{
    let mut hasher = sha2::Sha256::new();
    hasher.update(bytes);
    hasher.finalize().to_vec()
}

/// Calls `encrypt` of `aes_gcm::Aes256Gcm`, without associated data. It fails
/// exactly on a text that is too long; else the result is 16 bytes longer than the
/// text, and `decrypt` with the same key and nonce reads the text back from it.
#[verifier::external_body]
pub(crate) fn seal(key: &Vec<u8>, nonce: &Vec<u8>, plaintext: &[u8]) -> (r: Option<Vec<u8>>)
    requires
        key@.len() == 32,
        nonce@.len() == 12,
    ensures
        r is Some == (plaintext@.len() <= LONGEST_PLAINTEXT),
        r matches Some(c) ==> c@ == gcm_sealed(key@, nonce@, plaintext@) && c@.len()
            == plaintext@.len() + 16 && gcm_opened(key@, nonce@, c@) == Some(plaintext@),
{
    let cipher = aes_gcm::Aes256Gcm::new_from_slice(key).ok()?;
    let nonce = <[u8; 12]>::try_from(nonce.as_slice()).ok()?;
    cipher.encrypt(&nonce.into(), plaintext).ok()
}

/// Calls `decrypt` of `aes_gcm::Aes256Gcm`, without associated data.
#[verifier::external_body]
pub(crate) fn open(key: &Vec<u8>, nonce: &Vec<u8>, sealed: &Vec<u8>) -> (r: Option<Vec<u8>>)
    requires
        key@.len() == 32,
        nonce@.len() == 12,
    ensures
        match r {
            Some(p) => gcm_opened(key@, nonce@, sealed@) == Some(p@),
            None => gcm_opened(key@, nonce@, sealed@) is None,
        },
{
    let cipher = aes_gcm::Aes256Gcm::new_from_slice(key).ok()?;
    let nonce = <[u8; 12]>::try_from(nonce.as_slice()).ok()?;
    cipher.decrypt(&nonce.into(), sealed.as_slice()).ok()
}

/// Calls `verify` of `ring::signature::UnparsedPublicKey` with the algorithm
/// `ED25519`.
#[verifier::external_body]
pub(crate) fn signature_accepts(key: &Vec<u8>, message: &Vec<u8>, tag: &Vec<u8>) -> (r: bool)
    ensures
        r == ed25519_accepts(key@, message@, tag@),
{
    ring::signature::UnparsedPublicKey::new(&ring::signature::ED25519, key)
        .verify(message, tag)
        .is_ok()
}

} // verus!
