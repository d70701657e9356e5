//! The mesh key and what is done with it: signing, checking signatures, and
//! keeping text secret.

pub use crate::clock::now_ms;

use crate::crypto;
use crate::crypto::{mac_accepts, mac_tag, open, random_bytes, seal, LONGEST_PLAINTEXT};
use crate::encoding;
use crate::encoding::{standard_decode, standard_encode, utf8_text};
use crate::text;
use crate::text::trim;
use vstd::prelude::*;
use vstd::utf8;

verus! {

/// A mesh key, and the text to write to its file if the file has to be made.
#[derive(Debug)]
pub struct InstalledKey {
    pub key: Vec<u8>,
    pub file: Option<String>,
}

/// The key that the text of a key file stands for, or what is said of the text.
pub open spec fn key_outcome(encoded: Seq<char>) -> Result<Seq<u8>, Seq<char>> {
    match encoding::standard_decoded(text::trimmed(encoded)) {
        Err(e) => Err(e),
        Ok(key) => if key.len() == 32 {
            Ok(key)
        } else {
            Err("invalid Via mesh key length"@)
        },
    }
}

/// Whether two keys are the same.
fn same_bytes(a: &Vec<u8>, b: &Vec<u8>) -> (r: bool)
    ensures
        r == (a@ == b@),
{
    if a.len() != b.len() {
        return false;
    }
    let mut i: usize = 0;
    while i < a.len()
        invariant
            i <= a.len(),
            a.len() == b.len(),
            forall|j: int| 0 <= j < i ==> #[trigger] a@[j] == b@[j],
        decreases a.len() - i,
    {
        if a[i] != b[i] {
            return false;
        }
        i += 1;
    }
    proof {
        assert(a@ == b@);
    }
    true
}

/// The key in the text of a key file, once its base64 was read.
pub fn checked_key(decoded: Result<Vec<u8>, String>) -> (r: Result<Vec<u8>, String>)
    ensures
        text::bytes_outcome(r) == (match text::bytes_outcome(decoded) {
            Err(e) => Err::<Seq<u8>, Seq<char>>(e),
            Ok(key) => if key.len() == 32 {
                Ok(key)
            } else {
                Err("invalid Via mesh key length"@)
            },
        }),
{
    match decoded {
        Err(e) => Err(e),
        Ok(key) => if key.len() == 32 {
            Ok(key)
        } else {
            Err("invalid Via mesh key length".to_owned())
        },
    }
}

/// The key that the text of a key file stands for.
pub fn read_mesh_key(encoded: &str) -> (r: Result<Vec<u8>, String>)
    ensures
        text::bytes_outcome(r) == key_outcome(encoded@),
{
    checked_key(standard_decode(trim(encoded)))
}

/// The key in the key file, if there is one. `file` is the text of the file.
pub fn mesh_key_if_present(file: Option<&str>) -> (r: Result<Option<Vec<u8>>, String>)
    ensures
        match (file, r) {
            (None, Ok(None)) => true,
            (Some(f), Ok(Some(key))) => key_outcome(f@) == Ok::<Seq<u8>, Seq<char>>(key@),
            (Some(f), Err(e)) => key_outcome(f@) == Err::<Seq<u8>, Seq<char>>(e@),
            _ => false,
        },
{
    match file {
        Some(f) => match read_mesh_key(f) {
            Ok(key) => Ok(Some(key)),
            Err(e) => Err(e),
        },
        None => Ok(None),
    }
}

/// A key and the file that holds it. From the file the key is read back.
pub fn new_key(key: Vec<u8>) -> (r: InstalledKey)
    ensures
        r.key@ == key@,
        r.file matches Some(f) && f@ == encoding::standard_encoded(key@) && key_outcome(f@) == (
        if key@.len() == 32 {
            Ok::<Seq<u8>, Seq<char>>(key@)
        } else {
            Err("invalid Via mesh key length"@)
        }),
{
    let file = standard_encode(&key);
    proof {
        encoding::lemma_trimmed_standard(file@);
    }
    InstalledKey { key, file: Some(file) }
}

/// That `r` is the node's key: the one in the key file, with nothing to write, or a new
/// one that is read back from what is to be written.
pub open spec fn is_ensured(file: Option<Seq<char>>, r: Result<InstalledKey, String>) -> bool {
    match file {
        Some(f) => match r {
            Ok(k) => key_outcome(f) == Ok::<Seq<u8>, Seq<char>>(k.key@) && k.file is None,
            Err(e) => key_outcome(f) == Err::<Seq<u8>, Seq<char>>(e@),
        },
        None => r matches Ok(k) ==> k.key@.len() == 32 && k.file is Some && k.file->Some_0@
            == encoding::standard_encoded(k.key@) && key_outcome(k.file->Some_0@) == Ok::<
            Seq<u8>,
            Seq<char>,
        >(k.key@),
    }
}

/// The node's key: the one in the key file, or a new one. `file` is the text of the
/// file, if there is one. A new key is random, and is read back from its file.
pub fn ensure_mesh_key(file: Option<&str>) -> (r: Result<InstalledKey, String>)
    ensures
        is_ensured(text::opt_str(file), r),
{
    match file {
        Some(f) => match read_mesh_key(f) {
            Ok(key) => Ok(InstalledKey { key, file: None }),
            Err(e) => Err(e),
        },
        None => match random_bytes(32) {
            Ok(key) => Ok(new_key(key)),
            Err(e) => Err(e),
        },
    }
}

/// What comes of taking over the key of an invite, where `file` is the text of the
/// key file.
pub open spec fn install_outcome(file: Option<Seq<char>>, encoded: Seq<char>) -> Result<
    (Seq<u8>, Option<Seq<char>>),
    Seq<char>,
> {
    match key_outcome(encoded) {
        Err(e) => Err(e),
        Ok(key) => match file {
            None => Ok((key, Some(text::trimmed(encoded)))),
            Some(f) => match key_outcome(f) {
                Err(e) => Err(e),
                Ok(known) => if known == key {
                    Ok((known, None))
                } else {
                    Err("Via mesh key already exists and does not match invite"@)
                },
            },
        },
    }
}

/// Takes over the key of an invite. A node that has a key keeps it, and refuses
/// another one.
pub fn install_mesh_key(file: Option<&str>, encoded: &str) -> (r: Result<InstalledKey, String>)
    ensures
        match r {
            Ok(k) => install_outcome(text::opt_str(file), encoded@) == Ok::<
                (Seq<u8>, Option<Seq<char>>),
                Seq<char>,
            >((k.key@, text::opt_text(k.file))),
            Err(e) => install_outcome(text::opt_str(file), encoded@) == Err::<
                (Seq<u8>, Option<Seq<char>>),
                Seq<char>,
            >(e@),
        },
{
    match read_mesh_key(encoded) {
        Err(e) => Err(e),
        Ok(key) => match file {
            None => Ok(InstalledKey { key, file: Some(trim(encoded).to_owned()) }),
            Some(f) => match read_mesh_key(f) {
                Err(e) => Err(e),
                Ok(known) => if same_bytes(&known, &key) {
                    Ok(InstalledKey { key: known, file: None })
                } else {
                    Err("Via mesh key already exists and does not match invite".to_owned())
                },
            },
        },
    }
}

/// A key that was taken over is read back from the file that was written for it,
/// and can be taken over again.
pub proof fn law_installed_key_is_read_back(encoded: Seq<char>)
    requires
        install_outcome(None, encoded) is Ok,
    ensures
        ({
            let key = install_outcome(None, encoded)->Ok_0.0;
            let file = install_outcome(None, encoded)->Ok_0.1->Some_0;
            &&& key_outcome(file) == Ok::<Seq<u8>, Seq<char>>(key)
            &&& install_outcome(Some(file), encoded) == Ok::<
                (Seq<u8>, Option<Seq<char>>),
                Seq<char>,
            >((key, None))
        }),
{
    text::lemma_trimmed_idempotent(encoded);
}

/// A key that was made is given back each time it is asked for again, and its file
/// stays as it was written.
pub proof fn law_ensured_key_stays(
    first: Result<InstalledKey, String>,
    again: Result<InstalledKey, String>,
)
    requires
        is_ensured(None, first),
        first is Ok,
        is_ensured(text::opt_text(first->Ok_0.file), again),
    ensures
        first->Ok_0.key@.len() == 32,
        key_outcome(first->Ok_0.file->Some_0@) == Ok::<Seq<u8>, Seq<char>>(first->Ok_0.key@),
        again is Ok,
        again->Ok_0.key@ == first->Ok_0.key@,
        again->Ok_0.file is None,
{
}

/// A nonce made of these bytes.
pub fn nonce_of(bytes: &Vec<u8>) -> (r: String)
    ensures
        r@ == encoding::standard_encoded(bytes@),
        !r@.contains('\n'),
{
    let r = standard_encode(bytes);
    proof {
        assert(!r@.contains('\n')) by {
            if r@.contains('\n') {
                let i = choose|i: int| 0 <= i < r@.len() && r@[i] == '\n';
                assert(encoding::is_standard_char(r@[i]));
            }
        }
    }
    r
}

/// Whether a text is some sixteen bytes in base64.
pub open spec fn is_nonce(n: Seq<char>) -> bool {
    exists|bytes: Seq<u8>| bytes.len() == 16 && n == #[trigger] encoding::standard_encoded(bytes)
}

/// The nonce of the bytes that were drawn, or why none were.
pub fn nonce_from(drawn: Result<Vec<u8>, String>) -> (r: Result<String, String>)
    ensures
        match drawn {
            Ok(bytes) => r matches Ok(n) && n@ == encoding::standard_encoded(bytes@)
                && !n@.contains('\n'),
            Err(e) => r is Err && r->Err_0@ == e@,
        },
{
    match drawn {
        Ok(bytes) => Ok(nonce_of(&bytes)),
        Err(e) => Err(e),
    }
}

/// A fresh nonce: sixteen random bytes in base64. Which bytes come, and whether the
/// system has any to give, is left open.
pub fn nonce() -> (r: Result<String, String>)
    ensures
        r matches Ok(n) ==> is_nonce(n@) && !n@.contains('\n'),
{
    nonce_from(random_bytes(16))
}

/// The signature of `payload` under `key`.
pub open spec fn signature(key: Seq<u8>, payload: Seq<u8>) -> Seq<char> {
    encoding::standard_encoded(crypto::hmac_sha256(key, payload))
}

/// What comes of checking a signature.
pub open spec fn verify_outcome(key: Seq<u8>, payload: Seq<u8>, sig: Seq<char>) -> Result<
    (),
    Seq<char>,
> {
    match encoding::standard_decoded(sig) {
        Err(e) => Err(e),
        Ok(tag) => if tag == crypto::hmac_sha256(key, payload) {
            Ok(())
        } else {
            Err("invalid RPC signature"@)
        },
    }
}

/// Signs `payload`. The signature is accepted for the same key and payload.
pub fn sign(key: &Vec<u8>, payload: &Vec<u8>) -> (r: Result<String, String>)
    ensures
        r matches Ok(s) && s@ == signature(key@, payload@) && verify_outcome(
            key@,
            payload@,
            s@,
        ) is Ok,
{
    let tag = mac_tag(key, payload);
    Ok(standard_encode(&tag))
}

/// Checks a signature.
pub fn verify(key: &Vec<u8>, payload: &Vec<u8>, signature: &str) -> (r: Result<(), String>)
    ensures
        text::unit_outcome(r) == verify_outcome(key@, payload@, signature@),
{
    match standard_decode(signature) {
        Err(e) => Err(e),
        Ok(tag) => if mac_accepts(key, payload, &tag) {
            Ok(())
        } else {
            Err("invalid RPC signature".to_owned())
        },
    }
}

/// A signature that is good for a payload under a key is good for another payload, or
/// under another key, exactly where the HMAC is the same.
pub proof fn law_signatures_tell_payloads_by_their_hmac(
    key: Seq<u8>,
    payload: Seq<u8>,
    other_key: Seq<u8>,
    other: Seq<u8>,
    sig: Seq<char>,
)
    requires
        verify_outcome(key, payload, sig) is Ok,
    ensures
        verify_outcome(other_key, other, sig) is Ok <==> crypto::hmac_sha256(other_key, other)
            == crypto::hmac_sha256(key, payload),
{
}

/// What comes of encrypting `plaintext` with a nonce.
pub open spec fn encrypt_outcome(key: Seq<u8>, nonce: Seq<u8>, plaintext: Seq<char>) -> Result<
    Seq<char>,
    Seq<char>,
> {
    if key.len() != 32 {
        Err("Invalid Length"@)
    } else if utf8::encode_utf8(plaintext).len() > LONGEST_PLAINTEXT {
        Err("secret encryption failed"@)
    } else {
        Ok(
            encoding::standard_encoded(
                nonce + crypto::gcm_sealed(key, nonce, utf8::encode_utf8(plaintext)),
            ),
        )
    }
}

/// What comes of decrypting a text.
pub open spec fn decrypt_outcome(key: Seq<u8>, encoded: Seq<char>) -> Result<
    Seq<char>,
    Seq<char>,
> {
    match encoding::standard_decoded(encoded) {
        Err(e) => Err(e),
        Ok(data) => opened_outcome(key, data),
    }
}

/// What comes of decrypting bytes: a nonce and what was encrypted with it.
pub open spec fn opened_outcome(key: Seq<u8>, data: Seq<u8>) -> Result<Seq<char>, Seq<char>> {
    if data.len() < 13 {
        Err("encrypted secret is too short"@)
    } else if key.len() != 32 {
        Err("Invalid Length"@)
    } else {
        match crypto::gcm_opened(key, data.take(12), data.skip(12)) {
            Some(p) => encoding::text_in(p),
            None => Err("secret decryption failed"@),
        }
    }
}

/// Encrypts `plaintext` with a nonce of twelve bytes. With the same key it is
/// decrypted again.
pub fn encrypt_with_nonce(key: &Vec<u8>, nonce: &Vec<u8>, plaintext: &str) -> (r: Result<
    String,
    String,
>)
    requires
        nonce@.len() == 12,
    ensures
        text::text_outcome(r) == encrypt_outcome(key@, nonce@, plaintext@),
        r matches Ok(s) ==> decrypt_outcome(key@, s@) == Ok::<Seq<char>, Seq<char>>(plaintext@),
{
    if key.len() != 32 {
        return Err("Invalid Length".to_owned());
    }
    match seal(key, nonce, plaintext.as_bytes()) {
        None => Err("secret encryption failed".to_owned()),
        Some(sealed) => {
            let mut out: Vec<u8> = nonce.clone();
            let mut sealed = sealed;
            let ghost body = sealed@;
            out.append(&mut sealed);
            proof {
                assert(nonce@ =~= out@.take(12));
                assert(out@.skip(12) =~= body);
                encoding::lemma_text_round_trip(plaintext@);
            }
            Ok(standard_encode(&out))
        },
    }
}

/// Encrypts `plaintext` with a fresh nonce. With the same key it is decrypted
/// again. A key of the wrong length and a text that is too long are refused; else
/// only the want of random bytes makes it fail.
pub fn encrypt_string(key: &Vec<u8>, plaintext: &str) -> (r: Result<String, String>)
    ensures
        r matches Ok(s) ==> decrypt_outcome(key@, s@) == Ok::<Seq<char>, Seq<char>>(plaintext@)
            && exists|nonce: Seq<u8>|
            nonce.len() == 12 && #[trigger] encrypt_outcome(key@, nonce, plaintext@) == Ok::<
                Seq<char>,
                Seq<char>,
            >(s@),
        key@.len() != 32 ==> r is Err && r->Err_0@ == "Invalid Length"@,
        utf8::encode_utf8(plaintext@).len() > LONGEST_PLAINTEXT ==> r is Err,
{
    if key.len() != 32 {
        return Err("Invalid Length".to_owned());
    }
    match random_bytes(12) {
        Err(e) => Err(e),
        Ok(nonce) => encrypt_with_nonce(key, &nonce, plaintext),
    }
}

/// Decrypts bytes: a nonce and what was encrypted with it.
pub fn open_sealed(key: &Vec<u8>, data: Vec<u8>) -> (r: Result<String, String>)
    ensures
        text::text_outcome(r) == opened_outcome(key@, data@),
{
    if data.len() < 13 {
        return Err("encrypted secret is too short".to_owned());
    }
    if key.len() != 32 {
        return Err("Invalid Length".to_owned());
    }
    let mut nonce = data;
    let ghost all = nonce@;
    let sealed = nonce.split_off(12);
    proof {
        assert(nonce@ =~= all.take(12));
        assert(sealed@ =~= all.skip(12));
    }
    match open(key, &nonce, &sealed) {
        Some(plaintext) => utf8_text(plaintext),
        None => Err("secret decryption failed".to_owned()),
    }
}

/// Decrypts a text.
pub fn decrypt_string(key: &Vec<u8>, encoded: &str) -> (r: Result<String, String>)
    ensures
        text::text_outcome(r) == decrypt_outcome(key@, encoded@),
{
    match standard_decode(encoded) {
        Err(e) => Err(e),
        Ok(data) => open_sealed(key, data),
    }
}

/// A secret is refused unless it is base64 of a nonce and of what AES-256-GCM opens
/// under this very key and nonce: a secret that was altered, or that another key
/// sealed, is read only where the cipher accepts its tag.
pub proof fn law_secrets_are_read_only_where_they_open(key: Seq<u8>, encoded: Seq<char>)
    ensures
        decrypt_outcome(key, encoded) is Ok ==> ({
            let data = encoding::standard_decoded(encoded)->Ok_0;
            &&& encoding::standard_decoded(encoded) is Ok
            &&& key.len() == 32
            &&& data.len() >= 13
            &&& crypto::gcm_opened(key, data.take(12), data.skip(12)) is Some
            &&& encoding::text_in(
                crypto::gcm_opened(key, data.take(12), data.skip(12))->Some_0,
            ) == decrypt_outcome(key, encoded)
        }),
{
}

} // verus!
