use via::security::{
    decrypt_string, encrypt_string, encrypt_with_nonce, ensure_mesh_key, install_mesh_key,
    mesh_key_if_present, nonce, nonce_from, read_mesh_key, sign, verify,
};

#[test]
fn hmac_signatures_verify() {
    let key = vec![7u8; 32];
    let payload = b"payload".to_vec();
    let sig = sign(&key, &payload).unwrap();
    verify(&key, &payload, &sig).unwrap();
    assert!(verify(&key, &b"other".to_vec(), &sig).is_err());
}

#[test]
fn signatures_are_hmac_sha256_in_base64() {
    let key = b"key".to_vec();
    let payload = b"The quick brown fox jumps over the lazy dog".to_vec();
    assert_eq!(
        sign(&key, &payload).unwrap(),
        "97yD9DBThCSxMpjmqm+xQ+9NWaFJRhdZl0edvC0aPNg="
    );
    assert_eq!(
        verify(&key, &payload, "AAAA"),
        Err("invalid RPC signature".to_string())
    );
    assert!(verify(&key, &payload, "not base64!").is_err());
}

#[test]
fn secrets_round_trip_encrypted() {
    let key = vec![3u8; 32];
    let encrypted = encrypt_string(&key, "secret-value").unwrap();
    assert!(!encrypted.contains("secret-value"));
    assert_eq!(decrypt_string(&key, &encrypted).unwrap(), "secret-value");
}

#[test]
fn encrypted_secrets_reject_wrong_keys_and_tampering() {
    let key = vec![3u8; 32];
    let wrong_key = vec![4u8; 32];
    let encrypted = encrypt_string(&key, "secret-value").unwrap();
    assert!(decrypt_string(&wrong_key, &encrypted).is_err());

    let mut tampered = encrypted.into_bytes();
    let last = tampered.len() - 1;
    tampered[last] = if tampered[last] == b'A' { b'B' } else { b'A' };
    let tampered = String::from_utf8(tampered).unwrap();
    assert!(decrypt_string(&key, &tampered).is_err());
}

#[test]
fn sealing_is_aes_256_gcm() {
    let key = vec![0u8; 32];
    let text = "\0".repeat(16);
    let sealed = encrypt_with_nonce(&key, &vec![0u8; 12], &text).unwrap();
    assert_eq!(
        sealed,
        "AAAAAAAAAAAAAAAAzqdAPU1ga24HTsXTuvOdGNDRyKeZmWvwJluYtdSKuRk="
    );
    assert_eq!(decrypt_string(&key, &sealed).unwrap(), text);
}

#[test]
fn bad_keys_and_texts_are_refused() {
    assert_eq!(
        encrypt_string(&vec![1u8; 31], "x"),
        Err("Invalid Length".to_string())
    );
    assert_eq!(
        decrypt_string(&vec![1u8; 32], "AAAA"),
        Err("encrypted secret is too short".to_string())
    );
    let sealed = encrypt_string(&vec![1u8; 32], "x").unwrap();
    assert_eq!(
        decrypt_string(&vec![1u8; 31], &sealed),
        Err("Invalid Length".to_string())
    );
    assert_eq!(
        decrypt_string(&vec![2u8; 32], &sealed),
        Err("secret decryption failed".to_string())
    );
}

#[test]
fn new_keys_are_read_back_from_their_file() {
    let made = ensure_mesh_key(None).unwrap();
    assert_eq!(made.key.len(), 32);
    let file = made.file.unwrap();
    assert_eq!(read_mesh_key(&format!("{file}\n")).unwrap(), made.key);
    let kept = ensure_mesh_key(Some(&file)).unwrap();
    assert_eq!(kept.key, made.key);
    assert!(kept.file.is_none());
}

#[test]
fn installed_keys_must_match() {
    let made = ensure_mesh_key(None).unwrap();
    let file = made.file.unwrap();
    let taken = install_mesh_key(None, &format!(" {file}\n")).unwrap();
    assert_eq!(taken.key, made.key);
    assert_eq!(taken.file.as_deref(), Some(file.as_str()));
    assert!(install_mesh_key(Some(&file), &file).unwrap().file.is_none());
    let other = ensure_mesh_key(None).unwrap().file.unwrap();
    assert_eq!(
        install_mesh_key(Some(&other), &file).unwrap_err(),
        "Via mesh key already exists and does not match invite"
    );
    assert!(read_mesh_key("AAAA").is_err());
    assert!(mesh_key_if_present(None).unwrap().is_none());
    assert_eq!(mesh_key_if_present(Some(&file)).unwrap().unwrap(), made.key);
}

#[test]
fn nonces_differ() {
    let a = nonce().unwrap();
    let b = nonce().unwrap();
    assert_eq!(a.len(), 24);
    assert_ne!(a, b);
    assert!(!a.contains('\n'));
}

#[test]
fn a_key_that_was_made_stays() {
    let first = ensure_mesh_key(None).unwrap();
    let again = ensure_mesh_key(first.file.as_deref()).unwrap();
    assert_eq!(again.key, first.key);
    assert!(again.file.is_none());
    assert_eq!(read_mesh_key(first.file.as_deref().unwrap()).unwrap(), first.key);
}

#[test]
fn nonces_are_the_drawn_bytes_in_base64() {
    assert_eq!(nonce_from(Ok(vec![0u8; 16])).unwrap(), "AAAAAAAAAAAAAAAAAAAAAA==");
    assert_eq!(nonce_from(Err("no bytes".to_string())).unwrap_err(), "no bytes");
}

#[test]
fn signatures_and_secrets_are_bound_to_their_key() {
    let (key, other) = (vec![1u8; 32], vec![2u8; 32]);
    let sig = sign(&key, &b"payload".to_vec()).unwrap();
    assert!(verify(&other, &b"payload".to_vec(), &sig).is_err());
    let secret = encrypt_string(&key, "value").unwrap();
    assert_eq!(
        decrypt_string(&other, &secret),
        Err("secret decryption failed".to_string())
    );
}
