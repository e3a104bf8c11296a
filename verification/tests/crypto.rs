use cli_tool::crypto::{
    decrypt_payload, derive_encryption_key, encrypt_payload, generate_hash, password_from_draws,
};

const KEY: [u8; 32] = [7u8; 32];
const NONCE: [u8; 24] = [9u8; 24];

#[test]
fn decrypt_gives_back_what_encrypt_sealed() {
    let plaintext = b"a file's worth of bytes".to_vec();
    let sealed = encrypt_payload(&KEY, &NONCE, &plaintext).unwrap();
    assert_eq!(sealed.len(), plaintext.len() + 16);
    assert_ne!(&sealed[..plaintext.len()], &plaintext[..]);
    let opened = decrypt_payload(&KEY, &NONCE, &sealed).unwrap();
    assert_eq!(opened, plaintext);
}

#[test]
fn empty_message_round_trips() {
    let sealed = encrypt_payload(&KEY, &NONCE, &[]).unwrap();
    assert_eq!(sealed.len(), 16);
    assert_eq!(decrypt_payload(&KEY, &NONCE, &sealed).unwrap(), Vec::<u8>::new());
}

#[test]
fn tampered_ciphertext_is_refused() {
    let mut sealed = encrypt_payload(&KEY, &NONCE, b"hello").unwrap();
    sealed[0] ^= 1;
    assert_eq!(
        decrypt_payload(&KEY, &NONCE, &sealed),
        Err("Decryption failed or data corrupted: aead::Error".to_string())
    );
}

#[test]
fn altered_tag_is_refused() {
    let mut sealed = encrypt_payload(&KEY, &NONCE, b"hello").unwrap();
    let last = sealed.len() - 1;
    sealed[last] ^= 0x80;
    assert!(decrypt_payload(&KEY, &NONCE, &sealed).is_err());
}

#[test]
fn plaintext_is_tag_shorter() {
    let sealed = encrypt_payload(&KEY, &NONCE, &[5u8; 100]).unwrap();
    assert_eq!(decrypt_payload(&KEY, &NONCE, &sealed).unwrap().len() + 16, sealed.len());
}

#[test]
fn password_spells_the_draws() {
    assert_eq!(password_from_draws(b"aZ09xyQ"), "aZ09xyQ");
}

#[test]
fn wrong_key_or_nonce_is_refused() {
    let sealed = encrypt_payload(&KEY, &NONCE, b"hello").unwrap();
    assert!(decrypt_payload(&[8u8; 32], &NONCE, &sealed).is_err());
    assert!(decrypt_payload(&KEY, &[1u8; 24], &sealed).is_err());
}

#[test]
fn too_short_ciphertext_is_refused() {
    assert_eq!(
        decrypt_payload(&KEY, &NONCE, &[0u8; 15]),
        Err("Decryption failed or data corrupted: aead::Error".to_string())
    );
}

#[test]
fn key_derivation_is_deterministic_and_salted() {
    let salt = [1u8; 16];
    let a = derive_encryption_key("hunter2".to_string(), &salt);
    let b = derive_encryption_key("hunter2".to_string(), &salt);
    assert_eq!(a, b);
    assert_ne!(a, [0u8; 32]);
    assert_ne!(a, derive_encryption_key("hunter2".to_string(), &[2u8; 16]));
    assert_ne!(a, derive_encryption_key("hunter3".to_string(), &salt));
}

#[test]
fn transfer_password_is_seven_alphanumerics() {
    let h = generate_hash();
    assert_eq!(h.chars().count(), 7);
    assert!(h.chars().all(|c| c.is_ascii_alphanumeric()));
}
