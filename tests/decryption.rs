use aes::cipher::{BlockEncryptMut, KeyIvInit};
use ec::{decrypt_input, ClientError};

const KEY: &str = "0123456789abcdefghijklmnopqrstuv";

fn encrypt(plain: &str, key: &str) -> String {
    let k = key.as_bytes();
    let enc = cbc::Encryptor::<aes::Aes256>::new(k.into(), k[..16].into());
    hex::encode(enc.encrypt_padded_vec_mut::<block_padding::Pkcs7>(plain.as_bytes()))
}

fn is_decryption_error(r: &Result<String, ClientError>) -> bool {
    matches!(r, Err(ClientError::DecryptionError(_)))
}

#[test]
fn decryption_round_trip() {
    for plain in ["", "a", "Vyrdax,Drakzyph\n\nR3,L2", "exactly sixteen!", "ünïcödé text"] {
        let hex_text = encrypt(plain, KEY);
        assert_eq!(decrypt_input(&hex_text, KEY), Ok(plain.to_string()));
        assert_eq!(decrypt_input(&hex_text.to_uppercase(), KEY), Ok(plain.to_string()));
    }
}

#[test]
fn decryption_rejects_wrong_key_length() {
    let hex_text = encrypt("hello", KEY);
    let short = &KEY[..31];
    let r = decrypt_input(&hex_text, short);
    assert_eq!(r, Err(ClientError::DecryptionError("Key must be 32 bytes, got 31".to_string())));
    assert_eq!(decrypt_input(&hex_text, ""), Err(ClientError::DecryptionError("Key must be 32 bytes, got 0".to_string())));
    assert!(is_decryption_error(&decrypt_input(&hex_text, &format!("{KEY}x"))));
}

#[test]
fn decryption_rejects_partial_blocks() {
    assert!(is_decryption_error(&decrypt_input("00112233445566778899aabbccddee", KEY)));
    let hex_text = encrypt("hello", KEY);
    assert!(is_decryption_error(&decrypt_input(&hex_text[..hex_text.len() - 2], KEY)));
}

#[test]
fn decryption_rejects_empty_ciphertext() {
    assert_eq!(decrypt_input("", KEY), Err(ClientError::DecryptionError("Decryption failed".to_string())));
}

#[test]
fn decryption_rejects_bad_hex() {
    assert_eq!(decrypt_input("zz", KEY), Err(ClientError::DecryptionError("Invalid hex input".to_string())));
    assert!(is_decryption_error(&decrypt_input("abc", KEY)));
}

#[test]
fn decryption_with_wrong_key_fails_or_differs() {
    let hex_text = encrypt("some secret puzzle input", KEY);
    let other = "vutsrqponmlkjihgfedcba9876543210";
    assert_ne!(decrypt_input(&hex_text, other), Ok("some secret puzzle input".to_string()));
}

#[test]
fn decryption_rejects_non_utf8_plaintext() {
    let k = KEY.as_bytes();
    let enc = cbc::Encryptor::<aes::Aes256>::new(k.into(), k[..16].into());
    let hex_text = hex::encode(enc.encrypt_padded_vec_mut::<block_padding::Pkcs7>(&[0xff, 0xfe, 0x41]));
    assert_eq!(
        decrypt_input(&hex_text, KEY),
        Err(ClientError::DecryptionError("Decrypted input is not valid UTF-8".to_string()))
    );
}
