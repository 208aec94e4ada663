//! Decryption of the per-part puzzle inputs: hex, then AES-256-CBC with
//! PKCS#7 padding, where the key's first half doubles as the IV, then UTF-8.
use vstd::prelude::*;
use crate::error::ClientError;
use vstd::string::StringSliceAdditionalSpecFns;
use crate::text::{dec, dec_string};
use vstd::utf8::{decode_utf8, valid_utf8};
use aes::cipher::{BlockDecryptMut, KeyIvInit};

verus! {

/// The cipher's block size in bytes.
pub const BLOCK_SIZE: usize = 16;

/// The key length in bytes.
pub const KEY_SIZE: usize = 32;

/// The value of one hexadecimal digit (either case), given as an ASCII byte.
pub open spec fn hex_digit_val(b: u8) -> Option<u8> {
    if 48 <= b <= 57 {
        Some((b - 48) as u8)
    } else if 65 <= b <= 70 {
        Some((b - 55) as u8)
    } else if 97 <= b <= 102 {
        Some((b - 87) as u8)
    } else {
        None
    }
}

/// Hex decoding: an even number of hex digits, two per byte, high nibble first.
pub open spec fn hex_decode_spec(t: Seq<u8>) -> Option<Seq<u8>> {
    if t.len() % 2 == 0 && forall|i: int| 0 <= i < t.len() ==> (#[trigger] hex_digit_val(t[i])) is Some {
        Some(
            Seq::new(
                t.len() / 2,
                |i: int| (hex_digit_val(t[2 * i])->0 * 16 + hex_digit_val(t[2 * i + 1])->0) as u8,
            ),
        )
    } else {
        None
    }
}

/// The plaintext that AES-256-CBC decryption with PKCS#7 unpadding gives for
/// a key, an IV and a ciphertext, or `None` where the padding is malformed.
pub uninterp spec fn cbc_plaintext(key: Seq<u8>, iv: Seq<u8>, data: Seq<u8>) -> Option<Seq<u8>>;

/// Relies on `hex::decode`: decodes pairs of hex digits of either case, and
/// refuses an odd length or any other byte.
#[verifier::external_body]
fn hex_decode(t: &[u8]) -> (r: Option<Vec<u8>>)
    ensures
        r is Some <==> hex_decode_spec(t@) is Some,
        r is Some ==> r->0@ == hex_decode_spec(t@)->0,
{
    hex::decode(t).ok()
}

/// Relies on `cbc::Decryptor<aes::Aes256>` and `decrypt_padded_mut::<Pkcs7>`:
/// a function of key, IV and ciphertext; a ciphertext whose length is not a
/// multiple of the block size is refused, and so is an empty one, which has
/// no block to carry the padding.
#[verifier::external_body]
fn aes256_cbc_decrypt(key: &[u8], iv: &[u8], data: &[u8]) -> (r: Option<Vec<u8>>)
    requires
        key@.len() == 32,
        iv@.len() == 16,
    ensures
        r is Some <==> cbc_plaintext(key@, iv@, data@) is Some,
        r is Some ==> r->0@ == cbc_plaintext(key@, iv@, data@)->0,
        data@.len() % 16 != 0 ==> r is None,
        data@.len() == 0 ==> r is None,
{
    let mut buf = data.to_vec();
    cbc::Decryptor::<aes::Aes256>::new(key.into(), iv.into())
        .decrypt_padded_mut::<block_padding::Pkcs7>(&mut buf)
        .ok()
        .map(|p| p.to_vec())
}

/// Relies on `String::from_utf8`: accepts exactly the valid UTF-8 byte
/// strings, and decodes them.
#[verifier::external_body]
fn utf8_decode(b: Vec<u8>) -> (r: Option<String>)
    ensures
        r is Some <==> valid_utf8(b@),
        r is Some ==> r->0@ == decode_utf8(b@),
{
    String::from_utf8(b).ok()
}

/// The message for a key of the wrong length.
pub open spec fn key_length_message(len: nat) -> Seq<char> {
    "Key must be 32 bytes, got "@ + dec(len)
}

/// What decrypting gives: the plaintext, or the message of the first stage
/// that fails (hex, key length, decryption and unpadding, UTF-8).
pub open spec fn decrypt_result(hex_text: Seq<u8>, key: Seq<u8>) -> Result<Seq<char>, Seq<char>> {
    match hex_decode_spec(hex_text) {
        None => Err("Invalid hex input"@),
        Some(ct) => {
            if key.len() != 32 {
                Err(key_length_message(key.len()))
            } else {
                match cbc_plaintext(key, key.take(16), ct) {
                    None => Err("Decryption failed"@),
                    Some(p) => if valid_utf8(p) {
                        Ok(decode_utf8(p))
                    } else {
                        Err("Decrypted input is not valid UTF-8"@)
                    },
                }
            }
        },
    }
}

/// Decrypts a hex-encoded ciphertext with a 32-byte key whose first 16 bytes
/// serve as the IV. Every failure is a `DecryptionError` whose message names
/// the stage that failed.
pub fn decrypt_input(encrypted_hex: &str, key: &str) -> (r: Result<String, ClientError>)
    ensures
        match decrypt_result(encrypted_hex.spec_bytes(), key.spec_bytes()) {
            Ok(p) => r is Ok && r->Ok_0@ == p,
            Err(m) => r is Err && r->Err_0 is DecryptionError && r->Err_0.message() == m,
        },
        key.spec_bytes().len() != 32 ==> r is Err,
        hex_decode_spec(encrypted_hex.spec_bytes()) is Some
            && hex_decode_spec(encrypted_hex.spec_bytes())->0.len() % 16 != 0 ==> r is Err,
        hex_decode_spec(encrypted_hex.spec_bytes()) is Some
            && hex_decode_spec(encrypted_hex.spec_bytes())->0.len() == 0 ==> r is Err,
{
    let encrypted = match hex_decode(encrypted_hex.as_bytes()) {
        Some(b) => b,
        None => return Err(ClientError::DecryptionError(String::from_str("Invalid hex input"))),
    };
    let key_bytes = key.as_bytes();
    if key_bytes.len() != KEY_SIZE {
        let mut msg = String::from_str("Key must be 32 bytes, got ");
        let n = dec_string(key_bytes.len() as u64);
        msg.append(n.as_str());
        return Err(ClientError::DecryptionError(msg));
    }
    let mut iv: Vec<u8> = Vec::new();
    let mut i: usize = 0;
    while i < BLOCK_SIZE
        invariant
            i <= BLOCK_SIZE,
            key_bytes@.len() == 32,
            iv@ == key_bytes@.take(i as int),
        decreases BLOCK_SIZE - i,
    {
        iv.push(key_bytes[i]);
        i = i + 1;
        assert(iv@ =~= key_bytes@.take(i as int));
    }
    let plain = match aes256_cbc_decrypt(key_bytes, iv.as_slice(), encrypted.as_slice()) {
        Some(p) => p,
        None => return Err(ClientError::DecryptionError(String::from_str("Decryption failed"))),
    };
    match utf8_decode(plain) {
        Some(t) => Ok(t),
        None => Err(
            ClientError::DecryptionError(String::from_str("Decrypted input is not valid UTF-8")),
        ),
    }
}

} // verus!
