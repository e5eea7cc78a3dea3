use base64::Engine;
use carillon_server::crypto::{
    encode_ciphertext, is_white_space_char, password_from_plaintext, secret_from_plaintext,
    trim_white_space, Crypto, CryptoError,
};
use std::str::FromStr;

fn temp_crypto() -> Crypto {
    Crypto::generate_fresh()
}

#[test]
fn decrypt_secret_round_trips_and_matches_decrypt() {
    let crypto = temp_crypto();
    let enc = crypto.encrypt("hunter2 🔐").unwrap();
    // Both paths recover the same plaintext; the secret one just holds
    // it in a zeroizing type.
    assert_eq!(crypto.decrypt(&enc).unwrap(), "hunter2 🔐");
    assert_eq!(
        crypto.decrypt_secret(&enc).unwrap().expose_secret(),
        "hunter2 🔐"
    );
}

#[test]
fn decrypt_secret_rejects_garbage() {
    let crypto = temp_crypto();
    assert!(crypto.decrypt_secret("not-base64!!").is_err());
}

#[test]
fn round_trip_of_empty_and_ascii_passwords() {
    let crypto = temp_crypto();
    for password in ["", "p", "correct horse battery staple"] {
        let blob = crypto.encrypt(password).unwrap();
        assert_eq!(crypto.decrypt(&blob).unwrap(), password);
    }
}

#[test]
fn encryption_is_randomized_but_both_blobs_decrypt() {
    let crypto = temp_crypto();
    let a = crypto.encrypt("same").unwrap();
    let b = crypto.encrypt("same").unwrap();
    assert_ne!(a, b);
    assert_eq!(crypto.decrypt(&a).unwrap(), "same");
    assert_eq!(crypto.decrypt(&b).unwrap(), "same");
}

#[test]
fn key_text_reloads_the_same_identity() {
    let crypto = temp_crypto();
    let key = crypto.secret_key();
    let file = format!("\n  {}\r\n\t", key.expose_secret());
    let reloaded = Crypto::from_key_text(&file).unwrap();
    let blob = crypto.encrypt("over the wire").unwrap();
    assert_eq!(reloaded.decrypt(&blob).unwrap(), "over the wire");
    let back = reloaded.encrypt("and back").unwrap();
    assert_eq!(crypto.decrypt(&back).unwrap(), "and back");
}

#[test]
fn invalid_key_text_is_refused() {
    assert!(matches!(
        Crypto::from_key_text("not a key"),
        Err(CryptoError::InvalidKey(_))
    ));
    assert!(matches!(Crypto::from_key_text("   "), Err(CryptoError::InvalidKey(_))));
}

#[test]
fn not_base64_is_reported() {
    let crypto = temp_crypto();
    assert_eq!(crypto.decrypt("not-base64!!").unwrap_err(), CryptoError::NotBase64);
    assert_eq!(
        crypto.decrypt_secret("not-base64!!").err(),
        Some(CryptoError::NotBase64)
    );
}

#[test]
fn base64_that_is_no_age_file_is_undecryptable() {
    let crypto = temp_crypto();
    assert_eq!(crypto.decrypt("aGVsbG8=").unwrap_err(), CryptoError::Undecryptable);
    assert_eq!(
        crypto.decrypt_secret("aGVsbG8=").err(),
        Some(CryptoError::Undecryptable)
    );
}

#[test]
fn another_key_cannot_decrypt() {
    let mine = temp_crypto();
    let theirs = temp_crypto();
    let blob = theirs.encrypt("secret").unwrap();
    assert_eq!(mine.decrypt(&blob).unwrap_err(), CryptoError::Undecryptable);
}

#[test]
fn non_utf8_plaintext_is_reported() {
    let crypto = temp_crypto();
    let key = crypto.secret_key();
    let identity = age::x25519::Identity::from_str(key.expose_secret()).unwrap();
    let ciphertext = age::encrypt(&identity.to_public(), &[0xff, 0xfe, 0x00]).unwrap();
    let blob = base64::engine::general_purpose::STANDARD.encode(ciphertext);
    assert_eq!(crypto.decrypt(&blob).unwrap_err(), CryptoError::NotUtf8);
    assert_eq!(crypto.decrypt_secret(&blob).err(), Some(CryptoError::NotUtf8));
}

#[test]
fn blob_is_standard_base64_of_an_age_file() {
    let crypto = temp_crypto();
    let blob = crypto.encrypt("x").unwrap();
    let bytes = base64::engine::general_purpose::STANDARD.decode(&blob).unwrap();
    assert!(bytes.starts_with(b"age-encryption.org/v1\n"));
}

#[test]
fn trimming_removes_unicode_white_space_at_both_ends_only() {
    assert_eq!(trim_white_space("  a b \n"), "a b");
    assert_eq!(trim_white_space("\u{3000}\u{85}key\u{2028}"), "key");
    assert_eq!(trim_white_space(" \t\r\n "), "");
    assert_eq!(trim_white_space(""), "");
    assert_eq!(trim_white_space("x"), "x");
    assert_eq!(trim_white_space("\u{200b}x"), "\u{200b}x");
}

#[test]
fn white_space_agrees_with_std() {
    for u in 0u32..0x3100 {
        if let Some(c) = char::from_u32(u) {
            assert_eq!(is_white_space_char(c), c.is_whitespace(), "{:#x}", u);
        }
    }
}

#[test]
fn plaintext_bytes_become_the_password_or_not_utf8() {
    assert_eq!(password_from_plaintext(b"hunter2".to_vec()).unwrap(), "hunter2");
    assert_eq!(password_from_plaintext("🔐".as_bytes().to_vec()).unwrap(), "🔐");
    assert_eq!(password_from_plaintext(vec![]).unwrap(), "");
    assert_eq!(password_from_plaintext(vec![0xc3]).unwrap_err(), CryptoError::NotUtf8);
    assert_eq!(password_from_plaintext(vec![0xed, 0xa0, 0x80]).unwrap_err(), CryptoError::NotUtf8);
}

#[test]
fn plaintext_bytes_become_a_secret_or_not_utf8() {
    assert_eq!(secret_from_plaintext(b"s3cret".to_vec()).unwrap().expose_secret(), "s3cret");
    assert_eq!(secret_from_plaintext(vec![0xff]).err(), Some(CryptoError::NotUtf8));
}

#[test]
fn ciphertext_is_stored_as_padded_standard_base64() {
    assert_eq!(encode_ciphertext(b"hello").unwrap(), "aGVsbG8=");
    assert_eq!(encode_ciphertext(&[0xfb, 0xff]).unwrap(), "+/8=");
    assert_eq!(encode_ciphertext(&[]).unwrap(), "");
}

#[test]
fn raw_ciphertext_decrypts_without_the_base64_layer() {
    let crypto = temp_crypto();
    let blob = crypto.encrypt("raw").unwrap();
    let ciphertext = base64::engine::general_purpose::STANDARD.decode(&blob).unwrap();
    assert_eq!(crypto.decrypt_ciphertext(&ciphertext).unwrap(), "raw");
    assert_eq!(crypto.decrypt_ciphertext_secret(&ciphertext).unwrap().expose_secret(), "raw");
    assert_eq!(crypto.decrypt_ciphertext(b"junk").unwrap_err(), CryptoError::Undecryptable);
    assert_eq!(crypto.decrypt_ciphertext_secret(b"junk").err(), Some(CryptoError::Undecryptable));
}

#[test]
fn decrypted_secret_debug_text_is_redacted() {
    let crypto = temp_crypto();
    let a = crypto.decrypt_secret(&crypto.encrypt("hunter2").unwrap()).unwrap();
    let b = crypto.decrypt_secret(&crypto.encrypt("other").unwrap()).unwrap();
    let shown = format!("{:?}", a);
    assert_eq!(shown, "SecretBox<str>([REDACTED])");
    assert_eq!(shown, format!("{:?}", b));
}

#[test]
fn saved_key_text_is_upper_case_bech32() {
    let crypto = temp_crypto();
    let key = crypto.secret_key();
    let text = key.expose_secret();
    assert!(text.starts_with("AGE-SECRET-KEY-1"));
    assert!(text.chars().all(|c| c.is_ascii_uppercase() || c.is_ascii_digit() || c == '-'));
    assert_eq!(trim_white_space(text), text);
}

#[test]
fn key_file_with_surrounding_white_space_loads_the_same_key() {
    let crypto = temp_crypto();
    let key = crypto.secret_key();
    let plain = Crypto::from_key_text(key.expose_secret()).unwrap();
    let padded = Crypto::from_key_text(&format!("  {}\n", key.expose_secret())).unwrap();
    assert_eq!(padded.decrypt(&plain.encrypt("x").unwrap()).unwrap(), "x");
    assert_eq!(plain.decrypt(&padded.encrypt("y").unwrap()).unwrap(), "y");
}

#[test]
fn error_messages_are_the_daemons() {
    assert_eq!(CryptoError::InvalidKey("x").password_message(), "Invalid age key");
    assert_eq!(CryptoError::EncryptFailed.password_message(), "Cannot encrypt password");
    assert_eq!(CryptoError::NotBase64.password_message(), "Stored password is not valid base64");
    assert_eq!(CryptoError::Undecryptable.password_message(), "Cannot decrypt password");
    assert_eq!(CryptoError::NotUtf8.password_message(), "Decrypted password is not valid UTF-8");
    assert_eq!(CryptoError::NotBase64.secret_message(), "Stored secret is not valid base64");
    assert_eq!(CryptoError::Undecryptable.secret_message(), "Cannot decrypt secret");
    assert_eq!(CryptoError::NotUtf8.secret_message(), "Decrypted secret is not valid UTF-8");
    assert_eq!(CryptoError::EncryptFailed.secret_message(), "Cannot encrypt password");
}

#[test]
fn non_canonical_base64_is_not_base64() {
    let crypto = temp_crypto();
    // Missing padding, stray trailing bits, and a character outside the alphabet.
    assert_eq!(crypto.decrypt("aGVsbG8").unwrap_err(), CryptoError::NotBase64);
    assert_eq!(crypto.decrypt("aGVsbG9=").unwrap_err(), CryptoError::NotBase64);
    assert_eq!(crypto.decrypt("aGVs-G8=").unwrap_err(), CryptoError::NotBase64);
}
