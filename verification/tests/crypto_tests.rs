use base64::Engine;
use oneshell::crypto::{
    decrypt_secret, derive_database_key, derive_key_material, encrypt_secret,
    encrypt_secret_with_nonce, generate_master_key, master_key_from_file, master_key_path,
    Base64Fault, CryptoError,
};

const MASTER: &str = "master-key-for-tests";

#[test]
fn database_key_is_base64_of_sha256_with_context() {
    assert_eq!(
        derive_database_key(MASTER),
        "rIm/UAKfqQc1Zs/ioQvcJ90lXpFTYnPRM4pNecVZRts="
    );
}

#[test]
fn password_key_material_matches_sha256() {
    let key = derive_key_material(MASTER, "server-password");
    let hex: String = key.iter().map(|b| format!("{:02x}", b)).collect();
    assert_eq!(
        hex,
        "c2e0aeadd8ca2b8d8c56f29a30fbfa8853f6c7bc1ec0248722ce6cfffd7255ab"
    );
}

#[test]
fn sealing_with_a_known_nonce_gives_the_aes_gcm_payload() {
    let nonce: Vec<u8> = (0u8..12).collect();
    let sealed = encrypt_secret_with_nonce(MASTER, "p@ss wörd", &nonce).unwrap();
    assert_eq!(sealed, "AAECAwQFBgcICQoL2OZE4/Cgqfl4gsQInYt17qhT4Vxh4/9C1Nc=");
}

#[test]
fn known_payload_opens_to_its_password() {
    let opened = decrypt_secret(MASTER, "AAECAwQFBgcICQoL2OZE4/Cgqfl4gsQInYt17qhT4Vxh4/9C1Nc=");
    assert_eq!(opened.unwrap(), "p@ss wörd");
}

#[test]
fn encrypt_then_decrypt_gives_the_plaintext_back() {
    for plaintext in ["secret", "", "中文密码 😀", "with 'quotes' and \"more\""] {
        let sealed = encrypt_secret(MASTER, plaintext).unwrap();
        assert_eq!(decrypt_secret(MASTER, &sealed).unwrap(), plaintext);
    }
}

#[test]
fn two_sealings_use_fresh_nonces() {
    let a = encrypt_secret(MASTER, "same").unwrap();
    let b = encrypt_secret(MASTER, "same").unwrap();
    assert_ne!(a, b);
}

#[test]
fn decrypt_rejects_text_that_is_not_base64() {
    assert!(matches!(
        decrypt_secret(MASTER, "not base64 !!").unwrap_err(),
        CryptoError::InvalidEncoding(_)
    ));
    let e = decrypt_secret(MASTER, "QU!D").unwrap_err();
    assert_eq!(e, CryptoError::InvalidEncoding(Base64Fault::InvalidByte(2, 33)));
    assert_eq!(e.message(), "Invalid symbol 33, offset 2.");
    let e = decrypt_secret(MASTER, "QUJDR").unwrap_err();
    assert_eq!(e, CryptoError::InvalidEncoding(Base64Fault::InvalidLength(5)));
    assert_eq!(e.message(), "Invalid input length: 5");
    let e = decrypt_secret(MASTER, "QQ").unwrap_err();
    assert_eq!(e, CryptoError::InvalidEncoding(Base64Fault::InvalidPadding));
    assert_eq!(e.message(), "Invalid padding");
}

#[test]
fn base64_fault_messages() {
    assert_eq!(Base64Fault::InvalidLastSymbol(3, 66).message(), "Invalid last symbol 66, offset 3.");
    assert_eq!(Base64Fault::InvalidByte(0, 32).message(), "Invalid symbol 32, offset 0.");
}

#[test]
fn decrypt_rejects_a_payload_shorter_than_nonce_and_one_byte() {
    // 12 bytes: exactly a nonce, nothing sealed.
    assert_eq!(
        decrypt_secret(MASTER, "AAECAwQFBgcICQoL").unwrap_err(),
        CryptoError::MalformedPayload
    );
}

#[test]
fn decrypt_under_another_master_key_fails() {
    let sealed = encrypt_secret(MASTER, "secret").unwrap();
    assert_eq!(
        decrypt_secret("another-master-key", &sealed).unwrap_err(),
        CryptoError::DecryptionFailed
    );
}

#[test]
fn decrypt_rejects_opened_bytes_that_are_not_utf8() {
    assert_eq!(
        decrypt_secret(MASTER, "AAECAwQFBgcICQoLV1itITHnegSSAL2mDvCXvP+F").unwrap_err(),
        CryptoError::InvalidUtf8
    );
}

#[test]
fn crypto_error_messages() {
    assert_eq!(CryptoError::MalformedPayload.message(), "encrypted secret payload is malformed");
    assert_eq!(CryptoError::DecryptionFailed.message(), "failed to decrypt secret");
    assert_eq!(CryptoError::InvalidUtf8.message(), "decrypted secret was not valid UTF-8");
    assert_eq!(CryptoError::EncryptionFailed.message(), "failed to encrypt secret");
}

#[test]
fn generated_master_key_is_base64_of_32_bytes_and_reads_back_unchanged() {
    let key = generate_master_key();
    assert_eq!(key.len(), 44);
    assert!(key.ends_with('='));
    assert_eq!(master_key_from_file(&key), key);
    assert_ne!(generate_master_key(), key);
}

#[test]
fn master_key_file_contents_are_trimmed() {
    assert_eq!(master_key_from_file("  abc=\n"), "abc=");
    assert_eq!(master_key_from_file("\u{3000}key\t"), "key");
}

#[test]
fn master_key_lies_in_the_data_directory() {
    assert_eq!(master_key_path("/data/app"), "/data/app/master.key");
    assert_eq!(master_key_path("/data/app/"), "/data/app/master.key");
    assert_eq!(master_key_path(""), "master.key");
}

#[test]
fn generated_master_key_decodes_to_32_bytes() {
    let key = generate_master_key();
    let raw = base64::engine::general_purpose::STANDARD.decode(&key).unwrap();
    assert_eq!(raw.len(), 32);
    assert_eq!(base64::engine::general_purpose::STANDARD.encode(&raw), key);
}
