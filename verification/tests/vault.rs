use tempfile::TempDir;
use tufa::totp::{Algorithm, TotpEntry};
use tufa::vault::{
    entries_from_vault, vault_entries, Vault, VaultEntry, VaultError, ALGO_AES256GCM, HEADER_LEN,
    SALT_LEN, TAG_LEN,
};

/// A vault backed by a temp directory that is deleted when `_dir` drops.
fn temp_vault() -> (Vault, TempDir) {
    let dir = TempDir::new().unwrap();
    let vault = Vault::with_path(dir.path().join("vault.2fa"));
    (vault, dir)
}

/// Minimal valid plaintext — a JSON array of one entry.
fn sample_plaintext() -> Vec<u8> {
    br#"[{"name":"Alice","issuer":"GitHub","secret":"JBSWY3DPEHPK3PXP"}]"#.to_vec()
}

#[test]
fn round_trip_basic() {
    let (vault, _dir) = temp_vault();
    let plain = sample_plaintext();
    let password = b"correct-horse-battery-staple";

    let encrypted = vault.encrypt(&plain, password).unwrap();
    let recovered = vault.decrypt(&encrypted, password).unwrap();

    assert_eq!(recovered, plain);
}

#[test]
fn round_trip_empty_plaintext() {
    let (vault, _dir) = temp_vault();
    let plain = b"[]";
    let password = b"pass";

    let encrypted = vault.encrypt(plain, password).unwrap();
    let recovered = vault.decrypt(&encrypted, password).unwrap();

    assert_eq!(&recovered, plain);
}

#[test]
fn round_trip_binary_plaintext() {
    let (vault, _dir) = temp_vault();
    let plain: Vec<u8> = (0u8..=255).collect();
    let password = b"pass";

    let encrypted = vault.encrypt(&plain, password).unwrap();
    let recovered = vault.decrypt(&encrypted, password).unwrap();

    assert_eq!(recovered, plain);
}

#[test]
fn same_input_produces_different_ciphertext() {
    let (vault, _dir) = temp_vault();
    let plain = sample_plaintext();
    let password = b"pass";

    let a = vault.encrypt(&plain, password).unwrap();
    let b = vault.encrypt(&plain, password).unwrap();

    assert_ne!(a, b, "two encryptions of the same plaintext must differ");
}

#[test]
fn header_starts_with_magic() {
    let (vault, _dir) = temp_vault();
    let encrypted = vault.encrypt(b"x", b"pass").unwrap();
    assert_eq!(&encrypted[..4], b"ENCR");
}

#[test]
fn header_version_byte_is_one() {
    let (vault, _dir) = temp_vault();
    let encrypted = vault.encrypt(b"x", b"pass").unwrap();
    assert_eq!(encrypted[4], 1u8);
}

#[test]
fn header_algo_byte_is_aes256gcm() {
    let (vault, _dir) = temp_vault();
    let encrypted = vault.encrypt(b"x", b"pass").unwrap();
    assert_eq!(encrypted[5], ALGO_AES256GCM);
}

#[test]
fn header_length_matches_constant() {
    let (vault, _dir) = temp_vault();
    let plain = b"hello";
    let encrypted = vault.encrypt(plain, b"pass").unwrap();

    assert!(encrypted.len() >= HEADER_LEN + TAG_LEN + plain.len());
}

#[test]
fn wrong_password_returns_wrong_password_error() {
    let (vault, _dir) = temp_vault();
    let encrypted = vault.encrypt(b"secret", b"right").unwrap();
    let result = vault.decrypt(&encrypted, b"wrong");

    assert!(
        matches!(result, Err(VaultError::WrongPassword)),
        "expected WrongPassword, got: {:?}",
        result.err()
    );
}

#[test]
fn empty_password_differs_from_non_empty() {
    let (vault, _dir) = temp_vault();
    let encrypted = vault.encrypt(b"data", b"password").unwrap();

    assert!(matches!(
        vault.decrypt(&encrypted, b""),
        Err(VaultError::WrongPassword)
    ));
}

#[test]
fn tampered_ciphertext_detected() {
    let (vault, _dir) = temp_vault();
    let mut encrypted = vault.encrypt(b"data", b"pass").unwrap();

    let last = encrypted.len() - 1;
    encrypted[last] ^= 0xFF;

    assert!(matches!(
        vault.decrypt(&encrypted, b"pass"),
        Err(VaultError::WrongPassword)
    ));
}

#[test]
fn tampered_nonce_detected() {
    let (vault, _dir) = temp_vault();
    let mut encrypted = vault.encrypt(b"data", b"pass").unwrap();

    encrypted[50] ^= 0xFF;

    assert!(matches!(
        vault.decrypt(&encrypted, b"pass"),
        Err(VaultError::WrongPassword)
    ));
}

#[test]
fn tampered_salt_detected() {
    let (vault, _dir) = temp_vault();
    let mut encrypted = vault.encrypt(b"data", b"pass").unwrap();

    encrypted[18] ^= 0xFF;

    assert!(matches!(
        vault.decrypt(&encrypted, b"pass"),
        Err(VaultError::WrongPassword)
    ));
}

#[test]
fn too_short_rejected() {
    let (vault, _dir) = temp_vault();
    let result = vault.decrypt(&[0u8; 10], b"pass");
    assert!(matches!(result, Err(VaultError::TooShort)));
}

#[test]
fn bad_magic_rejected() {
    let (vault, _dir) = temp_vault();
    let mut encrypted = vault.encrypt(b"data", b"pass").unwrap();
    encrypted[0] = 0x00;
    let result = vault.decrypt(&encrypted, b"pass");
    assert!(matches!(result, Err(VaultError::BadMagic)));
}

#[test]
fn wrong_version_rejected() {
    let (vault, _dir) = temp_vault();
    let mut encrypted = vault.encrypt(b"data", b"pass").unwrap();
    encrypted[4] = 0xFF;
    let result = vault.decrypt(&encrypted, b"pass");
    assert!(matches!(result, Err(VaultError::UnsupportedVersion(0xFF))));
}

#[test]
fn wrong_algo_rejected() {
    let (vault, _dir) = temp_vault();
    let mut encrypted = vault.encrypt(b"data", b"pass").unwrap();
    encrypted[5] = 0xFF;
    let result = vault.decrypt(&encrypted, b"pass");
    assert!(matches!(result, Err(VaultError::UnsupportedAlgorithm(0xFF))));
}

#[test]
fn same_password_and_salt_derives_same_key() {
    let (vault, _dir) = temp_vault();
    let password = b"password";
    let salt = [0x42u8; SALT_LEN];

    let a = vault.derive_key(password, &salt).unwrap();
    let b = vault.derive_key(password, &salt).unwrap();

    assert_eq!(a.0, b.0);
}

#[test]
fn different_salt_produces_different_key() {
    let (vault, _dir) = temp_vault();
    let password = b"password";
    let salt_a = [0x01u8; SALT_LEN];
    let salt_b = [0x02u8; SALT_LEN];

    let a = vault.derive_key(password, &salt_a).unwrap();
    let b = vault.derive_key(password, &salt_b).unwrap();

    assert_ne!(a.0, b.0);
}

#[test]
fn different_password_produces_different_key() {
    let (vault, _dir) = temp_vault();
    let salt = [0x42u8; SALT_LEN];

    let a = vault.derive_key(b"password1", &salt).unwrap();
    let b = vault.derive_key(b"password2", &salt).unwrap();

    assert_ne!(a.0, b.0);
}

// Further cases of the file format.

#[test]
fn empty_plaintext_cannot_be_read_back() {
    let (vault, _dir) = temp_vault();
    let encrypted = vault.encrypt(b"", b"pass").unwrap();
    assert_eq!(encrypted.len(), HEADER_LEN + TAG_LEN);
    assert!(matches!(vault.decrypt(&encrypted, b"pass"), Err(VaultError::TooShort)));
}

#[test]
fn header_records_argon2_costs() {
    let (vault, _dir) = temp_vault();
    let encrypted = vault.encrypt(b"x", b"pass").unwrap();
    assert_eq!(&encrypted[6..10], &19_456u32.to_le_bytes());
    assert_eq!(&encrypted[10..14], &2u32.to_le_bytes());
    assert_eq!(&encrypted[14..18], &1u32.to_le_bytes());
    assert_eq!(encrypted.len(), HEADER_LEN + TAG_LEN + 1);
}

#[test]
fn to_bytes_lays_out_header() {
    let (vault, _dir) = temp_vault();
    let salt = [7u8; 32];
    let nonce = [9u8; 12];
    let out = vault.to_bytes(&salt, &nonce, &[1, 2, 3]);
    assert_eq!(&out[..6], &[b'E', b'N', b'C', b'R', 1, 1]);
    assert_eq!(&out[18..50], &salt);
    assert_eq!(&out[50..62], &nonce);
    assert_eq!(&out[62..], &[1, 2, 3]);
}

#[test]
fn unreadable_argon2_costs_are_crypto_errors() {
    let (vault, _dir) = temp_vault();
    let mut encrypted = vault.encrypt(b"data", b"pass").unwrap();
    // Memory cost of 0 KiB is below the minimum.
    encrypted[6] = 0;
    encrypted[7] = 0;
    encrypted[8] = 0;
    encrypted[9] = 0;
    match vault.decrypt(&encrypted, b"pass") {
        Err(VaultError::CryptoError(msg)) => assert_eq!(msg, "memory cost is too small"),
        other => panic!("expected a crypto error, got {:?}", other.err()),
    }
}

#[test]
fn vault_error_messages() {
    assert_eq!(VaultError::NotFound.to_string(), "vault file not found");
    assert_eq!(VaultError::UnsupportedVersion(7).to_string(), "unsupported vault version: 7");
    assert_eq!(VaultError::UnsupportedAlgorithm(0xAB).to_string(), "unsupported algorithm id: 0xAB");
    assert_eq!(VaultError::UnsupportedAlgorithm(0x0F).to_string(), "unsupported algorithm id: 0x0F");
    assert_eq!(
        VaultError::AccountNotFound("x".to_string()).to_string(),
        "Account 'x' not found"
    );
    assert_eq!(
        VaultError::CryptoError("bad".to_string()).to_string(),
        "crypto error: bad"
    );
}

#[test]
fn stored_entries_load_back() {
    let mut a = TotpEntry::new("JBSWY3DPEHPK3PXP".to_string(), "alice".to_string())
        .unwrap()
        .with_issuer("GitHub".to_string());
    a.digits = 8;
    a.algorithm = Algorithm::SHA512;
    let b = TotpEntry::new("GEZDGNBVGY3TQOJQ".to_string(), "bob".to_string()).unwrap();
    let stored = vault_entries(&[a, b]);
    assert_eq!(stored.len(), 2);
    assert_eq!(stored[0].issuer.as_deref(), Some("GitHub"));
    let loaded = entries_from_vault(stored).unwrap();
    assert_eq!(loaded[0].name, "alice");
    assert_eq!(loaded[0].issuer.as_deref(), Some("GitHub"));
    assert_eq!(loaded[0].secret, "JBSWY3DPEHPK3PXP");
    // What a vault does not store comes back as the defaults.
    assert_eq!(loaded[0].digits, 6);
    assert_eq!(loaded[0].algorithm, Algorithm::SHA1);
    assert_eq!(loaded[1].name, "bob");
    assert_eq!(loaded[1].issuer, None);

    let bad = vec![
        VaultEntry { name: "x".to_string(), issuer: None, secret: "JBSWY3DP".to_string() },
        VaultEntry { name: "y".to_string(), issuer: None, secret: "not-base32!".to_string() },
    ];
    match entries_from_vault(bad) {
        Err(VaultError::SerializationFailed(m)) => assert_eq!(m, "invalid secret"),
        other => panic!("expected an error, got {:?}", other.map(|v| v.len())),
    }
}

#[test]
fn ciphertext_does_not_show_the_plaintext() {
    let (vault, _dir) = temp_vault();
    let plain = sample_plaintext();
    let encrypted = vault.encrypt(&plain, b"pass").unwrap();
    assert_eq!(encrypted.len(), HEADER_LEN + plain.len() + TAG_LEN);
    assert_ne!(&encrypted[HEADER_LEN..HEADER_LEN + plain.len()], &plain[..]);
}

#[test]
fn vault_paths() {
    let v = Vault::new("work");
    assert!(v.path().ends_with("tufa/work.2fa"));
    assert!(Vault::dir().ends_with("tufa"));
}

#[test]
fn encrypted_file_is_header_plaintext_and_tag_long() {
    let (vault, _dir) = temp_vault();
    let encrypted = vault.encrypt(b"hello", b"pass").unwrap();
    assert_eq!(encrypted.len(), HEADER_LEN + 5 + TAG_LEN);
}
