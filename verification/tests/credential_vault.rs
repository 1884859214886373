use security_core::security::credential_vault::{CredentialVault, EncryptedValue, SensitiveData};
use security_core::security::key_rotation::KeyStore;

#[test]
fn test_encrypt_decrypt_roundtrip() {
    let key = [42u8; 32];
    let vault = CredentialVault::new(key);

    let plaintext = b"secret_api_key_12345";
    let encrypted = vault.encrypt(plaintext).unwrap();
    let decrypted = vault.decrypt(&encrypted).unwrap();

    assert_eq!(decrypted.as_bytes(), plaintext);
}

#[test]
fn test_store_retrieve() {
    let key = [42u8; 32];
    let mut vault = CredentialVault::new(key);

    let plaintext = b"my_secret";
    vault.store("api_key_1".to_string(), plaintext).unwrap();

    let retrieved = vault.retrieve("api_key_1").unwrap();
    assert_eq!(retrieved.as_bytes(), plaintext);
}

#[test]
fn test_different_ivs_produce_different_ciphertexts() {
    let key = [42u8; 32];
    let vault = CredentialVault::new(key);

    let plaintext = b"same_plaintext";
    let encrypted1 = vault.encrypt(plaintext).unwrap();
    let encrypted2 = vault.encrypt(plaintext).unwrap();

    assert_ne!(encrypted1.ciphertext, encrypted2.ciphertext);
    assert_ne!(encrypted1.iv, encrypted2.iv);
}

#[test]
fn test_delete_credential() {
    let key = [42u8; 32];
    let mut vault = CredentialVault::new(key);

    vault.store("key1".to_string(), b"secret").unwrap();
    vault.delete("key1").unwrap();

    assert!(vault.retrieve("key1").is_err());
}

#[test]
fn vault_roundtrip_and_delete() {
    let mut vault = CredentialVault::new([0x2A; 32]);
    assert_eq!(vault.store("api_key_1".to_string(), b"my_secret"), Ok(()));
    assert_eq!(vault.retrieve("api_key_1").unwrap().as_bytes(), b"my_secret");
    assert_eq!(vault.delete("api_key_1"), Ok(()));
    assert_eq!(
        vault.retrieve("api_key_1").err(),
        Some("Credential not found".to_string())
    );
    assert_eq!(vault.delete("api_key_1"), Err("Credential not found".to_string()));
}

#[test]
fn encrypt_with_nonce_gives_the_known_ciphertext() {
    // AES-256-GCM with an all-zero key and nonce on the empty plaintext
    // gives the tag 530f8afbc74536b9a963b4f1c4cb738b.
    let vault = CredentialVault::new([0u8; 32]);
    let sealed = vault.encrypt_with_nonce(b"", [0u8; 12]).unwrap();
    assert_eq!(
        sealed.ciphertext,
        vec![
            0x53, 0x0f, 0x8a, 0xfb, 0xc7, 0x45, 0x36, 0xb9, 0xa9, 0x63, 0xb4, 0xf1, 0xc4, 0xcb,
            0x73, 0x8b
        ]
    );
    assert_eq!(sealed.iv, vec![0u8; 12]);
    assert_eq!(sealed.version, 1);

    // and on sixteen zero bytes the ciphertext cea7403d4d606b6e074ec5d3baf39d18
    // with the tag d0d1c8a799996bf0265b98b5d48ab919.
    let sealed = vault.encrypt_with_nonce(&[0u8; 16], [0u8; 12]).unwrap();
    assert_eq!(
        sealed.ciphertext,
        vec![
            0xce, 0xa7, 0x40, 0x3d, 0x4d, 0x60, 0x6b, 0x6e, 0x07, 0x4e, 0xc5, 0xd3, 0xba, 0xf3,
            0x9d, 0x18, 0xd0, 0xd1, 0xc8, 0xa7, 0x99, 0x99, 0x6b, 0xf0, 0x26, 0x5b, 0x98, 0xb5,
            0xd4, 0x8a, 0xb9, 0x19
        ]
    );
    assert_eq!(vault.decrypt(&sealed).unwrap().as_bytes(), &[0u8; 16]);
}

#[test]
fn ciphertext_is_sixteen_bytes_longer_and_not_the_plaintext() {
    let vault = CredentialVault::new([7u8; 32]);
    let plaintext = b"a plaintext of some length";
    let sealed = vault.encrypt(plaintext).unwrap();
    assert_eq!(sealed.ciphertext.len(), plaintext.len() + 16);
    assert_eq!(sealed.iv.len(), 12);
    assert_ne!(&sealed.ciphertext[..plaintext.len()], &plaintext[..]);
    let opened = vault.decrypt(&sealed).unwrap();
    assert_eq!(opened.as_bytes(), plaintext);
    assert_ne!(opened.as_bytes(), &sealed.ciphertext[..]);
}

#[test]
fn decrypt_refuses_what_was_tampered_with() {
    let vault = CredentialVault::new([7u8; 32]);
    let sealed = vault.encrypt(b"payload").unwrap();

    let mut flipped = sealed.clone();
    flipped.ciphertext[0] ^= 1;
    assert_eq!(
        vault.decrypt(&flipped).err(),
        Some("Decryption failed: aead::Error".to_string())
    );

    let mut truncated = sealed.clone();
    truncated.ciphertext.truncate(3);
    assert_eq!(
        vault.decrypt(&truncated).err(),
        Some("Decryption failed: aead::Error".to_string())
    );

    let mut other_nonce = sealed.clone();
    other_nonce.iv[0] ^= 1;
    assert!(vault.decrypt(&other_nonce).is_err());

    let other_key = CredentialVault::new([8u8; 32]);
    assert_eq!(
        other_key.decrypt(&sealed).err(),
        Some("Decryption failed: aead::Error".to_string())
    );
}

#[test]
fn decrypt_refuses_a_nonce_of_the_wrong_length() {
    let vault = CredentialVault::new([7u8; 32]);
    let sealed = vault.encrypt(b"payload").unwrap();
    let short = EncryptedValue {
        ciphertext: sealed.ciphertext.clone(),
        iv: vec![0u8; 11],
        version: 1,
    };
    assert_eq!(
        vault.decrypt(&short).err(),
        Some("Decryption failed: invalid nonce length".to_string())
    );
    let empty = EncryptedValue { ciphertext: sealed.ciphertext.clone(), iv: Vec::new(), version: 1 };
    assert!(vault.decrypt(&empty).is_err());
}

#[test]
fn decrypt_refuses_another_key_version() {
    let vault = CredentialVault::new([7u8; 32]);
    let mut sealed = vault.encrypt(b"payload").unwrap();
    sealed.version = 2;
    assert_eq!(vault.decrypt(&sealed).err(), Some("Key version not found".to_string()));
}

#[test]
fn store_overwrites_the_prior_entry() {
    let mut vault = CredentialVault::new([1u8; 32]);
    vault.store("id".to_string(), b"first").unwrap();
    vault.store("id".to_string(), b"second").unwrap();
    assert_eq!(vault.retrieve("id").unwrap().as_bytes(), b"second");
    vault.store_with_nonce("other".to_string(), b"third", [9u8; 12]).unwrap();
    assert_eq!(vault.retrieve("other").unwrap().as_bytes(), b"third");
    assert_eq!(vault.retrieve("id").unwrap().as_bytes(), b"second");
}

#[test]
fn empty_plaintext_roundtrips() {
    let vault = CredentialVault::new([3u8; 32]);
    let sealed = vault.encrypt(b"").unwrap();
    assert_eq!(sealed.ciphertext.len(), 16);
    assert_eq!(vault.decrypt(&sealed).unwrap().as_bytes(), b"");
}

#[test]
fn sensitive_data_reads_as_text_and_wipes() {
    let mut secret = SensitiveData::new(b"caf\xc3\xa9".to_vec());
    assert_eq!(secret.as_bytes(), b"caf\xc3\xa9");
    assert_eq!(secret.as_str().unwrap(), "café");
    let copy = secret.clone();
    secret.zeroize();
    assert_eq!(secret.as_bytes(), b"");
    assert_eq!(copy.as_bytes(), b"caf\xc3\xa9");

    let broken = SensitiveData::new(vec![0xff, 0xfe]);
    assert!(broken.as_str().is_err());
    assert_eq!(broken.as_bytes(), &[0xff, 0xfe]);
}

#[test]
fn rotation_moves_every_credential_to_the_new_key() {
    let mut vault = CredentialVault::new([1u8; 32]);
    vault.store("a".to_string(), b"alpha").unwrap();
    vault.store("b".to_string(), b"beta").unwrap();
    vault.store("c".to_string(), b"").unwrap();
    let before = vault.encrypt(b"x").unwrap();

    assert_eq!(vault.rotate_to([2u8; 32], 2), Ok(3));
    assert_eq!(vault.retrieve("a").unwrap().as_bytes(), b"alpha");
    assert_eq!(vault.retrieve("b").unwrap().as_bytes(), b"beta");
    assert_eq!(vault.retrieve("c").unwrap().as_bytes(), b"");
    // what is sealed now carries the new version and opens under the new key only
    let after = vault.encrypt(b"x").unwrap();
    assert_eq!(after.version, 2);
    assert_eq!(vault.decrypt(&before).err(), Some("Key version not found".to_string()));
    let old_vault = CredentialVault::new([1u8; 32]);
    assert!(old_vault.decrypt(&after).is_err());

    let mut empty = CredentialVault::new([1u8; 32]);
    assert_eq!(empty.rotate_to([2u8; 32], 7), Ok(0));
    assert_eq!(empty.encrypt(b"x").unwrap().version, 7);
}

#[test]
fn rotation_along_with_the_key_store() {
    let mut keys = KeyStore::new();
    let mut vault = CredentialVault::new(keys.get_current_key().unwrap());
    vault.store("token".to_string(), b"s3cret").unwrap();
    let old_version = keys.get_current_version();
    let new_version = keys.rotate_key().unwrap();
    let moved = vault.rotate_to(keys.get_current_key().unwrap(), new_version).unwrap();
    keys.log_rotation(old_version, new_version, moved);
    keys.retire_old_keys(1);
    assert_eq!(vault.retrieve("token").unwrap().as_bytes(), b"s3cret");
    assert_eq!(keys.get_rotation_history()[0].credentials_migrated, 1);
    assert_eq!(keys.key_count(), 1);
}

#[test]
fn encrypt_gives_nonce_version_and_length() {
    let vault = CredentialVault::new([5u8; 32]);
    for plaintext in [&b""[..], &b"x"[..], &b"nine byte"[..], &[0u8; 1000][..]] {
        let sealed = vault.encrypt(plaintext).unwrap();
        assert_eq!(sealed.iv.len(), 12);
        assert_eq!(sealed.version, 1);
        assert_eq!(sealed.ciphertext.len(), plaintext.len() + 16);
        let sealed = vault.encrypt_with_nonce(plaintext, [3u8; 12]).unwrap();
        assert_eq!(sealed.iv, vec![3u8; 12]);
        assert_eq!(sealed.version, 1);
        assert_eq!(sealed.ciphertext.len(), plaintext.len() + 16);
    }
    assert_eq!(vault.encrypt(b"nine byte").unwrap().ciphertext.len(), 25);
}
