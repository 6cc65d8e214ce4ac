use aes_gcm::aead::{Aead, KeyInit};
use base64::Engine;
use super_simple_ssh::model::{AuthConfig, ConnectionConfig, EncryptedBlob, HistoryEntry, HistoryState, StoreFile};
use super_simple_ssh::vault::{
    change_master_password_checked, create_master_from_password, create_master_with, decrypt_connection,
    decrypt_string_checked, derive_key, encrypt_connection, encrypt_string, load_or_init_store,
    open_store, seal_with_nonce, store_file_for, unlock_master, validate_new_master, VaultError,
};

fn key_connection() -> ConnectionConfig {
    ConnectionConfig {
        name: "box".to_string(),
        user: "root".to_string(),
        host: "10.0.0.2".to_string(),
        auth: AuthConfig::PrivateKey {
            path: "~/.ssh/id_ed25519".to_string(),
            password: Some("k3y-pass".to_string()),
        },
        history: vec![HistoryEntry {
            ts: 1_700_000_000,
            state: HistoryState::Success,
        }],
        last_remote_dir: Some("/var/log".to_string()),
    }
}

fn password_connection() -> ConnectionConfig {
    ConnectionConfig {
        name: String::new(),
        user: "u".to_string(),
        host: "h".to_string(),
        auth: AuthConfig::Password {
            password: "pw".to_string(),
        },
        history: vec![],
        last_remote_dir: None,
    }
}

#[test]
fn derive_key_is_deterministic_and_salted() {
    let a = derive_key("secret", b"0123456789abcdef");
    let b = derive_key("secret", b"0123456789abcdef");
    let c = derive_key("secret", b"fedcba9876543210");
    assert_eq!(a.len(), 32);
    assert_eq!(a, b);
    assert_ne!(a, c);
    assert_ne!(a, derive_key("other", b"0123456789abcdef"));
}

#[test]
fn encrypt_then_decrypt_string_round_trips() {
    let key = derive_key("pw", b"0123456789abcdef");
    let blob = encrypt_string("hello wörld", &key).unwrap();
    assert_ne!(blob.ciphertext, "hello wörld");
    assert_eq!(decrypt_string_checked(&blob, &key).unwrap(), "hello wörld");
}

#[test]
fn decrypt_with_wrong_key_fails() {
    let key = derive_key("pw", b"0123456789abcdef");
    let other = derive_key("pw2", b"0123456789abcdef");
    let blob = encrypt_string("secret", &key).unwrap();
    assert_eq!(decrypt_string_checked(&blob, &other), Err(VaultError::DecryptFailed));
}

#[test]
fn decrypt_reports_bad_encodings() {
    let key = derive_key("pw", b"0123456789abcdef");
    let good = encrypt_string("secret", &key).unwrap();
    let bad_nonce = EncryptedBlob {
        nonce: "***".to_string(),
        ciphertext: good.ciphertext.clone(),
    };
    assert_eq!(decrypt_string_checked(&bad_nonce, &key), Err(VaultError::NonceEncoding));
    let bad_text = EncryptedBlob {
        nonce: good.nonce.clone(),
        ciphertext: "%%%".to_string(),
    };
    assert_eq!(decrypt_string_checked(&bad_text, &key), Err(VaultError::CiphertextEncoding));
    let short_nonce = EncryptedBlob {
        nonce: "AAAA".to_string(),
        ciphertext: good.ciphertext.clone(),
    };
    assert_eq!(decrypt_string_checked(&short_nonce, &key), Err(VaultError::MalformedNonce));
}

#[test]
fn connection_round_trips_through_encryption() {
    let key = derive_key("pw", b"0123456789abcdef");
    for conn in [key_connection(), password_connection()] {
        let stored = encrypt_connection(&conn, &key).unwrap();
        assert_eq!(stored.user, conn.user);
        assert_eq!(stored.history, conn.history);
        let opened = decrypt_connection(stored, &key).unwrap();
        assert_eq!(opened, conn);
    }
}

#[test]
fn master_unlocks_with_its_password_only() {
    let (master, key) = create_master_from_password("test-password").unwrap();
    assert_eq!(key.len(), 32);
    assert_eq!(unlock_master(&master, "test-password").unwrap(), key);
    assert_eq!(unlock_master(&master, "nope"), Err(VaultError::WrongMasterPassword));
}

#[test]
fn new_master_password_checks() {
    assert_eq!(validate_new_master("a", "b"), Err(VaultError::PasswordsDoNotMatch));
    assert_eq!(validate_new_master("", ""), Err(VaultError::MasterPasswordEmpty));
    assert_eq!(validate_new_master("x", "x"), Ok(()));
}

#[test]
fn store_round_trips() {
    let (master, key) = create_master_from_password("pw").unwrap();
    let conns = vec![key_connection(), password_connection()];
    let store = store_file_for(&master, &key, &conns, &Some("/tmp".to_string())).unwrap();
    let loaded = load_or_init_store(Some(store.clone()), "pw", "").unwrap();
    assert_eq!(loaded.connections, conns);
    assert_eq!(loaded.key, key);
    assert_eq!(loaded.last_local_dir, Some("/tmp".to_string()));
    assert!(open_store(Some(store), "wrong", "").is_err());
}

#[test]
fn first_run_creates_master() {
    let loaded = open_store(None, "fresh", "fresh").unwrap();
    assert!(loaded.connections.is_empty());
    assert_eq!(unlock_master(&loaded.master, "fresh").unwrap(), loaded.key);
    assert!(matches!(open_store(None, "a", "b"), Err(VaultError::PasswordsDoNotMatch)));
    assert!(matches!(open_store(None, "", ""), Err(VaultError::MasterPasswordEmpty)));
}

#[test]
fn open_store_reports_malformed_nonce() {
    let (mut master, _key) = create_master_from_password("pw").unwrap();
    master.check.nonce = "AAAA".to_string();
    let store = StoreFile {
        master,
        connections: vec![],
        last_local_dir: None,
    };
    assert!(matches!(open_store(Some(store), "pw", ""), Err(VaultError::MalformedNonce)));
}

#[test]
fn change_master_password_reseals_connections() {
    let (master, _key) = create_master_from_password("old").unwrap();
    let conns = vec![key_connection()];
    assert!(matches!(
        change_master_password_checked(&master, &conns, "", "n", "n"),
        Err(VaultError::CurrentPasswordRequired)
    ));
    assert!(matches!(
        change_master_password_checked(&master, &conns, "old", "", ""),
        Err(VaultError::NewPasswordRequired)
    ));
    assert!(matches!(
        change_master_password_checked(&master, &conns, "old", "n1", "n2"),
        Err(VaultError::ConfirmationMismatch)
    ));
    assert!(matches!(
        change_master_password_checked(&master, &conns, "bad", "n", "n"),
        Err(VaultError::CurrentPasswordUnverified)
    ));
    let (new_master, new_key, stored) =
        change_master_password_checked(&master, &conns, "old", "new", "new").unwrap();
    assert_eq!(unlock_master(&new_master, "new").unwrap(), new_key);
    assert_eq!(decrypt_connection(stored[0].clone(), &new_key).unwrap(), conns[0]);
}

#[test]
fn vault_error_messages() {
    assert_eq!(VaultError::SaltEncoding.message(), "decode salt");
    assert_eq!(
        VaultError::ConfirmationMismatch.message(),
        "New password confirmation does not match"
    );
    assert_eq!(VaultError::CurrentPasswordIncorrect.message(), "Current master password incorrect");
}

#[test]
fn seal_with_nonce_matches_aes_gcm_and_base64() {
    let key = derive_key("pw", b"0123456789abcdef");
    let nonce = [7u8; 12];
    let blob = seal_with_nonce("hello", &key, &nonce).unwrap();
    let engine = base64::engine::general_purpose::STANDARD;
    assert_eq!(blob.nonce, engine.encode(nonce));
    let cipher = aes_gcm::Aes256Gcm::new(aes_gcm::Key::<aes_gcm::Aes256Gcm>::from_slice(&key));
    let expected = cipher.encrypt(aes_gcm::Nonce::from_slice(&nonce), b"hello".as_ref()).unwrap();
    assert_eq!(blob.ciphertext, engine.encode(&expected));
    assert_eq!(engine.decode(&blob.ciphertext).unwrap().len(), 5 + 16);
    assert_eq!(decrypt_string_checked(&blob, &key).unwrap(), "hello");
}

#[test]
fn create_master_with_is_deterministic_and_unlocks() {
    let salt = [3u8; 16];
    let nonce = [9u8; 12];
    let (master, key) = create_master_with("secret", &salt, &nonce);
    let (again, key_again) = create_master_with("secret", &salt, &nonce);
    assert_eq!(master, again);
    assert_eq!(key, key_again);
    assert_eq!(key, derive_key("secret", &salt));
    assert_eq!(master.salt_b64, base64::engine::general_purpose::STANDARD.encode(salt));
    assert_eq!(decrypt_string_checked(&master.check, &key).unwrap(), "ssh-client-check");
    assert_eq!(unlock_master(&master, "secret").unwrap(), key);
    assert_eq!(unlock_master(&master, "wrong"), Err(VaultError::WrongMasterPassword));
}

#[test]
fn key_file_without_passphrase_is_stored_with_any_key() {
    let conn = ConnectionConfig {
        name: "k".to_string(),
        user: "u".to_string(),
        host: "h".to_string(),
        auth: AuthConfig::PrivateKey {
            path: "~/.ssh/id_rsa".to_string(),
            password: None,
        },
        history: vec![],
        last_remote_dir: None,
    };
    let stored = encrypt_connection(&conn, &[]).unwrap();
    assert_eq!(stored.user, "u");
    let opened = decrypt_connection(stored, &derive_key("pw", b"0123456789abcdef")).unwrap();
    assert_eq!(opened, conn);
}

#[test]
fn sealed_password_is_sixteen_bytes_longer() {
    let key = derive_key("pw", b"0123456789abcdef");
    let stored = encrypt_connection(&password_connection(), &key).unwrap();
    let blob = match stored.auth {
        super_simple_ssh::model::StoredAuthConfig::Password { password } => password,
        _ => panic!("password connection stored as key file"),
    };
    let engine = base64::engine::general_purpose::STANDARD;
    assert_eq!(engine.decode(&blob.ciphertext).unwrap().len(), "pw".len() + 16);
    assert_eq!(engine.decode(&blob.nonce).unwrap().len(), 12);
}
