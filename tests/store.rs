use lazy_locker::crypto::decrypt;
use lazy_locker::error::VaultError;
use lazy_locker::store::{open_store, seal_store, Secret, SecretsStore};

/// Generates a valid 32-byte test key
fn test_key() -> [u8; 32] {
    [0x42u8; 32]
}

fn now() -> i64 {
    std::time::SystemTime::now()
        .duration_since(std::time::UNIX_EPOCH)
        .unwrap()
        .as_secs() as i64
}

fn value_of<'a>(all: &'a [(String, String)], name: &str) -> Option<&'a String> {
    all.iter().find(|(n, _)| n == name).map(|(_, v)| v)
}

#[test]
fn test_secret_no_expiration() {
    let secret = Secret {
        name: "TEST_TOKEN".to_string(),
        encrypted_value: vec![1, 2, 3],
        expires_at: None,
    };

    assert!(!secret.is_expired());
    assert_eq!(secret.days_until_expiration(), None);
    assert_eq!(secret.expiration_display(), "∞ Permanent");
}

#[test]
fn test_secret_expired() {
    let past_timestamp = now() - 86400;

    let secret = Secret {
        name: "EXPIRED_TOKEN".to_string(),
        encrypted_value: vec![1, 2, 3],
        expires_at: Some(past_timestamp),
    };

    assert!(secret.is_expired());
    assert!(secret.days_until_expiration().unwrap() < 0);
    assert_eq!(secret.expiration_display(), "⚠️ EXPIRED");
}

#[test]
fn test_secret_expires_today() {
    let now = now();

    let secret = Secret {
        name: "EXPIRING_TODAY".to_string(),
        encrypted_value: vec![1, 2, 3],
        expires_at: Some(now + 3600),
    };

    assert!(!secret.is_expired());
    assert_eq!(secret.days_until_expiration(), Some(0));
    assert_eq!(secret.expiration_display(), "⚠️ Expires today");
}

#[test]
fn test_secret_expires_tomorrow() {
    let tomorrow = now() + 86400 + 3600;

    let secret = Secret {
        name: "EXPIRING_TOMORROW".to_string(),
        encrypted_value: vec![1, 2, 3],
        expires_at: Some(tomorrow),
    };

    assert!(!secret.is_expired());
    assert_eq!(secret.days_until_expiration(), Some(1));
    assert_eq!(secret.expiration_display(), "⚠️ Expires tomorrow");
}

#[test]
fn test_secret_expires_in_week() {
    let in_5_days = now() + 5 * 86400;

    let secret = Secret {
        name: "EXPIRING_WEEK".to_string(),
        encrypted_value: vec![1, 2, 3],
        expires_at: Some(in_5_days),
    };

    assert!(!secret.is_expired());
    assert_eq!(secret.days_until_expiration(), Some(5));
    assert_eq!(secret.expiration_display(), "⚠️ 5 days");
}

#[test]
fn test_store_new_is_empty() {
    let store = SecretsStore::new();
    assert!(store.secrets.is_empty());
    assert!(store.list_secrets().is_empty());
}

#[test]
fn test_store_add_and_get_secret() {
    let key = test_key();
    let mut store = SecretsStore::new();

    store
        .add_secret(
            "MY_API_KEY".to_string(),
            "secret_value_123".to_string(),
            None,
            &key,
        )
        .expect("Failed to add secret");

    assert_eq!(store.secrets.len(), 1);
    assert!(store.get_secret("MY_API_KEY").is_some());
    assert!(store.get_secret("NONEXISTENT").is_none());
}

#[test]
fn test_store_decrypt_secret() {
    let key = test_key();
    let mut store = SecretsStore::new();

    store
        .add_secret(
            "DB_PASSWORD".to_string(),
            "super_secure_password".to_string(),
            None,
            &key,
        )
        .expect("Failed to add secret");

    let decrypted = store
        .decrypt_secret("DB_PASSWORD", &key)
        .expect("Failed to decrypt");
    assert_eq!(decrypted, "super_secure_password");
}

#[test]
fn test_store_decrypt_nonexistent_fails() {
    let store = SecretsStore::new();
    let key = test_key();

    let result = store.decrypt_secret("NONEXISTENT", &key);
    assert!(result.is_err());
}

#[test]
fn test_store_delete_secret() {
    let key = test_key();
    let mut store = SecretsStore::new();

    store
        .add_secret("TO_DELETE".to_string(), "value".to_string(), None, &key)
        .expect("Failed to add secret");

    assert!(store.get_secret("TO_DELETE").is_some());

    store.delete_secret("TO_DELETE");

    assert!(store.get_secret("TO_DELETE").is_none());
}

#[test]
fn test_store_list_secrets_sorted() {
    let key = test_key();
    let mut store = SecretsStore::new();

    for name in ["ZEBRA", "ALPHA", "MIDDLE"] {
        store
            .add_secret(name.to_string(), "value".to_string(), None, &key)
            .expect("Failed to add secret");
    }

    let secrets = store.list_secrets();
    let names: Vec<_> = secrets.iter().map(|s| s.name.as_str()).collect();
    assert_eq!(names, vec!["ALPHA", "MIDDLE", "ZEBRA"]);
}

#[test]
fn test_store_decrypt_all() {
    let key = test_key();
    let mut store = SecretsStore::new();

    store
        .add_secret("KEY1".to_string(), "value1".to_string(), None, &key)
        .expect("Failed to add secret");
    store
        .add_secret("KEY2".to_string(), "value2".to_string(), None, &key)
        .expect("Failed to add secret");

    let all = store.decrypt_all(&key).expect("Failed to decrypt all");
    assert_eq!(all.len(), 2);
    assert_eq!(value_of(&all, "KEY1").unwrap(), "value1");
    assert_eq!(value_of(&all, "KEY2").unwrap(), "value2");
}

#[test]
fn test_store_add_secret_with_expiration() {
    let key = test_key();
    let mut store = SecretsStore::new();

    store
        .add_secret("EXPIRING".to_string(), "temp_value".to_string(), Some(7), &key)
        .expect("Failed to add secret");

    let secret = store.get_secret("EXPIRING").unwrap();
    assert!(secret.expires_at.is_some());

    let days = secret.days_until_expiration().unwrap();
    assert!(days >= 6 && days <= 7);
}

#[test]
fn test_store_unicode_secret_names_and_values() {
    let key = test_key();
    let mut store = SecretsStore::new();

    store
        .add_secret(
            "日本語_KEY".to_string(),
            "Valeur avec émojis 🔐🔑".to_string(),
            None,
            &key,
        )
        .expect("Failed to add unicode secret");

    let decrypted = store
        .decrypt_secret("日本語_KEY", &key)
        .expect("Failed to decrypt");
    assert_eq!(decrypted, "Valeur avec émojis 🔐🔑");
}

#[test]
fn adding_an_existing_name_overwrites() {
    let key = test_key();
    let mut store = SecretsStore::new();
    store.add_secret("A".to_string(), "one".to_string(), None, &key).unwrap();
    store.add_secret("A".to_string(), "two".to_string(), Some(3), &key).unwrap();
    assert_eq!(store.secrets.len(), 1);
    assert_eq!(store.decrypt_secret("A", &key).unwrap(), "two");
    assert!(store.get_secret("A").unwrap().expires_at.is_some());
}

#[test]
fn listing_is_strictly_ascending() {
    let key = test_key();
    let mut store = SecretsStore::new();
    for name in ["b", "B", "a", "ab", "A", "b"] {
        store.add_secret(name.to_string(), "v".to_string(), None, &key).unwrap();
    }
    let names: Vec<_> = store.list_secrets().iter().map(|s| s.name.clone()).collect();
    assert_eq!(names, vec!["A", "B", "a", "ab", "b"]);
    for w in names.windows(2) {
        assert!(w[0] < w[1]);
    }
    assert!(store.is_well_formed());
}

#[test]
fn expiry_at_given_time() {
    let key = test_key();
    let mut store = SecretsStore::new();
    let t = 1_700_000_000i64;
    store
        .add_secret_at("X".to_string(), "v".to_string(), Some(30), t, &key)
        .unwrap();
    let s = store.get_secret("X").unwrap();
    assert_eq!(s.expires_at, Some(t + 30 * 86400));
    assert_eq!(s.days_until_expiration_at(t), Some(30));
    assert!(!s.is_expired_at(t));
    assert_eq!(s.expiration_display_at(t), "30 days");
    assert_eq!(s.expiration_display_at(t + 23 * 86400), "⚠️ 7 days");
    assert!(s.is_expired_at(t + 30 * 86400 + 1));
    assert!(!s.is_expired_at(t + 30 * 86400));
}

#[test]
fn expiry_is_floor_of_days() {
    let s = Secret {
        name: "S".to_string(),
        encrypted_value: vec![],
        expires_at: Some(1000),
    };
    assert_eq!(s.days_until_expiration_at(1000 + 3600), Some(-1));
    assert_eq!(s.expiration_display_at(1000 + 3600), "⚠️ EXPIRED");
    assert_eq!(s.days_until_expiration_at(1000 - 86400 * 2), Some(2));
    assert_eq!(s.days_until_expiration_at(1000 - 86400 * 2 + 1), Some(1));
    assert!(s.is_expired_at(1001));
    assert!(!s.is_expired_at(1000));
}

#[test]
fn one_second_past_is_expired() {
    let s = Secret {
        name: "S".to_string(),
        encrypted_value: vec![],
        expires_at: Some(now() - 1),
    };
    assert!(s.is_expired());
}

#[test]
fn expiry_clamps_at_largest_timestamp() {
    let key = test_key();
    let mut store = SecretsStore::new();
    store
        .add_secret_at("X".to_string(), "v".to_string(), Some(u32::MAX), i64::MAX - 5, &key)
        .unwrap();
    assert_eq!(store.get_secret("X").unwrap().expires_at, Some(i64::MAX));
}

#[test]
fn decrypt_with_wrong_key_is_crypto_error() {
    let key = test_key();
    let mut store = SecretsStore::new();
    store.add_secret("A".to_string(), "v".to_string(), None, &key).unwrap();
    assert_eq!(store.decrypt_secret("A", &[7u8; 32]), Err(VaultError::Crypto));
    assert_eq!(store.decrypt_all(&[7u8; 32]), Err(VaultError::Crypto));
    assert_eq!(store.decrypt_secret("B", &key), Err(VaultError::NotFound));
}

#[test]
fn value_that_is_not_utf8_is_corrupt() {
    let key = test_key();
    let mut store = SecretsStore::new();
    let blob = lazy_locker::crypto::encrypt(&[0xff, 0xfe], &key).unwrap();
    store.insert_entry(Secret {
        name: "BIN".to_string(),
        encrypted_value: blob,
        expires_at: None,
    });
    assert_eq!(store.decrypt_secret("BIN", &key), Err(VaultError::CorruptStore));
}

#[test]
fn sealed_store_reopens_to_same_bytes() {
    let key = test_key();
    let json = br#"{"secrets":{}}"#;
    let blob = seal_store(json, &key).unwrap();
    assert_ne!(&blob[12..blob.len() - 16], &json[..]);
    assert_eq!(open_store(&blob, &key).unwrap(), json.to_vec());
    assert_eq!(open_store(&blob, &[1u8; 32]), Err(VaultError::CorruptStore));
    assert_eq!(open_store(&blob[..20], &key), Err(VaultError::CorruptStore));
}

#[test]
fn rebuilding_from_listed_secrets_keeps_the_mapping() {
    let key = test_key();
    let mut store = SecretsStore::new();
    for (n, v) in [("K2", "b"), ("K1", "a"), ("K3", "c")] {
        store.add_secret(n.to_string(), v.to_string(), Some(1), &key).unwrap();
    }
    store.delete_secret("K2");
    let items: Vec<Secret> = store.secrets.iter().rev().cloned().collect();
    let again = SecretsStore::from_entries(Some("/tmp/s.json".to_string()), items);
    assert!(again.is_well_formed());
    assert_eq!(again.get_path(), "/tmp/s.json");
    let names: Vec<_> = again.list_secrets().iter().map(|s| s.name.clone()).collect();
    assert_eq!(names, vec!["K1", "K3"]);
    assert_eq!(again.decrypt_secret("K3", &key).unwrap(), "c");
    let raw = &again.get_secret("K1").unwrap().encrypted_value;
    assert_eq!(decrypt(raw, &key).unwrap(), b"a".to_vec());
}

#[test]
fn from_entries_later_item_wins() {
    let key = test_key();
    let a = lazy_locker::crypto::encrypt(b"first", &key).unwrap();
    let b = lazy_locker::crypto::encrypt(b"second", &key).unwrap();
    let items = vec![
        Secret { name: "N".to_string(), encrypted_value: a, expires_at: None },
        Secret { name: "N".to_string(), encrypted_value: b, expires_at: Some(5) },
    ];
    let store = SecretsStore::from_entries(None, items);
    assert_eq!(store.secrets.len(), 1);
    assert_eq!(store.decrypt_secret("N", &key).unwrap(), "second");
}
