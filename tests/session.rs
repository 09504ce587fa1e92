use ui::{SecretError, UiApp};

const PASSPHRASE: &str = "correct horse battery staple";
const SALT: &str = "0123456789abcdef";

#[test]
fn correct_passphrase_unlocks_and_wrong_one_does_not() {
    let root = bs58::encode([0u8; 32]).into_string();
    assert_eq!(root, "11111111111111111111111111111111");
    let mut first = UiApp::new();
    let envelope = first.set_new_secret(PASSPHRASE, SALT, &root).unwrap();
    assert_eq!(first.get_root_key(), root);

    let mut second = UiApp::new();
    assert_eq!(second.check_set_secret(PASSPHRASE, SALT, &envelope), Ok(true));
    assert_eq!(second.get_root_key(), root);
    assert_eq!(
        bs58::decode(second.get_root_key()).into_vec().unwrap(),
        vec![0u8; 32]
    );

    let mut third = UiApp::new();
    assert_eq!(third.check_set_secret("wrong", SALT, &envelope), Ok(false));
    assert_eq!(third.current_root_key(), None);
}

#[test]
fn text_secret_round_trip() {
    let app = UiApp::new();
    let envelope = app.encrypt_by_secret("p", SALT, "hello").unwrap();
    assert_eq!(app.decrypt_by_secret("p", SALT, &envelope).unwrap(), "hello");
}

#[test]
fn passphrase_key_is_argon2id_with_fixed_parameters() {
    let key = UiApp::derive_key_from_secret("", b"saltsalt").unwrap();
    let params = argon2::Params::new(64 * 1024, 2, 8, Some(32)).unwrap();
    let argon = argon2::Argon2::new(argon2::Algorithm::Argon2id, argon2::Version::V0x13, params);
    let mut expected = [0u8; 32];
    argon.hash_password_into(b"", b"saltsalt", &mut expected).unwrap();
    assert_eq!(key, expected.to_vec());
}

#[test]
fn short_salt_is_refused_by_the_kdf() {
    assert_eq!(UiApp::derive_key_from_secret("p", b"1234567"), Err(SecretError::KdfInput));
    let mut app = UiApp::new();
    assert_eq!(app.check_set_secret("p", "short", "a:b"), Err(SecretError::KdfInput));
    assert_eq!(
        app.set_new_secret("p", "short", "11111111111111111111111111111111"),
        Err(SecretError::KdfInput)
    );
    assert_eq!(app.encrypt_by_secret("p", "short", "hello"), Err(SecretError::KdfInput));
    assert_eq!(app.decrypt_by_secret("p", "short", "a:b"), Err(SecretError::KdfInput));
    assert_eq!(app.current_root_key(), None);
}

#[test]
fn non_base58_root_key_is_refused_and_session_stays_locked() {
    let mut app = UiApp::new();
    assert_eq!(app.set_new_secret("p", SALT, "not base58!"), Err(SecretError::Encoding));
    assert_eq!(app.current_root_key(), None);
}

#[test]
fn unlocking_a_damaged_envelope_returns_false() {
    let mut app = UiApp::new();
    assert_eq!(app.check_set_secret("p", SALT, "no separator"), Ok(false));
    assert_eq!(app.get_root_key(), "");
}

#[test]
fn decrypting_non_utf8_secret_is_utf8_error() {
    let app = UiApp::new();
    let key = UiApp::derive_key_from_secret("p", SALT.as_bytes()).unwrap();
    let envelope = app.encrypt_plain_by_key(&vec![0xff, 0xfe], &key).unwrap();
    assert_eq!(app.decrypt_by_secret("p", SALT, &envelope), Err(SecretError::Utf8Decode));
}

#[test]
fn decrypting_malformed_secret_reports_the_envelope_error() {
    let app = UiApp::new();
    assert_eq!(app.decrypt_by_secret("p", SALT, "a:b:c"), Err(SecretError::MalformedEnvelope));
}

#[test]
fn new_session_is_locked_and_lock_forgets_the_key() {
    let mut app = UiApp::new();
    assert_eq!(app.get_root_key(), "");
    assert_eq!(app.current_root_key(), None);
    let key = [9u8; 32];
    let root = bs58::encode([5u8; 32]).into_string();
    let envelope = app.encrypt_root_key(&root, &key).unwrap();
    assert_eq!(app.decrypt_root_key(&envelope, &key).unwrap(), root);
    app.lock();
    assert_eq!(app.current_root_key(), None);
}

#[test]
fn rotating_the_passphrase_keeps_the_root_key() {
    let root = bs58::encode([1u8; 32]).into_string();
    let mut app = UiApp::new();
    let rotated = app.set_new_secret("new passphrase", SALT, &root).unwrap();
    assert_eq!(app.current_root_key(), Some(root.clone()));
    let mut other = UiApp::new();
    assert_eq!(other.check_set_secret("new passphrase", SALT, &rotated), Ok(true));
    assert_eq!(other.current_root_key(), Some(root));
}
