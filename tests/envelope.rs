use chacha20poly1305::aead::{Aead, KeyInit};
use std::collections::HashSet;
use ui::{SecretError, UiApp};

const KEY: [u8; 32] = [7u8; 32];

fn fields(env: &str) -> (Vec<u8>, Vec<u8>) {
    let parts: Vec<&str> = env.split(':').collect();
    assert_eq!(parts.len(), 2);
    (
        bs58::decode(parts[0]).into_vec().unwrap(),
        bs58::decode(parts[1]).into_vec().unwrap(),
    )
}

#[test]
fn wrap_then_unwrap_gives_plaintext() {
    let app = UiApp::new();
    let plain = b"a short secret".to_vec();
    let env = app.encrypt_plain_by_key(&plain, &KEY).unwrap();
    assert_eq!(app.decrypt_by_key(&env, &KEY).unwrap(), plain);
}

#[test]
fn wrap_empty_plaintext() {
    let app = UiApp::new();
    let env = app.encrypt_plain_by_key(&Vec::new(), &KEY).unwrap();
    assert_eq!(app.decrypt_by_key(&env, &KEY).unwrap(), Vec::<u8>::new());
}

#[test]
fn envelope_fields_are_salt_and_sealed_text() {
    let app = UiApp::new();
    let plain = b"0123456789".to_vec();
    let env = app.encrypt_plain_by_key(&plain, &KEY).unwrap();
    let (salt, sealed) = fields(&env);
    assert_eq!(salt.len(), 32);
    assert_eq!(sealed.len(), plain.len() + 16);
    assert_ne!(&sealed[..plain.len()], plain.as_slice());
}

#[test]
fn sealed_text_is_chacha20poly1305_under_hkdf_subkey() {
    let app = UiApp::new();
    let plain = b"interoperable".to_vec();
    let env = app.encrypt_plain_by_key(&plain, &KEY).unwrap();
    let (salt, sealed) = fields(&env);
    let hk = hkdf::Hkdf::<sha2::Sha256>::new(Some(&salt), &KEY);
    let mut subkey = [0u8; 32];
    hk.expand(b"cognitechbridge.com/v1/ChaCha20Poly1350", &mut subkey).unwrap();
    let cipher = chacha20poly1305::ChaCha20Poly1305::new(chacha20poly1305::Key::from_slice(&subkey));
    let opened = cipher
        .decrypt(chacha20poly1305::Nonce::from_slice(&[0u8; 12]), sealed.as_slice())
        .unwrap();
    assert_eq!(opened, plain);
}

#[test]
fn derive_key_matches_rfc5869_case_3() {
    let ikm = [0x0bu8; 22];
    let okm = UiApp::derive_key(&ikm, &[], "");
    let expected: Vec<u8> = vec![
        0x8d, 0xa4, 0xe7, 0x75, 0xa5, 0x63, 0xc1, 0x8f, 0x71, 0x5f, 0x80, 0x2a, 0x06, 0x3c, 0x5a,
        0x31, 0xb8, 0xa1, 0x1f, 0x5c, 0x5e, 0xe1, 0x87, 0x9e, 0xc3, 0x45, 0x4e, 0x5f, 0x3c, 0x73,
        0x8d, 0x2d,
    ];
    assert_eq!(okm, expected);
}

#[test]
fn derive_key_depends_on_salt_and_info() {
    let a = UiApp::derive_key(&KEY, b"salt-one", "info");
    let b = UiApp::derive_key(&KEY, b"salt-two", "info");
    let c = UiApp::derive_key(&KEY, b"salt-one", "other");
    assert_eq!(a.len(), 32);
    assert_ne!(a, b);
    assert_ne!(a, c);
}

#[test]
fn unwrap_with_wrong_key_fails_authentication() {
    let app = UiApp::new();
    let env = app.encrypt_plain_by_key(&b"secret".to_vec(), &KEY).unwrap();
    assert_eq!(app.decrypt_by_key(&env, &[8u8; 32]), Err(SecretError::AuthenticationFailed));
}

#[test]
fn every_single_bit_flip_in_ciphertext_is_detected() {
    let app = UiApp::new();
    let plain = [0u8; 32].to_vec();
    let env = app.encrypt_plain_by_key(&plain, &KEY).unwrap();
    let salt_text = env.split(':').next().unwrap().to_string();
    let (_, sealed) = fields(&env);
    for byte in 0..sealed.len() {
        for bit in 0..8 {
            let mut altered = sealed.clone();
            altered[byte] ^= 1 << bit;
            let tampered = format!("{}:{}", salt_text, bs58::encode(&altered).into_string());
            assert_eq!(
                app.decrypt_by_key(&tampered, &KEY),
                Err(SecretError::AuthenticationFailed)
            );
        }
    }
}

#[test]
fn ten_thousand_wraps_have_distinct_salts_and_ciphertexts() {
    let app = UiApp::new();
    let plain = [0u8; 32].to_vec();
    let mut salts = HashSet::new();
    let mut sealed_texts = HashSet::new();
    for _ in 0..10_000 {
        let env = app.encrypt_plain_by_key(&plain, &KEY).unwrap();
        let mut parts = env.split(':');
        salts.insert(parts.next().unwrap().to_string());
        sealed_texts.insert(parts.next().unwrap().to_string());
    }
    assert_eq!(salts.len(), 10_000);
    assert_eq!(sealed_texts.len(), 10_000);
}

#[test]
fn envelope_without_colon_is_malformed() {
    let app = UiApp::new();
    assert_eq!(app.decrypt_by_key("abc", &KEY), Err(SecretError::MalformedEnvelope));
    assert_eq!(app.decrypt_by_key("", &KEY), Err(SecretError::MalformedEnvelope));
}

#[test]
fn envelope_with_two_colons_is_malformed() {
    let app = UiApp::new();
    let env = app.encrypt_plain_by_key(&b"x".to_vec(), &KEY).unwrap();
    assert_eq!(
        app.decrypt_by_key(&format!("{}:", env), &KEY),
        Err(SecretError::MalformedEnvelope)
    );
    assert_eq!(app.decrypt_by_key("a:b:c", &KEY), Err(SecretError::MalformedEnvelope));
    assert_eq!(app.decrypt_by_key("::", &KEY), Err(SecretError::MalformedEnvelope));
}

#[test]
fn envelope_with_non_base58_field_is_encoding_error() {
    let app = UiApp::new();
    let env = app.encrypt_plain_by_key(&b"x".to_vec(), &KEY).unwrap();
    let (salt_text, sealed_text) = env.split_once(':').unwrap();
    assert_eq!(
        app.decrypt_by_key(&format!("0{}:{}", salt_text, sealed_text), &KEY),
        Err(SecretError::Encoding)
    );
    assert_eq!(
        app.decrypt_by_key(&format!("{}:{}l", salt_text, sealed_text), &KEY),
        Err(SecretError::Encoding)
    );
    assert_eq!(app.decrypt_by_key("é:abc", &KEY), Err(SecretError::Encoding));
}

#[test]
fn empty_fields_fail_authentication() {
    let app = UiApp::new();
    assert_eq!(app.decrypt_by_key(":", &KEY), Err(SecretError::AuthenticationFailed));
}

#[test]
fn root_key_wraps_its_decoded_bytes() {
    let app = UiApp::new();
    let root = bs58::encode([3u8; 32]).into_string();
    let env = app.encrypt_root_key(&root, &KEY).unwrap();
    assert_eq!(app.decrypt_by_key(&env, &KEY).unwrap(), vec![3u8; 32]);
    assert_eq!(app.decrypt_root_key(&env, &KEY).unwrap(), root);
}

#[test]
fn root_key_that_is_not_base58_is_encoding_error() {
    let app = UiApp::new();
    assert_eq!(app.encrypt_root_key("0OIl", &KEY), Err(SecretError::Encoding));
}

#[test]
fn unwrapped_root_key_is_base58_text() {
    let app = UiApp::new();
    let env = app.encrypt_plain_by_key(&vec![0u8, 0, 1], &KEY).unwrap();
    assert_eq!(app.decrypt_root_key(&env, &KEY).unwrap(), "112");
}
