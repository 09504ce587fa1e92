//! The session: the root key once unlocked, and the passphrase operations
//! that wrap and unwrap it or short text secrets.
use crate::envelope::{
    colon_free, is_wrapping, join_envelope, lemma_base58_colon_free, lemma_malformed_colon_counts,
    sealed_with, split_envelope, unwrapped, envelope_text, zero_nonce_bytes,
    CHA_CHA20_POLY1350_V1_INFO, KEY_LEN, MAX_PLAINTEXT_LEN, SALT_LEN,
};
use crate::error::SecretError;
use crate::primitives::{
    argon2id_hash, argon2id_output, base58_bytes, base58_decode, base58_encode, base58_text,
    chacha20poly1305_decrypt, chacha20poly1305_encrypt, hkdf_sha256, hkdf_sha256_output, is_base58,
    random_bytes, string_from_utf8,
};
use vstd::prelude::*;
use vstd::string::{StrSliceExecFns, StringSliceAdditionalSpecFns};
use vstd::utf8::{
    decode_utf8, encode_utf8, encode_utf8_decode_utf8, encode_utf8_valid_utf8, valid_utf8,
};

verus! {

/// Argon2id memory cost, in KiB (64 MiB).
pub const ARGON2_M_COST: u32 = 64 * 1024;

/// Argon2id passes.
pub const ARGON2_T_COST: u32 = 2;

/// Argon2id lanes.
pub const ARGON2_P_COST: u32 = 8;

/// The key-derivation function accepts this passphrase and salt: the
/// passphrase fits in `u32::MAX` bytes and the salt has 8 to `u32::MAX` bytes.
pub open spec fn passphrase_accepted(secret: Seq<char>, salt: Seq<char>) -> bool {
    &&& encode_utf8(secret).len() <= 0xffff_ffff
    &&& 8 <= encode_utf8(salt).len() <= 0xffff_ffff
}

/// The key-encryption key derived from a passphrase and a salt.
pub open spec fn passphrase_key(secret: Seq<char>, salt: Seq<char>) -> Seq<u8> {
    argon2id_output(
        ARGON2_M_COST,
        ARGON2_T_COST,
        ARGON2_P_COST,
        KEY_LEN,
        encode_utf8(secret),
        encode_utf8(salt),
    )
}

/// `env` wraps the root key given as base-58 text `root_key` under the key of
/// `secret` and `salt`, as initializing the session produces it.
pub open spec fn initialized(secret: Seq<char>, salt: Seq<char>, root_key: Seq<char>, env: Seq<char>) -> bool {
    let kek = passphrase_key(secret, salt);
    &&& passphrase_accepted(secret, salt)
    &&& is_base58(root_key)
    &&& base58_text(base58_bytes(root_key)) == root_key
    &&& is_wrapping(env, kek, base58_bytes(root_key))
    &&& unwrapped(env, kek) == Ok::<Seq<u8>, SecretError>(base58_bytes(root_key))
}

/// The root key, as base-58 text, that unlocking `env` with `secret` and
/// `salt` recovers; `None` where unwrapping fails.
pub open spec fn unlocked_key(secret: Seq<char>, salt: Seq<char>, env: Seq<char>) -> Option<Seq<char>> {
    match unwrapped(env, passphrase_key(secret, salt)) {
        Ok(key) => Some(base58_text(key)),
        Err(_) => None,
    }
}

/// `env` wraps the UTF-8 bytes of the text `plain` under the key of
/// `secret` and `salt`.
pub open spec fn secret_sealed(secret: Seq<char>, salt: Seq<char>, plain: Seq<char>, env: Seq<char>) -> bool {
    let kek = passphrase_key(secret, salt);
    &&& passphrase_accepted(secret, salt)
    &&& is_wrapping(env, kek, encode_utf8(plain))
    &&& unwrapped(env, kek) == Ok::<Seq<u8>, SecretError>(encode_utf8(plain))
}

/// The text secret that `env` yields under `secret` and `salt`, or why not.
pub open spec fn secret_opened(secret: Seq<char>, salt: Seq<char>, env: Seq<char>) -> Result<Seq<char>, SecretError> {
    if !passphrase_accepted(secret, salt) {
        Err(SecretError::KdfInput)
    } else {
        match unwrapped(env, passphrase_key(secret, salt)) {
            Ok(bytes) => if valid_utf8(bytes) {
                Ok(decode_utf8(bytes))
            } else {
                Err(SecretError::Utf8Decode)
            },
            Err(e) => Err(e),
        }
    }
}

/// Unlocking an envelope with the passphrase and salt that initialized it
/// succeeds and recovers the root key unchanged.
pub proof fn lemma_unlock_recovers_root_key(secret: Seq<char>, salt: Seq<char>, root_key: Seq<char>, env: Seq<char>)
    requires
        initialized(secret, salt, root_key, env),
    ensures
        passphrase_accepted(secret, salt),
        unlocked_key(secret, salt, env) == Some(root_key),
{
}

/// A text secret sealed under a passphrase and salt opens, under the same
/// passphrase and salt, to exactly that text.
pub proof fn lemma_secret_round_trip(secret: Seq<char>, salt: Seq<char>, plain: Seq<char>, env: Seq<char>)
    requires
        secret_sealed(secret, salt, plain, env),
    ensures
        secret_opened(secret, salt, env) == Ok::<Seq<char>, SecretError>(plain),
{
    encode_utf8_valid_utf8(plain);
    encode_utf8_decode_utf8(plain);
}

/// The session: locked, or unlocked with the root key as base-58 text.
pub struct UiApp {
    root_key: Option<String>,
}

impl View for UiApp {
    type V = Option<Seq<char>>;

    closed spec fn view(&self) -> Option<Seq<char>> {
        match self.root_key {
            Some(key) => Some(key@),
            None => None,
        }
    }
}

impl UiApp {
    /// A locked session.
    pub fn new() -> (r: Self)
        ensures
            r@ is None,
    {
        UiApp { root_key: None }
    }

    /// Wraps the base-58 root key `key` under the key of `secret` and `salt`
    /// and unlocks the session with the key recovered from that envelope.
    /// Returns the envelope, for the caller to keep.
    pub fn set_new_secret(&mut self, secret: &str, salt: &str, key: &str) -> (r: Result<String, SecretError>)
        requires
            key@.len() < MAX_PLAINTEXT_LEN,
        ensures
            !passphrase_accepted(secret@, salt@) ==> r == Err::<String, SecretError>(SecretError::KdfInput)
                && final(self)@ == old(self)@,
            passphrase_accepted(secret@, salt@) && !is_base58(key@) ==> r == Err::<String, SecretError>(
                SecretError::Encoding,
            ) && final(self)@ == old(self)@,
            passphrase_accepted(secret@, salt@) && is_base58(key@) ==> r is Ok && initialized(
                secret@,
                salt@,
                key@,
                r->Ok_0@,
            ) && final(self)@ == Some(key@),
    {
        let secret_key = match Self::derive_key_from_secret(secret, salt.as_bytes()) {
            Ok(k) => k,
            Err(e) => return Err(e),
        };
        let encrypted_key = match self.encrypt_root_key(key, secret_key.as_slice()) {
            Ok(env) => env,
            Err(e) => return Err(e),
        };
        // The session takes the key as recovered from the new envelope, not
        // the caller's text; the two are equal.
        match self.decrypt_root_key(encrypted_key.as_str(), secret_key.as_slice()) {
            Ok(recovered) => {
                self.root_key = Some(recovered);
                Ok(encrypted_key)
            },
            Err(e) => {
                // the envelope was just made under this key
                proof {
                    assert(false);
                }
                Err(e)
            },
        }
    }

    /// Encrypts the text `plain` under the key of `secret` and `salt`.
    pub fn encrypt_by_secret(&self, secret: &str, salt: &str, plain: &str) -> (r: Result<String, SecretError>)
        requires
            encode_utf8(plain@).len() < MAX_PLAINTEXT_LEN,
        ensures
            !passphrase_accepted(secret@, salt@) ==> r == Err::<String, SecretError>(SecretError::KdfInput),
            passphrase_accepted(secret@, salt@) ==> r is Ok && secret_sealed(secret@, salt@, plain@, r->Ok_0@),
    {
        let secret_key = match Self::derive_key_from_secret(secret, salt.as_bytes()) {
            Ok(k) => k,
            Err(e) => return Err(e),
        };
        let bytes = plain.as_bytes_vec();
        self.encrypt_plain_by_key(&bytes, secret_key.as_slice())
    }

    /// Decrypts a text secret under the key of `secret` and `salt`.
    pub fn decrypt_by_secret(&self, secret: &str, salt: &str, encrypted: &str) -> (r: Result<String, SecretError>)
        ensures
            match r {
                Ok(text) => secret_opened(secret@, salt@, encrypted@) == Ok::<Seq<char>, SecretError>(text@),
                Err(e) => secret_opened(secret@, salt@, encrypted@) == Err::<Seq<char>, SecretError>(e),
            },
    {
        let secret_key = match Self::derive_key_from_secret(secret, salt.as_bytes()) {
            Ok(k) => k,
            Err(e) => return Err(e),
        };
        let decrypted = match self.decrypt_by_key(encrypted, secret_key.as_slice()) {
            Ok(bytes) => bytes,
            Err(e) => return Err(e),
        };
        match string_from_utf8(decrypted) {
            Ok(text) => Ok(text),
            Err(_) => Err(SecretError::Utf8Decode),
        }
    }

    /// Unlocks the session with the root key that `encrypted_key` wraps under
    /// the key of `secret` and `salt`. Returns whether it did; a wrong
    /// passphrase and a damaged envelope are not told apart, and either
    /// leaves the session as it was.
    pub fn check_set_secret(&mut self, secret: &str, salt: &str, encrypted_key: &str) -> (r: Result<bool, SecretError>)
        ensures
            !passphrase_accepted(secret@, salt@) ==> r == Err::<bool, SecretError>(SecretError::KdfInput)
                && final(self)@ == old(self)@,
            passphrase_accepted(secret@, salt@) ==> r == Ok::<bool, SecretError>(
                unlocked_key(secret@, salt@, encrypted_key@) is Some,
            ),
            passphrase_accepted(secret@, salt@) && unlocked_key(secret@, salt@, encrypted_key@) is Some
                ==> final(self)@ == unlocked_key(secret@, salt@, encrypted_key@),
            unlocked_key(secret@, salt@, encrypted_key@) is None ==> final(self)@ == old(self)@,
    {
        let derived_key = match Self::derive_key_from_secret(secret, salt.as_bytes()) {
            Ok(k) => k,
            Err(e) => return Err(e),
        };
        match self.decrypt_root_key(encrypted_key, derived_key.as_slice()) {
            Ok(key) => {
                self.root_key = Some(key);
                Ok(true)
            },
            Err(_) => Ok(false),
        }
    }

    /// Derives the key-encryption key from a passphrase and a salt with
    /// Argon2id.
    pub fn derive_key_from_secret(secret: &str, salt: &[u8]) -> (r: Result<Vec<u8>, SecretError>)
        ensures
            (secret.spec_bytes().len() <= 0xffff_ffff && 8 <= salt@.len() <= 0xffff_ffff) <==> r is Ok,
            r is Ok ==> r->Ok_0@ == argon2id_output(
                ARGON2_M_COST,
                ARGON2_T_COST,
                ARGON2_P_COST,
                KEY_LEN,
                secret.spec_bytes(),
                salt@,
            ),
            r is Ok ==> r->Ok_0@.len() == KEY_LEN,
            r is Err ==> r->Err_0 == SecretError::KdfInput,
    {
        match argon2id_hash(ARGON2_M_COST, ARGON2_T_COST, ARGON2_P_COST, KEY_LEN, secret.as_bytes(), salt) {
            Ok(key) => Ok(key),
            Err(_) => Err(SecretError::KdfInput),
        }
    }

    /// The root key as base-58 text; empty while the session is locked.
    pub fn get_root_key(&self) -> (r: String)
        ensures
            r@ == match self@ {
                Some(key) => key,
                None => Seq::<char>::empty(),
            },
    {
        match &self.root_key {
            Some(key) => key.clone(),
            None => String::new(),
        }
    }

    /// The root key as base-58 text, or `None` while the session is locked.
    pub fn current_root_key(&self) -> (r: Option<String>)
        ensures
            match r {
                Some(key) => self@ == Some(key@),
                None => self@ is None,
            },
    {
        match &self.root_key {
            Some(key) => Some(key.clone()),
            None => None,
        }
    }

    /// Locks the session, forgetting the root key.
    pub fn lock(&mut self)
        ensures
            final(self)@ is None,
    {
        self.root_key = None;
    }

    /// Encrypts `plain` under a subkey of `secret_key` and a fresh random
    /// salt, and frames salt and ciphertext as an envelope.
    pub fn encrypt_plain_by_key(&self, plain: &Vec<u8>, secret_key: &[u8]) -> (r: Result<String, SecretError>)
        requires
            plain@.len() < MAX_PLAINTEXT_LEN,
        ensures
            r is Ok,
            is_wrapping(r->Ok_0@, secret_key@, plain@),
            unwrapped(r->Ok_0@, secret_key@) == Ok::<Seq<u8>, SecretError>(plain@),
    {
        let salt = random_bytes(SALT_LEN);
        let derived_key = Self::derive_key(secret_key, salt.as_slice(), CHA_CHA20_POLY1350_V1_INFO);
        let nonce = zero_nonce_bytes();
        let ciphertext = match chacha20poly1305_encrypt(derived_key.as_slice(), nonce.as_slice(), plain.as_slice()) {
            Ok(c) => c,
            Err(_) => {
                // the plaintext is below the cipher's limit
                proof {
                    assert(false);
                }
                return Err(SecretError::AuthenticationFailed);
            },
        };
        let salt_string = base58_encode(salt.as_slice());
        let ciphertext_string = base58_encode(ciphertext.as_slice());
        proof {
            lemma_base58_colon_free(salt_string@);
            lemma_base58_colon_free(ciphertext_string@);
        }
        let encrypted_key = join_envelope(salt_string, ciphertext_string.as_str());
        assert(encrypted_key@ == envelope_text(salt@, sealed_with(secret_key@, salt@, plain@)));
        Ok(encrypted_key)
    }

    /// Decrypts an envelope under `secret_key`.
    pub fn decrypt_by_key(&self, encrypted: &str, secret_key: &[u8]) -> (r: Result<Vec<u8>, SecretError>)
        ensures
            match r {
                Ok(plain) => unwrapped(encrypted@, secret_key@) == Ok::<Seq<u8>, SecretError>(plain@),
                Err(e) => unwrapped(encrypted@, secret_key@) == Err::<Seq<u8>, SecretError>(e),
            },
            colon_free(encrypted@) ==> r == Err::<Vec<u8>, SecretError>(SecretError::MalformedEnvelope),
            (exists|i: int, j: int|
                0 <= i < j < encrypted@.len() && encrypted@[i] == ':' && encrypted@[j] == ':')
                ==> r == Err::<Vec<u8>, SecretError>(SecretError::MalformedEnvelope),
    {
        proof {
            lemma_malformed_colon_counts(encrypted@);
        }
        let (salt_text, ciphertext_text) = match split_envelope(encrypted) {
            Some(parts) => parts,
            None => return Err(SecretError::MalformedEnvelope),
        };
        let salt = match base58_decode(salt_text) {
            Ok(bytes) => bytes,
            Err(_) => return Err(SecretError::Encoding),
        };
        let ciphertext = match base58_decode(ciphertext_text) {
            Ok(bytes) => bytes,
            Err(_) => return Err(SecretError::Encoding),
        };
        let derived_key = Self::derive_key(secret_key, salt.as_slice(), CHA_CHA20_POLY1350_V1_INFO);
        let nonce = zero_nonce_bytes();
        match chacha20poly1305_decrypt(derived_key.as_slice(), nonce.as_slice(), ciphertext.as_slice()) {
            Ok(plain) => Ok(plain),
            Err(_) => Err(SecretError::AuthenticationFailed),
        }
    }

    /// Wraps the base-58 root key `root_key` under `secret_key`.
    pub fn encrypt_root_key(&self, root_key: &str, secret_key: &[u8]) -> (r: Result<String, SecretError>)
        requires
            root_key@.len() < MAX_PLAINTEXT_LEN,
        ensures
            is_base58(root_key@) <==> r is Ok,
            r is Err ==> r->Err_0 == SecretError::Encoding,
            r is Ok ==> is_wrapping(r->Ok_0@, secret_key@, base58_bytes(root_key@)),
            r is Ok ==> unwrapped(r->Ok_0@, secret_key@) == Ok::<Seq<u8>, SecretError>(
                base58_bytes(root_key@),
            ),
            r is Ok ==> base58_text(base58_bytes(root_key@)) == root_key@,
    {
        let decoded_key = match base58_decode(root_key) {
            Ok(bytes) => bytes,
            Err(_) => return Err(SecretError::Encoding),
        };
        self.encrypt_plain_by_key(&decoded_key, secret_key)
    }

    /// Unwraps a root key from an envelope under `secret_key`, as base-58
    /// text.
    pub fn decrypt_root_key(&self, encrypted_root_key: &str, secret_key: &[u8]) -> (r: Result<String, SecretError>)
        ensures
            match r {
                Ok(key) => unwrapped(encrypted_root_key@, secret_key@) is Ok && key@ == base58_text(
                    unwrapped(encrypted_root_key@, secret_key@)->Ok_0,
                ),
                Err(e) => unwrapped(encrypted_root_key@, secret_key@) == Err::<Seq<u8>, SecretError>(e),
            },
    {
        let unencrypted_key = match self.decrypt_by_key(encrypted_root_key, secret_key) {
            Ok(bytes) => bytes,
            Err(e) => return Err(e),
        };
        Ok(base58_encode(unencrypted_key.as_slice()))
    }

    /// Expands a 32-byte subkey from `root_key`, `salt` and `info` with
    /// HKDF-SHA-256.
    pub fn derive_key(root_key: &[u8], salt: &[u8], info: &str) -> (r: Vec<u8>)
        ensures
            r@ == hkdf_sha256_output(salt@, root_key@, info.spec_bytes(), KEY_LEN),
            r@.len() == KEY_LEN,
    {
        match hkdf_sha256(salt, root_key, info.as_bytes(), KEY_LEN) {
            Ok(key) => key,
            Err(_) => {
                // 32 bytes is within HKDF's limit
                proof {
                    assert(false);
                }
                Vec::new()
            },
        }
    }
}

} // verus!
