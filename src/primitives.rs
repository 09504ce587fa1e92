//! The cryptographic and encoding primitives this library relies on, each
//! behind a contract stated over the names below.
use chacha20poly1305::aead::{Aead, KeyInit};
use rand::RngCore;
use vstd::prelude::*;
use vstd::utf8::{decode_utf8, valid_utf8};

verus! {

#[verifier::external_type_specification]
#[verifier::external_body]
pub struct ExArgon2Error(argon2::Error);

#[verifier::external_type_specification]
#[verifier::external_body]
pub struct ExHkdfInvalidLength(hkdf::InvalidLength);

#[verifier::external_type_specification]
#[verifier::external_body]
pub struct ExAeadError(chacha20poly1305::Error);

#[verifier::external_type_specification]
#[verifier::external_body]
pub struct ExBase58DecodeError(bs58::decode::Error);

#[verifier::external_type_specification]
#[verifier::external_body]
pub struct ExFromUtf8Error(std::string::FromUtf8Error);

/// The bytes that Argon2id, version 0x13, derives from a password and a salt
/// under the given memory cost (KiB), passes, lanes and output length.
pub uninterp spec fn argon2id_output(
    m_cost: u32,
    t_cost: u32,
    p_cost: u32,
    out_len: usize,
    password: Seq<u8>,
    salt: Seq<u8>,
) -> Seq<u8>;

/// The output keying material of HKDF-SHA-256 (extract, then expand) of the
/// given length.
pub uninterp spec fn hkdf_sha256_output(salt: Seq<u8>, ikm: Seq<u8>, info: Seq<u8>, len: usize) -> Seq<u8>;

/// The ChaCha20-Poly1305 ciphertext of `plain`, tag appended, with no
/// associated data.
pub uninterp spec fn chacha20poly1305_sealed(key: Seq<u8>, nonce: Seq<u8>, plain: Seq<u8>) -> Seq<u8>;

/// What ChaCha20-Poly1305 decryption (no associated data) yields: `None`
/// where the tag does not authenticate the ciphertext.
pub uninterp spec fn chacha20poly1305_opened(key: Seq<u8>, nonce: Seq<u8>, sealed: Seq<u8>) -> Option<Seq<u8>>;

/// The base-58 text (Bitcoin alphabet) of a byte string.
pub uninterp spec fn base58_text(bytes: Seq<u8>) -> Seq<char>;

/// The bytes that a base-58 text (Bitcoin alphabet) decodes to.
pub uninterp spec fn base58_bytes(text: Seq<char>) -> Seq<u8>;

/// A character of the Bitcoin base-58 alphabet
/// `123456789ABCDEFGHJKLMNPQRSTUVWXYZabcdefghijkmnopqrstuvwxyz`.
pub open spec fn is_base58_char(c: char) -> bool {
    ||| '1' <= c <= '9'
    ||| 'A' <= c <= 'H'
    ||| 'J' <= c <= 'N'
    ||| 'P' <= c <= 'Z'
    ||| 'a' <= c <= 'k'
    ||| 'm' <= c <= 'z'
}

/// Every character is in the base-58 alphabet.
pub open spec fn is_base58(text: Seq<char>) -> bool {
    forall|i: int| 0 <= i < text.len() ==> is_base58_char(#[trigger] text[i])
}

/// Relies on `argon2::Params::new`, `argon2::Argon2::new` (Argon2id, version
/// 0x13) and `Argon2::hash_password_into`. With costs in the ranges that
/// `Params::new` accepts, hashing fails only on a password longer than
/// `u32::MAX` bytes or a salt outside 8 to `u32::MAX` bytes; otherwise it
/// fills `out_len` bytes that depend on the costs, password and salt alone.
#[verifier::external_body]
pub(crate) fn argon2id_hash(m_cost: u32, t_cost: u32, p_cost: u32, out_len: usize, password: &[u8], salt: &[u8]) -> (r: Result<Vec<u8>, argon2::Error>)
    requires
        8 <= m_cost,
        8 * p_cost <= m_cost,
        1 <= t_cost,
        1 <= p_cost <= 0xff_ffff,
        4 <= out_len <= 0xffff_ffff,
    ensures
        (password@.len() <= 0xffff_ffff && 8 <= salt@.len() <= 0xffff_ffff) <==> r is Ok,
        r is Ok ==> r->Ok_0@ == argon2id_output(m_cost, t_cost, p_cost, out_len, password@, salt@),
        r is Ok ==> r->Ok_0@.len() == out_len,
{
    let params = argon2::Params::new(m_cost, t_cost, p_cost, Some(out_len))?;
    let hasher = argon2::Argon2::new(argon2::Algorithm::Argon2id, argon2::Version::V0x13, params);
    let mut out = vec![0u8; out_len];
    hasher.hash_password_into(password, salt, &mut out)?;
    Ok(out)
}

/// Relies on `hkdf::Hkdf::<sha2::Sha256>::new` and `Hkdf::expand`: expanding
/// fails only when more than 255 * 32 bytes are asked for, and otherwise
/// yields `len` bytes that depend on the salt, key material and info alone.
#[verifier::external_body]
pub(crate) fn hkdf_sha256(salt: &[u8], ikm: &[u8], info: &[u8], len: usize) -> (r: Result<Vec<u8>, hkdf::InvalidLength>)
    ensures
        (len <= 255 * 32) <==> r is Ok,
        r is Ok ==> r->Ok_0@ == hkdf_sha256_output(salt@, ikm@, info@, len),
        r is Ok ==> r->Ok_0@.len() == len,
{
    let hk = hkdf::Hkdf::<sha2::Sha256>::new(Some(salt), ikm);
    let mut okm = vec![0u8; len];
    hk.expand(info, &mut okm)?;
    Ok(okm)
}

/// Relies on `ChaCha20Poly1305::new` and `Aead::encrypt`, without associated
/// data: encryption fails only on a plaintext of 64 * `u32::MAX` bytes or
/// more; the result is the ciphertext followed by the 16-byte tag, and
/// decryption under the same key and nonce gives the plaintext back.
#[verifier::external_body]
pub(crate) fn chacha20poly1305_encrypt(key: &[u8], nonce: &[u8], plain: &[u8]) -> (r: Result<Vec<u8>, chacha20poly1305::Error>)
    requires
        key@.len() == 32,
        nonce@.len() == 12,
    ensures
        (plain@.len() < 64 * 0xffff_ffff) <==> r is Ok,
        r is Ok ==> r->Ok_0@ == chacha20poly1305_sealed(key@, nonce@, plain@),
        r is Ok ==> r->Ok_0@.len() == plain@.len() + 16,
        r is Ok ==> chacha20poly1305_opened(key@, nonce@, r->Ok_0@) == Some(plain@),
{
    let cipher = chacha20poly1305::ChaCha20Poly1305::new(chacha20poly1305::Key::from_slice(key));
    cipher.encrypt(chacha20poly1305::Nonce::from_slice(nonce), plain)
}

/// Relies on `ChaCha20Poly1305::new` and `Aead::decrypt`, without associated
/// data: decryption succeeds exactly when the trailing 16-byte tag
/// authenticates the rest, and yields a plaintext that depends on the key,
/// nonce and ciphertext alone.
#[verifier::external_body]
pub(crate) fn chacha20poly1305_decrypt(key: &[u8], nonce: &[u8], sealed: &[u8]) -> (r: Result<Vec<u8>, chacha20poly1305::Error>)
    requires
        key@.len() == 32,
        nonce@.len() == 12,
    ensures
        chacha20poly1305_opened(key@, nonce@, sealed@) is Some <==> r is Ok,
        r is Ok ==> r->Ok_0@ == chacha20poly1305_opened(key@, nonce@, sealed@)->Some_0,
{
    let cipher = chacha20poly1305::ChaCha20Poly1305::new(chacha20poly1305::Key::from_slice(key));
    cipher.decrypt(chacha20poly1305::Nonce::from_slice(nonce), sealed)
}

/// Relies on `bs58::encode(..).into_string()` (Bitcoin alphabet): the text
/// depends on the bytes alone, holds only alphabet characters, and
/// `bs58::decode` turns it back into the same bytes.
#[verifier::external_body]
pub(crate) fn base58_encode(bytes: &[u8]) -> (r: String)
    ensures
        r@ == base58_text(bytes@),
        is_base58(r@),
        base58_bytes(r@) == bytes@,
{
    bs58::encode(bytes).into_string()
}

/// Relies on `bs58::decode(..).into_vec()` (Bitcoin alphabet): decoding fails
/// exactly when a character is outside the alphabet; otherwise the bytes
/// depend on the text alone, number at most its characters, and
/// `bs58::encode` turns them back into the same text.
#[verifier::external_body]
pub(crate) fn base58_decode(text: &str) -> (r: Result<Vec<u8>, bs58::decode::Error>)
    ensures
        is_base58(text@) <==> r is Ok,
        r is Ok ==> r->Ok_0@ == base58_bytes(text@),
        r is Ok ==> r->Ok_0@.len() <= text@.len(),
        r is Ok ==> base58_text(r->Ok_0@) == text@,
{
    bs58::decode(text).into_vec()
}

/// Relies on `rand::thread_rng` and `RngCore::fill_bytes`: `n` bytes from the
/// thread-local cryptographically secure generator. Nothing is known of
/// their values.
#[verifier::external_body]
pub(crate) fn random_bytes(n: usize) -> (r: Vec<u8>)
    ensures
        r@.len() == n,
{
    let mut out = vec![0u8; n];
    rand::thread_rng().fill_bytes(&mut out);
    out
}

/// Relies on `String::from_utf8`: it fails exactly when the bytes are not
/// UTF-8, and otherwise holds the characters that they encode.
#[verifier::external_body]
pub(crate) fn string_from_utf8(bytes: Vec<u8>) -> (r: Result<String, std::string::FromUtf8Error>)
    ensures
        valid_utf8(bytes@) <==> r is Ok,
        r is Ok ==> r->Ok_0@ == decode_utf8(bytes@),
{
    String::from_utf8(bytes)
}

} // verus!
