//! The envelope: `<base-58 salt>:<base-58 ciphertext and tag>`, and what
//! unwrapping one under a base key yields.
use crate::error::SecretError;
use crate::primitives::{
    base58_bytes, base58_text, chacha20poly1305_opened, chacha20poly1305_sealed, hkdf_sha256_output,
    is_base58, is_base58_char,
};
use vstd::prelude::*;
use vstd::string::{StrSliceExecFns, StringExecFns, StringSliceAdditionalSpecFns};

verus! {

/// Length in bytes of every derived key.
pub const KEY_LEN: usize = 32;

/// Length in bytes of the random salt of each envelope.
pub const SALT_LEN: usize = 32;

/// Length in bytes of the AEAD nonce, which is always all zero: each
/// envelope's subkey comes from a fresh salt and seals one plaintext only.
pub const NONCE_LEN: usize = 12;

/// Plaintexts must be shorter than this many bytes (the cipher's block
/// counter limit).
pub const MAX_PLAINTEXT_LEN: u64 = 64 * 0xffff_ffff;

/// The domain-separation info under which subkeys are expanded.
pub const CHA_CHA20_POLY1350_V1_INFO: &'static str = "cognitechbridge.com/v1/ChaCha20Poly1350";

/// The info bytes of every subkey expansion.
pub open spec fn subkey_info() -> Seq<u8> {
    CHA_CHA20_POLY1350_V1_INFO.spec_bytes()
}

/// The fixed all-zero nonce.
pub open spec fn zero_nonce() -> Seq<u8> {
    Seq::new(NONCE_LEN as nat, |i: int| 0u8)
}

/// The single-use AEAD key derived from a base key and an envelope's salt.
pub open spec fn subkey(base_key: Seq<u8>, salt: Seq<u8>) -> Seq<u8> {
    hkdf_sha256_output(salt, base_key, subkey_info(), KEY_LEN)
}

/// The ciphertext (tag appended) of `plain` under the subkey for `salt`.
pub open spec fn sealed_with(base_key: Seq<u8>, salt: Seq<u8>, plain: Seq<u8>) -> Seq<u8> {
    chacha20poly1305_sealed(subkey(base_key, salt), zero_nonce(), plain)
}

/// The text of an envelope made of a salt and a ciphertext.
pub open spec fn envelope_text(salt: Seq<u8>, sealed: Seq<u8>) -> Seq<char> {
    base58_text(salt) + seq![':'] + base58_text(sealed)
}

/// `env` is an envelope of `plain` under `base_key`, for some salt of the
/// right length.
pub open spec fn is_wrapping(env: Seq<char>, base_key: Seq<u8>, plain: Seq<u8>) -> bool {
    exists|salt: Seq<u8>|
        salt.len() == SALT_LEN && env == #[trigger] envelope_text(salt, sealed_with(base_key, salt, plain))
}

/// No character is a `:`.
pub open spec fn colon_free(t: Seq<char>) -> bool {
    forall|i: int| 0 <= i < t.len() ==> #[trigger] t[i] != ':'
}

/// `p` is the position of the only `:` of `env`.
pub open spec fn is_split_point(env: Seq<char>, p: int) -> bool {
    &&& 0 <= p < env.len()
    &&& env[p] == ':'
    &&& colon_free(env.subrange(0, p))
    &&& colon_free(env.subrange(p + 1, env.len() as int))
}

/// The two fields around the only `:` of `env`, or `None` where `env` holds
/// no `:` or more than one.
pub open spec fn envelope_fields(env: Seq<char>) -> Option<(Seq<char>, Seq<char>)> {
    if exists|p: int| is_split_point(env, p) {
        let p = choose|p: int| is_split_point(env, p);
        Some((env.subrange(0, p), env.subrange(p + 1, env.len() as int)))
    } else {
        None
    }
}

/// What unwrapping `env` under `base_key` yields: the plaintext, or the first
/// failure among framing, base-58 decoding and authentication.
pub open spec fn unwrapped(env: Seq<char>, base_key: Seq<u8>) -> Result<Seq<u8>, SecretError> {
    match envelope_fields(env) {
        None => Err(SecretError::MalformedEnvelope),
        Some((salt_text, sealed_text)) => {
            if !is_base58(salt_text) || !is_base58(sealed_text) {
                Err(SecretError::Encoding)
            } else {
                match chacha20poly1305_opened(
                    subkey(base_key, base58_bytes(salt_text)),
                    zero_nonce(),
                    base58_bytes(sealed_text),
                ) {
                    Some(plain) => Ok(plain),
                    None => Err(SecretError::AuthenticationFailed),
                }
            }
        },
    }
}

/// Base-58 text holds no `:`.
pub proof fn lemma_base58_colon_free(t: Seq<char>)
    requires
        is_base58(t),
    ensures
        colon_free(t),
{
    assert forall|i: int| 0 <= i < t.len() implies #[trigger] t[i] != ':' by {
        assert(is_base58_char(t[i]));
    }
}

/// An envelope has at most one split point.
pub proof fn lemma_split_point_unique(env: Seq<char>, p: int, q: int)
    requires
        is_split_point(env, p),
        is_split_point(env, q),
    ensures
        p == q,
{
    if p < q {
        assert(env.subrange(0, q)[p] == ':');
    } else if q < p {
        assert(env.subrange(0, p)[q] == ':');
    }
}

/// Text with two `:` characters has no split point.
proof fn lemma_two_colons(env: Seq<char>, p: int, q: int)
    requires
        0 <= p < q < env.len(),
        env[p] == ':',
        env[q] == ':',
    ensures
        forall|k: int| !is_split_point(env, k),
{
    assert forall|k: int| !is_split_point(env, k) by {
        if is_split_point(env, k) {
            if k < p {
                assert(env.subrange(k + 1, env.len() as int)[p - k - 1] == ':');
            } else if k == p {
                assert(env.subrange(k + 1, env.len() as int)[q - k - 1] == ':');
            } else {
                assert(env.subrange(0, k)[p] == ':');
            }
        }
    }
}

/// Joining two colon-free fields with a `:` gives them back as the
/// envelope's fields.
pub proof fn lemma_fields_of_joined(a: Seq<char>, b: Seq<char>)
    requires
        colon_free(a),
        colon_free(b),
    ensures
        envelope_fields(a + seq![':'] + b) == Some((a, b)),
{
    let env = a + seq![':'] + b;
    let p = a.len() as int;
    assert(env.subrange(0, p) =~= a);
    assert(env.subrange(p + 1, env.len() as int) =~= b);
    assert(is_split_point(env, p));
    let c = choose|c: int| is_split_point(env, c);
    lemma_split_point_unique(env, p, c);
}

/// Extending a colon-free range by one character other than `:`.
proof fn lemma_colon_free_extend(s: Seq<char>, a: int, b: int)
    requires
        0 <= a <= b < s.len(),
        colon_free(s.subrange(a, b)),
        s[b] != ':',
    ensures
        colon_free(s.subrange(a, b + 1)),
{
    assert forall|j: int| 0 <= j < b + 1 - a implies #[trigger] s.subrange(a, b + 1)[j] != ':' by {
        if j < b - a {
            assert(s.subrange(a, b + 1)[j] == s.subrange(a, b)[j]);
        }
    }
}

/// Text with no `:`, or with two or more, has no envelope fields.
pub proof fn lemma_malformed_colon_counts(env: Seq<char>)
    ensures
        colon_free(env) ==> envelope_fields(env) is None,
        (exists|i: int, j: int| 0 <= i < j < env.len() && env[i] == ':' && env[j] == ':')
            ==> envelope_fields(env) is None,
{
    if colon_free(env) {
        assert forall|k: int| !is_split_point(env, k) by {
            if is_split_point(env, k) {
                assert(env[k] == ':');
            }
        }
    }
    if exists|i: int, j: int| 0 <= i < j < env.len() && env[i] == ':' && env[j] == ':' {
        let (i, j) = choose|i: int, j: int| 0 <= i < j < env.len() && env[i] == ':' && env[j] == ':';
        lemma_two_colons(env, i, j);
    }
}

/// The all-zero nonce, as bytes.
pub fn zero_nonce_bytes() -> (r: Vec<u8>)
    ensures
        r@ == zero_nonce(),
{
    let r = vec![0u8; NONCE_LEN];
    assert(r@ =~= zero_nonce());
    r
}

/// Splits an envelope at its only `:`; `None` where it has none or several.
pub fn split_envelope(env: &str) -> (r: Option<(&str, &str)>)
    ensures
        match r {
            None => envelope_fields(env@) is None,
            Some((a, b)) => envelope_fields(env@) == Some((a@, b@)),
        },
{
    let n = env.unicode_len();
    let mut i: usize = 0;
    let mut first: Option<usize> = None;
    while i < n
        invariant
            n == env@.len(),
            i <= n,
            first is None ==> colon_free(env@.subrange(0, i as int)),
            first is Some ==> {
                let p = first->Some_0 as int;
                &&& p < i
                &&& env@[p] == ':'
                &&& colon_free(env@.subrange(0, p))
                &&& colon_free(env@.subrange(p + 1, i as int))
            },
        decreases n - i,
    {
        let c = env.get_char(i);
        match first {
            None => {
                if c == ':' {
                    first = Some(i);
                    assert(env@.subrange(i + 1, i + 1) =~= Seq::<char>::empty());
                } else {
                    proof {
                        lemma_colon_free_extend(env@, 0, i as int);
                    }
                }
            },
            Some(p) => {
                if c == ':' {
                    proof {
                        lemma_two_colons(env@, p as int, i as int);
                    }
                    return None;
                } else {
                    proof {
                        lemma_colon_free_extend(env@, p + 1, i as int);
                    }
                }
            },
        }
        i = i + 1;
    }
    match first {
        None => {
            assert(env@.subrange(0, n as int) =~= env@);
            assert forall|k: int| !is_split_point(env@, k) by {
                if is_split_point(env@, k) {
                    assert(env@.subrange(0, n as int)[k] == ':');
                }
            }
            None
        },
        Some(p) => {
            proof {
                assert(is_split_point(env@, p as int));
                let c = choose|c: int| is_split_point(env@, c);
                lemma_split_point_unique(env@, p as int, c);
            }
            let a = env.substring_char(0, p);
            let b = env.substring_char(p + 1, n);
            Some((a, b))
        },
    }
}

/// Joins two colon-free fields with a `:`.
pub fn join_envelope(salt_text: String, sealed_text: &str) -> (r: String)
    requires
        colon_free(salt_text@),
        colon_free(sealed_text@),
    ensures
        r@ == salt_text@ + seq![':'] + sealed_text@,
        envelope_fields(r@) == Some((salt_text@, sealed_text@)),
{
    let mut r = salt_text;
    r.append(":");
    proof {
        reveal_strlit(":");
        lemma_fields_of_joined(salt_text@, sealed_text@);
    }
    r.append(sealed_text);
    assert(r@ =~= salt_text@ + seq![':'] + sealed_text@);
    r
}

} // verus!
