use vstd::prelude::*;

verus! {

/// Why an operation on a passphrase or an envelope failed.
#[derive(Clone, Copy, Debug, PartialEq, Eq, Structural)]
pub enum SecretError {
    /// The key derivation refused its inputs: a passphrase longer than
    /// `u32::MAX` bytes, or a salt outside 8 to `u32::MAX` bytes.
    KdfInput,
    /// The envelope does not hold exactly one `:`.
    MalformedEnvelope,
    /// A field is not base-58 text (the root key, or a field of an envelope).
    Encoding,
    /// The authentication tag did not match: a wrong passphrase or key, or
    /// altered data. The two are deliberately not told apart.
    AuthenticationFailed,
    /// The recovered plaintext of a text secret is not valid UTF-8.
    Utf8Decode,
}

} // verus!
