//! Passphrase-protected envelopes for a repository root key and for short
//! secrets, with the session state that holds the unlocked root key.
pub mod envelope;
pub mod error;
pub mod instance;
pub mod primitives;
pub mod session;
pub mod sidecar;

pub use error::SecretError;
pub use instance::NewInstancePayload;
pub use session::UiApp;
pub use sidecar::check_and_remove_comment;
