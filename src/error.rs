//! The kinds of failure that the vault reports.
use vstd::prelude::*;

verus! {

/// Why an operation on the vault failed. No variant carries a passphrase, a
/// secret's value or any byte of key material.
#[derive(Debug, Clone, Copy, PartialEq, Eq, Structural)]
pub enum VaultError {
    /// The passphrase verifier rejected the passphrase.
    InvalidPassphrase,
    /// Authenticated decryption failed (wrong key, tampering, truncation), or
    /// a plaintext was too long to encrypt.
    Crypto,
    /// A decrypted payload could not be read back (not JSON, not UTF-8).
    CorruptStore,
    /// The named secret does not exist.
    NotFound,
    /// The secret exists but is past its expiry.
    Expired,
    /// The agent's socket is missing or refused the connection.
    AgentUnavailable,
    /// The agent did not bind its socket in time.
    AgentStartTimeout,
    /// The agent rejected a request past its session lifetime.
    SessionExpired,
    /// A file or socket operation failed.
    Io,
    /// A malformed invocation or parser input.
    BadArgument,
}

/// The text of each kind of failure.
pub open spec fn error_text(e: VaultError) -> Seq<char> {
    match e {
        VaultError::InvalidPassphrase => "Incorrect passphrase"@,
        VaultError::Crypto => "Decryption failed"@,
        VaultError::CorruptStore => "Secrets store is corrupt"@,
        VaultError::NotFound => "Secret not found"@,
        VaultError::Expired => "Secret has expired"@,
        VaultError::AgentUnavailable => "Agent not started"@,
        VaultError::AgentStartTimeout => "Agent did not start in time"@,
        VaultError::SessionExpired => "Session expired"@,
        VaultError::Io => "I/O error"@,
        VaultError::BadArgument => "Invalid argument"@,
    }
}

impl VaultError {
    /// A short description for the user, free of sensitive data.
    pub fn message(&self) -> (r: &'static str)
        ensures
            r@ == error_text(*self),
    {
        match self {
            VaultError::InvalidPassphrase => "Incorrect passphrase",
            VaultError::Crypto => "Decryption failed",
            VaultError::CorruptStore => "Secrets store is corrupt",
            VaultError::NotFound => "Secret not found",
            VaultError::Expired => "Secret has expired",
            VaultError::AgentUnavailable => "Agent not started",
            VaultError::AgentStartTimeout => "Agent did not start in time",
            VaultError::SessionExpired => "Session expired",
            VaultError::Io => "I/O error",
            VaultError::BadArgument => "Invalid argument",
        }
    }
}

} // verus!
