//! Error kinds reported by the stream engine.

use vstd::prelude::*;

verus! {

/// Everything that can go wrong while driving a secretstream.
///
/// All fallible operations return an explicit `Result` carrying one of
/// these; nothing panics on attacker-controlled input.
#[derive(Clone, Copy, Debug, PartialEq, Eq, Structural)]
pub enum Error {
    /// A tag byte from untrusted input holds unrecognized flag bits.
    InvalidTag,
    /// A key or header has the wrong length.
    SizeMismatch,
    /// A ciphertext handed to the pull side is shorter than the fixed
    /// per-message overhead.
    InvalidInput,
    /// A fixed-capacity output buffer cannot hold the produced bytes.
    BufferTooSmall,
    /// Message authentication failed; no decrypted bytes are released.
    AuthenticationFailed,
    /// The underlying cipher primitive reported a failure.
    EncryptionFailed,
    /// A hardened memory backend could not protect its pages.
    MemoryProtectionFailed,
}

impl Error {
    /// A short human-readable description of the error.
    pub fn message(&self) -> (r: String)
        ensures
            r@.len() > 0,
    {
        let s = match self {
            Error::InvalidTag => "invalid tag",
            Error::SizeMismatch => "size mismatch",
            Error::InvalidInput => "invalid input",
            Error::BufferTooSmall => "buffer too small",
            Error::AuthenticationFailed => "authentication failed",
            Error::EncryptionFailed => "encryption failed",
            Error::MemoryProtectionFailed => "memory protection failed",
        };
        proof {
            reveal_strlit("invalid tag");
            reveal_strlit("size mismatch");
            reveal_strlit("invalid input");
            reveal_strlit("buffer too small");
            reveal_strlit("authentication failed");
            reveal_strlit("encryption failed");
            reveal_strlit("memory protection failed");
        }
        s.to_string()
    }
}

} // verus!
