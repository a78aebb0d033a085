//! An authenticated, ordered, symmetric-key encrypted message stream
//! (a "secretstream").
//!
//! Two parties sharing a secret key exchange an ordered sequence of
//! messages with confidentiality, per-message integrity, tamper-evident
//! ordering, and explicit end-of-stream signaling. The push side encrypts,
//! the pull side decrypts, and both ratchet their internal state identically
//! after every message.

pub mod bytes;
pub mod dryocstream;
mod engine;
pub mod error;
pub mod laws;
pub mod model;
mod primitives;
pub mod tag;

pub use bytes::{Access, Bytes, MutBytes, NewBytes, ResizableBytes, SecretBytes};
pub use dryocstream::{DryocStream, Header, Key, Mode, Pull, Push};
pub use error::Error;
pub use tag::Tag;
