//! Buffer-ownership capabilities.
//!
//! The engine is written once against four narrow capabilities — readable,
//! writable, resizable, constructible — and runs unmodified over any
//! backend that provides them: plain growable vectors, or the hardened
//! [`SecretBytes`] buffer whose contents are wiped on release and whose
//! access mode is enforced through contracts.

use crate::engine::extend_bytes;
use crate::primitives::random_fill;
use vstd::prelude::*;
use zeroize::Zeroize;

verus! {

/// A buffer whose contents can be read as a byte sequence.
pub trait Bytes {
    /// The byte contents, as a mathematical sequence.
    spec fn bytes(&self) -> Seq<u8>;

    /// Whether the contents may currently be read.
    spec fn readable(&self) -> bool;

    /// The contents as an immutable byte slice.
    fn as_slice(&self) -> (r: &[u8])
        requires
            self.readable(),
        ensures
            r@ == self.bytes(),
    ;

    /// The length in bytes.
    fn len(&self) -> (r: usize)
        requires
            self.readable(),
        ensures
            r == self.bytes().len(),
    ;
}

/// A buffer whose contents can be overwritten in place.
pub trait MutBytes: Bytes {
    /// Whether the contents may currently be written.
    spec fn writable(&self) -> bool;

    /// Overwrites the contents with `src`, whose length must match.
    fn copy_from_slice(&mut self, src: &[u8])
        requires
            old(self).writable(),
            old(self).bytes().len() == src@.len(),
        ensures
            final(self).bytes() == src@,
            final(self).readable() == old(self).readable(),
            final(self).writable() == old(self).writable(),
    ;
}

/// A buffer that can grow or truncate to an exact length.
pub trait ResizableBytes: MutBytes {
    /// Resizes to exactly `len` bytes, keeping the common prefix and
    /// filling new bytes with `value`.
    fn resize(&mut self, len: usize, value: u8)
        requires
            old(self).writable(),
        ensures
            final(self).bytes().len() == len,
            final(self).readable() == old(self).readable(),
            final(self).writable() == old(self).writable(),
            forall|t: int|
                0 <= t < len && t < old(self).bytes().len() ==> final(self).bytes()[t] == old(
                    self,
                ).bytes()[t],
            forall|t: int|
                old(self).bytes().len() <= t < len ==> final(self).bytes()[t] == value,
    ;
}

/// A buffer type that can produce a fresh, empty instance.
pub trait NewBytes: MutBytes + Sized {
    /// Produces an empty, readable, writable instance.
    fn new_bytes() -> (r: Self)
        ensures
            r.bytes() == Seq::<u8>::empty(),
            r.readable(),
            r.writable(),
    ;
}

/// The byte contents of an optional buffer; absent means empty.
pub open spec fn opt_bytes<I: Bytes>(a: Option<&I>) -> Seq<u8> {
    match a {
        Some(x) => x.bytes(),
        None => Seq::empty(),
    }
}

impl<const N: usize> Bytes for [u8; N] {
    open spec fn bytes(&self) -> Seq<u8> {
        self@
    }

    open spec fn readable(&self) -> bool {
        true
    }

    fn as_slice(&self) -> (r: &[u8]) {
        <[u8; N]>::as_slice(self)
    }

    fn len(&self) -> (r: usize) {
        <[u8; N]>::as_slice(self).len()
    }
}

impl Bytes for Vec<u8> {
    open spec fn bytes(&self) -> Seq<u8> {
        self@
    }

    open spec fn readable(&self) -> bool {
        true
    }

    fn as_slice(&self) -> (r: &[u8]) {
        Vec::as_slice(self)
    }

    fn len(&self) -> (r: usize) {
        Vec::as_slice(self).len()
    }
}

impl MutBytes for Vec<u8> {
    open spec fn writable(&self) -> bool {
        true
    }

    fn copy_from_slice(&mut self, src: &[u8]) {
        self.clear();
        extend_bytes(self, src);
        proof {
            assert(Seq::<u8>::empty() + src@ =~= src@);
        }
    }
}

impl ResizableBytes for Vec<u8> {
    fn resize(&mut self, len: usize, value: u8) {
        if self.len() > len {
            self.truncate(len);
        }
        while self.len() < len
            invariant
                self@.len() <= len,
                self@.len() >= old(self)@.len() || self@.len() >= len,
                forall|t: int|
                    0 <= t < len && t < old(self)@.len() && t < self@.len() ==> self@[t] == old(
                        self,
                    )@[t],
                forall|t: int| old(self)@.len() <= t < self@.len() ==> self@[t] == value,
            decreases len - self@.len(),
        {
            self.push(value);
        }
    }
}

impl NewBytes for Vec<u8> {
    fn new_bytes() -> (r: Self) {
        Vec::new()
    }
}

/// The access mode of a hardened buffer.
#[derive(Clone, Copy, Debug, PartialEq, Eq, Structural)]
pub enum Access {
    /// Contents may be read and written.
    ReadWrite,
    /// Contents may be read but not written.
    ReadOnly,
    /// Contents may be neither read nor written.
    NoAccess,
}

/// A hardened byte buffer for secret material: its contents are overwritten
/// with zeros when it is released, and its access mode is part of the type's
/// contract — every verified caller must prove the buffer readable or
/// writable before touching it, so a buffer set to [`Access::NoAccess`]
/// cannot flow into any operation.
pub struct SecretBytes {
    data: Vec<u8>,
    access: Access,
}

impl SecretBytes {
    /// The current access mode.
    pub closed spec fn access(&self) -> Access {
        self.access
    }

    /// An empty buffer, readable and writable.
    pub fn new() -> (r: SecretBytes)
        ensures
            r.bytes() == Seq::<u8>::empty(),
            r.access() == Access::ReadWrite,
    {
        SecretBytes { data: Vec::new(), access: Access::ReadWrite }
    }

    /// A buffer of `len` bytes drawn from the secure randomness source,
    /// readable and writable.
    pub fn gen(len: usize) -> (r: SecretBytes)
        ensures
            r.bytes().len() == len,
            r.access() == Access::ReadWrite,
    {
        let mut data: Vec<u8> = Vec::new();
        let mut i: usize = 0;
        while i < len
            invariant
                i <= len,
                data@.len() == i,
            decreases len - i,
        {
            data.push(0);
            i = i + 1;
        }
        random_fill(&mut data);
        SecretBytes { data, access: Access::ReadWrite }
    }

    /// Revokes all access: the contents can no longer be read or written by
    /// verified callers until access is restored.
    pub fn noaccess(&mut self)
        ensures
            final(self).bytes() == old(self).bytes(),
            final(self).access() == Access::NoAccess,
    {
        self.access = Access::NoAccess;
    }

    /// Restricts the buffer to reads.
    pub fn readonly(&mut self)
        ensures
            final(self).bytes() == old(self).bytes(),
            final(self).access() == Access::ReadOnly,
    {
        self.access = Access::ReadOnly;
    }

    /// Restores read and write access.
    pub fn readwrite(&mut self)
        ensures
            final(self).bytes() == old(self).bytes(),
            final(self).access() == Access::ReadWrite,
    {
        self.access = Access::ReadWrite;
    }
}

impl Bytes for SecretBytes {
    closed spec fn bytes(&self) -> Seq<u8> {
        self.data@
    }

    open spec fn readable(&self) -> bool {
        self.access() != Access::NoAccess
    }

    fn as_slice(&self) -> (r: &[u8]) {
        Vec::as_slice(&self.data)
    }

    fn len(&self) -> (r: usize) {
        Vec::as_slice(&self.data).len()
    }
}

impl MutBytes for SecretBytes {
    open spec fn writable(&self) -> bool {
        self.access() == Access::ReadWrite
    }

    fn copy_from_slice(&mut self, src: &[u8]) {
        self.data.clear();
        extend_bytes(&mut self.data, src);
        proof {
            assert(Seq::<u8>::empty() + src@ =~= src@);
        }
    }
}

impl ResizableBytes for SecretBytes {
    fn resize(&mut self, len: usize, value: u8) {
        if self.data.len() > len {
            self.data.truncate(len);
        }
        while self.data.len() < len
            invariant
                self.data@.len() <= len,
                self.data@.len() >= old(self).bytes().len() || self.data@.len() >= len,
                self.access == old(self).access,
                forall|t: int|
                    0 <= t < len && t < old(self).bytes().len() && t < self.data@.len()
                        ==> self.data@[t] == old(self).bytes()[t],
                forall|t: int|
                    old(self).bytes().len() <= t < self.data@.len() ==> self.data@[t] == value,
            decreases len - self.data@.len(),
        {
            self.data.push(value);
        }
    }
}

impl NewBytes for SecretBytes {
    fn new_bytes() -> (r: Self) {
        SecretBytes::new()
    }
}

impl Drop for SecretBytes {
    /// Relies on `zeroize::Zeroize` for `Vec<u8>`: when the buffer is
    /// released, its contents are overwritten with zeros through writes the
    /// compiler may not elide.
    #[verifier::external_body]
    fn drop(&mut self)
        opens_invariants none
        no_unwind
    {
        self.data.zeroize();
    }
}

} // verus!
