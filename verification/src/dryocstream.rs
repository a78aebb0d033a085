//! Secret-key authenticated encrypted streams: the directional sessions.

use crate::bytes::{opt_bytes, Bytes, NewBytes, ResizableBytes};
use crate::engine::{extend_bytes, StreamState};
use crate::error::Error;
use crate::model::{
    spec_init, spec_next, spec_pull_err, spec_pull_msg, spec_pull_ok, spec_push, spec_rekey,
    pull_tag_bits, StreamStateView, ABYTES, HEADERBYTES, KEYBYTES, MESSAGEBYTES_MAX,
};
use crate::primitives::random_fill;
use crate::tag::Tag;
use vstd::prelude::*;
use zeroize::Zeroize;

verus! {

/// A 32-byte shared secret key. Wiped when released.
pub struct Key {
    data: Vec<u8>,
}

impl Key {
    /// A fresh key drawn from the secure randomness source.
    pub fn gen() -> (r: Key)
        ensures
            r.bytes().len() == KEYBYTES,
    {
        let mut data: Vec<u8> = Vec::new();
        let mut i: usize = 0;
        while i < KEYBYTES
            invariant
                i <= KEYBYTES,
                data@.len() == i,
            decreases KEYBYTES - i,
        {
            data.push(0);
            i = i + 1;
        }
        random_fill(&mut data);
        Key { data }
    }

    /// A key from caller-supplied bytes; exactly 32 bytes are accepted,
    /// anything else is rejected with [`Error::SizeMismatch`].
    pub fn from_slice(s: &[u8]) -> (r: Result<Key, Error>)
        ensures
            r is Ok <==> s@.len() == KEYBYTES,
            r is Ok ==> r->Ok_0.bytes() == s@,
            r is Err ==> r->Err_0 == Error::SizeMismatch,
    {
        if s.len() != KEYBYTES {
            return Err(Error::SizeMismatch);
        }
        let mut data: Vec<u8> = Vec::new();
        extend_bytes(&mut data, s);
        proof {
            assert(Seq::<u8>::empty() + s@ =~= s@);
        }
        Ok(Key { data })
    }
}

impl Bytes for Key {
    closed spec fn bytes(&self) -> Seq<u8> {
        self.data@
    }

    open spec fn readable(&self) -> bool {
        true
    }

    fn as_slice(&self) -> (r: &[u8]) {
        Vec::as_slice(&self.data)
    }

    fn len(&self) -> (r: usize) {
        Vec::as_slice(&self.data).len()
    }
}

impl Drop for Key {
    /// Relies on `zeroize::Zeroize` for `Vec<u8>`: when a key is released,
    /// its bytes are overwritten with zeros through writes the compiler may
    /// not elide.
    #[verifier::external_body]
    fn drop(&mut self)
        opens_invariants none
        no_unwind
    {
        self.data.zeroize();
    }
}

/// A 24-byte public stream header: generated fresh by `init_push`, sent
/// once in cleartext, and consumed once by `init_pull`.
pub struct Header {
    data: Vec<u8>,
}

impl Header {
    /// A fresh random header.
    pub fn gen() -> (r: Header)
        ensures
            r.bytes().len() == HEADERBYTES,
    {
        let mut data: Vec<u8> = Vec::new();
        let mut i: usize = 0;
        while i < HEADERBYTES
            invariant
                i <= HEADERBYTES,
                data@.len() == i,
            decreases HEADERBYTES - i,
        {
            data.push(0);
            i = i + 1;
        }
        random_fill(&mut data);
        Header { data }
    }

    /// A header from received bytes; exactly 24 bytes are accepted,
    /// anything else is rejected with [`Error::SizeMismatch`].
    pub fn from_slice(s: &[u8]) -> (r: Result<Header, Error>)
        ensures
            r is Ok <==> s@.len() == HEADERBYTES,
            r is Ok ==> r->Ok_0.bytes() == s@,
            r is Err ==> r->Err_0 == Error::SizeMismatch,
    {
        if s.len() != HEADERBYTES {
            return Err(Error::SizeMismatch);
        }
        let mut data: Vec<u8> = Vec::new();
        extend_bytes(&mut data, s);
        proof {
            assert(Seq::<u8>::empty() + s@ =~= s@);
        }
        Ok(Header { data })
    }
}

impl Bytes for Header {
    closed spec fn bytes(&self) -> Seq<u8> {
        self.data@
    }

    open spec fn readable(&self) -> bool {
        true
    }

    fn as_slice(&self) -> (r: &[u8]) {
        Vec::as_slice(&self.data)
    }

    fn len(&self) -> (r: usize) {
        Vec::as_slice(&self.data).len()
    }
}

/// Marker trait for the two stream directions.
pub trait Mode {

}

/// Marker for the encrypting side of a stream.
pub struct Push;

/// Marker for the decrypting side of a stream.
pub struct Pull;

impl Mode for Push {

}

impl Mode for Pull {

}

/// One direction of a secret-key authenticated encrypted stream.
///
/// The phantom parameter fixes at compile time whether this session
/// encrypts (`Push`) or decrypts (`Pull`); only the matching operations
/// exist on each. The session exclusively owns its secret state, which
/// advances irreversibly with every message and is wiped on release.
pub struct DryocStream<M> {
    state: StreamState,
    mode: core::marker::PhantomData<M>,
}

impl<M> View for DryocStream<M> {
    type V = StreamStateView;

    closed spec fn view(&self) -> StreamStateView {
        self.state@
    }
}

impl<M> DryocStream<M> {
    /// The lengths every reachable session state has.
    pub open spec fn wf(&self) -> bool {
        self@.wf()
    }

    /// Manually rekeys the stream. Both sides must call this at the same
    /// agreed point — no protocol signal is transmitted; a one-sided rekey
    /// makes the next pull fail authentication.
    pub fn rekey(&mut self)
        requires
            old(self).wf(),
        ensures
            final(self)@ == spec_rekey(old(self)@),
            final(self).wf(),
    {
        self.state.rekey_state();
    }
}

impl DryocStream<Push> {
    /// Returns a new push stream initialized from `key`, together with the
    /// fresh random header that binds the pull side to the same state.
    pub fn init_push<K: Bytes>(key: &K) -> (r: (DryocStream<Push>, Header))
        requires
            key.readable(),
            key.bytes().len() == KEYBYTES,
        ensures
            r.0@ == spec_init(key.bytes(), r.1.bytes()),
            r.0.wf(),
            r.1.bytes().len() == HEADERBYTES,
    {
        let header = Header::gen();
        let state = StreamState::init(key.as_slice(), header.as_slice());
        (DryocStream { state, mode: core::marker::PhantomData }, header)
    }

    /// Encrypts `message` with `associated_data` and `tag`, returning the
    /// ciphertext chunk (message length + [`ABYTES`] bytes) and advancing
    /// the stream state.
    pub fn push<I: Bytes, O: NewBytes + ResizableBytes>(
        &mut self,
        message: &I,
        associated_data: Option<&I>,
        tag: Tag,
    ) -> (r: Result<O, Error>)
        requires
            old(self).wf(),
            message.readable(),
            associated_data matches Some(a) ==> a.readable(),
            message.bytes().len() <= MESSAGEBYTES_MAX,
        ensures
            r is Ok,
            r->Ok_0.bytes() == spec_push(
                old(self)@,
                message.bytes(),
                opt_bytes(associated_data),
                tag.spec_bits(),
            ),
            r->Ok_0.bytes().len() == message.bytes().len() + ABYTES,
            r->Ok_0.readable(),
            final(self)@ == spec_next(old(self)@, tag.spec_bits()),
            final(self).wf(),
    {
        let ct = match associated_data {
            Some(a) => self.state.push_core(message.as_slice(), a.as_slice(), tag.bits()),
            None => {
                let none_aad: Vec<u8> = Vec::new();
                self.state.push_core(message.as_slice(), none_aad.as_slice(), tag.bits())
            },
        };
        let mut out: O = O::new_bytes();
        out.resize(ct.len(), 0);
        out.copy_from_slice(ct.as_slice());
        Ok(out)
    }

    /// Encrypts `message` with `associated_data` and `tag`, returning the
    /// ciphertext as an owned byte vector.
    pub fn push_to_vec<I: Bytes>(
        &mut self,
        message: &I,
        associated_data: Option<&I>,
        tag: Tag,
    ) -> (r: Result<Vec<u8>, Error>)
        requires
            old(self).wf(),
            message.readable(),
            associated_data matches Some(a) ==> a.readable(),
            message.bytes().len() <= MESSAGEBYTES_MAX,
        ensures
            r is Ok,
            r->Ok_0@ == spec_push(
                old(self)@,
                message.bytes(),
                opt_bytes(associated_data),
                tag.spec_bits(),
            ),
            r->Ok_0@.len() == message.bytes().len() + ABYTES,
            final(self)@ == spec_next(old(self)@, tag.spec_bits()),
            final(self).wf(),
    {
        self.push(message, associated_data, tag)
    }
}

impl DryocStream<Pull> {
    /// Returns a new pull stream initialized from `key` and the header the
    /// push side produced. The same key and header always reproduce the
    /// same decoding state.
    pub fn init_pull<K: Bytes, H: Bytes>(key: &K, header: &H) -> (r: DryocStream<Pull>)
        requires
            key.readable(),
            header.readable(),
            key.bytes().len() == KEYBYTES,
            header.bytes().len() == HEADERBYTES,
        ensures
            r@ == spec_init(key.bytes(), header.bytes()),
            r.wf(),
    {
        let state = StreamState::init(key.as_slice(), header.as_slice());
        DryocStream { state, mode: core::marker::PhantomData }
    }

    /// Verifies and decrypts `ciphertext` with `associated_data`, returning
    /// the message and its tag and advancing the stream state exactly as
    /// the push side's advanced.
    ///
    /// A chunk shorter than [`ABYTES`] is rejected with
    /// [`Error::InvalidInput`] before any cryptographic work; a chunk whose
    /// authenticator does not match fails with
    /// [`Error::AuthenticationFailed`] and releases nothing; an
    /// authenticated chunk whose tag byte is unrecognized fails with
    /// [`Error::InvalidTag`]. On failure the state is left unchanged.
    pub fn pull<I: Bytes, O: NewBytes + ResizableBytes>(
        &mut self,
        ciphertext: &I,
        associated_data: Option<&I>,
    ) -> (r: Result<(O, Tag), Error>)
        requires
            old(self).wf(),
            ciphertext.readable(),
            associated_data matches Some(a) ==> a.readable(),
            ciphertext.bytes().len() <= MESSAGEBYTES_MAX + ABYTES,
        ensures
            r is Ok <==> spec_pull_ok(old(self)@, ciphertext.bytes(), opt_bytes(associated_data)),
            r is Ok ==> r->Ok_0.0.bytes() == spec_pull_msg(old(self)@, ciphertext.bytes()),
            r is Ok ==> r->Ok_0.0.readable(),
            r is Ok ==> r->Ok_0.1.spec_bits() == pull_tag_bits(old(self)@, ciphertext.bytes()),
            r is Ok ==> final(self)@ == spec_next(
                old(self)@,
                pull_tag_bits(old(self)@, ciphertext.bytes()),
            ),
            r is Err ==> final(self)@ == old(self)@,
            r is Err ==> r->Err_0 == spec_pull_err(
                old(self)@,
                ciphertext.bytes(),
                opt_bytes(associated_data),
            ),
            final(self).wf(),
    {
        let inner = match associated_data {
            Some(a) => self.state.pull_core(ciphertext.as_slice(), a.as_slice()),
            None => {
                let none_aad: Vec<u8> = Vec::new();
                self.state.pull_core(ciphertext.as_slice(), none_aad.as_slice())
            },
        };
        match inner {
            Ok((msg, tag)) => {
                let mut out: O = O::new_bytes();
                out.resize(msg.len(), 0);
                out.copy_from_slice(msg.as_slice());
                Ok((out, tag))
            },
            Err(e) => Err(e),
        }
    }

    /// Verifies and decrypts `ciphertext` with `associated_data`, returning
    /// the message as an owned byte vector together with its tag.
    pub fn pull_to_vec<I: Bytes>(
        &mut self,
        ciphertext: &I,
        associated_data: Option<&I>,
    ) -> (r: Result<(Vec<u8>, Tag), Error>)
        requires
            old(self).wf(),
            ciphertext.readable(),
            associated_data matches Some(a) ==> a.readable(),
            ciphertext.bytes().len() <= MESSAGEBYTES_MAX + ABYTES,
        ensures
            r is Ok <==> spec_pull_ok(old(self)@, ciphertext.bytes(), opt_bytes(associated_data)),
            r is Ok ==> r->Ok_0.0@ == spec_pull_msg(old(self)@, ciphertext.bytes()),
            r is Ok ==> r->Ok_0.1.spec_bits() == pull_tag_bits(old(self)@, ciphertext.bytes()),
            r is Ok ==> final(self)@ == spec_next(
                old(self)@,
                pull_tag_bits(old(self)@, ciphertext.bytes()),
            ),
            r is Err ==> final(self)@ == old(self)@,
            r is Err ==> r->Err_0 == spec_pull_err(
                old(self)@,
                ciphertext.bytes(),
                opt_bytes(associated_data),
            ),
            final(self).wf(),
    {
        self.pull(ciphertext, associated_data)
    }
}

} // verus!
