//! The verified stream engine: state, ratcheting, and the push/pull
//! algorithms over plain byte vectors.

use crate::error::Error;
use crate::model::{
    advanced, body_of, enc_tag_of, ks_slice, mac16, mac_input_of, pull_body, pull_mac,
    pull_tag_bits, spec_init, spec_next, spec_pull_err, spec_pull_msg, spec_pull_ok, spec_push,
    spec_rekey, spec_stream_xor, xor_with, lemma_stream_xor_len, StreamStateView, ABYTES,
    HEADERBYTES, KEYBYTES, MACBYTES, MESSAGEBYTES_MAX, NONCEBYTES,
};
use crate::primitives::{chacha20_block, ct_eq, hchacha20, poly1305_mac};
use crate::tag::{valid_tag_bits, Tag};
use vstd::bytes::{u32_to_le_bytes, u64_from_le_bytes, u64_to_le_bytes};
use vstd::prelude::*;
use zeroize::Zeroize;

verus! {

/// Appends all of `src` to `dst`.
pub(crate) fn extend_bytes(dst: &mut Vec<u8>, src: &[u8])
    ensures
        final(dst)@ == old(dst)@ + src@,
{
    let ghost orig = dst@;
    proof {
        assert(orig + src@.take(0) =~= orig);
    }
    let mut i: usize = 0;
    while i < src.len()
        invariant
            i <= src@.len(),
            dst@ == orig + src@.take(i as int),
        decreases src@.len() - i,
    {
        dst.push(src[i]);
        i = i + 1;
        proof {
            assert(orig + src@.take(i as int) =~= (orig + src@.take(i - 1)).push(src@[i - 1]));
        }
    }
    proof {
        assert(src@.take(src@.len() as int) =~= src@);
    }
}

/// XORs `data` against the cipher keystream that starts at block index
/// `first`, 64 bytes per block. Both encryption and decryption are this
/// one function.
fn stream_xor(k: &Vec<u8>, nonce: &Vec<u8>, first: u32, data: &[u8]) -> (r: Vec<u8>)
    requires
        k@.len() == KEYBYTES,
        nonce@.len() == NONCEBYTES,
        first as int + (data@.len() as int + 63) / 64 < u32::MAX,
    ensures
        r@ == spec_stream_xor(k@, nonce@, first, data@),
        r@.len() == data@.len(),
{
    let ghost full = data@;
    let mut out: Vec<u8> = Vec::new();
    let mut i: usize = 0;
    let mut ctr: u32 = first;
    proof {
        assert(full.skip(0) =~= full);
        lemma_stream_xor_len(k@, nonce@, first, full);
    }
    while i < data.len()
        invariant
            data@ == full,
            k@.len() == KEYBYTES,
            nonce@.len() == NONCEBYTES,
            i <= full.len(),
            i % 64 == 0 || i == full.len(),
            out@.len() == i,
            i % 64 == 0 && i < full.len() ==> ctr as int == first as int + i as int / 64,
            ctr as int <= first as int + (full.len() as int + 63) / 64,
            first as int + (full.len() as int + 63) / 64 < u32::MAX,
            spec_stream_xor(k@, nonce@, first, full) == out@ + spec_stream_xor(
                k@,
                nonce@,
                ctr,
                full.skip(i as int),
            ),
        decreases full.len() - i,
    {
        let block = chacha20_block(k.as_slice(), nonce.as_slice(), ctr);
        let ghost i0 = i as int;
        let ghost rest = full.skip(i0);
        let ghost out0 = out@;
        let mut j: usize = 0;
        while j < 64 && i < data.len()
            invariant
                data@ == full,
                block@.len() == 64,
                j <= 64,
                i as int == i0 + j,
                0 <= i0 <= full.len(),
                i <= full.len(),
                rest == full.skip(i0),
                out@ == out0 + Seq::new(j as nat, |t: int| rest[t] ^ block@[t]),
            decreases 64 - j,
        {
            out.push(data[i] ^ block[j]);
            i = i + 1;
            j = j + 1;
            proof {
                assert(out0 + Seq::new(j as nat, |t: int| rest[t] ^ block@[t]) =~= (out0 + Seq::new(
                    (j - 1) as nat,
                    |t: int| rest[t] ^ block@[t],
                )).push(rest[j - 1] ^ block@[j - 1]));
            }
        }
        proof {
            let chunk = Seq::new(j as nat, |t: int| rest[t] ^ block@[t]);
            assert(chunk =~= xor_with(rest.take(j as int), block@));
            if rest.len() <= 64 {
                // the final, possibly partial, chunk: the whole rest was consumed
                assert(j as int == rest.len());
                assert(rest.take(j as int) =~= rest);
                assert(spec_stream_xor(k@, nonce@, ctr, rest) == xor_with(rest, block@));
                assert(full.skip(i as int) =~= Seq::<u8>::empty());
                assert(spec_stream_xor(k@, nonce@, ctr, full.skip(i as int)) =~= Seq::<
                    u8,
                >::empty());
                assert(out@ + spec_stream_xor(k@, nonce@, ctr, full.skip(i as int)) =~= out@);
            } else {
                assert(j == 64);
                assert(spec_stream_xor(k@, nonce@, ctr, rest) == xor_with(rest.take(64), block@)
                    + spec_stream_xor(k@, nonce@, ((ctr + 1) as u32), rest.skip(64)));
                assert(rest.skip(64) =~= full.skip(i0 + 64));
                assert(out@ + spec_stream_xor(k@, nonce@, ((ctr + 1) as u32), full.skip(i as int))
                    =~= (out0 + spec_stream_xor(k@, nonce@, ctr, rest)));
            }
        }
        if i < data.len() {
            proof {
                assert(i as int == i0 + 64);
                assert(i0 % 64 == 0 && i as int % 64 == 0 && i as int / 64 == i0 / 64 + 1);
                assert(i0 + 64 <= full.len());
                assert(i0 / 64 + 1 <= (full.len() as int + 63) / 64);
            }
            ctr = ctr + 1;
        }
    }
    proof {
        assert(out@ + spec_stream_xor(k@, nonce@, ctr, full.skip(i as int)) == out@
            + Seq::<u8>::empty()) by {
            assert(full.skip(i as int) =~= Seq::<u8>::empty());
            assert(spec_stream_xor(k@, nonce@, ctr, full.skip(i as int)) =~= Seq::<u8>::empty());
        }
        assert(out@ + Seq::<u8>::empty() =~= out@);
    }
    out
}

/// The secret per-direction state: derived subkey, block counter and nonce
/// suffix. Exclusively owned by one session, mutated by every message, and
/// wiped when dropped.
pub struct StreamState {
    k: Vec<u8>,
    counter: u32,
    suffix: Vec<u8>,
}

impl View for StreamState {
    type V = StreamStateView;

    closed spec fn view(&self) -> StreamStateView {
        StreamStateView { k: self.k@, counter: self.counter, suffix: self.suffix@ }
    }
}

impl StreamState {
    /// The lengths every reachable state has.
    pub open spec fn wf(&self) -> bool {
        self@.wf()
    }

    /// Derives the state shared by both directions of one stream: the
    /// subkey mixes the key with the header's first 16 bytes, the counter
    /// starts at zero, and the nonce suffix is the header's last 8 bytes.
    pub(crate) fn init(key: &[u8], header: &[u8]) -> (r: StreamState)
        requires
            key@.len() == KEYBYTES,
            header@.len() == HEADERBYTES,
        ensures
            r@ == spec_init(key@, header@),
            r.wf(),
    {
        let k = hchacha20(key, &header[0..16]);
        let mut suffix: Vec<u8> = Vec::new();
        extend_bytes(&mut suffix, &header[16..24]);
        proof {
            assert(header@.subrange(0, 16) =~= header@.take(16));
            assert(Seq::<u8>::empty() + header@.subrange(16, 24) =~= header@.skip(16));
        }
        StreamState { k, counter: 0, suffix }
    }

    /// The current 12-byte nonce: little-endian counter, then suffix.
    fn nonce_bytes(&self) -> (r: Vec<u8>)
        requires
            self.wf(),
        ensures
            r@ == self@.nonce(),
            r@.len() == NONCEBYTES,
    {
        let mut r = u32_to_le_bytes(self.counter);
        extend_bytes(&mut r, self.suffix.as_slice());
        proof {
            vstd::bytes::lemma_auto_spec_u32_to_from_le_bytes();
        }
        r
    }

    /// Advances the block counter by one, carrying into the nonce suffix
    /// when the counter wraps.
    fn advance(&mut self)
        requires
            old(self).wf(),
        ensures
            final(self)@ == advanced(old(self)@),
            final(self).wf(),
    {
        if self.counter == u32::MAX {
            self.counter = 0;
            let x = u64_from_le_bytes(self.suffix.as_slice());
            let x = if x == u64::MAX {
                0
            } else {
                x + 1
            };
            self.suffix = u64_to_le_bytes(x);
        } else {
            self.counter = self.counter + 1;
        }
    }

    /// Rekeys unconditionally: key and nonce suffix are XORed against
    /// keystream block 0 of the current state, and the counter resets.
    pub(crate) fn rekey_state(&mut self)
        requires
            old(self).wf(),
        ensures
            final(self)@ == spec_rekey(old(self)@),
            final(self).wf(),
    {
        let nonce = self.nonce_bytes();
        let block = chacha20_block(self.k.as_slice(), nonce.as_slice(), 0);
        let ghost k0 = self.k@;
        let mut i: usize = 0;
        while i < KEYBYTES
            invariant
                block@.len() == 64,
                self.k@.len() == KEYBYTES,
                i <= KEYBYTES,
                k0.len() == KEYBYTES,
                forall|t: int| 0 <= t < i ==> self.k@[t] == (k0[t] ^ block@[t]),
                forall|t: int| i <= t < KEYBYTES ==> self.k@[t] == k0[t],
                self.counter == old(self).counter,
                self.suffix@ == old(self).suffix@,
            decreases KEYBYTES - i,
        {
            let b = self.k[i] ^ block[i];
            self.k.set(i, b);
            i = i + 1;
        }
        proof {
            assert(self.k@ =~= xor_with(k0, block@));
        }
        let ghost s0 = self.suffix@;
        let mut i: usize = 0;
        while i < 8
            invariant
                block@.len() == 64,
                self.suffix@.len() == 8,
                i <= 8,
                s0.len() == 8,
                forall|t: int| 0 <= t < i ==> self.suffix@[t] == (s0[t] ^ block@[KEYBYTES + t]),
                forall|t: int| i <= t < 8 ==> self.suffix@[t] == s0[t],
                self.counter == old(self).counter,
                self.k@ == xor_with(k0, block@),
            decreases 8 - i,
        {
            let b = self.suffix[i] ^ block[KEYBYTES + i];
            self.suffix.set(i, b);
            i = i + 1;
        }
        proof {
            assert(self.suffix@ =~= xor_with(s0, ks_slice(block@, KEYBYTES as int, 8)));
        }
        self.counter = 0;
    }

    /// Advances the counter and rekeys when the message's tag bits ask for
    /// it or the counter has reached the top of its range.
    fn step(&mut self, tag: u8)
        requires
            old(self).wf(),
        ensures
            final(self)@ == spec_next(old(self)@, tag),
            final(self).wf(),
    {
        self.advance();
        let rekey_flag = tag & 2 != 0;
        if rekey_flag || self.counter == u32::MAX {
            self.rekey_state();
        }
    }

    /// Encrypts one message at the current state and advances the state.
    pub(crate) fn push_core(&mut self, m: &[u8], aad: &[u8], tag: u8) -> (r: Vec<u8>)
        requires
            old(self).wf(),
            m@.len() <= MESSAGEBYTES_MAX,
            valid_tag_bits(tag),
        ensures
            r@ == spec_push(old(self)@, m@, aad@, tag),
            r@.len() == m@.len() + ABYTES,
            final(self)@ == spec_next(old(self)@, tag),
            final(self).wf(),
    {
        let ghost st = self@;
        let nonce = self.nonce_bytes();
        let block0 = chacha20_block(self.k.as_slice(), nonce.as_slice(), 0);
        let block1 = chacha20_block(self.k.as_slice(), nonce.as_slice(), 1);
        let mac_key = &block0[0..KEYBYTES];
        let enc_tag = tag ^ block1[0];
        let body = stream_xor(&self.k, &nonce, 2, m);
        proof {
            assert(mac_key@ =~= ks_slice(block0@, 0, KEYBYTES as nat));
            assert(enc_tag == enc_tag_of(st, tag));
            assert(body@ == body_of(st, m@));
        }
        let mut mac_data: Vec<u8> = Vec::new();
        mac_data.push(enc_tag);
        extend_bytes(&mut mac_data, aad);
        extend_bytes(&mut mac_data, body.as_slice());
        proof {
            assert(mac_data@ =~= mac_input_of(enc_tag, aad@, body@));
        }
        let mac = poly1305_mac(mac_key, mac_data.as_slice());
        proof {
            assert(mac@ =~= mac16(mac_key@, mac_data@));
        }
        let mut ct: Vec<u8> = Vec::new();
        ct.push(enc_tag);
        extend_bytes(&mut ct, body.as_slice());
        extend_bytes(&mut ct, mac.as_slice());
        proof {
            assert(ct@ =~= spec_push(st, m@, aad@, tag));
        }
        self.step(tag);
        ct
    }

    /// Verifies and decrypts one chunk at the current state. On success the
    /// state advances exactly as the push side's did; on failure it is left
    /// unchanged and nothing decrypted is released.
    pub(crate) fn pull_core(&mut self, ct: &[u8], aad: &[u8]) -> (r: Result<(Vec<u8>, Tag), Error>)
        requires
            old(self).wf(),
            ct@.len() <= MESSAGEBYTES_MAX + ABYTES,
        ensures
            r is Ok <==> spec_pull_ok(old(self)@, ct@, aad@),
            r is Ok ==> r->Ok_0.0@ == spec_pull_msg(old(self)@, ct@),
            r is Ok ==> r->Ok_0.1.spec_bits() == pull_tag_bits(old(self)@, ct@),
            r is Ok ==> final(self)@ == spec_next(old(self)@, pull_tag_bits(old(self)@, ct@)),
            r is Err ==> final(self)@ == old(self)@ && r->Err_0 == spec_pull_err(old(self)@, ct@, aad@),
            final(self).wf(),
    {
        let ghost st = self@;
        if ct.len() < ABYTES {
            return Err(Error::InvalidInput);
        }
        let nonce = self.nonce_bytes();
        let block0 = chacha20_block(self.k.as_slice(), nonce.as_slice(), 0);
        let mac_key = &block0[0..KEYBYTES];
        let body = &ct[1..ct.len() - MACBYTES];
        let stored_mac = &ct[ct.len() - MACBYTES..ct.len()];
        proof {
            assert(mac_key@ =~= ks_slice(block0@, 0, KEYBYTES as nat));
            assert(body@ == pull_body(ct@));
            assert(stored_mac@ == pull_mac(ct@));
        }
        let mut mac_data: Vec<u8> = Vec::new();
        mac_data.push(ct[0]);
        extend_bytes(&mut mac_data, aad);
        extend_bytes(&mut mac_data, body);
        proof {
            assert(mac_data@ =~= mac_input_of(ct@[0], aad@, body@));
        }
        let mac = poly1305_mac(mac_key, mac_data.as_slice());
        proof {
            assert(mac@ =~= mac16(mac_key@, mac_data@));
        }
        if !ct_eq(mac.as_slice(), stored_mac) {
            return Err(Error::AuthenticationFailed);
        }
        let block1 = chacha20_block(self.k.as_slice(), nonce.as_slice(), 1);
        let tag_bits = ct[0] ^ block1[0];
        proof {
            assert(tag_bits == pull_tag_bits(st, ct@));
        }
        let tag = match Tag::parse(tag_bits) {
            Ok(t) => t,
            Err(e) => {
                return Err(e);
            },
        };
        let msg = stream_xor(&self.k, &nonce, 2, body);
        proof {
            assert(msg@ == spec_pull_msg(st, ct@));
        }
        self.step(tag_bits);
        Ok((msg, tag))
    }
}

impl Drop for StreamState {
    /// Relies on `zeroize::Zeroize` for `Vec<u8>`: when a state is
    /// released, its secret key material and nonce are overwritten with
    /// zeros through writes the compiler may not elide.
    #[verifier::external_body]
    fn drop(&mut self)
        opens_invariants none
        no_unwind
    {
        self.k.zeroize();
        self.suffix.zeroize();
    }
}

} // verus!
