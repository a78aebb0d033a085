//! The mathematical model of the stream engine.
//!
//! The cipher keystream, the subkey derivation and the one-time
//! authenticator are opaque deterministic functions of their inputs; they
//! are named here by uninterpreted spec functions, and everything the
//! engine does is defined on top of those names. Push and pull are both
//! specified against this one model, which is what makes the round-trip
//! argument go through.

use crate::tag::bits_have_rekey;
use vstd::bytes::{spec_u32_to_le_bytes, spec_u64_from_le_bytes, spec_u64_to_le_bytes};
use vstd::prelude::*;

verus! {

/// Number of bytes in a stream key.
pub const KEYBYTES: usize = 32;

/// Number of bytes in a stream header.
pub const HEADERBYTES: usize = 24;

/// Number of bytes in the internal nonce: a 4-byte little-endian block
/// counter followed by an 8-byte suffix.
pub const NONCEBYTES: usize = 12;

/// Number of bytes in the one-time authenticator output.
pub const MACBYTES: usize = 16;

/// Fixed per-message overhead of a ciphertext chunk: one framing byte plus
/// the 16-byte authenticator.
pub const ABYTES: usize = 17;

/// Longest message a single push accepts. This bounds the number of
/// keystream blocks a message consumes, so the per-message block index
/// never exhausts its 32-bit space.
pub const MESSAGEBYTES_MAX: usize = 0x4000_0000;

/// What the keystream generator returns: the 64-byte block of the cipher
/// stream for a 32-byte key and 12-byte nonce at block index `ctr`.
pub uninterp spec fn chacha_block_of(key: Seq<u8>, nonce: Seq<u8>, ctr: u32) -> Seq<u8>;

/// What the subkey derivation returns: a 32-byte subkey mixed from a
/// 32-byte key and a 16-byte public input.
pub uninterp spec fn hchacha_of(key: Seq<u8>, input: Seq<u8>) -> Seq<u8>;

/// What the one-time authenticator returns: the 16-byte tag of `data`
/// under the 32-byte one-time key `key`.
pub uninterp spec fn poly1305_of(key: Seq<u8>, data: Seq<u8>) -> Seq<u8>;

/// Byte `i` of a keystream block, total in the block's length.
pub open spec fn ks_byte(block: Seq<u8>, i: int) -> u8 {
    if 0 <= i < block.len() {
        block[i]
    } else {
        0
    }
}

/// The `n` bytes of `block` starting at `start`, total in the block's length.
pub open spec fn ks_slice(block: Seq<u8>, start: int, n: nat) -> Seq<u8> {
    Seq::new(n, |i: int| ks_byte(block, start + i))
}

/// `a` XORed bytewise against `b`; the result keeps `a`'s length.
pub open spec fn xor_with(a: Seq<u8>, b: Seq<u8>) -> Seq<u8> {
    Seq::new(a.len(), |i: int| a[i] ^ ks_byte(b, i))
}

/// The authenticator output normalized to its fixed 16-byte length.
pub open spec fn mac16(key: Seq<u8>, data: Seq<u8>) -> Seq<u8> {
    ks_slice(poly1305_of(key, data), 0, MACBYTES as nat)
}

/// The secret state of one stream direction: the derived subkey, the
/// little-endian block counter, and the random nonce suffix.
pub ghost struct StreamStateView {
    pub k: Seq<u8>,
    pub counter: u32,
    pub suffix: Seq<u8>,
}

impl StreamStateView {
    /// The lengths every reachable state has.
    pub open spec fn wf(self) -> bool {
        self.k.len() == KEYBYTES && self.suffix.len() == 8
    }

    /// The 12-byte nonce: the counter in little-endian order, then the suffix.
    pub open spec fn nonce(self) -> Seq<u8> {
        spec_u32_to_le_bytes(self.counter) + self.suffix
    }
}

/// The state both directions derive from a key and a header: the subkey is
/// mixed from the key and the header's first 16 bytes, the counter starts
/// at zero, and the nonce suffix is the header's remaining 8 bytes.
pub open spec fn spec_init(key: Seq<u8>, header: Seq<u8>) -> StreamStateView {
    StreamStateView {
        k: hchacha_of(key, header.take(16)),
        counter: 0,
        suffix: header.skip(16),
    }
}

/// `m` XORed against the keystream blocks starting at block index `ctr`,
/// 64 bytes per block. Encryption and decryption are both this function.
pub open spec fn spec_stream_xor(k: Seq<u8>, nonce: Seq<u8>, ctr: u32, m: Seq<u8>) -> Seq<u8>
    decreases m.len(),
{
    if m.len() <= 64 {
        xor_with(m, chacha_block_of(k, nonce, ctr))
    } else {
        xor_with(m.take(64), chacha_block_of(k, nonce, ctr)) + spec_stream_xor(
            k,
            nonce,
            ((ctr + 1) as u32),
            m.skip(64),
        )
    }
}

/// The one-time authenticator key for the next message: the first 32 bytes
/// of keystream block 0.
pub open spec fn mac_key_of(st: StreamStateView) -> Seq<u8> {
    ks_slice(chacha_block_of(st.k, st.nonce(), 0), 0, KEYBYTES as nat)
}

/// The byte that masks the framing tag: the first byte of keystream block 1.
pub open spec fn tag_mask_of(st: StreamStateView) -> u8 {
    ks_byte(chacha_block_of(st.k, st.nonce(), 1), 0)
}

/// The encrypted framing byte for a message carrying `tag`.
pub open spec fn enc_tag_of(st: StreamStateView, tag: u8) -> u8 {
    tag ^ tag_mask_of(st)
}

/// The encrypted message body: keystream blocks 2 and up.
pub open spec fn body_of(st: StreamStateView, m: Seq<u8>) -> Seq<u8> {
    spec_stream_xor(st.k, st.nonce(), 2, m)
}

/// What the authenticator covers: the framing byte, then the associated
/// data, then the ciphertext body.
pub open spec fn mac_input_of(enc_tag: u8, aad: Seq<u8>, body: Seq<u8>) -> Seq<u8> {
    seq![enc_tag] + aad + body
}

/// The authenticator tag of one message at state `st`.
pub open spec fn mac_of(st: StreamStateView, enc_tag: u8, aad: Seq<u8>, body: Seq<u8>) -> Seq<u8> {
    mac16(mac_key_of(st), mac_input_of(enc_tag, aad, body))
}

/// The ciphertext chunk push produces at state `st` for message `m`,
/// associated data `aad` and tag bits `tag`: the encrypted framing byte,
/// the encrypted body, and the 16-byte authenticator.
pub open spec fn spec_push(st: StreamStateView, m: Seq<u8>, aad: Seq<u8>, tag: u8) -> Seq<u8> {
    let e = enc_tag_of(st, tag);
    let body = body_of(st, m);
    seq![e] + body + mac_of(st, e, aad, body)
}

/// The counter advanced by one, carrying into the nonce suffix on overflow.
pub open spec fn advanced(st: StreamStateView) -> StreamStateView {
    if st.counter == u32::MAX {
        StreamStateView {
            k: st.k,
            counter: 0,
            suffix: spec_u64_to_le_bytes(wrap_inc_u64(spec_u64_from_le_bytes(st.suffix))),
        }
    } else {
        StreamStateView { k: st.k, counter: (st.counter + 1) as u32, suffix: st.suffix }
    }
}

/// `x + 1`, wrapping at the top of the 64-bit range.
pub open spec fn wrap_inc_u64(x: u64) -> u64 {
    if x == u64::MAX {
        0
    } else {
        (x + 1) as u64
    }
}

/// The rekeyed state: key and nonce suffix are XORed against keystream
/// block 0 of the current state (the key against its first 32 bytes, the
/// suffix against the 8 bytes that follow), and the counter resets to zero.
pub open spec fn spec_rekey(st: StreamStateView) -> StreamStateView {
    let b = chacha_block_of(st.k, st.nonce(), 0);
    StreamStateView {
        k: xor_with(st.k, b),
        counter: 0,
        suffix: xor_with(st.suffix, ks_slice(b, KEYBYTES as int, 8)),
    }
}

/// The state after one push or pull with tag bits `tag`: the counter
/// advances, and the state rekeys if the tag asks for it or the counter
/// has reached the top of its range.
pub open spec fn spec_next(st: StreamStateView, tag: u8) -> StreamStateView {
    let a = advanced(st);
    if bits_have_rekey(tag) || a.counter == u32::MAX {
        spec_rekey(a)
    } else {
        a
    }
}

/// The encrypted body carried by a ciphertext chunk.
pub open spec fn pull_body(ct: Seq<u8>) -> Seq<u8>
    recommends
        ct.len() >= ABYTES,
{
    ct.subrange(1, ct.len() - MACBYTES)
}

/// The authenticator carried by a ciphertext chunk.
pub open spec fn pull_mac(ct: Seq<u8>) -> Seq<u8>
    recommends
        ct.len() >= ABYTES,
{
    ct.subrange(ct.len() - MACBYTES, ct.len() as int)
}

/// The tag bits a chunk decodes to at state `st`.
pub open spec fn pull_tag_bits(st: StreamStateView, ct: Seq<u8>) -> u8
    recommends
        ct.len() >= 1,
{
    ct[0] ^ tag_mask_of(st)
}

/// Whether the chunk's authenticator matches what `st` computes over the
/// framing byte, the associated data and the body.
pub open spec fn mac_ok(st: StreamStateView, ct: Seq<u8>, aad: Seq<u8>) -> bool
    recommends
        ct.len() >= ABYTES,
{
    pull_mac(ct) == mac_of(st, ct[0], aad, pull_body(ct))
}

/// The message a chunk decrypts to at state `st`.
pub open spec fn spec_pull_msg(st: StreamStateView, ct: Seq<u8>) -> Seq<u8>
    recommends
        ct.len() >= ABYTES,
{
    spec_stream_xor(st.k, st.nonce(), 2, pull_body(ct))
}

/// Exactly when pull accepts a chunk: long enough, authenticator verified,
/// and a recognized tag byte.
pub open spec fn spec_pull_ok(st: StreamStateView, ct: Seq<u8>, aad: Seq<u8>) -> bool {
    ct.len() >= ABYTES && mac_ok(st, ct, aad) && crate::tag::valid_tag_bits(
        pull_tag_bits(st, ct),
    )
}

/// The error pull reports when it rejects a chunk: a short chunk is
/// rejected before any cryptographic work, then a bad authenticator, then
/// an unrecognized tag byte.
pub open spec fn spec_pull_err(st: StreamStateView, ct: Seq<u8>, aad: Seq<u8>) -> crate::error::Error {
    if ct.len() < ABYTES {
        crate::error::Error::InvalidInput
    } else if !mac_ok(st, ct, aad) {
        crate::error::Error::AuthenticationFailed
    } else {
        crate::error::Error::InvalidTag
    }
}

/// The keystream XOR keeps the input's length.
pub proof fn lemma_stream_xor_len(k: Seq<u8>, nonce: Seq<u8>, ctr: u32, m: Seq<u8>)
    ensures
        spec_stream_xor(k, nonce, ctr, m).len() == m.len(),
    decreases m.len(),
{
    if m.len() > 64 {
        lemma_stream_xor_len(k, nonce, ((ctr + 1) as u32), m.skip(64));
    }
}

/// The keystream XOR is an involution: applying it twice at the same key,
/// nonce and starting block gives the input back. Decryption is encryption.
pub proof fn lemma_stream_xor_involutive(k: Seq<u8>, nonce: Seq<u8>, ctr: u32, m: Seq<u8>)
    ensures
        spec_stream_xor(k, nonce, ctr, spec_stream_xor(k, nonce, ctr, m)) == m,
    decreases m.len(),
{
    let c = spec_stream_xor(k, nonce, ctr, m);
    let b = chacha_block_of(k, nonce, ctr);
    assert(forall|x: u8, y: u8| ((x ^ y) ^ y) == x) by (bit_vector);
    if m.len() <= 64 {
        assert(xor_with(xor_with(m, b), b) =~= m);
    } else {
        let rest = m.skip(64);
        let next = ((ctr + 1) as u32);
        lemma_stream_xor_involutive(k, nonce, next, rest);
        lemma_stream_xor_len(k, nonce, next, rest);
        let c1 = xor_with(m.take(64), b);
        let c2 = spec_stream_xor(k, nonce, next, rest);
        assert(c == c1 + c2);
        assert(c.len() == 64 + rest.len());
        assert(c.take(64) =~= c1);
        assert(c.skip(64) =~= c2);
        assert(xor_with(c.take(64), b) =~= m.take(64));
        assert(spec_stream_xor(k, nonce, ctr, c) == xor_with(c.take(64), b) + spec_stream_xor(
            k,
            nonce,
            next,
            c.skip(64),
        ));
        assert(m.take(64) + m.skip(64) =~= m);
    }
}

} // verus!
