//! Trusted bindings to the cryptographic collaborators.
//!
//! The stream cipher keystream, the subkey derivation, the one-time
//! authenticator, the constant-time comparison and the randomness source
//! are supplied by outside crates. Each binding below carries the contract
//! the engine is verified against; the named results
//! ([`chacha_block_of`], [`hchacha_of`], [`poly1305_of`]) stand for the
//! primitives' outputs, which are functions of their arguments alone.

use crate::model::{chacha_block_of, hchacha_of, poly1305_of};
use chacha20::cipher::consts::U16;
use chacha20::cipher::{Array, KeyIvInit, StreamCipher, StreamCipherSeek};
use poly1305::universal_hash::KeyInit;
use subtle::ConstantTimeEq;
use vstd::prelude::*;
use zeroize::Zeroize;

verus! {

/// Relies on `chacha20::ChaCha20` (the RFC 8439 variant: 32-byte key,
/// 12-byte nonce, 32-bit block counter): seeking to block `ctr` and
/// producing 64 keystream bytes returns the block named by
/// [`chacha_block_of`], a function of key, nonce and index alone.
#[verifier::external_body]
pub(crate) fn chacha20_block(key: &[u8], nonce: &[u8], ctr: u32) -> (r: Vec<u8>)
    requires
        key@.len() == 32,
        nonce@.len() == 12,
        ctr < u32::MAX,
    ensures
        r@ == chacha_block_of(key@, nonce@, ctr),
        r@.len() == 64,
{
    let mut cipher = chacha20::ChaCha20::new(key.try_into().unwrap(), nonce.try_into().unwrap());
    cipher.seek((ctr as u64) * 64);
    let mut block = vec![0u8; 64];
    cipher.apply_keystream(&mut block);
    block
}

/// Relies on `chacha20::hchacha` with 20 rounds: the 32-byte subkey it
/// derives from a 32-byte key and a 16-byte input is the value named by
/// [`hchacha_of`], a function of the two arguments alone.
#[verifier::external_body]
pub(crate) fn hchacha20(key: &[u8], input: &[u8]) -> (r: Vec<u8>)
    requires
        key@.len() == 32,
        input@.len() == 16,
    ensures
        r@ == hchacha_of(key@, input@),
        r@.len() == 32,
{
    let k = chacha20::Key::try_from(key).unwrap();
    let i = Array::<u8, U16>::try_from(input).unwrap();
    chacha20::hchacha::<chacha20::R20>(&k, &i).as_slice().to_vec()
}

/// Relies on `poly1305::Poly1305::compute_unpadded`: the 16-byte
/// authenticator tag of `data` under the 32-byte one-time key is the value
/// named by [`poly1305_of`], a function of key and data alone.
#[verifier::external_body]
pub(crate) fn poly1305_mac(key: &[u8], data: &[u8]) -> (r: Vec<u8>)
    requires
        key@.len() == 32,
    ensures
        r@ == poly1305_of(key@, data@),
        r@.len() == 16,
{
    let k = poly1305::Key::try_from(key).unwrap();
    let tag = poly1305::Poly1305::new(&k).compute_unpadded(data);
    tag.as_slice().to_vec()
}

/// Relies on `subtle::ConstantTimeEq` for byte slices: returns true exactly
/// when the two slices have the same length and contents, taking time that
/// does not depend on where they first differ.
#[verifier::external_body]
pub(crate) fn ct_eq(a: &[u8], b: &[u8]) -> (r: bool)
    ensures
        r == (a@ == b@),
{
    a.ct_eq(b).into()
}

/// Relies on `getrandom::fill`: overwrites the buffer with bytes from the
/// operating system's cryptographically secure randomness source, leaving
/// its length unchanged. Nothing is promised about the bytes themselves.
/// Panics only if the operating system reports that its randomness source
/// is unavailable; no input can trigger that.
#[verifier::external_body]
pub(crate) fn random_fill(buf: &mut Vec<u8>)
    ensures
        final(buf)@.len() == old(buf)@.len(),
{
    getrandom::fill(buf.as_mut_slice()).expect("operating system randomness source failed");
}

/// Relies on `zeroize::Zeroize` for `Vec<u8>`: overwrites the buffer's
/// whole allocation with zeros through writes the compiler may not elide,
/// then truncates it to length zero.
#[verifier::external_body]
pub(crate) fn wipe_bytes(buf: &mut Vec<u8>)
    ensures
        final(buf)@.len() == 0,
{
    buf.zeroize();
}

} // verus!
