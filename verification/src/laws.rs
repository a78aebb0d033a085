//! The stream's laws, stated over the model and proved once and for all.
//!
//! Push and pull are specified against the same model
//! ([`spec_push`], [`spec_pull_ok`], [`spec_next`]), so each lemma here,
//! together with the sessions' contracts, carries over to the executable
//! API directly.

use crate::model::{
    advanced, body_of, enc_tag_of, mac_of, mac_ok, pull_body, pull_mac, pull_tag_bits, spec_next,
    spec_pull_msg, spec_pull_ok, spec_push, spec_rekey, lemma_stream_xor_involutive,
    lemma_stream_xor_len, StreamStateView, ABYTES, MACBYTES,
};
use crate::tag::valid_tag_bits;
use vstd::prelude::*;

verus! {

/// Round trip: a chunk pushed at state `st` with message `m`, associated
/// data `aad` and a recognized tag is exactly `m.len() + ABYTES` bytes; pull
/// at the same state and with the same associated data accepts it, recovers
/// exactly `m` and the same tag bits, and advances to exactly the state the
/// push side advanced to. Since both sides start from the same derived
/// state and step through the same transition, any ordered sequence of
/// pushed chunks pulled in the same order round-trips, by induction on this
/// lemma.
pub proof fn lemma_round_trip(st: StreamStateView, m: Seq<u8>, aad: Seq<u8>, tag: u8)
    requires
        valid_tag_bits(tag),
    ensures
        spec_push(st, m, aad, tag).len() == m.len() + ABYTES,
        spec_pull_ok(st, spec_push(st, m, aad, tag), aad),
        spec_pull_msg(st, spec_push(st, m, aad, tag)) == m,
        pull_tag_bits(st, spec_push(st, m, aad, tag)) == tag,
        spec_next(st, pull_tag_bits(st, spec_push(st, m, aad, tag))) == spec_next(st, tag),
{
    let ct = spec_push(st, m, aad, tag);
    let e = enc_tag_of(st, tag);
    let body = body_of(st, m);
    let mac = mac_of(st, e, aad, body);
    lemma_stream_xor_len(st.k, st.nonce(), 2, m);
    assert(ct.len() == m.len() + ABYTES);
    assert(ct[0] == e);
    assert(pull_body(ct) =~= body);
    assert(pull_mac(ct) =~= mac);
    assert(forall|x: u8, y: u8| ((x ^ y) ^ y) == x) by (bit_vector);
    assert(pull_tag_bits(st, ct) == tag);
    assert(mac_ok(st, ct, aad));
    lemma_stream_xor_involutive(st.k, st.nonce(), 2, m);
    assert(spec_pull_msg(st, ct) == m);
}

/// The state either side of a stream holds after the first `n` items of an
/// ordered sequence of (message, associated data, tag bits) triples.
pub open spec fn state_after(
    st: StreamStateView,
    items: Seq<(Seq<u8>, Seq<u8>, u8)>,
    n: int,
) -> StreamStateView
    decreases n,
{
    if n <= 0 {
        st
    } else {
        spec_next(state_after(st, items, n - 1), items[n - 1].2)
    }
}

/// Whether the `i`-th chunk of a stream round-trips: pushed at the state
/// both sides have reached after `i` items, it is accepted by pull at that
/// same state, decrypts to exactly the `i`-th message and tag, and moves
/// the pull side to the state the push side moves to.
pub open spec fn item_round_trips(
    st: StreamStateView,
    items: Seq<(Seq<u8>, Seq<u8>, u8)>,
    i: int,
) -> bool {
    let sti = state_after(st, items, i);
    let ct = spec_push(sti, items[i].0, items[i].1, items[i].2);
    &&& spec_pull_ok(sti, ct, items[i].1)
    &&& spec_pull_msg(sti, ct) == items[i].0
    &&& pull_tag_bits(sti, ct) == items[i].2
    &&& spec_next(sti, pull_tag_bits(sti, ct)) == state_after(st, items, i + 1)
}

/// Round trip for a whole stream: for any initial state and any ordered
/// sequence of (message, associated data, tag) items with recognized tags,
/// pushing them in order and pulling the chunks in the same order with the
/// same associated data reproduces every message and tag, with the two
/// sides' states in lockstep throughout.
pub proof fn lemma_stream_round_trip(st: StreamStateView, items: Seq<(Seq<u8>, Seq<u8>, u8)>)
    requires
        forall|i: int| 0 <= i < items.len() ==> valid_tag_bits(#[trigger] items[i].2),
    ensures
        forall|i: int| 0 <= i < items.len() ==> #[trigger] item_round_trips(st, items, i),
{
    assert forall|i: int| 0 <= i < items.len() implies #[trigger] item_round_trips(
        st,
        items,
        i,
    ) by {
        lemma_round_trip(state_after(st, items, i), items[i].0, items[i].1, items[i].2);
        assert(state_after(st, items, i + 1) == spec_next(state_after(st, items, i), items[i].2));
    }
}

/// Tamper detection for the authenticator bytes: a chunk of the same
/// length as a genuine one, agreeing with it on the framing byte and the
/// body but differing somewhere — hence in the authenticator — is rejected.
/// (A flip in the framing byte, the body or the associated data is caught
/// because the authenticator no longer matches the flipped data; that the
/// authenticator of different data differs is a property of the one-time
/// authenticator itself, and is exercised by test rather than proved.)
pub proof fn lemma_mac_tamper_detected(
    st: StreamStateView,
    ct1: Seq<u8>,
    ct2: Seq<u8>,
    aad: Seq<u8>,
)
    requires
        spec_pull_ok(st, ct1, aad),
        ct2.len() == ct1.len(),
        ct2 != ct1,
        ct2[0] == ct1[0],
        pull_body(ct2) == pull_body(ct1),
    ensures
        !spec_pull_ok(st, ct2, aad),
{
    assert(pull_mac(ct2) != pull_mac(ct1)) by {
        if pull_mac(ct2) == pull_mac(ct1) {
            assert forall|t: int| 0 <= t < ct2.len() implies ct2[t] == ct1[t] by {
                if 1 <= t < ct2.len() - MACBYTES {
                    assert(ct2[t] == pull_body(ct2)[t - 1]);
                    assert(ct1[t] == pull_body(ct1)[t - 1]);
                } else if ct2.len() - MACBYTES <= t {
                    assert(ct2[t] == pull_mac(ct2)[t - (ct2.len() - MACBYTES)]);
                    assert(ct1[t] == pull_mac(ct1)[t - (ct1.len() - MACBYTES)]);
                }
            }
            assert(ct2 =~= ct1);
        }
    }
    assert(mac_of(st, ct2[0], aad, pull_body(ct2)) == mac_of(st, ct1[0], aad, pull_body(ct1)));
    assert(!mac_ok(st, ct2, aad));
}

/// Automatic rekey on counter exhaustion: when advancing brings the block
/// counter to the top of its range, the next state is the rekeyed advanced
/// state whatever the message's tag was — exactly what an explicit `REKEY`
/// tag produces. Both directions share this transition, so the pull side
/// rekeys at the same message without any caller action and the stream
/// keeps decrypting (see [`lemma_round_trip`]).
pub proof fn lemma_auto_rekey(st: StreamStateView, tag: u8)
    requires
        advanced(st).counter == u32::MAX,
    ensures
        spec_next(st, tag) == spec_rekey(advanced(st)),
{
}

/// Manual rekey symmetry: two sides at the same state that both rekey
/// arrive at the same state again, and the stream round-trips from it; the
/// message after an agreed rekey point stays synchronized.
pub proof fn lemma_manual_rekey_symmetry(st: StreamStateView, m: Seq<u8>, aad: Seq<u8>, tag: u8)
    requires
        valid_tag_bits(tag),
    ensures
        spec_pull_ok(spec_rekey(st), spec_push(spec_rekey(st), m, aad, tag), aad),
        spec_pull_msg(spec_rekey(st), spec_push(spec_rekey(st), m, aad, tag)) == m,
        pull_tag_bits(spec_rekey(st), spec_push(spec_rekey(st), m, aad, tag)) == tag,
{
    lemma_round_trip(spec_rekey(st), m, aad, tag);
}

} // verus!
