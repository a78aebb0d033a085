//! Per-message framing tags.

use crate::error::Error;
use vstd::prelude::*;

verus! {

/// Framing metadata attached to every message of a stream: an 8-bit flag
/// set with two independent flags, `PUSH` and `REKEY`.
///
/// `MESSAGE` is the empty flag set (an ordinary message); `FINAL` is the
/// union `PUSH | REKEY` and marks the end of the stream. A tag byte with
/// any other bit set is invalid and is rejected by [`Tag::parse`].
#[derive(Clone, Copy, Debug, PartialEq, Eq, Structural)]
#[allow(non_camel_case_types)]
pub enum Tag {
    /// An ordinary message in the stream (no flags).
    MESSAGE,
    /// Marks the end of a series of messages, but not of the stream.
    PUSH,
    /// Asks both sides to derive a new key for the stream.
    REKEY,
    /// Marks the end of the stream; the union of `PUSH` and `REKEY`.
    FINAL,
}

/// Whether a byte encodes a recognized set of flags.
pub open spec fn valid_tag_bits(b: u8) -> bool {
    b <= 3
}

/// Whether a tag byte carries the `PUSH` flag.
pub open spec fn bits_have_push(b: u8) -> bool {
    b & 1 != 0
}

/// Whether a tag byte carries the `REKEY` flag.
pub open spec fn bits_have_rekey(b: u8) -> bool {
    b & 2 != 0
}

impl Tag {
    /// The flag bits this tag encodes.
    pub open spec fn spec_bits(self) -> u8 {
        match self {
            Tag::MESSAGE => 0,
            Tag::PUSH => 1,
            Tag::REKEY => 2,
            Tag::FINAL => 3,
        }
    }

    /// The byte encoding of this tag.
    #[verifier::when_used_as_spec(spec_bits)]
    pub fn bits(self) -> (r: u8)
        ensures
            r == self.spec_bits(),
    {
        match self {
            Tag::MESSAGE => 0,
            Tag::PUSH => 1,
            Tag::REKEY => 2,
            Tag::FINAL => 3,
        }
    }

    /// Parses a tag byte coming from untrusted input.
    ///
    /// Succeeds exactly on the bytes that encode a recognized flag set;
    /// any other byte is rejected with [`Error::InvalidTag`].
    pub fn parse(b: u8) -> (r: Result<Tag, Error>)
        ensures
            r is Ok <==> valid_tag_bits(b),
            r is Ok ==> r->Ok_0.spec_bits() == b,
            !valid_tag_bits(b) ==> r == Err::<Tag, Error>(Error::InvalidTag),
    {
        match b {
            0 => Ok(Tag::MESSAGE),
            1 => Ok(Tag::PUSH),
            2 => Ok(Tag::REKEY),
            3 => Ok(Tag::FINAL),
            _ => Err(Error::InvalidTag),
        }
    }

    /// Whether this tag carries the `PUSH` flag.
    pub fn has_push(self) -> (r: bool)
        ensures
            r == bits_have_push(self.spec_bits()),
    {
        proof {
            assert(0u8 & 1 == 0 && 1u8 & 1 == 1 && 2u8 & 1 == 0 && 3u8 & 1 == 1) by (bit_vector);
        }
        matches!(self, Tag::PUSH | Tag::FINAL)
    }

    /// Whether this tag carries the `REKEY` flag.
    pub fn has_rekey(self) -> (r: bool)
        ensures
            r == bits_have_rekey(self.spec_bits()),
    {
        proof {
            assert(0u8 & 2 == 0 && 1u8 & 2 == 0 && 2u8 & 2 == 2 && 3u8 & 2 == 2) by (bit_vector);
        }
        matches!(self, Tag::REKEY | Tag::FINAL)
    }

    /// The union of two flag sets; total and side-effect-free.
    pub fn union(self, other: Tag) -> (r: Tag)
        ensures
            r.spec_bits() == self.spec_bits() | other.spec_bits(),
    {
        proof {
            lemma_tag_bit_table();
        }
        match (self, other) {
            (Tag::MESSAGE, o) => o,
            (s, Tag::MESSAGE) => s,
            (Tag::FINAL, _) => Tag::FINAL,
            (_, Tag::FINAL) => Tag::FINAL,
            (Tag::PUSH, Tag::PUSH) => Tag::PUSH,
            (Tag::REKEY, Tag::REKEY) => Tag::REKEY,
            (Tag::PUSH, Tag::REKEY) => Tag::FINAL,
            (Tag::REKEY, Tag::PUSH) => Tag::FINAL,
        }
    }

    /// The intersection of two flag sets; total and side-effect-free.
    pub fn intersection(self, other: Tag) -> (r: Tag)
        ensures
            r.spec_bits() == self.spec_bits() & other.spec_bits(),
    {
        proof {
            lemma_tag_bit_table();
        }
        match (self, other) {
            (Tag::MESSAGE, _) => Tag::MESSAGE,
            (_, Tag::MESSAGE) => Tag::MESSAGE,
            (Tag::FINAL, o) => o,
            (s, Tag::FINAL) => s,
            (Tag::PUSH, Tag::PUSH) => Tag::PUSH,
            (Tag::REKEY, Tag::REKEY) => Tag::REKEY,
            (Tag::PUSH, Tag::REKEY) => Tag::MESSAGE,
            (Tag::REKEY, Tag::PUSH) => Tag::MESSAGE,
        }
    }
}

/// Bitwise facts about the four tag encodings, small enough to settle with
/// the bit-vector solver once and reuse.
proof fn lemma_tag_bit_table()
    ensures
        forall|a: u8, b: u8| a <= 3 && b <= 3 ==> (a | b) <= 3 && (a & b) <= 3,
        (0u8 | 0u8) == 0u8 && (0u8 | 1u8) == 1u8 && (0u8 | 2u8) == 2u8 && (0u8 | 3u8) == 3u8,
        (1u8 | 0u8) == 1u8 && (1u8 | 1u8) == 1u8 && (1u8 | 2u8) == 3u8 && (1u8 | 3u8) == 3u8,
        (2u8 | 0u8) == 2u8 && (2u8 | 1u8) == 3u8 && (2u8 | 2u8) == 2u8 && (2u8 | 3u8) == 3u8,
        (3u8 | 0u8) == 3u8 && (3u8 | 1u8) == 3u8 && (3u8 | 2u8) == 3u8 && (3u8 | 3u8) == 3u8,
        (0u8 & 0u8) == 0u8 && (0u8 & 1u8) == 0u8 && (0u8 & 2u8) == 0u8 && (0u8 & 3u8) == 0u8,
        (1u8 & 0u8) == 0u8 && (1u8 & 1u8) == 1u8 && (1u8 & 2u8) == 0u8 && (1u8 & 3u8) == 1u8,
        (2u8 & 0u8) == 0u8 && (2u8 & 1u8) == 0u8 && (2u8 & 2u8) == 2u8 && (2u8 & 3u8) == 2u8,
        (3u8 & 0u8) == 0u8 && (3u8 & 1u8) == 1u8 && (3u8 & 2u8) == 2u8 && (3u8 & 3u8) == 3u8,
{
    assert(forall|a: u8, b: u8| a <= 3 && b <= 3 ==> (a | b) <= 3 && (a & b) <= 3) by (bit_vector);
    assert((0u8 | 0u8) == 0u8 && (0u8 | 1u8) == 1u8 && (0u8 | 2u8) == 2u8 && (0u8 | 3u8) == 3u8
        && (1u8 | 0u8) == 1u8 && (1u8 | 1u8) == 1u8 && (1u8 | 2u8) == 3u8 && (1u8 | 3u8) == 3u8
        && (2u8 | 0u8) == 2u8 && (2u8 | 1u8) == 3u8 && (2u8 | 2u8) == 2u8 && (2u8 | 3u8) == 3u8
        && (3u8 | 0u8) == 3u8 && (3u8 | 1u8) == 3u8 && (3u8 | 2u8) == 3u8 && (3u8 | 3u8) == 3u8)
        by (bit_vector);
    assert((0u8 & 0u8) == 0u8 && (0u8 & 1u8) == 0u8 && (0u8 & 2u8) == 0u8 && (0u8 & 3u8) == 0u8
        && (1u8 & 0u8) == 0u8 && (1u8 & 1u8) == 1u8 && (1u8 & 2u8) == 0u8 && (1u8 & 3u8) == 1u8
        && (2u8 & 0u8) == 0u8 && (2u8 & 1u8) == 0u8 && (2u8 & 2u8) == 2u8 && (2u8 & 3u8) == 2u8
        && (3u8 & 0u8) == 0u8 && (3u8 & 1u8) == 1u8 && (3u8 & 2u8) == 2u8 && (3u8 & 3u8) == 3u8)
        by (bit_vector);
}

/// `FINAL` is the composition of the two flags: its bits are the union of
/// the `PUSH` bits and the `REKEY` bits, and parsing its byte value yields
/// a tag carrying both flags.
pub proof fn lemma_final_composition()
    ensures
        Tag::FINAL.spec_bits() == Tag::PUSH.spec_bits() | Tag::REKEY.spec_bits(),
        valid_tag_bits(Tag::FINAL.spec_bits()),
        bits_have_push(Tag::FINAL.spec_bits()),
        bits_have_rekey(Tag::FINAL.spec_bits()),
{
    assert((1u8 | 2u8) == 3u8 && 3u8 & 1 == 1 && 3u8 & 2 == 2) by (bit_vector);
}

} // verus!
