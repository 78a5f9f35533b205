//! The stored form of a counter: its three words, little-endian, in the
//! order earlier term, later term, position.

use crate::counter::Fibo;
use crate::error::FiboError;
use crate::sequence::SequenceState;
use vstd::bytes::{
    lemma_auto_spec_u64_to_from_le_bytes, spec_u64_from_le_bytes, spec_u64_to_le_bytes,
    u64_from_le_bytes, u64_to_le_bytes,
};
use vstd::prelude::*;
use vstd::slice::slice_subrange;

verus! {

/// The length of a stored record in bytes.
pub const RECORD_LEN: usize = 24;

/// The record of a state whose components fit in 64 bits.
pub open spec fn encode(s: SequenceState) -> Seq<u8>
    recommends
        s.fits(),
{
    spec_u64_to_le_bytes(s.term_a as u64) + spec_u64_to_le_bytes(s.term_b as u64)
        + spec_u64_to_le_bytes(s.position as u64)
}

/// The state that a record stands for, if it stands for one: it must have
/// the length of a record and hold a reachable state.
pub open spec fn decode(bytes: Seq<u8>) -> Option<SequenceState> {
    let s = SequenceState::of_words(
        spec_u64_from_le_bytes(bytes.subrange(0, 8)),
        spec_u64_from_le_bytes(bytes.subrange(8, 16)),
        spec_u64_from_le_bytes(bytes.subrange(16, 24)),
    );
    if bytes.len() == RECORD_LEN && s.reachable() {
        Some(s)
    } else {
        None
    }
}

/// Storing a state and loading it again gives the same three components
/// back, for every state a counter can be in.
pub proof fn lemma_decode_encode(s: SequenceState)
    requires
        s.reachable(),
        s.fits(),
    ensures
        encode(s).len() == RECORD_LEN,
        decode(encode(s)) == Some(s),
{
    lemma_auto_spec_u64_to_from_le_bytes();
    let a = spec_u64_to_le_bytes(s.term_a as u64);
    let b = spec_u64_to_le_bytes(s.term_b as u64);
    let p = spec_u64_to_le_bytes(s.position as u64);
    assert(encode(s).subrange(0, 8) =~= a);
    assert(encode(s).subrange(8, 16) =~= b);
    assert(encode(s).subrange(16, 24) =~= p);
}

/// A record that loads is the record of the state it loads to, so no two
/// records stand for the same state.
pub proof fn lemma_encode_decode(bytes: Seq<u8>)
    requires
        decode(bytes) is Some,
    ensures
        encode(decode(bytes)->Some_0) == bytes,
{
    lemma_auto_spec_u64_to_from_le_bytes();
    assert(bytes =~= bytes.subrange(0, 8) + bytes.subrange(8, 16) + bytes.subrange(16, 24));
}

impl Fibo {
    /// The record of this counter.
    pub fn to_bytes(&self) -> (bytes: Vec<u8>)
        ensures
            bytes@ == encode(self@),
            decode(bytes@) == Some(self@),
    {
        proof {
            use_type_invariant(self);
            lemma_decode_encode(self@);
        }
        let mut bytes = u64_to_le_bytes(self.get_f1());
        let mut later = u64_to_le_bytes(self.get_f2());
        let mut position = u64_to_le_bytes(self.get_n());
        bytes.append(&mut later);
        bytes.append(&mut position);
        bytes
    }

    /// Loads a counter from a record. A slice of the wrong length, or one
    /// that holds a state no counter can be in, is reported as corrupt.
    pub fn from_bytes(bytes: &[u8]) -> (outcome: Result<Fibo, FiboError>)
        ensures
            outcome is Ok <==> decode(bytes@) is Some,
            match outcome {
                Ok(state) => decode(bytes@) == Some(state@),
                Err(error) => error == FiboError::CorruptState,
            },
    {
        if bytes.len() != RECORD_LEN {
            return Err(FiboError::CorruptState);
        }
        let f1 = u64_from_le_bytes(slice_subrange(bytes, 0, 8));
        let f2 = u64_from_le_bytes(slice_subrange(bytes, 8, 16));
        let n = u64_from_le_bytes(slice_subrange(bytes, 16, 24));
        Fibo::from_parts(f1, f2, n)
    }
}

} // verus!
