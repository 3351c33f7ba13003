//! The boundary to the crate `reed_solomon_erasure`. What stands here is
//! believed, not proved: the codec itself, names for what it computes, and
//! one function for each of its methods that the engine calls, with what
//! that method does on the inputs the engine hands it.

use vstd::prelude::*;
use crate::shards::{consistent, present_count, uniform};

verus! {

/// A Reed-Solomon codec over GF(2^8) of the crate `reed_solomon_erasure`,
/// held as it comes: nothing inside it is known to the verifier. It keeps the
/// generator matrix that it built for its two shard counts.
#[verifier::external_body]
#[derive(Debug)]
pub struct Codec {
    inner: reed_solomon_erasure::galois_8::ReedSolomon,
}

/// The error type of `reed_solomon_erasure`, carried through unread.
#[verifier::external_type_specification]
#[verifier::external_body]
pub struct ExCodecError(reed_solomon_erasure::Error);

/// The number of data shards that a codec was built for: what its method
/// `data_shard_count` returns.
pub uninterp spec fn codec_data_shards(codec: &Codec) -> nat;

/// The number of parity shards that a codec was built for: what its method
/// `parity_shard_count` returns.
pub uninterp spec fn codec_parity_shards(codec: &Codec) -> nat;

/// The parity shards that a codec built for `data_shards` and `parity_shards`
/// computes from the given data shards.
pub uninterp spec fn codec_parity(data_shards: nat, parity_shards: nat, data: Seq<Seq<u8>>) -> Seq<
    Seq<u8>,
>;

/// The slots as a codec built for `data_shards` and `parity_shards` leaves
/// them when it has reconstructed the data shards that were missing.
pub uninterp spec fn codec_recovered(
    data_shards: nat,
    parity_shards: nat,
    slots: Seq<Option<Seq<u8>>>,
) -> Seq<Option<Seq<u8>>>;

impl Codec {
    /// Calls `ReedSolomon::new`. That function refuses a count of zero and a
    /// total above 256, the order of the field; on every other pair it builds
    /// its matrix and returns the codec, which remembers the two counts. The
    /// matrix is a Vandermonde matrix over distinct field elements, times the
    /// inverse of its top square; that square can always be inverted.
    #[verifier::external_body]
    pub(crate) fn build(data_shards: usize, parity_shards: usize) -> (r: Result<
        Codec,
        reed_solomon_erasure::Error,
    >)
        requires
            1 <= data_shards,
            1 <= parity_shards,
            data_shards + parity_shards <= 256,
        ensures
            r is Ok,
            r matches Ok(codec) ==> codec_data_shards(&codec) == data_shards && codec_parity_shards(&codec)
                == parity_shards,
    {
        match reed_solomon_erasure::galois_8::ReedSolomon::new(data_shards, parity_shards) {
            Ok(inner) => Ok(Codec { inner }),
            Err(e) => Err(e),
        }
    }

    /// Calls `ReedSolomon::encode`. Given as many shards as the codec was
    /// built for, all of one nonzero length, that method returns `Ok`, leaves
    /// the data shards as they are and overwrites every parity shard, in
    /// place and at its length, with a value that the data shards determine.
    #[verifier::external_body]
    pub(crate) fn encode(&self, shards: &mut Vec<Vec<u8>>) -> (r: Result<(), reed_solomon_erasure::Error>)
        requires
            old(shards)@.len() == codec_data_shards(self) + codec_parity_shards(self),
            uniform(old(shards).deep_view()),
        ensures
            r is Ok,
            final(shards)@.len() == old(shards)@.len(),
            uniform(final(shards).deep_view()),
            final(shards).deep_view() == old(shards).deep_view().take(codec_data_shards(self) as int)
                + codec_parity(
                codec_data_shards(self),
                codec_parity_shards(self),
                old(shards).deep_view().take(codec_data_shards(self) as int),
            ),
    {
        self.inner.encode(shards)
    }

    /// Calls `ReedSolomon::reconstruct_data`. Given as many slots as the
    /// codec was built for, of which at least as many as there are data
    /// shards hold a shard, and these all of one nonzero length, that method
    /// returns `Ok`, leaves every shard that was present as it is, and fills
    /// each empty data slot with a shard of that same length. Empty parity
    /// slots stay empty. On its way it inverts the rows of its matrix that
    /// belong to the first shards present, as many as there are data shards;
    /// by the way the matrix is built, any such rows can be inverted.
    #[verifier::external_body]
    pub(crate) fn reconstruct_data(&self, slots: &mut Vec<Option<Vec<u8>>>) -> (r: Result<
        (),
        reed_solomon_erasure::Error,
    >)
        requires
            old(slots)@.len() == codec_data_shards(self) + codec_parity_shards(self),
            consistent(old(slots).deep_view()),
            present_count(old(slots).deep_view()) >= codec_data_shards(self),
        ensures
            r is Ok,
            final(slots).deep_view() == codec_recovered(
                codec_data_shards(self),
                codec_parity_shards(self),
                old(slots).deep_view(),
            ),
            final(slots)@.len() == old(slots)@.len(),
            consistent(final(slots).deep_view()),
            forall|i: int|
                0 <= i < old(slots)@.len() && (#[trigger] old(slots).deep_view()[i]) is Some
                    ==> final(slots).deep_view()[i] == old(slots).deep_view()[i],
            forall|i: int|
                0 <= i < codec_data_shards(self) ==> (#[trigger] final(slots).deep_view()[i]) is Some,
    {
        self.inner.reconstruct_data(slots)
    }
}

} // verus!
