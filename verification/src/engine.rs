//! The engine: which shard counts it can be built for, what encoding and
//! reconstruction return and when they fail, and the functions that do it.

use vstd::prelude::*;
use crate::codec::{codec_data_shards, codec_parity, codec_parity_shards, codec_recovered, Codec};
use crate::error::RseError;
use crate::shards::{
    collect_data, common_length, consistent, count_present, is_consistent, leading_shards,
    lemma_all_present, present_count, sized_like, uniform,
};

verus! {

/// The most shards, data and parity together, that an engine can have: the
/// number of elements of the field GF(2^8).
pub const MAX_SHARDS: usize = 256;

/// Why no engine exists for a pair of shard counts, if none does: there must
/// be a data shard, and no more than `MAX_SHARDS` shards in all.
pub open spec fn counts_fault(data_shards: nat, parity_shards: nat) -> Option<RseError> {
    if data_shards == 0 {
        Some(RseError::InvalidShardCounts)
    } else if data_shards + parity_shards > MAX_SHARDS {
        Some(RseError::TooManyShards)
    } else {
        None
    }
}

/// Why a shard set cannot be encoded, if it cannot: the number of shards is
/// looked at first, their lengths second.
pub open spec fn encode_fault(data_shards: nat, parity_shards: nat, shards: Seq<Seq<u8>>) -> Option<
    RseError,
> {
    if shards.len() != data_shards + parity_shards {
        Some(RseError::DimensionMismatch)
    } else if !uniform(shards) {
        Some(RseError::ShardSizeMismatch)
    } else {
        None
    }
}

/// The parity shards of the given data shards: none where the engine has no
/// parity shard, else those that the codec computes.
pub open spec fn parity_of(data_shards: nat, parity_shards: nat, data: Seq<Seq<u8>>) -> Seq<Seq<u8>> {
    if parity_shards == 0 {
        Seq::empty()
    } else {
        codec_parity(data_shards, parity_shards, data)
    }
}

/// The encoded shard set: the data shards as they were handed in, followed
/// by their parity shards. What the parity slots held before plays no part.
pub open spec fn encoded(data_shards: nat, parity_shards: nat, shards: Seq<Seq<u8>>) -> Seq<Seq<u8>> {
    shards.take(data_shards as int) + parity_of(data_shards, parity_shards, shards.take(data_shards as int))
}

/// What encoding a shard set comes to.
pub open spec fn encode_outcome(data_shards: nat, parity_shards: nat, shards: Seq<Seq<u8>>) -> Result<
    Seq<Seq<u8>>,
    RseError,
> {
    match encode_fault(data_shards, parity_shards, shards) {
        Some(e) => Err(e),
        None => Ok(encoded(data_shards, parity_shards, shards)),
    }
}

/// Whether `full` is a set that encoding `shards` can return: the encoded
/// set, of as many shards as were handed in, all of one nonzero length.
pub open spec fn encodes_to(
    data_shards: nat,
    parity_shards: nat,
    shards: Seq<Seq<u8>>,
    full: Seq<Seq<u8>>,
) -> bool {
    &&& encode_outcome(data_shards, parity_shards, shards) == Ok::<Seq<Seq<u8>>, RseError>(full)
    &&& full.len() == shards.len()
    &&& uniform(full)
}

/// Why the data cannot be reconstructed from a set of slots, if it cannot:
/// the number of slots is looked at first, the lengths of the shards that
/// are present second, and how many are present last.
pub open spec fn reconstruct_fault(
    data_shards: nat,
    parity_shards: nat,
    slots: Seq<Option<Seq<u8>>>,
) -> Option<RseError> {
    if slots.len() != data_shards + parity_shards {
        Some(RseError::DimensionMismatch)
    } else if !consistent(slots) {
        Some(RseError::ShardSizeMismatch)
    } else if present_count(slots) < data_shards {
        Some(RseError::InsufficientShards)
    } else {
        None
    }
}

/// The data shards after reconstruction: one that was present is itself, one
/// that was missing is what the codec recovers for its slot.
pub open spec fn restored(data_shards: nat, parity_shards: nat, slots: Seq<Option<Seq<u8>>>) -> Seq<
    Seq<u8>,
> {
    Seq::new(
        data_shards,
        |i: int|
            match slots[i] {
                Some(shard) => shard,
                None => codec_recovered(data_shards, parity_shards, slots)[i]->Some_0,
            },
    )
}

/// What reconstructing the data from a set of slots comes to.
pub open spec fn reconstruct_outcome(
    data_shards: nat,
    parity_shards: nat,
    slots: Seq<Option<Seq<u8>>>,
) -> Result<Seq<Seq<u8>>, RseError> {
    match reconstruct_fault(data_shards, parity_shards, slots) {
        Some(e) => Err(e),
        None => Ok(restored(data_shards, parity_shards, slots)),
    }
}

/// The bytes of the shards that a call returned, or its error.
pub open spec fn outcome_view(r: Result<Vec<Vec<u8>>, RseError>) -> Result<Seq<Seq<u8>>, RseError> {
    match r {
        Ok(shards) => Ok(shards.deep_view()),
        Err(e) => Err(e),
    }
}

/// A Reed-Solomon erasure-coding engine for a fixed number of data shards
/// and of parity shards. It is built once and then only read.
#[derive(Debug)]
pub struct RSE {
    data_shard_num: usize,
    parity_shard_num: usize,
    /// The codec that computes and recovers shards; none is kept where there
    /// is no parity shard, as nothing is then left to compute.
    reed_solomon: Option<Codec>,
}

impl RSE {
    #[verifier::type_invariant]
    spec fn well_formed(&self) -> bool {
        &&& counts_fault(self.data_shard_num as nat, self.parity_shard_num as nat) is None
        &&& match self.reed_solomon {
            Some(codec) => {
                &&& self.parity_shard_num > 0
                &&& codec_data_shards(&codec) == self.data_shard_num
                &&& codec_parity_shards(&codec) == self.parity_shard_num
            },
            None => self.parity_shard_num == 0,
        }
    }

    /// The number of data shards of the engine.
    pub closed spec fn data_shards(&self) -> nat {
        self.data_shard_num as nat
    }

    /// The number of parity shards of the engine.
    pub closed spec fn parity_shards(&self) -> nat {
        self.parity_shard_num as nat
    }

    /// Builds the engine for `data_shard_num` data shards and
    /// `parity_shard_num` parity shards.
    pub fn new(data_shard_num: usize, parity_shard_num: usize) -> (r: Result<RSE, RseError>)
        ensures
            match r {
                Ok(engine) => {
                    &&& counts_fault(data_shard_num as nat, parity_shard_num as nat) is None
                    &&& engine.data_shards() == data_shard_num
                    &&& engine.parity_shards() == parity_shard_num
                },
                Err(e) => counts_fault(data_shard_num as nat, parity_shard_num as nat) == Some(e),
            },
    {
        if data_shard_num == 0 {
            return Err(RseError::InvalidShardCounts);
        }
        if parity_shard_num > MAX_SHARDS || data_shard_num > MAX_SHARDS - parity_shard_num {
            return Err(RseError::TooManyShards);
        }
        if parity_shard_num == 0 {
            return Ok(RSE { data_shard_num, parity_shard_num, reed_solomon: None });
        }
        match Codec::build(data_shard_num, parity_shard_num) {
            Ok(codec) => Ok(RSE { data_shard_num, parity_shard_num, reed_solomon: Some(codec) }),
            // The codec accepts every pair of counts that has come this far.
            Err(_) => Err(RseError::InvalidShardCounts),
        }
    }

    /// Computes the parity shards. `shards` holds the data shards followed by
    /// one buffer for each parity shard; the set comes back with the data
    /// shards untouched and every parity buffer overwritten.
    pub fn encode(&self, shards: Vec<Vec<u8>>) -> (r: Result<Vec<Vec<u8>>, RseError>)
        ensures
            outcome_view(r) == encode_outcome(self.data_shards(), self.parity_shards(), shards.deep_view()),
            r matches Ok(out) ==> encodes_to(
                self.data_shards(),
                self.parity_shards(),
                shards.deep_view(),
                out.deep_view(),
            ),
    {
        proof {
            use_type_invariant(self);
        }
        if shards.len() != self.data_shard_num + self.parity_shard_num {
            return Err(RseError::DimensionMismatch);
        }
        if common_length(&shards).is_none() {
            return Err(RseError::ShardSizeMismatch);
        }
        match &self.reed_solomon {
            None => {
                assert(shards.deep_view() =~= encoded(
                    self.data_shards(),
                    self.parity_shards(),
                    shards.deep_view(),
                ));
                Ok(shards)
            },
            Some(codec) => {
                let mut buffers = shards;
                match codec.encode(&mut buffers) {
                    Ok(()) => Ok(buffers),
                    // The codec encodes every set that has come this far.
                    Err(_) => Err(RseError::SingularMatrix),
                }
            },
        }
    }

    /// Recovers the data shards from a shard set of which some shards may be
    /// missing. Returns the data shards alone, in their order.
    pub fn reconstruct(&self, shards: Vec<Option<Vec<u8>>>) -> (r: Result<Vec<Vec<u8>>, RseError>)
        ensures
            outcome_view(r) == reconstruct_outcome(
                self.data_shards(),
                self.parity_shards(),
                shards.deep_view(),
            ),
            r matches Ok(out) ==> uniform(out.deep_view()) && sized_like(out.deep_view(), shards.deep_view()),
    {
        proof {
            use_type_invariant(self);
        }
        let ghost before = shards.deep_view();
        if shards.len() != self.data_shard_num + self.parity_shard_num {
            return Err(RseError::DimensionMismatch);
        }
        if !is_consistent(&shards) {
            return Err(RseError::ShardSizeMismatch);
        }
        if count_present(&shards) < self.data_shard_num {
            return Err(RseError::InsufficientShards);
        }
        let mut slots = shards;
        match &self.reed_solomon {
            None => {},
            Some(codec) => {
                match codec.reconstruct_data(&mut slots) {
                    Ok(()) => {},
                    // The codec reconstructs from every set that has come this far.
                    Err(_) => {
                        return Err(RseError::SingularMatrix);
                    },
                }
            },
        }
        let ghost after = slots.deep_view();
        proof {
            if self.reed_solomon is None {
                lemma_all_present(before);
            }
            let data = leading_shards(after, self.data_shards());
            assert(data =~= restored(self.data_shards(), self.parity_shards(), before));
            assert forall|i: int, j: int|
                0 <= i < data.len() && 0 <= j < before.len() && (#[trigger] before[j]) is Some implies
                (#[trigger] data[i]).len() == before[j]->Some_0.len() by {
                assert(after[i] is Some && after[j] == before[j]);
            }
        }
        collect_data(slots, self.data_shard_num)
    }
}

} // verus!
