//! What holds of encoding and reconstruction taken together, proved from
//! the definitions that the engine's functions are specified by.

use vstd::prelude::*;
use crate::engine::{
    counts_fault, encode_fault, encode_outcome, encoded, encodes_to, reconstruct_fault, reconstruct_outcome,
    restored, RSE,
};
use crate::error::RseError;
use crate::shards::{
    blanked, consistent, erased, lemma_erased_present_count, present_count, slots_of, uniform,
};
use crate::{encode_with, reconstruct_with, RSEConfig};

verus! {

/// Two engines built for the same shard counts encode every shard set alike
/// and reconstruct from every set of slots alike: an engine is determined by
/// its two counts.
pub proof fn lemma_engines_for_same_counts_agree(
    first: RSE,
    second: RSE,
    shards: Seq<Seq<u8>>,
    slots: Seq<Option<Seq<u8>>>,
)
    requires
        first.data_shards() == second.data_shards(),
        first.parity_shards() == second.parity_shards(),
    ensures
        encode_outcome(first.data_shards(), first.parity_shards(), shards) == encode_outcome(
            second.data_shards(),
            second.parity_shards(),
            shards,
        ),
        reconstruct_outcome(first.data_shards(), first.parity_shards(), slots) == reconstruct_outcome(
            second.data_shards(),
            second.parity_shards(),
            slots,
        ),
{
}

/// Encoding hands every data shard back as it came.
pub proof fn lemma_encode_keeps_data(data_shards: nat, parity_shards: nat, shards: Seq<Seq<u8>>, i: int)
    requires
        encode_fault(data_shards, parity_shards, shards) is None,
        0 <= i < data_shards,
    ensures
        encoded(data_shards, parity_shards, shards)[i] == shards[i],
{
}

/// What the parity buffers hold before encoding has no part in the result:
/// two shard sets with the same data shards encode to the same set.
pub proof fn lemma_encode_ignores_parity_buffers(
    data_shards: nat,
    parity_shards: nat,
    first: Seq<Seq<u8>>,
    second: Seq<Seq<u8>>,
)
    requires
        first.take(data_shards as int) == second.take(data_shards as int),
    ensures
        encoded(data_shards, parity_shards, first) == encoded(data_shards, parity_shards, second),
{
}

/// Encoding an encoded shard set changes nothing.
pub proof fn lemma_encode_twice(data_shards: nat, parity_shards: nat, shards: Seq<Seq<u8>>)
    requires
        encode_fault(data_shards, parity_shards, shards) is None,
    ensures
        encoded(data_shards, parity_shards, encoded(data_shards, parity_shards, shards)) == encoded(
            data_shards,
            parity_shards,
            shards,
        ),
{
    let once = encoded(data_shards, parity_shards, shards);
    assert(once.take(data_shards as int) =~= shards.take(data_shards as int));
}

/// Encoding fails with `ShardSizeMismatch` on the right number of shards of
/// which two differ in length.
pub proof fn lemma_encode_mismatched_lengths(
    data_shards: nat,
    parity_shards: nat,
    shards: Seq<Seq<u8>>,
    i: int,
    j: int,
)
    requires
        shards.len() == data_shards + parity_shards,
        0 <= i < shards.len(),
        0 <= j < shards.len(),
        shards[i].len() != shards[j].len(),
    ensures
        encode_outcome(data_shards, parity_shards, shards) == Err::<Seq<Seq<u8>>, RseError>(
            RseError::ShardSizeMismatch,
        ),
{
}

/// Reconstruction fails with `ShardSizeMismatch` on the right number of
/// slots of which two hold shards that differ in length.
pub proof fn lemma_reconstruct_mismatched_lengths(
    data_shards: nat,
    parity_shards: nat,
    slots: Seq<Option<Seq<u8>>>,
    i: int,
    j: int,
)
    requires
        slots.len() == data_shards + parity_shards,
        0 <= i < slots.len(),
        0 <= j < slots.len(),
        slots[i] is Some,
        slots[j] is Some,
        slots[i]->Some_0.len() != slots[j]->Some_0.len(),
    ensures
        reconstruct_outcome(data_shards, parity_shards, slots) == Err::<Seq<Seq<u8>>, RseError>(
            RseError::ShardSizeMismatch,
        ),
{
}

/// Reconstruction succeeds when exactly as many shards are present as there
/// are data shards, and returns that many shards.
pub proof fn lemma_reconstruct_from_exactly_enough(
    data_shards: nat,
    parity_shards: nat,
    slots: Seq<Option<Seq<u8>>>,
)
    requires
        slots.len() == data_shards + parity_shards,
        consistent(slots),
        present_count(slots) == data_shards,
    ensures
        reconstruct_outcome(data_shards, parity_shards, slots) is Ok,
        reconstruct_outcome(data_shards, parity_shards, slots)->Ok_0.len() == data_shards,
{
}

/// Reconstruction fails with `InsufficientShards` when fewer shards are
/// present than there are data shards, one fewer in particular.
pub proof fn lemma_reconstruct_from_too_few(
    data_shards: nat,
    parity_shards: nat,
    slots: Seq<Option<Seq<u8>>>,
)
    requires
        slots.len() == data_shards + parity_shards,
        consistent(slots),
        present_count(slots) < data_shards,
    ensures
        reconstruct_outcome(data_shards, parity_shards, slots) == Err::<Seq<Seq<u8>>, RseError>(
            RseError::InsufficientShards,
        ),
{
}

/// Reconstruction hands every data shard that was present back as it came.
pub proof fn lemma_reconstruct_keeps_present_data(
    data_shards: nat,
    parity_shards: nat,
    slots: Seq<Option<Seq<u8>>>,
    i: int,
)
    requires
        0 <= i < data_shards,
        slots[i] is Some,
    ensures
        restored(data_shards, parity_shards, slots)[i] == slots[i]->Some_0,
{
}

/// Encode a shard set, lose any shards of the result but no more than there
/// are parity shards, and reconstruct: this succeeds, and every data shard
/// that was not lost comes back as it was handed to the encoder. What comes
/// back for a data shard that was lost is what the codec recovers for it.
pub proof fn lemma_reconstruct_after_erasure(
    data_shards: nat,
    parity_shards: nat,
    shards: Seq<Seq<u8>>,
    full: Seq<Seq<u8>>,
    gone: Set<int>,
)
    requires
        counts_fault(data_shards, parity_shards) is None,
        encodes_to(data_shards, parity_shards, shards, full),
        gone.finite(),
        gone.len() <= parity_shards,
    ensures
        reconstruct_outcome(data_shards, parity_shards, erased(full, gone)) is Ok,
        forall|i: int|
            0 <= i < data_shards && !gone.contains(i) ==> #[trigger] restored(
                data_shards,
                parity_shards,
                erased(full, gone),
            )[i] == shards[i],
{
    let slots = erased(full, gone);
    lemma_erased_present_count(full, gone);
    assert(consistent(slots)) by {
        assert forall|i: int| 0 <= i < slots.len() && (#[trigger] slots[i]) is Some implies
            slots[i]->Some_0.len() > 0 by {
            assert(full[i].len() == full[0].len());
        }
        assert forall|i: int, j: int|
            0 <= i < slots.len() && 0 <= j < slots.len() && (#[trigger] slots[i]) is Some
                && (#[trigger] slots[j]) is Some implies
            slots[i]->Some_0.len() == slots[j]->Some_0.len() by {
            assert(full[i].len() == full[0].len());
            assert(full[j].len() == full[0].len());
        }
    }
    assert(reconstruct_fault(data_shards, parity_shards, slots) is None);
}

/// With no data shard lost, the round trip is exact: encode a shard set,
/// lose parity shards only, and reconstruct, and the data shards come back
/// as they were handed to the encoder.
pub proof fn lemma_round_trip_with_data_intact(
    data_shards: nat,
    parity_shards: nat,
    shards: Seq<Seq<u8>>,
    full: Seq<Seq<u8>>,
    gone: Set<int>,
)
    requires
        counts_fault(data_shards, parity_shards) is None,
        encodes_to(data_shards, parity_shards, shards, full),
        gone.finite(),
        forall|i: int| gone.contains(i) ==> data_shards <= i < data_shards + parity_shards,
    ensures
        reconstruct_outcome(data_shards, parity_shards, erased(full, gone)) == Ok::<
            Seq<Seq<u8>>,
            RseError,
        >(shards.take(data_shards as int)),
{
    let slots = erased(full, gone);
    let upper = Set::new(|i: int| data_shards <= i < data_shards + parity_shards);
    assert(gone.subset_of(upper));
    vstd::set_lib::lemma_int_range(data_shards as int, (data_shards + parity_shards) as int);
    assert(upper =~= vstd::set_lib::set_int_range(
        data_shards as int,
        (data_shards + parity_shards) as int,
    ));
    vstd::set_lib::lemma_len_subset(gone, upper);
    lemma_reconstruct_after_erasure(data_shards, parity_shards, shards, full, gone);
    assert(restored(data_shards, parity_shards, slots) =~= shards.take(data_shards as int));
}

/// An empty buffer can stand for a lost shard without loss: in a set whose
/// shards are all of one nonzero length, blanking shards and reading the
/// buffers as slots gives the set with exactly those shards erased.
pub proof fn lemma_blanked_reads_as_erased(shards: Seq<Seq<u8>>, gone: Set<int>)
    requires
        uniform(shards),
    ensures
        slots_of(blanked(shards, gone)) == erased(shards, gone),
{
    assert forall|i: int| 0 <= i < shards.len() implies
        #[trigger] slots_of(blanked(shards, gone))[i] == erased(shards, gone)[i] by {
        assert(shards[i].len() == shards[0].len());
    }
    assert(slots_of(blanked(shards, gone)) =~= erased(shards, gone));
}

/// The round trip through buffers: encode under a configuration, replace
/// lost shards by empty buffers, no more of them than there are parity
/// shards, and reconstruct under the same configuration. This succeeds, and
/// every data shard that was not lost comes back as it was handed in.
pub proof fn lemma_reconstruct_with_after_blanking(
    config: RSEConfig,
    shards: Seq<Seq<u8>>,
    full: Seq<Seq<u8>>,
    gone: Set<int>,
)
    requires
        encode_with(config, shards) == Ok::<Seq<Seq<u8>>, RseError>(full),
        full.len() == shards.len(),
        uniform(full),
        gone.finite(),
        gone.len() <= config.parity_shard_num,
    ensures
        reconstruct_with(config, blanked(full, gone)) is Ok,
        forall|i: int|
            0 <= i < config.data_shard_num && !gone.contains(i) ==> #[trigger] reconstruct_with(
                config,
                blanked(full, gone),
            )->Ok_0[i] == shards[i],
{
    let d = config.data_shard_num as nat;
    let p = config.parity_shard_num as nat;
    lemma_blanked_reads_as_erased(full, gone);
    lemma_reconstruct_after_erasure(d, p, shards, full, gone);
}

} // verus!
