//! Reed-Solomon erasure coding over GF(2^8): from `D` data shards an engine
//! computes `P` parity shards, and from any `D` of the `D + P` shards it
//! recovers the data.
//!
//! The field arithmetic and the generator matrix are those of the crate
//! `reed_solomon_erasure`, which module `codec` calls. Everything around
//! these calls is verified: which shard counts and shard sets are accepted,
//! which error each fault gives, and how the result relates to what the
//! codec returns.

use vstd::prelude::*;

pub mod codec;
pub mod engine;
pub mod error;
pub mod laws;
pub mod shards;

pub use crate::engine::RSE;
pub use crate::error::RseError;

use crate::engine::{counts_fault, encode_outcome, encodes_to, outcome_view, reconstruct_outcome};
use crate::shards::{absent_if_empty, sized_like, slots_of, uniform};

verus! {

/// The shard counts that an engine is built for.
#[derive(Debug, Clone, Copy)]
pub struct RSEConfig {
    pub data_shard_num: usize,
    pub parity_shard_num: usize,
}

/// What encoding a shard set under a configuration comes to: the fault of
/// the shard counts if they have one, else what the engine for them returns.
pub open spec fn encode_with(config: RSEConfig, shards: Seq<Seq<u8>>) -> Result<Seq<Seq<u8>>, RseError> {
    match counts_fault(config.data_shard_num as nat, config.parity_shard_num as nat) {
        Some(e) => Err(e),
        None => encode_outcome(config.data_shard_num as nat, config.parity_shard_num as nat, shards),
    }
}

/// What reconstructing the data from a list of buffers under a configuration
/// comes to, an empty buffer standing for a missing shard.
pub open spec fn reconstruct_with(config: RSEConfig, buffers: Seq<Seq<u8>>) -> Result<
    Seq<Seq<u8>>,
    RseError,
> {
    match counts_fault(config.data_shard_num as nat, config.parity_shard_num as nat) {
        Some(e) => Err(e),
        None => reconstruct_outcome(
            config.data_shard_num as nat,
            config.parity_shard_num as nat,
            slots_of(buffers),
        ),
    }
}

/// Builds the engine for `config` and encodes `data` with it: the data
/// shards followed by one buffer of their length for each parity shard.
pub fn encode(config: RSEConfig, data: Vec<Vec<u8>>) -> (r: Result<Vec<Vec<u8>>, RseError>)
    ensures
        outcome_view(r) == encode_with(config, data.deep_view()),
        r matches Ok(out) ==> encodes_to(
            config.data_shard_num as nat,
            config.parity_shard_num as nat,
            data.deep_view(),
            out.deep_view(),
        ),
{
    match RSE::new(config.data_shard_num, config.parity_shard_num) {
        Ok(engine) => engine.encode(data),
        Err(e) => Err(e),
    }
}

/// Builds the engine for `config` and recovers the data shards from `data`,
/// in which an empty buffer stands for a shard that is missing.
pub fn reconstruct(config: RSEConfig, data: Vec<Vec<u8>>) -> (r: Result<Vec<Vec<u8>>, RseError>)
    ensures
        outcome_view(r) == reconstruct_with(config, data.deep_view()),
        r matches Ok(out) ==> uniform(out.deep_view()) && sized_like(
            out.deep_view(),
            slots_of(data.deep_view()),
        ),
{
    match RSE::new(config.data_shard_num, config.parity_shard_num) {
        Ok(engine) => engine.reconstruct(absent_if_empty(data)),
        Err(e) => Err(e),
    }
}

} // verus!
