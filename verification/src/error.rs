//! The errors of the library.

use vstd::prelude::*;

verus! {

/// Why an engine could not be built, or why a call on it failed.
#[derive(Debug, Clone, Copy, PartialEq, Eq, Structural)]
pub enum RseError {
    /// An engine was asked for with no data shard.
    InvalidShardCounts,
    /// An engine was asked for with more shards than the field has elements.
    TooManyShards,
    /// The shards of one call are not all of one nonzero length.
    ShardSizeMismatch,
    /// The number of shards handed in is not the number the engine was built for.
    DimensionMismatch,
    /// Fewer shards are present than there are data shards.
    InsufficientShards,
    /// The codec failed on input that the engine had found valid: a defect of the
    /// engine, not of the caller's input.
    SingularMatrix,
}

} // verus!
