//! The FRI configuration of the final recursive proof.
//!
//! The final proof of a batch wraps the batch proof once more under a FRI
//! configuration with a higher rate: it starts from the standard recursion
//! configuration and replaces the rate, the grinding bits and the number of
//! query rounds, keeping the Merkle cap height and the reduction strategy.
use vstd::prelude::*;

verus! {

/// How FRI reduces the polynomial degree at each layer.
#[derive(Debug, PartialEq, Eq)]
pub enum FriReduction {
    /// The exact sequence of arities, in bits.
    Fixed(Vec<usize>),
    /// Reductions of arity `2^arity_bits` until the degree is at most
    /// `2^final_poly_bits`.
    ConstantArityBits(usize, usize),
    /// A searched sequence of arities, with an optional maximal arity in bits.
    MinSize(Option<usize>),
}

/// The parameters of the FRI protocol.
#[derive(Debug, PartialEq, Eq)]
pub struct FriParams {
    /// The code rate is `2^-rate_bits`.
    pub rate_bits: usize,
    /// The height of the Merkle tree caps.
    pub cap_height: usize,
    /// The number of bits of proof-of-work grinding.
    pub proof_of_work_bits: u32,
    /// The reduction strategy of the commit phase.
    pub reduction_strategy: FriReduction,
    /// The number of query rounds.
    pub num_query_rounds: usize,
}

/// The rate bits of the final proof.
pub const HIGH_RATE_BITS: usize = 7;

/// The proof-of-work bits of the final proof.
pub const HIGH_RATE_PROOF_OF_WORK_BITS: u32 = 16;

/// The query rounds of the final proof.
pub const HIGH_RATE_QUERY_ROUNDS: usize = 12;

/// The high-rate configuration derived from `standard`.
pub open spec fn high_rate_of(standard: FriParams) -> FriParams {
    FriParams {
        rate_bits: HIGH_RATE_BITS,
        cap_height: standard.cap_height,
        proof_of_work_bits: HIGH_RATE_PROOF_OF_WORK_BITS,
        reduction_strategy: standard.reduction_strategy,
        num_query_rounds: HIGH_RATE_QUERY_ROUNDS,
    }
}

/// The FRI configuration of the final proof: `standard` with rate bits 7,
/// 16 proof-of-work bits and 12 query rounds.
pub fn high_rate_fri_config(standard: FriParams) -> (config: FriParams)
    ensures
        config == high_rate_of(standard),
        config.rate_bits == 7,
        config.proof_of_work_bits == 16,
        config.num_query_rounds == 12,
        config.cap_height == standard.cap_height,
        config.reduction_strategy == standard.reduction_strategy,
{
    FriParams {
        rate_bits: HIGH_RATE_BITS,
        proof_of_work_bits: HIGH_RATE_PROOF_OF_WORK_BITS,
        num_query_rounds: HIGH_RATE_QUERY_ROUNDS,
        ..standard
    }
}

/// Whatever the standard configuration, the high-rate one has rate bits 7,
/// 16 proof-of-work bits and 12 query rounds, and the standard cap height and
/// reduction strategy.
pub proof fn lemma_high_rate_parameters(standard: FriParams)
    ensures
        high_rate_of(standard).rate_bits == 7,
        high_rate_of(standard).proof_of_work_bits == 16,
        high_rate_of(standard).num_query_rounds == 12,
        high_rate_of(standard).cap_height == standard.cap_height,
        high_rate_of(standard).reduction_strategy == standard.reduction_strategy,
{
}

/// Deriving the high-rate configuration twice changes nothing more: it only
/// sets the three high-rate parameters and keeps everything else.
pub proof fn lemma_high_rate_idempotent(standard: FriParams)
    ensures
        high_rate_of(high_rate_of(standard)) == high_rate_of(standard),
        high_rate_of(standard).cap_height == standard.cap_height,
        high_rate_of(standard).reduction_strategy == standard.reduction_strategy,
{
}

} // verus!
