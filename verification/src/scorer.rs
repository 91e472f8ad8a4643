//! The decision half of similarity scoring.
//!
//! Cosine similarity itself is floating-point arithmetic and is computed by
//! the caller; this module decides, from the bit patterns alone, whether a
//! pair of vectors may be scored at all. The strict variant reports exactly
//! why not; the lenient variant's callers swallow the same conditions into a
//! `0.0` score, used for best-effort in-memory ranking only.

use vstd::prelude::*;
use crate::errors::PipelineError;
use crate::numeric::{all_finite, all_zero, check_all_finite, check_all_zero};

verus! {

/// A pair is scorable under the strict convention: equal dimension, every
/// component finite, and neither vector of norm zero. A finite vector has
/// norm zero exactly when all its components are signed zeroes.
pub open spec fn strict_scorable(v1: Seq<u32>, v2: Seq<u32>) -> bool {
    &&& v1.len() == v2.len()
    &&& all_finite(v1)
    &&& all_finite(v2)
    &&& !all_zero(v1)
    &&& !all_zero(v2)
}

/// Validates a pair for the strict scorer: `DimensionMismatch` exactly when
/// the lengths differ, otherwise `InvalidVector` exactly when a component is
/// non-finite or either norm is zero, otherwise `Ok`. The caller computes
/// the similarity (dot product over the product of norms) only on `Ok`.
pub fn validate_pair(v1: &Vec<u32>, v2: &Vec<u32>) -> (r: Result<(), PipelineError>)
    ensures
        r is Ok <==> strict_scorable(v1@, v2@),
        r == Err::<(), PipelineError>(PipelineError::DimensionMismatch) <==> v1@.len()
            != v2@.len(),
        r == Err::<(), PipelineError>(PipelineError::InvalidVector) <==> (v1@.len() == v2@.len()
            && !strict_scorable(v1@, v2@)),
{
    if v1.len() != v2.len() {
        return Err(PipelineError::DimensionMismatch);
    }
    if !check_all_finite(v1) || !check_all_finite(v2) {
        return Err(PipelineError::InvalidVector);
    }
    if check_all_zero(v1) || check_all_zero(v2) {
        return Err(PipelineError::InvalidVector);
    }
    Ok(())
}

/// The lenient scorer's gate: `true` exactly on the pairs for which the
/// lenient cosine similarity is `0.0` by decision (unequal lengths or a
/// zero-norm side) rather than by arithmetic.
pub fn lenient_zero_score(v1: &Vec<u32>, v2: &Vec<u32>) -> (r: bool)
    ensures
        r == (v1@.len() != v2@.len() || all_zero(v1@) || all_zero(v2@)),
{
    if v1.len() != v2.len() {
        return true;
    }
    check_all_zero(v1) || check_all_zero(v2)
}

} // verus!
