//! The error taxonomy of the pipeline.
//!
//! Every failure a caller can recover from is one of these variants, returned
//! synchronously at the point of failure; nothing in this crate retries or
//! panics.

use vstd::prelude::*;

verus! {

/// One error for the whole pipeline: tokenization, embedding, scoring and
/// the vector store all report through this type.
#[derive(Debug)]
pub enum PipelineError {
    /// The caller supplied empty text, or a token sequence came back empty.
    EmptyInput,
    /// The tokenizer backend failed, or produced a token id with no row in
    /// the embedding table; carries the underlying message.
    Tokenization(String),
    /// Two vectors of unequal length met under the strict scorer or the
    /// embedding-output check.
    DimensionMismatch,
    /// A non-finite component or a zero-norm vector reached the strict
    /// scorer.
    InvalidVector,
    /// An expected tensor was absent at load time; carries the wanted key
    /// and the keys that were available, for diagnosability.
    MissingArtifact { wanted: String, available: Vec<String> },
    /// A non-finite value reached an embedding output.
    Numeric,
    /// The backing store handed the pipeline a malformed row.
    Storage(String),
}

} // verus!
