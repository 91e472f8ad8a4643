//! An embedding-and-retrieval pipeline over short text records.
//!
//! Raw text is tokenized deterministically, turned into a fixed-dimension
//! vector by embedding-table lookup and mean pooling, and stored in a vector
//! store that answers top-K nearest-neighbor queries. Vector components are
//! IEEE-754 single-precision values, carried everywhere in this crate as
//! their `u32` bit patterns; the floating-point arithmetic itself (pooling,
//! dot products) is left to callers, which hand results back for checking,
//! ranking and storage.

use vstd::prelude::*;

pub mod errors;
pub mod text;
pub mod vocab;
pub mod tokenize;
pub mod table;
pub mod scorer;
pub mod blob;
pub mod store;
pub mod backend;
pub mod embedder;
pub mod artifact;
pub mod pipeline;
pub mod numeric;

verus! {

/// The fixed number of results a similarity search returns by default.
pub const DEFAULT_TOP_K: usize = 5;

} // verus!
