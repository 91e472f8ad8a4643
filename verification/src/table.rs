//! The embedding table: an immutable matrix with one row per vocabulary id,
//! loaded once and shared read-only.
//!
//! Rows hold the bit patterns of single-precision components; the row count
//! is the id space and the column count is the fixed embedding dimension D.

use vstd::prelude::*;
use crate::errors::PipelineError;

verus! {

/// The rows a list of token ids selects from a table, in token order.
pub open spec fn gather_spec(rows: Seq<Seq<u32>>, ids: Seq<u32>) -> Seq<Seq<u32>> {
    ids.map(|k: int, id: u32| rows[id as int])
}

/// A copy of one row of component bit patterns.
pub fn copy_components(v: &Vec<u32>) -> (r: Vec<u32>)
    ensures
        r@ == v@,
{
    let mut r: Vec<u32> = Vec::new();
    let mut i: usize = 0;
    while i < v.len()
        invariant
            0 <= i <= v@.len(),
            r@ == v@.take(i as int),
        decreases v@.len() - i,
    {
        r.push(v[i]);
        proof {
            assert(v@.take(i as int).push(v@[i as int]) =~= v@.take(i + 1 as int));
        }
        i += 1;
    }
    proof {
        assert(v@.take(v@.len() as int) =~= v@);
    }
    r
}

/// The pretrained lookup matrix: row i is the embedding of token id i, every
/// row of the one fixed dimension.
pub struct EmbeddingTable {
    dim: usize,
    rows: Vec<Vec<u32>>,
}

impl EmbeddingTable {
    /// The fixed embedding dimension D.
    pub closed spec fn spec_dim(&self) -> nat {
        self.dim as nat
    }

    /// The rows, each a sequence of component bit patterns.
    pub closed spec fn rows_view(&self) -> Seq<Seq<u32>> {
        self.rows.deep_view()
    }

    /// Every row has exactly dimension D.
    pub open spec fn wf(&self) -> bool {
        forall|i: int|
            0 <= i < self.rows_view().len() ==> (#[trigger] self.rows_view()[i]).len()
                == self.spec_dim()
    }

    /// Builds a table from rows that must all share the dimension `dim`;
    /// a row of any other length is rejected as a dimension mismatch.
    pub fn new(rows: Vec<Vec<u32>>, dim: usize) -> (r: Result<EmbeddingTable, PipelineError>)
        ensures
            r is Ok <==> (forall|i: int|
                0 <= i < rows.deep_view().len() ==> (#[trigger] rows.deep_view()[i]).len() == dim),
            r matches Ok(t) ==> t.rows_view() == rows.deep_view() && t.spec_dim() == dim && t.wf(),
            r matches Err(e) ==> e == PipelineError::DimensionMismatch,
    {
        let mut i: usize = 0;
        while i < rows.len()
            invariant
                0 <= i <= rows@.len(),
                forall|j: int|
                    0 <= j < i ==> (#[trigger] rows.deep_view()[j]).len() == dim,
            decreases rows@.len() - i,
        {
            if rows[i].len() != dim {
                proof {
                    assert(rows.deep_view()[i as int].len() != dim);
                }
                return Err(PipelineError::DimensionMismatch);
            }
            proof {
                assert(rows.deep_view()[i as int].len() == dim);
            }
            i += 1;
        }
        Ok(EmbeddingTable { dim, rows })
    }

    /// The embedding dimension, as an executable value.
    pub fn dim(&self) -> (d: usize)
        ensures
            d == self.spec_dim(),
    {
        self.dim
    }

    /// How many rows (token ids) the table holds.
    pub fn num_rows(&self) -> (n: usize)
        ensures
            n == self.rows_view().len(),
    {
        self.rows.len()
    }

    /// The row of one token id.
    pub fn row(&self, id: usize) -> (r: &Vec<u32>)
        requires
            id < self.rows_view().len(),
        ensures
            r@ == self.rows_view()[id as int],
    {
        &self.rows[id]
    }

    /// Looks every id's row up, in token order. Fails exactly when some id
    /// has no row in the table, naming the failure after the tokenizer that
    /// produced the id.
    pub fn gather(&self, ids: &Vec<u32>) -> (r: Result<Vec<Vec<u32>>, PipelineError>)
        ensures
            r is Ok <==> (forall|k: int|
                0 <= k < ids@.len() ==> (#[trigger] ids@[k]) < self.rows_view().len()),
            r matches Ok(out) ==> out.deep_view() == gather_spec(self.rows_view(), ids@),
            r matches Err(e) ==> e matches PipelineError::Tokenization(_),
    {
        let n_rows: usize = self.rows.len();
        let mut out: Vec<Vec<u32>> = Vec::new();
        let mut k: usize = 0;
        while k < ids.len()
            invariant
                0 <= k <= ids@.len(),
                n_rows == self.rows_view().len(),
                out.deep_view().len() == k,
                forall|j: int| 0 <= j < k ==> (#[trigger] ids@[j]) < self.rows_view().len(),
                forall|j: int|
                    0 <= j < k ==> (#[trigger] out.deep_view()[j]) == self.rows_view()[ids@[j] as int],
            decreases ids@.len() - k,
        {
            let id = ids[k];
            if !((id as usize) < n_rows) {
                return Err(
                    PipelineError::Tokenization(
                        String::from_str("token id has no row in the embedding table"),
                    ),
                );
            }
            let row = copy_components(&self.rows[id as usize]);
            proof {
                assert(self.rows@[id as int].deep_view() =~= self.rows@[id as int]@);
                assert(row@ == self.rows_view()[id as int]);
            }
            let ghost prev = out.deep_view();
            out.push(row);
            proof {
                assert(out.deep_view() =~= prev.push(self.rows_view()[id as int]));
            }
            k += 1;
        }
        proof {
            assert(out.deep_view() =~= gather_spec(self.rows_view(), ids@));
        }
        Ok(out)
    }
}

} // verus!
