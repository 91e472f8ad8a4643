//! The vector store: persisted (description, embedding) records and exact
//! top-K retrieval.
//!
//! Records live in insertion order; a search ranks them by similarity score,
//! best first, ties broken by insertion order, and returns at most K hits.
//! Scores arrive as single-precision bit patterns, one per record, computed
//! by the caller under the similarity convention of the scorer module
//! (higher is better); ranking follows the `score_key` order of those
//! patterns exactly.

use vstd::prelude::*;
use vstd::seq_lib::*;
use vstd::set_lib::{set_int_range, lemma_int_range, lemma_len_subset};
use crate::errors::PipelineError;
use crate::numeric::{score_key, compute_score_key};
use crate::table::copy_components;

verus! {

/// One persisted catalog entry: a non-empty description and an embedding of
/// the store's fixed dimension.
pub struct StoredRecord {
    pub description: String,
    pub embedding: Vec<u32>,
}

/// Record (index) `a` ranks strictly before record `b` under `scores`:
/// a strictly greater score key, or an equal key and earlier insertion.
pub open spec fn rank_before(scores: Seq<u32>, a: int, b: int) -> bool {
    ||| score_key(scores[a]) > score_key(scores[b])
    ||| (score_key(scores[a]) == score_key(scores[b]) && a < b)
}

/// `idxs` is the top-k of `scores`: as many indices as fit under k, all in
/// range, strictly ordered by rank, and every index left out ranks after
/// every index listed.
pub open spec fn is_top_k(scores: Seq<u32>, k: int, idxs: Seq<usize>) -> bool {
    &&& idxs.len() == if k < scores.len() {
        k
    } else {
        scores.len() as int
    }
    &&& forall|p: int| 0 <= p < idxs.len() ==> (#[trigger] idxs[p]) < scores.len()
    &&& forall|p: int, q: int|
        0 <= p < q < idxs.len() ==> rank_before(scores, #[trigger] idxs[p] as int, #[trigger] idxs[q] as int)
    &&& forall|p: int, j: int|
        #![trigger idxs[p], scores[j]]
        0 <= p < idxs.len() && 0 <= j < scores.len() && !idxs.contains(j as usize) ==> rank_before(
            scores,
            idxs[p] as int,
            j,
        )
}

/// The best match is first: when one record ranks strictly before every
/// other record, any top-k result with k at least 1 puts that record at the
/// front. With the score of a vector against itself at its maximum, this is
/// why inserting a record and searching with its own embedding returns it
/// as the top hit.
pub proof fn lemma_best_match_first(scores: Seq<u32>, k: int, idxs: Seq<usize>, i: usize)
    requires
        is_top_k(scores, k, idxs),
        k >= 1,
        (i as int) < scores.len(),
        forall|j: int| 0 <= j < scores.len() && j != i as int ==> rank_before(scores, i as int, j),
    ensures
        idxs.len() >= 1,
        idxs[0] == i,
{
    if idxs[0] != i {
        assert(rank_before(scores, i as int, idxs[0] as int));
        if idxs.contains(i) {
            let p = choose|p: int| 0 <= p < idxs.len() && idxs[p] == i;
            assert(p >= 1);
            assert(rank_before(scores, idxs[0] as int, idxs[p] as int));
        } else {
            assert(scores[i as int] == scores[i as int]);
            assert(rank_before(scores, idxs[0] as int, i as int));
        }
        assert(false);
    }
}

/// Fewer distinct indices than positions leaves some position unused.
proof fn lemma_missing_index(idxs: Seq<usize>, n: int)
    requires
        0 <= idxs.len() < n,
        n <= usize::MAX as int + 1,
        forall|p: int| 0 <= p < idxs.len() ==> (#[trigger] idxs[p]) < n,
        idxs.no_duplicates(),
    ensures
        exists|j: usize| (j as int) < n && !idxs.contains(j),
{
    broadcast use seq_to_set_is_finite;

    if !(exists|j: usize| (j as int) < n && !idxs.contains(j)) {
        let si = idxs.map_values(|u: usize| u as int);
        assert(si.no_duplicates()) by {
            assert forall|i: int, j2: int| 0 <= i < j2 < si.len() implies si[i] != si[j2] by {
                assert(idxs[i] != idxs[j2]);
            }
        }
        si.unique_seq_to_set();
        lemma_int_range(0, n);
        assert forall|x: int| set_int_range(0, n).contains(x) implies si.to_set().contains(x) by {
            let u = x as usize;
            assert((u as int) == x);
            assert(idxs.contains(u));
            let p = choose|p: int| 0 <= p < idxs.len() && idxs[p] == u;
            assert(si[p] == x);
            assert(si.contains(x));
        }
        lemma_len_subset(set_int_range(0, n), si.to_set());
        assert(false);
    }
}

/// The best-ranked index not yet chosen, when one remains.
fn best_unchosen(scores: &Vec<u32>, chosen: &Vec<bool>) -> (r: Option<usize>)
    requires
        chosen@.len() == scores@.len(),
    ensures
        r is Some <==> exists|j: int| 0 <= j < scores@.len() && !chosen@[j],
        r matches Some(b) ==> (b as int) < scores@.len() && !chosen@[b as int] && forall|t: int|
            0 <= t < scores@.len() && !chosen@[t] ==> (b as int) == t || rank_before(
                scores@,
                b as int,
                t,
            ),
{
    let n: usize = scores.len();
    let mut best: Option<usize> = None;
    let mut j: usize = 0;
    while j < n
        invariant
            0 <= j <= n,
            n == scores@.len(),
            n == chosen@.len(),
            best is Some <==> exists|t: int| 0 <= t < j && !chosen@[t],
            best matches Some(b) ==> (b as int) < j && !chosen@[b as int] && forall|t: int|
                0 <= t < j && !chosen@[t] ==> (b as int) == t || rank_before(scores@, b as int, t),
        decreases n - j,
    {
        if !chosen[j] {
            match best {
                None => {
                    best = Some(j);
                },
                Some(b) => {
                    let kb = compute_score_key(scores[b]);
                    let kj = compute_score_key(scores[j]);
                    if kj > kb {
                        best = Some(j);
                    }
                },
            }
        }
        j += 1;
    }
    best
}

/// The indices of the top-k records under `scores`, best first, ties by
/// insertion order.
pub fn top_k_indices(scores: &Vec<u32>, k: usize) -> (idxs: Vec<usize>)
    ensures
        is_top_k(scores@, k as int, idxs@),
{
    let n: usize = scores.len();
    let m: usize = if k < n {
        k
    } else {
        n
    };
    let mut chosen: Vec<bool> = Vec::new();
    let mut t: usize = 0;
    while t < n
        invariant
            0 <= t <= n,
            chosen@.len() == t,
            forall|j: int| 0 <= j < t ==> !(#[trigger] chosen@[j]),
        decreases n - t,
    {
        chosen.push(false);
        t += 1;
    }
    let mut idxs: Vec<usize> = Vec::new();
    while idxs.len() < m
        invariant
            m <= n,
            n == scores@.len(),
            chosen@.len() == n,
            idxs@.len() <= m,
            idxs@.no_duplicates(),
            forall|p: int| 0 <= p < idxs@.len() ==> (#[trigger] idxs@[p]) < n,
            forall|j: int| 0 <= j < n ==> ((#[trigger] chosen@[j]) <==> idxs@.contains(j as usize)),
            forall|p: int, q: int|
                0 <= p < q < idxs@.len() ==> rank_before(
                    scores@,
                    #[trigger] idxs@[p] as int,
                    #[trigger] idxs@[q] as int,
                ),
            forall|p: int, j: int|
                #![trigger idxs@[p], chosen@[j]]
                0 <= p < idxs@.len() && 0 <= j < n && !chosen@[j] ==> rank_before(
                    scores@,
                    idxs@[p] as int,
                    j,
                ),
        decreases m - idxs@.len(),
    {
        let r = best_unchosen(scores, &chosen);
        match r {
            Some(bi) => {
                let ghost old_idxs = idxs@;
                let ghost old_chosen = chosen@;
                idxs.push(bi);
                chosen.set(bi, true);
                proof {
                    assert(!old_idxs.contains(bi));
                    assert forall|j: int|
                        0 <= j < n implies ((#[trigger] chosen@[j]) <==> idxs@.contains(
                        j as usize,
                    )) by {
                        if j == bi as int {
                            assert(idxs@[idxs@.len() - 1] == bi);
                            assert(idxs@.contains(bi));
                        } else {
                            assert(chosen@[j] == old_chosen[j]);
                            if idxs@.contains(j as usize) {
                                let p = choose|p: int|
                                    0 <= p < idxs@.len() && idxs@[p] == j as usize;
                                assert(p < old_idxs.len());
                                assert(old_idxs.contains(j as usize));
                            }
                            if old_idxs.contains(j as usize) {
                                let p = choose|p: int|
                                    0 <= p < old_idxs.len() && old_idxs[p] == j as usize;
                                assert(idxs@[p] == j as usize);
                            }
                        }
                    }
                    assert(idxs@.no_duplicates()) by {
                        assert forall|p: int, q: int|
                            0 <= p < idxs@.len() && 0 <= q < idxs@.len() && p != q implies idxs@[p]
                            != idxs@[q] by {
                            if q == idxs@.len() - 1 && p < q {
                                assert(old_idxs[p] == idxs@[p]);
                                assert(!old_idxs.contains(bi));
                            }
                            if p == idxs@.len() - 1 && q < p {
                                assert(old_idxs[q] == idxs@[q]);
                                assert(!old_idxs.contains(bi));
                            }
                        }
                    }
                }
            },
            None => {
                proof {
                    lemma_missing_index(idxs@, n as int);
                    let j = choose|j: usize| (j as int) < n && !idxs@.contains(j);
                    assert(!chosen@[j as int]);
                    assert(false);
                }
                return idxs;  // never reached
            },
        }
    }
    proof {
        assert forall|p: int, j: int|
            #![trigger idxs@[p], scores@[j]]
            0 <= p < idxs@.len() && 0 <= j < scores@.len() && !idxs@.contains(j as usize) implies rank_before(
            scores@,
            idxs@[p] as int,
            j,
        ) by {
            assert(!chosen@[j]);
        }
    }
    idxs
}

/// Durable storage of records with exact top-K retrieval by score.
pub struct VectorStore {
    dim: usize,
    records: Vec<StoredRecord>,
}

impl VectorStore {
    /// The fixed embedding dimension every record must match.
    pub closed spec fn spec_dim(&self) -> nat {
        self.dim as nat
    }

    /// The records, in insertion order.
    pub closed spec fn recs(&self) -> Seq<StoredRecord> {
        self.records@
    }

    /// Every record's description is non-empty and its embedding has the
    /// store's dimension.
    pub open spec fn wf(&self) -> bool {
        forall|i: int|
            0 <= i < self.recs().len() ==> (#[trigger] self.recs()[i]).description@.len() >= 1
                && self.recs()[i].embedding@.len() == self.spec_dim()
    }

    /// A store for embeddings of dimension `dim`, with its schema in place
    /// and no records.
    pub fn new(dim: usize) -> (s: VectorStore)
        ensures
            s.spec_dim() == dim,
            s.recs().len() == 0,
            s.wf(),
    {
        VectorStore { dim, records: Vec::new() }
    }

    /// Idempotently ensures the backing schema exists. The in-memory schema
    /// always exists, so the store is unchanged.
    pub fn initialize(&mut self)
        ensures
            *final(self) == *old(self),
    {
    }

    /// Drops and recreates the schema: all records are gone, the dimension
    /// is kept. Destructive, no undo.
    pub fn reset(&mut self)
        ensures
            final(self).spec_dim() == old(self).spec_dim(),
            final(self).recs().len() == 0,
            final(self).wf(),
    {
        self.records = Vec::new();
    }

    /// How many records the store holds.
    pub fn len(&self) -> (n: usize)
        ensures
            n == self.recs().len(),
    {
        self.records.len()
    }

    /// The embedding dimension, as an executable value.
    pub fn dim(&self) -> (d: usize)
        ensures
            d == self.spec_dim(),
    {
        self.dim
    }

    /// The description of record `i`.
    pub fn record_description(&self, i: usize) -> (d: &String)
        requires
            i < self.recs().len(),
        ensures
            d == self.recs()[i as int].description,
    {
        &self.records[i].description
    }

    /// The embedding of record `i`.
    pub fn record_embedding(&self, i: usize) -> (e: &Vec<u32>)
        requires
            i < self.recs().len(),
        ensures
            e == self.recs()[i as int].embedding,
    {
        &self.records[i].embedding
    }

    /// Appends one record. Rejects an empty description (`EmptyInput`) and
    /// an embedding of the wrong dimension (`DimensionMismatch`); otherwise
    /// the record is appended after all existing ones, which are unchanged.
    pub fn insert(&mut self, description: String, embedding: Vec<u32>) -> (r: Result<
        (),
        PipelineError,
    >)
        requires
            old(self).wf(),
        ensures
            final(self).wf(),
            final(self).spec_dim() == old(self).spec_dim(),
            r is Ok <==> (description@.len() >= 1 && embedding@.len() == old(self).spec_dim()),
            r is Ok ==> final(self).recs() == old(self).recs().push(
                StoredRecord { description, embedding },
            ),
            r == Err::<(), PipelineError>(PipelineError::EmptyInput) <==> description@.len() == 0,
            r == Err::<(), PipelineError>(PipelineError::DimensionMismatch) <==> (description@.len()
                >= 1 && embedding@.len() != old(self).spec_dim()),
            r is Err ==> *final(self) == *old(self),
    {
        if description.as_str().unicode_len() == 0 {
            return Err(PipelineError::EmptyInput);
        }
        if embedding.len() != self.dim {
            return Err(PipelineError::DimensionMismatch);
        }
        let ghost prev = self.records@;
        self.records.push(StoredRecord { description, embedding });
        proof {
            assert(self.records@ == prev.push(StoredRecord { description, embedding }));
            assert(description@.len() >= 1);
            assert(embedding@.len() == old(self).spec_dim());
            assert(prev == old(self).recs());
            assert forall|i: int| 0 <= i < self.recs().len() implies (#[trigger] self.recs()[i]).description@.len()
                >= 1 && self.recs()[i].embedding@.len() == self.spec_dim() by {
                if i < prev.len() {
                    assert(self.recs()[i] == prev[i]);
                } else {
                    assert(self.recs()[i] == (StoredRecord { description, embedding }));
                }
            }
        }
        Ok(())
    }

    /// Top-k search given one score per record: the hits as (description,
    /// score) pairs, best first, ties by insertion order; at most k hits,
    /// and none from an empty store.
    pub fn search(&self, scores: &Vec<u32>, k: usize) -> (results: Vec<(String, u32)>)
        requires
            scores@.len() == self.recs().len(),
        ensures
            results@.len() == (if (k as int) < self.recs().len() {
                k as int
            } else {
                self.recs().len() as int
            }),
            self.recs().len() == 0 ==> results@.len() == 0,
            forall|p: int, q: int|
                0 <= p < q < results@.len() ==> score_key((#[trigger] results@[p]).1) >= score_key(
                    (#[trigger] results@[q]).1,
                ),
            exists|idxs: Seq<usize>|
                is_top_k(scores@, k as int, idxs) && #[trigger] idxs.len() == results@.len()
                    && forall|p: int|
                    0 <= p < results@.len() ==> (#[trigger] results@[p]).0 == self.recs()[idxs[p] as int].description
                        && results@[p].1 == scores@[idxs[p] as int],
    {
        let idxs = top_k_indices(scores, k);
        let mut results: Vec<(String, u32)> = Vec::new();
        let mut p: usize = 0;
        while p < idxs.len()
            invariant
                0 <= p <= idxs@.len(),
                scores@.len() == self.recs().len(),
                is_top_k(scores@, k as int, idxs@),
                results@.len() == p,
                forall|q: int|
                    0 <= q < p ==> (#[trigger] results@[q]).0 == self.recs()[idxs@[q] as int].description
                        && results@[q].1 == scores@[idxs@[q] as int],
            decreases idxs@.len() - p,
        {
            let i = idxs[p];
            let description = self.records[i].description.clone();
            results.push((description, scores[i]));
            p += 1;
        }
        proof {
            assert(is_top_k(scores@, k as int, idxs@) && idxs@.len() == results@.len() && forall|
                p: int,
            |
                0 <= p < results@.len() ==> (#[trigger] results@[p]).0 == self.recs()[idxs@[p] as int].description
                    && results@[p].1 == scores@[idxs@[p] as int]);
        }
        results
    }

}

} // verus!
