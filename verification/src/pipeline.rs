//! Bulk ingestion: embed-and-insert, one record after another.
//!
//! The caller embeds each description (tokenize, gather, pool, check) and
//! hands the finished (description, embedding) pairs in; ingestion appends
//! them to the store in order and stops at the first invalid item, leaving
//! the records before it inserted.

use vstd::prelude::*;
use crate::errors::PipelineError;
use crate::store::VectorStore;
use crate::table::copy_components;

verus! {

/// An item can be ingested: non-empty description, embedding of the
/// store's dimension.
pub open spec fn ingestible(item: (String, Vec<u32>), dim: nat) -> bool {
    item.0@.len() >= 1 && item.1@.len() == dim
}

/// Appends every item to the store, in order. Succeeds exactly when every
/// item is ingestible; stops at the first one that is not, with that item's
/// error, keeping everything inserted before it.
pub fn ingest(store: &mut VectorStore, items: &Vec<(String, Vec<u32>)>) -> (r: Result<
    (),
    PipelineError,
>)
    requires
        old(store).wf(),
    ensures
        final(store).wf(),
        final(store).spec_dim() == old(store).spec_dim(),
        r is Ok <==> (forall|i: int|
            0 <= i < items@.len() ==> ingestible(#[trigger] items@[i], old(store).spec_dim())),
        forall|i: int|
            0 <= i < old(store).recs().len() ==> (#[trigger] final(store).recs()[i]) == old(
                store,
            ).recs()[i],
        r is Ok ==> final(store).recs().len() == old(store).recs().len() + items@.len() && (forall|
            i: int,
        |
            0 <= i < items@.len() ==> (#[trigger] final(store).recs()[old(store).recs().len()
                + i]).description == items@[i].0 && final(store).recs()[old(store).recs().len()
                + i].embedding@ == items@[i].1@),
        r matches Err(e) ==> exists|t: int|
            {
                &&& 0 <= t < items@.len()
                &&& !ingestible(#[trigger] items@[t], old(store).spec_dim())
                &&& forall|s: int| 0 <= s < t ==> ingestible(#[trigger] items@[s], old(store).spec_dim())
                &&& final(store).recs().len() == old(store).recs().len() + t
                &&& forall|i: int|
                    0 <= i < t ==> (#[trigger] final(store).recs()[old(store).recs().len()
                        + i]).description == items@[i].0 && final(store).recs()[old(
                        store,
                    ).recs().len() + i].embedding@ == items@[i].1@
                &&& (e == PipelineError::EmptyInput <==> items@[t].0@.len() == 0)
                &&& (e == PipelineError::DimensionMismatch <==> (items@[t].0@.len() >= 1
                    && items@[t].1@.len() != old(store).spec_dim()))
            },
{
    let ghost base = old(store).recs();
    let ghost dim = old(store).spec_dim();
    let mut idx: usize = 0;
    while idx < items.len()
        invariant
            store.wf(),
            store.spec_dim() == dim,
            0 <= idx <= items@.len(),
            base == old(store).recs(),
            dim == old(store).spec_dim(),
            store.recs().len() == base.len() + idx,
            forall|i: int| 0 <= i < base.len() ==> (#[trigger] store.recs()[i]) == base[i],
            forall|i: int|
                0 <= i < idx ==> (#[trigger] store.recs()[base.len() + i]).description
                    == items@[i].0 && store.recs()[base.len() + i].embedding@ == items@[i].1@,
            forall|i: int| 0 <= i < idx ==> ingestible(#[trigger] items@[i], dim),
        decreases items@.len() - idx,
    {
        let description = items[idx].0.clone();
        let embedding = copy_components(&items[idx].1);
        let ghost before = store.recs();
        match store.insert(description, embedding) {
            Ok(()) => {},
            Err(e) => {
                proof {
                    let t = idx as int;
                    assert(!ingestible(items@[t], dim));
                }
                return Err(e);
            },
        }
        proof {
            assert forall|i: int| 0 <= i < base.len() implies (#[trigger] store.recs()[i])
                == base[i] by {
                assert(store.recs()[i] == before[i]);
            }
        }
        idx += 1;
    }
    Ok(())
}

} // verus!
