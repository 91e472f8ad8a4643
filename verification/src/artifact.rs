//! Artifact validation at load time.
//!
//! The loader hands the pipeline the tensor keys it found; the pipeline
//! fails fast, with the offending name and the available alternatives, when
//! the embedding weight tensor is absent.

use vstd::prelude::*;
use crate::errors::PipelineError;
use crate::text::str_eq;

verus! {

/// A copy of a list of key names.
fn copy_strings(keys: &Vec<String>) -> (out: Vec<String>)
    ensures
        out@ == keys@,
{
    let mut out: Vec<String> = Vec::new();
    let mut i: usize = 0;
    while i < keys.len()
        invariant
            0 <= i <= keys@.len(),
            out@ == keys@.take(i as int),
        decreases keys@.len() - i,
    {
        out.push(keys[i].clone());
        proof {
            assert(keys@.take(i as int).push(keys@[i as int]) =~= keys@.take(i + 1 as int));
        }
        i += 1;
    }
    proof {
        assert(keys@.take(keys@.len() as int) =~= keys@);
    }
    out
}

/// Finds the wanted tensor key among the available ones: the index of its
/// first occurrence, or `MissingArtifact` naming the wanted key and every
/// available alternative when no key matches.
pub fn find_weights_key(keys: &Vec<String>, wanted: &str) -> (r: Result<usize, PipelineError>)
    ensures
        r is Err <==> (forall|j: int| 0 <= j < keys@.len() ==> (#[trigger] keys@[j])@ != wanted@),
        r matches Ok(i) ==> (i as int) < keys@.len() && keys@[i as int]@ == wanted@ && (forall|
            j: int,
        |
            0 <= j < i ==> (#[trigger] keys@[j])@ != wanted@),
        r matches Err(e) ==> (e matches PipelineError::MissingArtifact { wanted: w, available: a }
            && w@ == wanted@ && a@ == keys@),
{
    let mut i: usize = 0;
    while i < keys.len()
        invariant
            0 <= i <= keys@.len(),
            forall|j: int| 0 <= j < i ==> (#[trigger] keys@[j])@ != wanted@,
        decreases keys@.len() - i,
    {
        if str_eq(keys[i].as_str(), wanted) {
            return Ok(i);
        }
        i += 1;
    }
    Err(
        PipelineError::MissingArtifact {
            wanted: wanted.to_owned(),
            available: copy_strings(keys),
        },
    )
}

} // verus!
