//! The vector store: insertion contract, blob serialization, and top-K
//! search ordering with stable ties.

use text_embeddings_inference::blob::{pack_embedding, unpack_embedding};
use text_embeddings_inference::errors::PipelineError;
use text_embeddings_inference::store::{top_k_indices, VectorStore};
use text_embeddings_inference::DEFAULT_TOP_K;

fn bits(v: &[f32]) -> Vec<u32> {
    v.iter().map(|x| x.to_bits()).collect()
}

fn store_with(dim: usize, records: &[(&str, Vec<f32>)]) -> VectorStore {
    let mut s = VectorStore::new(dim);
    for (d, e) in records {
        s.insert(String::from(*d), bits(e)).expect("insert should succeed");
    }
    s
}

#[test]
fn search_on_empty_store_is_empty() {
    let s = VectorStore::new(4);
    let scores: Vec<u32> = Vec::new();
    let hits = s.search(&scores, DEFAULT_TOP_K);
    assert!(hits.is_empty());
}

#[test]
fn reset_empties_the_store() {
    let mut s = store_with(2, &[("one", vec![1.0, 0.0]), ("two", vec![0.0, 1.0])]);
    assert_eq!(s.len(), 2);
    s.reset();
    assert_eq!(s.len(), 0);
    let scores: Vec<u32> = Vec::new();
    assert!(s.search(&scores, DEFAULT_TOP_K).is_empty());
}

#[test]
fn initialize_is_idempotent_and_keeps_records() {
    let mut s = store_with(2, &[("one", vec![1.0, 0.0])]);
    s.initialize();
    s.initialize();
    assert_eq!(s.len(), 1);
    assert_eq!(s.record_description(0), "one");
}

#[test]
fn insert_rejects_empty_description_and_wrong_dimension() {
    let mut s = VectorStore::new(2);
    assert!(matches!(
        s.insert(String::new(), bits(&[1.0, 2.0])),
        Err(PipelineError::EmptyInput)
    ));
    assert!(matches!(
        s.insert(String::from("x"), bits(&[1.0, 2.0, 3.0])),
        Err(PipelineError::DimensionMismatch)
    ));
    assert_eq!(s.len(), 0);
}

#[test]
fn search_orders_best_first_with_stable_ties() {
    let s = store_with(
        1,
        &[
            ("low", vec![1.0]),
            ("first-high", vec![1.0]),
            ("second-high", vec![1.0]),
            ("negative", vec![1.0]),
        ],
    );
    let scores = bits(&[0.5, 0.9, 0.9, -0.1]);
    let hits = s.search(&scores, 10);
    let names: Vec<&str> = hits.iter().map(|(d, _)| d.as_str()).collect();
    assert_eq!(names, vec!["first-high", "second-high", "low", "negative"]);
    assert_eq!(hits[0].1, 0.9f32.to_bits());
    assert_eq!(hits[3].1, (-0.1f32).to_bits());
}

#[test]
fn search_returns_at_most_k() {
    let s = store_with(
        1,
        &[("a", vec![1.0]), ("b", vec![1.0]), ("c", vec![1.0])],
    );
    let scores = bits(&[0.1, 0.3, 0.2]);
    let hits = s.search(&scores, 2);
    assert_eq!(hits.len(), 2);
    let names: Vec<&str> = hits.iter().map(|(d, _)| d.as_str()).collect();
    assert_eq!(names, vec!["b", "c"]);
}

#[test]
fn top_k_handles_negative_scores_and_zeroes() {
    // Descending numeric order: 2.5, 0.0, -0.0, -1.5 (the two zeroes tie
    // numerically; the key convention puts +0 before -0).
    let scores = bits(&[-1.5, 0.0, 2.5, -0.0]);
    let idx = top_k_indices(&scores, 4);
    assert_eq!(idx, vec![2, 1, 3, 0]);
}

#[test]
fn blob_round_trip_is_exact() {
    let v = bits(&[1.0, -2.5, 0.0, f32::MIN_POSITIVE, 12345.678]);
    let blob = pack_embedding(&v);
    assert_eq!(blob.len(), 4 * v.len());
    let back = unpack_embedding(&blob).expect("well-formed blob");
    assert_eq!(back, v);
}

#[test]
fn blob_layout_is_little_endian() {
    let blob = pack_embedding(&bits(&[1.0]));
    assert_eq!(blob, vec![0x00, 0x00, 0x80, 0x3f]);
}

#[test]
fn malformed_blob_is_rejected() {
    let blob = vec![0u8, 1, 2];
    assert!(matches!(
        unpack_embedding(&blob),
        Err(PipelineError::Storage(_))
    ));
}
