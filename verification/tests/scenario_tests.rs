//! End-to-end scenarios: ingest a small catalog, embed a query, rank by
//! cosine similarity, and load-time artifact validation.

use text_embeddings_inference::artifact::find_weights_key;
use text_embeddings_inference::embedder::{Embedder, Role, TokenizerStrategy};
use text_embeddings_inference::errors::PipelineError;
use text_embeddings_inference::pipeline::ingest;
use text_embeddings_inference::scorer::validate_pair;
use text_embeddings_inference::store::VectorStore;
use text_embeddings_inference::table::EmbeddingTable;
use text_embeddings_inference::vocab::Vocabulary;
use text_embeddings_inference::DEFAULT_TOP_K;

fn bits(v: &[f32]) -> Vec<u32> {
    v.iter().map(|x| x.to_bits()).collect()
}

fn pool_mean(rows: &[Vec<u32>]) -> Vec<u32> {
    let dim = rows[0].len();
    let mut acc = vec![0.0f64; dim];
    for row in rows {
        for (a, b) in acc.iter_mut().zip(row.iter()) {
            *a += f32::from_bits(*b) as f64;
        }
    }
    acc.iter().map(|a| ((*a / rows.len() as f64) as f32).to_bits()).collect()
}

/// The strict similarity, as the store boundary computes it: the verified
/// validation first, then dot over the product of norms.
fn strict_similarity(a: &[u32], b: &[u32]) -> f32 {
    let va: Vec<u32> = a.to_vec();
    let vb: Vec<u32> = b.to_vec();
    validate_pair(&va, &vb).expect("vectors must be scorable");
    let fa: Vec<f64> = a.iter().map(|x| f32::from_bits(*x) as f64).collect();
    let fb: Vec<f64> = b.iter().map(|x| f32::from_bits(*x) as f64).collect();
    let dot: f64 = fa.iter().zip(fb.iter()).map(|(x, y)| x * y).sum();
    let na: f64 = fa.iter().map(|x| x * x).sum::<f64>();
    let nb: f64 = fb.iter().map(|x| x * x).sum::<f64>();
    (dot / (na * nb).sqrt()) as f32
}

/// A word-level catalog model: every token gets a one-hot row, except that
/// "software" shares the row of "Software", so the two spellings embed
/// alike.
fn catalog_embedder() -> Embedder {
    let words = [
        " ", "Software", "software", "Alice", "Bob", "Data", "Scientist", "Engineer", "Who",
        "codes", ".", "?", "is", "a",
    ];
    let dim = words.len() + 1;
    let pairs: Vec<(String, u32)> = words
        .iter()
        .enumerate()
        .map(|(i, w)| (String::from(*w), (i + 1) as u32))
        .collect();
    let vocab = Vocabulary::new(pairs, 0).unwrap();
    let mut rows: Vec<Vec<u32>> = Vec::new();
    for id in 0..dim {
        let hot = if id == 3 { 2 } else { id };
        let mut row = vec![0.0f32; dim];
        row[hot] = 1.0;
        rows.push(bits(&row));
    }
    let table = EmbeddingTable::new(rows, dim).unwrap();
    Embedder::new(TokenizerStrategy::Greedy(vocab), table, false, String::new()).unwrap()
}

fn embed(e: &Embedder, text: &str) -> Vec<u32> {
    let rows = e.token_rows(text, Role::Document).unwrap();
    e.finish_embedding(pool_mean(&rows)).unwrap()
}

fn search_with_query(store: &VectorStore, e: &Embedder, query: &str, k: usize) -> Vec<(String, u32)> {
    let qv = embed(e, query);
    let mut scores: Vec<u32> = Vec::new();
    for i in 0..store.len() {
        scores.push(strict_similarity(store.record_embedding(i), &qv).to_bits());
    }
    store.search(&scores, k)
}

#[test]
fn overlapping_record_ranks_first() {
    let e = catalog_embedder();
    let alice = "Alice is a Software Engineer.";
    let bob = "Bob is a Data Scientist.";
    let mut store = VectorStore::new(e.embeddings_dim());
    let items = vec![
        (String::from(alice), embed(&e, alice)),
        (String::from(bob), embed(&e, bob)),
    ];
    ingest(&mut store, &items).unwrap();
    let hits = search_with_query(&store, &e, "Who codes software?", DEFAULT_TOP_K);
    assert_eq!(hits.len(), 2);
    assert_eq!(hits[0].0, alice);
    assert_eq!(hits[1].0, bob);
    assert!(f32::from_bits(hits[0].1) > f32::from_bits(hits[1].1));
}

#[test]
fn own_embedding_is_the_top_hit_with_best_score() {
    let e = catalog_embedder();
    let alice = "Alice is a Software Engineer.";
    let bob = "Bob is a Data Scientist.";
    let mut store = VectorStore::new(e.embeddings_dim());
    ingest(
        &mut store,
        &vec![
            (String::from(bob), embed(&e, bob)),
            (String::from(alice), embed(&e, alice)),
        ],
    )
    .unwrap();
    let qv = embed(&e, alice);
    let mut scores: Vec<u32> = Vec::new();
    for i in 0..store.len() {
        scores.push(strict_similarity(store.record_embedding(i), &qv).to_bits());
    }
    let hits = store.search(&scores, DEFAULT_TOP_K);
    assert_eq!(hits[0].0, alice);
    let best = f32::from_bits(hits[0].1);
    assert!((best - 1.0).abs() < 1e-6);
}

#[test]
fn reset_then_search_is_empty() {
    let e = catalog_embedder();
    let alice = "Alice is a Software Engineer.";
    let mut store = VectorStore::new(e.embeddings_dim());
    ingest(&mut store, &vec![(String::from(alice), embed(&e, alice))]).unwrap();
    store.reset();
    let hits = search_with_query(&store, &e, "Who codes software?", DEFAULT_TOP_K);
    assert!(hits.is_empty());
}

#[test]
fn ingest_stops_at_the_first_invalid_item() {
    let e = catalog_embedder();
    let alice = "Alice is a Software Engineer.";
    let mut store = VectorStore::new(e.embeddings_dim());
    let items = vec![
        (String::from(alice), embed(&e, alice)),
        (String::new(), embed(&e, alice)),
        (String::from("never reached"), embed(&e, alice)),
    ];
    let r = ingest(&mut store, &items);
    assert!(matches!(r, Err(PipelineError::EmptyInput)));
    assert_eq!(store.len(), 1);
    // The record kept is the leading item itself.
    assert_eq!(store.record_description(0), alice);
    assert_eq!(store.record_embedding(0), &embed(&e, alice));
}

#[test]
fn missing_weight_tensor_reports_alternatives() {
    let keys = vec![
        String::from("lm_head.weight"),
        String::from("norm.weight"),
    ];
    match find_weights_key(&keys, "embed_tokens.weight") {
        Err(PipelineError::MissingArtifact { wanted, available }) => {
            assert_eq!(wanted, "embed_tokens.weight");
            assert_eq!(available, keys);
        },
        other => panic!("expected a missing artifact, got {:?}", other),
    }
    let keys2 = vec![String::from("a"), String::from("embed_tokens.weight")];
    assert_eq!(find_weights_key(&keys2, "embed_tokens.weight").unwrap(), 1);
}
