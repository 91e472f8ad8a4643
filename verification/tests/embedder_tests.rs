//! The embedder: role preparation, token rows, pooling exactness for one
//! token, determinism, the output check, and the library tokenizer
//! strategy.

use text_embeddings_inference::backend::screen_backend;
use text_embeddings_inference::embedder::{Embedder, Role, TokenizerStrategy};
use text_embeddings_inference::errors::PipelineError;
use text_embeddings_inference::table::EmbeddingTable;
use text_embeddings_inference::vocab::Vocabulary;

fn bits(v: &[f32]) -> Vec<u32> {
    v.iter().map(|x| x.to_bits()).collect()
}

fn floats(v: &[u32]) -> Vec<f32> {
    v.iter().map(|b| f32::from_bits(*b)).collect()
}

/// Mean pooling over the token axis, with a double-precision accumulator,
/// as a caller computes it.
fn pool_mean(rows: &[Vec<u32>]) -> Vec<u32> {
    let dim = rows[0].len();
    let mut acc = vec![0.0f64; dim];
    for row in rows {
        for (a, b) in acc.iter_mut().zip(row.iter()) {
            *a += f32::from_bits(*b) as f64;
        }
    }
    acc.iter().map(|a| ((*a / rows.len() as f64) as f32).to_bits()).collect()
}

fn small_embedder(instruct_queries: bool) -> Embedder {
    let vocab = Vocabulary::new(
        vec![
            (String::from("ab"), 1),
            (String::from("a"), 2),
            (String::from("b"), 3),
        ],
        0,
    )
    .unwrap();
    let rows = vec![
        bits(&[0.0, 0.0, 1.0]),
        bits(&[1.0, 2.0, 3.0]),
        bits(&[-1.0, 0.5, 0.0]),
        bits(&[4.0, -4.0, 0.25]),
    ];
    let table = EmbeddingTable::new(rows, 3).unwrap();
    Embedder::new(
        TokenizerStrategy::Greedy(vocab),
        table,
        instruct_queries,
        String::from("retrieve the matching records"),
    )
    .unwrap()
}

#[test]
fn empty_text_is_rejected() {
    let e = small_embedder(false);
    assert!(matches!(
        e.token_rows("", Role::Document),
        Err(PipelineError::EmptyInput)
    ));
}

#[test]
fn token_rows_follow_the_greedy_tokens() {
    let e = small_embedder(false);
    let rows = e.token_rows("aab", Role::Document).unwrap();
    // "aab" tokenizes to [2, 1]; rows 2 and 1 of the table follow.
    assert_eq!(rows.len(), 2);
    assert_eq!(floats(&rows[0]), vec![-1.0, 0.5, 0.0]);
    assert_eq!(floats(&rows[1]), vec![1.0, 2.0, 3.0]);
}

#[test]
fn single_token_pooling_is_the_table_row_exactly() {
    let e = small_embedder(false);
    let rows = e.token_rows("ab", Role::Document).unwrap();
    assert_eq!(rows.len(), 1);
    let pooled = pool_mean(&rows);
    // Bit-identical to row 1 of the table: the mean of one row is that row.
    assert_eq!(pooled, bits(&[1.0, 2.0, 3.0]));
}

#[test]
fn embedding_is_deterministic() {
    let e = small_embedder(false);
    let first = pool_mean(&e.token_rows("abba", Role::Document).unwrap());
    let second = pool_mean(&e.token_rows("abba", Role::Document).unwrap());
    assert_eq!(first, second);
}

#[test]
fn instruct_wrapping_is_explicit_configuration() {
    let wrapped = small_embedder(true);
    let plain = small_embedder(false);
    assert_eq!(
        wrapped.prepare_text("q", Role::Query),
        "Instruct: retrieve the matching records\nQuery:q"
    );
    assert_eq!(wrapped.prepare_text("q", Role::Document), "q");
    assert_eq!(plain.prepare_text("q", Role::Query), "q");
    // The two policies tokenize queries differently, so they embed
    // differently.
    let w = wrapped.token_rows("ab", Role::Query).unwrap();
    let p = plain.token_rows("ab", Role::Query).unwrap();
    assert_ne!(w.len(), p.len());
}

#[test]
fn finish_embedding_checks_dimension_and_finiteness() {
    let e = small_embedder(false);
    assert!(matches!(
        e.finish_embedding(bits(&[1.0, 2.0])),
        Err(PipelineError::DimensionMismatch)
    ));
    assert!(matches!(
        e.finish_embedding(bits(&[1.0, f32::NAN, 2.0])),
        Err(PipelineError::Numeric)
    ));
    let ok = e.finish_embedding(bits(&[1.0, 2.0, 3.0])).unwrap();
    assert_eq!(floats(&ok), vec![1.0, 2.0, 3.0]);
}

#[test]
fn vocabulary_id_without_a_row_is_a_missing_artifact() {
    let vocab = Vocabulary::new(vec![(String::from("a"), 7)], 0).unwrap();
    let table = EmbeddingTable::new(vec![bits(&[1.0]), bits(&[2.0])], 1).unwrap();
    let r = Embedder::new(
        TokenizerStrategy::Greedy(vocab),
        table,
        false,
        String::new(),
    );
    assert!(matches!(r, Err(PipelineError::MissingArtifact { .. })));
}

#[test]
fn backend_outcomes_are_classified_exactly() {
    // A backend failure becomes Tokenization carrying the message.
    match screen_backend(Err(String::from("backend broke"))) {
        Err(PipelineError::Tokenization(m)) => assert_eq!(m, "backend broke"),
        other => panic!("expected the backend message, got {:?}", other),
    }
    // An empty id sequence counts as empty input.
    assert!(matches!(
        screen_backend(Ok(Vec::new())),
        Err(PipelineError::EmptyInput)
    ));
    // A non-empty id sequence passes through unchanged.
    assert_eq!(screen_backend(Ok(vec![5, 0, 7])).unwrap(), vec![5, 0, 7]);
}

#[test]
fn library_tokenizer_strategy_encodes_through_the_backend() {
    let json = r#"{
        "version": "1.0",
        "pre_tokenizer": { "type": "Whitespace" },
        "model": {
            "type": "WordLevel",
            "vocab": { "hello": 0, "world": 1, "<unk>": 2 },
            "unk_token": "<unk>"
        }
    }"#;
    let tok = tokenizers::Tokenizer::from_bytes(json.as_bytes()).unwrap();
    let rows = vec![bits(&[1.0, 0.0]), bits(&[0.0, 1.0]), bits(&[0.5, 0.5])];
    let table = EmbeddingTable::new(rows, 2).unwrap();
    let e = Embedder::new(
        TokenizerStrategy::Library(tok),
        table,
        false,
        String::new(),
    )
    .unwrap();
    let ids = e.token_ids("hello world mystery", Role::Document).unwrap();
    assert_eq!(ids, vec![0, 1, 2]);
    assert!(matches!(
        e.token_ids("", Role::Document),
        Err(PipelineError::EmptyInput)
    ));
    let rows = e.token_rows("world hello", Role::Document).unwrap();
    assert_eq!(floats(&rows[0]), vec![0.0, 1.0]);
    assert_eq!(floats(&rows[1]), vec![1.0, 0.0]);
}
