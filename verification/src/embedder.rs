//! The embedder: text to token ids to per-token table rows, ready for
//! pooling.
//!
//! Two interchangeable tokenizer strategies stand behind one contract: the
//! verified greedy longest-match tokenizer over a vocabulary, and the
//! pretrained subword tokenizer of the tokenizers library. Pooling the rows
//! into one vector is single-precision arithmetic and is the caller's step;
//! `finish_embedding` checks what comes back, so no non-finite value ever
//! leaves the pipeline as an embedding.

use vstd::prelude::*;
use crate::backend::library_tokenize;
use crate::errors::PipelineError;
use crate::numeric::{all_finite, check_all_finite};
use crate::table::{EmbeddingTable, gather_spec};
use crate::text::{instruct_seq, instruct_wrap};
use crate::tokenize::{greedy_tokens, lemma_greedy_ids};
use crate::vocab::Vocabulary;

verus! {

/// Whether a text is embedded as a stored document or as a search query.
/// The two differ only when query instruct-wrapping is configured.
#[derive(Clone, Copy, PartialEq, Eq, Structural, Debug)]
pub enum Role {
    Query,
    Document,
}

/// The tokenizer of one embedder, fixed at configuration time.
pub enum TokenizerStrategy {
    /// The verified greedy longest-match tokenizer over a vocabulary.
    Greedy(Vocabulary),
    /// The pretrained subword tokenizer of the tokenizers library.
    Library(tokenizers::Tokenizer),
}

/// Loaded model state and configuration: a tokenizer strategy, the
/// embedding table, and the explicit query-instruct policy.
pub struct Embedder {
    strategy: TokenizerStrategy,
    table: EmbeddingTable,
    instruct_queries: bool,
    instruct_task: String,
}

impl Embedder {
    /// Whether the greedy strategy is configured.
    pub closed spec fn uses_greedy(&self) -> bool {
        self.strategy is Greedy
    }

    /// The vocabulary of the greedy strategy.
    pub closed spec fn greedy_vocab(&self) -> Vocabulary
        recommends
            self.uses_greedy(),
    {
        self.strategy->Greedy_0
    }

    /// The embedding table.
    pub closed spec fn spec_table(&self) -> EmbeddingTable {
        self.table
    }

    /// Whether queries are instruct-wrapped before tokenization.
    pub closed spec fn spec_instruct_queries(&self) -> bool {
        self.instruct_queries
    }

    /// The task description used when queries are instruct-wrapped.
    pub closed spec fn spec_task(&self) -> Seq<char> {
        self.instruct_task@
    }

    /// The table is well-formed, and under the greedy strategy the id space
    /// matches it: every vocabulary id, and the unknown id, has a row.
    pub open spec fn wf(&self) -> bool {
        &&& self.spec_table().wf()
        &&& self.uses_greedy() ==> {
            &&& self.greedy_vocab().wf()
            &&& (self.greedy_vocab().unknown() as int) < self.spec_table().rows_view().len()
            &&& forall|i: int|
                0 <= i < self.greedy_vocab().entries_view().len() ==> ((
                #[trigger] self.greedy_vocab().entries_view()[i]).1 as int)
                    < self.spec_table().rows_view().len()
        }
    }

    /// Builds an embedder. Under the greedy strategy the vocabulary's id
    /// space must match the table's row count; a vocabulary id without a
    /// row is an absent artifact, reported as such.
    pub fn new(
        strategy: TokenizerStrategy,
        table: EmbeddingTable,
        instruct_queries: bool,
        instruct_task: String,
    ) -> (r: Result<Embedder, PipelineError>)
        requires
            table.wf(),
            strategy matches TokenizerStrategy::Greedy(v) ==> v.wf(),
        ensures
            r is Ok <==> (strategy matches TokenizerStrategy::Greedy(v) ==> ((v.unknown() as int)
                < table.rows_view().len() && forall|i: int|
                0 <= i < v.entries_view().len() ==> ((#[trigger] v.entries_view()[i]).1 as int)
                    < table.rows_view().len())),
            r matches Ok(e) ==> e.wf() && e.spec_table() == table && e.spec_instruct_queries()
                == instruct_queries && e.spec_task() == instruct_task@ && (e.uses_greedy()
                <==> strategy is Greedy) && (strategy matches TokenizerStrategy::Greedy(v)
                ==> e.greedy_vocab() == v),
            r matches Err(e) ==> e matches PipelineError::MissingArtifact { .. },
    {
        let ok = match &strategy {
            TokenizerStrategy::Greedy(v) => v.ids_below(table.num_rows()),
            TokenizerStrategy::Library(_) => true,
        };
        if !ok {
            return Err(
                PipelineError::MissingArtifact {
                    wanted: String::from_str("an embedding table row for every vocabulary id"),
                    available: Vec::new(),
                },
            );
        }
        Ok(Embedder { strategy, table, instruct_queries, instruct_task })
    }

    /// The embedding dimension D of the loaded table: the length of every
    /// vector this embedder's pipeline produces.
    pub fn embeddings_dim(&self) -> (d: usize)
        ensures
            d == self.spec_table().spec_dim(),
    {
        self.table.dim()
    }

    /// The text actually tokenized for a role: the raw text, or the
    /// instruct-wrapped text for queries when so configured.
    pub open spec fn prepared(&self, text: Seq<char>, role: Role) -> Seq<char> {
        if role is Query && self.spec_instruct_queries() {
            instruct_seq(self.spec_task(), text)
        } else {
            text
        }
    }

    /// Applies the configured query-instruct policy to one text.
    pub fn prepare_text(&self, text: &str, role: Role) -> (r: String)
        ensures
            r@ == self.prepared(text@, role),
    {
        let is_query = match role {
            Role::Query => true,
            Role::Document => false,
        };
        if is_query && self.instruct_queries {
            instruct_wrap(self.instruct_task.as_str(), text)
        } else {
            text.to_owned()
        }
    }

    /// Tokenizes one text for a role. Empty text is rejected; under the
    /// greedy strategy the result is exactly the greedy token sequence of
    /// the prepared text, every id has a table row, and no other failure
    /// exists; under the library strategy a backend failure carries its
    /// message, and a success always holds at least one id.
    pub fn token_ids(&self, text: &str, role: Role) -> (r: Result<Vec<u32>, PipelineError>)
        requires
            self.wf(),
        ensures
            text@.len() == 0 ==> (r matches Err(e) && e == PipelineError::EmptyInput),
            r matches Ok(ids) ==> ids@.len() >= 1,
            self.uses_greedy() ==> ((r is Err <==> text@.len() == 0) && (r matches Ok(ids)
                ==> ids@ == greedy_tokens(
                self.greedy_vocab().entries_view(),
                self.greedy_vocab().unknown(),
                self.prepared(text@, role),
            ) && forall|k: int|
                0 <= k < ids@.len() ==> ((#[trigger] ids@[k]) as int)
                    < self.spec_table().rows_view().len())),
            r matches Err(e) ==> e == PipelineError::EmptyInput || e matches PipelineError::Tokenization(
                _,
            ),
    {
        if text.unicode_len() == 0 {
            return Err(PipelineError::EmptyInput);
        }
        let prepared = self.prepare_text(text, role);
        match &self.strategy {
            TokenizerStrategy::Greedy(v) => {
                match v.tokenize(prepared.as_str()) {
                    Ok(ids) => {
                        proof {
                            let entries = v.entries_view();
                            let unk = v.unknown();
                            lemma_greedy_ids(entries, unk, prepared@);
                            assert forall|k: int| 0 <= k < ids@.len() implies ((#[trigger] ids@[k]) as int)
                                < self.spec_table().rows_view().len() by {
                                if ids@[k] != unk {
                                    let i = choose|i: int|
                                        0 <= i < entries.len() && (#[trigger] entries[i]).1
                                            == ids@[k];
                                }
                            }
                        }
                        Ok(ids)
                    },
                    Err(e) => {
                        proof {
                            assert(self.prepared(text@, role).len() >= 1);
                            assert(false);
                        }
                        Err(e)
                    },
                }
            },
            TokenizerStrategy::Library(tok) => library_tokenize(tok, prepared.as_str()),
        }
    }

    /// The per-token table rows of a text under the greedy strategy: one
    /// row per greedy token of the prepared text, in token order. Pooling
    /// these rows by arithmetic mean gives the embedding.
    pub open spec fn greedy_rows(&self, text: Seq<char>, role: Role) -> Seq<Seq<u32>>
        recommends
            self.uses_greedy(),
    {
        gather_spec(
            self.spec_table().rows_view(),
            greedy_tokens(
                self.greedy_vocab().entries_view(),
                self.greedy_vocab().unknown(),
                self.prepared(text, role),
            ),
        )
    }

    /// Tokenizes one text and looks every token's table row up. A success
    /// holds at least one row, each of dimension D; under the greedy
    /// strategy the rows are exactly `greedy_rows` and the only failure is
    /// empty input.
    pub fn token_rows(&self, text: &str, role: Role) -> (r: Result<Vec<Vec<u32>>, PipelineError>)
        requires
            self.wf(),
        ensures
            text@.len() == 0 ==> (r matches Err(e) && e == PipelineError::EmptyInput),
            r matches Ok(rows) ==> rows.deep_view().len() >= 1 && forall|i: int|
                0 <= i < rows.deep_view().len() ==> (#[trigger] rows.deep_view()[i]).len()
                    == self.spec_table().spec_dim(),
            self.uses_greedy() ==> ((r is Err <==> text@.len() == 0) && (r matches Ok(rows)
                ==> rows.deep_view() == self.greedy_rows(text@, role))),
            r matches Err(e) ==> e == PipelineError::EmptyInput || e matches PipelineError::Tokenization(
                _,
            ),
    {
        let ids = match self.token_ids(text, role) {
            Ok(ids) => ids,
            Err(e) => {
                return Err(e);
            },
        };
        match self.table.gather(&ids) {
            Ok(rows) => {
                proof {
                    assert forall|i: int| 0 <= i < rows.deep_view().len() implies (
                    #[trigger] rows.deep_view()[i]).len() == self.spec_table().spec_dim() by {
                        assert(rows.deep_view()[i] == self.spec_table().rows_view()[
                            ids@[i] as int]);
                    }
                }
                Ok(rows)
            },
            Err(e) => {
                proof {
                    if self.uses_greedy() {
                        assert(false);
                    }
                }
                Err(e)
            },
        }
    }

    /// Checks a pooled vector before it leaves the pipeline: exactly the
    /// vectors of dimension D whose components are all finite pass, and
    /// they pass unchanged; a wrong length is a dimension mismatch and a
    /// non-finite component is a numeric failure.
    pub fn finish_embedding(&self, pooled: Vec<u32>) -> (r: Result<Vec<u32>, PipelineError>)
        ensures
            r is Ok <==> (pooled@.len() == self.spec_table().spec_dim() && all_finite(pooled@)),
            r matches Ok(v) ==> v@ == pooled@,
            r == Err::<Vec<u32>, PipelineError>(PipelineError::DimensionMismatch) <==> pooled@.len()
                != self.spec_table().spec_dim(),
            r == Err::<Vec<u32>, PipelineError>(PipelineError::Numeric) <==> (pooled@.len()
                == self.spec_table().spec_dim() && !all_finite(pooled@)),
    {
        if pooled.len() != self.table.dim() {
            return Err(PipelineError::DimensionMismatch);
        }
        if !check_all_finite(&pooled) {
            return Err(PipelineError::Numeric);
        }
        Ok(pooled)
    }
}

/// Embedding is deterministic up to pooling: the rows handed to the pooling
/// step are a function of the loaded state, the text and the role alone, so
/// two calls on identical input see identical rows; the arithmetic mean of
/// identical rows is then the same vector.
pub proof fn lemma_embedding_deterministic(
    e: &Embedder,
    text: Seq<char>,
    role: Role,
    r1: Seq<Seq<u32>>,
    r2: Seq<Seq<u32>>,
)
    requires
        r1 == e.greedy_rows(text, role),
        r2 == e.greedy_rows(text, role),
    ensures
        r1 == r2,
{
}

} // verus!
