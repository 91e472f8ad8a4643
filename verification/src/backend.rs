//! The pretrained subword tokenizer backend, from the tokenizers library.
//!
//! The loaded `Tokenizer` value is opaque here: how it splits text is its
//! own affair, and nothing is assumed about the ids it returns. The
//! decisions around the call — rejecting empty text, surfacing a backend
//! failure with its message, and treating an empty id sequence as empty
//! input — are verified.

use vstd::prelude::*;
use crate::errors::PipelineError;

verus! {

#[verifier::external_type_specification]
#[verifier::external_body]
pub struct ExTokenizer(tokenizers::Tokenizer);

/// Relies on tokenizers' `Tokenizer::encode` to tokenize one text, and on
/// `Encoding::get_ids` to read the resulting ids; a backend failure comes
/// back as its message. Nothing is assumed about the ids.
#[verifier::external_body]
fn encode_ids(tok: &tokenizers::Tokenizer, text: &str) -> (r: Result<Vec<u32>, String>) {
    match tok.encode(text, false) {
        Ok(enc) => Ok(enc.get_ids().to_vec()),
        Err(e) => Err(format!("{e}")),
    }
}

/// Classifies whatever the backend returned, exactly: a failure message
/// becomes `Tokenization` carrying that message, an empty id sequence
/// counts as empty input, and a non-empty id sequence passes through
/// unchanged.
pub fn screen_backend(out: Result<Vec<u32>, String>) -> (r: Result<Vec<u32>, PipelineError>)
    ensures
        out matches Err(m) ==> r == Err::<Vec<u32>, PipelineError>(PipelineError::Tokenization(m)),
        out matches Ok(ids) ==> (ids@.len() == 0 ==> r == Err::<Vec<u32>, PipelineError>(
            PipelineError::EmptyInput,
        )) && (ids@.len() >= 1 ==> (r matches Ok(rids) && rids@ == ids@)),
{
    match out {
        Ok(ids) => {
            if ids.len() == 0 {
                Err(PipelineError::EmptyInput)
            } else {
                Ok(ids)
            }
        },
        Err(msg) => Err(PipelineError::Tokenization(msg)),
    }
}

/// Tokenizes with the library tokenizer: empty text is rejected before the
/// call, which is handed the text unchanged; `screen_backend` then fixes
/// what becomes of every possible backend outcome. Whatever the backend
/// returns, a success holds at least one id.
pub fn library_tokenize(tok: &tokenizers::Tokenizer, text: &str) -> (r: Result<
    Vec<u32>,
    PipelineError,
>)
    ensures
        text@.len() == 0 ==> r == Err::<Vec<u32>, PipelineError>(PipelineError::EmptyInput),
        r matches Ok(ids) ==> ids@.len() >= 1 && text@.len() >= 1,
        r matches Err(e) ==> e == PipelineError::EmptyInput || e matches PipelineError::Tokenization(
            _,
        ),
{
    if text.unicode_len() == 0 {
        return Err(PipelineError::EmptyInput);
    }
    screen_backend(encode_ids(tok, text))
}

} // verus!
