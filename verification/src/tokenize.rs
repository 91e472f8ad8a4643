//! The greedy longest-match tokenizer.
//!
//! At each position the longest prefix of the remaining text that is a
//! vocabulary key is consumed and its id emitted; when no prefix of any
//! length matches, the reserved unknown id is emitted and one character is
//! consumed. Every step consumes at least one character, so tokenization
//! terminates, emits at least one id for non-empty input, and never silently
//! drops input.

use vstd::prelude::*;
use crate::errors::PipelineError;
use crate::text::chars_of;
use crate::vocab::{VocabView, Vocabulary, contains_key, spec_lookup, lemma_lookup_in_entries};

verus! {

/// Whether the prefix of `text` of length `l` is a vocabulary key.
pub open spec fn match_at(entries: VocabView, text: Seq<char>, l: int) -> bool {
    1 <= l <= text.len() && contains_key(entries, text.take(l))
}

/// The greatest `l` in `[1, hi]` with a matching prefix; 0 when none
/// matches.
pub open spec fn longest_from(entries: VocabView, text: Seq<char>, hi: int) -> int
    decreases hi,
{
    if hi <= 0 {
        0
    } else if match_at(entries, text, hi) {
        hi
    } else {
        longest_from(entries, text, hi - 1)
    }
}

/// The greatest matching prefix length of `text`; 0 when none matches.
pub open spec fn longest_match(entries: VocabView, text: Seq<char>) -> int {
    longest_from(entries, text, text.len() as int)
}

/// How many characters one greedy step on `text` consumes: the longest
/// match, or a single character when nothing matches.
pub open spec fn step_len(entries: VocabView, text: Seq<char>) -> int {
    let l = longest_match(entries, text);
    if 1 <= l && l <= text.len() {
        l
    } else {
        1
    }
}

/// The id one greedy step on `text` emits: the longest match's id, or the
/// unknown id when nothing matches.
pub open spec fn step_id(entries: VocabView, unk: u32, text: Seq<char>) -> u32 {
    let l = longest_match(entries, text);
    if 1 <= l && l <= text.len() {
        spec_lookup(entries, text.take(l)).unwrap()
    } else {
        unk
    }
}

/// The token ids the greedy tokenizer produces for `text`.
pub open spec fn greedy_tokens(entries: VocabView, unk: u32, text: Seq<char>) -> Seq<u32>
    decreases text.len(),
{
    if text.len() == 0 {
        Seq::empty()
    } else {
        seq![step_id(entries, unk, text)] + greedy_tokens(
            entries,
            unk,
            text.skip(step_len(entries, text)),
        )
    }
}

/// What `longest_from` returns: either 0 with no match anywhere in
/// `[1, hi]`, or the greatest matching length in that range.
proof fn lemma_longest_from(entries: VocabView, text: Seq<char>, hi: int)
    ensures
        ({
            let r = longest_from(entries, text, hi);
            &&& r <= hi || r == 0
            &&& r >= 0
            &&& r >= 1 ==> match_at(entries, text, r)
            &&& forall|l: int| r < l <= hi ==> !match_at(entries, text, l)
        }),
    decreases hi,
{
    if hi > 0 && !match_at(entries, text, hi) {
        lemma_longest_from(entries, text, hi - 1);
    }
}

/// Non-empty text tokenizes to at least one id.
proof fn lemma_greedy_nonempty(entries: VocabView, unk: u32, text: Seq<char>)
    requires
        text.len() >= 1,
    ensures
        greedy_tokens(entries, unk, text).len() >= 1,
{
    assert(greedy_tokens(entries, unk, text) == seq![step_id(entries, unk, text)]
        + greedy_tokens(entries, unk, text.skip(step_len(entries, text))));
}

/// Every id the greedy tokenizer emits is the unknown id or the id of some
/// vocabulary entry.
pub proof fn lemma_greedy_ids(entries: VocabView, unk: u32, text: Seq<char>)
    ensures
        forall|k: int|
            0 <= k < greedy_tokens(entries, unk, text).len() ==> (#[trigger] greedy_tokens(
                entries,
                unk,
                text,
            )[k]) == unk || exists|i: int|
                0 <= i < entries.len() && (#[trigger] entries[i]).1 == greedy_tokens(
                    entries,
                    unk,
                    text,
                )[k],
    decreases text.len(),
{
    if text.len() > 0 {
        let toks = greedy_tokens(entries, unk, text);
        let rest = greedy_tokens(entries, unk, text.skip(step_len(entries, text)));
        assert(toks == seq![step_id(entries, unk, text)] + rest);
        let l = longest_match(entries, text);
        if 1 <= l && l <= text.len() {
            lemma_longest_from(entries, text, text.len() as int);
            lemma_lookup_in_entries(entries, text.take(l));
        }
        lemma_greedy_ids(entries, unk, text.skip(step_len(entries, text)));
        assert forall|k: int| 0 <= k < toks.len() implies (#[trigger] toks[k]) == unk || exists|i: int|
            0 <= i < entries.len() && (#[trigger] entries[i]).1 == toks[k] by {
            if k >= 1 {
                assert(toks[k] == rest[k - 1]);
            }
        }
    }
}

impl Vocabulary {
    /// One greedy step at position `pos`: the id to emit and how many
    /// characters it consumes.
    fn greedy_step(&self, text: &Vec<char>, pos: usize) -> (r: (u32, usize))
        requires
            pos < text@.len(),
        ensures
            r.1 == step_len(self.entries_view(), text@.skip(pos as int)),
            r.0 == step_id(self.entries_view(), self.unknown(), text@.skip(pos as int)),
            1 <= r.1 <= text@.len() - pos,
    {
        let ghost entries = self.entries_view();
        let ghost suffix = text@.skip(pos as int);
        let n: usize = text.len();
        let mut l: usize = n - pos;
        while l >= 1
            invariant
                0 <= l <= n - pos,
                pos < n,
                n == text@.len(),
                suffix == text@.skip(pos as int),
                entries == self.entries_view(),
                forall|t: int| l < t <= n - pos ==> !match_at(entries, suffix, t),
            decreases l,
        {
            let found = self.lookup_chunk(text, pos, l);
            proof {
                assert(suffix.take(l as int) =~= text@.subrange(pos as int, pos as int + l as int));
            }
            match found {
                Some(id) => {
                    proof {
                        lemma_longest_from(entries, suffix, suffix.len() as int);
                        assert(match_at(entries, suffix, l as int));
                        assert(longest_match(entries, suffix) == l as int);
                    }
                    return (id, l);
                },
                None => {
                    l = l - 1;
                },
            }
        }
        proof {
            lemma_longest_from(entries, suffix, suffix.len() as int);
            assert(longest_match(entries, suffix) == 0);
        }
        (self.unknown_id(), 1)
    }

    /// Greedy-tokenizes a character vector. Total: every input, including
    /// the empty one, has a well-defined (possibly empty) token sequence.
    pub fn tokenize_chars(&self, text: &Vec<char>) -> (ids: Vec<u32>)
        ensures
            ids@ == greedy_tokens(self.entries_view(), self.unknown(), text@),
    {
        let ghost entries = self.entries_view();
        let ghost unk = self.unknown();
        let n: usize = text.len();
        let mut ids: Vec<u32> = Vec::new();
        let mut pos: usize = 0;
        proof {
            assert(text@.skip(0) =~= text@);
            assert(Seq::<u32>::empty() + greedy_tokens(entries, unk, text@) =~= greedy_tokens(
                entries,
                unk,
                text@,
            ));
        }
        while pos < n
            invariant
                0 <= pos <= n,
                n == text@.len(),
                entries == self.entries_view(),
                unk == self.unknown(),
                greedy_tokens(entries, unk, text@) == ids@ + greedy_tokens(
                    entries,
                    unk,
                    text@.skip(pos as int),
                ),
            decreases n - pos,
        {
            let ghost suffix = text@.skip(pos as int);
            let (id, consumed) = self.greedy_step(text, pos);
            proof {
                assert(greedy_tokens(entries, unk, suffix) == seq![step_id(entries, unk, suffix)]
                    + greedy_tokens(entries, unk, suffix.skip(step_len(entries, suffix))));
                assert(suffix.skip(consumed as int) =~= text@.skip(pos + consumed as int));
                assert((ids@ + seq![id]) + greedy_tokens(
                    entries,
                    unk,
                    text@.skip(pos + consumed as int),
                ) =~= ids@ + (seq![id] + greedy_tokens(
                    entries,
                    unk,
                    text@.skip(pos + consumed as int),
                )));
            }
            ids.push(id);
            pos = pos + consumed;
        }
        proof {
            assert(text@.skip(n as int) =~= Seq::<char>::empty());
            assert(ids@ + greedy_tokens(entries, unk, text@.skip(n as int)) =~= ids@);
        }
        ids
    }

    /// Tokenizes raw text: rejects empty input with `EmptyInput`, and
    /// otherwise returns the greedy token sequence, which is never empty.
    pub fn tokenize(&self, text: &str) -> (r: Result<Vec<u32>, PipelineError>)
        ensures
            r is Err <==> text@.len() == 0,
            r matches Err(e) ==> e == PipelineError::EmptyInput,
            r matches Ok(ids) ==> ids@ == greedy_tokens(self.entries_view(), self.unknown(), text@)
                && ids@.len() >= 1,
    {
        let cs = chars_of(text);
        if cs.len() == 0 {
            return Err(PipelineError::EmptyInput);
        }
        let ids = self.tokenize_chars(&cs);
        proof {
            lemma_greedy_nonempty(self.entries_view(), self.unknown(), text@);
        }
        Ok(ids)
    }
}

} // verus!
