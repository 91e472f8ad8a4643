//! The vocabulary: a mapping from token strings to integer token ids, with a
//! reserved id for unknown input.
//!
//! Entries are held as character vectors so that the greedy tokenizer can
//! match chunks of text against keys without any allocation. The mapping is
//! first-match over the entry list; construction rejects duplicate keys and
//! duplicate ids, so the list is a map and first-match is the only match.

use vstd::prelude::*;
use crate::errors::PipelineError;
use crate::text::chars_of;

verus! {

/// The mathematical content of a vocabulary entry list: each key as a
/// character sequence, with its id.
pub type VocabView = Seq<(Seq<char>, u32)>;

/// First-match lookup of `key` among the entries.
pub open spec fn spec_lookup(entries: VocabView, key: Seq<char>) -> Option<u32>
    decreases entries.len(),
{
    if entries.len() == 0 {
        None
    } else if entries[0].0 == key {
        Some(entries[0].1)
    } else {
        spec_lookup(entries.drop_first(), key)
    }
}

/// Whether some entry has this key.
pub open spec fn contains_key(entries: VocabView, key: Seq<char>) -> bool {
    spec_lookup(entries, key) is Some
}

/// Keys are pairwise distinct and ids are pairwise distinct.
pub open spec fn distinct_entries(entries: VocabView) -> bool {
    forall|i: int, j: int|
        0 <= i < j < entries.len() ==> (#[trigger] entries[i]).0 != (#[trigger] entries[j]).0
            && entries[i].1 != entries[j].1
}

/// The view of a list of (token string, id) pairs.
pub open spec fn pairs_view(pairs: Seq<(String, u32)>) -> VocabView {
    pairs.map(|i: int, e: (String, u32)| (e.0@, e.1))
}

/// A looked-up id is the id of some entry.
pub proof fn lemma_lookup_in_entries(entries: VocabView, key: Seq<char>)
    requires
        spec_lookup(entries, key) is Some,
    ensures
        exists|i: int|
            0 <= i < entries.len() && (#[trigger] entries[i]).1 == spec_lookup(
                entries,
                key,
            ).unwrap(),
    decreases entries.len(),
{
    if entries[0].0 == key {
        assert(entries[0].1 == spec_lookup(entries, key).unwrap());
    } else {
        lemma_lookup_in_entries(entries.drop_first(), key);
        let i = choose|i: int|
            0 <= i < entries.drop_first().len() && (#[trigger] entries.drop_first()[i]).1
                == spec_lookup(entries.drop_first(), key).unwrap();
        assert(entries[i + 1].1 == spec_lookup(entries, key).unwrap());
    }
}

/// Skipping entries whose keys differ from `key` does not change the lookup.
proof fn lemma_lookup_skip(entries: VocabView, key: Seq<char>, i: int)
    requires
        0 <= i <= entries.len(),
        forall|j: int| 0 <= j < i ==> (#[trigger] entries[j]).0 != key,
    ensures
        spec_lookup(entries, key) == spec_lookup(entries.skip(i), key),
    decreases i,
{
    if i > 0 {
        assert(entries.drop_first() =~= entries.skip(1));
        lemma_lookup_skip(entries.skip(1), key, i - 1);
        assert(entries.skip(1).skip(i - 1) =~= entries.skip(i));
    } else {
        assert(entries.skip(0) =~= entries);
    }
}

/// Whether two character vectors hold the same characters.
fn char_vecs_equal(a: &Vec<char>, b: &Vec<char>) -> (r: bool)
    ensures
        r == (a@ == b@),
{
    if a.len() != b.len() {
        return false;
    }
    let mut i: usize = 0;
    while i < a.len()
        invariant
            0 <= i <= a@.len(),
            a@.len() == b@.len(),
            forall|j: int| 0 <= j < i ==> a@[j] == b@[j],
        decreases a@.len() - i,
    {
        if a[i] != b[i] {
            return false;
        }
        i += 1;
    }
    proof {
        assert(a@ =~= b@);
    }
    true
}

/// The token string to id mapping of one loaded model, with the reserved
/// unknown-token id. Immutable once built.
pub struct Vocabulary {
    entries: Vec<(Vec<char>, u32)>,
    unknown_id: u32,
}

impl Vocabulary {
    /// The entries as key sequences with ids, in construction order.
    pub closed spec fn entries_view(&self) -> VocabView {
        self.entries@.map(|i: int, e: (Vec<char>, u32)| (e.0@, e.1))
    }

    /// The reserved unknown-token id.
    pub closed spec fn unknown(&self) -> u32 {
        self.unknown_id
    }

    /// Keys unique and ids unique: established at construction, kept for the
    /// lifetime of the vocabulary.
    pub open spec fn wf(&self) -> bool {
        distinct_entries(self.entries_view())
    }

    /// How many entries the vocabulary holds.
    pub fn len(&self) -> (n: usize)
        ensures
            n == self.entries_view().len(),
    {
        self.entries.len()
    }

    /// The reserved unknown-token id, as an executable value.
    pub fn unknown_id(&self) -> (u: u32)
        ensures
            u == self.unknown(),
    {
        self.unknown_id
    }

    /// Builds a vocabulary from (token string, id) pairs and the reserved
    /// unknown id. Rejects a duplicate key or a duplicate id: the mapping
    /// must be a map with unique ids.
    pub fn new(pairs: Vec<(String, u32)>, unknown_id: u32) -> (r: Result<
        Vocabulary,
        PipelineError,
    >)
        ensures
            r is Ok <==> distinct_entries(pairs_view(pairs@)),
            r matches Ok(v) ==> v.entries_view() == pairs_view(pairs@) && v.unknown()
                == unknown_id && v.wf(),
            r matches Err(e) ==> e matches PipelineError::Tokenization(_),
    {
        let ghost target = pairs_view(pairs@);
        let mut built: Vec<(Vec<char>, u32)> = Vec::new();
        let mut k: usize = 0;
        while k < pairs.len()
            invariant
                0 <= k <= pairs@.len(),
                target == pairs_view(pairs@),
                built@.len() == k,
                forall|j: int|
                    0 <= j < k ==> (#[trigger] built@[j]).0@ == target[j].0 && built@[j].1
                        == target[j].1,
                distinct_entries(target.take(k as int)),
            decreases pairs@.len() - k,
        {
            let key = chars_of(pairs[k].0.as_str());
            let id = pairs[k].1;
            let mut j: usize = 0;
            while j < built.len()
                invariant
                    0 <= j <= built@.len(),
                    built@.len() == k < pairs@.len(),
                    target == pairs_view(pairs@),
                    key@ == target[k as int].0,
                    id == target[k as int].1,
                    forall|t: int|
                        0 <= t < k ==> (#[trigger] built@[t]).0@ == target[t].0 && built@[t].1
                            == target[t].1,
                    forall|t: int|
                        0 <= t < j ==> (#[trigger] target[t]).0 != target[k as int].0 && target[t].1
                            != target[k as int].1,
                decreases built@.len() - j,
            {
                if char_vecs_equal(&built[j].0, &key) || built[j].1 == id {
                    return Err(
                        PipelineError::Tokenization(String::from_str("duplicate vocabulary entry")),
                    );
                }
                j += 1;
            }
            built.push((key, id));
            proof {
                assert forall|i1: int, j1: int| 0 <= i1 < j1 < k + 1 implies (#[trigger] target[i1]).0
                    != (#[trigger] target[j1]).0 && target[i1].1 != target[j1].1 by {
                    if j1 < k {
                        assert(target.take(k as int)[i1] == target[i1]);
                        assert(target.take(k as int)[j1] == target[j1]);
                    }
                }
                assert(distinct_entries(target.take(k + 1 as int)));
            }
            k += 1;
        }
        proof {
            assert(target.take(pairs@.len() as int) =~= target);
        }
        let v = Vocabulary { entries: built, unknown_id };
        proof {
            assert(v.entries_view() =~= target);
        }
        Ok(v)
    }

    /// Whether every entry's id, and the unknown id, lie below `bound`:
    /// the id-space check against an embedding table's row count.
    pub fn ids_below(&self, bound: usize) -> (r: bool)
        ensures
            r == ((self.unknown() as int) < bound && forall|i: int|
                0 <= i < self.entries_view().len() ==> ((#[trigger] self.entries_view()[i]).1 as int)
                    < bound),
    {
        if !((self.unknown_id as usize) < bound) {
            return false;
        }
        let mut i: usize = 0;
        while i < self.entries.len()
            invariant
                0 <= i <= self.entries@.len(),
                forall|j: int|
                    0 <= j < i ==> ((#[trigger] self.entries_view()[j]).1 as int) < bound,
            decreases self.entries@.len() - i,
        {
            if !((self.entries[i].1 as usize) < bound) {
                proof {
                    assert(self.entries_view()[i as int].1 == self.entries@[i as int].1);
                }
                return false;
            }
            proof {
                assert(self.entries_view()[i as int].1 == self.entries@[i as int].1);
            }
            i += 1;
        }
        true
    }

    /// Looks the chunk `text[start .. start + len]` up among the entries.
    pub fn lookup_chunk(&self, text: &Vec<char>, start: usize, len: usize) -> (r: Option<u32>)
        requires
            start + len <= text@.len(),
        ensures
            r == spec_lookup(
                self.entries_view(),
                text@.subrange(start as int, start as int + len as int),
            ),
    {
        let ghost key = text@.subrange(start as int, start as int + len as int);
        let mut i: usize = 0;
        while i < self.entries.len()
            invariant
                0 <= i <= self.entries@.len(),
                start + len <= text@.len(),
                key == text@.subrange(start as int, start as int + len as int),
                forall|j: int| 0 <= j < i ==> (#[trigger] self.entries_view()[j]).0 != key,
            decreases self.entries@.len() - i,
        {
            if self.chunk_matches_entry(i, text, start, len) {
                proof {
                    lemma_lookup_skip(self.entries_view(), key, i as int);
                    assert(self.entries_view().skip(i as int)[0] == self.entries_view()[i as int]);
                }
                return Some(self.entries[i].1);
            }
            i += 1;
        }
        proof {
            lemma_lookup_skip(self.entries_view(), key, self.entries@.len() as int);
            assert(self.entries_view().skip(self.entries@.len() as int).len() == 0);
        }
        None
    }

    /// Whether entry `i`'s key equals the chunk `text[start .. start + len]`.
    fn chunk_matches_entry(&self, i: usize, text: &Vec<char>, start: usize, len: usize) -> (r: bool)
        requires
            i < self.entries@.len(),
            start + len <= text@.len(),
        ensures
            r == ((#[trigger] self.entries_view()[i as int]).0 == text@.subrange(
                start as int,
                start as int + len as int,
            )),
    {
        let ghost key = self.entries_view()[i as int].0;
        let ghost chunk = text@.subrange(start as int, start as int + len as int);
        if self.entries[i].0.len() != len {
            return false;
        }
        let tn: usize = text.len();
        let mut j: usize = 0;
        while j < len
            invariant
                0 <= j <= len,
                i < self.entries@.len(),
                start + len <= tn,
                tn == text@.len(),
                key == self.entries_view()[i as int].0,
                chunk == text@.subrange(start as int, start as int + len as int),
                self.entries@[i as int].0@ == key,
                key.len() == len,
                forall|t: int| 0 <= t < j ==> key[t] == chunk[t],
            decreases len - j,
        {
            if self.entries[i].0[j] != text[start + j] {
                return false;
            }
            j += 1;
        }
        proof {
            assert(key =~= chunk);
        }
        true
    }
}

} // verus!
