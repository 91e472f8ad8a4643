//! Plain text helpers: turning a string into its characters, and wrapping a
//! query in the fixed instruction template.
//!
//! The tokenizer itself performs no normalization; whether a query is
//! instruct-wrapped before tokenization is an explicit configuration of the
//! embedder, applied here.

use vstd::prelude::*;
use vstd::string::*;

verus! {

/// The characters of `s`, in order, one per character of its view.
pub fn chars_of(s: &str) -> (r: Vec<char>)
    ensures
        r@ == s@,
{
    let n: usize = s.unicode_len();
    let mut r: Vec<char> = Vec::new();
    let mut i: usize = 0;
    while i < n
        invariant
            0 <= i <= n,
            n == s@.len(),
            r@ == s@.take(i as int),
        decreases n - i,
    {
        let c = s.get_char(i);
        r.push(c);
        proof {
            assert(s@.take(i as int).push(s@[i as int]) =~= s@.take(i + 1 as int));
        }
        i += 1;
    }
    proof {
        assert(s@.take(n as int) =~= s@);
    }
    r
}

/// Whether two string slices hold the same characters.
pub fn str_eq(a: &str, b: &str) -> (r: bool)
    ensures
        r == (a@ == b@),
{
    let an: usize = a.unicode_len();
    let bn: usize = b.unicode_len();
    if an != bn {
        return false;
    }
    let mut i: usize = 0;
    while i < an
        invariant
            0 <= i <= an,
            an == a@.len(),
            an == b@.len(),
            forall|j: int| 0 <= j < i ==> a@[j] == b@[j],
        decreases an - i,
    {
        if a.get_char(i) != b.get_char(i) {
            return false;
        }
        i += 1;
    }
    proof {
        assert(a@ =~= b@);
    }
    true
}

/// The instruction template: a fixed prefix, the task description, a fixed
/// separator, then the query text, with no other change to either.
pub open spec fn instruct_seq(task: Seq<char>, query: Seq<char>) -> Seq<char> {
    "Instruct: "@ + task + "\nQuery:"@ + query
}

/// Wraps `query` in the instruction template around `task`.
pub fn instruct_wrap(task: &str, query: &str) -> (r: String)
    ensures
        r@ == instruct_seq(task@, query@),
{
    let mut r = String::new();
    r.append("Instruct: ");
    r.append(task);
    r.append("\nQuery:");
    r.append(query);
    proof {
        assert(r@ =~= instruct_seq(task@, query@));
    }
    r
}

} // verus!
