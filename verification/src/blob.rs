//! The persisted form of an embedding: D consecutive little-endian 4-byte
//! components.
//!
//! This is the documented, portable serialization the vector store writes
//! and reads; packing then unpacking gives the original components back
//! exactly.

use vstd::prelude::*;
use vstd::bytes::{spec_u32_to_le_bytes, spec_u32_from_le_bytes, lemma_auto_spec_u32_to_from_le_bytes,
    u32_to_le_bytes, u32_from_le_bytes};
use vstd::slice::slice_subrange;
use crate::errors::PipelineError;

verus! {

/// The blob of a component sequence: each component's four little-endian
/// bytes, in order.
pub open spec fn spec_pack(v: Seq<u32>) -> Seq<u8>
    decreases v.len(),
{
    if v.len() == 0 {
        Seq::empty()
    } else {
        spec_u32_to_le_bytes(v[0]) + spec_pack(v.drop_first())
    }
}

/// The component sequence of a blob, four bytes at a time; bytes past the
/// last whole component are ignored.
pub open spec fn spec_unpack(b: Seq<u8>) -> Seq<u32>
    decreases b.len(),
{
    if b.len() < 4 {
        Seq::empty()
    } else {
        seq![spec_u32_from_le_bytes(b.take(4))] + spec_unpack(b.skip(4))
    }
}

/// A packed blob holds four bytes per component.
pub proof fn lemma_pack_len(v: Seq<u32>)
    ensures
        spec_pack(v).len() == 4 * v.len(),
    decreases v.len(),
{
    lemma_auto_spec_u32_to_from_le_bytes();
    if v.len() > 0 {
        lemma_pack_len(v.drop_first());
    }
}

/// Packing appends per component.
proof fn lemma_pack_snoc(v: Seq<u32>, x: u32)
    ensures
        spec_pack(v.push(x)) == spec_pack(v) + spec_u32_to_le_bytes(x),
    decreases v.len(),
{
    if v.len() == 0 {
        reveal_with_fuel(spec_pack, 3);
        assert(v.push(x)[0] == x);
        assert(v.push(x).drop_first() =~= Seq::<u32>::empty());
        assert(spec_pack(v) + spec_u32_to_le_bytes(x) =~= spec_u32_to_le_bytes(x));
        assert(spec_u32_to_le_bytes(x) + Seq::<u8>::empty() =~= spec_u32_to_le_bytes(x));
    } else {
        assert(v.push(x).drop_first() =~= v.drop_first().push(x));
        lemma_pack_snoc(v.drop_first(), x);
        assert(v.push(x)[0] == v[0]);
        assert(spec_u32_to_le_bytes(v[0]) + (spec_pack(v.drop_first()) + spec_u32_to_le_bytes(x))
            =~= (spec_u32_to_le_bytes(v[0]) + spec_pack(v.drop_first())) + spec_u32_to_le_bytes(
            x,
        ));
    }
}

/// Round trip: unpacking a packed blob gives the components back exactly.
pub proof fn lemma_unpack_pack(v: Seq<u32>)
    ensures
        spec_unpack(spec_pack(v)) == v,
    decreases v.len(),
{
    lemma_auto_spec_u32_to_from_le_bytes();
    if v.len() == 0 {
        assert(spec_unpack(spec_pack(v)) =~= v);
    } else {
        let head = spec_u32_to_le_bytes(v[0]);
        let packed = spec_pack(v);
        lemma_pack_len(v.drop_first());
        assert(packed.take(4) =~= head);
        assert(packed.skip(4) =~= spec_pack(v.drop_first()));
        lemma_unpack_pack(v.drop_first());
        assert(spec_unpack(packed) =~= v);
    }
}

/// Serializes components to their fixed-width blob.
pub fn pack_embedding(v: &Vec<u32>) -> (b: Vec<u8>)
    ensures
        b@ == spec_pack(v@),
        b@.len() == 4 * v@.len(),
{
    let mut b: Vec<u8> = Vec::new();
    let mut i: usize = 0;
    proof {
        assert(v@.take(0) =~= Seq::<u32>::empty());
    }
    while i < v.len()
        invariant
            0 <= i <= v@.len(),
            b@ == spec_pack(v@.take(i as int)),
        decreases v@.len() - i,
    {
        let mut word = u32_to_le_bytes(v[i]);
        proof {
            lemma_pack_snoc(v@.take(i as int), v@[i as int]);
            assert(v@.take(i as int).push(v@[i as int]) =~= v@.take(i + 1 as int));
        }
        b.append(&mut word);
        i += 1;
    }
    proof {
        assert(v@.take(v@.len() as int) =~= v@);
        lemma_pack_len(v@);
    }
    b
}

/// Deserializes a blob back to components. A blob whose length is not a
/// multiple of four is malformed and rejected as a storage failure.
pub fn unpack_embedding(b: &Vec<u8>) -> (r: Result<Vec<u32>, PipelineError>)
    ensures
        r is Ok <==> b@.len() % 4 == 0,
        r matches Ok(v) ==> v@ == spec_unpack(b@) && v@.len() * 4 == b@.len(),
        r matches Err(e) ==> e matches PipelineError::Storage(_),
{
    let n: usize = b.len();
    if n % 4 != 0 {
        return Err(PipelineError::Storage(String::from_str("embedding blob length is not a multiple of four")));
    }
    let mut v: Vec<u32> = Vec::new();
    let mut i: usize = 0;
    proof {
        assert(b@.skip(0) =~= b@);
        assert(Seq::<u32>::empty() + spec_unpack(b@) =~= spec_unpack(b@));
    }
    while i < n
        invariant
            0 <= i <= n,
            i % 4 == 0,
            n % 4 == 0,
            n == b@.len(),
            v@.len() == i / 4,
            spec_unpack(b@) == v@ + spec_unpack(b@.skip(i as int)),
        decreases n - i,
    {
        proof {
            assert(i + 4 <= n) by {
                assert(i < n && i % 4 == 0 && n % 4 == 0);
            }
        }
        let word = u32_from_le_bytes(slice_subrange(b.as_slice(), i, i + 4));
        proof {
            let suffix = b@.skip(i as int);
            assert(suffix.take(4) =~= b@.subrange(i as int, i + 4 as int));
            assert(suffix.skip(4) =~= b@.skip(i + 4 as int));
            assert(spec_unpack(suffix) == seq![spec_u32_from_le_bytes(suffix.take(4))]
                + spec_unpack(suffix.skip(4)));
            assert((v@ + seq![word]) + spec_unpack(b@.skip(i + 4 as int)) =~= v@ + (seq![word]
                + spec_unpack(b@.skip(i + 4 as int))));
        }
        v.push(word);
        i += 4;
    }
    proof {
        assert(i == n);
        assert(spec_unpack(b@.skip(n as int)) =~= Seq::<u32>::empty());
        assert(v@ + spec_unpack(b@.skip(n as int)) =~= v@);
    }
    Ok(v)
}

} // verus!
