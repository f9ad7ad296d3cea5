//! The stored form of an embedding: each component's IEEE-754 single-precision
//! bit pattern as four little-endian bytes, concatenated, with no header and no
//! length prefix.
//!
//! A vector is held here as the bit patterns of its `f32` components
//! (`f32::to_bits`), which maps each float to exactly one `u32` and back.

use vstd::bytes::{spec_u32_from_le_bytes, spec_u32_to_le_bytes, u32_from_le_bytes, u32_to_le_bytes, lemma_auto_spec_u32_to_from_le_bytes};
use vstd::prelude::*;

verus! {

/// The blob for a vector of component bit patterns.
pub open spec fn encoded(v: Seq<u32>) -> Seq<u8>
    decreases v.len(),
{
    if v.len() == 0 {
        Seq::empty()
    } else {
        encoded(v.drop_last()) + spec_u32_to_le_bytes(v.last())
    }
}

/// The vector read from a blob: one component per complete group of four
/// bytes, in order; a trailing partial group is ignored.
pub open spec fn decoded(b: Seq<u8>) -> Seq<u32> {
    Seq::new(b.len() / 4, |i: int| spec_u32_from_le_bytes(b.subrange(4 * i, 4 * i + 4)))
}

proof fn lemma_encoded_len(v: Seq<u32>)
    ensures
        encoded(v).len() == 4 * v.len(),
    decreases v.len(),
{
    lemma_auto_spec_u32_to_from_le_bytes();
    if v.len() > 0 {
        lemma_encoded_len(v.drop_last());
    }
}

/// Component `i` of a vector sits in bytes `4 * i .. 4 * i + 4` of its blob.
proof fn lemma_encoded_group(v: Seq<u32>, i: int)
    requires
        0 <= i < v.len(),
    ensures
        encoded(v).subrange(4 * i, 4 * i + 4) == spec_u32_to_le_bytes(v[i]),
    decreases v.len(),
{
    lemma_auto_spec_u32_to_from_le_bytes();
    let w = v.drop_last();
    lemma_encoded_len(w);
    if i == v.len() - 1 {
        assert(encoded(v).subrange(4 * i, 4 * i + 4) =~= spec_u32_to_le_bytes(v[i]));
    } else {
        lemma_encoded_group(w, i);
        assert(encoded(v).subrange(4 * i, 4 * i + 4) =~= encoded(w).subrange(4 * i, 4 * i + 4));
    }
}

/// Decoding the blob of a vector gives back the vector, component for
/// component (its bit patterns, hence the same floats).
pub proof fn lemma_round_trip(v: Seq<u32>)
    ensures
        decoded(encoded(v)) == v,
{
    lemma_auto_spec_u32_to_from_le_bytes();
    lemma_encoded_len(v);
    let n = v.len() as int;
    assert((4 * n) / 4 == n) by (nonlinear_arith);
    assert forall|i: int| 0 <= i < v.len() implies #[trigger] decoded(encoded(v))[i] == v[i] by {
        lemma_encoded_group(v, i);
        let b = encoded(v);
        assert(spec_u32_to_le_bytes(v[i]).len() == 4);
    }
    assert(decoded(encoded(v)) =~= v);
}

/// The blob length is four bytes per component.
pub proof fn lemma_blob_len(v: Seq<u32>)
    ensures
        encoded(v).len() == 4 * v.len(),
        decoded(encoded(v)).len() == v.len(),
{
    lemma_encoded_len(v);
}

/// Serialises a vector for storage.
pub fn encode_embedding(embedding: &[u32]) -> (r: Vec<u8>)
    requires
        embedding@.len() * 4 <= usize::MAX,
    ensures
        r@ == encoded(embedding@),
{
    let mut out: Vec<u8> = Vec::new();
    let mut i: usize = 0;
    while i < embedding.len()
        invariant
            i <= embedding@.len(),
            out@ == encoded(embedding@.subrange(0, i as int)),
        decreases embedding@.len() - i,
    {
        let mut bytes = u32_to_le_bytes(embedding[i]);
        proof {
            let w = embedding@.subrange(0, i + 1);
            assert(w.drop_last() =~= embedding@.subrange(0, i as int));
        }
        out.append(&mut bytes);
        i = i + 1;
    }
    proof {
        assert(embedding@.subrange(0, embedding@.len() as int) =~= embedding@);
    }
    out
}

/// Reads a stored blob back into a vector; bytes after the last complete
/// group of four are ignored.
pub fn decode_embedding(blob: &[u8]) -> (r: Vec<u32>)
    ensures
        r@ == decoded(blob@),
{
    let len = blob.len();
    let n = len / 4;
    let mut out: Vec<u32> = Vec::new();
    let mut i: usize = 0;
    while i < n
        invariant
            len == blob@.len(),
            n == len / 4,
            i <= n,
            out@ =~= decoded(blob@).subrange(0, i as int),
        decreases n - i,
    {
        assert(4 * i + 4 <= blob@.len()) by (nonlinear_arith)
            requires
                i < n,
                n == len / 4,
                len == blob@.len(),
        ;
        let group = vstd::slice::slice_subrange(blob, 4 * i, 4 * i + 4);
        let x = u32_from_le_bytes(group);
        out.push(x);
        i = i + 1;
    }
    out
}

} // verus!
