//! Ranking of stored vectors by their similarity to a query.
//!
//! The similarity of two vectors is their cosine, except that a pair of
//! different lengths, of empty vectors, or with a vector of magnitude zero
//! scores `0.0`; this module settles those pairs, and the cosine of the
//! others is computed in double precision by the caller.
//!
//! Similarities are double-precision values computed outside this module; a
//! score is held here as the bit pattern of its `f64` (`f64::to_bits`). For
//! every double that is not a NaN, `score_order` orders those bit patterns as
//! the doubles are ordered, with `-0.0` and `0.0` equal, as `partial_cmp` has
//! them. Cosine similarities of finite vectors are never NaN.

use vstd::prelude::*;

verus! {

/// A vector component (an `f32` bit pattern) that is `0.0` or `-0.0`.
pub open spec fn is_zero_component(bits: u32) -> bool {
    bits == 0 || bits == 0x8000_0000
}

/// A vector of magnitude zero: every component is a zero. (Any other finite
/// component has a square that is a positive double, so the magnitude is
/// zero exactly for these vectors.)
pub open spec fn is_zero_vector(v: Seq<u32>) -> bool {
    forall|i: int| 0 <= i < v.len() ==> is_zero_component(#[trigger] v[i])
}

/// A pair whose similarity is `0.0` by policy rather than by arithmetic: the
/// vectors differ in length, are empty, or one has magnitude zero.
pub open spec fn settled_by_policy(a: Seq<u32>, b: Seq<u32>) -> bool {
    a.len() != b.len() || a.len() == 0 || is_zero_vector(a) || is_zero_vector(b)
}

/// Whether every component of `v` is a zero.
pub fn zero_vector(v: &[u32]) -> (r: bool)
    ensures
        r == is_zero_vector(v@),
{
    let mut i: usize = 0;
    while i < v.len()
        invariant
            i <= v@.len(),
            forall|k: int| 0 <= k < i ==> is_zero_component(#[trigger] v@[k]),
        decreases v@.len() - i,
    {
        if !(v[i] == 0 || v[i] == 0x8000_0000) {
            return false;
        }
        i = i + 1;
    }
    true
}

/// The similarity of a pair when the policy settles it: the bit pattern of
/// `0.0` for vectors of different lengths, empty vectors, or a vector of
/// magnitude zero; `None` when the cosine has to be computed.
pub fn settled_similarity(a: &[u32], b: &[u32]) -> (r: Option<u64>)
    ensures
        settled_by_policy(a@, b@) ==> r == Some(0u64),
        !settled_by_policy(a@, b@) ==> r is None,
{
    if a.len() != b.len() || a.len() == 0 || zero_vector(a) || zero_vector(b) {
        Some(0)
    } else {
        None
    }
}

/// The policy does not depend on the order of the pair.
pub proof fn lemma_policy_symmetric(a: Seq<u32>, b: Seq<u32>)
    ensures
        settled_by_policy(a, b) == settled_by_policy(b, a),
{
}

/// A stored snippet's similarity to the query.
#[derive(Clone, Debug)]
pub struct ScoredCandidate {
    pub snippet_id: String,
    pub score_bits: u64,
}

/// The sign bit of a double.
pub const SIGN_BIT: u64 = 0x8000_0000_0000_0000;

/// The position of a score on the number line: the magnitude's bit pattern,
/// negated when the sign bit is set.
pub open spec fn score_order(bits: u64) -> int {
    if bits >= SIGN_BIT {
        -((bits - SIGN_BIT) as int)
    } else {
        bits as int
    }
}

/// `score_order` as a machine integer.
pub fn score_key(bits: u64) -> (r: i64)
    ensures
        r as int == score_order(bits),
{
    if bits >= SIGN_BIT {
        -((bits - SIGN_BIT) as i64)
    } else {
        bits as i64
    }
}

/// Whether score `a` is at least score `b`.
pub fn score_at_least(a: u64, b: u64) -> (r: bool)
    ensures
        r == (score_order(a) >= score_order(b)),
{
    score_key(a) >= score_key(b)
}

pub open spec fn rank_of(c: ScoredCandidate) -> int {
    score_order(c.score_bits)
}

/// `s` with `c` placed after every leading entry that scores at least as
/// high as `c`.
pub open spec fn insert_ranked(s: Seq<ScoredCandidate>, c: ScoredCandidate) -> Seq<ScoredCandidate>
    decreases s.len(),
{
    if s.len() == 0 {
        seq![c]
    } else if rank_of(s[0]) >= rank_of(c) {
        seq![s[0]] + insert_ranked(s.drop_first(), c)
    } else {
        seq![c] + s
    }
}

/// The candidates by descending score; candidates with equal scores keep
/// their order of enumeration.
pub open spec fn ranked(s: Seq<ScoredCandidate>) -> Seq<ScoredCandidate>
    decreases s.len(),
{
    if s.len() == 0 {
        Seq::empty()
    } else {
        insert_ranked(ranked(s.drop_last()), s.last())
    }
}

pub open spec fn sorted_desc(s: Seq<ScoredCandidate>) -> bool {
    forall|i: int, j: int| 0 <= i < j < s.len() ==> rank_of(#[trigger] s[i]) >= rank_of(#[trigger] s[j])
}

pub open spec fn min_len(limit: usize, n: nat) -> int {
    if (limit as int) < n { limit as int } else { n as int }
}

/// Inserting at the first entry that scores lower than `c` is `insert_ranked`.
proof fn lemma_insert_at_first_lower(s: Seq<ScoredCandidate>, c: ScoredCandidate, p: int)
    requires
        0 <= p <= s.len(),
        forall|j: int| 0 <= j < p ==> rank_of(#[trigger] s[j]) >= rank_of(c),
        p < s.len() ==> rank_of(s[p]) < rank_of(c),
    ensures
        insert_ranked(s, c) == s.insert(p, c),
    decreases s.len(),
{
    if s.len() == 0 {
        assert(s.insert(p, c) =~= seq![c]);
    } else if rank_of(s[0]) >= rank_of(c) {
        let t = s.drop_first();
        assert forall|j: int| 0 <= j < p - 1 implies rank_of(#[trigger] t[j]) >= rank_of(c) by {
            assert(t[j] == s[j + 1]);
        }
        if p - 1 < t.len() {
            assert(t[p - 1] == s[p]);
        }
        lemma_insert_at_first_lower(t, c, p - 1);
        assert(seq![s[0]] + t.insert(p - 1, c) =~= s.insert(p, c));
    } else {
        assert(s.insert(p, c) =~= seq![c] + s);
    }
}

proof fn lemma_insert_ranked_sorted(s: Seq<ScoredCandidate>, c: ScoredCandidate)
    requires
        sorted_desc(s),
    ensures
        sorted_desc(insert_ranked(s, c)),
        insert_ranked(s, c).to_multiset() == s.to_multiset().insert(c),
        insert_ranked(s, c).len() == s.len() + 1,
    decreases s.len(),
{
    if s.len() == 0 {
        assert(seq![c] =~= s.insert(0, c));
        vstd::seq_lib::to_multiset_insert(s, 0, c);
    } else if rank_of(s[0]) >= rank_of(c) {
        let t = s.drop_first();
        assert(sorted_desc(t)) by {
            assert forall|i: int, j: int| 0 <= i < j < t.len() implies rank_of(#[trigger] t[i]) >= rank_of(#[trigger] t[j]) by {
                assert(t[i] == s[i + 1] && t[j] == s[j + 1]);
            }
        }
        lemma_insert_ranked_sorted(t, c);
        let u = insert_ranked(t, c);
        let r = seq![s[0]] + u;
        assert forall|j: int| 0 <= j < u.len() implies rank_of(s[0]) >= rank_of(#[trigger] u[j]) by {
            lemma_member_of_insert(t, c, j);
        }
        assert forall|i: int, j: int| 0 <= i < j < r.len() implies rank_of(#[trigger] r[i]) >= rank_of(#[trigger] r[j]) by {
            if i == 0 {
                assert(r[j] == u[j - 1]);
            } else {
                assert(r[i] == u[i - 1] && r[j] == u[j - 1]);
            }
        }
        assert(s =~= t.insert(0, s[0]));
        assert(r =~= u.insert(0, s[0]));
        vstd::seq_lib::to_multiset_insert(t, 0, s[0]);
        vstd::seq_lib::to_multiset_insert(u, 0, s[0]);
        assert(t.to_multiset().insert(c).insert(s[0]) =~= t.to_multiset().insert(s[0]).insert(c));
    } else {
        let r = seq![c] + s;
        assert forall|i: int, j: int| 0 <= i < j < r.len() implies rank_of(#[trigger] r[i]) >= rank_of(#[trigger] r[j]) by {
            if i == 0 {
                assert(r[j] == s[j - 1]);
                assert(rank_of(s[0]) >= rank_of(s[j - 1]) || j - 1 == 0);
            } else {
                assert(r[i] == s[i - 1] && r[j] == s[j - 1]);
            }
        }
        assert(r =~= s.insert(0, c));
        vstd::seq_lib::to_multiset_insert(s, 0, c);
    }
}

/// Every entry of `insert_ranked(s, c)` is `c` or an entry of `s`.
proof fn lemma_member_of_insert(s: Seq<ScoredCandidate>, c: ScoredCandidate, j: int)
    requires
        0 <= j < insert_ranked(s, c).len(),
    ensures
        insert_ranked(s, c)[j] == c || exists|k: int| 0 <= k < s.len() && s[k] == insert_ranked(s, c)[j],
        sorted_desc(s) && s.len() > 0 && rank_of(s[0]) >= rank_of(c) ==> rank_of(s[0]) >= rank_of(insert_ranked(s, c)[j]),
    decreases s.len(),
{
    lemma_insert_len(s, c);
    if s.len() == 0 {
    } else if rank_of(s[0]) >= rank_of(c) {
        let t = s.drop_first();
        if j == 0 {
            assert(s[0] == insert_ranked(s, c)[j]);
        } else {
            lemma_member_of_insert(t, c, j - 1);
            assert(insert_ranked(s, c)[j] == insert_ranked(t, c)[j - 1]);
            if insert_ranked(t, c)[j - 1] != c {
                let k = choose|k: int| 0 <= k < t.len() && t[k] == insert_ranked(t, c)[j - 1];
                assert(s[k + 1] == t[k]);
            }
        }
    } else {
        if j > 0 {
            assert(insert_ranked(s, c)[j] == s[j - 1]);
        }
    }
}

proof fn lemma_insert_len(s: Seq<ScoredCandidate>, c: ScoredCandidate)
    ensures
        insert_ranked(s, c).len() == s.len() + 1,
    decreases s.len(),
{
    if s.len() > 0 {
        lemma_insert_len(s.drop_first(), c);
    }
}

/// The ranking is ordered by descending score and holds exactly the
/// candidates it was given.
pub proof fn lemma_ranked_sorted_permutation(s: Seq<ScoredCandidate>)
    ensures
        sorted_desc(ranked(s)),
        ranked(s).to_multiset() == s.to_multiset(),
        ranked(s).len() == s.len(),
    decreases s.len(),
{
    if s.len() > 0 {
        let t = s.drop_last();
        lemma_ranked_sorted_permutation(t);
        lemma_insert_ranked_sorted(ranked(t), s.last());
        assert(s =~= t.insert(t.len() as int, s.last()));
        vstd::seq_lib::to_multiset_insert(t, t.len() as int, s.last());
    } else {
        assert(s =~= Seq::empty());
    }
}

/// A candidate that scores strictly higher than every other one is ranked
/// first, and every later entry of the ranking scores strictly lower.
pub proof fn lemma_best_ranks_first(s: Seq<ScoredCandidate>, k: int)
    requires
        0 <= k < s.len(),
        forall|j: int| 0 <= j < s.len() && j != k ==> rank_of(#[trigger] s[j]) < rank_of(s[k]),
    ensures
        ranked(s)[0] == s[k],
        forall|i: int| 1 <= i < s.len() ==> rank_of(#[trigger] ranked(s)[i]) < rank_of(ranked(s)[0]),
{
    broadcast use vstd::seq_lib::group_to_multiset_ensures;

    lemma_ranked_sorted_permutation(s);
    let r = ranked(s);
    assert(s.contains(s[k]));
    assert(r.to_multiset().count(s[k]) > 0);
    assert(r.contains(s[k]));
    let m = choose|m: int| 0 <= m < r.len() && r[m] == s[k];
    assert(r.contains(r[0]));
    assert(s.to_multiset().count(r[0]) > 0);
    assert(s.contains(r[0]));
    let j = choose|j: int| 0 <= j < s.len() && s[j] == r[0];
    if m > 0 {
        assert(rank_of(r[0]) >= rank_of(r[m]));
    }
    assert(r[0] == s[k]);
    assert forall|i: int| 1 <= i < s.len() implies rank_of(#[trigger] r[i]) < rank_of(r[0]) by {
        let rr = r.remove(0);
        let sr = s.remove(k);
        assert(rr.to_multiset() == sr.to_multiset());
        assert(rr[i - 1] == r[i]);
        assert(rr.contains(r[i]));
        assert(sr.to_multiset().count(r[i]) > 0);
        assert(sr.contains(r[i]));
        let q = choose|q: int| 0 <= q < sr.len() && sr[q] == r[i];
        if q < k {
            assert(sr[q] == s[q]);
        } else {
            assert(sr[q] == s[q + 1]);
        }
    }
}

/// Where `insert_ranked` places `c` in `s`.
pub open spec fn insert_point(s: Seq<ScoredCandidate>, c: ScoredCandidate) -> int
    decreases s.len(),
{
    if s.len() == 0 {
        0
    } else if rank_of(s[0]) >= rank_of(c) {
        1 + insert_point(s.drop_first(), c)
    } else {
        0
    }
}

proof fn lemma_insert_point(s: Seq<ScoredCandidate>, c: ScoredCandidate)
    ensures
        0 <= insert_point(s, c) <= s.len(),
        forall|j: int| 0 <= j < insert_point(s, c) ==> rank_of(#[trigger] s[j]) >= rank_of(c),
        insert_point(s, c) < s.len() ==> rank_of(s[insert_point(s, c)]) < rank_of(c),
        insert_ranked(s, c) == s.insert(insert_point(s, c), c),
    decreases s.len(),
{
    if s.len() > 0 && rank_of(s[0]) >= rank_of(c) {
        let t = s.drop_first();
        lemma_insert_point(t, c);
        assert forall|j: int| 0 <= j < insert_point(s, c) implies rank_of(#[trigger] s[j]) >= rank_of(c) by {
            if j > 0 {
                assert(s[j] == t[j - 1]);
            }
        }
        if insert_point(s, c) < s.len() {
            assert(s[insert_point(s, c)] == t[insert_point(t, c)]);
        }
    }
    lemma_insert_at_first_lower(s, c, insert_point(s, c));
}

/// `a` stands at an earlier position of `r` than `b`.
pub open spec fn appears_before(r: Seq<ScoredCandidate>, a: ScoredCandidate, b: ScoredCandidate) -> bool {
    exists|p: int, q: int| 0 <= p < q < r.len() && r[p] == a && r[q] == b
}

/// Candidates with equal scores keep their enumeration order in the
/// ranking, so ranking unchanged data always gives the same order.
pub proof fn lemma_ranking_stable(s: Seq<ScoredCandidate>, i: int, j: int)
    requires
        0 <= i < j < s.len(),
        rank_of(s[i]) == rank_of(s[j]),
    ensures
        appears_before(ranked(s), s[i], s[j]),
    decreases s.len(),
{
    broadcast use vstd::seq_lib::group_to_multiset_ensures;

    let t = s.drop_last();
    let x = s.last();
    let r = ranked(t);
    lemma_ranked_sorted_permutation(t);
    lemma_insert_point(r, x);
    let k = insert_point(r, x);
    let out = r.insert(k, x);
    assert(ranked(s) == out);
    assert(t[i] == s[i]);
    if j < s.len() - 1 {
        assert(t[j] == s[j]);
        lemma_ranking_stable(t, i, j);
        let (p, q) = choose|p: int, q: int| 0 <= p < q < r.len() && r[p] == s[i] && r[q] == s[j];
        let p2 = if p < k { p } else { p + 1 };
        let q2 = if q < k { q } else { q + 1 };
        assert(out[p2] == s[i] && out[q2] == s[j]);
    } else {
        assert(t.contains(t[i]));
        assert(r.to_multiset().count(s[i]) > 0);
        assert(r.contains(s[i]));
        let q = choose|q: int| 0 <= q < r.len() && r[q] == s[i];
        if q >= k {
            assert(k < r.len());
            if q > k {
                assert(rank_of(r[k]) >= rank_of(r[q]));
            }
            assert(false);
        }
        assert(out[q] == s[i] && out[k] == s[j]);
    }
}

/// Sorts candidates by descending score, keeping the enumeration order among
/// equal scores, and keeps the first `limit` of them. The cut is made after
/// sorting, so no candidate that belongs in the top `limit` is lost.
pub fn rank_candidates(candidates: &Vec<ScoredCandidate>, limit: usize) -> (r: Vec<ScoredCandidate>)
    ensures
        r@ == ranked(candidates@).take(min_len(limit, candidates@.len())),
{
    let mut out: Vec<ScoredCandidate> = Vec::new();
    let mut i: usize = 0;
    while i < candidates.len()
        invariant
            i <= candidates@.len(),
            out@ == ranked(candidates@.take(i as int)),
        decreases candidates@.len() - i,
    {
        let c = ScoredCandidate {
            snippet_id: candidates[i].snippet_id.clone(),
            score_bits: candidates[i].score_bits,
        };
        let key = score_key(c.score_bits);
        let mut p: usize = 0;
        while p < out.len() && score_key(out[p].score_bits) >= key
            invariant
                p <= out@.len(),
                key as int == rank_of(c),
                forall|j: int| 0 <= j < p ==> rank_of(#[trigger] out@[j]) >= rank_of(c),
            decreases out@.len() - p,
        {
            p = p + 1;
        }
        proof {
            lemma_insert_at_first_lower(out@, c, p as int);
            let next = candidates@.take(i + 1);
            assert(next.drop_last() =~= candidates@.take(i as int));
            assert(next.last() == c);
        }
        out.insert(p, c);
        i = i + 1;
    }
    proof {
        assert(candidates@.take(candidates@.len() as int) =~= candidates@);
        lemma_ranked_sorted_permutation(candidates@);
    }
    out.truncate(limit);
    proof {
        assert(out@ =~= ranked(candidates@).take(min_len(limit, candidates@.len())));
    }
    out
}

/// How many results a search returns: the requested number, else the
/// configured one (as `usize`, which wraps a negative setting).
pub fn search_limit(requested: Option<usize>, configured: i32) -> (r: usize)
    ensures
        r == match requested {
            Some(l) => l,
            None => configured as usize,
        },
{
    match requested {
        Some(l) => l,
        None => configured as usize,
    }
}

} // verus!
