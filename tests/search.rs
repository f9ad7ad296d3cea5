use recallsnippet::codec::{decode_embedding, encode_embedding};
use recallsnippet::ranking::{
    rank_candidates, score_at_least, score_key, search_limit, settled_similarity, zero_vector, ScoredCandidate,
};

fn bits(v: &[f32]) -> Vec<u32> {
    v.iter().map(|f| f.to_bits()).collect()
}

// Cosine similarity in double precision; the library settles the pairs that
// score zero by policy.
fn cosine(a: &[f32], b: &[f32]) -> f64 {
    if let Some(settled) = settled_similarity(&bits(a), &bits(b)) {
        return f64::from_bits(settled);
    }
    let dot: f64 = a.iter().zip(b.iter()).map(|(x, y)| (*x as f64) * (*y as f64)).sum();
    let mag_a: f64 = a.iter().map(|x| (*x as f64) * (*x as f64)).sum::<f64>().sqrt();
    let mag_b: f64 = b.iter().map(|x| (*x as f64) * (*x as f64)).sum::<f64>().sqrt();
    dot / (mag_a * mag_b)
}

fn cand(id: &str, score: f64) -> ScoredCandidate {
    ScoredCandidate { snippet_id: id.to_string(), score_bits: score.to_bits() }
}

fn ids(v: &[ScoredCandidate]) -> Vec<String> {
    v.iter().map(|c| c.snippet_id.clone()).collect()
}

fn store(v: &[f32]) -> Vec<u8> {
    encode_embedding(&v.iter().map(|f| f.to_bits()).collect::<Vec<u32>>())
}

fn load(blob: &[u8]) -> Vec<f32> {
    decode_embedding(blob).into_iter().map(f32::from_bits).collect()
}

#[test]
fn test_semantic_search_db_integration() {
    let rows = vec![
        ("s1".to_string(), store(&[0.9_f32, 0.1, 0.0])),
        ("s2".to_string(), store(&[0.0_f32, 0.1, 0.9])),
    ];
    let query_emb = vec![0.8_f32, 0.2, 0.0];

    let scored: Vec<ScoredCandidate> = rows
        .iter()
        .map(|(id, blob)| cand(id, cosine(&query_emb, &load(blob))))
        .collect();
    let ranked = rank_candidates(&scored, scored.len());

    assert_eq!(ranked[0].snippet_id, "s1");
    assert!(f64::from_bits(ranked[0].score_bits) > f64::from_bits(ranked[1].score_bits));
}

#[test]
fn near_identical_vector_ranks_first() {
    let query = [0.5_f32, 0.5, 0.1];
    let stored = [
        ("far1", [-0.7_f32, 0.1, 0.9]),
        ("near", [0.51_f32, 0.49, 0.1]),
        ("far2", [0.0_f32, -0.3, 1.0]),
    ];
    let scored: Vec<ScoredCandidate> = stored.iter().map(|(id, v)| cand(id, cosine(&query, v))).collect();
    let ranked = rank_candidates(&scored, 10);
    assert_eq!(ranked[0].snippet_id, "near");
    let top = f64::from_bits(ranked[0].score_bits);
    assert!(top > f64::from_bits(ranked[1].score_bits));
    assert!(top > f64::from_bits(ranked[2].score_bits));
}

#[test]
fn ranking_sorts_descending_and_keeps_ties_in_order() {
    let scored = vec![
        cand("a", 0.2),
        cand("b", 0.9),
        cand("c", 0.5),
        cand("d", 0.9),
        cand("e", -0.4),
        cand("f", 0.5),
    ];
    let ranked = rank_candidates(&scored, 10);
    assert_eq!(ids(&ranked), vec!["b", "d", "c", "f", "a", "e"]);
    assert_eq!(rank_candidates(&scored, 10).len(), 6);
}

#[test]
fn ranking_truncates_after_sorting() {
    let scored = vec![cand("low", 0.1), cand("mid", 0.5), cand("high", 0.8), cand("top", 0.95)];
    assert_eq!(ids(&rank_candidates(&scored, 2)), vec!["top", "high"]);
    assert!(rank_candidates(&scored, 0).is_empty());
    assert!(rank_candidates(&Vec::new(), 5).is_empty());
}

#[test]
fn negative_zero_ties_with_zero() {
    let scored = vec![cand("neg", -0.0), cand("pos", 0.0), cand("tiny", -1e-300)];
    assert_eq!(ids(&rank_candidates(&scored, 3)), vec!["neg", "pos", "tiny"]);
    let scored = vec![cand("pos", 0.0), cand("neg", -0.0)];
    assert_eq!(ids(&rank_candidates(&scored, 3)), vec!["pos", "neg"]);
}

#[test]
fn score_order_follows_doubles() {
    let values = [-1.0_f64, -0.5, -1e-10, 0.0, 1e-300, 0.25, 0.3, 0.3000000001, 1.0];
    for w in values.windows(2) {
        assert!(score_key(w[0].to_bits()) < score_key(w[1].to_bits()), "{} < {}", w[0], w[1]);
        assert!(score_at_least(w[1].to_bits(), w[0].to_bits()));
        assert!(!score_at_least(w[0].to_bits(), w[1].to_bits()));
    }
    assert_eq!(score_key((-0.0_f64).to_bits()), score_key(0.0_f64.to_bits()));
    assert_eq!(score_key(0.0_f64.to_bits()), 0);
}

#[test]
fn zero_magnitude_scores_zero() {
    let a = [0.0_f32, 0.0];
    let b = [1.0_f32, 0.0];
    assert_eq!(settled_similarity(&bits(&a), &bits(&b)), Some(0.0_f64.to_bits()));
    assert_eq!(settled_similarity(&bits(&b), &bits(&a)), Some(0.0_f64.to_bits()));
    assert_eq!(cosine(&a, &b), 0.0);
    assert_eq!(settled_similarity(&bits(&[-0.0_f32, 0.0]), &bits(&b)), Some(0));
}

#[test]
fn mismatched_lengths_score_zero() {
    let a = [1.0_f32, 0.0];
    let b = [1.0_f32, 0.0, 0.0];
    assert_eq!(settled_similarity(&bits(&a), &bits(&b)), Some(0.0_f64.to_bits()));
    assert_eq!(settled_similarity(&bits(&b), &bits(&a)), Some(0));
}

#[test]
fn empty_vectors_score_zero() {
    assert_eq!(settled_similarity(&[], &[]), Some(0));
}

#[test]
fn comparable_pairs_are_left_to_arithmetic() {
    assert_eq!(settled_similarity(&bits(&[1.0, 0.0]), &bits(&[0.0, 1.0])), None);
    assert_eq!(settled_similarity(&bits(&[1e-45, 0.0]), &bits(&[1.0, 1.0])), None);
    assert!(zero_vector(&bits(&[0.0, -0.0])));
    assert!(!zero_vector(&bits(&[0.0, 1e-45])));
    assert!(zero_vector(&[]));
}

#[test]
fn cosine_bounds_on_simple_vectors() {
    assert!((cosine(&[1.0, 0.0, 0.0], &[1.0, 0.0, 0.0]) - 1.0).abs() < 1e-6);
    assert!(cosine(&[1.0, 0.0], &[0.0, 1.0]).abs() < 1e-6);
    assert!((cosine(&[1.0, 0.0], &[-1.0, 0.0]) + 1.0).abs() < 1e-6);
}

#[test]
fn cosine_helper_policies_rank_as_zero() {
    // Mismatched lengths and zero vectors score 0.0 and rank with other zeros.
    let scored = vec![
        cand("mismatch", cosine(&[1.0, 0.0], &[1.0, 0.0, 0.0])),
        cand("zero", cosine(&[0.0, 0.0], &[1.0, 0.0])),
        cand("match", cosine(&[1.0, 0.0], &[1.0, 0.0])),
    ];
    assert_eq!(ids(&rank_candidates(&scored, 3)), vec!["match", "mismatch", "zero"]);
}

#[test]
fn search_limit_prefers_request() {
    assert_eq!(search_limit(Some(3), 10), 3);
    assert_eq!(search_limit(None, 10), 10);
    assert_eq!(search_limit(Some(0), 10), 0);
}
