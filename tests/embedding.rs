use recallsnippet::codec::{decode_embedding, encode_embedding};
use recallsnippet::models::{Snippet, UpdateSnippetInput};
use recallsnippet::text::{needs_reembed, prepare_text, trim, validate_tag_name};

fn make_snippet(title: &str, problem: &str, solution: Option<&str>) -> Snippet {
    Snippet {
        id: "test-id".to_string(),
        title: title.to_string(),
        problem: problem.to_string(),
        solution: solution.map(String::from),
        code: None,
        code_language: None,
        reference_url: None,
        tags: vec![],
        created_at: "2026-02-09".to_string(),
        updated_at: "2026-02-09".to_string(),
        is_favorite: false,
        is_deleted: false,
        deleted_at: None,
        last_accessed_at: None,
    }
}

fn bits_of(v: &[f32]) -> Vec<u32> {
    v.iter().map(|f| f.to_bits()).collect()
}

fn floats_of(v: &[u32]) -> Vec<f32> {
    v.iter().map(|b| f32::from_bits(*b)).collect()
}

#[test]
fn test_prepare_text_with_solution() {
    let snippet = make_snippet("Docker error", "Container won't start", Some("Restart daemon"));
    let text = prepare_text(&snippet);

    assert!(text.contains("Docker error"));
    assert!(text.contains("Container won't start"));
    assert!(text.contains("Restart daemon"));
    assert_eq!(text.matches("Docker error").count(), 2);
}

#[test]
fn test_prepare_text_without_solution() {
    let snippet = make_snippet("Rust borrow", "Cannot borrow mutably", None);
    let text = prepare_text(&snippet);

    assert!(text.contains("Rust borrow"));
    assert!(text.contains("Cannot borrow mutably"));
    assert_eq!(text.matches("Rust borrow").count(), 2);
}

#[test]
fn prepare_text_exact_layout() {
    let snippet = make_snippet("Docker error", "Container won't start", Some("Restart daemon"));
    assert_eq!(
        prepare_text(&snippet),
        "Docker error Docker error Container won't start Restart daemon"
    );
}

#[test]
fn prepare_text_missing_solution_leaves_no_trailing_space() {
    let snippet = make_snippet("Rust borrow", "Cannot borrow mutably", None);
    assert_eq!(prepare_text(&snippet), "Rust borrow Rust borrow Cannot borrow mutably");
}

#[test]
fn prepare_text_trims_outer_whitespace_only() {
    let snippet = make_snippet("  Title\t", "Problem", Some("Fix \n"));
    assert_eq!(prepare_text(&snippet), "Title\t   Title\t Problem Fix");
}

#[test]
fn prepare_text_all_empty_is_empty() {
    let snippet = make_snippet("", "", None);
    assert_eq!(prepare_text(&snippet), "");
}

#[test]
fn trim_handles_unicode_whitespace() {
    assert_eq!(trim("\u{3000}\u{a0} abc d \u{2029}"), "abc d");
    assert_eq!(trim(" \t\n "), "");
    assert_eq!(trim("x"), "x");
}

#[test]
fn test_decode_embedding() {
    let values = vec![1.0_f32, 2.5, -0.3];
    let blob: Vec<u8> = values.iter().flat_map(|f| f.to_le_bytes()).collect();
    let decoded = floats_of(&decode_embedding(&blob));
    assert_eq!(decoded, values);
}

#[test]
fn encode_matches_little_endian_floats() {
    let values = vec![1.0_f32, 2.5, -0.3, 0.0];
    let expected: Vec<u8> = values.iter().flat_map(|f| f.to_le_bytes()).collect();
    assert_eq!(encode_embedding(&bits_of(&values)), expected);
    assert_eq!(encode_embedding(&bits_of(&[1.0_f32])), vec![0x00, 0x00, 0x80, 0x3f]);
}

#[test]
fn encode_decode_round_trip() {
    let values = vec![0.1_f32, -0.2, 0.0, -0.0, 123.456, -7.5e-3, f32::MIN_POSITIVE];
    let blob = encode_embedding(&bits_of(&values));
    assert_eq!(blob.len(), 4 * values.len());
    let decoded = decode_embedding(&blob);
    assert_eq!(decoded, bits_of(&values));
    assert_eq!(floats_of(&decoded), values);
}

#[test]
fn decode_ignores_trailing_partial_group() {
    let mut blob = encode_embedding(&bits_of(&[3.0_f32, 4.0]));
    blob.push(0xff);
    blob.push(0x01);
    assert_eq!(floats_of(&decode_embedding(&blob)), vec![3.0_f32, 4.0]);
    assert!(decode_embedding(&[1, 2, 3]).is_empty());
    assert!(decode_embedding(&[]).is_empty());
}

#[test]
fn reembed_only_on_content_change() {
    let none = UpdateSnippetInput {
        title: None,
        problem: None,
        solution: None,
        code: Some("x".to_string()),
        code_language: Some("rust".to_string()),
        reference_url: None,
        tag_ids: Some(vec!["t1".to_string()]),
    };
    assert!(!needs_reembed(&none));
    let with_title = UpdateSnippetInput { title: Some("New".to_string()), ..none.clone() };
    assert!(needs_reembed(&with_title));
    let with_problem = UpdateSnippetInput { problem: Some("P".to_string()), ..none.clone() };
    assert!(needs_reembed(&with_problem));
    let with_solution = UpdateSnippetInput { solution: Some("S".to_string()), ..none };
    assert!(needs_reembed(&with_solution));
}

#[test]
fn tag_names_are_trimmed_and_not_empty() {
    assert_eq!(validate_tag_name("  rust "), Ok("rust".to_string()));
    assert_eq!(validate_tag_name("   "), Err("Tag name cannot be empty".to_string()));
    assert_eq!(validate_tag_name(""), Err("Tag name cannot be empty".to_string()));
}
