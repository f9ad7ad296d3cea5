use recallsnippet::client::{
    embed_url, first_embedding, generate_url, is_success, probe_outcome, tags_url, AiError, Operation,
};
use recallsnippet::models::Settings;

#[test]
fn endpoints_follow_base_url() {
    assert_eq!(tags_url("http://localhost:11434"), "http://localhost:11434/api/tags");
    assert_eq!(embed_url("http://remote:11434"), "http://remote:11434/api/embed");
    assert_eq!(generate_url("http://h"), "http://h/api/generate");
}

#[test]
fn success_statuses() {
    assert!(is_success(200));
    assert!(is_success(204));
    assert!(is_success(299));
    assert!(!is_success(199));
    assert!(!is_success(300));
    assert!(!is_success(404));
    assert!(!is_success(500));
}

#[test]
fn probe_never_fails() {
    assert!(probe_outcome(Some(200)));
    assert!(!probe_outcome(Some(503)));
    assert!(!probe_outcome(None));
}

#[test]
fn first_embedding_takes_first_vector() {
    let v1: Vec<u32> = vec![0.5_f32.to_bits(), (-1.0_f32).to_bits()];
    let v2: Vec<u32> = vec![2.0_f32.to_bits()];
    match first_embedding(vec![v1.clone(), v2]) {
        Ok(v) => assert_eq!(v, v1),
        Err(e) => panic!("unexpected error: {}", e.message()),
    }
}

#[test]
fn no_embedding_is_an_error() {
    match first_embedding(vec![]) {
        Ok(_) => panic!("expected an error"),
        Err(e) => {
            assert!(matches!(e, AiError::EmptyResult));
            assert_eq!(e.message(), "No embedding returned");
        }
    }
}

#[test]
fn error_messages() {
    let conn = AiError::Connection { op: Operation::ListModels, detail: "refused".to_string() };
    assert_eq!(conn.message(), "Ollama connection failed: refused");
    let conn = AiError::Connection { op: Operation::Embedding, detail: "timeout".to_string() };
    assert_eq!(conn.message(), "Ollama embedding request failed: timeout");
    let conn = AiError::Connection { op: Operation::Generation, detail: "reset".to_string() };
    assert_eq!(conn.message(), "Ollama generation failed: reset");
    let status = AiError::Status { op: Operation::ListModels, status: "404 Not Found".to_string() };
    assert_eq!(status.message(), "Ollama returned status: 404 Not Found");
    let status = AiError::Status { op: Operation::Embedding, status: "500".to_string() };
    assert_eq!(status.message(), "Ollama embedding returned status: 500");
    let status = AiError::Status { op: Operation::Generation, status: "502".to_string() };
    assert_eq!(status.message(), "Ollama generation returned status: 502");
    let parse = AiError::Parse { op: Operation::ListModels, detail: "eof".to_string() };
    assert_eq!(parse.message(), "Failed to parse Ollama response: eof");
    let parse = AiError::Parse { op: Operation::Embedding, detail: "eof".to_string() };
    assert_eq!(parse.message(), "Failed to parse embedding response: eof");
    let parse = AiError::Parse { op: Operation::Generation, detail: "eof".to_string() };
    assert_eq!(parse.message(), "Failed to parse generation response: eof");
}

#[test]
fn default_settings() {
    let settings = Settings::default();
    assert_eq!(settings.theme, "dark");
    assert_eq!(settings.ollama_base_url, "http://localhost:11434");
    assert_eq!(settings.llm_model, "qwen2.5-coder:7b");
    assert_eq!(settings.embedding_model, "nomic-embed-text");
    assert_eq!(settings.search_limit, 10);
    assert!(settings.data_path.is_none());
}
