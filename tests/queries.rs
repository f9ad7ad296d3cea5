use recallsnippet::models::{SnippetFilter, UpdateSettingsInput, UpdateSnippetInput};
use recallsnippet::queries::{list_query, update_settings_query, update_snippet_query, SettingValue};

const SELECT: &str = "SELECT id, title, problem, code_language, SUBSTR(code, 1, 200), created_at, is_favorite, is_deleted, deleted_at, last_accessed_at FROM snippets WHERE 1=1";

fn no_changes() -> UpdateSnippetInput {
    UpdateSnippetInput {
        title: None,
        problem: None,
        solution: None,
        code: None,
        code_language: None,
        reference_url: None,
        tag_ids: None,
    }
}

#[test]
fn default_listing_hides_deleted_newest_first() {
    let q = list_query(&SnippetFilter::default());
    assert_eq!(q.sql, format!("{} AND is_deleted = 0 ORDER BY created_at DESC", SELECT));
    assert!(q.params.is_empty());
}

#[test]
fn listing_by_language_and_search() {
    let filter = SnippetFilter {
        language: Some("Rust".to_string()),
        search: Some("borrow".to_string()),
        recent_first: Some(true),
        ..SnippetFilter::default()
    };
    let q = list_query(&filter);
    assert_eq!(
        q.sql,
        format!(
            "{} AND LOWER(code_language) = LOWER(?) AND (title LIKE ? OR problem LIKE ?) AND is_deleted = 0 ORDER BY last_accessed_at DESC",
            SELECT
        )
    );
    assert_eq!(q.params, vec!["Rust", "%borrow%", "%borrow%"]);
}

#[test]
fn trash_view_ignores_favourites() {
    let filter = SnippetFilter { trash_only: Some(true), favorites_only: Some(true), ..SnippetFilter::default() };
    assert_eq!(list_query(&filter).sql, format!("{} AND is_deleted = 1 ORDER BY created_at DESC", SELECT));
}

#[test]
fn favourites_including_deleted() {
    let filter = SnippetFilter {
        favorites_only: Some(true),
        include_deleted: Some(true),
        trash_only: Some(false),
        ..SnippetFilter::default()
    };
    assert_eq!(list_query(&filter).sql, format!("{} AND is_favorite = 1 ORDER BY created_at DESC", SELECT));
}

#[test]
fn update_without_column_changes_writes_nothing() {
    assert!(update_snippet_query("id1", &no_changes()).is_none());
    let tags_only = UpdateSnippetInput { tag_ids: Some(vec!["t".to_string()]), ..no_changes() };
    assert!(update_snippet_query("id1", &tags_only).is_none());
}

#[test]
fn update_sets_given_columns_in_order() {
    let input = UpdateSnippetInput {
        title: Some("New Title".to_string()),
        code: Some("fn main() {}".to_string()),
        reference_url: Some("http://x".to_string()),
        ..no_changes()
    };
    let q = update_snippet_query("id1", &input).unwrap();
    assert_eq!(
        q.sql,
        "UPDATE snippets SET title = ?, code = ?, reference_url = ?, updated_at = CURRENT_TIMESTAMP WHERE id = ?"
    );
    assert_eq!(q.params, vec!["New Title", "fn main() {}", "http://x", "id1"]);
}

fn no_settings() -> UpdateSettingsInput {
    UpdateSettingsInput {
        theme: None,
        ollama_base_url: None,
        llm_model: None,
        embedding_model: None,
        search_limit: None,
        data_path: None,
    }
}

#[test]
fn settings_update_without_changes_writes_nothing() {
    assert!(update_settings_query(&no_settings()).is_none());
}

#[test]
fn settings_update_numbers_placeholders() {
    let input = UpdateSettingsInput {
        llm_model: Some("llama3:8b".to_string()),
        search_limit: Some(20),
        ..no_settings()
    };
    let q = update_settings_query(&input).unwrap();
    assert_eq!(q.sql, "UPDATE settings SET llm_model = ?1, search_limit = ?2 WHERE id = 1");
    assert_eq!(q.params.len(), 2);
    assert!(matches!(&q.params[0], SettingValue::Text(v) if v == "llama3:8b"));
    assert!(matches!(&q.params[1], SettingValue::Integer(20)));
}

#[test]
fn settings_update_all_fields() {
    let input = UpdateSettingsInput {
        theme: Some("light".to_string()),
        ollama_base_url: Some("http://remote:11434".to_string()),
        llm_model: Some("mistral:7b".to_string()),
        embedding_model: Some("all-minilm".to_string()),
        search_limit: Some(5),
        data_path: Some("/custom/path".to_string()),
    };
    let q = update_settings_query(&input).unwrap();
    assert_eq!(
        q.sql,
        "UPDATE settings SET theme = ?1, ollama_base_url = ?2, llm_model = ?3, embedding_model = ?4, search_limit = ?5, data_path = ?6 WHERE id = 1"
    );
    assert_eq!(q.params.len(), 6);
    assert!(matches!(&q.params[5], SettingValue::Text(v) if v == "/custom/path"));
}
