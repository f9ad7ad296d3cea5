//! The records that the retrieval engine reads and produces.

use vstd::prelude::*;

verus! {

/// A label attached to snippets.
#[derive(Clone, Debug)]
pub struct Tag {
    pub id: String,
    pub name: String,
}

/// A problem/solution note as the store holds it.
#[derive(Clone, Debug)]
pub struct Snippet {
    pub id: String,
    pub title: String,
    pub problem: String,
    pub solution: Option<String>,
    pub code: Option<String>,
    pub code_language: Option<String>,
    pub reference_url: Option<String>,
    pub tags: Vec<Tag>,
    pub created_at: String,
    pub updated_at: String,
    pub is_favorite: bool,
    pub is_deleted: bool,
    pub deleted_at: Option<String>,
    pub last_accessed_at: Option<String>,
}

/// A snippet as listed or returned by a search: its code is cut to a preview.
#[derive(Clone, Debug)]
pub struct SnippetSummary {
    pub id: String,
    pub title: String,
    pub problem: String,
    pub code_language: Option<String>,
    pub code_preview: Option<String>,
    pub tags: Vec<Tag>,
    pub created_at: String,
    pub is_favorite: bool,
    pub is_deleted: bool,
    pub deleted_at: Option<String>,
    pub last_accessed_at: Option<String>,
}

/// The snippet the user is looking at while chatting.
#[derive(Clone, Debug)]
pub struct SnippetContext {
    pub title: String,
    pub problem: String,
    pub solution: Option<String>,
    pub code: Option<String>,
}

/// A snippet cited as a source of a chat answer, with its similarity score
/// (the bit pattern of the `f64`).
#[derive(Clone, Debug)]
pub struct SnippetSource {
    pub id: String,
    pub title: String,
    pub score_bits: u64,
}

/// A generated answer and the snippets it cites, best first.
#[derive(Clone, Debug)]
pub struct AiChatResponse {
    pub answer: String,
    pub sources: Vec<SnippetSource>,
}

/// One result of a semantic search, with its similarity score (the bit
/// pattern of the `f64`).
#[derive(Clone, Debug)]
pub struct SearchResult {
    pub snippet: SnippetSummary,
    pub score_bits: u64,
}

/// Fields of a new snippet.
#[derive(Clone, Debug)]
pub struct CreateSnippetInput {
    pub title: String,
    pub problem: String,
    pub solution: Option<String>,
    pub code: Option<String>,
    pub code_language: Option<String>,
    pub reference_url: Option<String>,
    pub tag_ids: Vec<String>,
}

/// Fields of a snippet to change; `None` leaves a field as it is.
#[derive(Clone, Debug)]
pub struct UpdateSnippetInput {
    pub title: Option<String>,
    pub problem: Option<String>,
    pub solution: Option<String>,
    pub code: Option<String>,
    pub code_language: Option<String>,
    pub reference_url: Option<String>,
    pub tag_ids: Option<Vec<String>>,
}

/// Which snippets a listing shows and in what order.
#[derive(Clone, Debug, Default)]
pub struct SnippetFilter {
    pub language: Option<String>,
    pub search: Option<String>,
    pub favorites_only: Option<bool>,
    pub trash_only: Option<bool>,
    pub include_deleted: Option<bool>,
    pub recent_first: Option<bool>,
}

/// Application configuration: where the model service is and which models
/// to use.
#[derive(Clone, Debug)]
pub struct Settings {
    pub theme: String,
    pub ollama_base_url: String,
    pub llm_model: String,
    pub embedding_model: String,
    pub search_limit: i32,
    pub data_path: Option<String>,
}

impl Default for Settings {
    fn default() -> (r: Settings)
        ensures
            r.theme@ == "dark"@,
            r.ollama_base_url@ == "http://localhost:11434"@,
            r.llm_model@ == "qwen2.5-coder:7b"@,
            r.embedding_model@ == "nomic-embed-text"@,
            r.search_limit == 10,
            r.data_path is None,
    {
        Settings {
            theme: String::from_str("dark"),
            ollama_base_url: String::from_str("http://localhost:11434"),
            llm_model: String::from_str("qwen2.5-coder:7b"),
            embedding_model: String::from_str("nomic-embed-text"),
            search_limit: 10,
            data_path: None,
        }
    }
}

/// Settings to change; `None` leaves a setting as it is.
#[derive(Clone, Debug)]
pub struct UpdateSettingsInput {
    pub theme: Option<String>,
    pub ollama_base_url: Option<String>,
    pub llm_model: Option<String>,
    pub embedding_model: Option<String>,
    pub search_limit: Option<i32>,
    pub data_path: Option<String>,
}

} // verus!
