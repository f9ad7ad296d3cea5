//! Embedding-backed semantic retrieval for a personal snippet knowledge base:
//! the text that is embedded for a snippet, the stored form of an embedding,
//! the ranking of stored embeddings against a query, and the assembly of a
//! retrieval-augmented chat prompt with its cited sources.

pub mod chat;
pub mod client;
pub mod codec;
pub mod models;
pub mod queries;
pub mod ranking;
pub mod tags;
pub mod text;
