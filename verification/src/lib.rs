//! Verified core of a retrieval-augmented question answering service:
//! text chunking, cache keys, configuration, request building for the
//! model endpoints, and the decision steps of the ingest and query flows.

pub mod text;
pub mod chunking;
pub mod cache_key;
pub mod numbers;
pub mod config;
pub mod http;
pub mod embeddings;
pub mod llm_client;
pub mod langfuse;
pub mod store;
pub mod rag;
