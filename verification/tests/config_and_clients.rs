use rust_rag::config::{AppConfig, ConfigError, EnvVars};
use rust_rag::embeddings::EmbeddingClient;
use rust_rag::http::{Endpoint, EndpointError, Reply};
use rust_rag::langfuse::LangfuseClient;
use rust_rag::llm_client::{prompt, ChatMessage, LlmClient};

fn empty_vars() -> EnvVars {
    EnvVars {
        server_addr: None,
        database_url: None,
        redis_url: None,
        llm_base_url: None,
        llm_api_key: None,
        chat_model: None,
        embedding_model: None,
        embedding_dim: None,
        top_k: None,
        langfuse_base_url: None,
        langfuse_public_key: None,
        langfuse_secret_key: None,
    }
}

fn with_db() -> EnvVars {
    EnvVars { database_url: Some("postgres://db".to_string()), ..empty_vars() }
}

#[test]
fn defaults_fill_unset_variables() {
    let cfg = AppConfig::from_vars(with_db()).unwrap();
    assert_eq!(cfg.server_addr, "0.0.0.0:8080");
    assert_eq!(cfg.database_url, "postgres://db");
    assert_eq!(cfg.redis_url, "redis://127.0.0.1:6379/");
    assert_eq!(cfg.llm_base_url, "http://127.0.0.1:8000/v1");
    assert_eq!(cfg.llm_api_key, None);
    assert_eq!(cfg.chat_model, "qwen3.5");
    assert_eq!(cfg.embedding_model, "text-embedding-3-small");
    assert_eq!(cfg.embedding_dim, 1536);
    assert_eq!(cfg.top_k, 4);
    assert_eq!(cfg.langfuse_base_url, None);
}

#[test]
fn set_variables_are_used() {
    let vars = EnvVars {
        embedding_dim: Some("768".to_string()),
        top_k: Some("-2".to_string()),
        chat_model: Some("m".to_string()),
        llm_api_key: Some("k".to_string()),
        ..with_db()
    };
    let cfg = AppConfig::from_vars(vars).unwrap();
    assert_eq!(cfg.embedding_dim, 768);
    assert_eq!(cfg.top_k, -2);
    assert_eq!(cfg.chat_model, "m");
    assert_eq!(cfg.llm_api_key, Some("k".to_string()));
}

#[test]
fn database_url_is_required_first() {
    let vars = EnvVars { embedding_dim: Some("x".to_string()), ..empty_vars() };
    match AppConfig::from_vars(vars) {
        Err(e) => {
            assert!(matches!(&e, ConfigError::MissingVar(name) if name == "DATABASE_URL"));
            assert_eq!(e.message(), "DATABASE_URL must be set");
        }
        Ok(_) => panic!("expected an error"),
    }
}

#[test]
fn numbers_must_parse() {
    let vars = EnvVars { embedding_dim: Some("-1".to_string()), top_k: Some("x".to_string()), ..with_db() };
    let e = AppConfig::from_vars(vars).unwrap_err();
    assert!(matches!(e, ConfigError::InvalidEmbeddingDim));
    assert_eq!(e.message(), "EMBEDDING_DIM must be a positive integer");
    let vars = EnvVars { top_k: Some("4.5".to_string()), ..with_db() };
    let e = AppConfig::from_vars(vars).unwrap_err();
    assert!(matches!(e, ConfigError::InvalidTopK));
    assert_eq!(e.message(), "RAG_TOP_K must be an integer");
}

#[test]
fn embedding_client_requests() {
    let c = EmbeddingClient::new("http://llm:8000/v1/".to_string(), Some("sk".to_string()), "emb".to_string());
    assert_eq!(c.endpoint(), "http://llm:8000/v1/embeddings");
    assert_eq!(c.authorization(), Some("Bearer sk".to_string()));
    let r = c.request("hi");
    assert_eq!(r.model, "emb");
    assert_eq!(r.input, "hi");
    let c = EmbeddingClient::new("http://llm".to_string(), None, "emb".to_string());
    assert_eq!(c.authorization(), None);
}

#[test]
fn embedding_replies() {
    let ok: Reply<Vec<Vec<u8>>> = Reply::Parsed(vec![vec![1, 2], vec![3]]);
    assert_eq!(EmbeddingClient::vector_from_reply(ok).unwrap(), vec![1, 2]);
    let empty: Reply<Vec<Vec<u8>>> = Reply::Parsed(vec![]);
    let e = EmbeddingClient::vector_from_reply(empty).unwrap_err();
    assert_eq!(e.message(), "embeddings response did not include any vectors");
    let rejected: Reply<Vec<Vec<u8>>> = Reply::Rejected { status: "503 Service Unavailable".to_string(), body: "busy".to_string() };
    let e = EmbeddingClient::vector_from_reply(rejected).unwrap_err();
    assert_eq!(e.message(), "embedding API returned 503 Service Unavailable: busy");
    let e = EmbeddingClient::vector_from_reply(Reply::<Vec<Vec<u8>>>::Unreachable("refused".to_string())).unwrap_err();
    assert_eq!(e.message(), "embedding request failed");
    let e = EmbeddingClient::vector_from_reply(Reply::<Vec<Vec<u8>>>::Malformed("eof".to_string())).unwrap_err();
    assert!(matches!(&e, EndpointError::Malformed { endpoint: Endpoint::Embeddings, detail } if detail == "eof"));
    assert_eq!(e.message(), "failed to parse embeddings response JSON");
}

#[test]
fn chat_prompt_and_request() {
    assert_eq!(
        prompt("Why?", "Chunk 1 (score 0.900):\nBecause."),
        "You are a helpful assistant that answers strictly using the provided context.\n\nContext:\nChunk 1 (score 0.900):\nBecause.\n\nQuestion: Why?"
    );
    let c = LlmClient::new("http://llm/v1".to_string(), None, "qwen3.5".to_string());
    assert_eq!(c.endpoint(), "http://llm/v1/chat/completions");
    let r = c.request("q", "ctx");
    assert_eq!(r.model, "qwen3.5");
    assert_eq!(r.messages.len(), 1);
    assert_eq!(r.messages[0].role, "user");
    assert_eq!(r.messages[0].content, prompt("q", "ctx"));
}

#[test]
fn chat_replies() {
    let reply = Reply::Parsed(vec![
        ChatMessage { role: "assistant".to_string(), content: "first".to_string() },
        ChatMessage { role: "assistant".to_string(), content: "second".to_string() },
    ]);
    assert_eq!(LlmClient::answer_from_reply(reply).unwrap(), "first");
    let e = LlmClient::answer_from_reply(Reply::Parsed(vec![])).unwrap_err();
    assert_eq!(e.message(), "chat completion response did not include choices");
    let e = LlmClient::answer_from_reply(Reply::Rejected { status: "500 Internal Server Error".to_string(), body: "".to_string() }).unwrap_err();
    assert_eq!(e.message(), "chat completions API returned 500 Internal Server Error: ");
    let e = LlmClient::answer_from_reply(Reply::Unreachable("x".to_string())).unwrap_err();
    assert_eq!(e.message(), "chat completion request failed");
    let e = LlmClient::answer_from_reply(Reply::Malformed("x".to_string())).unwrap_err();
    assert_eq!(e.message(), "failed to parse chat completion response JSON");
}

#[test]
fn langfuse_credentials_and_target() {
    let vars = EnvVars {
        langfuse_base_url: Some("http://lf:3000/".to_string()),
        langfuse_public_key: Some("pk".to_string()),
        langfuse_secret_key: Some("sk".to_string()),
        ..with_db()
    };
    let cfg = AppConfig::from_vars(vars).unwrap();
    let client = LangfuseClient::from_config(&cfg);
    assert_eq!(client.auth_header, Some("Basic cGs6c2s=".to_string()));
    let target = client.ingestion_target().unwrap();
    assert_eq!(target.url, "http://lf:3000/api/public/ingestion");
    assert_eq!(target.authorization, "Basic cGs6c2s=");

    let vars = EnvVars {
        langfuse_base_url: Some("http://lf:3000".to_string()),
        langfuse_public_key: Some("pk".to_string()),
        ..with_db()
    };
    let client = LangfuseClient::from_config(&AppConfig::from_vars(vars).unwrap());
    assert_eq!(client.auth_header, None);
    assert!(client.ingestion_target().is_none());

    let vars = EnvVars {
        langfuse_public_key: Some("pk-lf-1".to_string()),
        langfuse_secret_key: Some("sk-lf-2".to_string()),
        ..with_db()
    };
    let client = LangfuseClient::from_config(&AppConfig::from_vars(vars).unwrap());
    assert_eq!(client.auth_header, Some("Basic cGstbGYtMTpzay1sZi0y".to_string()));
    assert!(client.ingestion_target().is_none());
}
