use rust_rag::cache_key::make_cache_key;
use rust_rag::config::{AppConfig, EnvVars};
use rust_rag::rag::{
    build_context, AfterAnswer, AfterCacheRead, AfterEmbedding, AfterSearch, AfterStore,
    IngestRun, Passage, QueryReply, QueryRun, RagError,
};

fn config() -> AppConfig {
    AppConfig::from_vars(EnvVars {
        server_addr: None,
        database_url: Some("postgres://db".to_string()),
        redis_url: None,
        llm_base_url: None,
        llm_api_key: None,
        chat_model: None,
        embedding_model: None,
        embedding_dim: Some("3".to_string()),
        top_k: None,
        langfuse_base_url: None,
        langfuse_public_key: None,
        langfuse_secret_key: None,
    })
    .unwrap()
}

fn passage(content: &str, score: &str) -> Passage {
    Passage { content: content.to_string(), score: score.to_string() }
}

/// Runs a query whose cache read gives `cached`, up to its end.
fn run_query(question: &str, cached: Option<String>) -> (Result<QueryReply, RagError>, Option<(String, String, u64)>) {
    let run = QueryRun::start(&config(), question.to_string());
    let run = match run.on_cache_read(Ok(cached)) {
        AfterCacheRead::Answered(reply) => return (Ok(reply), None),
        AfterCacheRead::Embed(run) => run,
        AfterCacheRead::Failed(e) => return (Err(e), None),
    };
    let run = match run.on_embedding(Ok(3)) {
        AfterEmbedding::Search(run) => run,
        AfterEmbedding::Failed(e) => return (Err(e), None),
    };
    assert_eq!(run.top_k, 4);
    let generation = match run.on_search(Ok(vec![passage("Pgvector enables vector similarity search.", "0.912")])) {
        AfterSearch::Generate(g) => g,
        AfterSearch::Failed(e) => return (Err(e), None),
    };
    let store = match generation.on_answer(Ok("It searches vectors.".to_string())) {
        AfterAnswer::Store(s) => s,
        AfterAnswer::Failed(e) => return (Err(e), None),
    };
    let written = (store.run.cache_key.clone(), store.answer.clone(), store.ttl_seconds);
    let trace = match store.on_stored(Ok(())) {
        AfterStore::Trace(t) => t,
        AfterStore::Failed(e) => return (Err(e), None),
    };
    (trace.on_traced(Ok(())), Some(written))
}

#[test]
fn context_numbers_passages_from_one() {
    assert_eq!(build_context(&vec![]), "");
    assert_eq!(build_context(&vec![passage("alpha", "0.900")]), "Chunk 1 (score 0.900):\nalpha");
    assert_eq!(
        build_context(&vec![passage("alpha", "0.900"), passage("beta", "0.750"), passage("gamma", "0.125")]),
        "Chunk 1 (score 0.900):\nalpha\n\nChunk 2 (score 0.750):\nbeta\n\nChunk 3 (score 0.125):\ngamma"
    );
}

#[test]
fn query_cache_key_is_the_question_key() {
    let run = QueryRun::start(&config(), "What does pgvector do?".to_string());
    assert_eq!(run.cache_key, make_cache_key("What does pgvector do?"));
    assert_eq!(run.embedding_dim, 3);
}

#[test]
fn a_miss_is_answered_grounded_and_cached() {
    let (reply, written) = run_query("What does pgvector do?", None);
    let reply = reply.unwrap();
    assert_eq!(reply.answer, "It searches vectors.");
    assert!(!reply.cache_hit);
    assert_eq!(reply.retrieved, 1);
    let (key, answer, ttl) = written.unwrap();
    assert_eq!(key, make_cache_key("What does pgvector do?"));
    assert_eq!(answer, "It searches vectors.");
    assert_eq!(ttl, 180);
}

#[test]
fn law_repeated_question_hits_cache() {
    let mut cache = std::collections::HashMap::new();
    let (first, written) = run_query("What does pgvector do?", None);
    assert!(!first.unwrap().cache_hit);
    let (key, answer, _) = written.unwrap();
    cache.insert(key, answer);
    let again = QueryRun::start(&config(), "What does pgvector do?".to_string());
    let cached = cache.get(&again.cache_key).cloned();
    let (second, written) = run_query("What does pgvector do?", cached);
    let second = second.unwrap();
    assert!(second.cache_hit);
    assert_eq!(second.answer, "It searches vectors.");
    assert_eq!(second.retrieved, 0);
    assert!(written.is_none());
}

#[test]
fn query_failures_carry_their_messages() {
    let run = QueryRun::start(&config(), "q".to_string());
    match run.clone().on_cache_read(Err("connection refused".to_string())) {
        AfterCacheRead::Failed(e) => assert_eq!(e.message(), "connection refused"),
        _ => panic!("expected a failure"),
    }
    match run.clone().on_embedding(Ok(1536)) {
        AfterEmbedding::Failed(e) => {
            assert!(matches!(e, RagError::DimensionMismatch { expected: 3, got: 1536 }));
            assert_eq!(e.message(), "embedding dimension mismatch: expected 3, got 1536");
        }
        _ => panic!("expected a failure"),
    }
    match run.clone().on_embedding(Err("timeout".to_string())) {
        AfterEmbedding::Failed(e) => assert_eq!(e.message(), "failed creating query embedding"),
        _ => panic!("expected a failure"),
    }
    match run.clone().on_search(Err("db down".to_string())) {
        AfterSearch::Failed(e) => assert_eq!(e.message(), "failed searching relevant chunks"),
        _ => panic!("expected a failure"),
    }
    let generation = match run.clone().on_search(Ok(vec![])) {
        AfterSearch::Generate(g) => g,
        _ => panic!("expected a generation"),
    };
    assert_eq!(generation.context, "");
    assert_eq!(generation.retrieved, 0);
    match generation.on_answer(Err("500".to_string())) {
        AfterAnswer::Failed(e) => assert_eq!(e.message(), "failed generating answer"),
        _ => panic!("expected a failure"),
    }
    assert_eq!(RagError::CacheStore("x".to_string()).message(), "failed storing answer in cache");
    assert_eq!(RagError::Trace("t".to_string()).message(), "t");
    assert_eq!(RagError::ChunkEmbedding("x".to_string()).message(), "failed creating chunk embedding");
    assert_eq!(RagError::Storage("x".to_string()).message(), "failed storing ingested document");
}

#[test]
fn ingest_embeds_every_chunk_then_stores() {
    let text: String = std::iter::repeat('a').take(1200).collect();
    let mut run = IngestRun::start("doc-1".to_string(), text);
    assert_eq!(run.chunks.len(), 3);
    let mut asked = Vec::new();
    while let Some(chunk) = run.next_chunk() {
        asked.push(chunk);
        run = run.on_embedding(Ok(())).unwrap();
    }
    assert_eq!(asked, run.chunks);
    let trace = run.on_stored(Ok("3f1c".to_string())).unwrap();
    assert_eq!(trace.source_id, "doc-1");
    let reply = trace.on_traced(Ok(())).unwrap();
    assert_eq!(reply.document_id, "3f1c");
    assert_eq!(reply.chunk_count, 3);
}

#[test]
fn ingest_of_blank_text_stores_no_chunks() {
    let run = IngestRun::start("empty".to_string(), "  \n ".to_string());
    assert!(run.next_chunk().is_none());
    let reply = run.on_stored(Ok("d".to_string())).unwrap().on_traced(Ok(())).unwrap();
    assert_eq!(reply.chunk_count, 0);
}

#[test]
fn ingest_failures() {
    let run = IngestRun::start("s".to_string(), "some text".to_string());
    match run.on_embedding(Err("down".to_string())) {
        Err(e) => assert_eq!(e.message(), "failed creating chunk embedding"),
        Ok(_) => panic!("expected a failure"),
    }
    let run = IngestRun::start("s".to_string(), "some text".to_string());
    match run.on_stored(Err("tx".to_string())) {
        Err(e) => assert_eq!(e.message(), "failed storing ingested document"),
        Ok(_) => panic!("expected a failure"),
    }
}
