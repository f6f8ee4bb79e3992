# rust_rag

The verified core of a small retrieval-augmented question answering
service (HTTP API, Postgres with pgvector, Redis answer cache, an
OpenAI-compatible model endpoint, Langfuse tracing).

`src/` is the library, checked by Verus:

- `text`, `numbers`: character helpers (Unicode trimming, decimal
  notation, integer parsing with the rules of `str::parse`).
- `chunking`: `chunk_text`, which cuts a document into overlapping windows
  of characters, with proofs of the chunk sizes, the overlap, the chunk
  count and that the chunks cover the trimmed text exactly.
- `cache_key`: answer cache keys (`rag:answer:` and the SHA-256 hex digest).
- `config`: the settings, read from the values of the environment variables.
- `http`, `embeddings`, `llm_client`, `langfuse`: what the clients send
  (addresses, credentials, request bodies, the grounded prompt) and what a
  reply comes to.
- `store`: the SQL statements, with the schema sized to the embeddings.
- `rag`: the ingest and query flows as chains of stages, each deciding
  on the outcome of one piece of outside work, with the law that a repeated
  question is answered from the cache.

`app/` is the server around it: axum routes, the HTTP, Redis and Postgres
calls, and the loops that drive the flows.
