//! The statements of the vector store: its schema, sized for the
//! embeddings in use, and the statements that write and search it.

use vstd::prelude::*;

use crate::numbers::{lemma_signed_decimal_reads_back, signed_value};
use crate::text::{push_signed_decimal, signed_decimal};

verus! {

pub const CREATE_VECTOR_EXTENSION: &'static str = "CREATE EXTENSION IF NOT EXISTS vector;";

pub const CREATE_DOCUMENTS_TABLE: &'static str = "\n            CREATE TABLE IF NOT EXISTS documents (\n                id UUID PRIMARY KEY,\n                source_id TEXT NOT NULL UNIQUE,\n                content TEXT NOT NULL,\n                created_at TIMESTAMPTZ NOT NULL DEFAULT NOW()\n            );\n        ";

pub const CREATE_CHUNKS_TABLE_HEAD: &'static str = "\n            CREATE TABLE IF NOT EXISTS chunks (\n                id UUID PRIMARY KEY,\n                document_id UUID NOT NULL REFERENCES documents(id) ON DELETE CASCADE,\n                content TEXT NOT NULL,\n                embedding VECTOR(";

pub const CREATE_CHUNKS_TABLE_TAIL: &'static str = ") NOT NULL,\n                created_at TIMESTAMPTZ NOT NULL DEFAULT NOW()\n            );\n        ";

pub const CREATE_EMBEDDING_INDEX: &'static str = "CREATE INDEX IF NOT EXISTS chunks_embedding_idx ON chunks USING ivfflat (embedding vector_cosine_ops) WITH (lists = 100);";

pub const DELETE_DOCUMENT_BY_SOURCE: &'static str = "DELETE FROM documents WHERE source_id = $1";

pub const INSERT_DOCUMENT: &'static str = "INSERT INTO documents (id, source_id, content) VALUES ($1, $2, $3)";

pub const INSERT_CHUNK: &'static str = "INSERT INTO chunks (id, document_id, content, embedding) VALUES ($1, $2, $3, $4)";

pub const SEARCH_CHUNKS: &'static str = "\n            SELECT id, content, 1 - (embedding <=> $1) AS score\n            FROM chunks\n            ORDER BY embedding <=> $1\n            LIMIT $2\n            ";

/// The statement that creates the chunks table, whose vectors have
/// `embedding_dim` dimensions.
pub open spec fn chunks_table_sql(embedding_dim: int) -> Seq<char> {
    CREATE_CHUNKS_TABLE_HEAD@ + signed_decimal(embedding_dim) + CREATE_CHUNKS_TABLE_TAIL@
}

/// The statements that set up the store, in the order they run.
pub open spec fn schema_sql(embedding_dim: int) -> Seq<Seq<char>> {
    seq![
        CREATE_VECTOR_EXTENSION@,
        CREATE_DOCUMENTS_TABLE@,
        chunks_table_sql(embedding_dim),
        CREATE_EMBEDDING_INDEX@,
    ]
}

/// The statements that set up the store for embeddings of
/// `embedding_dim` dimensions: the vector extension, the documents table,
/// the chunks table and its similarity index.
pub fn schema_statements(embedding_dim: i32) -> (stmts: Vec<String>)
    ensures
        stmts@.map_values(|s: String| s@) == schema_sql(embedding_dim as int),
        stmts@.len() == 4,
        stmts@[0]@ == CREATE_VECTOR_EXTENSION@,
        stmts@[1]@ == CREATE_DOCUMENTS_TABLE@,
        stmts@[3]@ == CREATE_EMBEDDING_INDEX@,
        ({
            let t = stmts@[2]@;
            let h = CREATE_CHUNKS_TABLE_HEAD@.len();
            let k = CREATE_CHUNKS_TABLE_TAIL@.len();
            &&& t.len() >= h + k
            &&& t.subrange(0, h as int) == CREATE_CHUNKS_TABLE_HEAD@
            &&& t.subrange(t.len() - k, t.len() as int) == CREATE_CHUNKS_TABLE_TAIL@
            &&& signed_value(t.subrange(h as int, t.len() - k)) == Some(embedding_dim as int)
        }),
{
    let mut chunks = CREATE_CHUNKS_TABLE_HEAD.to_owned();
    push_signed_decimal(&mut chunks, embedding_dim);
    chunks.append(CREATE_CHUNKS_TABLE_TAIL);
    let mut stmts: Vec<String> = Vec::new();
    stmts.push(CREATE_VECTOR_EXTENSION.to_owned());
    stmts.push(CREATE_DOCUMENTS_TABLE.to_owned());
    stmts.push(chunks);
    stmts.push(CREATE_EMBEDDING_INDEX.to_owned());
    assert(stmts@.map_values(|s: String| s@) =~= schema_sql(embedding_dim as int));
    proof {
        lemma_chunks_table_sizes_vectors(embedding_dim as int);
    }
    stmts
}


/// The chunks table's vectors have exactly the requested number of
/// dimensions: between the statement's fixed head and tail stands text that
/// reads back, as a signed decimal number, to that number.
pub proof fn lemma_chunks_table_sizes_vectors(embedding_dim: int)
    ensures
        ({
            let t = chunks_table_sql(embedding_dim);
            let h = CREATE_CHUNKS_TABLE_HEAD@.len();
            let k = CREATE_CHUNKS_TABLE_TAIL@.len();
            &&& t.len() >= h + k
            &&& t.subrange(0, h as int) == CREATE_CHUNKS_TABLE_HEAD@
            &&& t.subrange(t.len() - k, t.len() as int) == CREATE_CHUNKS_TABLE_TAIL@
            &&& signed_value(t.subrange(h as int, t.len() - k)) == Some(embedding_dim)
        }),
{
    let t = chunks_table_sql(embedding_dim);
    let h = CREATE_CHUNKS_TABLE_HEAD@.len() as int;
    let k = CREATE_CHUNKS_TABLE_TAIL@.len() as int;
    let mid = signed_decimal(embedding_dim);
    assert(t.subrange(0, h) =~= CREATE_CHUNKS_TABLE_HEAD@);
    assert(t.subrange(t.len() - k, t.len() as int) =~= CREATE_CHUNKS_TABLE_TAIL@);
    assert(t.subrange(h, t.len() - k) =~= mid);
    lemma_signed_decimal_reads_back(embedding_dim);
}

} // verus!
