//! The decisions of the two flows of the service. Each flow is a chain of
//! stages; the caller performs the outside work a stage asks for (a cache
//! read, an embedding, a search, an answer, a write, a trace) and hands its
//! outcome to the stage, which decides what comes next.

use vstd::prelude::*;

use crate::cache_key::{cache_key, lower_hex, make_cache_key, sha256, ANSWER_KEY_PREFIX};
use vstd::utf8::encode_utf8;
use crate::chunking::{chunk_text, chunks, string_views};
use crate::config::AppConfig;
use crate::numbers::{digits_value, is_digit_run, lemma_decimal_reads_back};
use crate::text::{decimal, push_decimal};

verus! {

/// Characters per chunk of an ingested document.
pub const INGEST_CHUNK_CHARS: usize = 600;

/// Characters that consecutive chunks of an ingested document share.
pub const INGEST_CHUNK_OVERLAP: usize = 100;

/// How long a cached answer lives, in seconds.
pub const ANSWER_TTL_SECONDS: u64 = 180;

/// Why a flow failed. The variants that carry text hold the message of the
/// outside failure underneath.
#[derive(Clone, Debug)]
pub enum RagError {
    /// Reading the answer cache failed.
    Cache(String),
    /// Embedding the question failed.
    QueryEmbedding(String),
    /// The question's embedding does not have the configured number of
    /// dimensions.
    DimensionMismatch { expected: usize, got: usize },
    /// Searching the store failed.
    Search(String),
    /// Generating the answer failed.
    Generation(String),
    /// Writing the answer to the cache failed.
    CacheStore(String),
    /// Recording the trace failed.
    Trace(String),
    /// Embedding a chunk of a document failed.
    ChunkEmbedding(String),
    /// Writing a document and its chunks failed.
    Storage(String),
}

/// What the message of a flow error says.
pub open spec fn rag_error_message(e: RagError) -> Seq<char> {
    match e {
        RagError::Cache(d) => d@,
        RagError::QueryEmbedding(_) => "failed creating query embedding"@,
        RagError::DimensionMismatch { expected, got } => "embedding dimension mismatch: expected "@
            + decimal(expected as nat) + ", got "@ + decimal(got as nat),
        RagError::Search(_) => "failed searching relevant chunks"@,
        RagError::Generation(_) => "failed generating answer"@,
        RagError::CacheStore(_) => "failed storing answer in cache"@,
        RagError::Trace(d) => d@,
        RagError::ChunkEmbedding(_) => "failed creating chunk embedding"@,
        RagError::Storage(_) => "failed storing ingested document"@,
    }
}

impl RagError {
    /// The error's message.
    pub fn message(&self) -> (m: String)
        ensures
            m@ == rag_error_message(*self),
    {
        match self {
            RagError::Cache(d) => d.clone(),
            RagError::QueryEmbedding(_) => "failed creating query embedding".to_owned(),
            RagError::DimensionMismatch { expected, got } => {
                let mut m = "embedding dimension mismatch: expected ".to_owned();
                push_decimal(&mut m, *expected as u64);
                m.append(", got ");
                push_decimal(&mut m, *got as u64);
                m
            },
            RagError::Search(_) => "failed searching relevant chunks".to_owned(),
            RagError::Generation(_) => "failed generating answer".to_owned(),
            RagError::CacheStore(_) => "failed storing answer in cache".to_owned(),
            RagError::Trace(d) => d.clone(),
            RagError::ChunkEmbedding(_) => "failed creating chunk embedding".to_owned(),
            RagError::Storage(_) => "failed storing ingested document".to_owned(),
        }
    }
}

/// A retrieved chunk as the answer's context shows it: its text and its
/// similarity score, already written with three decimals.
#[derive(Clone, Debug)]
pub struct Passage {
    pub content: String,
    pub score: String,
}

/// How the passage at `index` is shown in the context.
pub open spec fn passage_text(index: nat, p: Passage) -> Seq<char> {
    "Chunk "@ + decimal(index + 1) + " (score "@ + p.score@ + "):\n"@ + p.content@
}

/// The context of an answer: the passages in order, numbered from one,
/// separated by blank lines.
pub open spec fn context_text(ps: Seq<Passage>) -> Seq<char>
    decreases ps.len(),
{
    if ps.len() == 0 {
        seq![]
    } else if ps.len() == 1 {
        passage_text(0, ps[0])
    } else {
        context_text(ps.drop_last()) + "\n\n"@ + passage_text((ps.len() - 1) as nat, ps.last())
    }
}

/// The context that the passages make.
pub fn build_context(passages: &Vec<Passage>) -> (c: String)
    ensures
        c@ == context_text(passages@),
{
    let mut c = String::new();
    let mut i: usize = 0;
    assert(passages@.subrange(0, 0) =~= Seq::<Passage>::empty());
    while i < passages.len()
        invariant
            i <= passages.len(),
            c@ == context_text(passages@.subrange(0, i as int)),
        decreases passages.len() - i,
    {
        let ghost before = c@;
        if i > 0 {
            c.append("\n\n");
        }
        c.append("Chunk ");
        push_decimal(&mut c, (i + 1) as u64);
        c.append(" (score ");
        c.append(passages[i].score.as_str());
        c.append("):\n");
        c.append(passages[i].content.as_str());
        proof {
            let next = passages@.subrange(0, i + 1);
            assert(next.drop_last() =~= passages@.subrange(0, i as int));
            assert(next.last() == passages@[i as int]);
            if i == 0 {
                assert(c@ =~= passage_text(0, passages@[0]));
            } else {
                assert(c@ =~= before + "\n\n"@ + passage_text(i as nat, passages@[i as int]));
            }
        }
        i = i + 1;
    }
    assert(passages@.subrange(0, i as int) =~= passages@);
    c
}

/// The answer to a question.
#[derive(Clone, Debug)]
pub struct QueryReply {
    pub answer: String,
    /// Whether the answer came from the cache.
    pub cache_hit: bool,
    /// How many chunks the answer was grounded on (none for a cached one).
    pub retrieved: usize,
}

/// A query in progress: the question, the key its answer is cached under,
/// and the settings it runs with.
#[derive(Clone, Debug)]
pub struct QueryRun {
    pub question: String,
    pub cache_key: String,
    pub embedding_dim: usize,
    pub top_k: i64,
}

impl QueryRun {
    /// Whether the cache key is the key of the question.
    pub open spec fn wf(&self) -> bool {
        self.cache_key@ == cache_key(self.question@)
    }
}

/// What follows the cache read.
#[derive(Debug)]
pub enum AfterCacheRead {
    /// The cache held an answer.
    Answered(QueryReply),
    /// Nothing was cached: embed the question.
    Embed(QueryRun),
    Failed(RagError),
}

/// What follows the embedding of the question.
#[derive(Debug)]
pub enum AfterEmbedding {
    /// Search the store for the run's `top_k` nearest chunks.
    Search(QueryRun),
    Failed(RagError),
}

/// A query whose chunks were found: ask for an answer to the question about
/// the context.
#[derive(Debug)]
pub struct Generation {
    pub run: QueryRun,
    pub context: String,
    pub retrieved: usize,
}

/// What follows the search.
#[derive(Debug)]
pub enum AfterSearch {
    Generate(Generation),
    Failed(RagError),
}

/// An answer to write to the cache under the run's key, for `ttl_seconds`.
#[derive(Debug)]
pub struct AnswerToStore {
    pub run: QueryRun,
    pub answer: String,
    pub retrieved: usize,
    pub ttl_seconds: u64,
}

/// What follows the answer.
#[derive(Debug)]
pub enum AfterAnswer {
    Store(AnswerToStore),
    Failed(RagError),
}

/// An answered query to trace.
#[derive(Debug)]
pub struct QueryTrace {
    pub run: QueryRun,
    pub answer: String,
    pub retrieved: usize,
}

/// What follows the cache write.
#[derive(Debug)]
pub enum AfterStore {
    Trace(QueryTrace),
    Failed(RagError),
}

/// What a cache read decides.
pub open spec fn cache_read_outcome(run: QueryRun, read: Result<Option<String>, String>) -> AfterCacheRead {
    match read {
        Err(e) => AfterCacheRead::Failed(RagError::Cache(e)),
        Ok(Some(answer)) => AfterCacheRead::Answered(
            QueryReply { answer, cache_hit: true, retrieved: 0 },
        ),
        Ok(None) => AfterCacheRead::Embed(run),
    }
}

impl QueryRun {
    /// Starts answering `question` with the given settings: read the cache
    /// under the returned run's key first.
    pub fn start(config: &AppConfig, question: String) -> (run: QueryRun)
        ensures
            run.wf(),
            run.cache_key@ == ANSWER_KEY_PREFIX@ + lower_hex(sha256(encode_utf8(question@))),
            run.question == question,
            run.embedding_dim == config.embedding_dim,
            run.top_k == config.top_k,
    {
        let cache_key = make_cache_key(question.as_str());
        QueryRun { question, cache_key, embedding_dim: config.embedding_dim, top_k: config.top_k }
    }

    /// Decides on the outcome of the cache read: a cached answer ends the
    /// query as a cache hit, a miss goes on to embed the question.
    pub fn on_cache_read(self, read: Result<Option<String>, String>) -> (r: AfterCacheRead)
        ensures
            r == cache_read_outcome(self, read),
            read == Ok::<Option<String>, String>(None) ==> r == AfterCacheRead::Embed(self),
            read matches Ok(Some(answer)) ==> r == AfterCacheRead::Answered(
                QueryReply { answer, cache_hit: true, retrieved: 0 },
            ),
            read matches Err(e) ==> r == AfterCacheRead::Failed(RagError::Cache(e)),
    {
        match read {
            Err(e) => AfterCacheRead::Failed(RagError::Cache(e)),
            Ok(Some(answer)) => AfterCacheRead::Answered(
                QueryReply { answer, cache_hit: true, retrieved: 0 },
            ),
            Ok(None) => AfterCacheRead::Embed(self),
        }
    }

    /// Decides on the embedding of the question, given its number of
    /// dimensions: it must be the configured one.
    pub fn on_embedding(self, embedded: Result<usize, String>) -> (r: AfterEmbedding)
        ensures
            embedded matches Err(e) ==> r == AfterEmbedding::Failed(RagError::QueryEmbedding(e)),
            embedded matches Ok(n) ==> (if n == self.embedding_dim {
                r == AfterEmbedding::Search(self)
            } else {
                r == AfterEmbedding::Failed(
                    RagError::DimensionMismatch { expected: self.embedding_dim, got: n },
                )
            }),
    {
        match embedded {
            Err(e) => AfterEmbedding::Failed(RagError::QueryEmbedding(e)),
            Ok(n) => if n == self.embedding_dim {
                AfterEmbedding::Search(self)
            } else {
                let expected = self.embedding_dim;
                AfterEmbedding::Failed(RagError::DimensionMismatch { expected, got: n })
            },
        }
    }

    /// Decides on the search: the passages found become the context of the
    /// answer.
    pub fn on_search(self, found: Result<Vec<Passage>, String>) -> (r: AfterSearch)
        ensures
            found matches Err(e) ==> r == AfterSearch::Failed(RagError::Search(e)),
            found matches Ok(ps) ==> (r matches AfterSearch::Generate(g) && g.run == self
                && g.context@ == context_text(ps@) && g.retrieved == ps.len()),
    {
        match found {
            Err(e) => AfterSearch::Failed(RagError::Search(e)),
            Ok(ps) => {
                let context = build_context(&ps);
                AfterSearch::Generate(Generation { run: self, context, retrieved: ps.len() })
            },
        }
    }
}

impl Generation {
    /// Decides on the answer: a generated answer is cached next.
    pub fn on_answer(self, answer: Result<String, String>) -> (r: AfterAnswer)
        ensures
            answer matches Err(e) ==> r == AfterAnswer::Failed(RagError::Generation(e)),
            answer matches Ok(a) ==> r == AfterAnswer::Store(
                AnswerToStore {
                    run: self.run,
                    answer: a,
                    retrieved: self.retrieved,
                    ttl_seconds: ANSWER_TTL_SECONDS,
                },
            ),
    {
        match answer {
            Err(e) => AfterAnswer::Failed(RagError::Generation(e)),
            Ok(a) => AfterAnswer::Store(
                AnswerToStore {
                    run: self.run,
                    answer: a,
                    retrieved: self.retrieved,
                    ttl_seconds: ANSWER_TTL_SECONDS,
                },
            ),
        }
    }
}

impl AnswerToStore {
    /// Decides on the cache write: a stored answer is traced next.
    pub fn on_stored(self, stored: Result<(), String>) -> (r: AfterStore)
        ensures
            stored matches Err(e) ==> r == AfterStore::Failed(RagError::CacheStore(e)),
            stored is Ok ==> r == AfterStore::Trace(
                QueryTrace { run: self.run, answer: self.answer, retrieved: self.retrieved },
            ),
    {
        match stored {
            Err(e) => AfterStore::Failed(RagError::CacheStore(e)),
            Ok(()) => AfterStore::Trace(
                QueryTrace { run: self.run, answer: self.answer, retrieved: self.retrieved },
            ),
        }
    }
}

impl QueryTrace {
    /// Ends the query once it is traced: the generated answer, not from
    /// the cache.
    pub fn on_traced(self, traced: Result<(), String>) -> (r: Result<QueryReply, RagError>)
        ensures
            traced matches Err(e) ==> r == Err::<QueryReply, RagError>(RagError::Trace(e)),
            traced is Ok ==> r == Ok::<QueryReply, RagError>(
                QueryReply { answer: self.answer, cache_hit: false, retrieved: self.retrieved },
            ),
    {
        match traced {
            Err(e) => Err(RagError::Trace(e)),
            Ok(()) => Ok(QueryReply { answer: self.answer, cache_hit: false, retrieved: self.retrieved }),
        }
    }
}

/// On a cache miss the query goes on unchanged: the run handed on to the
/// embedding is the very run that read the cache, with its question, key,
/// dimension and `top_k`.
pub proof fn lemma_cache_miss_keeps_run(run: QueryRun)
    ensures
        cache_read_outcome(run, Ok(None)) matches AfterCacheRead::Embed(next) && next.question
            == run.question && next.cache_key == run.cache_key && next.embedding_dim
            == run.embedding_dim && next.top_k == run.top_k,
{
}

/// No retrieved chunk is left out of the context: the context of a list
/// with one more passage is the context of the list, a blank line, and the
/// new passage shown under its position, and a single passage is shown
/// alone.
pub proof fn lemma_context_keeps_every_passage(ps: Seq<Passage>, p: Passage)
    ensures
        ps.len() > 0 ==> context_text(ps.push(p)) == context_text(ps) + "\n\n"@ + passage_text(
            ps.len(),
            p,
        ),
        context_text(seq![p]) == passage_text(0, p),
{
    let q = ps.push(p);
    assert(q.drop_last() =~= ps);
    assert(q.last() == p);
    assert(seq![p].len() == 1);
}

/// A passage is shown with its text, its score, and its position counted
/// from one: the number after `Chunk ` reads back to `index + 1`.
pub proof fn lemma_passage_shows_position(index: nat, p: Passage)
    ensures
        ({
            let t = passage_text(index, p);
            let d = decimal(index + 1);
            &&& t.subrange(0, 6) == "Chunk "@
            &&& is_digit_run(t.subrange(6, 6 + d.len() as int))
            &&& digits_value(t.subrange(6, 6 + d.len() as int)) == index + 1
            &&& t.subrange(t.len() - p.content@.len(), t.len() as int) == p.content@
        }),
{
    reveal_strlit("Chunk ");
    let t = passage_text(index, p);
    let d = decimal(index + 1);
    lemma_decimal_reads_back(index + 1);
    let rest = " (score "@ + p.score@ + "):\n"@ + p.content@;
    assert(t =~= "Chunk "@ + d + rest);
    assert(t.subrange(0, 6) =~= "Chunk "@);
    assert(t.subrange(6, 6 + d.len() as int) =~= d);
    assert(t.subrange(t.len() - p.content@.len(), t.len() as int) =~= p.content@);
}

/// A question asked again is answered from the cache: a query that stored
/// its answer wrote it under the key that any later query of the same
/// question reads, so that read finds the answer, and the later query ends
/// with it as a cache hit, grounded on no chunks.
pub proof fn lemma_repeated_question_hits_cache(
    cache: Map<Seq<char>, String>,
    stored: AnswerToStore,
    again: QueryRun,
)
    requires
        stored.run.wf(),
        again.wf(),
        again.question@ == stored.run.question@,
    ensures
        ({
            let written = cache.insert(stored.run.cache_key@, stored.answer);
            &&& written.contains_key(again.cache_key@)
            &&& written[again.cache_key@] == stored.answer
            &&& cache_read_outcome(again, Ok(Some(written[again.cache_key@])))
                == AfterCacheRead::Answered(
                QueryReply { answer: stored.answer, cache_hit: true, retrieved: 0 },
            )
        }),
{
}


/// An ingest in progress: the document, its chunks, and how many of them
/// have been embedded so far.
#[derive(Debug)]
pub struct IngestRun {
    pub source_id: String,
    pub text: String,
    pub chunks: Vec<String>,
    pub embedded: usize,
}

/// An ingested document to trace.
#[derive(Debug)]
pub struct IngestTrace {
    pub source_id: String,
    pub document_id: String,
    pub chunk_count: usize,
}

/// The outcome of an ingest: the stored document and its number of chunks.
#[derive(Clone, Debug)]
pub struct IngestReply {
    pub document_id: String,
    pub chunk_count: usize,
}

impl IngestRun {
    /// Whether the chunks are those of the text and the count of embedded
    /// chunks does not pass their number.
    pub open spec fn wf(&self) -> bool {
        &&& string_views(self.chunks@) == chunks(
            self.text@,
            INGEST_CHUNK_CHARS as nat,
            INGEST_CHUNK_OVERLAP as nat,
        )
        &&& self.embedded <= self.chunks@.len()
    }

    /// Starts ingesting `text` under `source_id`: the text is cut into
    /// chunks of 600 characters that overlap by 100, each to be embedded.
    pub fn start(source_id: String, text: String) -> (run: IngestRun)
        ensures
            run.source_id == source_id,
            run.text == text,
            string_views(run.chunks@) == chunks(
                text@,
                INGEST_CHUNK_CHARS as nat,
                INGEST_CHUNK_OVERLAP as nat,
            ),
            run.embedded == 0,
            run.wf(),
    {
        let chunks = chunk_text(text.as_str(), INGEST_CHUNK_CHARS, INGEST_CHUNK_OVERLAP);
        IngestRun { source_id, text, chunks, embedded: 0 }
    }

    /// The chunk to embed next, if any is left.
    pub fn next_chunk(&self) -> (c: Option<String>)
        ensures
            c is Some <==> self.embedded < self.chunks@.len(),
            c matches Some(chunk) ==> chunk@ == self.chunks@[self.embedded as int]@,
    {
        if self.embedded < self.chunks.len() {
            Some(self.chunks[self.embedded].clone())
        } else {
            None
        }
    }

    /// Decides on the embedding of the next chunk.
    pub fn on_embedding(self, embedded: Result<(), String>) -> (r: Result<IngestRun, RagError>)
        ensures
            embedded matches Err(e) ==> r == Err::<IngestRun, RagError>(RagError::ChunkEmbedding(e)),
            embedded is Ok ==> (r matches Ok(run) && run.source_id == self.source_id && run.text
                == self.text && run.chunks == self.chunks && run.embedded == if self.embedded
                < self.chunks@.len() {
                self.embedded + 1
            } else {
                self.embedded as int
            }),
            self.wf() ==> (r matches Ok(run) ==> run.wf()),
    {
        match embedded {
            Err(e) => Err(RagError::ChunkEmbedding(e)),
            Ok(()) => {
                let embedded = if self.embedded < self.chunks.len() {
                    self.embedded + 1
                } else {
                    self.embedded
                };
                Ok(IngestRun { embedded, ..self })
            },
        }
    }

    /// Decides on the write of the document and its embedded chunks,
    /// given the identifier the store gave the document.
    pub fn on_stored(self, stored: Result<String, String>) -> (r: Result<IngestTrace, RagError>)
        ensures
            stored matches Err(e) ==> r == Err::<IngestTrace, RagError>(RagError::Storage(e)),
            stored matches Ok(id) ==> r == Ok::<IngestTrace, RagError>(
                IngestTrace {
                    source_id: self.source_id,
                    document_id: id,
                    chunk_count: self.embedded,
                },
            ),
    {
        match stored {
            Err(e) => Err(RagError::Storage(e)),
            Ok(id) => Ok(
                IngestTrace {
                    source_id: self.source_id,
                    document_id: id,
                    chunk_count: self.embedded,
                },
            ),
        }
    }
}

impl IngestTrace {
    /// Ends the ingest once it is traced.
    pub fn on_traced(self, traced: Result<(), String>) -> (r: Result<IngestReply, RagError>)
        ensures
            traced matches Err(e) ==> r == Err::<IngestReply, RagError>(RagError::Trace(e)),
            traced is Ok ==> r == Ok::<IngestReply, RagError>(
                IngestReply { document_id: self.document_id, chunk_count: self.chunk_count },
            ),
    {
        match traced {
            Err(e) => Err(RagError::Trace(e)),
            Ok(()) => Ok(
                IngestReply { document_id: self.document_id, chunk_count: self.chunk_count },
            ),
        }
    }
}


/// Once every chunk is embedded, the count an ingest reports (what
/// `on_stored` passes on) is the number of chunks of its text: one per
/// window of the trimmed text, and none for blank text.
pub proof fn lemma_ingest_counts_every_chunk(run: IngestRun)
    requires
        run.wf(),
        run.embedded == run.chunks@.len(),
    ensures
        run.embedded == chunks(run.text@, INGEST_CHUNK_CHARS as nat, INGEST_CHUNK_OVERLAP as nat).len(),
{
}

} // verus!
