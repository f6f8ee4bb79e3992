//! Service settings, read from the values of its environment variables.

use vstd::prelude::*;

use crate::numbers::{digits_value, parse_i64, parse_i64_spec, parse_usize, parse_usize_spec};

verus! {

pub const DEFAULT_SERVER_ADDR: &'static str = "0.0.0.0:8080";

pub const DEFAULT_REDIS_URL: &'static str = "redis://127.0.0.1:6379/";

pub const DEFAULT_LLM_BASE_URL: &'static str = "http://127.0.0.1:8000/v1";

pub const DEFAULT_CHAT_MODEL: &'static str = "qwen3.5";

pub const DEFAULT_EMBEDDING_MODEL: &'static str = "text-embedding-3-small";

pub const DEFAULT_EMBEDDING_DIM: &'static str = "1536";

pub const DEFAULT_TOP_K: &'static str = "4";

pub const DATABASE_URL_VAR: &'static str = "DATABASE_URL";

/// The service's settings.
#[derive(Clone, Debug)]
pub struct AppConfig {
    pub server_addr: String,
    pub database_url: String,
    pub redis_url: String,
    pub llm_base_url: String,
    pub llm_api_key: Option<String>,
    pub chat_model: String,
    pub embedding_model: String,
    pub embedding_dim: usize,
    pub top_k: i64,
    pub langfuse_base_url: Option<String>,
    pub langfuse_public_key: Option<String>,
    pub langfuse_secret_key: Option<String>,
}

/// The values of the environment variables the settings come from; `None`
/// for a variable that is not set (or does not hold Unicode).
#[derive(Clone, Debug)]
pub struct EnvVars {
    /// `SERVER_ADDR`
    pub server_addr: Option<String>,
    /// `DATABASE_URL`
    pub database_url: Option<String>,
    /// `REDIS_URL`
    pub redis_url: Option<String>,
    /// `LLM_BASE_URL`
    pub llm_base_url: Option<String>,
    /// `LLM_API_KEY`
    pub llm_api_key: Option<String>,
    /// `CHAT_MODEL`
    pub chat_model: Option<String>,
    /// `EMBEDDING_MODEL`
    pub embedding_model: Option<String>,
    /// `EMBEDDING_DIM`
    pub embedding_dim: Option<String>,
    /// `RAG_TOP_K`
    pub top_k: Option<String>,
    /// `LANGFUSE_BASE_URL`
    pub langfuse_base_url: Option<String>,
    /// `LANGFUSE_PUBLIC_KEY`
    pub langfuse_public_key: Option<String>,
    /// `LANGFUSE_SECRET_KEY`
    pub langfuse_secret_key: Option<String>,
}

/// Why the settings could not be read.
#[derive(Clone, Debug)]
pub enum ConfigError {
    /// A variable without a default is not set; it holds the variable's name.
    MissingVar(String),
    /// `EMBEDDING_DIM` is not a `usize`.
    InvalidEmbeddingDim,
    /// `RAG_TOP_K` is not an `i64`.
    InvalidTopK,
}

/// The text of a variable, or `default` when it is not set.
pub open spec fn value_or(value: Option<String>, default: Seq<char>) -> Seq<char> {
    match value {
        Some(s) => s@,
        None => default,
    }
}

/// What the message of a settings error says.
pub open spec fn config_error_message(e: ConfigError) -> Seq<char> {
    match e {
        ConfigError::MissingVar(name) => name@ + " must be set"@,
        ConfigError::InvalidEmbeddingDim => "EMBEDDING_DIM must be a positive integer"@,
        ConfigError::InvalidTopK => "RAG_TOP_K must be an integer"@,
    }
}

/// The settings that `vars` give, when they give any.
pub open spec fn config_from_vars(vars: EnvVars, cfg: AppConfig) -> bool {
    &&& cfg.server_addr@ == value_or(vars.server_addr, DEFAULT_SERVER_ADDR@)
    &&& vars.database_url == Some(cfg.database_url)
    &&& cfg.redis_url@ == value_or(vars.redis_url, DEFAULT_REDIS_URL@)
    &&& cfg.llm_base_url@ == value_or(vars.llm_base_url, DEFAULT_LLM_BASE_URL@)
    &&& cfg.llm_api_key == vars.llm_api_key
    &&& cfg.chat_model@ == value_or(vars.chat_model, DEFAULT_CHAT_MODEL@)
    &&& cfg.embedding_model@ == value_or(vars.embedding_model, DEFAULT_EMBEDDING_MODEL@)
    &&& parse_usize_spec(value_or(vars.embedding_dim, DEFAULT_EMBEDDING_DIM@)) == Some(
        cfg.embedding_dim,
    )
    &&& parse_i64_spec(value_or(vars.top_k, DEFAULT_TOP_K@)) == Some(cfg.top_k)
    &&& cfg.langfuse_base_url == vars.langfuse_base_url
    &&& cfg.langfuse_public_key == vars.langfuse_public_key
    &&& cfg.langfuse_secret_key == vars.langfuse_secret_key
}

fn text_or(value: Option<String>, default: &str) -> (s: String)
    ensures
        s@ == value_or(value, default@),
{
    match value {
        Some(s) => s,
        None => default.to_owned(),
    }
}

impl ConfigError {
    /// The error's message.
    pub fn message(&self) -> (m: String)
        ensures
            m@ == config_error_message(*self),
    {
        match self {
            ConfigError::MissingVar(name) => {
                let mut m = name.clone();
                m.append(" must be set");
                m
            },
            ConfigError::InvalidEmbeddingDim => "EMBEDDING_DIM must be a positive integer".to_owned(),
            ConfigError::InvalidTopK => "RAG_TOP_K must be an integer".to_owned(),
        }
    }
}

impl AppConfig {
    /// Reads the settings from the values of the environment variables:
    /// each falls back to its default when unset, `DATABASE_URL` has none,
    /// and the two numbers must parse.
    pub fn from_vars(vars: EnvVars) -> (r: Result<AppConfig, ConfigError>)
        ensures
            vars.database_url is None ==> (r matches Err(ConfigError::MissingVar(name)) && name@
                == DATABASE_URL_VAR@),
            vars.database_url is Some && parse_usize_spec(
                value_or(vars.embedding_dim, DEFAULT_EMBEDDING_DIM@),
            ) is None ==> r matches Err(ConfigError::InvalidEmbeddingDim),
            vars.database_url is Some && parse_usize_spec(
                value_or(vars.embedding_dim, DEFAULT_EMBEDDING_DIM@),
            ) is Some && parse_i64_spec(value_or(vars.top_k, DEFAULT_TOP_K@)) is None
                ==> r matches Err(ConfigError::InvalidTopK),
            r is Ok <==> vars.database_url is Some && parse_usize_spec(
                value_or(vars.embedding_dim, DEFAULT_EMBEDDING_DIM@),
            ) is Some && parse_i64_spec(value_or(vars.top_k, DEFAULT_TOP_K@)) is Some,
            r matches Ok(cfg) ==> config_from_vars(vars, cfg),
            r matches Ok(cfg) ==> (vars.server_addr matches Some(v) ==> cfg.server_addr@ == v@),
            r matches Ok(cfg) ==> (vars.server_addr is None ==> cfg.server_addr@ == DEFAULT_SERVER_ADDR@),
            r matches Ok(cfg) ==> (vars.redis_url matches Some(v) ==> cfg.redis_url@ == v@),
            r matches Ok(cfg) ==> (vars.redis_url is None ==> cfg.redis_url@ == DEFAULT_REDIS_URL@),
            r matches Ok(cfg) ==> (vars.llm_base_url matches Some(v) ==> cfg.llm_base_url@ == v@),
            r matches Ok(cfg) ==> (vars.llm_base_url is None ==> cfg.llm_base_url@ == DEFAULT_LLM_BASE_URL@),
            r matches Ok(cfg) ==> (vars.chat_model matches Some(v) ==> cfg.chat_model@ == v@),
            r matches Ok(cfg) ==> (vars.chat_model is None ==> cfg.chat_model@ == DEFAULT_CHAT_MODEL@),
            r matches Ok(cfg) ==> (vars.embedding_model matches Some(v) ==> cfg.embedding_model@ == v@),
            r matches Ok(cfg) ==> (vars.embedding_model is None ==> cfg.embedding_model@ == DEFAULT_EMBEDDING_MODEL@),
            r matches Ok(cfg) ==> (vars.embedding_dim matches Some(v) ==> parse_usize_spec(v@)
                == Some(cfg.embedding_dim)),
            r matches Ok(cfg) ==> (vars.top_k matches Some(v) ==> parse_i64_spec(v@) == Some(
                cfg.top_k,
            )),
            r matches Ok(cfg) ==> vars.database_url == Some(cfg.database_url),
            r matches Ok(cfg) ==> cfg.llm_api_key == vars.llm_api_key,
            r matches Ok(cfg) ==> cfg.langfuse_base_url == vars.langfuse_base_url,
            r matches Ok(cfg) ==> cfg.langfuse_public_key == vars.langfuse_public_key,
            r matches Ok(cfg) ==> cfg.langfuse_secret_key == vars.langfuse_secret_key,
    {
        let server_addr = text_or(vars.server_addr, DEFAULT_SERVER_ADDR);
        let database_url = match vars.database_url {
            Some(url) => url,
            None => {
                return Err(ConfigError::MissingVar(DATABASE_URL_VAR.to_owned()));
            },
        };
        let redis_url = text_or(vars.redis_url, DEFAULT_REDIS_URL);
        let llm_base_url = text_or(vars.llm_base_url, DEFAULT_LLM_BASE_URL);
        let chat_model = text_or(vars.chat_model, DEFAULT_CHAT_MODEL);
        let embedding_model = text_or(vars.embedding_model, DEFAULT_EMBEDDING_MODEL);
        let dim_text = text_or(vars.embedding_dim, DEFAULT_EMBEDDING_DIM);
        let embedding_dim = match parse_usize(dim_text.as_str()) {
            Some(d) => d,
            None => {
                return Err(ConfigError::InvalidEmbeddingDim);
            },
        };
        let top_k_text = text_or(vars.top_k, DEFAULT_TOP_K);
        let top_k = match parse_i64(top_k_text.as_str()) {
            Some(k) => k,
            None => {
                return Err(ConfigError::InvalidTopK);
            },
        };
        Ok(
            AppConfig {
                server_addr,
                database_url,
                redis_url,
                llm_base_url,
                llm_api_key: vars.llm_api_key,
                chat_model,
                embedding_model,
                embedding_dim,
                top_k,
                langfuse_base_url: vars.langfuse_base_url,
                langfuse_public_key: vars.langfuse_public_key,
                langfuse_secret_key: vars.langfuse_secret_key,
            },
        )
    }
}


/// With `EMBEDDING_DIM` and `RAG_TOP_K` unset, embeddings have 1536
/// dimensions and a query retrieves four chunks.
pub proof fn lemma_default_sizes(vars: EnvVars, cfg: AppConfig)
    requires
        vars.embedding_dim is None,
        vars.top_k is None,
        config_from_vars(vars, cfg),
    ensures
        cfg.embedding_dim == 1536,
        cfg.top_k == 4,
{
    reveal_strlit("1536");
    reveal_strlit("4");
    let d = DEFAULT_EMBEDDING_DIM@;
    assert(d == "1536"@);
    assert(d.len() == 4 && d[0] == '1' && d[1] == '5' && d[2] == '3' && d[3] == '6');
    assert(d.drop_last().drop_last().drop_last().drop_last() =~= Seq::<char>::empty());
    assert(digits_value(d.drop_last().drop_last().drop_last().drop_last()) == 0);
    assert(d.drop_last().drop_last().drop_last().last() == '1');
    assert(digits_value(d.drop_last().drop_last().drop_last()) == 1);
    assert(digits_value(d.drop_last().drop_last()) == 15);
    assert(digits_value(d.drop_last()) == 153);
    assert(digits_value(d) == 1536);
    let k = DEFAULT_TOP_K@;
    assert(k == "4"@);
    assert(k.len() == 1 && k[0] == '4');
    assert(k.drop_last() =~= Seq::<char>::empty());
    assert(digits_value(k.drop_last()) == 0);
    assert(digits_value(k) == 4);
}

/// A set variable wins over its default: the settings that `vars` give hold
/// the text of every variable that is set, the default of every one that is
/// not, and the numbers that the set texts read as.
pub proof fn lemma_set_variables_win(vars: EnvVars, cfg: AppConfig)
    requires
        config_from_vars(vars, cfg),
    ensures
        vars.server_addr matches Some(v) ==> cfg.server_addr@ == v@,
        vars.server_addr is None ==> cfg.server_addr@ == DEFAULT_SERVER_ADDR@,
        vars.redis_url matches Some(v) ==> cfg.redis_url@ == v@,
        vars.redis_url is None ==> cfg.redis_url@ == DEFAULT_REDIS_URL@,
        vars.llm_base_url matches Some(v) ==> cfg.llm_base_url@ == v@,
        vars.llm_base_url is None ==> cfg.llm_base_url@ == DEFAULT_LLM_BASE_URL@,
        vars.chat_model matches Some(v) ==> cfg.chat_model@ == v@,
        vars.chat_model is None ==> cfg.chat_model@ == DEFAULT_CHAT_MODEL@,
        vars.embedding_model matches Some(v) ==> cfg.embedding_model@ == v@,
        vars.embedding_model is None ==> cfg.embedding_model@ == DEFAULT_EMBEDDING_MODEL@,
        vars.embedding_dim matches Some(v) ==> parse_usize_spec(v@) == Some(cfg.embedding_dim),
        vars.top_k matches Some(v) ==> parse_i64_spec(v@) == Some(cfg.top_k),
        vars.database_url == Some(cfg.database_url),
{
}

} // verus!
