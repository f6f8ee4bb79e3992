//! The client of the embeddings endpoint: what it sends, and what it makes
//! of the reply.

use vstd::prelude::*;

use crate::http::{
    bearer_for, bearer_header, endpoint_url, first_of_reply, join_endpoint, reply_error, Endpoint,
    EndpointError, Reply,
};

verus! {

pub const EMBEDDINGS_PATH: &'static str = "/embeddings";

/// Where and as whom embeddings are requested.
#[derive(Clone, Debug)]
pub struct EmbeddingClient {
    pub base_url: String,
    pub api_key: Option<String>,
    pub model: String,
}

/// The body of an embeddings request.
#[derive(Clone, Debug)]
pub struct EmbeddingRequest {
    pub model: String,
    pub input: String,
}

impl EmbeddingClient {
    /// A client for the endpoint under `base_url`.
    pub fn new(base_url: String, api_key: Option<String>, model: String) -> (c: EmbeddingClient)
        ensures
            c.base_url == base_url,
            c.api_key == api_key,
            c.model == model,
    {
        EmbeddingClient { base_url, api_key, model }
    }

    /// The address requests go to.
    pub fn endpoint(&self) -> (url: String)
        ensures
            url@ == endpoint_url(self.base_url@, EMBEDDINGS_PATH@),
    {
        join_endpoint(self.base_url.as_str(), EMBEDDINGS_PATH)
    }

    /// The `Authorization` header, when the client has an API key.
    pub fn authorization(&self) -> (h: Option<String>)
        ensures
            h matches Some(v) ==> bearer_for(self.api_key) == Some(v@),
            h is None <==> self.api_key is None,
    {
        bearer_header(&self.api_key)
    }

    /// The request that asks for the embedding of `text`.
    pub fn request(&self, text: &str) -> (r: EmbeddingRequest)
        ensures
            r.model@ == self.model@,
            r.input@ == text@,
    {
        EmbeddingRequest { model: self.model.clone(), input: text.to_owned() }
    }

    /// The embedding a reply carries: the first vector of its `data`.
    pub fn vector_from_reply<T>(reply: Reply<Vec<T>>) -> (r: Result<T, EndpointError>)
        ensures
            reply_error(Endpoint::Embeddings, reply) matches Some(e) ==> r == Err::<T, EndpointError>(e),
            reply matches Reply::Parsed(items) ==> (if items.len() == 0 {
                r == Err::<T, EndpointError>(EndpointError::Empty { endpoint: Endpoint::Embeddings })
            } else {
                r == Ok::<T, EndpointError>(items[0])
            }),
    {
        first_of_reply(Endpoint::Embeddings, reply)
    }
}

} // verus!
