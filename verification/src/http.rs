//! What the clients of the model endpoints share: endpoint addresses,
//! bearer credentials, and what a reply from an endpoint comes to.

use vstd::prelude::*;

use crate::text::{lemma_strip_trailing_slashes, strip_trailing, trim_trailing_slashes};

verus! {

/// The address of `path` under `base_url`: the base without trailing
/// slashes, then the path.
pub open spec fn endpoint_url(base_url: Seq<char>, path: Seq<char>) -> Seq<char> {
    strip_trailing(base_url, '/') + path
}

/// The address of `path` under `base_url`.
pub fn join_endpoint(base_url: &str, path: &str) -> (url: String)
    ensures
        url@ == endpoint_url(base_url@, path@),
{
    let mut url = trim_trailing_slashes(base_url);
    url.append(path);
    url
}

/// The `Authorization` value for an API key.
pub open spec fn bearer(key: Seq<char>) -> Seq<char> {
    "Bearer "@ + key
}

/// The `Authorization` value to send, when there is an API key.
pub open spec fn bearer_for(api_key: Option<String>) -> Option<Seq<char>> {
    match api_key {
        Some(k) => Some(bearer(k@)),
        None => None,
    }
}

/// The `Authorization` header for an optional API key.
pub fn bearer_header(api_key: &Option<String>) -> (h: Option<String>)
    ensures
        h matches Some(v) ==> bearer_for(*api_key) == Some(v@),
        h is None <==> api_key is None,
{
    match api_key {
        Some(key) => {
            let mut v = "Bearer ".to_owned();
            v.append(key.as_str());
            Some(v)
        },
        None => None,
    }
}

/// Whether an HTTP status code reports success (a 2xx code).
pub open spec fn status_is_success(status: u16) -> bool {
    200 <= status <= 299
}

/// Whether an HTTP status code reports success.
pub fn is_success(status: u16) -> (b: bool)
    ensures
        b == status_is_success(status),
{
    200 <= status && status <= 299
}

/// The endpoints of the model server.
#[derive(Clone, Copy, Debug, PartialEq, Eq, Structural)]
pub enum Endpoint {
    Embeddings,
    ChatCompletions,
}

/// What came back from a request to an endpoint.
pub enum Reply<T> {
    /// The request could not be sent; the transport's message.
    Unreachable(String),
    /// The endpoint answered with a status that is not a success: its
    /// status line (such as `404 Not Found`) and the body.
    Rejected { status: String, body: String },
    /// The body did not parse; the parser's message.
    Malformed(String),
    /// The parsed body.
    Parsed(T),
}

/// Why a request to an endpoint gave no result.
#[derive(Clone, Debug)]
pub enum EndpointError {
    Unreachable { endpoint: Endpoint, detail: String },
    Rejected { endpoint: Endpoint, status: String, body: String },
    Malformed { endpoint: Endpoint, detail: String },
    Empty { endpoint: Endpoint },
}

/// The error for a reply that carries no parsed body.
pub open spec fn reply_error<T>(endpoint: Endpoint, reply: Reply<T>) -> Option<EndpointError> {
    match reply {
        Reply::Unreachable(d) => Some(EndpointError::Unreachable { endpoint, detail: d }),
        Reply::Rejected { status, body } => Some(EndpointError::Rejected { endpoint, status, body }),
        Reply::Malformed(d) => Some(EndpointError::Malformed { endpoint, detail: d }),
        Reply::Parsed(_) => None,
    }
}

/// What the message of an endpoint error says.
pub open spec fn endpoint_error_message(e: EndpointError) -> Seq<char> {
    match e {
        EndpointError::Unreachable { endpoint, .. } => match endpoint {
            Endpoint::Embeddings => "embedding request failed"@,
            Endpoint::ChatCompletions => "chat completion request failed"@,
        },
        EndpointError::Rejected { endpoint, status, body } => match endpoint {
            Endpoint::Embeddings => "embedding API returned "@ + status@ + ": "@ + body@,
            Endpoint::ChatCompletions => "chat completions API returned "@ + status@ + ": "@
                + body@,
        },
        EndpointError::Malformed { endpoint, .. } => match endpoint {
            Endpoint::Embeddings => "failed to parse embeddings response JSON"@,
            Endpoint::ChatCompletions => "failed to parse chat completion response JSON"@,
        },
        EndpointError::Empty { endpoint } => match endpoint {
            Endpoint::Embeddings => "embeddings response did not include any vectors"@,
            Endpoint::ChatCompletions => "chat completion response did not include choices"@,
        },
    }
}

impl EndpointError {
    /// The error's message.
    pub fn message(&self) -> (m: String)
        ensures
            m@ == endpoint_error_message(*self),
    {
        match self {
            EndpointError::Unreachable { endpoint, .. } => match endpoint {
                Endpoint::Embeddings => "embedding request failed".to_owned(),
                Endpoint::ChatCompletions => "chat completion request failed".to_owned(),
            },
            EndpointError::Rejected { endpoint, status, body } => {
                let mut m = match endpoint {
                    Endpoint::Embeddings => "embedding API returned ".to_owned(),
                    Endpoint::ChatCompletions => "chat completions API returned ".to_owned(),
                };
                m.append(status.as_str());
                m.append(": ");
                m.append(body.as_str());
                m
            },
            EndpointError::Malformed { endpoint, .. } => match endpoint {
                Endpoint::Embeddings => "failed to parse embeddings response JSON".to_owned(),
                Endpoint::ChatCompletions => "failed to parse chat completion response JSON".to_owned(),
            },
            EndpointError::Empty { endpoint } => match endpoint {
                Endpoint::Embeddings => "embeddings response did not include any vectors".to_owned(),
                Endpoint::ChatCompletions => "chat completion response did not include choices".to_owned(),
            },
        }
    }
}

/// The first item of a reply's parsed list: an error when the reply has no
/// parsed body or the list is empty.
pub fn first_of_reply<T>(endpoint: Endpoint, reply: Reply<Vec<T>>) -> (r: Result<T, EndpointError>)
    ensures
        reply_error(endpoint, reply) matches Some(e) ==> r == Err::<T, EndpointError>(e),
        reply matches Reply::Parsed(items) ==> (if items.len() == 0 {
            r == Err::<T, EndpointError>(EndpointError::Empty { endpoint })
        } else {
            r == Ok::<T, EndpointError>(items[0])
        }),
{
    match reply {
        Reply::Unreachable(detail) => Err(EndpointError::Unreachable { endpoint, detail }),
        Reply::Rejected { status, body } => Err(EndpointError::Rejected { endpoint, status, body }),
        Reply::Malformed(detail) => Err(EndpointError::Malformed { endpoint, detail }),
        Reply::Parsed(items) => {
            let mut items = items;
            if items.len() == 0 {
                Err(EndpointError::Empty { endpoint })
            } else {
                Ok(items.swap_remove(0))
            }
        },
    }
}


/// An endpoint address is the base address, less only the slashes at its
/// end, followed by the whole path: the path is the address's end, and
/// what comes before it is a prefix of the base that does not end in a
/// slash, after which the base holds only slashes.
pub proof fn lemma_endpoint_url(base_url: Seq<char>, path: Seq<char>)
    ensures
        ({
            let u = endpoint_url(base_url, path);
            let k = (u.len() - path.len()) as int;
            &&& u.len() >= path.len()
            &&& u.subrange(k, u.len() as int) == path
            &&& k <= base_url.len()
            &&& u.subrange(0, k) == base_url.subrange(0, k)
            &&& k > 0 ==> u[k - 1] != '/'
            &&& forall|i: int| k <= i < base_url.len() ==> #[trigger] base_url[i] == '/'
        }),
{
    lemma_strip_trailing_slashes(base_url);
    let r = strip_trailing(base_url, '/');
    let u = endpoint_url(base_url, path);
    assert(u.subrange(r.len() as int, u.len() as int) =~= path);
    assert(u.subrange(0, r.len() as int) =~= r);
    if r.len() > 0 {
        assert(u[r.len() - 1] == r.last());
    }
}

} // verus!
