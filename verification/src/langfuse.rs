//! The tracing client: its credentials and where trace batches go. A
//! client without an address or without both keys traces nothing.

use vstd::prelude::*;
use vstd::utf8::encode_utf8;

use crate::config::AppConfig;
use crate::http::{endpoint_url, join_endpoint};

verus! {

pub const INGESTION_PATH: &'static str = "/api/public/ingestion";

/// Standard base64 (RFC 4648 alphabet, with padding) of `data`.
pub uninterp spec fn base64_standard(data: Seq<u8>) -> Seq<char>;

/// Encodes `data` with `base64::engine::general_purpose::STANDARD`.
/// Trusted: the result is the standard base64 text of `data`.
#[verifier::external_body]
fn base64_encode(data: &[u8]) -> (text: String)
    ensures
        text@ == base64_standard(data@),
{
    base64::Engine::encode(&base64::engine::general_purpose::STANDARD, data)
}

/// The `Authorization` value for a key pair: HTTP basic credentials.
pub open spec fn basic_auth(public_key: Seq<char>, secret_key: Seq<char>) -> Seq<char> {
    "Basic "@ + base64_standard(encode_utf8(public_key + ":"@ + secret_key))
}

/// The `Authorization` value of a configuration: present exactly when
/// both keys are.
pub open spec fn config_auth(public_key: Option<String>, secret_key: Option<String>) -> Option<
    Seq<char>,
> {
    match (public_key, secret_key) {
        (Some(p), Some(s)) => Some(basic_auth(p@, s@)),
        _ => None,
    }
}

/// The tracing client.
#[derive(Clone, Debug)]
pub struct LangfuseClient {
    pub base_url: Option<String>,
    pub auth_header: Option<String>,
}

/// Where one trace batch goes, and with what credentials.
#[derive(Clone, Debug)]
pub struct IngestionTarget {
    pub url: String,
    pub authorization: String,
}

impl LangfuseClient {
    /// The client the settings describe.
    pub fn from_config(config: &AppConfig) -> (c: LangfuseClient)
        ensures
            c.base_url == config.langfuse_base_url,
            c.auth_header is Some <==> config_auth(
                config.langfuse_public_key,
                config.langfuse_secret_key,
            ) is Some,
            c.auth_header matches Some(h) ==> config_auth(
                config.langfuse_public_key,
                config.langfuse_secret_key,
            ) == Some(h@),
    {
        let auth_header = match (&config.langfuse_public_key, &config.langfuse_secret_key) {
            (Some(public), Some(secret)) => {
                let mut credentials = public.clone();
                credentials.append(":");
                credentials.append(secret.as_str());
                let encoded = base64_encode(credentials.as_str().as_bytes());
                let mut header = "Basic ".to_owned();
                header.append(encoded.as_str());
                Some(header)
            },
            _ => None,
        };
        LangfuseClient { base_url: config.langfuse_base_url.clone(), auth_header }
    }

    /// Where a trace goes: nowhere unless the client has both an address
    /// and credentials.
    pub fn ingestion_target(&self) -> (t: Option<IngestionTarget>)
        ensures
            t is Some <==> self.base_url is Some && self.auth_header is Some,
            t matches Some(target) ==> target.url@ == endpoint_url(
                self.base_url->0@,
                INGESTION_PATH@,
            ) && target.authorization@ == self.auth_header->0@,
    {
        match (&self.base_url, &self.auth_header) {
            (Some(base), Some(auth)) => Some(
                IngestionTarget {
                    url: join_endpoint(base.as_str(), INGESTION_PATH),
                    authorization: auth.clone(),
                },
            ),
            _ => None,
        }
    }
}

} // verus!
