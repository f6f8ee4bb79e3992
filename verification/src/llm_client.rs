//! The client of the chat completions endpoint: the grounded prompt, the
//! request, and the answer a reply carries.

use vstd::prelude::*;

use crate::http::{
    bearer_for, bearer_header, endpoint_url, first_of_reply, join_endpoint, reply_error, Endpoint,
    EndpointError, Reply,
};

verus! {

pub const CHAT_COMPLETIONS_PATH: &'static str = "/chat/completions";

pub const PROMPT_HEAD: &'static str =
    "You are a helpful assistant that answers strictly using the provided context.\n\nContext:\n";

pub const PROMPT_QUESTION: &'static str = "\n\nQuestion: ";

pub const USER_ROLE: &'static str = "user";

/// The prompt that asks `question` about `context`.
pub open spec fn prompt_text(question: Seq<char>, context: Seq<char>) -> Seq<char> {
    PROMPT_HEAD@ + context + PROMPT_QUESTION@ + question
}

/// Where and as whom answers are requested.
#[derive(Clone, Debug)]
pub struct LlmClient {
    pub base_url: String,
    pub api_key: Option<String>,
    pub model: String,
}

/// One message of a chat.
#[derive(Clone, Debug)]
pub struct ChatMessage {
    pub role: String,
    pub content: String,
}

/// The body of a chat completion request (the sampling temperature is
/// added where the body is serialised).
#[derive(Clone, Debug)]
pub struct ChatRequest {
    pub model: String,
    pub messages: Vec<ChatMessage>,
}

/// The prompt that asks `question` about `context`.
pub fn prompt(question: &str, context: &str) -> (p: String)
    ensures
        p@ == prompt_text(question@, context@),
{
    let mut p = PROMPT_HEAD.to_owned();
    p.append(context);
    p.append(PROMPT_QUESTION);
    p.append(question);
    p
}

impl LlmClient {
    /// A client for the endpoint under `base_url`.
    pub fn new(base_url: String, api_key: Option<String>, model: String) -> (c: LlmClient)
        ensures
            c.base_url == base_url,
            c.api_key == api_key,
            c.model == model,
    {
        LlmClient { base_url, api_key, model }
    }

    /// The address requests go to.
    pub fn endpoint(&self) -> (url: String)
        ensures
            url@ == endpoint_url(self.base_url@, CHAT_COMPLETIONS_PATH@),
    {
        join_endpoint(self.base_url.as_str(), CHAT_COMPLETIONS_PATH)
    }

    /// The `Authorization` header, when the client has an API key.
    pub fn authorization(&self) -> (h: Option<String>)
        ensures
            h matches Some(v) ==> bearer_for(self.api_key) == Some(v@),
            h is None <==> self.api_key is None,
    {
        bearer_header(&self.api_key)
    }

    /// The request that asks `question` about `context`: one user message
    /// holding the prompt.
    pub fn request(&self, question: &str, context: &str) -> (r: ChatRequest)
        ensures
            r.model@ == self.model@,
            r.messages@.len() == 1,
            r.messages@[0].role@ == USER_ROLE@,
            r.messages@[0].content@ == prompt_text(question@, context@),
    {
        let mut messages: Vec<ChatMessage> = Vec::new();
        messages.push(ChatMessage { role: USER_ROLE.to_owned(), content: prompt(question, context) });
        ChatRequest { model: self.model.clone(), messages }
    }

    /// The answer a reply carries: the content of the message of its first
    /// choice.
    pub fn answer_from_reply(reply: Reply<Vec<ChatMessage>>) -> (r: Result<String, EndpointError>)
        ensures
            reply_error(Endpoint::ChatCompletions, reply) matches Some(e) ==> r == Err::<
                String,
                EndpointError,
            >(e),
            reply matches Reply::Parsed(items) ==> (if items.len() == 0 {
                r == Err::<String, EndpointError>(
                    EndpointError::Empty { endpoint: Endpoint::ChatCompletions },
                )
            } else {
                r == Ok::<String, EndpointError>(items[0].content)
            }),
    {
        match first_of_reply(Endpoint::ChatCompletions, reply) {
            Ok(message) => Ok(message.content),
            Err(e) => Err(e),
        }
    }
}

} // verus!
