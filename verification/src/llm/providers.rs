//! The providers of language models.

use crate::chars::{clone_opt, same_text};
use crate::config::LlmConfig;
use crate::llm::request::LlmChatRequest;
use crate::llm::ChatResult;
use crate::number;
use crate::number::u64_text;
use vstd::prelude::*;
use vstd::string::*;

verus! {

/// Answers with what it is told, without a model.
#[derive(Debug, Clone, Copy, PartialEq, Eq)]
pub struct EchoProvider;

/// What the echo says.
pub open spec fn echo(utterance: Seq<char>, image: Option<Vec<u8>>) -> Seq<char> {
    match image {
        Some(bytes) => "Echo: [image] "@ + utterance + " ("@ + number::nat_text(bytes@.len())
            + " bytes)"@,
        None => "Echo: "@ + utterance,
    }
}

impl EchoProvider {
    pub fn chat(&self, request: &LlmChatRequest) -> (r: Result<ChatResult, String>)
        ensures
            r matches Ok(ChatResult::Text(t)) && t@ == echo(request.utterance@, request.image),
    {
        let mut answer = String::new();
        match &request.image {
            Some(bytes) => {
                answer.append("Echo: [image] ");
                answer.append(&request.utterance);
                answer.append(" (");
                let size = u64_text(bytes.len() as u64);
                answer.append(&size);
                answer.append(" bytes)");
                assert(answer@ =~= echo(request.utterance@, request.image));
            },
            None => {
                answer.append("Echo: ");
                answer.append(&request.utterance);
                assert(answer@ =~= echo(request.utterance@, request.image));
            },
        }
        Ok(ChatResult::Text(answer))
    }
}

/// Talks to OpenAI, or to an endpoint that is compatible with it.
#[derive(Debug, Clone, Copy, PartialEq, Eq)]
pub struct OpenAiProvider;

pub const OPENAI: &'static str = "openai";

pub const OPENAI_KEY_NOT_SET: &'static str =
    "OpenAI api_key not set; configure OPENAI_API_KEY in the environment or .env, or set llm.api_key in config.toml";

/// How a client is set up.
#[derive(Debug, PartialEq, Eq)]
pub struct OpenAiPlan {
    pub api_key: String,
    pub base_url: Option<String>,
    pub model: String,
    /// Use the Responses API with its hosted web search, and not plain completions.
    pub web_search: bool,
}

impl OpenAiProvider {
    /// How the client is set up, given the key that was found, if any. Only OpenAI itself
    /// has the hosted web search, not endpoints that are compatible with it.
    pub fn build(llm: &LlmConfig, api_key: Option<String>) -> (r: Result<OpenAiPlan, String>)
        ensures
            match api_key {
                None => r is Err && r->Err_0@ == OPENAI_KEY_NOT_SET@,
                Some(key) => {
                    &&& r is Ok
                    &&& r->Ok_0.api_key == key
                    &&& r->Ok_0.base_url == llm.base_url
                    &&& r->Ok_0.model == llm.model
                    &&& r->Ok_0.web_search == (llm.provider@ == OPENAI@ && llm.web_search)
                },
            },
    {
        match api_key {
            None => Err(String::from_str(OPENAI_KEY_NOT_SET)),
            Some(api_key) => Ok(
                OpenAiPlan {
                    api_key,
                    base_url: clone_opt(&llm.base_url),
                    model: llm.model.clone(),
                    web_search: same_text(&llm.provider, OPENAI) && llm.web_search,
                },
            ),
        }
    }
}

// ---- Laws ----

/// The echo says what was said, and of an image how many bytes it has.
pub proof fn law_echo_says_what_was_said(t: Seq<char>, image: Vec<u8>)
    ensures
        echo(t, None) == "Echo: "@ + t,
        echo(t, Some(image)) == "Echo: [image] "@ + t + " ("@ + number::nat_text(image@.len())
            + " bytes)"@,
{
}

/// The plan has the key, the model and the address that are configured, and searches the web only
/// with OpenAI itself and where that is wanted; without a key there is none.
pub proof fn law_plan_is_the_configured_one(
    llm: LlmConfig,
    api_key: Option<String>,
    r: Result<OpenAiPlan, String>,
)
    requires
        call_ensures(OpenAiProvider::build, (&llm, api_key), r),
    ensures
        r is Ok <==> api_key is Some,
        r matches Ok(plan) ==> {
            &&& api_key == Some(plan.api_key)
            &&& plan.model == llm.model
            &&& plan.base_url == llm.base_url
            &&& plan.web_search ==> llm.web_search && llm.provider@ == "openai"@
            &&& llm.web_search && llm.provider@ == "openai"@ ==> plan.web_search
        },
{
}

} // verus!
