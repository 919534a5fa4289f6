//! What an LLM call is made from.

use crate::chars::clone_opt;
use crate::config::Config;
use crate::moment::LocalTime;
use vstd::prelude::*;
use vstd::string::*;

verus! {

/// A part of a message.
#[derive(Debug, PartialEq, Eq)]
pub enum Content {
    Text(String),
    Other,
}

/// A message of a conversation with the model.
#[derive(Debug, PartialEq, Eq)]
pub enum Message {
    System(String),
    User(Vec<Content>),
    Assistant(Vec<Content>),
}

#[derive(Clone, Debug, PartialEq, Eq)]
pub struct PromptTemplates {
    pub system_prompt: String,
    pub status_prompt: String,
}

/// What the prompt templates can show.
#[derive(Clone, Debug, PartialEq, Eq)]
pub struct PromptTemplateContext {
    pub run_id: String,
    pub assistant_display_name: Option<String>,
    pub server_public_addr: String,
    pub current_timestamp: String,
    pub current_date: String,
    pub current_time: String,
    pub location_name: Option<String>,
    pub latitude: Option<String>,
    pub longitude: Option<String>,
    pub coordinates: Option<String>,
    pub now_playing: Option<String>,
}

impl PromptTemplateContext {
    pub fn new(run_id: &str, config: &Config, datetime: LocalTime) -> (r: Self)
        ensures
            r.run_id@ == run_id@,
            r.assistant_display_name == config.server.display_name,
            r.server_public_addr == config.server.public_addr,
            r.current_timestamp == datetime.timestamp,
            r.current_date == datetime.date,
            r.current_time == datetime.time,
            r.location_name is None,
            r.latitude is None,
            r.longitude is None,
            r.coordinates is None,
            r.now_playing is None,
    {
        PromptTemplateContext {
            run_id: String::from_str(run_id),
            assistant_display_name: clone_opt(&config.server.display_name),
            server_public_addr: config.server.public_addr.clone(),
            current_timestamp: datetime.timestamp,
            current_date: datetime.date,
            current_time: datetime.time,
            location_name: None,
            latitude: None,
            longitude: None,
            coordinates: None,
            now_playing: None,
        }
    }
}

/// Request-scoped context for building an LLM call.
#[derive(Debug, PartialEq, Eq)]
pub struct LlmChatRequest {
    pub utterance: String,
    pub history: Vec<Message>,
    pub templates: PromptTemplates,
    pub template_context: PromptTemplateContext,
    pub memory_context: Option<String>,
    pub image: Option<Vec<u8>>,
}

impl LlmChatRequest {
    pub fn new(
        utterance: String,
        history: Vec<Message>,
        templates: PromptTemplates,
        template_context: PromptTemplateContext,
    ) -> (r: Self)
        ensures
            r == (LlmChatRequest {
                utterance,
                history,
                templates,
                template_context,
                memory_context: None,
                image: None,
            }),
    {
        LlmChatRequest {
            utterance,
            history,
            templates,
            template_context,
            memory_context: None,
            image: None,
        }
    }

    /// The request with what the memory holds on the subject.
    pub fn with_memory_context(self, memory_context: Option<String>) -> (r: Self)
        ensures
            r == (LlmChatRequest { memory_context, ..self }),
    {
        LlmChatRequest { memory_context, ..self }
    }

    /// The request with an image for the model to look at.
    pub fn with_image(self, image: Vec<u8>) -> (r: Self)
        ensures
            r == (LlmChatRequest { image: Some(image), ..self }),
    {
        LlmChatRequest { image: Some(image), ..self }
    }
}

/// A request starts without memory and image, and taking one on changes nothing else.
pub proof fn law_parts_are_taken_on(
    utterance: String,
    history: Vec<Message>,
    templates: PromptTemplates,
    context: PromptTemplateContext,
    memory: Option<String>,
    image: Vec<u8>,
    plain: LlmChatRequest,
    remembering: LlmChatRequest,
    seeing: LlmChatRequest,
)
    requires
        call_ensures(LlmChatRequest::new, (utterance, history, templates, context), plain),
        call_ensures(LlmChatRequest::with_memory_context, (plain, memory), remembering),
        call_ensures(LlmChatRequest::with_image, (remembering, image), seeing),
    ensures
        plain.image is None && plain.memory_context is None,
        remembering.image is None && remembering.memory_context == memory,
        seeing.image == Some(image) && seeing.memory_context == memory,
        seeing.utterance == utterance && seeing.history == history && seeing.templates == templates
            && seeing.template_context == context,
{
}

/// The context of a run tells the run, the server and the time.
pub proof fn law_context_tells_run_and_time(
    run_id: &str,
    config: Config,
    now: LocalTime,
    r: PromptTemplateContext,
)
    requires
        call_ensures(PromptTemplateContext::new, (run_id, &config, now), r),
    ensures
        r.run_id@ == run_id@,
        r.assistant_display_name == config.server.display_name,
        r.server_public_addr == config.server.public_addr,
        r.current_timestamp == now.timestamp,
        r.current_date == now.date,
        r.current_time == now.time,
        r.location_name is None && r.latitude is None && r.longitude is None && r.coordinates is None
            && r.now_playing is None,
{
}

} // verus!
