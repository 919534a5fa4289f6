//! Chats and completions.

use crate::chars;
use crate::chars::{is_blank, join};
use crate::config::Config;
use crate::external::text3;
use crate::llm::request::{LlmChatRequest, PromptTemplateContext, PromptTemplates};
use crate::moment::LocalTime;
use crate::services::aibus::envelope;
use crate::services::aibus::envelope::{decoded, Code, EncryptedData, Status};
use vstd::prelude::*;
use vstd::string::*;

verus! {

pub const CHAT_COMPLETION_RESPONSE: &'static str = "humane.aibus.ChatCompletionResponse";

pub const COMPLETION_RESPONSE: &'static str = "humane.aibus.CompletionResponse";

/// The run ids that such calls go under.
pub const CHAT_COMPLETION_RUN: &'static str = "encrypted-chat-completion";

pub const COMPLETION_RUN: &'static str = "encrypted-completion";

/// What is said to the model where there is nothing to say.
pub const GREETING: &'static str = "Hello";

#[derive(Debug, PartialEq, Eq)]
pub struct ChatMessage {
    pub role: String,
    pub content: String,
}

/// The lines of a prompt: who said what, for each message that is not blank.
pub open spec fn prompt_lines(messages: Seq<ChatMessage>) -> Seq<Seq<char>>
    decreases messages.len(),
{
    if messages.len() == 0 {
        Seq::empty()
    } else {
        let before = prompt_lines(messages.drop_last());
        let m = messages.last();
        if chars::trimmed(m.content@).len() == 0 {
            before
        } else {
            before.push(m.role@ + ": "@ + m.content@)
        }
    }
}

/// The prompt for some messages.
pub open spec fn prompt(messages: Seq<ChatMessage>) -> Seq<char> {
    let t = chars::joined(prompt_lines(messages), "\n"@);
    if t.len() == 0 {
        GREETING@
    } else {
        t
    }
}

/// The prompt for some messages.
pub fn chat_prompt(messages: &Vec<ChatMessage>) -> (r: String)
    ensures
        r@ == prompt(messages@),
{
    let mut lines: Vec<String> = Vec::new();
    let mut i: usize = 0;
    assert(chars::texts(lines@) =~= prompt_lines(messages@.take(0)));
    while i < messages.len()
        invariant
            i <= messages@.len(),
            chars::texts(lines@) == prompt_lines(messages@.take(i as int)),
        decreases messages@.len() - i,
    {
        proof {
            assert(messages@.take(i + 1).drop_last() =~= messages@.take(i as int));
        }
        let m = &messages[i];
        if !is_blank(&m.content) {
            let line = text3(&m.role, ": ", &m.content);
            let ghost before = lines@;
            let ghost shown = line@;
            lines.push(line);
            assert(chars::texts(lines@) =~= chars::texts(before).push(shown));
        }
        i += 1;
    }
    assert(messages@.take(i as int) =~= messages@);
    let t = join(&lines, "\n");
    if t.as_str().is_empty() {
        String::from_str(GREETING)
    } else {
        t
    }
}

/// Whether a request asks the model this, without a history, in the context of a run.
pub open spec fn asks(
    request: LlmChatRequest,
    prompt: Seq<char>,
    run_id: Seq<char>,
    templates: PromptTemplates,
    config: Config,
    now: LocalTime,
) -> bool {
    &&& request.utterance@ == prompt
    &&& request.history@.len() == 0
    &&& request.templates == templates
    &&& request.template_context.run_id@ == run_id
    &&& request.template_context.assistant_display_name == config.server.display_name
    &&& request.template_context.server_public_addr == config.server.public_addr
    &&& request.template_context.current_timestamp == now.timestamp
    &&& request.template_context.current_date == now.date
    &&& request.template_context.current_time == now.time
    &&& request.template_context.location_name is None
    &&& request.template_context.latitude is None
    &&& request.template_context.longitude is None
    &&& request.template_context.coordinates is None
    &&& request.template_context.now_playing is None
    &&& request.memory_context is None
    &&& request.image is None
}

/// The names of the messages that such requests are.
pub const CHAT_COMPLETION_REQUEST: &'static str = "ChatCompletionRequest";

pub const COMPLETION_REQUEST: &'static str = "CompletionRequest";

/// What the model is asked for a chat, given the messages that were decoded.
pub fn chat_completion_request(
    messages: Result<Vec<ChatMessage>, String>,
    templates: PromptTemplates,
    config: &Config,
    now: LocalTime,
) -> (r: Result<LlmChatRequest, Status>)
    ensures
        match messages {
            Ok(messages) => r is Ok && asks(
                r->Ok_0,
                prompt(messages@),
                CHAT_COMPLETION_RUN@,
                templates,
                *config,
                now,
            ),
            Err(e) => r is Err && envelope::is_status(
                r->Err_0,
                Code::InvalidArgument,
                envelope::bad_message(CHAT_COMPLETION_REQUEST@, e@),
            ),
        },
{
    match decoded(CHAT_COMPLETION_REQUEST, messages) {
        Ok(messages) => {
            let context = PromptTemplateContext::new(CHAT_COMPLETION_RUN, config, now);
            Ok(LlmChatRequest::new(chat_prompt(&messages), Vec::new(), templates, context))
        },
        Err(e) => Err(e),
    }
}

/// What the model is asked for a completion, given the prompt that was decoded.
pub fn completion_request(
    prompt: Result<String, String>,
    templates: PromptTemplates,
    config: &Config,
    now: LocalTime,
) -> (r: Result<LlmChatRequest, Status>)
    ensures
        match prompt {
            Ok(prompt) => r is Ok && asks(
                r->Ok_0,
                prompt@,
                COMPLETION_RUN@,
                templates,
                *config,
                now,
            ),
            Err(e) => r is Err && envelope::is_status(
                r->Err_0,
                Code::InvalidArgument,
                envelope::bad_message(COMPLETION_REQUEST@, e@),
            ),
        },
{
    match decoded(COMPLETION_REQUEST, prompt) {
        Ok(prompt) => {
            let context = PromptTemplateContext::new(COMPLETION_RUN, config, now);
            Ok(LlmChatRequest::new(prompt, Vec::new(), templates, context))
        },
        Err(e) => Err(e),
    }
}

/// A choice that a chat offers.
#[derive(Debug, PartialEq, Eq)]
pub struct ChatChoice {
    pub role: &'static str,
    pub content: String,
    pub stop_reason: &'static str,
}

/// What a chat is answered with: what the model said, or what went wrong, in its place.
pub fn chat_choice(outcome: Result<String, String>) -> (r: ChatChoice)
    ensures
        r.role@ == "assistant"@,
        r.stop_reason@ == "stop"@,
        r.content == match outcome {
            Ok(text) => text,
            Err(error) => error,
        },
{
    let content = match outcome {
        Ok(text) => text,
        Err(error) => error,
    };
    ChatChoice { role: "assistant", content, stop_reason: "stop" }
}

/// A choice that a completion without a chat offers.
#[derive(Debug, PartialEq, Eq)]
pub struct CompletionChoice {
    pub text: String,
    pub index: i32,
    pub finish_reason: &'static str,
}

/// What a completion is answered with: what the model said, or what went wrong, in its
/// place.
pub fn completion_choice(outcome: Result<String, String>) -> (r: CompletionChoice)
    ensures
        r.index == 0,
        r.finish_reason@ == "stop"@,
        r.text == match outcome {
            Ok(text) => text,
            Err(error) => error,
        },
{
    let text = match outcome {
        Ok(text) => text,
        Err(error) => error,
    };
    CompletionChoice { text, index: 0, finish_reason: "stop" }
}

/// The envelope of an encoded answer to a chat.
pub fn encrypted_chat_completion(response: Vec<u8>) -> (r: EncryptedData)
    ensures
        envelope::is_envelope(r, CHAT_COMPLETION_RESPONSE@, response@),
{
    EncryptedData::new(CHAT_COMPLETION_RESPONSE, response)
}

/// The envelope of an encoded completion.
pub fn encrypted_completion(response: Vec<u8>) -> (r: EncryptedData)
    ensures
        envelope::is_envelope(r, COMPLETION_RESPONSE@, response@),
{
    EncryptedData::new(COMPLETION_RESPONSE, response)
}

// ---- Laws ----

/// A message with something in it makes a line with its role in front, behind the others; a blank
/// one makes none.
pub proof fn law_messages_make_lines(messages: Seq<ChatMessage>, m: ChatMessage)
    ensures
        prompt_lines(Seq::empty()).len() == 0,
        chars::trimmed(m.content@).len() == 0 ==> prompt_lines(messages.push(m)) == prompt_lines(
            messages,
        ),
        chars::trimmed(m.content@).len() > 0 ==> prompt_lines(messages.push(m)) == prompt_lines(
            messages,
        ).push(m.role@ + ": "@ + m.content@),
{
    assert(messages.push(m).drop_last() =~= messages);
}

/// The prompt is the lines, one below the other; where nothing is said it is a greeting.
pub proof fn law_prompt_has_a_line_for_each_message(messages: Seq<ChatMessage>, m: ChatMessage)
    ensures
        prompt_lines(messages).len() == 0 ==> prompt(messages) == "Hello"@,
        prompt_lines(messages).len() == 0 && chars::trimmed(m.content@).len() > 0 ==> prompt(
            messages.push(m),
        ) == m.role@ + ": "@ + m.content@,
        prompt_lines(messages).len() > 0 && chars::joined(prompt_lines(messages), "\n"@).len() > 0
            && chars::trimmed(m.content@).len() > 0 ==> prompt(messages.push(m)) == prompt(messages)
            + "\n"@ + (m.role@ + ": "@ + m.content@),
{
    law_messages_make_lines(messages, m);
    reveal_strlit(": ");
    let line = m.role@ + ": "@ + m.content@;
    chars::law_parts_are_joined_in_order(prompt_lines(messages), line, "\n"@);
    if prompt_lines(messages).len() == 0 {
        assert(prompt_lines(messages).push(line) =~= seq![line]);
    }
}

/// A request for a completion asks the prompt alone: without history, memory or image, and with no
/// place and nothing playing.
pub proof fn law_completion_asks_the_prompt_alone(
    request: LlmChatRequest,
    prompt: Seq<char>,
    run_id: Seq<char>,
    templates: PromptTemplates,
    config: Config,
    now: LocalTime,
)
    requires
        asks(request, prompt, run_id, templates, config, now),
    ensures
        request.utterance@ == prompt,
        request.history@.len() == 0,
        request.image is None,
        request.memory_context is None,
        request.templates == templates,
        request.template_context.run_id@ == run_id,
        request.template_context.assistant_display_name == config.server.display_name,
        request.template_context.server_public_addr == config.server.public_addr,
        request.template_context.current_timestamp == now.timestamp,
        request.template_context.current_date == now.date,
        request.template_context.current_time == now.time,
        request.template_context.location_name is None,
        request.template_context.now_playing is None,
{
}

/// What the model says is the answer, and a failure is told in its place.
pub proof fn law_answer_is_what_was_said(
    outcome: Result<String, String>,
    chat: ChatChoice,
    completion: CompletionChoice,
)
    requires
        call_ensures(chat_choice, (outcome,), chat),
        call_ensures(completion_choice, (outcome,), completion),
    ensures
        outcome matches Ok(t) ==> chat.content == t && completion.text == t,
        outcome matches Err(e) ==> chat.content == e && completion.text == e,
        chat.role@ == "assistant"@,
        chat.stop_reason@ == completion.finish_reason@,
        completion.index == 0,
{
}

/// A request that can be read asks its prompt; one that cannot is refused.
pub proof fn law_readable_request_is_asked(
    messages: Result<Vec<ChatMessage>, String>,
    text: Result<String, String>,
    templates: PromptTemplates,
    config: Config,
    now: LocalTime,
    chat: Result<LlmChatRequest, Status>,
    completion: Result<LlmChatRequest, Status>,
)
    requires
        call_ensures(chat_completion_request, (messages, templates, &config, now), chat),
        call_ensures(completion_request, (text, templates, &config, now), completion),
    ensures
        chat is Ok <==> messages is Ok,
        completion is Ok <==> text is Ok,
        chat matches Ok(q) ==> q.utterance@ == prompt(messages->Ok_0@) && q.history@.len() == 0
            && q.image is None,
        completion matches Ok(q) ==> q.utterance@ == text->Ok_0@ && q.history@.len() == 0
            && q.image is None,
        chat matches Err(s) ==> s.code == Code::InvalidArgument && s.message@
            == "bad "@ + "ChatCompletionRequest"@ + ": "@ + messages->Err_0@,
        completion matches Err(s) ==> s.code == Code::InvalidArgument && s.message@ == "bad "@
            + "CompletionRequest"@ + ": "@ + text->Err_0@,
{
}

} // verus!
