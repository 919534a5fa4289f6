//! A chat with the model: what is sent, when it is cut short, and what its outcome means.

use crate::chars::same_text;
use crate::codec;
use crate::llm::ChatResult;
use vstd::prelude::*;
use vstd::string::*;

verus! {

/// Marks an end that comes from the device's vision request.
pub const DEFERRED_VISION_SENTINEL: &'static str = "__HUMANE_DEFERRED_VISION__";

/// The name of the tool that asks to see what the user sees.
pub const UNDERSTAND_SCENE: &'static str = "understand_scene";

/// A part of what the user sends to the model.
#[derive(Debug, PartialEq, Eq)]
pub enum UserPart {
    Text(String),
    /// A JPEG image in Base64.
    Jpeg(String),
}

pub ghost enum UserPartView {
    Text(Seq<char>),
    Jpeg(Seq<char>),
}

impl View for UserPart {
    type V = UserPartView;

    open spec fn view(&self) -> UserPartView {
        match *self {
            UserPart::Text(t) => UserPartView::Text(t@),
            UserPart::Jpeg(t) => UserPartView::Jpeg(t@),
        }
    }
}

pub open spec fn part_views(v: Seq<UserPart>) -> Seq<UserPartView> {
    v.map_values(|p: UserPart| p@)
}

/// What the user sends: the utterance, and the image if there is one.
pub fn chat_content(utterance: &str, image: &Option<Vec<u8>>) -> (r: Vec<UserPart>)
    ensures
        part_views(r@) == match *image {
            Some(bytes) => seq![
                UserPartView::Text(utterance@),
                UserPartView::Jpeg(codec::base64_text(bytes@)),
            ],
            None => seq![UserPartView::Text(utterance@)],
        },
{
    let mut parts: Vec<UserPart> = Vec::new();
    let said = UserPart::Text(String::from_str(utterance));
    let ghost shown = said@;
    parts.push(said);
    assert(part_views(parts@) =~= seq![shown]);
    if let Some(bytes) = image {
        let seen = UserPart::Jpeg(codec::encode_standard(bytes.as_slice()));
        let ghost pictured = seen@;
        parts.push(seen);
        assert(part_views(parts@) =~= seq![shown, pictured]);
    }
    parts
}

/// A part of what the model answers.
#[derive(Debug, PartialEq, Eq)]
pub enum AssistantPart {
    /// A call of the tool of this name.
    ToolCall(String),
    Other,
}

/// Whether the model calls for the device's camera.
pub open spec fn calls_for_vision(parts: Seq<AssistantPart>) -> bool {
    exists|i: int|
        0 <= i < parts.len() && (#[trigger] parts[i]) is ToolCall && parts[i]->ToolCall_0@
            == UNDERSTAND_SCENE@
}

/// What to do after the model has answered.
#[derive(Clone, Copy, Debug, PartialEq, Eq)]
pub enum HookDecision {
    Continue,
    /// End the chat, for this reason.
    Terminate(&'static str),
}

/// Keeps the camera tool from being executed: the chat ends when the model calls it.
pub fn on_completion_response(parts: &Vec<AssistantPart>) -> (r: HookDecision)
    ensures
        calls_for_vision(parts@) ==> r is Terminate && r->Terminate_0@ == DEFERRED_VISION_SENTINEL@,
        !calls_for_vision(parts@) ==> r is Continue,
{
    let mut i: usize = 0;
    while i < parts.len()
        invariant
            i <= parts@.len(),
            forall|k: int|
                0 <= k < i ==> !((#[trigger] parts@[k]) is ToolCall && parts@[k]->ToolCall_0@
                    == UNDERSTAND_SCENE@),
        decreases parts@.len() - i,
    {
        if let AssistantPart::ToolCall(name) = &parts[i] {
            if same_text(name, UNDERSTAND_SCENE) {
                assert(parts@[i as int] is ToolCall);
                return HookDecision::Terminate(DEFERRED_VISION_SENTINEL);
            }
        }
        i += 1;
    }
    HookDecision::Continue
}

/// Why a chat failed.
#[derive(Debug, PartialEq, Eq)]
pub enum ChatFailure {
    /// It was ended, for this reason. Holds what to tell the user otherwise.
    Cancelled { reason: String, message: String },
    /// Anything else. Holds what to tell the user.
    Other { message: String },
}

/// Whether a chat was ended because the model called for the camera.
pub open spec fn is_vision_end(failure: ChatFailure) -> bool {
    failure is Cancelled && failure->reason@ == DEFERRED_VISION_SENTINEL@
}

/// What the outcome of a chat means.
pub fn chat(outcome: Result<String, ChatFailure>) -> (r: Result<ChatResult, String>)
    ensures
        match outcome {
            Ok(text) => r == Ok::<ChatResult, String>(ChatResult::Text(text)),
            Err(failure) => if is_vision_end(failure) {
                r == Ok::<ChatResult, String>(ChatResult::DeferredVision)
            } else {
                r is Err && r->Err_0 == match failure {
                    ChatFailure::Cancelled { message, .. } => message,
                    ChatFailure::Other { message } => message,
                }
            },
        },
{
    match outcome {
        Ok(text) => Ok(ChatResult::Text(text)),
        Err(ChatFailure::Cancelled { reason, message }) => if same_text(
            &reason,
            DEFERRED_VISION_SENTINEL,
        ) {
            Ok(ChatResult::DeferredVision)
        } else {
            Err(message)
        },
        Err(ChatFailure::Other { message }) => Err(message),
    }
}

/// The response and the error that are logged of a chat.
pub fn logged_outcome(result: &Result<ChatResult, String>) -> (r: (Option<String>, Option<String>))
    ensures
        r.0 == match *result {
            Ok(ChatResult::Text(text)) => Some(text),
            _ => None,
        },
        r.1 == match *result {
            Err(error) => Some(error),
            Ok(_) => None,
        },
{
    match result {
        Ok(ChatResult::Text(text)) => (Some(text.clone()), None),
        Ok(_) => (None, None),
        Err(error) => (None, Some(error.clone())),
    }
}

/// How many tools may run at once: at least one.
pub fn tool_concurrency(configured: usize) -> (r: usize)
    ensures
        r == if configured == 0 {
            1
        } else {
            configured as int
        },
{
    if configured == 0 {
        1
    } else {
        configured
    }
}

// ---- Laws ----

/// What is said goes before the image, and there is an image only where one was sent.
pub proof fn law_words_go_before_the_image(
    utterance: &str,
    image: Option<Vec<u8>>,
    r: Vec<UserPart>,
)
    requires
        call_ensures(chat_content, (utterance, &image), r),
    ensures
        r@.len() == if image is Some {
            2int
        } else {
            1
        },
        r@[0] matches UserPart::Text(t) && t@ == utterance@,
        image matches Some(bytes) ==> (r@[1] matches UserPart::Jpeg(t) && t@ == codec::base64_text(
            bytes@,
        )),
{
    let v = part_views(r@);
    assert(v.len() == r@.len());
    assert(v[0] == r@[0]@);
    if image is Some {
        assert(v[1] == r@[1]@);
    }
}

/// A chat ends for vision exactly where the model calls the tool for it, and what ends so is no
/// failure; any other failure is told as it is.
pub proof fn law_call_for_vision_ends_the_chat(
    parts: Vec<AssistantPart>,
    k: int,
    d: HookDecision,
    reason: String,
    message: String,
    r: Result<ChatResult, String>,
)
    requires
        call_ensures(on_completion_response, (&parts,), d),
        call_ensures(
            chat,
            (Err::<String, ChatFailure>(ChatFailure::Cancelled { reason, message }),),
            r,
        ),
    ensures
        0 <= k < parts@.len() && (parts@[k] matches AssistantPart::ToolCall(n) && n@
            == "understand_scene"@) ==> d is Terminate,
        d is Terminate ==> exists|i: int|
            0 <= i < parts@.len() && ((#[trigger] parts@[i]) matches AssistantPart::ToolCall(n) && n@
                == "understand_scene"@),
        d matches HookDecision::Terminate(why) ==> (reason@ == why@ ==> r == Ok::<ChatResult, String>(
            ChatResult::DeferredVision,
        )),
        reason@ != "__HUMANE_DEFERRED_VISION__"@ ==> r == Err::<ChatResult, String>(message),
{
}

/// What the model says is the answer, and a failure is told by its message.
pub proof fn law_text_is_the_answer(
    text: String,
    message: String,
    said: Result<ChatResult, String>,
    failed: Result<ChatResult, String>,
)
    requires
        call_ensures(chat, (Ok::<String, ChatFailure>(text),), said),
        call_ensures(
            chat,
            (Err::<String, ChatFailure>(ChatFailure::Other { message }),),
            failed,
        ),
    ensures
        said == Ok::<ChatResult, String>(ChatResult::Text(text)),
        failed == Err::<ChatResult, String>(message),
{
}

/// The log has the text of an answer or the error, never both, and neither of what the device does.
pub proof fn law_log_has_answer_or_error(
    result: Result<ChatResult, String>,
    r: (Option<String>, Option<String>),
)
    requires
        call_ensures(logged_outcome, (&result,), r),
    ensures
        result matches Ok(ChatResult::Text(t)) ==> r == (Some(t), None::<String>),
        result matches Err(e) ==> r == (None::<String>, Some(e)),
        result is Ok ==> r.1 is None,
        r.0 is Some ==> result matches Ok(ChatResult::Text(_)),
{
}

/// As many tools run at once as are configured, but one at least.
pub proof fn law_one_tool_runs_at_least(n: usize, r: usize)
    requires
        call_ensures(tool_concurrency, (n,), r),
    ensures
        r >= 1,
        n >= 1 ==> r == n,
        n == 0 ==> r == 1,
{
}

} // verus!
