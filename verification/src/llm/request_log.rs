//! The log of LLM requests: what a record holds, and which files are kept.

use crate::chars;
use crate::chars::{has_prefix, has_suffix, join};
use crate::llm::request::{Content, Message};
use vstd::prelude::*;
use vstd::string::*;

verus! {

/// How a log file's name starts.
pub const LOG_NAME_START: &'static str = "llm-requests.";

/// How a log file's name ends.
pub const LOG_NAME_END: &'static str = ".jsonl";

/// How long log files are kept, in nanoseconds: seven days.
pub const LLM_REQUEST_LOG_RETENTION: u128 = 604_800_000_000_000;

/// Writes the log into a directory.
#[derive(Clone, Debug, PartialEq, Eq)]
pub struct LlmRequestLogger {
    log_dir: String,
}

#[derive(Debug, PartialEq, Eq)]
pub struct LogMessage {
    pub role: &'static str,
    pub content: String,
}

pub ghost struct LogMessageView {
    pub role: Seq<char>,
    pub content: Seq<char>,
}

impl View for LogMessage {
    type V = LogMessageView;

    open spec fn view(&self) -> LogMessageView {
        LogMessageView { role: self.role@, content: self.content@ }
    }
}

pub open spec fn log_message_views(v: Seq<LogMessage>) -> Seq<LogMessageView> {
    v.map_values(|m: LogMessage| m@)
}

#[derive(Debug, PartialEq, Eq)]
pub struct ChatLogRecord {
    pub timestamp: String,
    pub provider: String,
    pub kind: &'static str,
    pub run_id: String,
    pub latency_ms: u128,
    pub messages: Vec<LogMessage>,
    pub response: Option<String>,
    pub error: Option<String>,
}

/// The texts among the parts of a message.
pub open spec fn text_parts(parts: Seq<Content>) -> Seq<Seq<char>>
    decreases parts.len(),
{
    if parts.len() == 0 {
        Seq::empty()
    } else {
        let rest = text_parts(parts.drop_last());
        match parts.last() {
            Content::Text(t) => rest.push(t@),
            Content::Other => rest,
        }
    }
}

/// Texts as one, with a blank between neighbours, unless that is empty.
pub open spec fn content_text(parts: Seq<Seq<char>>) -> Option<Seq<char>> {
    chars::text_or_none(chars::joined(parts, " "@))
}

/// How a message is logged; one without text is not.
pub open spec fn logged(m: Message) -> Option<LogMessageView> {
    match m {
        Message::System(t) => Some(LogMessageView { role: "system"@, content: t@ }),
        Message::User(parts) => match content_text(text_parts(parts@)) {
            Some(content) => Some(LogMessageView { role: "user"@, content }),
            None => None,
        },
        Message::Assistant(parts) => match content_text(text_parts(parts@)) {
            Some(content) => Some(LogMessageView { role: "assistant"@, content }),
            None => None,
        },
    }
}

/// How some messages are logged, in order.
pub open spec fn all_logged(messages: Seq<Message>) -> Seq<LogMessageView>
    decreases messages.len(),
{
    if messages.len() == 0 {
        Seq::empty()
    } else {
        let rest = all_logged(messages.drop_last());
        match logged(messages.last()) {
            Some(m) => rest.push(m),
            None => rest,
        }
    }
}

/// The texts among the parts of a message.
fn texts_of_parts(parts: &Vec<Content>) -> (r: Vec<String>)
    ensures
        chars::texts(r@) == text_parts(parts@),
{
    let mut out: Vec<String> = Vec::new();
    let mut i: usize = 0;
    assert(chars::texts(out@) =~= text_parts(parts@.take(0)));
    while i < parts.len()
        invariant
            i <= parts@.len(),
            chars::texts(out@) == text_parts(parts@.take(i as int)),
        decreases parts@.len() - i,
    {
        proof {
            assert(parts@.take(i + 1).drop_last() =~= parts@.take(i as int));
        }
        if let Content::Text(t) = &parts[i] {
            let ghost before = out@;
            out.push(t.clone());
            assert(chars::texts(out@) =~= chars::texts(before).push(t@));
        }
        i += 1;
    }
    assert(parts@.take(i as int) =~= parts@);
    out
}

/// Texts as one, with a blank between neighbours, unless that is empty.
pub fn message_content_to_text(parts: &Vec<String>) -> (r: Option<String>)
    ensures
        chars::opt_text(r) == content_text(chars::texts(parts@)),
{
    let content = join(parts, " ");
    if content.as_str().is_empty() {
        None
    } else {
        Some(content)
    }
}

/// How a message is logged; one without text is not.
fn log_message(m: &Message) -> (r: Option<LogMessage>)
    ensures
        match r {
            Some(l) => logged(*m) == Some(l@),
            None => logged(*m) is None,
        },
{
    match m {
        Message::System(t) => Some(LogMessage { role: "system", content: t.clone() }),
        Message::User(parts) => match message_content_to_text(&texts_of_parts(parts)) {
            Some(content) => Some(LogMessage { role: "user", content }),
            None => None,
        },
        Message::Assistant(parts) => match message_content_to_text(&texts_of_parts(parts)) {
            Some(content) => Some(LogMessage { role: "assistant", content }),
            None => None,
        },
    }
}

/// How some messages are logged, in order.
pub fn messages_to_log_messages(messages: &Vec<Message>) -> (r: Vec<LogMessage>)
    ensures
        log_message_views(r@) == all_logged(messages@),
{
    let mut out: Vec<LogMessage> = Vec::new();
    let mut i: usize = 0;
    assert(log_message_views(out@) =~= all_logged(messages@.take(0)));
    while i < messages.len()
        invariant
            i <= messages@.len(),
            log_message_views(out@) == all_logged(messages@.take(i as int)),
        decreases messages@.len() - i,
    {
        proof {
            assert(messages@.take(i + 1).drop_last() =~= messages@.take(i as int));
        }
        if let Some(m) = log_message(&messages[i]) {
            let ghost before = out@;
            let ghost shown = m@;
            out.push(m);
            assert(log_message_views(out@) =~= log_message_views(before).push(shown));
        }
        i += 1;
    }
    assert(messages@.take(i as int) =~= messages@);
    out
}

impl LlmRequestLogger {
    pub closed spec fn dir(&self) -> Seq<char> {
        self.log_dir@
    }

    pub fn new(log_dir: String) -> (r: Self)
        ensures
            r.dir() == log_dir@,
    {
        LlmRequestLogger { log_dir }
    }

    /// The directory that the log is written into.
    pub fn log_dir(&self) -> (r: &str)
        ensures
            r@ == self.dir(),
    {
        self.log_dir.as_str()
    }

    /// The record of a chat: the messages that went before, what the user said, and what
    /// came back.
    pub fn log_chat(
        &self,
        timestamp: String,
        provider: &str,
        run_id: &str,
        messages: &Vec<Message>,
        current_user_message: &str,
        response: Option<String>,
        error: Option<String>,
        latency_ms: u128,
    ) -> (r: ChatLogRecord)
        ensures
            r.timestamp == timestamp,
            r.provider@ == provider@,
            r.kind@ == "chat"@,
            r.run_id@ == run_id@,
            r.latency_ms == latency_ms,
            log_message_views(r.messages@) == all_logged(messages@).push(
                (LogMessageView { role: "user"@, content: current_user_message@ }),
            ),
            r.response == response,
            r.error == error,
    {
        let mut log_messages = messages_to_log_messages(messages);
        let ghost before = log_messages@;
        let current = LogMessage { role: "user", content: String::from_str(current_user_message) };
        let ghost shown = current@;
        log_messages.push(current);
        assert(log_message_views(log_messages@) =~= log_message_views(before).push(shown));
        ChatLogRecord {
            timestamp,
            provider: String::from_str(provider),
            kind: "chat",
            run_id: String::from_str(run_id),
            latency_ms,
            messages: log_messages,
            response,
            error,
        }
    }
}

/// The name of the log file of a day.
pub open spec fn log_name(date: Seq<char>) -> Seq<char> {
    LOG_NAME_START@ + date + LOG_NAME_END@
}

/// The name of the log file of a day.
pub fn current_log_name(date: &str) -> (r: String)
    ensures
        r@ == log_name(date@),
{
    let mut name = String::from_str(LOG_NAME_START);
    name.append(date);
    name.append(LOG_NAME_END);
    name
}

/// Whether a name is one of a log file.
pub open spec fn is_log_name(name: Seq<char>) -> bool {
    chars::starts_with(name, LOG_NAME_START@) && chars::ends_with(name, LOG_NAME_END@)
}

/// Whether a directory entry is a log file, given whether it is a file and its name, if
/// that is text.
pub fn is_llm_request_log_file(is_file: bool, name: Option<&str>) -> (r: bool)
    ensures
        r == (is_file && name is Some && is_log_name(name->0@)),
{
    match name {
        Some(name) => is_file && has_prefix(name, LOG_NAME_START) && has_suffix(name, LOG_NAME_END),
        None => false,
    }
}

/// Whether a log file is removed, given how long ago it was written to, in nanoseconds, if
/// that is known.
pub fn is_outdated(age: Option<u128>) -> (r: bool)
    ensures
        r == (age is Some && age->0 > LLM_REQUEST_LOG_RETENTION),
{
    match age {
        Some(age) => age > LLM_REQUEST_LOG_RETENTION,
        None => false,
    }
}

/// The log file of a day is one that the cleanup knows as a log file.
pub proof fn law_log_names_are_recognised(date: Seq<char>)
    ensures
        is_log_name(log_name(date)),
{
    let t = log_name(date);
    assert(t.subrange(0, LOG_NAME_START@.len() as int) =~= LOG_NAME_START@);
    assert(t.subrange(t.len() - LOG_NAME_END@.len(), t.len() as int) =~= LOG_NAME_END@);
}

// ---- Laws ----

/// The texts of a message are taken in order, and what is no text is left out.
pub proof fn law_texts_of_a_message(parts: Seq<Content>, t: String)
    ensures
        text_parts(Seq::empty()).len() == 0,
        text_parts(parts.push(Content::Text(t))) == text_parts(parts).push(t@),
        text_parts(parts.push(Content::Other)) == text_parts(parts),
{
    assert(parts.push(Content::Text(t)).drop_last() =~= parts);
    assert(parts.push(Content::Other).drop_last() =~= parts);
}

/// The texts are joined by spaces, and nothing makes no content.
pub proof fn law_content_is_joined(parts: Seq<Seq<char>>, t: Seq<char>)
    ensures
        content_text(Seq::empty()) is None,
        t.len() > 0 ==> content_text(seq![t]) == Some(t),
        parts.len() > 0 && t.len() > 0 ==> content_text(parts.push(t)) == Some(
            chars::joined(parts, " "@) + " "@ + t,
        ),
{
    chars::law_parts_are_joined_in_order(parts, t, " "@);
}

/// A message is logged under the role of its speaker, with its text; one without text is not
/// logged, unless it is the system's.
pub proof fn law_message_is_logged_by_role(t: String, parts: Vec<Content>)
    ensures
        logged(Message::System(t)) == Some(LogMessageView { role: "system"@, content: t@ }),
        content_text(text_parts(parts@)) matches Some(c) ==> logged(Message::User(parts)) == Some(
            LogMessageView { role: "user"@, content: c },
        ) && logged(Message::Assistant(parts)) == Some(
            LogMessageView { role: "assistant"@, content: c },
        ),
        content_text(text_parts(parts@)) is None ==> logged(Message::User(parts)) is None && logged(
            Message::Assistant(parts),
        ) is None,
{
}

/// The messages are logged in order.
pub proof fn law_messages_are_logged_in_order(messages: Seq<Message>, m: Message)
    ensures
        all_logged(Seq::empty()).len() == 0,
        logged(m) is None ==> all_logged(messages.push(m)) == all_logged(messages),
        logged(m) matches Some(v) ==> all_logged(messages.push(m)) == all_logged(messages).push(v),
{
    assert(messages.push(m).drop_last() =~= messages);
}

/// A log is named by its date, and other files are not taken for logs.
pub proof fn law_log_is_named_by_its_date(date: Seq<char>, file: bool, n: Option<&str>, r: bool)
    requires
        call_ensures(is_llm_request_log_file, (file, n), r),
    ensures
        log_name(date) == "llm-requests."@ + date + ".jsonl"@,
        r ==> file && n is Some,
        n matches Some(s) ==> (file && s@ == log_name(date) ==> r),
        n matches Some(s) ==> (r ==> chars::starts_with(s@, "llm-requests."@) && chars::ends_with(
            s@,
            ".jsonl"@,
        )),
{
    law_log_names_are_recognised(date);
}

/// A log is outdated once it is older than seven days, and never while its age is not known.
pub proof fn law_logs_are_kept_for_a_week(age: Option<u128>, r: bool)
    requires
        call_ensures(is_outdated, (age,), r),
    ensures
        r <==> (age matches Some(n) && n > 7 * 24 * 3600 * 1_000_000_000),
{
}

/// The record of a chat has what was said before, and then what the user says now.
pub proof fn law_record_ends_with_the_user(
    l: LlmRequestLogger,
    timestamp: String,
    provider: &str,
    run_id: &str,
    messages: Vec<Message>,
    said: &str,
    response: Option<String>,
    error: Option<String>,
    latency: u128,
    r: ChatLogRecord,
)
    requires
        call_ensures(
            LlmRequestLogger::log_chat,
            (&l, timestamp, provider, run_id, &messages, said, response, error, latency),
            r,
        ),
    ensures
        r.messages@.len() == all_logged(messages@).len() + 1,
        r.messages@.last().role@ == "user"@,
        r.messages@.last().content@ == said@,
        log_message_views(r.messages@).drop_last() == all_logged(messages@),
        r.response == response,
        r.error == error,
        r.run_id@ == run_id@,
        r.provider@ == provider@,
        r.timestamp == timestamp,
        r.latency_ms == latency,
        r.kind@ == "chat"@,
{
    let v = log_message_views(r.messages@);
    assert(v.len() == r.messages@.len());
    assert(v.last() == r.messages@.last()@);
    assert(v.drop_last() =~= all_logged(messages@));
}

} // verus!
