use penumbra::config::Config;
use penumbra::llm::providers::{EchoProvider, OpenAiProvider, OPENAI_KEY_NOT_SET};
use penumbra::llm::request::{
    Content, LlmChatRequest, Message, PromptTemplateContext, PromptTemplates,
};
use penumbra::llm::request_log::{
    current_log_name, is_llm_request_log_file, is_outdated, message_content_to_text,
    messages_to_log_messages, LlmRequestLogger, LLM_REQUEST_LOG_RETENTION,
};
use penumbra::llm::rig_backend::{
    chat, chat_content, logged_outcome, on_completion_response, tool_concurrency, AssistantPart,
    ChatFailure, HookDecision, UserPart, DEFERRED_VISION_SENTINEL,
};
use penumbra::llm::tools::control_music::{ControlMusicTool, ControlMusicToolContext};
use penumbra::llm::tools::play_music::{PlayMusicTool, PlayMusicToolContext};
use penumbra::llm::ChatResult;
use penumbra::moment::{local_time, log_timestamp, utc_date};

fn request(utterance: &str) -> LlmChatRequest {
    let templates =
        PromptTemplates { system_prompt: "s".to_string(), status_prompt: "p".to_string() };
    let context =
        PromptTemplateContext::new("run", &Config::default(), local_time(0, 0, 0).unwrap());
    LlmChatRequest::new(utterance.to_string(), Vec::new(), templates, context)
}

#[test]
fn the_echo_answers_what_it_is_told() {
    assert_eq!(EchoProvider.chat(&request("hi")), Ok(ChatResult::Text("Echo: hi".to_string())));
    assert_eq!(
        EchoProvider.chat(&request("hi").with_image(vec![0; 12])),
        Ok(ChatResult::Text("Echo: [image] hi (12 bytes)".to_string()))
    );
    let remembered = request("hi").with_memory_context(Some("m".to_string()));
    assert_eq!(remembered.memory_context.as_deref(), Some("m"));
    assert_eq!(remembered.image, None);
}

#[test]
fn a_context_tells_the_time() {
    let time = local_time(86_400, 5_000_000, 3_600).unwrap();
    assert_eq!(time.timestamp, "1970-01-02T01:00:00.005+01:00");
    assert_eq!(time.date, "1970-01-02");
    assert_eq!(time.time, "01:00:00 +0100");
    assert_eq!(local_time(0, 0, 86_400), None);
    assert_eq!(local_time(i64::MAX, 0, 0), None);
    let mut config = Config::default();
    config.server.display_name = Some("Pin".to_string());
    config.server.public_addr = "addr".to_string();
    let context = PromptTemplateContext::new("run", &config, time);
    assert_eq!(context.run_id, "run");
    assert_eq!(context.assistant_display_name.as_deref(), Some("Pin"));
    assert_eq!(context.server_public_addr, "addr");
    assert_eq!(context.current_date, "1970-01-02");
    assert_eq!(context.location_name, None);
    assert_eq!(context.now_playing, None);
}

#[test]
fn open_ai_needs_a_key() {
    let mut llm = Config::default().llm;
    assert_eq!(OpenAiProvider::build(&llm, None), Err(OPENAI_KEY_NOT_SET.to_string()));
    llm.web_search = true;
    llm.provider = "openai-compatible".to_string();
    llm.base_url = Some("http://b".to_string());
    let plan = OpenAiProvider::build(&llm, Some("k".to_string())).unwrap();
    assert!(!plan.web_search);
    assert_eq!(plan.base_url.as_deref(), Some("http://b"));
    llm.provider = "openai".to_string();
    assert!(OpenAiProvider::build(&llm, Some("k".to_string())).unwrap().web_search);
}

#[test]
fn an_image_goes_along_as_base64() {
    assert_eq!(chat_content("u", &None), vec![UserPart::Text("u".to_string())]);
    assert_eq!(
        chat_content("u", &Some(vec![1, 2, 3, 255])),
        vec![UserPart::Text("u".to_string()), UserPart::Jpeg("AQID/w==".to_string())]
    );
}

#[test]
fn a_look_at_the_scene_ends_the_run() {
    let call = |name: &str| AssistantPart::ToolCall(name.to_string());
    assert_eq!(
        on_completion_response(&vec![AssistantPart::Other, call("understand_scene")]),
        HookDecision::Terminate(DEFERRED_VISION_SENTINEL)
    );
    assert_eq!(on_completion_response(&vec![call("weather")]), HookDecision::Continue);
    assert_eq!(on_completion_response(&Vec::new()), HookDecision::Continue);
}

#[test]
fn a_run_that_was_cut_short_defers_to_vision() {
    assert_eq!(chat(Ok("t".to_string())), Ok(ChatResult::Text("t".to_string())));
    let cancelled = |reason: &str| {
        chat(Err(ChatFailure::Cancelled { reason: reason.to_string(), message: "m".to_string() }))
    };
    assert_eq!(cancelled(DEFERRED_VISION_SENTINEL), Ok(ChatResult::DeferredVision));
    assert_eq!(cancelled("else"), Err("m".to_string()));
    assert_eq!(chat(Err(ChatFailure::Other { message: "o".to_string() })), Err("o".to_string()));
    assert_eq!(
        logged_outcome(&Ok(ChatResult::Text("t".to_string()))),
        (Some("t".to_string()), None)
    );
    assert_eq!(logged_outcome(&Ok(ChatResult::DeferredVision)), (None, None));
    assert_eq!(logged_outcome(&Err("e".to_string())), (None, Some("e".to_string())));
    assert_eq!(tool_concurrency(0), 1);
    assert_eq!(tool_concurrency(4), 4);
}

#[test]
fn messages_are_logged_by_their_text() {
    let text = |t: &str| Content::Text(t.to_string());
    let messages = vec![
        Message::System("sys".to_string()),
        Message::User(vec![text("a"), Content::Other, text("b")]),
        Message::User(vec![Content::Other]),
        Message::Assistant(vec![text("c")]),
    ];
    let logged: Vec<(&str, String)> =
        messages_to_log_messages(&messages).into_iter().map(|m| (m.role, m.content)).collect();
    assert_eq!(
        logged,
        vec![
            ("system", "sys".to_string()),
            ("user", "a b".to_string()),
            ("assistant", "c".to_string())
        ]
    );
    assert_eq!(message_content_to_text(&vec![String::new()]), None);
    assert_eq!(message_content_to_text(&vec![String::new(), String::new()]).as_deref(), Some(" "));

    let logger = LlmRequestLogger::new("/logs".to_string());
    assert_eq!(logger.log_dir(), "/logs");
    let record = logger.log_chat(
        "ts".to_string(),
        "OpenAI",
        "run",
        &messages,
        "now",
        Some("answer".to_string()),
        None,
        12,
    );
    assert_eq!(record.kind, "chat");
    assert_eq!(record.messages.len(), 4);
    assert_eq!(record.messages[3].role, "user");
    assert_eq!(record.messages[3].content, "now");
    assert_eq!(record.response.as_deref(), Some("answer"));
    assert_eq!(record.latency_ms, 12);
}

#[test]
fn logs_are_found_and_dropped_by_name_and_age() {
    let name = current_log_name(&utc_date(0, 0).unwrap());
    assert_eq!(name, "llm-requests.1970-01-01.jsonl");
    assert!(is_llm_request_log_file(true, Some(&name)));
    assert!(!is_llm_request_log_file(false, Some(&name)));
    assert!(!is_llm_request_log_file(true, Some("llm-requests.txt")));
    assert!(!is_llm_request_log_file(true, None));
    assert!(!is_outdated(Some(LLM_REQUEST_LOG_RETENTION)));
    assert!(is_outdated(Some(LLM_REQUEST_LOG_RETENTION + 1)));
    assert!(!is_outdated(None));
    assert_eq!(log_timestamp(1, 234_567_890).as_deref(), Some("1970-01-01T00:00:01.234Z"));
    assert_eq!(log_timestamp(i64::MAX, 0), None);
}

#[test]
fn the_tools_describe_their_arguments() {
    let play = PlayMusicTool.definition();
    assert_eq!(play.name, "play_music");
    assert!(play.description.starts_with("Play music on the device. Use whenever"));
    assert!(play.description.contains("most-recent message — never reuse a song"));
    let schema: serde_json::Value = serde_json::from_str(&play.parameters.to_text()).unwrap();
    assert_eq!(schema["type"], "object");
    assert_eq!(schema["required"], serde_json::Value::Array(Vec::new()));
    assert_eq!(schema["properties"]["latest_album"]["type"], "boolean");
    assert_eq!(schema["properties"]["artist"]["description"], "Artist / band name, if named.");
    assert_eq!(schema["properties"].as_object().unwrap().len(), 6);

    let control = ControlMusicTool.definition();
    assert_eq!(control.name, "control_music");
    assert!(control.description.ends_with("by name — use play_music for that."));
    let schema: serde_json::Value = serde_json::from_str(&control.parameters.to_text()).unwrap();
    assert_eq!(schema["required"][0], "action");
    let actions: Vec<&str> = schema["properties"]["action"]["enum"]
        .as_array()
        .unwrap()
        .iter()
        .map(|a| a.as_str().unwrap())
        .collect();
    assert_eq!(
        actions,
        ["pause", "resume", "next", "previous", "restart", "favorite", "play_favorites", "radio"]
    );
    assert_eq!(PlayMusicTool.call().to_text(), "{}");
    assert_eq!(ControlMusicTool.embedding_docs().len(), 3);
    assert!(PlayMusicTool.embedding_docs()[0].contains("'play my <playlist>'"));
    assert_eq!(PlayMusicTool.context(), PlayMusicToolContext);
    assert_eq!(PlayMusicTool::init(PlayMusicToolContext), PlayMusicTool);
    assert_eq!(ControlMusicTool.context(), ControlMusicToolContext);
    assert_eq!(ControlMusicTool::init(ControlMusicToolContext), ControlMusicTool);
}
