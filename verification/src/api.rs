//! What the web portal's REST API decides and answers.

pub mod device;
pub mod persist;
pub mod settings;
pub mod settings_schema;


use crate::chars;
use crate::config::Config;
use crate::external::{text2, text3, text5};
use crate::json;
use crate::json::{text, Json, ObjectBuilder};
use crate::number;
use crate::number::u64_text;
use vstd::prelude::*;
use vstd::string::*;

verus! {

pub const STATUS_OK: u16 = 200;

pub const STATUS_NO_CONTENT: u16 = 204;

pub const STATUS_BAD_REQUEST: u16 = 400;

pub const STATUS_NOT_FOUND: u16 = 404;

pub const STATUS_INTERNAL_SERVER_ERROR: u16 = 500;

/// What the server is called where it has no name.
pub const DEFAULT_NAME: &'static str = "Penumbra";

/// The server's name.
pub open spec fn server_name(config: Config) -> Seq<char> {
    match config.server.display_name {
        Some(name) => name@,
        None => DEFAULT_NAME@,
    }
}

/// The server's name.
pub fn display_name(config: &Config) -> (r: String)
    ensures
        r@ == server_name(*config),
{
    match &config.server.display_name {
        Some(name) => name.clone(),
        None => String::from_str(DEFAULT_NAME),
    }
}

// ---- Health ----

/// What a client that asks for the server's health is told.
pub open spec fn health_view(config: Config, version: Seq<char>) -> json::JsonView {
    json::JsonView::Object(
        seq![
            ("name"@, json::JsonView::Str(server_name(config))),
            ("status"@, json::JsonView::Str("ok"@)),
            ("version"@, json::JsonView::Str(version)),
        ],
    )
}

/// What a client that asks for the server's health is told.
pub fn health(config: &Config, version: &str) -> (r: Json)
    ensures
        r@ == health_view(*config, version@),
        json::writable(r@),
{
    let mut o = ObjectBuilder::new();
    proof {
        reveal_strlit("name");
        reveal_strlit("status");
        reveal_strlit("version");
        chars::lemma_text_less_at("name"@, "status"@, 0);
        chars::lemma_text_less_at("status"@, "version"@, 0);
    }
    o.put("name", text(&display_name(config)));
    o.put("status", text("ok"));
    o.put("version", text(version));
    let r = o.done();
    assert(r@->Object_0 =~= health_view(*config, version@)->Object_0);
    r
}

// ---- Memories ----

/// Something that clients of the event stream are told.
#[derive(Clone, Debug, PartialEq, Eq)]
pub enum Event {
    /// Holds the memory, as JSON.
    MemoryCreated { memory: String },
    MemoryCompleted { uuid: String },
    MemoryDeleted { uuid: String },
    Heartbeat,
}

/// The tag under which an event goes on the wire.
pub open spec fn event_tag(e: Event) -> Seq<char> {
    match e {
        Event::MemoryCreated { .. } => "memory_created"@,
        Event::MemoryCompleted { .. } => "memory_completed"@,
        Event::MemoryDeleted { .. } => "memory_deleted"@,
        Event::Heartbeat => "heartbeat"@,
    }
}

/// An event of a tag and a memory's id, as an object.
pub open spec fn tagged_uuid(tag: Seq<char>, uuid: Seq<char>) -> json::JsonView {
    json::JsonView::Object(
        seq![("type"@, json::JsonView::Str(tag)), ("uuid"@, json::JsonView::Str(uuid))],
    )
}

/// An event of a tag alone, as an object.
pub open spec fn tagged(tag: Seq<char>) -> json::JsonView {
    json::JsonView::Object(seq![("type"@, json::JsonView::Str(tag))])
}

/// The line that tells of an event.
pub open spec fn event_line(e: Event) -> Seq<char> {
    match e {
        Event::MemoryCreated { memory } => "{\"type\":\""@ + event_tag(e) + "\",\"memory\":"@
            + memory@ + "}\n"@,
        Event::MemoryCompleted { uuid } | Event::MemoryDeleted { uuid } => json::json_text(
            tagged_uuid(event_tag(e), uuid@),
        ) + "\n"@,
        Event::Heartbeat => json::json_text(tagged(event_tag(e))) + "\n"@,
    }
}

fn tagged_uuid_text(tag: &str, uuid: &str) -> (r: String)
    ensures
        r@ == json::json_text(tagged_uuid(tag@, uuid@)),
{
    let mut o = ObjectBuilder::new();
    proof {
        reveal_strlit("type");
        reveal_strlit("uuid");
        chars::lemma_text_less_at("type"@, "uuid"@, 0);
    }
    o.put("type", text(tag));
    o.put("uuid", text(uuid));
    let r = o.done();
    assert(r@->Object_0 =~= tagged_uuid(tag@, uuid@)->Object_0);
    r.to_text()
}

impl Event {
    /// The line that tells of the event.
    pub fn line(&self) -> (r: String)
        ensures
            r@ == event_line(*self),
    {
        match self {
            Event::MemoryCreated { memory } => text5(
                "{\"type\":\"",
                self.tag(),
                "\",\"memory\":",
                memory,
                "}\n",
            ),
            Event::MemoryCompleted { uuid } => text2(&tagged_uuid_text(self.tag(), uuid), "\n"),
            Event::MemoryDeleted { uuid } => text2(&tagged_uuid_text(self.tag(), uuid), "\n"),
            Event::Heartbeat => {
                let mut o = ObjectBuilder::new();
                o.put("type", text(self.tag()));
                let r = o.done();
                assert(r@->Object_0 =~= tagged(event_tag(*self))->Object_0);
                text2(&r.to_text(), "\n")
            },
        }
    }

    /// The tag under which the event goes on the wire.
    pub fn tag(&self) -> (r: &'static str)
        ensures
            r@ == event_tag(*self),
    {
        match self {
            Event::MemoryCreated { .. } => "memory_created",
            Event::MemoryCompleted { .. } => "memory_completed",
            Event::MemoryDeleted { .. } => "memory_deleted",
            Event::Heartbeat => "heartbeat",
        }
    }
}

/// The status for a memory that was looked up.
pub fn get_memory(found: bool) -> (r: u16)
    ensures
        r == if found {
            STATUS_OK
        } else {
            STATUS_NOT_FOUND
        },
{
    if found {
        STATUS_OK
    } else {
        STATUS_NOT_FOUND
    }
}

/// The status for a memory that was to be deleted, and the event that tells of it. `Ok` says
/// whether it was there.
pub fn delete_memory(uuid: &str, outcome: Result<bool, String>) -> (r: (u16, Option<Event>))
    ensures
        match outcome {
            Ok(true) => {
                &&& r.0 == STATUS_NO_CONTENT
                &&& r.1 matches Some(Event::MemoryDeleted { uuid: id })
                &&& id@ == uuid@
            },
            Ok(false) => r.0 == STATUS_NOT_FOUND && r.1 is None,
            Err(_) => r.0 == STATUS_INTERNAL_SERVER_ERROR && r.1 is None,
        },
{
    match outcome {
        Ok(true) => (
            STATUS_NO_CONTENT,
            Some(Event::MemoryDeleted { uuid: String::from_str(uuid) }),
        ),
        Ok(false) => (STATUS_NOT_FOUND, None),
        Err(_) => (STATUS_INTERNAL_SERVER_ERROR, None),
    }
}

// ---- Files ----

/// The media type of a thumbnail.
pub const THUMBNAIL_MEDIA_TYPE: &'static str = "image/jpeg";

/// The name of a memory's thumbnail.
pub fn get_thumbnail(index: usize) -> (r: String)
    ensures
        r@ == "thumbnail_"@ + number::nat_text(index as nat) + ".jpg"@,
{
    text3("thumbnail_", &u64_text(index as u64), ".jpg")
}

/// The status for a file that could not be read.
pub fn serve_file(not_found: bool) -> (r: u16)
    ensures
        r == if not_found {
            STATUS_NOT_FOUND
        } else {
            STATUS_INTERNAL_SERVER_ERROR
        },
{
    if not_found {
        STATUS_NOT_FOUND
    } else {
        STATUS_INTERNAL_SERVER_ERROR
    }
}

/// The media type that a path's extension stands for.
pub uninterp spec fn media_type(path: Seq<char>) -> Seq<char>;

/// `mime_guess::from_path` and `first_or_octet_stream`: the type as text is named
/// [`media_type`].
#[verifier::external_body]
fn guess_media_type(path: &str) -> (r: String)
    ensures
        r@ == media_type(path@),
{
    mime_guess::from_path(path).first_or_octet_stream().to_string()
}

/// The media type that a file is served as.
pub fn get_file(path: &str) -> (r: String)
    ensures
        r@ == media_type(path@),
{
    guess_media_type(path)
}

// ---- The device ----

/// What a client is told of the server.
#[derive(Debug, PartialEq, Eq)]
pub struct DeviceInfo {
    pub display_name: String,
    pub http_bind_addr: String,
    pub grpc_bind_addr: String,
    pub llm_provider: String,
    pub llm_model: String,
}

/// What a client is told of the server.
pub fn get_device(config: &Config) -> (r: DeviceInfo)
    ensures
        r.display_name@ == server_name(*config),
        r.http_bind_addr == config.server.http_bind_addr,
        r.grpc_bind_addr == config.server.grpc_bind_addr,
        r.llm_provider == config.llm.provider,
        r.llm_model == config.llm.model,
{
    DeviceInfo {
        display_name: display_name(config),
        http_bind_addr: config.server.http_bind_addr.clone(),
        grpc_bind_addr: config.server.grpc_bind_addr.clone(),
        llm_provider: config.llm.provider.clone(),
        llm_model: config.llm.model.clone(),
    }
}

// ---- The event stream ----

/// What happens to an event stream.
#[derive(Debug, PartialEq, Eq)]
pub enum StreamInput {
    /// A client has connected.
    Connected,
    Event(Event),
    /// The client was too slow, and missed events.
    Lagged,
    /// There will be no more events.
    Closed,
    /// It is time for a sign of life.
    Tick,
}

/// What an event stream does next.
#[derive(Debug, PartialEq, Eq)]
pub enum StreamAction {
    Send(Event),
    Wait,
    Stop,
}

/// How often a sign of life is given, in seconds.
pub const HEARTBEAT_SECONDS: u64 = 30;

/// The media type of the stream.
pub const STREAM_MEDIA_TYPE: &'static str = "application/x-ndjson";

/// How the stream may be cached.
pub const STREAM_CACHE_CONTROL: &'static str = "no-cache";

/// What an event stream does next. A client gets a sign of life at once, and stays connected
/// though it missed events.
pub fn event_stream(input: StreamInput) -> (r: StreamAction)
    ensures
        r == match input {
            StreamInput::Connected => StreamAction::Send(Event::Heartbeat),
            StreamInput::Event(e) => StreamAction::Send(e),
            StreamInput::Lagged => StreamAction::Wait,
            StreamInput::Closed => StreamAction::Stop,
            StreamInput::Tick => StreamAction::Send(Event::Heartbeat),
        },
{
    match input {
        StreamInput::Connected => StreamAction::Send(Event::Heartbeat),
        StreamInput::Event(e) => StreamAction::Send(e),
        StreamInput::Lagged => StreamAction::Wait,
        StreamInput::Closed => StreamAction::Stop,
        StreamInput::Tick => StreamAction::Send(Event::Heartbeat),
    }
}


// ---- Laws ----

/// The server goes by its configured name, or else by its own; its health tells name and version.
pub proof fn law_server_tells_its_name(config: Config, version: Seq<char>)
    ensures
        config.server.display_name matches Some(n) ==> server_name(config) == n@,
        config.server.display_name is None ==> server_name(config) == "Penumbra"@,
        json::holds(health_view(config, version), "name"@, json::JsonView::Str(server_name(config))),
        json::holds(health_view(config, version), "status"@, json::JsonView::Str("ok"@)),
        json::holds(health_view(config, version), "version"@, json::JsonView::Str(version)),
{
    let m = health_view(config, version)->Object_0;
    assert(m[0] == ("name"@, json::JsonView::Str(server_name(config))));
    assert(m[1] == ("status"@, json::JsonView::Str("ok"@)));
    assert(m[2] == ("version"@, json::JsonView::Str(version)));
}

/// Every event is one line that tells its kind, and what it is about.
pub proof fn law_event_line_tells_the_event(memory: String, uuid: String)
    ensures
        event_line(Event::MemoryCreated { memory }) == "{\"type\":\""@ + "memory_created"@
            + "\",\"memory\":"@ + memory@ + "}\n"@,
        event_line(Event::MemoryCompleted { uuid }) == json::json_text(
            tagged_uuid("memory_completed"@, uuid@),
        ) + "\n"@,
        event_line(Event::MemoryDeleted { uuid }) == json::json_text(
            tagged_uuid("memory_deleted"@, uuid@),
        ) + "\n"@,
        event_line(Event::Heartbeat) == json::json_text(tagged("heartbeat"@)) + "\n"@,
        json::holds(tagged_uuid(memory@, uuid@), "type"@, json::JsonView::Str(memory@)),
        json::holds(tagged_uuid(memory@, uuid@), "uuid"@, json::JsonView::Str(uuid@)),
        json::holds(tagged(uuid@), "type"@, json::JsonView::Str(uuid@)),
{
    assert(tagged_uuid(memory@, uuid@)->Object_0[0] == ("type"@, json::JsonView::Str(memory@)));
    assert(tagged_uuid(memory@, uuid@)->Object_0[1] == ("uuid"@, json::JsonView::Str(uuid@)));
    assert(tagged(uuid@)->Object_0[0] == ("type"@, json::JsonView::Str(uuid@)));
}

/// What is there is answered with 200 or 204, what is not there with 404, and a failure with 500.
/// Only a memory that was deleted is told to the others.
pub proof fn law_answers_have_their_status(
    found: bool,
    uuid: &str,
    outcome: Result<bool, String>,
    missing: bool,
    got: u16,
    deleted: (u16, Option<Event>),
    served: u16,
)
    requires
        call_ensures(get_memory, (found,), got),
        call_ensures(delete_memory, (uuid, outcome), deleted),
        call_ensures(serve_file, (missing,), served),
    ensures
        got == if found {
            200u16
        } else {
            404u16
        },
        served == if missing {
            404u16
        } else {
            500u16
        },
        outcome == Ok::<bool, String>(true) ==> deleted.0 == 204 && (
        deleted.1 matches Some(Event::MemoryDeleted { uuid: id }) && id@ == uuid@),
        outcome == Ok::<bool, String>(false) ==> deleted.0 == 404,
        outcome is Err ==> deleted.0 == 500,
        deleted.1 is Some <==> outcome == Ok::<bool, String>(true),
{
}

/// The device is told what the configuration says.
pub proof fn law_device_tells_the_configuration(config: Config, r: DeviceInfo)
    requires
        call_ensures(get_device, (&config,), r),
    ensures
        r.display_name@ == server_name(config),
        r.http_bind_addr == config.server.http_bind_addr,
        r.grpc_bind_addr == config.server.grpc_bind_addr,
        r.llm_provider == config.llm.provider,
        r.llm_model == config.llm.model,
{
}

/// A stream sends every event, and a heartbeat at the start and whenever it is time; events that
/// were missed do not end it, and only the end of the events does.
pub proof fn law_stream_sends_every_event(input: StreamInput, r: StreamAction)
    requires
        call_ensures(event_stream, (input,), r),
    ensures
        input matches StreamInput::Event(e) ==> r == StreamAction::Send(e),
        input is Connected || input is Tick ==> r == StreamAction::Send(Event::Heartbeat),
        input is Lagged ==> r is Wait,
        r is Stop <==> input is Closed,
{
}

/// A thumbnail goes by its number.
pub proof fn law_thumbnails_are_numbered(i: usize, r: String)
    requires
        call_ensures(get_thumbnail, (i,), r),
    ensures
        r@ == "thumbnail_"@ + number::nat_text(i as nat) + ".jpg"@,
{
}

} // verus!
