//! The tool by which the model controls music that is playing already.

use crate::chars;
use crate::json;
use crate::json::{array, text, Json, ObjectBuilder};
use crate::llm::tools::ToolDefinition;
use vstd::prelude::*;
use vstd::string::*;

verus! {
pub const NAME: &'static str = "control_music";

/// What the tool is for.
pub const DESCRIPTION: &'static str = "Control music that is already playing (or the user's library) on the device. Use \
    for: transport — pause/stop, resume, skip forward, go back, restart the current \
    track; and library — favorite the current song, play favorites, or start a \
    radio/station based on the current track. This is the tool for 'more like this', \
    'play more like this', 'play something similar', 'keep this going', and 'start a \
    radio' — they all mean action='radio' (a station seeded from whatever is playing \
    now), NOT a request to replay the current song. Do NOT use this to start specific \
    new music by name — use play_music for that.";

/// What the actions are.
pub const ACTION_DESCRIPTION: &'static str = "'pause' (also stop), 'resume' (also play/continue), 'next' (skip forward), \
    'previous' (go back), 'restart' (current track over), 'favorite' (save/like current \
    track), 'play_favorites' (play liked songs), 'radio' (start a station from the \
    current track / 'more like this').";

pub const DOC_TRANSPORT: &'static str = "Control currently playing music: pause, stop, resume, play, skip to the next song, \
    go back to the previous song, or restart the current track.";

pub const DOC_WORDS: &'static str = "Transport controls for music already playing. Use for 'pause', 'stop', 'resume', \
    'next', 'skip', 'previous', 'go back', 'start over'.";

pub const DOC_LIBRARY: &'static str = "Music library and radio controls: favorite or like the current song, play my \
    favorite/liked songs, or start a radio station based on what's playing ('more like \
    this').";

/// Says that the user wants to control the music that is playing. It is never run: a call is
/// caught, and its action becomes one of the device's.
#[derive(Clone, Copy, Debug, PartialEq, Eq)]
pub struct ControlMusicTool;

/// The actions that can be asked for.
pub open spec fn action_names() -> Seq<json::JsonView> {
    seq![
        json::JsonView::Str("pause"@),
        json::JsonView::Str("resume"@),
        json::JsonView::Str("next"@),
        json::JsonView::Str("previous"@),
        json::JsonView::Str("restart"@),
        json::JsonView::Str("favorite"@),
        json::JsonView::Str("play_favorites"@),
        json::JsonView::Str("radio"@),
    ]
}

fn actions() -> (r: Json)
    ensures
        r@ == json::JsonView::Array(action_names()),
        json::writable(r@),
{
    let mut items: Vec<Json> = Vec::new();
    items.push(text("pause"));
    items.push(text("resume"));
    items.push(text("next"));
    items.push(text("previous"));
    items.push(text("restart"));
    items.push(text("favorite"));
    items.push(text("play_favorites"));
    items.push(text("radio"));
    let ghost views = json::views(items@);
    assert(views =~= action_names());
    proof {
        json::lemma_array_is_writable(views);
    }
    array(items)
}

fn required() -> (r: Json)
    ensures
        r@ == json::JsonView::Array(seq![json::JsonView::Str("action"@)]),
        json::writable(r@),
{
    let mut items: Vec<Json> = Vec::new();
    items.push(text("action"));
    let ghost views = json::views(items@);
    assert(views =~= seq![json::JsonView::Str("action"@)]);
    proof {
        json::lemma_array_is_writable(views);
    }
    array(items)
}

/// The argument for the action.
pub open spec fn action_view() -> json::JsonView {
    json::JsonView::Object(
        seq![
            ("description"@, json::JsonView::Str(ACTION_DESCRIPTION@)),
            ("enum"@, json::JsonView::Array(action_names())),
            ("type"@, json::JsonView::Str("string"@)),
        ],
    )
}

/// The argument for the action.
fn action() -> (r: Json)
    ensures
        r@ == action_view(),
        json::writable(r@),
{
    let mut o = ObjectBuilder::new();
    proof {
        reveal_strlit("description");
        reveal_strlit("enum");
        reveal_strlit("type");
        chars::lemma_text_less_at("description"@, "enum"@, 0);
        chars::lemma_text_less_at("enum"@, "type"@, 0);
    }
    o.put("description", text(ACTION_DESCRIPTION));
    o.put("enum", actions());
    o.put("type", text("string"));
    let r = o.done();
    assert(r@->Object_0 =~= action_view()->Object_0);
    r
}

/// The arguments.
pub open spec fn properties_view() -> json::JsonView {
    json::JsonView::Object(
        seq![
            ("action"@, action_view()),
        ],
    )
}

/// The arguments.
fn properties() -> (r: Json)
    ensures
        r@ == properties_view(),
        json::writable(r@),
{
    let mut o = ObjectBuilder::new();
    proof {
        reveal_strlit("action");
    }
    o.put("action", action());
    let r = o.done();
    assert(r@->Object_0 =~= properties_view()->Object_0);
    r
}

/// The JSON schema of the arguments.
pub open spec fn parameters_view() -> json::JsonView {
    json::JsonView::Object(
        seq![
            ("properties"@, properties_view()),
            ("required"@, json::JsonView::Array(seq![json::JsonView::Str("action"@)])),
            ("type"@, json::JsonView::Str("object"@)),
        ],
    )
}

/// The JSON schema of the arguments.
fn parameters() -> (r: Json)
    ensures
        r@ == parameters_view(),
        json::writable(r@),
{
    let mut o = ObjectBuilder::new();
    proof {
        reveal_strlit("properties");
        reveal_strlit("required");
        reveal_strlit("type");
        chars::lemma_text_less_at("properties"@, "required"@, 0);
        chars::lemma_text_less_at("required"@, "type"@, 0);
    }
    o.put("properties", properties());
    o.put("required", required());
    o.put("type", text("object"));
    let r = o.done();
    assert(r@->Object_0 =~= parameters_view()->Object_0);
    r
}

/// What a tool of this kind is made from.
#[derive(Clone, Copy, Debug, PartialEq, Eq)]
pub struct ControlMusicToolContext;

impl ControlMusicTool {
    /// The tool, as the model is told of it.
    pub fn definition(&self) -> (r: ToolDefinition)
        ensures
            r.name@ == NAME@,
            r.description@ == DESCRIPTION@,
            r.parameters@ == parameters_view(),
            json::writable(r.parameters@),
    {
        ToolDefinition {
            name: String::from_str(NAME),
            description: String::from_str(DESCRIPTION),
            parameters: parameters(),
        }
    }

    /// What a call answers. A call never comes here: it is caught before the tool runs.
    pub fn call(&self) -> (r: Json)
        ensures
            r@ == json::JsonView::Object(Seq::empty()),
            json::writable(r@),
    {
        ObjectBuilder::new().done()
    }

    /// The texts by which the tool is found.
    pub fn embedding_docs(&self) -> (r: Vec<String>)
        ensures
            chars::texts(r@) == seq![DOC_TRANSPORT@, DOC_WORDS@, DOC_LIBRARY@],
    {
        let mut docs: Vec<String> = Vec::new();
        docs.push(String::from_str(DOC_TRANSPORT));
        docs.push(String::from_str(DOC_WORDS));
        docs.push(String::from_str(DOC_LIBRARY));
        assert(chars::texts(docs@) =~= seq![DOC_TRANSPORT@, DOC_WORDS@, DOC_LIBRARY@]);
        docs
    }

    pub fn context(&self) -> (r: ControlMusicToolContext)
        ensures
            r == ControlMusicToolContext,
    {
        ControlMusicToolContext
    }

    pub fn init(_context: ControlMusicToolContext) -> (r: ControlMusicTool)
        ensures
            r == ControlMusicTool,
    {
        ControlMusicTool
    }
}

// ---- Laws ----

/// The tool takes one action, which is required and is one of those that it names.
pub proof fn law_tool_takes_one_action(t: ControlMusicTool, r: ToolDefinition)
    requires
        call_ensures(ControlMusicTool::definition, (&t,), r),
    ensures
        r.name@ == "control_music"@,
        json::holds(
            r.parameters@,
            "required"@,
            json::JsonView::Array(seq![json::JsonView::Str("action"@)]),
        ),
        json::holds(
            r.parameters@,
            "properties"@,
            json::JsonView::Object(seq![("action"@, action_view())]),
        ),
        json::holds(action_view(), "enum"@, json::JsonView::Array(action_names())),
        json::holds(action_view(), "type"@, json::JsonView::Str("string"@)),
        action_names().len() == 8,
        action_names().contains(json::JsonView::Str("pause"@)),
        action_names().contains(json::JsonView::Str("resume"@)),
        action_names().contains(json::JsonView::Str("next"@)),
        action_names().contains(json::JsonView::Str("previous"@)),
        action_names().contains(json::JsonView::Str("restart"@)),
        action_names().contains(json::JsonView::Str("favorite"@)),
        action_names().contains(json::JsonView::Str("play_favorites"@)),
        action_names().contains(json::JsonView::Str("radio"@)),
{
    let p = parameters_view()->Object_0;
    assert(p[0] == ("properties"@, properties_view()));
    assert(p[1].0 == "required"@);
    let a = action_view()->Object_0;
    assert(a[1] == ("enum"@, json::JsonView::Array(action_names())));
    assert(a[2] == ("type"@, json::JsonView::Str("string"@)));
    let n = action_names();
    assert(n[0] == json::JsonView::Str("pause"@) && n[1] == json::JsonView::Str("resume"@));
    assert(n[2] == json::JsonView::Str("next"@) && n[3] == json::JsonView::Str("previous"@));
    assert(n[4] == json::JsonView::Str("restart"@) && n[5] == json::JsonView::Str("favorite"@));
    assert(n[6] == json::JsonView::Str("play_favorites"@) && n[7] == json::JsonView::Str("radio"@));
}

} // verus!
