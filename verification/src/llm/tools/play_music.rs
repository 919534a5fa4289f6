//! The tool by which the model starts new music.

use crate::chars;
use crate::json;
use crate::json::{array, text, Json, ObjectBuilder};
use crate::llm::tools::ToolDefinition;
use vstd::prelude::*;
use vstd::string::*;

verus! {
pub const NAME: &'static str = "play_music";

/// What the tool is for.
pub const DESCRIPTION: &'static str = "Play music on the device. Use whenever the user asks to play, put on, or start music \
    (e.g. 'play Bohemian Rhapsody', 'play some Queen', 'play jazz', 'play something \
    chill', 'put on Afro House', 'play my workout playlist', 'play Kanye's new album'). \
    Fill only the fields the user specified; leave the rest empty. Resolve STRICTLY from \
    the user's latest/most-recent message — never reuse a song, artist, album, or mood \
    mentioned earlier in the conversation; each play request is independent. Do NOT use \
    this for general questions or to control already-playing music (use control_music \
    for pause/skip/etc). In particular, 'more like this', 'play more like this', 'play \
    something similar', 'keep this vibe going', 'start a radio', 'skip'/'next', and \
    'previous' are NOT play_music requests — they operate on the current track, so use \
    control_music. Only use play_music when the user names new music (a specific song, \
    artist, album, genre, or mood).";

pub const TRACK_DESCRIPTION: &'static str = "A specific song / track title, if named.";

pub const ARTIST_DESCRIPTION: &'static str = "Artist / band name, if named.";

pub const ALBUM_DESCRIPTION: &'static str = "A specific album name, if named.";

pub const MOOD_DESCRIPTION: &'static str = "A genre, mood, activity, era, or vibe rather than a specific song/artist/album — \
    e.g. 'afro house', 'rap', 'jazz', 'chill', 'workout', 'sad songs', '80s'. Plays a \
    matching playlist.";

pub const PLAYLIST_DESCRIPTION: &'static str = "One of the USER'S OWN saved/library playlists, when they say 'my ...' — e.g. 'play \
    my workout playlist' -> 'workout', 'play my Discovery playlist' -> 'Discovery'. Use \
    'my playlists' (verbatim) when they just say 'play my playlists' with no specific \
    name. Prefer this over `mood` whenever the user says 'my'.";

pub const LATEST_ALBUM_DESCRIPTION: &'static str = "True when the user wants the named artist's NEWEST/latest album (set `artist` too), \
    e.g. 'play Kanye's new album'.";

pub const DOC_START: &'static str = "Play music on the device: start a song, artist, album, genre, playlist, or radio. \
    Use for 'play <song>', 'play some <artist>', 'put on <album>', 'play <genre> music', \
    'play my <playlist>'.";

pub const DOC_PLAYBACK: &'static str = "Start audio playback of requested music. Good for requests to play, put on, or \
    listen to a specific track, band, album, or style of music.";

pub const DOC_BY_NAME: &'static str = "Handle music playback requests by name: songs, artists, albums, genres, moods, or \
    playlists the user wants to hear right now.";

/// Says that the user wants to play music. It is never run: a call is caught, and its
/// arguments become what the device plays.
#[derive(Clone, Copy, Debug, PartialEq, Eq)]
pub struct PlayMusicTool;

/// An argument, with its type and what it means.
pub open spec fn argument_view(kind: Seq<char>, description: Seq<char>) -> json::JsonView {
    json::JsonView::Object(
        seq![
            ("description"@, json::JsonView::Str(description)),
            ("type"@, json::JsonView::Str(kind)),
        ],
    )
}

/// An argument, with its type and what it means.
fn argument(kind: &str, description: &str) -> (r: Json)
    ensures
        r@ == argument_view(kind@, description@),
        json::writable(r@),
{
    let mut o = ObjectBuilder::new();
    proof {
        reveal_strlit("description");
        reveal_strlit("type");
        chars::lemma_text_less_at("description"@, "type"@, 0);
    }
    o.put("description", text(description));
    o.put("type", text(kind));
    let r = o.done();
    assert(r@->Object_0 =~= argument_view(kind@, description@)->Object_0);
    r
}

/// The arguments.
pub open spec fn properties_view() -> json::JsonView {
    json::JsonView::Object(
        seq![
            ("album"@, argument_view("string"@, ALBUM_DESCRIPTION@)),
            ("artist"@, argument_view("string"@, ARTIST_DESCRIPTION@)),
            ("latest_album"@, argument_view("boolean"@, LATEST_ALBUM_DESCRIPTION@)),
            ("mood"@, argument_view("string"@, MOOD_DESCRIPTION@)),
            ("playlist"@, argument_view("string"@, PLAYLIST_DESCRIPTION@)),
            ("track"@, argument_view("string"@, TRACK_DESCRIPTION@)),
        ],
    )
}

/// The arguments.
fn properties() -> (r: Json)
    ensures
        r@ == properties_view(),
        json::writable(r@),
{
    let mut o = ObjectBuilder::new();
    proof {
        reveal_strlit("album");
        reveal_strlit("artist");
        reveal_strlit("latest_album");
        reveal_strlit("mood");
        reveal_strlit("playlist");
        reveal_strlit("track");
        chars::lemma_text_less_at("album"@, "artist"@, 1);
        chars::lemma_text_less_at("artist"@, "latest_album"@, 0);
        chars::lemma_text_less_at("latest_album"@, "mood"@, 0);
        chars::lemma_text_less_at("mood"@, "playlist"@, 0);
        chars::lemma_text_less_at("playlist"@, "track"@, 0);
    }
    o.put("album", argument("string", ALBUM_DESCRIPTION));
    o.put("artist", argument("string", ARTIST_DESCRIPTION));
    o.put("latest_album", argument("boolean", LATEST_ALBUM_DESCRIPTION));
    o.put("mood", argument("string", MOOD_DESCRIPTION));
    o.put("playlist", argument("string", PLAYLIST_DESCRIPTION));
    o.put("track", argument("string", TRACK_DESCRIPTION));
    let r = o.done();
    assert(r@->Object_0 =~= properties_view()->Object_0);
    r
}

fn required() -> (r: Json)
    ensures
        r@ == json::JsonView::Array(Seq::empty()),
        json::writable(r@),
{
    let items: Vec<Json> = Vec::new();
    let ghost views = json::views(items@);
    assert(views =~= Seq::empty());
    proof {
        json::lemma_array_is_writable(views);
    }
    array(items)
}

/// The JSON schema of the arguments.
pub open spec fn parameters_view() -> json::JsonView {
    json::JsonView::Object(
        seq![
            ("properties"@, properties_view()),
            ("required"@, json::JsonView::Array(Seq::empty())),
            ("type"@, json::JsonView::Str("object"@)),
        ],
    )
}

/// The JSON schema of the arguments.
fn parameters() -> (r: Json)
    ensures
        r@ == parameters_view(),
        json::writable(r@),
{
    let mut o = ObjectBuilder::new();
    proof {
        reveal_strlit("properties");
        reveal_strlit("required");
        reveal_strlit("type");
        chars::lemma_text_less_at("properties"@, "required"@, 0);
        chars::lemma_text_less_at("required"@, "type"@, 0);
    }
    o.put("properties", properties());
    o.put("required", required());
    o.put("type", text("object"));
    let r = o.done();
    assert(r@->Object_0 =~= parameters_view()->Object_0);
    r
}

/// What a tool of this kind is made from.
#[derive(Clone, Copy, Debug, PartialEq, Eq)]
pub struct PlayMusicToolContext;

impl PlayMusicTool {
    /// The tool, as the model is told of it.
    pub fn definition(&self) -> (r: ToolDefinition)
        ensures
            r.name@ == NAME@,
            r.description@ == DESCRIPTION@,
            r.parameters@ == parameters_view(),
            json::writable(r.parameters@),
    {
        ToolDefinition {
            name: String::from_str(NAME),
            description: String::from_str(DESCRIPTION),
            parameters: parameters(),
        }
    }

    /// What a call answers. A call never comes here: it is caught before the tool runs.
    pub fn call(&self) -> (r: Json)
        ensures
            r@ == json::JsonView::Object(Seq::empty()),
            json::writable(r@),
    {
        ObjectBuilder::new().done()
    }

    /// The texts by which the tool is found.
    pub fn embedding_docs(&self) -> (r: Vec<String>)
        ensures
            chars::texts(r@) == seq![DOC_START@, DOC_PLAYBACK@, DOC_BY_NAME@],
    {
        let mut docs: Vec<String> = Vec::new();
        docs.push(String::from_str(DOC_START));
        docs.push(String::from_str(DOC_PLAYBACK));
        docs.push(String::from_str(DOC_BY_NAME));
        assert(chars::texts(docs@) =~= seq![DOC_START@, DOC_PLAYBACK@, DOC_BY_NAME@]);
        docs
    }

    pub fn context(&self) -> (r: PlayMusicToolContext)
        ensures
            r == PlayMusicToolContext,
    {
        PlayMusicToolContext
    }

    pub fn init(_context: PlayMusicToolContext) -> (r: PlayMusicTool)
        ensures
            r == PlayMusicTool,
    {
        PlayMusicTool
    }
}

// ---- Laws ----

/// The tool takes a track, an artist, an album, a mood and a playlist as texts, and whether the
/// newest album is wanted as a flag, none of which is required.
pub proof fn law_tool_takes_what_can_be_named(t: PlayMusicTool, r: ToolDefinition)
    requires
        call_ensures(PlayMusicTool::definition, (&t,), r),
    ensures
        r.name@ == "play_music"@,
        json::holds(r.parameters@, "properties"@, properties_view()),
        json::holds(r.parameters@, "required"@, json::JsonView::Array(Seq::empty())),
        json::holds(r.parameters@, "type"@, json::JsonView::Str("object"@)),
        json::holds(properties_view(), "track"@, argument_view("string"@, TRACK_DESCRIPTION@)),
        json::holds(properties_view(), "artist"@, argument_view("string"@, ARTIST_DESCRIPTION@)),
        json::holds(properties_view(), "album"@, argument_view("string"@, ALBUM_DESCRIPTION@)),
        json::holds(properties_view(), "mood"@, argument_view("string"@, MOOD_DESCRIPTION@)),
        json::holds(properties_view(), "playlist"@, argument_view("string"@, PLAYLIST_DESCRIPTION@)),
        json::holds(
            properties_view(),
            "latest_album"@,
            argument_view("boolean"@, LATEST_ALBUM_DESCRIPTION@),
        ),
{
    let p = parameters_view()->Object_0;
    assert(p[0] == ("properties"@, properties_view()));
    assert(p[1].0 == "required"@);
    assert(p[2] == ("type"@, json::JsonView::Str("object"@)));
    let m = properties_view()->Object_0;
    assert(m[0].0 == "album"@ && m[1].0 == "artist"@ && m[2].0 == "latest_album"@);
    assert(m[3].0 == "mood"@ && m[4].0 == "playlist"@ && m[5].0 == "track"@);
}

/// An argument tells its type and what it is for, each under its own name.
pub proof fn law_argument_tells_its_type(kind: Seq<char>, description: Seq<char>)
    ensures
        json::holds(argument_view(kind, description), "type"@, json::JsonView::Str(kind)),
        json::holds(
            argument_view(kind, description),
            "description"@,
            json::JsonView::Str(description),
        ),
{
    let m = argument_view(kind, description)->Object_0;
    assert(m[0] == ("description"@, json::JsonView::Str(description)));
    assert(m[1] == ("type"@, json::JsonView::Str(kind)));
}

} // verus!
