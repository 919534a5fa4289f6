//! What the user says to the assistant: whom it goes to, and what comes back to the device.

use crate::chars;
use crate::chars::{same_text, to_lower, trim};
use crate::external::{text2, text3};
use crate::json;
use crate::json::{field, object, text, Json};
use crate::llm::request::{LlmChatRequest, Message, PromptTemplateContext, PromptTemplates};
use crate::llm::ChatResult;
use crate::music;
use crate::music::{apple_id_playable, MusicProvider, NowPlaying, ProviderTrack};
use crate::services::aibus::envelope;
use crate::services::aibus::envelope::{
    decoded, optional_data, Code, Coordinates, EncryptedData, Status, LOCATION_ENVELOPE,
};
use crate::synapse::image_store;
use crate::synapse::image_store::LiveImageStore;
use crate::synapse::vision;
use crate::synapse::vision::{extract_most_recent_image_data, is_vision_request, DeviceContext};
use vstd::prelude::*;
use vstd::string::*;

verus! {

pub const UNDERSTANDING_RESPONSE: &'static str = "humane.aibus.SynapseUnderstandingResponse";

// ---- Texts ----

/// `t` without the white space at either end, unless nothing is left.
pub open spec fn trimmed_or_none(t: Seq<char>) -> Option<Seq<char>> {
    chars::text_or_none(chars::trimmed(t))
}

/// `value` without the white space at either end, unless nothing is left.
pub fn non_empty_string(value: &str) -> (r: Option<String>)
    ensures
        chars::opt_text(r) == trimmed_or_none(value@),
{
    let value = trim(value);
    if value.as_str().is_empty() {
        None
    } else {
        Some(value)
    }
}

/// The JSON text of an object with one string.
pub open spec fn one_field(name: Seq<char>, value: Seq<char>) -> Seq<char> {
    json::json_text(json::JsonView::Object(seq![(name, json::JsonView::Str(value))]))
}

fn one_field_text(name: &str, value: &str) -> (r: String)
    ensures
        r@ == one_field(name@, value@),
{
    let mut members: Vec<(String, Json)> = Vec::new();
    members.push(field(name, text(value)));
    let r = object(members);
    proof {
        assert(r@->Object_0 =~= seq![(name@, json::JsonView::Str(value@))]);
        json::lemma_flat_is_writable(r@);
    }
    r.to_text()
}

// ---- Responses ----

/// An action for the device to take.
#[derive(Debug, PartialEq, Eq)]
pub struct ActionResponse {
    pub action: String,
    pub thought: String,
    /// The action's input as JSON.
    pub input: String,
    pub run_id: String,
    /// What the device says aloud to end the run, if anything.
    pub spoken: Option<String>,
}

pub ghost struct ActionView {
    pub action: Seq<char>,
    pub thought: Seq<char>,
    pub input: Seq<char>,
    pub run_id: Seq<char>,
    pub spoken: Option<Seq<char>>,
}

impl View for ActionResponse {
    type V = ActionView;

    open spec fn view(&self) -> ActionView {
        ActionView {
            action: self.action@,
            thought: self.thought@,
            input: self.input@,
            run_id: self.run_id@,
            spoken: chars::opt_text(self.spoken),
        }
    }
}

pub open spec fn action_view(
    action: Seq<char>,
    thought: Seq<char>,
    input: Seq<char>,
    run_id: Seq<char>,
) -> ActionView {
    ActionView { action, thought, input, run_id, spoken: None }
}

/// An action for the device to take.
pub fn action_response(action: &str, thought: &str, input: &str, run_id: &str) -> (r: ActionResponse)
    ensures
        r@ == action_view(action@, thought@, input@, run_id@),
{
    ActionResponse {
        action: String::from_str(action),
        thought: String::from_str(thought),
        input: String::from_str(input),
        run_id: String::from_str(run_id),
        spoken: None,
    }
}

pub const LOOK_THOUGHT: &'static str = "I should look at what the user is seeing";

/// The device is asked for an image to answer a question with.
pub open spec fn scene_view(question: Seq<char>, run_id: Seq<char>) -> ActionView {
    action_view("UnderstandScene"@, LOOK_THOUGHT@, one_field("Question"@, question), run_id)
}

fn scene_response(question: &str, run_id: &str) -> (r: ActionResponse)
    ensures
        r@ == scene_view(question@, run_id@),
{
    action_response(
        "UnderstandScene",
        LOOK_THOUGHT,
        &one_field_text("Question", question),
        run_id,
    )
}

// ---- Where a request goes ----

/// Where a request goes.
#[derive(Debug, PartialEq, Eq)]
pub enum Route {
    /// To the model, with an image.
    ChatWithImage(Vec<u8>),
    /// Back to the device, which is asked for an image.
    AskForScene(ActionResponse),
    /// To the model.
    Chat,
}

/// Whether a request goes this way. An image that the device has attached comes first, then
/// one that it has captured in this run, and then a request to look at something.
pub open spec fn is_route(
    r: Route,
    ctx: Option<DeviceContext>,
    stored: Option<Seq<u8>>,
    utterance: Seq<char>,
    run_id: Seq<char>,
) -> bool {
    match ctx {
        Some(ctx) => match vision::latest_image(ctx.turns@) {
            Some(bytes) => r is ChatWithImage && r->ChatWithImage_0@ == bytes,
            None => match stored {
                Some(bytes) => r is ChatWithImage && r->ChatWithImage_0@ == bytes,
                None => if vision::asks_for_vision(ctx.turns@) {
                    r is AskForScene && r->AskForScene_0@ == scene_view(utterance, run_id)
                } else {
                    r is Chat
                },
            },
        },
        None => r is Chat,
    }
}

/// The image of a run that is in store and has not expired.
pub open spec fn stored_image(store: LiveImageStore, run_id: Seq<char>, now: u128) -> Option<Seq<u8>> {
    if image_store::live(store@, now).contains_key(run_id) {
        Some(store@[run_id].bytes)
    } else {
        None
    }
}

/// Whether a request looks for an image in store: it has a device context without an image.
pub open spec fn looks_in_store(ctx: Option<DeviceContext>) -> bool {
    ctx is Some && vision::latest_image(ctx->0.turns@) is None
}

/// Whether a request leaves the store like this: as it was, unless it is looked through for the
/// image of the run, which then counts as used.
pub open spec fn is_looked_through(
    ctx: Option<DeviceContext>,
    store: LiveImageStore,
    run_id: Seq<char>,
    now: u128,
    after: LiveImageStore,
) -> bool {
    &&& !looks_in_store(ctx) ==> after == store
    &&& looks_in_store(ctx) ==> after@ == match stored_image(store, run_id, now) {
        Some(bytes) => image_store::live(store@, now).insert(
            run_id,
            (image_store::EntryView { bytes, last_access: now }),
        ),
        None => image_store::live(store@, now),
    }
}

/// Where a request goes. If an image is taken from the store, it stays there for another
/// while.
pub fn understand_inner(
    ctx: &Option<DeviceContext>,
    store: &mut LiveImageStore,
    utterance: &str,
    run_id: &str,
    now: u128,
) -> (r: Route)
    requires
        old(store).wf(),
    ensures
        final(store).wf(),
        is_route(r, *ctx, stored_image(*old(store), run_id@, now), utterance@, run_id@),
        is_looked_through(*ctx, *old(store), run_id@, now, *final(store)),
{
    if let Some(ctx) = ctx {
        if let Some(bytes) = extract_most_recent_image_data(ctx) {
            return Route::ChatWithImage(bytes);
        }
        if let Some(bytes) = store.get_refresh(run_id, now) {
            return Route::ChatWithImage(bytes);
        }
        if is_vision_request(ctx) {
            return Route::AskForScene(scene_response(utterance, run_id));
        }
    }
    Route::Chat
}

// ---- What goes to the model ----

/// Adds to the prompt's context what the device tells of where it is, and what is playing.
pub fn build_prompt_template_context(
    base: PromptTemplateContext,
    device: &Option<DeviceContext>,
    place: &Option<Coordinates>,
    now_playing: &Option<NowPlaying>,
) -> (r: PromptTemplateContext)
    ensures
        r.run_id == base.run_id,
        r.assistant_display_name == base.assistant_display_name,
        r.server_public_addr == base.server_public_addr,
        r.current_timestamp == base.current_timestamp,
        r.current_date == base.current_date,
        r.current_time == base.current_time,
        chars::opt_text(r.location_name) == match *device {
            Some(d) => trimmed_or_none(d.reverse_geocoded_location@),
            None => chars::opt_text(base.location_name),
        },
        match *place {
            Some(p) => {
                &&& r.latitude == Some(p.latitude)
                &&& r.longitude == Some(p.longitude)
                &&& r.coordinates is Some
                &&& r.coordinates->0@ == p.latitude@ + ", "@ + p.longitude@
            },
            None => {
                &&& r.latitude == base.latitude
                &&& r.longitude == base.longitude
                &&& r.coordinates == base.coordinates
            },
        },
        chars::opt_text(r.now_playing) == match *now_playing {
            Some(n) => Some(music::summary_text(n.title@, n.artist@, n.album@)),
            None => None,
        },
{
    let mut context = base;
    if let Some(d) = device {
        context.location_name = non_empty_string(&d.reverse_geocoded_location);
    }
    if let Some(p) = place {
        context.latitude = Some(p.latitude.clone());
        context.longitude = Some(p.longitude.clone());
        context.coordinates = Some(text3(&p.latitude, ", ", &p.longitude));
    }
    context.now_playing = match now_playing {
        Some(n) => Some(n.summary()),
        None => None,
    };
    context
}

/// The conversation so far, given what the device's context holds of it: none without a
/// context.
pub fn request_history(ctx: &Option<DeviceContext>, extracted: Vec<Message>) -> (r: Vec<Message>)
    ensures
        r@ == if *ctx is Some {
            extracted@
        } else {
            Seq::empty()
        },
{
    match ctx {
        Some(_) => extracted,
        None => Vec::new(),
    }
}

/// The request that goes to the model, given what the device's context holds of the
/// conversation so far.
pub fn chat_request(
    utterance: &str,
    ctx: &Option<DeviceContext>,
    extracted: Vec<Message>,
    templates: PromptTemplates,
    context: PromptTemplateContext,
    memory_context: Option<String>,
    image: Option<Vec<u8>>,
) -> (r: LlmChatRequest)
    ensures
        r.utterance@ == utterance@,
        r.history@ == if *ctx is Some {
            extracted@
        } else {
            Seq::empty()
        },
        r.templates == templates,
        r.template_context == context,
        r.memory_context == memory_context,
        r.image == image,
{
    let request = LlmChatRequest::new(
        String::from_str(utterance),
        request_history(ctx, extracted),
        templates,
        context,
    ).with_memory_context(memory_context);
    match image {
        Some(bytes) => request.with_image(bytes),
        None => request,
    }
}

// ---- What comes back to the device ----

/// Terms that stand for parts of the user's library in the shim's searches.
#[derive(Debug, Clone, PartialEq, Eq)]
pub struct ShimTerms {
    pub favorites: String,
    pub my_playlists: String,
    pub playlist_prefix: String,
}

/// What to do with the outcome of a chat.
#[derive(Debug, PartialEq, Eq)]
pub enum ChatStep {
    /// Answer the device.
    Answer {
        response: ActionResponse,
        /// What to keep as the conversation's answer, if it is to be kept.
        saved: Option<String>,
    },
    /// Resolve the music that was asked for, by the arguments of the tool, and answer with
    /// [`play_music_response`].
    PlayMusic(String),
}

/// The answer to the outcome of a chat, and what is kept of it, unless music is to be
/// resolved first.
pub open spec fn chat_answer(
    outcome: Result<ChatResult, String>,
    utterance: Seq<char>,
    run_id: Seq<char>,
    terms: ShimTerms,
) -> Option<(ActionView, Option<Seq<char>>)> {
    match outcome {
        Ok(ChatResult::Text(t)) => Some(
            (
                action_view(
                    "Respond"@,
                    "I should respond to the user"@,
                    one_field("Response"@, t@),
                    run_id,
                ),
                Some(t@),
            ),
        ),
        Ok(ChatResult::DeferredVision) => Some((scene_view(utterance, run_id), None)),
        Ok(ChatResult::PlayMusic(_)) => None,
        Ok(ChatResult::MusicControl(action)) => if action@ == "PlayFavoriteTracks"@ {
            Some(
                (
                    action_view(
                        "PlayMusic"@,
                        "The user wants to play their favorite songs"@,
                        one_field("Track"@, terms.favorites@),
                        run_id,
                    ),
                    None,
                ),
            )
        } else {
            Some(
                (
                    action_view(
                        action@,
                        "The user wants to control music playback"@,
                        "{}"@,
                        run_id,
                    ),
                    None,
                ),
            )
        },
        Err(error) => Some(
            (
                action_view(
                    "Respond"@,
                    "I encountered an error"@,
                    one_field("Response"@, error@),
                    run_id,
                ),
                Some(error@),
            ),
        ),
    }
}

/// What to do with the outcome of a chat.
pub fn evaluate_agent_conversation(
    outcome: Result<ChatResult, String>,
    utterance: &str,
    run_id: &str,
    terms: &ShimTerms,
) -> (r: ChatStep)
    ensures
        match chat_answer(outcome, utterance@, run_id@, *terms) {
            Some((view, saved)) => {
                &&& r matches ChatStep::Answer { response, saved: kept }
                &&& response@ == view
                &&& chars::opt_text(kept) == saved
            },
            None => r == ChatStep::PlayMusic(outcome->Ok_0->PlayMusic_0),
        },
{
    match outcome {
        Ok(ChatResult::Text(t)) => {
            let response = action_response(
                "Respond",
                "I should respond to the user",
                &one_field_text("Response", &t),
                run_id,
            );
            ChatStep::Answer { response, saved: Some(t) }
        },
        Ok(ChatResult::DeferredVision) => ChatStep::Answer {
            response: scene_response(utterance, run_id),
            saved: None,
        },
        Ok(ChatResult::PlayMusic(args)) => ChatStep::PlayMusic(args),
        Ok(ChatResult::MusicControl(action)) => {
            // The device's own action for favorites needs an account that it does not have,
            // so the user's library is played by a search.
            let response = if same_text(&action, "PlayFavoriteTracks") {
                action_response(
                    "PlayMusic",
                    "The user wants to play their favorite songs",
                    &one_field_text("Track", &terms.favorites),
                    run_id,
                )
            } else {
                action_response(
                    &action,
                    "The user wants to control music playback",
                    "{}",
                    run_id,
                )
            };
            ChatStep::Answer { response, saved: None }
        },
        Err(error) => {
            let response = action_response(
                "Respond",
                "I encountered an error",
                &one_field_text("Response", &error),
                run_id,
            );
            ChatStep::Answer { response, saved: Some(error) }
        },
    }
}

/// The answer once music was resolved, or was found to be unplayable: a message to that
/// effect is also said aloud.
pub fn play_music_response(input: &str, unplayable: Option<String>, run_id: &str) -> (r: ActionResponse)
    ensures
        r@ == match unplayable {
            Some(message) => ActionView {
                action: "Respond"@,
                thought: "The requested song can't play on the current provider"@,
                input: one_field("Response"@, message@),
                run_id: run_id@,
                spoken: Some(message@),
            },
            None => action_view("PlayMusic"@, "The user wants to play music"@, input@, run_id@),
        },
{
    match unplayable {
        Some(message) => {
            let mut response = action_response(
                "Respond",
                "The requested song can't play on the current provider",
                &one_field_text("Response", &message),
                run_id,
            );
            response.spoken = Some(message);
            response
        },
        None => action_response("PlayMusic", "The user wants to play music", input, run_id),
    }
}

/// Whatever comes of a chat, the device is answered under the id of the run.
pub proof fn law_answers_keep_the_run(
    outcome: Result<ChatResult, String>,
    utterance: Seq<char>,
    run_id: Seq<char>,
    terms: ShimTerms,
)
    ensures
        chat_answer(outcome, utterance, run_id, terms) matches Some((view, _)) ==> view.run_id == run_id,
        chat_answer(outcome, utterance, run_id, terms) is None <==> outcome matches Ok(
            ChatResult::PlayMusic(_),
        ),
{
}

// ---- Music ----

/// What the device is to play. Each field that is there goes to the device.
#[derive(Debug, PartialEq, Eq)]
pub struct PlayInput {
    pub album: Option<String>,
    pub artist: Option<String>,
    pub query: Option<String>,
    pub track: Option<String>,
}

pub ghost struct PlayView {
    pub album: Option<Seq<char>>,
    pub artist: Option<Seq<char>>,
    pub query: Option<Seq<char>>,
    pub track: Option<Seq<char>>,
}

impl View for PlayInput {
    type V = PlayView;

    open spec fn view(&self) -> PlayView {
        PlayView {
            album: chars::opt_text(self.album),
            artist: chars::opt_text(self.artist),
            query: chars::opt_text(self.query),
            track: chars::opt_text(self.track),
        }
    }
}

/// Nothing to play.
pub open spec fn nothing() -> PlayView {
    PlayView { album: None, artist: None, query: None, track: None }
}

/// The arguments of the tool by which the model asks for music.
pub ghost struct PlayArgs {
    pub artist: Option<Seq<char>>,
    pub album: Option<Seq<char>>,
    pub track: Option<Seq<char>>,
    pub mood: Option<Seq<char>>,
    pub playlist: Option<Seq<char>>,
    pub latest_album: bool,
}

/// A string of the arguments, trimmed, unless it is blank.
pub open spec fn arg(args: json::JsonView, key: Seq<char>) -> Option<Seq<char>> {
    match json::string_member(args, key) {
        Some(t) => trimmed_or_none(t),
        None => None,
    }
}

/// Whether the newest album is asked for.
pub open spec fn wants_latest(args: json::JsonView) -> bool {
    match json::member(args, "latest_album"@) {
        Some(v) => json::bool_of(v) == Some(true),
        None => false,
    }
}

/// The arguments in a value.
pub open spec fn play_args(args: json::JsonView) -> PlayArgs {
    PlayArgs {
        artist: arg(args, "artist"@),
        album: arg(args, "album"@),
        track: arg(args, "track"@),
        mood: arg(args, "mood"@),
        playlist: arg(args, "playlist"@),
        latest_album: wants_latest(args),
    }
}

/// Whether a name in lower case stands for all of the user's playlists.
pub open spec fn is_all_playlists(lower: Seq<char>) -> bool {
    lower == "my playlists"@ || lower == "all"@ || lower == "my library"@ || lower
        == "everything"@ || lower == "my playlist"@
}

/// The shim's term for one of the user's playlists, or for all of them.
pub open spec fn playlist_term(playlist: Seq<char>, lower: Seq<char>, terms: ShimTerms) -> Seq<char> {
    if is_all_playlists(lower) {
        terms.my_playlists@
    } else {
        terms.playlist_prefix@ + playlist
    }
}

/// What the device is to play. The artist's newest album comes first, if it was found; then
/// the user's own playlist; then a mood, by way of a playlist for it; then a track, artist
/// or album by name; and then whatever the user said.
pub open spec fn play_input(
    args: PlayArgs,
    latest: Option<Seq<char>>,
    utterance: Seq<char>,
    terms: ShimTerms,
) -> PlayView {
    if args.latest_album && args.artist is Some && latest is Some {
        PlayView { album: latest, artist: args.artist, ..nothing() }
    } else if args.playlist is Some {
        PlayView {
            track: Some(
                playlist_term(args.playlist->0, chars::lowercase(args.playlist->0), terms),
            ),
            ..nothing()
        }
    } else if args.mood is Some {
        PlayView { album: Some("playlist:"@ + args.mood->0), ..nothing() }
    } else if args.track is Some || args.artist is Some || args.album is Some {
        PlayView { album: args.album, artist: args.artist, track: args.track, query: None }
    } else {
        PlayView { query: Some(utterance), ..nothing() }
    }
}

/// A member for a text that may be absent.
pub open spec fn opt_member(name: Seq<char>, value: Option<Seq<char>>) -> Seq<
    (Seq<char>, json::JsonView),
> {
    match value {
        Some(t) => seq![(name, json::JsonView::Str(t))],
        None => Seq::empty(),
    }
}

/// What goes to the device as JSON.
pub open spec fn play_json(p: PlayView) -> json::JsonView {
    json::JsonView::Object(
        opt_member("Album"@, p.album) + opt_member("Artist"@, p.artist) + opt_member(
            "Query"@,
            p.query,
        ) + opt_member("Track"@, p.track),
    )
}

proof fn lemma_play_json_is_writable(p: PlayView)
    ensures
        json::writable(play_json(p)),
        json::is_read_back(play_json(p)),
{
    reveal_strlit("Album");
    reveal_strlit("Artist");
    reveal_strlit("Query");
    reveal_strlit("Track");
    chars::lemma_text_less_at("Album"@, "Artist"@, 1);
    chars::lemma_text_less_at("Album"@, "Query"@, 0);
    chars::lemma_text_less_at("Album"@, "Track"@, 0);
    chars::lemma_text_less_at("Artist"@, "Query"@, 0);
    chars::lemma_text_less_at("Artist"@, "Track"@, 0);
    chars::lemma_text_less_at("Query"@, "Track"@, 0);
    let a = opt_member("Album"@, p.album);
    let b = opt_member("Artist"@, p.artist);
    let c = opt_member("Query"@, p.query);
    let d = opt_member("Track"@, p.track);
    let m = a + b + c + d;
    assert forall|i: int| 0 <= i < m.len() - 1 implies chars::text_less(
        #[trigger] m[i].0,
        m[i + 1].0,
    ) by {
        assert(a.len() <= 1 && b.len() <= 1 && c.len() <= 1 && d.len() <= 1);
    }
    assert forall|i: int| 0 <= i < m.len() implies json::is_plain((#[trigger] m[i]).1) by {}
    json::lemma_name_is_free("Album"@);
    json::lemma_name_is_free("Artist"@);
    json::lemma_name_is_free("Query"@);
    json::lemma_name_is_free("Track"@);
    json::lemma_flat_is_writable(play_json(p));
}

fn push_member(members: &mut Vec<(String, Json)>, name: &str, value: &Option<String>)
    ensures
        json::member_views(final(members)@) == json::member_views(old(members)@) + opt_member(
            name@,
            chars::opt_text(*value),
        ),
{
    let ghost before = members@;
    if let Some(t) = value {
        members.push(field(name, text(t)));
        assert(json::member_views(members@) =~= json::member_views(before).push(
            (name@, json::JsonView::Str(t@)),
        ));
        assert(json::member_views(before).push((name@, json::JsonView::Str(t@)))
            =~= json::member_views(before) + opt_member(name@, Some(t@)));
    } else {
        assert(json::member_views(members@) =~= json::member_views(before) + opt_member(
            name@,
            None,
        ));
    }
}

impl PlayInput {
    /// What goes to the device as JSON.
    pub fn to_text(&self) -> (r: String)
        ensures
            r@ == json::json_text(play_json(self@)),
            json::parsed_json(r@) == Some(play_json(self@)),
    {
        let mut members: Vec<(String, Json)> = Vec::new();
        assert(json::member_views(members@) =~= Seq::<(Seq<char>, json::JsonView)>::empty());
        push_member(&mut members, "Album", &self.album);
        push_member(&mut members, "Artist", &self.artist);
        push_member(&mut members, "Query", &self.query);
        push_member(&mut members, "Track", &self.track);
        let r = object(members);
        proof {
            assert(r@->Object_0 =~= play_json(self@)->Object_0);
            lemma_play_json_is_writable(self@);
        }
        r.to_text()
    }
}

fn read_arg(args: &Json, key: &str) -> (r: Option<String>)
    ensures
        chars::opt_text(r) == arg(args@, key@),
{
    match args.get_str(key) {
        Some(t) => non_empty_string(t),
        None => None,
    }
}

fn reads_latest(args: &Json) -> (r: bool)
    ensures
        r == wants_latest(args@),
{
    match args.get("latest_album") {
        Some(v) => match v.as_bool() {
            Some(b) => b,
            None => false,
        },
        None => false,
    }
}

/// The artist whose newest album has to be looked up, if any.
pub fn latest_album_artist(args: &Json) -> (r: Option<String>)
    ensures
        chars::opt_text(r) == if wants_latest(args@) {
            arg(args@, "artist"@)
        } else {
            None
        },
{
    if reads_latest(args) {
        read_arg(args, "artist")
    } else {
        None
    }
}

/// The shim's term for one of the user's playlists, given its name in lower case.
pub fn term_for_playlist(playlist: &str, lower: &str, terms: &ShimTerms) -> (r: String)
    ensures
        r@ == playlist_term(playlist@, lower@, *terms),
{
    if same_text(lower, "my playlists") || same_text(lower, "all") || same_text(
        lower,
        "my library",
    ) || same_text(lower, "everything") || same_text(lower, "my playlist") {
        terms.my_playlists.clone()
    } else {
        text2(&terms.playlist_prefix, playlist)
    }
}

/// What the device is to play, given the arguments that were read, and the artist's newest
/// album if it was asked for and found.
pub fn play_music_input(
    args: &Json,
    latest_album: Option<String>,
    utterance: &str,
    terms: &ShimTerms,
) -> (r: PlayInput)
    ensures
        r@ == play_input(
            play_args(args@),
            chars::opt_text(latest_album),
            utterance@,
            *terms,
        ),
{
    let artist = read_arg(args, "artist");
    if reads_latest(args) && artist.is_some() && latest_album.is_some() {
        return PlayInput { album: latest_album, artist, query: None, track: None };
    }
    if let Some(playlist) = read_arg(args, "playlist") {
        let lower = to_lower(&playlist);
        let term = term_for_playlist(&playlist, &lower, terms);
        return PlayInput { album: None, artist: None, query: None, track: Some(term) };
    }
    if let Some(mood) = read_arg(args, "mood") {
        let album = Some(text2("playlist:", &mood));
        return PlayInput { album, artist: None, query: None, track: None };
    }
    let track = read_arg(args, "track");
    let album = read_arg(args, "album");
    if track.is_some() || artist.is_some() || album.is_some() {
        PlayInput { album, artist, query: None, track }
    } else {
        PlayInput {
            album: None,
            artist: None,
            query: Some(String::from_str(utterance)),
            track: None,
        }
    }
}

/// The arguments in a text: none, where it cannot be read.
pub open spec fn read_args(args_json: Seq<char>) -> json::JsonView {
    match json::parsed_json(args_json) {
        Some(v) => v,
        None => json::JsonView::Object(Seq::empty()),
    }
}

/// Reads the arguments of the tool by which the model asks for music.
pub fn parse_play_args(args_json: &str) -> (r: Json)
    ensures
        r@ == read_args(args_json@),
{
    match json::parse_json(args_json) {
        Some(v) => v,
        None => {
            let r = Json::Object(Vec::new());
            assert(r@->Object_0 =~= Seq::<(Seq<char>, json::JsonView)>::empty());
            r
        },
    }
}

/// What goes to the device for the arguments of the tool, given the artist's newest album if
/// it was asked for and found.
pub fn build_play_music_input(
    args_json: &str,
    latest_album: Option<String>,
    utterance: &str,
    terms: &ShimTerms,
) -> (r: String)
    ensures
        ({
            let p = play_input(
                play_args(read_args(args_json@)),
                chars::opt_text(latest_album),
                utterance@,
                *terms,
            );
            &&& r@ == json::json_text(play_json(p))
            &&& json::parsed_json(r@) == Some(play_json(p))
        }),
{
    let args = parse_play_args(args_json);
    play_music_input(&args, latest_album, utterance, terms).to_text()
}

/// Something always goes to the device to play.
pub proof fn law_something_is_played(
    args: PlayArgs,
    latest: Option<Seq<char>>,
    utterance: Seq<char>,
    terms: ShimTerms,
)
    ensures
        play_input(args, latest, utterance, terms) != nothing(),
        play_json(play_input(args, latest, utterance, terms))->Object_0.len() > 0,
{
}

// ---- Songs that cannot be played ----

/// The phrase that the device searches for a named track with: it is looked up to see
/// whether it can be played.
pub open spec fn track_phrase(input: json::JsonView) -> Option<Seq<char>> {
    match json::string_member(input, "Track"@) {
        Some(track) => match json::string_member(input, "Artist"@) {
            Some(artist) => if artist.len() > 0 {
                Some(track + " "@ + artist)
            } else {
                Some(track)
            },
            None => Some(track),
        },
        None => None,
    }
}

/// The phrase that the device searches for a named track with.
pub fn phrase_of(input: &Json) -> (r: Option<String>)
    ensures
        chars::opt_text(r) == track_phrase(input@),
{
    match input.get_str("Track") {
        Some(track) => match input.get_str("Artist") {
            Some(artist) => if artist.is_empty() {
                Some(String::from_str(track))
            } else {
                Some(text3(track, " ", artist))
            },
            None => Some(String::from_str(track)),
        },
        None => None,
    }
}

/// The phrase to look up before a named track is played: only Apple's tracks may turn out to
/// be unplayable.
pub fn unplayable_query(provider: &MusicProvider, input_json: &str) -> (r: Option<String>)
    ensures
        chars::opt_text(r) == if *provider is Apple {
            match json::parsed_json(input_json@) {
                Some(input) => track_phrase(input),
                None => None,
            }
        } else {
            None
        },
{
    match provider {
        MusicProvider::Apple(_) => match json::parse_json(input_json) {
            Some(input) => phrase_of(&input),
            None => None,
        },
        _ => None,
    }
}

pub const SORRY: &'static str = "Sorry — \"";

pub const CANNOT_PLAY: &'static str =
    "\" is a recent release that can't play on Apple Music right now due to a known limitation with newer songs. You can switch to Spotify or YouTube in settings to play it.";

/// What the user is told if the top track of a search cannot be played.
pub fn apple_unplayable_message(top: &Option<ProviderTrack>) -> (r: Option<String>)
    ensures
        chars::opt_text(r) == match *top {
            Some(t) => if music::is_playable(t.id@) {
                None
            } else {
                Some(SORRY@ + t.title@ + CANNOT_PLAY@)
            },
            None => None,
        },
{
    match top {
        Some(t) => if apple_id_playable(&t.id) {
            None
        } else {
            Some(text3(SORRY, &t.title, CANNOT_PLAY))
        },
        None => None,
    }
}

/// The name of the message that a request is.
pub const UNDERSTANDING_REQUEST: &'static str = "SynapseUnderstandingRequest";

/// The place that a request in an envelope tells of, given the place that the request itself
/// tells of once it is decoded. The location may come in an envelope of its own, which goes
/// before where there is data in it; `location` is what that data decodes to.
pub fn request_location(
    told: Result<Option<Coordinates>, String>,
    location_envelope: &Option<EncryptedData>,
    location: Result<Coordinates, String>,
) -> (r: Result<Option<Coordinates>, Status>)
    ensures
        match told {
            Err(e) => r is Err && envelope::is_status(
                r->Err_0,
                Code::InvalidArgument,
                envelope::bad_message(UNDERSTANDING_REQUEST@, e@),
            ),
            Ok(told) => if location_envelope is Some && location_envelope->0.data@.len() > 0 {
                match location {
                    Ok(place) => r == Ok::<Option<Coordinates>, Status>(Some(place)),
                    Err(e) => r is Err && envelope::is_status(
                        r->Err_0,
                        Code::InvalidArgument,
                        envelope::bad_message(LOCATION_ENVELOPE@, e@),
                    ),
                }
            } else {
                r == Ok::<Option<Coordinates>, Status>(told)
            },
        },
{
    match decoded(UNDERSTANDING_REQUEST, told) {
        Ok(told) => match optional_data(location_envelope) {
            Some(_) => match decoded(LOCATION_ENVELOPE, location) {
                Ok(place) => Ok(Some(place)),
                Err(e) => Err(e),
            },
            None => Ok(told),
        },
        Err(e) => Err(e),
    }
}

/// The envelope of an encoded response.
pub fn encrypted_understand(response: Vec<u8>) -> (r: EncryptedData)
    ensures
        envelope::is_envelope(r, UNDERSTANDING_RESPONSE@, response@),
{
    EncryptedData::new(UNDERSTANDING_RESPONSE, response)
}

// ---- What the music that is asked for becomes ----

/// What the tool's arguments give under a key: a text that is not blank, without the white
/// space around it.
pub open spec fn given(args: json::JsonView, key: Seq<char>) -> Option<Seq<char>> {
    match json::string_member(args, key) {
        Some(t) => if chars::trimmed(t).len() > 0 {
            Some(chars::trimmed(t))
        } else {
            None
        },
        None => None,
    }
}

/// Whether an artist's newest album was asked for and found.
pub open spec fn newest_is_found(args: json::JsonView, latest: Option<Seq<char>>) -> bool {
    &&& json::member(args, "latest_album"@) == Some(json::JsonView::Bool(true))
    &&& given(args, "artist"@) is Some
    &&& latest is Some
}

/// What goes to the device for the arguments of the tool.
pub open spec fn device_input(
    args: json::JsonView,
    latest: Option<Seq<char>>,
    utterance: Seq<char>,
    terms: ShimTerms,
) -> json::JsonView {
    play_json(play_input(play_args(args), latest, utterance, terms))
}

/// The device reads each field of what it is to play under the field's own name.
proof fn lemma_play_json_fields(p: PlayView)
    ensures
        json::string_member(play_json(p), "Album"@) == p.album,
        json::string_member(play_json(p), "Artist"@) == p.artist,
        json::string_member(play_json(p), "Query"@) == p.query,
        json::string_member(play_json(p), "Track"@) == p.track,
{
    reveal_strlit("Album");
    reveal_strlit("Artist");
    reveal_strlit("Query");
    reveal_strlit("Track");
    assert("Album"@.len() == 5 && "Artist"@.len() == 6 && "Query"@.len() == 5 && "Track"@.len()
        == 5);
    assert("Album"@[0] == 'A' && "Query"@[0] == 'Q' && "Track"@[0] == 'T');
    let a = opt_member("Album"@, p.album);
    let b = opt_member("Artist"@, p.artist);
    let c = opt_member("Query"@, p.query);
    let d = opt_member("Track"@, p.track);
    let m = a + b + c + d;
    lemma_named_in_parts(a + b + c, d, "Album"@);
    lemma_named_in_parts(a + b + c, d, "Artist"@);
    lemma_named_in_parts(a + b + c, d, "Query"@);
    lemma_named_in_parts(a + b + c, d, "Track"@);
    lemma_named_in_parts(a + b, c, "Album"@);
    lemma_named_in_parts(a + b, c, "Artist"@);
    lemma_named_in_parts(a + b, c, "Query"@);
    lemma_named_in_parts(a + b, c, "Track"@);
    lemma_named_in_parts(a, b, "Album"@);
    lemma_named_in_parts(a, b, "Artist"@);
    lemma_named_in_parts(a, b, "Query"@);
    lemma_named_in_parts(a, b, "Track"@);
    lemma_one_named("Album"@, p.album);
    lemma_one_named("Artist"@, p.artist);
    lemma_one_named("Query"@, p.query);
    lemma_one_named("Track"@, p.track);
}

proof fn lemma_one_named(name: Seq<char>, value: Option<Seq<char>>)
    ensures
        json::first_named(opt_member(name, value), name) == match value {
            Some(t) => Some(json::JsonView::Str(t)),
            None => None,
        },
        forall|other: Seq<char>|
            other != name ==> #[trigger] json::first_named(opt_member(name, value), other) is None,
{
    let m = opt_member(name, value);
    reveal_with_fuel(json::first_named, 2);
    assert(m.len() <= 1);
    if m.len() == 1 {
        assert(m.drop_first() =~= Seq::<(Seq<char>, json::JsonView)>::empty());
    }
}

proof fn lemma_named_in_parts(
    a: Seq<(Seq<char>, json::JsonView)>,
    b: Seq<(Seq<char>, json::JsonView)>,
    name: Seq<char>,
)
    ensures
        json::first_named(a + b, name) == match json::first_named(a, name) {
            Some(v) => Some(v),
            None => json::first_named(b, name),
        },
    decreases a.len(),
{
    if a.len() == 0 {
        assert(a + b =~= b);
    } else {
        assert((a + b).drop_first() =~= a.drop_first() + b);
        lemma_named_in_parts(a.drop_first(), b, name);
    }
}

/// Music that is named is played by its names: where no newest album was found, and neither a
/// playlist nor a mood is given, each of track, artist and album that is given goes to the device
/// under its own name, and only without any of them does what the user said.
pub proof fn law_named_music_is_played(
    args: json::JsonView,
    latest: Option<Seq<char>>,
    utterance: Seq<char>,
    terms: ShimTerms,
)
    requires
        !newest_is_found(args, latest),
        given(args, "playlist"@) is None,
        given(args, "mood"@) is None,
    ensures
        ({
            let sent = device_input(args, latest, utterance, terms);
            &&& json::string_member(sent, "Track"@) == given(args, "track"@)
            &&& json::string_member(sent, "Artist"@) == given(args, "artist"@)
            &&& json::string_member(sent, "Album"@) == given(args, "album"@)
            &&& json::string_member(sent, "Query"@) == if given(args, "track"@) is None && given(
                args,
                "artist"@,
            ) is None && given(args, "album"@) is None {
                Some(utterance)
            } else {
                None
            }
        }),
{
    lemma_play_json_fields(play_input(play_args(args), latest, utterance, terms));
}

/// An artist's newest album that was asked for and found is played as that artist's album,
/// whatever else the arguments give.
pub proof fn law_newest_album_is_played(
    args: json::JsonView,
    latest: Option<Seq<char>>,
    utterance: Seq<char>,
    terms: ShimTerms,
)
    requires
        newest_is_found(args, latest),
    ensures
        ({
            let sent = device_input(args, latest, utterance, terms);
            &&& json::string_member(sent, "Album"@) == latest
            &&& json::string_member(sent, "Artist"@) == given(args, "artist"@)
            &&& json::string_member(sent, "Track"@) is None
            &&& json::string_member(sent, "Query"@) is None
        }),
{
    lemma_play_json_fields(play_input(play_args(args), latest, utterance, terms));
}

/// A playlist of the user's own is played by the shim's term for it, before a mood and before
/// any name: one for all of them where the name, in lower case, is one of the five ways to say
/// that, and else the prefix with the name as it was given.
pub proof fn law_own_playlist_is_played(
    args: json::JsonView,
    latest: Option<Seq<char>>,
    utterance: Seq<char>,
    terms: ShimTerms,
)
    requires
        !newest_is_found(args, latest),
        given(args, "playlist"@) is Some,
    ensures
        ({
            let sent = device_input(args, latest, utterance, terms);
            let name = given(args, "playlist"@)->0;
            let lower = chars::lowercase(name);
            let all = lower == "my playlists"@ || lower == "my playlist"@ || lower == "my library"@
                || lower == "all"@ || lower == "everything"@;
            &&& all ==> json::string_member(sent, "Track"@) == Some(terms.my_playlists@)
            &&& !all ==> json::string_member(sent, "Track"@) == Some(terms.playlist_prefix@ + name)
            &&& json::string_member(sent, "Album"@) is None
            &&& json::string_member(sent, "Artist"@) is None
            &&& json::string_member(sent, "Query"@) is None
        }),
{
    lemma_play_json_fields(play_input(play_args(args), latest, utterance, terms));
}

/// A mood is played by way of a playlist for it, before any name.
pub proof fn law_mood_is_played(
    args: json::JsonView,
    latest: Option<Seq<char>>,
    utterance: Seq<char>,
    terms: ShimTerms,
)
    requires
        !newest_is_found(args, latest),
        given(args, "playlist"@) is None,
        given(args, "mood"@) is Some,
    ensures
        ({
            let sent = device_input(args, latest, utterance, terms);
            &&& json::string_member(sent, "Album"@) == Some("playlist:"@ + given(args, "mood"@)->0)
            &&& json::string_member(sent, "Artist"@) is None
            &&& json::string_member(sent, "Track"@) is None
            &&& json::string_member(sent, "Query"@) is None
        }),
{
    lemma_play_json_fields(play_input(play_args(args), latest, utterance, terms));
}

/// Arguments that cannot be read give nothing, so that what the user said is played.
pub proof fn law_unread_arguments_play_the_utterance(
    args_json: Seq<char>,
    latest: Option<Seq<char>>,
    utterance: Seq<char>,
    terms: ShimTerms,
)
    requires
        json::parsed_json(args_json) is None,
    ensures
        ({
            let sent = device_input(read_args(args_json), latest, utterance, terms);
            &&& json::string_member(sent, "Query"@) == Some(utterance)
            &&& json::string_member(sent, "Track"@) is None
            &&& json::string_member(sent, "Artist"@) is None
            &&& json::string_member(sent, "Album"@) is None
        }),
{
    let args = read_args(args_json);
    assert(json::member(args, "playlist"@) is None);
    assert(json::member(args, "mood"@) is None);
    assert(json::member(args, "track"@) is None);
    assert(json::member(args, "artist"@) is None);
    assert(json::member(args, "album"@) is None);
    law_named_music_is_played(args, latest, utterance, terms);
}

/// Before a named track is played, it is looked up by its title and, if the artist is named, a
/// blank and the artist behind it; without a track nothing is looked up.
pub proof fn law_track_is_looked_up_as_played(
    args: json::JsonView,
    title: Seq<char>,
    artist: Seq<char>,
)
    requires
        json::string_member(args, "Track"@) == Some(title),
    ensures
        json::string_member(args, "Artist"@) == Some(artist) && artist.len() > 0 ==> track_phrase(args)
            == Some(title + " "@ + artist),
        json::string_member(args, "Artist"@) is None ==> track_phrase(args) == Some(title),
        json::string_member(args, "Artist"@) == Some(Seq::<char>::empty()) ==> track_phrase(args)
            == Some(title),
{
}

pub proof fn law_nothing_is_looked_up_without_a_track(args: json::JsonView)
    requires
        json::string_member(args, "Track"@) is None,
    ensures
        track_phrase(args) is None,
{
}

// ---- What the device is answered ----

/// A text of the model goes to the device as its response and is kept.
pub proof fn law_text_is_the_response(
    t: String,
    utterance: Seq<char>,
    run_id: Seq<char>,
    terms: ShimTerms,
)
    ensures
        chat_answer(Ok(ChatResult::Text(t)), utterance, run_id, terms) matches Some((view, saved))
            && view.action == "Respond"@ && view.input == json::json_text(
            json::JsonView::Object(seq![("Response"@, json::JsonView::Str(t@))]),
        ) && view.run_id == run_id && view.spoken is None && saved == Some(t@),
{
}

/// An error of the model goes to the device in the same way, and is kept, but the device is told
/// that it is one.
pub proof fn law_error_is_the_response(
    e: String,
    utterance: Seq<char>,
    run_id: Seq<char>,
    terms: ShimTerms,
)
    ensures
        chat_answer(Err(e), utterance, run_id, terms) matches Some((view, saved)) && view.action
            == "Respond"@ && view.thought == "I encountered an error"@ && view.input
            == json::json_text(
            json::JsonView::Object(seq![("Response"@, json::JsonView::Str(e@))]),
        ) && view.run_id == run_id && view.spoken is None && saved == Some(e@),
{
}

/// Where the model wants to see, the device is asked for an image, with what the user said as
/// the question, and nothing is kept yet.
pub proof fn law_vision_asks_the_device(utterance: Seq<char>, run_id: Seq<char>, terms: ShimTerms)
    ensures
        chat_answer(Ok(ChatResult::DeferredVision), utterance, run_id, terms) matches Some(
            (view, saved),
        ) && view.action == "UnderstandScene"@ && view.input == json::json_text(
            json::JsonView::Object(seq![("Question"@, json::JsonView::Str(utterance))]),
        ) && view.run_id == run_id && view.spoken is None && saved is None,
{
}

/// An action on the music that plays goes to the device under its own name and without input;
/// only the user's favorites are played by a search for them. Nothing is kept.
pub proof fn law_control_goes_to_the_device(
    action: String,
    utterance: Seq<char>,
    run_id: Seq<char>,
    terms: ShimTerms,
)
    ensures
        chat_answer(Ok(ChatResult::MusicControl(action)), utterance, run_id, terms) matches Some(
            (view, saved),
        ) && view.run_id == run_id && view.spoken is None && saved is None && (action@
            != "PlayFavoriteTracks"@ ==> view.action == action@ && view.input == "{}"@) && (action@
            == "PlayFavoriteTracks"@ ==> view.action == "PlayMusic"@ && view.input
            == json::json_text(
            json::JsonView::Object(seq![("Track"@, json::JsonView::Str(terms.favorites@))]),
        )),
{
}

// ---- Where a request goes ----

/// Without a device context a request goes to the model, without an image.
pub proof fn law_request_without_context_is_chat(
    r: Route,
    stored: Option<Seq<u8>>,
    utterance: Seq<char>,
    run_id: Seq<char>,
)
    requires
        is_route(r, None, stored, utterance, run_id),
    ensures
        r is Chat,
{
}

/// The image that the latest user request brings goes to the model, whatever is in store and
/// whether or not it asks for vision.
pub proof fn law_attached_image_goes_first(
    r: Route,
    ctx: DeviceContext,
    k: int,
    req: vision::UserRequest,
    stored: Option<Seq<u8>>,
    utterance: Seq<char>,
    run_id: Seq<char>,
)
    requires
        is_route(r, Some(ctx), stored, utterance, run_id),
        0 <= k < ctx.turns@.len(),
        ctx.turns@[k] == vision::ChatTurn::UserRequest(req),
        forall|i: int| k < i < ctx.turns@.len() ==> (#[trigger] ctx.turns@[i]) is Other,
        req.image_data@.len() > 0,
    ensures
        r is ChatWithImage,
        r->ChatWithImage_0@ == req.image_data@,
{
    vision::law_latest_request_decides(ctx.turns@, k, req);
}

/// Where the latest user request brings no image, the one in store goes to the model, if there is
/// one; else the device is asked for one if the request asks for vision, and the model is asked
/// without an image if not.
pub proof fn law_request_without_image(
    r: Route,
    ctx: DeviceContext,
    k: int,
    req: vision::UserRequest,
    stored: Option<Seq<u8>>,
    utterance: Seq<char>,
    run_id: Seq<char>,
)
    requires
        is_route(r, Some(ctx), stored, utterance, run_id),
        0 <= k < ctx.turns@.len(),
        ctx.turns@[k] == vision::ChatTurn::UserRequest(req),
        forall|i: int| k < i < ctx.turns@.len() ==> (#[trigger] ctx.turns@[i]) is Other,
        req.image_data@.len() == 0,
    ensures
        stored matches Some(bytes) ==> r is ChatWithImage && r->ChatWithImage_0@ == bytes,
        stored is None && req.vision_requested ==> r is AskForScene && r->AskForScene_0@.action
            == "UnderstandScene"@ && r->AskForScene_0@.run_id == run_id
            && r->AskForScene_0@.input == json::json_text(
            json::JsonView::Object(seq![("Question"@, json::JsonView::Str(utterance))]),
        ),
        stored is None && !req.vision_requested ==> r is Chat,
{
    vision::law_latest_request_decides(ctx.turns@, k, req);
}

/// Only an image that has not expired is taken from the store.
pub proof fn law_only_live_images_are_taken(store: LiveImageStore, run_id: Seq<char>, now: u128)
    ensures
        stored_image(store, run_id, now) matches Some(bytes) ==> store@.contains_key(run_id)
            && store@[run_id].bytes == bytes && now - store@[run_id].last_access < 300_000_000_000,
        stored_image(store, run_id, now) is None && store@.contains_key(run_id) ==> now
            - store@[run_id].last_access >= 300_000_000_000,
{
}

// ---- Laws on requests to the model ----

/// The context keeps what it was made with, and takes the place, its name and what is playing from
/// the device. A place that is told replaces the one before, in all three forms.
pub proof fn law_context_tells_place_and_music(
    base: PromptTemplateContext,
    device: Option<DeviceContext>,
    place: Option<Coordinates>,
    playing: Option<NowPlaying>,
    r: PromptTemplateContext,
)
    requires
        call_ensures(build_prompt_template_context, (base, &device, &place, &playing), r),
    ensures
        r.run_id == base.run_id,
        r.assistant_display_name == base.assistant_display_name,
        r.server_public_addr == base.server_public_addr,
        r.current_timestamp == base.current_timestamp && r.current_date == base.current_date
            && r.current_time == base.current_time,
        place matches Some(p) ==> r.latitude == Some(p.latitude) && r.longitude == Some(p.longitude)
            && (r.coordinates matches Some(c) && c@ == p.latitude@ + ", "@ + p.longitude@),
        place is None ==> r.latitude == base.latitude && r.longitude == base.longitude && r.coordinates
            == base.coordinates,
        device matches Some(d) ==> (chars::trimmed(d.reverse_geocoded_location@).len() > 0 ==> (
        r.location_name matches Some(n) && n@ == chars::trimmed(d.reverse_geocoded_location@))),
        device matches Some(d) ==> (chars::trimmed(d.reverse_geocoded_location@).len() == 0
            ==> r.location_name is None),
        playing is None ==> r.now_playing is None,
        playing matches Some(n) ==> (r.now_playing matches Some(t) && t@ == music::summary_text(
            n.title@,
            n.artist@,
            n.album@,
        )),
{
}

/// A request says what the user says, with the history only where the device sent a context, and
/// with the memory and the image that there are.
pub proof fn law_request_carries_its_parts(
    utterance: &str,
    ctx: Option<DeviceContext>,
    extracted: Vec<Message>,
    templates: PromptTemplates,
    context: PromptTemplateContext,
    memory: Option<String>,
    image: Option<Vec<u8>>,
    history: Vec<Message>,
    r: LlmChatRequest,
)
    requires
        call_ensures(request_history, (&ctx, extracted), history),
        call_ensures(
            chat_request,
            (utterance, &ctx, extracted, templates, context, memory, image),
            r,
        ),
    ensures
        r.utterance@ == utterance@,
        ctx is None ==> r.history@.len() == 0,
        ctx is Some ==> r.history@ == extracted@,
        history@ == r.history@,
        r.templates == templates,
        r.template_context == context,
        r.memory_context == memory,
        r.image == image,
{
}

/// Music that can be played is played with its input; music that cannot is answered with the
/// reason, which is also spoken.
pub proof fn law_unplayable_music_is_explained(
    input: &str,
    unplayable: Option<String>,
    run_id: &str,
    r: ActionResponse,
)
    requires
        call_ensures(play_music_response, (input, unplayable, run_id), r),
    ensures
        r.run_id@ == run_id@,
        unplayable is None ==> r.action@ == "PlayMusic"@ && r.input@ == input@ && r.spoken is None,
        unplayable matches Some(m) ==> r.action@ == "Respond"@ && (r.spoken matches Some(s) && s@ == m@)
            && r.input@ == json::json_text(
            json::JsonView::Object(seq![("Response"@, json::JsonView::Str(m@))]),
        ),
{
    assert(r@.action == r.action@ && r@.input == r.input@ && r@.run_id == r.run_id@);
    assert(r@.spoken == chars::opt_text(r.spoken));
}

/// Only Apple's songs are looked up before they are played, and only one that cannot be played is
/// explained, by its title.
pub proof fn law_only_unplayable_songs_are_explained(
    p: MusicProvider,
    input: &str,
    top: Option<ProviderTrack>,
    query: Option<String>,
    message: Option<String>,
)
    requires
        call_ensures(unplayable_query, (&p, input), query),
        call_ensures(apple_unplayable_message, (&top,), message),
    ensures
        !(p is Apple) ==> query is None,
        p is Apple ==> (json::parsed_json(input@) matches Some(v) ==> chars::opt_text(query)
            == track_phrase(v)),
        top is None ==> message is None,
        top matches Some(t) ==> (message is None <==> music::is_playable(t.id@)),
        top matches Some(t) ==> (message matches Some(m) ==> chars::contains_text(m@, t.title@)),
{
    if top is Some && message is Some {
        chars::law_parts_are_contained(SORRY@, top->0.title@, CANNOT_PLAY@, message->0@);
    }
}

/// The newest album is looked for only where it is wanted and the artist is named.
pub proof fn law_newest_album_is_of_the_artist(args: Json, r: Option<String>)
    requires
        call_ensures(latest_album_artist, (&args,), r),
    ensures
        r matches Some(a) ==> json::member(args@, "latest_album"@) == Some(json::JsonView::Bool(true))
            && given(args@, "artist"@) == Some(a@),
        json::member(args@, "latest_album"@) == Some(json::JsonView::Bool(true)) && given(
            args@,
            "artist"@,
        ) is Some ==> r is Some,
{
    assert(arg(args@, "artist"@) == given(args@, "artist"@));
}

/// The place is that of the location's envelope where it has anything, and else the one that the
/// request tells; what cannot be read is refused.
pub proof fn law_envelope_tells_the_place(
    told: Result<Option<Coordinates>, String>,
    e: Option<EncryptedData>,
    location: Result<Coordinates, String>,
    r: Result<Option<Coordinates>, Status>,
)
    requires
        call_ensures(request_location, (told, &e, location), r),
    ensures
        told is Err ==> (r matches Err(s) && s.code == Code::InvalidArgument),
        told is Ok && e is Some && e->0.data@.len() > 0 ==> (location matches Ok(p) ==> r == Ok::<
            Option<Coordinates>,
            Status,
        >(Some(p))),
        told is Ok && e is Some && e->0.data@.len() > 0 && location is Err ==> (r matches Err(s)
            && s.code == Code::InvalidArgument),
        told matches Ok(t) ==> (e is None || e->0.data@.len() == 0 ==> r == Ok::<
            Option<Coordinates>,
            Status,
        >(t)),
{
}

/// What the model decides is what the device is told: only music is resolved first, by the
/// arguments of the tool.
pub proof fn law_music_is_resolved_first(
    outcome: Result<ChatResult, String>,
    utterance: &str,
    run_id: &str,
    terms: ShimTerms,
    r: ChatStep,
)
    requires
        call_ensures(evaluate_agent_conversation, (outcome, utterance, run_id, &terms), r),
    ensures
        outcome matches Ok(ChatResult::PlayMusic(args)) ==> r == ChatStep::PlayMusic(args),
        outcome matches Ok(ChatResult::Text(t)) ==> (r matches ChatStep::Answer { response, saved }
            && response.action@ == "Respond"@ && response.run_id@ == run_id@ && (saved matches Some(s)
            && s@ == t@)),
        outcome matches Ok(ChatResult::DeferredVision) ==> (r matches ChatStep::Answer { response, saved }
            && response.action@ == "UnderstandScene"@ && saved is None),
        outcome matches Err(e) ==> (r matches ChatStep::Answer { response, saved }
            && response.action@ == "Respond"@ && (saved matches Some(s) && s@ == e@)),
{
    if let ChatStep::Answer { response, saved } = r {
        assert(response@.action == response.action@ && response@.run_id == response.run_id@);
    }
}

/// A request without a context, or with an image of its own, leaves the store alone. Any other has
/// the image of its run counted as used, which keeps it for five more minutes, and leaves the other
/// images that are live.
pub proof fn law_used_image_stays(
    ctx: Option<DeviceContext>,
    store: LiveImageStore,
    run_id: Seq<char>,
    now: u128,
    after: LiveImageStore,
    later: u128,
    other: Seq<char>,
)
    requires
        is_looked_through(ctx, store, run_id, now, after),
    ensures
        ctx is None ==> after == store,
        ctx matches Some(c) ==> (vision::latest_image(c.turns@) is Some ==> after == store),
        ctx matches Some(c) ==> (vision::latest_image(c.turns@) is None && image_store::live(
            store@,
            now,
        ).contains_key(run_id) && later - now < 5 * 60 * 1_000_000_000 ==> image_store::live(
            after@,
            later,
        ).contains_key(run_id) && image_store::live(after@, later)[run_id].bytes
            == store@[run_id].bytes),
        other != run_id && image_store::live(store@, now).contains_key(other) ==> after@.contains_key(
            other,
        ) && after@[other] == store@[other],
{
}

/// What is seen of an answer and of an input are their own fields.
pub proof fn law_views_tell_the_fields(a: ActionResponse, p: PlayInput)
    ensures
        a@.action == a.action@,
        a@.thought == a.thought@,
        a@.input == a.input@,
        a@.run_id == a.run_id@,
        a@.spoken == chars::opt_text(a.spoken),
        p@.album == chars::opt_text(p.album),
        p@.artist == chars::opt_text(p.artist),
        p@.query == chars::opt_text(p.query),
        p@.track == chars::opt_text(p.track),
{
}

} // verus!
