//! A Mopidy server, over its JSON-RPC API.
//!
//! Mopidy plays on its own and sends its output to an Icecast server. So the device is
//! handed one stream URL, and Mopidy is pointed at the track that is wanted.

use crate::chars;
use crate::chars::{chars_of, same_text, text_of};
use crate::codec;
use crate::external::{text2, text4};
use crate::json;
use crate::json::{array, field, object, text, unsigned, Json};
use crate::music;
use crate::music::{first_entities, first_tracks, ProviderEntity, ProviderTrack};
use vstd::prelude::*;
use vstd::string::*;

verus! {

pub const BAD_PLAYLIST_ID: &'static str = "bad mopidy playlist id";

pub const BAD_TRACK_ID: &'static str = "bad mopidy track id";

/// Where a Mopidy server takes calls, and where its audio comes out.
#[derive(Debug, Clone, PartialEq, Eq)]
pub struct MopidyClient {
    pub rpc_url: String,
    pub stream_url: String,
}

#[derive(Debug, PartialEq, Eq)]
pub struct MopidyTrack {
    pub uri: String,
    pub name: String,
    /// The names of the artists.
    pub artists: Vec<String>,
    /// The name of the album.
    pub album: Option<String>,
    /// Track length in milliseconds.
    pub length: Option<u64>,
}

#[derive(Debug, PartialEq, Eq)]
pub struct MopidyRef {
    pub uri: String,
    pub name: String,
}

// ---- Ids ----

/// The id that stands for a URI: the URI in URL-safe Base64.
pub open spec fn uri_id(uri: Seq<char>) -> Seq<char> {
    codec::url_base64(vstd::utf8::encode_utf8(uri))
}

/// The URI that an id stands for.
pub open spec fn id_uri(id: Seq<char>) -> Option<Seq<char>> {
    match codec::url_base64_bytes(id) {
        Some(bytes) => if vstd::utf8::valid_utf8(bytes) {
            Some(vstd::utf8::decode_utf8(bytes))
        } else {
            None
        },
        None => None,
    }
}

/// URIs hold characters that a path cannot hold, so they are carried as URL-safe Base64.
/// [`decode_uri`] gives the URI back.
pub fn encode_uri(uri: &str) -> (r: String)
    ensures
        r@ == uri_id(uri@),
        id_uri(r@) == Some(uri@),
{
    let r = codec::encode_url(uri.as_bytes());
    proof {
        vstd::utf8::encode_utf8_valid_utf8(uri@);
        vstd::utf8::encode_utf8_decode_utf8(uri@);
    }
    r
}

/// The URI that an id stands for.
pub fn decode_uri(id: &str) -> (r: Option<String>)
    ensures
        chars::opt_text(r) == id_uri(id@),
{
    match codec::decode_url(id) {
        Some(bytes) => {
            let r = codec::utf8_text(bytes);
            proof {
                if r is Some {
                    vstd::utf8::encode_utf8_decode_utf8(r->0@);
                }
            }
            r
        },
        None => None,
    }
}

// ---- Calls ----

/// The body of a JSON-RPC call.
pub open spec fn rpc_view(method: Seq<char>, params: json::JsonView) -> json::JsonView {
    json::JsonView::Object(
        seq![
            ("id"@, json::JsonView::Number(json::NumberView::Unsigned(1))),
            ("jsonrpc"@, json::JsonView::Str("2.0"@)),
            ("method"@, json::JsonView::Str(method)),
            ("params"@, params),
        ],
    )
}

/// Parameters with one member.
pub open spec fn one_member(name: Seq<char>, value: json::JsonView) -> json::JsonView {
    json::JsonView::Object(seq![(name, value)])
}

/// An array of one string.
pub open spec fn one_string(t: Seq<char>) -> json::JsonView {
    json::JsonView::Array(seq![json::JsonView::Str(t)])
}

/// No parameters.
pub open spec fn no_params() -> json::JsonView {
    json::JsonView::Object(Seq::empty())
}

/// What a call of a method is on the wire.
pub open spec fn call_text(method: Seq<char>, params: json::JsonView) -> Seq<char> {
    json::json_text(rpc_view(method, params))
}

/// The body of a JSON-RPC call.
pub fn rpc(method: &str, params: Json) -> (r: String)
    requires
        json::writable(params@),
    ensures
        r@ == call_text(method@, params@),
{
    let ghost given = params@;
    let mut members: Vec<(String, Json)> = Vec::new();
    members.push(field("id", unsigned(1)));
    members.push(field("jsonrpc", text("2.0")));
    members.push(field("method", text(method)));
    members.push(field("params", params));
    let body = object(members);
    proof {
        assert(body@->Object_0 =~= rpc_view(method@, given)->Object_0);
        reveal_strlit("id");
        reveal_strlit("jsonrpc");
        reveal_strlit("method");
        reveal_strlit("params");
        chars::lemma_text_less_at("id"@, "jsonrpc"@, 0);
        chars::lemma_text_less_at("jsonrpc"@, "method"@, 0);
        chars::lemma_text_less_at("method"@, "params"@, 0);
        let m = body@->Object_0;
        assert(json::names_ascend(m));
        assert forall|i: int| 0 <= i < m.len() implies json::writable((#[trigger] m[i]).1) by {
            if i == 0 {
                assert(json::writable(json::JsonView::Number(json::NumberView::Unsigned(1))));
            } else if i < 3 {
                assert(m[i].1 is Str);
            }
        }
    }
    body.to_text()
}

fn empty_params() -> (r: Json)
    ensures
        r@ == no_params(),
        json::writable(r@),
{
    let members: Vec<(String, Json)> = Vec::new();
    let r = object(members);
    assert(r@->Object_0 =~= Seq::<(Seq<char>, json::JsonView)>::empty());
    r
}

fn member_params(name: &str, value: Json) -> (r: Json)
    requires
        json::writable(value@),
    ensures
        r@ == one_member(name@, value@),
        json::writable(r@),
{
    let ghost given = value@;
    let mut members: Vec<(String, Json)> = Vec::new();
    members.push(field(name, value));
    let r = object(members);
    assert(r@->Object_0 =~= one_member(name@, given)->Object_0);
    proof {
        let m = r@->Object_0;
        assert forall|i: int| 0 <= i < m.len() implies json::writable((#[trigger] m[i]).1) by {
            assert(m[i].1 == given);
        }
    }
    r
}

fn string_array(t: &str) -> (r: Json)
    ensures
        r@ == one_string(t@),
        json::writable(r@),
{
    let mut items: Vec<Json> = Vec::new();
    items.push(text(t));
    let r = array(items);
    assert(r@->Array_0 =~= one_string(t@)->Array_0);
    proof {
        let a = r@->Array_0;
        assert forall|i: int| 0 <= i < a.len() implies json::writable(#[trigger] a[i]) by {
            assert(a[i] is Str);
        }
    }
    r
}

/// What a call comes to, given the text of the error that it was answered with, if any.
pub fn rpc_reply(method: &str, error: Option<&str>, result: Json) -> (r: Result<Json, String>)
    ensures
        match error {
            Some(e) => r is Err && r->Err_0@ == "mopidy "@ + method@ + " error: "@ + e@,
            None => r == Ok::<Json, String>(result),
        },
{
    match error {
        Some(e) => Err(text4("mopidy ", method, " error: ", e)),
        None => Ok(result),
    }
}

/// What is said of a call that was not answered with success.
pub fn rpc_status_error(method: &str, status: &str) -> (r: String)
    ensures
        r@ == "mopidy "@ + method@ + " "@ + status@,
{
    text4("mopidy ", method, " ", status)
}

/// `base` without the slashes at its end.
pub open spec fn without_slashes(base: Seq<char>) -> Seq<char>
    decreases base.len(),
{
    if base.len() > 0 && base.last() == '/' {
        without_slashes(base.drop_last())
    } else {
        base
    }
}

impl MopidyClient {
    pub fn new(base_url: &str, stream_url: String) -> (r: Self)
        ensures
            r.rpc_url@ == without_slashes(base_url@) + "/mopidy/rpc"@,
            r.stream_url == stream_url,
    {
        let v = chars_of(base_url);
        let mut n: usize = v.len();
        assert(v@.take(n as int) =~= v@);
        while n > 0 && v[n - 1] == '/'
            invariant
                n <= v@.len(),
                without_slashes(v@.take(n as int)) == without_slashes(v@),
            decreases n,
        {
            assert(v@.take(n as int).drop_last() =~= v@.take(n - 1));
            n -= 1;
        }
        let base = text_of(&v, 0, n);
        assert(base@ =~= v@.take(n as int));
        MopidyClient { rpc_url: text2(&base, "/mopidy/rpc"), stream_url }
    }

    /// The stream that the device plays for any track.
    pub fn stream_url(&self) -> (r: &str)
        ensures
            r@ == self.stream_url@,
    {
        self.stream_url.as_str()
    }

    /// Searches all of the server's backends. See [`search_items`] and [`tracks_into`].
    pub fn search_songs(&self, term: &str) -> (r: String)
        ensures
            r@ == call_text(
                "core.library.search"@,
                one_member("query"@, one_member("any"@, one_string(term@))),
            ),
    {
        let params = member_params("query", member_params("any", string_array(term)));
        rpc("core.library.search", params)
    }

    /// Asks for the playlists. See [`list_items`] and [`playlists_into`].
    pub fn playlists(&self) -> (r: String)
        ensures
            r@ == call_text("core.playlists.as_list"@, no_params()),
    {
        rpc("core.playlists.as_list", empty_params())
    }

    /// Asks for the tracks of a playlist. See [`playlist_items`] and [`tracks_into`].
    pub fn playlist_tracks(&self, id: &str) -> (r: Result<String, String>)
        ensures
            match id_uri(id@) {
                Some(uri) => r is Ok && r->Ok_0@ == call_text(
                    "core.playlists.lookup"@,
                    one_member("uri"@, json::JsonView::Str(uri)),
                ),
                None => r is Err && r->Err_0@ == BAD_PLAYLIST_ID@,
            },
    {
        match decode_uri(id) {
            Some(uri) => {
                let name = text(&uri);
                assert(json::writable(name@));
                Ok(rpc("core.playlists.lookup", member_params("uri", name)))
            },
            None => Err(String::from_str(BAD_PLAYLIST_ID)),
        }
    }

    /// Asks for a track. Comes with the URI under which [`track_item`] finds it.
    pub fn track(&self, id: &str) -> (r: Result<(String, String), String>)
        ensures
            match id_uri(id@) {
                Some(uri) => r is Ok && r->Ok_0.0@ == call_text(
                    "core.library.lookup"@,
                    one_member("uris"@, one_string(uri)),
                ) && r->Ok_0.1@ == uri,
                None => r is Err && r->Err_0@ == BAD_TRACK_ID@,
            },
    {
        match decode_uri(id) {
            Some(uri) => {
                let call = rpc("core.library.lookup", member_params("uris", string_array(&uri)));
                Ok((call, uri))
            },
            None => Err(String::from_str(BAD_TRACK_ID)),
        }
    }

    /// The calls that point the player at a track and start it, in order.
    pub fn play_track(&self, id: &str) -> (r: Result<Vec<String>, String>)
        ensures
            match id_uri(id@) {
                Some(uri) => r is Ok && chars::texts(r->Ok_0@) == seq![
                    call_text("core.tracklist.clear"@, no_params()),
                    call_text("core.tracklist.add"@, one_member("uris"@, one_string(uri))),
                    call_text("core.playback.play"@, no_params()),
                ],
                None => r is Err && r->Err_0@ == BAD_TRACK_ID@,
            },
    {
        match decode_uri(id) {
            Some(uri) => {
                let mut calls: Vec<String> = Vec::new();
                calls.push(rpc("core.tracklist.clear", empty_params()));
                calls.push(
                    rpc("core.tracklist.add", member_params("uris", string_array(&uri))),
                );
                calls.push(rpc("core.playback.play", empty_params()));
                assert(chars::texts(calls@) =~= seq![
                    call_text("core.tracklist.clear"@, no_params()),
                    call_text("core.tracklist.add"@, one_member("uris"@, one_string(uri@))),
                    call_text("core.playback.play"@, no_params()),
                ]);
                Ok(calls)
            },
            None => Err(String::from_str(BAD_TRACK_ID)),
        }
    }

    /// The call for a transport action.
    pub fn transport(&self, action: &str) -> (r: Result<String, String>)
        ensures
            match transport_method(action@) {
                Some(method) => r is Ok && r->Ok_0@ == call_text(method, no_params()),
                None => r is Err && r->Err_0@ == "unsupported mopidy transport: "@ + action@,
            },
    {
        let method = if same_text(action, "pause") {
            "core.playback.pause"
        } else if same_text(action, "resume") {
            "core.playback.resume"
        } else if same_text(action, "next") {
            "core.playback.next"
        } else if same_text(action, "previous") {
            "core.playback.previous"
        } else if same_text(action, "stop") {
            "core.playback.stop"
        } else {
            return Err(text2("unsupported mopidy transport: ", action));
        };
        Ok(rpc(method, empty_params()))
    }

    /// Goes on with the default queue from the first playlist, if one was found: asks for its
    /// tracks, to go on with [`MopidyClient::queue_of`]. Without a playlist, searches for
    /// [`QUEUE_SEARCH`].
    pub fn queue(&self, playlists: &Result<Vec<ProviderEntity>, String>) -> (r: Result<
        QueueStep,
        String,
    >)
        ensures
            match *playlists {
                Ok(found) if found@.len() > 0 => match id_uri(found@[0].id@) {
                    Some(uri) => r matches Ok(QueueStep::AskPlaylist(body)) && body@ == call_text(
                        "core.playlists.lookup"@,
                        one_member("uri"@, json::JsonView::Str(uri)),
                    ),
                    None => r is Err && r->Err_0@ == BAD_PLAYLIST_ID@,
                },
                _ => r is Ok && searches_for_queue(r->Ok_0),
            },
    {
        match playlists {
            Ok(found) => if found.len() > 0 {
                match self.playlist_tracks(&found[0].id) {
                    Ok(body) => Ok(QueueStep::AskPlaylist(body)),
                    Err(e) => Err(e),
                }
            } else {
                Ok(QueueStep::Search(self.search_songs(QUEUE_SEARCH)))
            },
            Err(_) => Ok(QueueStep::Search(self.search_songs(QUEUE_SEARCH))),
        }
    }

    /// Goes on with the default queue from the tracks of the playlist: they make the queue,
    /// unless there are none.
    pub fn queue_of(&self, tracks: Result<Vec<ProviderTrack>, String>) -> (r: Result<
        QueueStep,
        String,
    >)
        ensures
            match tracks {
                Ok(found) => if found@.len() > 0 {
                    r == Ok::<QueueStep, String>(QueueStep::Tracks(found))
                } else {
                    r is Ok && searches_for_queue(r->Ok_0)
                },
                Err(e) => r == Err::<QueueStep, String>(e),
            },
    {
        match tracks {
            Ok(found) => if found.len() > 0 {
                Ok(QueueStep::Tracks(found))
            } else {
                Ok(QueueStep::Search(self.search_songs(QUEUE_SEARCH)))
            },
            Err(e) => Err(e),
        }
    }
}

/// What comes next for the default queue.
#[derive(Debug, PartialEq, Eq)]
pub enum QueueStep {
    /// Ask for the tracks of a playlist by this call.
    AskPlaylist(String),
    /// Search by this call: what is found makes the queue.
    Search(String),
    /// These are the tracks.
    Tracks(Vec<ProviderTrack>),
}

/// Whether a step is to search for what makes a queue.
pub open spec fn searches_for_queue(step: QueueStep) -> bool {
    step matches QueueStep::Search(body) && body@ == call_text(
        "core.library.search"@,
        one_member("query"@, one_member("any"@, one_string(QUEUE_SEARCH@))),
    )
}

pub const QUEUE_SEARCH: &'static str = "top hits";

/// The method for a transport action.
pub open spec fn transport_method(action: Seq<char>) -> Option<Seq<char>> {
    if action == "pause"@ {
        Some("core.playback.pause"@)
    } else if action == "resume"@ {
        Some("core.playback.resume"@)
    } else if action == "next"@ {
        Some("core.playback.next"@)
    } else if action == "previous"@ {
        Some("core.playback.previous"@)
    } else if action == "stop"@ {
        Some("core.playback.stop"@)
    } else {
        None
    }
}

// ---- Replies ----

/// The track of a resource.
pub open spec fn provider_track(t: MopidyTrack) -> music::TrackView {
    music::TrackView {
        id: uri_id(t.uri@),
        title: t.name@,
        artist: if t.artists@.len() > 0 {
            t.artists@[0]@
        } else {
            Seq::empty()
        },
        album: match t.album {
            Some(a) => a@,
            None => Seq::empty(),
        },
        duration_ms: match t.length {
            Some(n) => n,
            None => 0,
        },
    }
}

impl MopidyTrack {
    pub fn into_provider(self) -> (r: ProviderTrack)
        ensures
            r@ == provider_track(self),
    {
        let artist = if self.artists.len() > 0 {
            self.artists[0].clone()
        } else {
            String::new()
        };
        let album = match self.album {
            Some(a) => a,
            None => String::new(),
        };
        let duration_ms: u64 = match self.length {
            Some(n) => n,
            None => 0,
        };
        ProviderTrack { id: encode_uri(&self.uri), title: self.name, artist, album, duration_ms }
    }
}

/// The items of an array, or none.
pub open spec fn items_or_none(v: Option<json::JsonView>) -> Seq<json::JsonView> {
    match v {
        Some(v) => match json::items_of(v) {
            Some(items) => items,
            None => Seq::empty(),
        },
        None => Seq::empty(),
    }
}

/// The tracks in the results of each backend, one after the other.
pub open spec fn flattened(results: Seq<json::JsonView>) -> Seq<json::JsonView>
    decreases results.len(),
{
    if results.len() == 0 {
        Seq::empty()
    } else {
        flattened(results.drop_last()) + items_or_none(json::member(results.last(), "tracks"@))
    }
}

/// The views of some values that are lent.
pub open spec fn lent_views(v: Seq<&Json>) -> Seq<json::JsonView> {
    v.map_values(|j: &Json| j@)
}

/// Adds the items of an array, if it is one.
fn push_items<'a>(out: &mut Vec<&'a Json>, v: Option<&'a Json>)
    ensures
        lent_views(final(out)@) == lent_views(old(out)@) + items_or_none(
            match v {
                Some(j) => Some(j@),
                None => None,
            },
        ),
{
    let ghost before = out@;
    if let Some(v) = v {
        if let Some(items) = v.as_array() {
            let mut i: usize = 0;
            assert(lent_views(out@) =~= lent_views(before) + json::views(items@).take(0));
            while i < items.len()
                invariant
                    i <= items@.len(),
                    lent_views(out@) == lent_views(before) + json::views(items@).take(i as int),
                decreases items@.len() - i,
            {
                let ghost was = out@;
                out.push(&items[i]);
                assert(lent_views(out@) =~= lent_views(was).push(items@[i as int]@));
                assert(json::views(items@).take(i + 1) =~= json::views(items@).take(i as int).push(
                    items@[i as int]@,
                ));
                i += 1;
            }
            assert(json::views(items@).take(i as int) =~= json::views(items@));
            return;
        }
    }
    assert(lent_views(out@) =~= lent_views(before) + Seq::<json::JsonView>::empty());
}

/// The items in the result of a search: one result per backend, with tracks in it.
pub fn search_items<'a>(results: &'a Json) -> (r: Vec<&'a Json>)
    ensures
        lent_views(r@) == flattened(items_or_none(Some(results@))),
{
    let mut out: Vec<&'a Json> = Vec::new();
    assert(lent_views(out@) =~= Seq::<json::JsonView>::empty());
    if let Some(backends) = results.as_array() {
        let ghost all = json::views(backends@);
        let mut i: usize = 0;
        assert(flattened(all.take(0)) =~= Seq::<json::JsonView>::empty());
        while i < backends.len()
            invariant
                i <= backends@.len(),
                all == json::views(backends@),
                lent_views(out@) == flattened(all.take(i as int)),
            decreases backends@.len() - i,
        {
            proof {
                assert(all.take(i + 1).drop_last() =~= all.take(i as int));
                assert(all.take(i + 1).last() == backends@[i as int]@);
            }
            push_items(&mut out, backends[i].get("tracks"));
            i += 1;
        }
        assert(all.take(i as int) =~= all);
    }
    out
}

/// The items of a result that is a list.
pub fn list_items<'a>(result: &'a Json) -> (r: Vec<&'a Json>)
    ensures
        lent_views(r@) == items_or_none(Some(result@)),
{
    let mut out: Vec<&'a Json> = Vec::new();
    push_items(&mut out, Some(result));
    assert(lent_views(out@) =~= items_or_none(Some(result@)));
    out
}

/// The items of a result that is a playlist.
pub fn playlist_items<'a>(result: &'a Json) -> (r: Vec<&'a Json>)
    ensures
        lent_views(r@) == items_or_none(json::member(result@, "tracks"@)),
{
    let mut out: Vec<&'a Json> = Vec::new();
    push_items(&mut out, result.get("tracks"));
    assert(lent_views(out@) =~= items_or_none(json::member(result@, "tracks"@)));
    out
}

/// The item of a looked up track: the first under its URI.
pub fn track_item<'a>(result: &'a Json, uri: &str) -> (r: Option<&'a Json>)
    ensures
        match r {
            Some(j) => {
                let items = items_or_none(json::member(result@, uri@));
                items.len() > 0 && j@ == items[0]
            },
            None => items_or_none(json::member(result@, uri@)).len() == 0,
        },
{
    match result.get(uri) {
        Some(v) => match v.as_array() {
            Some(items) => if items.len() > 0 {
                assert(json::views(items@)[0] == items@[0]@);
                Some(&items[0])
            } else {
                None
            },
            None => None,
        },
        None => None,
    }
}

/// The tracks that could be read, in order.
pub open spec fn read_tracks(parsed: Seq<Option<MopidyTrack>>) -> Seq<music::TrackView>
    decreases parsed.len(),
{
    if parsed.len() == 0 {
        Seq::empty()
    } else {
        let rest = read_tracks(parsed.drop_last());
        match parsed.last() {
            Some(t) => rest.push(provider_track(t)),
            None => rest,
        }
    }
}

/// At most `limit` tracks of a reply, given each item as it was read; those that could not
/// be read are left out.
pub fn tracks_into(parsed: Vec<Option<MopidyTrack>>, limit: u32) -> (r: Vec<ProviderTrack>)
    ensures
        music::track_views(r@) == music::first_of(read_tracks(parsed@), limit),
{
    let ghost all = parsed@;
    let mut out: Vec<ProviderTrack> = Vec::new();
    assert(music::track_views(out@) =~= read_tracks(all.take(0)));
    for p in it: parsed
        invariant
            it.seq() == all,
            music::track_views(out@) == read_tracks(all.take(it.index())),
    {
        let ghost n = it.index();
        proof {
            assert(all.take(n + 1).drop_last() =~= all.take(n));
            assert(all.take(n + 1).last() == p);
        }
        if let Some(t) = p {
            let track = t.into_provider();
            let ghost before = out@;
            let ghost shown = track@;
            out.push(track);
            assert(music::track_views(out@) =~= music::track_views(before).push(shown));
        }
    }
    assert(all.take(all.len() as int) =~= all);
    first_tracks(out, limit)
}

/// A looked up track, given the item as it was read.
pub fn track_reply(uri: &str, parsed: Option<MopidyTrack>) -> (r: Result<ProviderTrack, String>)
    ensures
        match parsed {
            Some(t) => r is Ok && r->Ok_0@ == provider_track(t),
            None => r is Err && r->Err_0@ == "mopidy track not found: "@ + uri@,
        },
{
    match parsed {
        Some(t) => Ok(t.into_provider()),
        None => Err(text2("mopidy track not found: ", uri)),
    }
}

/// The playlists that could be read, in order.
pub open spec fn read_playlists(parsed: Seq<Option<MopidyRef>>) -> Seq<music::ProviderEntityView>
    decreases parsed.len(),
{
    if parsed.len() == 0 {
        Seq::empty()
    } else {
        let rest = read_playlists(parsed.drop_last());
        match parsed.last() {
            Some(p) => rest.push(
                music::ProviderEntityView { id: uri_id(p.uri@), name: p.name@, track_count: 1 },
            ),
            None => rest,
        }
    }
}

/// At most `limit` playlists of a reply, given each item as it was read; those that could
/// not be read are left out.
pub fn playlists_into(parsed: Vec<Option<MopidyRef>>, limit: u32) -> (r: Vec<ProviderEntity>)
    ensures
        music::entity_views(r@) == music::first_of(read_playlists(parsed@), limit),
{
    let ghost all = parsed@;
    let mut out: Vec<ProviderEntity> = Vec::new();
    assert(music::entity_views(out@) =~= read_playlists(all.take(0)));
    for p in it: parsed
        invariant
            it.seq() == all,
            music::entity_views(out@) == read_playlists(all.take(it.index())),
    {
        let ghost n = it.index();
        proof {
            assert(all.take(n + 1).drop_last() =~= all.take(n));
            assert(all.take(n + 1).last() == p);
        }
        if let Some(p) = p {
            let entity = ProviderEntity { id: encode_uri(&p.uri), name: p.name, track_count: 1 };
            let ghost before = out@;
            let ghost shown = entity@;
            out.push(entity);
            assert(music::entity_views(out@) =~= music::entity_views(before).push(shown));
        }
    }
    assert(all.take(all.len() as int) =~= all);
    first_entities(out, limit)
}

// ---- Laws ----

/// The track of a resource has its name, the first of its artists, its album's name and its length,
/// each empty or 0 where there is none; its id stands for its URI.
pub proof fn law_track_tells_the_resource(t: MopidyTrack)
    ensures
        provider_track(t).title == t.name@,
        t.artists@.len() > 0 ==> provider_track(t).artist == t.artists@[0]@,
        t.artists@.len() == 0 ==> provider_track(t).artist.len() == 0,
        t.album matches Some(a) ==> provider_track(t).album == a@,
        t.album is None ==> provider_track(t).album.len() == 0,
        t.length matches Some(n) ==> provider_track(t).duration_ms == n,
        t.length is None ==> provider_track(t).duration_ms == 0,
        provider_track(t).id == codec::url_base64(vstd::utf8::encode_utf8(t.uri@)),
{
}

/// What can be read gives a track, in order, and what cannot gives none.
pub proof fn law_read_tracks_keep_order(parsed: Seq<Option<MopidyTrack>>, last: Option<MopidyTrack>)
    ensures
        read_tracks(Seq::empty()).len() == 0,
        last is None ==> read_tracks(parsed.push(last)) == read_tracks(parsed),
        last matches Some(t) ==> read_tracks(parsed.push(last)).drop_last() == read_tracks(parsed)
            && read_tracks(parsed.push(last)).last().title == t.name@,
{
    assert(parsed.push(last).drop_last() =~= parsed);
    if last is Some {
        assert(read_tracks(parsed.push(last)).drop_last() =~= read_tracks(parsed));
    }
}

/// What can be read gives a playlist, in order, with its own name and an id that stands for its
/// URI, and a track at least for the device to ask for.
pub proof fn law_read_playlists_keep_order(parsed: Seq<Option<MopidyRef>>, last: Option<MopidyRef>)
    ensures
        read_playlists(Seq::empty()).len() == 0,
        last is None ==> read_playlists(parsed.push(last)) == read_playlists(parsed),
        last matches Some(p) ==> {
            let all = read_playlists(parsed.push(last));
            &&& all.drop_last() == read_playlists(parsed)
            &&& all.last().name == p.name@
            &&& all.last().id == codec::url_base64(vstd::utf8::encode_utf8(p.uri@))
            &&& all.last().track_count > 0
        },
{
    assert(parsed.push(last).drop_last() =~= parsed);
    if last is Some {
        assert(read_playlists(parsed.push(last)).drop_last() =~= read_playlists(parsed));
    }
}

/// The tracks of all backends that answer are taken, in order.
pub proof fn law_results_are_joined(results: Seq<json::JsonView>, last: json::JsonView)
    ensures
        flattened(Seq::empty()).len() == 0,
        (json::member(last, "tracks"@) matches Some(json::JsonView::Array(items)) ==> flattened(
            results.push(last),
        ) == flattened(results) + items),
        json::member(last, "tracks"@) is None ==> flattened(results.push(last)) == flattened(results),
{
    assert(results.push(last).drop_last() =~= results);
    if json::member(last, "tracks"@) is None {
        assert(flattened(results) + Seq::<json::JsonView>::empty() =~= flattened(results));
    }
}

/// A call names its method and carries its parameters, by version 2.0 of JSON-RPC.
pub proof fn law_call_names_its_method(method: Seq<char>, params: json::JsonView)
    ensures
        json::holds(rpc_view(method, params), "method"@, json::JsonView::Str(method)),
        json::holds(rpc_view(method, params), "params"@, params),
        json::holds(rpc_view(method, params), "jsonrpc"@, json::JsonView::Str("2.0"@)),
        call_text(method, params) == json::json_text(rpc_view(method, params)),
        one_string(method) == json::JsonView::Array(seq![json::JsonView::Str(method)]),
        one_member(method, params) == json::JsonView::Object(seq![(method, params)]),
{
    let m = rpc_view(method, params)->Object_0;
    assert(m[1] == ("jsonrpc"@, json::JsonView::Str("2.0"@)));
    assert(m[2] == ("method"@, json::JsonView::Str(method)));
    assert(m[3] == ("params"@, params));
}

/// An action on what plays is the method of the same name, and another action is none.
pub proof fn law_transport_is_by_name(action: Seq<char>)
    ensures
        transport_method(action) is Some <==> action == "pause"@ || action == "resume"@ || action
            == "next"@ || action == "previous"@ || action == "stop"@,
        transport_method(action) matches Some(method) ==> method == "core.playback."@ + action,
{
    reveal_strlit("core.playback.");
    reveal_strlit("pause");
    reveal_strlit("resume");
    reveal_strlit("next");
    reveal_strlit("previous");
    reveal_strlit("stop");
    reveal_strlit("core.playback.pause");
    reveal_strlit("core.playback.resume");
    reveal_strlit("core.playback.next");
    reveal_strlit("core.playback.previous");
    reveal_strlit("core.playback.stop");
    assert("core.playback."@ + "pause"@ =~= "core.playback.pause"@);
    assert("core.playback."@ + "resume"@ =~= "core.playback.resume"@);
    assert("core.playback."@ + "next"@ =~= "core.playback.next"@);
    assert("core.playback."@ + "previous"@ =~= "core.playback.previous"@);
    assert("core.playback."@ + "stop"@ =~= "core.playback.stop"@);
}

/// An address loses the slashes at its end, and nothing else.
pub proof fn law_only_slashes_are_cut(base: Seq<char>)
    ensures
        without_slashes(base).len() <= base.len(),
        base.take(without_slashes(base).len() as int) == without_slashes(base),
        without_slashes(base).len() > 0 ==> without_slashes(base).last() != '/',
        forall|i: int| without_slashes(base).len() <= i < base.len() ==> #[trigger] base[i] == '/',
    decreases base.len(),
{
    if base.len() > 0 && base.last() == '/' {
        let rest = base.drop_last();
        law_only_slashes_are_cut(rest);
        let n = without_slashes(base).len() as int;
        assert(base.take(n) =~= rest.take(n));
        assert forall|i: int| n <= i < base.len() implies #[trigger] base[i] == '/' by {
            if i < rest.len() {
                assert(rest[i] == '/');
            }
        }
    } else {
        assert(base.take(base.len() as int) =~= base);
    }
}

/// An id stands for a URI exactly where it is Base64 of a text, and then for that text.
pub proof fn law_ids_stand_for_uris(id: Seq<char>)
    ensures
        codec::url_base64_bytes(id) is None ==> id_uri(id) is None,
        codec::url_base64_bytes(id) matches Some(bytes) ==> (id_uri(id) is Some
            <==> vstd::utf8::valid_utf8(bytes)),
        codec::url_base64_bytes(id) matches Some(bytes) ==> (vstd::utf8::valid_utf8(bytes)
            ==> id_uri(id) == Some(vstd::utf8::decode_utf8(bytes))),
{
}

/// A reply with an error fails with it, whatever its result; one without gives its result.
pub proof fn law_error_goes_before_the_result(
    method: &str,
    error: Option<&str>,
    result: Json,
    r: Result<Json, String>,
)
    requires
        call_ensures(rpc_reply, (method, error, result), r),
    ensures
        r is Ok <==> error is None,
        r matches Ok(j) ==> j == result,
        error matches Some(e) ==> r->Err_0@ == "mopidy "@ + method@ + " error: "@ + e@,
{
}

/// The queue is the first of the user's playlists, or a search where there is none, or where it is
/// empty.
pub proof fn law_queue_is_the_first_playlist(
    c: MopidyClient,
    playlists: Result<Vec<ProviderEntity>, String>,
    tracks: Result<Vec<ProviderTrack>, String>,
    first: Result<QueueStep, String>,
    next: Result<QueueStep, String>,
)
    requires
        call_ensures(MopidyClient::queue, (&c, &playlists), first),
        call_ensures(MopidyClient::queue_of, (&c, tracks), next),
    ensures
        playlists matches Ok(found) ==> (found@.len() > 0 ==> (id_uri(found@[0].id@) matches Some(uri) ==> (
        first matches Ok(QueueStep::AskPlaylist(body)) && body@ == call_text(
            "core.playlists.lookup"@,
            json::JsonView::Object(seq![("uri"@, json::JsonView::Str(uri))]),
        )))),
        playlists matches Ok(found) ==> (found@.len() == 0 ==> first is Ok && searches_for_queue(
            first->Ok_0,
        )),
        playlists is Err ==> first is Ok && searches_for_queue(first->Ok_0),
        tracks matches Ok(found) ==> (found@.len() > 0 ==> (next matches Ok(QueueStep::Tracks(t)) && t
            == found)),
        tracks matches Ok(found) ==> (found@.len() == 0 ==> next is Ok && searches_for_queue(
            next->Ok_0,
        )),
        tracks matches Err(e) ==> next == Err::<QueueStep, String>(e),
{
}

/// A track is the first that the reply has under its URI, and is not found without one.
pub proof fn law_track_is_the_first_of_its_uri(
    result: &Json,
    uri: &str,
    parsed: Option<MopidyTrack>,
    item: Option<&Json>,
    r: Result<ProviderTrack, String>,
)
    requires
        call_ensures(track_item, (result, uri), item),
        call_ensures(track_reply, (uri, parsed), r),
    ensures
        json::member(result@, uri@) matches Some(json::JsonView::Array(items)) ==> (items.len() > 0 ==> (
        item matches Some(j) && j@ == items[0])),
        json::member(result@, uri@) is None ==> item is None,
        parsed matches Some(t) ==> r is Ok && r->Ok_0@ == provider_track(t),
        parsed is None ==> (r matches Err(e) && e@ == "mopidy track not found: "@ + uri@),
{
}

/// What is told of a playlist are its tracks; of a list, its items; of a search, those of all
/// backends. No more than the limit is told.
pub proof fn law_items_are_taken_from_the_reply(
    result: &Json,
    parsed: Vec<Option<MopidyTrack>>,
    refs: Vec<Option<MopidyRef>>,
    limit: u32,
    list: Vec<&Json>,
    playlist: Vec<&Json>,
    tracks: Vec<ProviderTrack>,
    playlists: Vec<ProviderEntity>,
)
    requires
        call_ensures(list_items, (result,), list),
        call_ensures(playlist_items, (result,), playlist),
        call_ensures(tracks_into, (parsed, limit), tracks),
        call_ensures(playlists_into, (refs, limit), playlists),
    ensures
        result@ matches json::JsonView::Array(items) ==> lent_views(list@) == items,
        json::member(result@, "tracks"@) matches Some(json::JsonView::Array(items)) ==> lent_views(
            playlist@,
        ) == items,
        tracks@.len() <= limit,
        playlists@.len() <= limit,
        read_tracks(parsed@).len() <= limit ==> music::track_views(tracks@) == read_tracks(parsed@),
        read_playlists(refs@).len() <= limit ==> music::entity_views(playlists@) == read_playlists(
            refs@,
        ),
{
    assert(music::track_views(tracks@).len() == tracks@.len());
    assert(music::entity_views(playlists@).len() == playlists@.len());
}

/// A transport action is called by its own method, and one that Mopidy does not know is refused.
pub proof fn law_transport_calls_its_method(
    c: MopidyClient,
    action: &str,
    r: Result<String, String>,
)
    requires
        call_ensures(MopidyClient::transport, (&c, action), r),
    ensures
        action@ == "pause"@ || action@ == "resume"@ || action@ == "next"@ || action@ == "previous"@
            || action@ == "stop"@ <==> r is Ok,
        r matches Ok(body) ==> body@ == json::json_text(
            rpc_view("core.playback."@ + action@, no_params()),
        ),
        r matches Err(e) ==> e@ == "unsupported mopidy transport: "@ + action@,
{
    law_transport_is_by_name(action@);
}

/// The address of the service is the configured one without its last slashes, and the stream is
/// played from where it is configured to be.
pub proof fn law_client_is_made_from_its_addresses(
    base: &str,
    stream: String,
    c: MopidyClient,
    played: &str,
)
    requires
        call_ensures(MopidyClient::new, (base, stream), c),
        call_ensures(MopidyClient::stream_url, (&c,), played),
    ensures
        c.rpc_url@ == without_slashes(base@) + "/mopidy/rpc"@,
        played@ == stream@,
{
}

/// Only an array has items; where there is none there are no items.
pub proof fn law_only_arrays_have_items(v: Option<json::JsonView>)
    ensures
        v matches Some(json::JsonView::Array(items)) ==> items_or_none(v) == items,
        v is None ==> items_or_none(v).len() == 0,
        v matches Some(x) ==> (!(x is Array) ==> items_or_none(v).len() == 0),
{
}

/// A queue without a playlist is a search for the top hits.
pub proof fn law_queue_falls_back_to_a_search(step: QueueStep)
    requires
        searches_for_queue(step),
    ensures
        step matches QueueStep::Search(body) && body@ == json::json_text(
            rpc_view(
                "core.library.search"@,
                json::JsonView::Object(
                    seq![
                        (
                            "query"@,
                            json::JsonView::Object(
                                seq![
                                    (
                                        "any"@,
                                        json::JsonView::Array(
                                            seq![json::JsonView::Str("top hits"@)],
                                        ),
                                    ),
                                ],
                            ),
                        ),
                    ],
                ),
            ),
        ),
{
}

/// Every call has an id, and nothing but the four members that the protocol fixes.
pub proof fn law_call_has_an_id(method: Seq<char>, params: json::JsonView)
    ensures
        json::holds(
            rpc_view(method, params),
            "id"@,
            json::JsonView::Number(json::NumberView::Unsigned(1)),
        ),
        rpc_view(method, params)->Object_0.len() == 4,
{
    assert(rpc_view(method, params)->Object_0[0].0 == "id"@);
}

} // verus!
