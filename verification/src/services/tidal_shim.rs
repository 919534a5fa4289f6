//! A Tidal-shaped API for the device's music player, backed by a music provider.
//!
//! The objects hold what the player reads, in the form that it reads.

use crate::chars;
use crate::chars::same_text;
use crate::codec;
use crate::json;
use crate::json::{array, text, unsigned, Json, ObjectBuilder};
use crate::music;
use crate::music::ProviderTrack;
use vstd::prelude::*;
use vstd::string::*;

verus! {

pub const PLAYLIST_UUID: &'static str = "poc-playlist";

/// How many tracks make a queue.
pub const QUEUE_SIZE: u32 = 6;

/// The rate of the test tone, in samples per second.
pub const TONE_SAMPLE_RATE: u32 = 44100;

/// How long the test tone is, in seconds.
pub const TONE_SECONDS: u32 = 20;

pub const PLAYLIST_DATE: &'static str = "2020-01-01T00:00:00.000+0000";

// ---- Values ----

/// An array of one value.
pub open spec fn one_item(v: json::JsonView) -> json::JsonView {
    json::JsonView::Array(seq![v])
}

/// An array of nothing.
pub open spec fn no_items() -> json::JsonView {
    json::JsonView::Array(Seq::empty())
}

fn one_item_array(v: Json) -> (r: Json)
    requires
        json::writable(v@),
    ensures
        r@ == one_item(v@),
        json::writable(r@),
{
    let ghost given = v@;
    let mut items: Vec<Json> = Vec::new();
    items.push(v);
    let r = array(items);
    assert(r@->Array_0 =~= seq![given]);
    proof {
        json::lemma_array_is_writable(seq![given]);
    }
    r
}

fn empty_array() -> (r: Json)
    ensures
        r@ == no_items(),
        json::writable(r@),
{
    let r = array(Vec::new());
    assert(r@->Array_0 =~= Seq::<json::JsonView>::empty());
    r
}

/// Whether some values can be written.
pub open spec fn all_writable(v: Seq<json::JsonView>) -> bool {
    forall|i: int| 0 <= i < v.len() ==> json::writable(#[trigger] v[i])
}

fn item_array(items: Vec<Json>) -> (r: Json)
    requires
        all_writable(json::views(items@)),
    ensures
        r@ == json::JsonView::Array(json::views(items@)),
        json::writable(r@),
{
    let r = array(items);
    assert(r@->Array_0 =~= json::views(items@));
    proof {
        json::lemma_array_is_writable(json::views(items@));
    }
    r
}

/// A count.
pub open spec fn count(n: nat) -> json::JsonView {
    json::JsonView::Number(json::NumberView::Unsigned(n as u64))
}

// ---- Tracks ----

/// A track's artist.
pub open spec fn artist_view(name: Seq<char>) -> json::JsonView {
    json::JsonView::Object(
        seq![
            ("id"@, json::JsonView::Number(json::NumberView::Unsigned(0))),
            ("name"@, json::JsonView::Str(name)),
            ("type"@, json::JsonView::Str("MAIN"@)),
        ],
    )
}

/// A track's artist.
fn artist_json(name: &str) -> (r: Json)
    ensures
        r@ == artist_view(name@),
        json::writable(r@),
{
    let mut o = ObjectBuilder::new();
    proof {
        reveal_strlit("id");
        reveal_strlit("name");
        reveal_strlit("type");
        chars::lemma_text_less_at("id"@, "name"@, 0);
        chars::lemma_text_less_at("name"@, "type"@, 0);
    }
    o.put("id", unsigned(0));
    o.put("name", text(name));
    o.put("type", text("MAIN"));
    let r = o.done();
    assert(r@->Object_0 =~= artist_view(name@)->Object_0);
    r
}

/// A track's album.
pub open spec fn album_view(title: Seq<char>) -> json::JsonView {
    json::JsonView::Object(
        seq![
            ("cover"@, json::JsonView::Null),
            ("id"@, json::JsonView::Number(json::NumberView::Unsigned(0))),
            ("title"@, json::JsonView::Str(title)),
            ("url"@, json::JsonView::Str(""@)),
            ("videoCover"@, json::JsonView::Null),
        ],
    )
}

/// A track's album.
fn album_json(title: &str) -> (r: Json)
    ensures
        r@ == album_view(title@),
        json::writable(r@),
{
    let mut o = ObjectBuilder::new();
    proof {
        reveal_strlit("cover");
        reveal_strlit("id");
        reveal_strlit("title");
        reveal_strlit("url");
        reveal_strlit("videoCover");
        chars::lemma_text_less_at("cover"@, "id"@, 0);
        chars::lemma_text_less_at("id"@, "title"@, 0);
        chars::lemma_text_less_at("title"@, "url"@, 0);
        chars::lemma_text_less_at("url"@, "videoCover"@, 0);
    }
    o.put("cover", Json::Null);
    o.put("id", unsigned(0));
    o.put("title", text(title));
    o.put("url", text(""));
    o.put("videoCover", Json::Null);
    let r = o.done();
    assert(r@->Object_0 =~= album_view(title@)->Object_0);
    r
}

/// A track.
pub open spec fn track_view(
    id: Seq<char>,
    title: Seq<char>,
    artist: Seq<char>,
    album: Seq<char>,
    duration_secs: u64,
) -> json::JsonView {
    json::JsonView::Object(
        seq![
            ("album"@, album_view(album)),
            ("allowStreaming"@, json::JsonView::Bool(true)),
            ("artists"@, one_item(artist_view(artist))),
            ("audioModes"@, one_item(json::JsonView::Str("STEREO"@))),
            ("audioQuality"@, json::JsonView::Str("HIGH"@)),
            ("copyright"@, json::JsonView::Str(""@)),
            ("duration"@, json::JsonView::Number(json::NumberView::Unsigned(duration_secs))),
            ("editable"@, json::JsonView::Bool(false)),
            ("explicit"@, json::JsonView::Bool(false)),
            ("id"@, json::JsonView::Str(id)),
            ("isrc"@, json::JsonView::Str(""@)),
            ("peak"@, json::JsonView::Null),
            ("popularity"@, json::JsonView::Number(json::NumberView::Unsigned(0))),
            ("premiumStreamingOnly"@, json::JsonView::Bool(false)),
            ("replayGain"@, json::JsonView::Null),
            ("streamReady"@, json::JsonView::Bool(true)),
            ("title"@, json::JsonView::Str(title)),
            ("trackNumber"@, json::JsonView::Number(json::NumberView::Unsigned(1))),
            ("url"@, json::JsonView::Str(""@)),
            ("version"@, json::JsonView::Null),
            ("volumeNumber"@, json::JsonView::Number(json::NumberView::Unsigned(1))),
        ],
    )
}

/// A track.
pub fn track_json(id: &str, title: &str, artist: &str, album: &str, duration_secs: u64) -> (r: Json)
    ensures
        r@ == track_view(id@, title@, artist@, album@, duration_secs),
        json::writable(r@),
{
    let mut o = ObjectBuilder::new();
    proof {
        reveal_strlit("album");
        reveal_strlit("allowStreaming");
        reveal_strlit("artists");
        reveal_strlit("audioModes");
        reveal_strlit("audioQuality");
        reveal_strlit("copyright");
        reveal_strlit("duration");
        reveal_strlit("editable");
        reveal_strlit("explicit");
        reveal_strlit("id");
        reveal_strlit("isrc");
        reveal_strlit("peak");
        reveal_strlit("popularity");
        reveal_strlit("premiumStreamingOnly");
        reveal_strlit("replayGain");
        reveal_strlit("streamReady");
        reveal_strlit("title");
        reveal_strlit("trackNumber");
        reveal_strlit("url");
        reveal_strlit("version");
        reveal_strlit("volumeNumber");
        chars::lemma_text_less_at("album"@, "allowStreaming"@, 2);
        chars::lemma_text_less_at("allowStreaming"@, "artists"@, 1);
        chars::lemma_text_less_at("artists"@, "audioModes"@, 1);
        chars::lemma_text_less_at("audioModes"@, "audioQuality"@, 5);
        chars::lemma_text_less_at("audioQuality"@, "copyright"@, 0);
        chars::lemma_text_less_at("copyright"@, "duration"@, 0);
        chars::lemma_text_less_at("duration"@, "editable"@, 0);
        chars::lemma_text_less_at("editable"@, "explicit"@, 1);
        chars::lemma_text_less_at("explicit"@, "id"@, 0);
        chars::lemma_text_less_at("id"@, "isrc"@, 1);
        chars::lemma_text_less_at("isrc"@, "peak"@, 0);
        chars::lemma_text_less_at("peak"@, "popularity"@, 1);
        chars::lemma_text_less_at("popularity"@, "premiumStreamingOnly"@, 1);
        chars::lemma_text_less_at("premiumStreamingOnly"@, "replayGain"@, 0);
        chars::lemma_text_less_at("replayGain"@, "streamReady"@, 0);
        chars::lemma_text_less_at("streamReady"@, "title"@, 0);
        chars::lemma_text_less_at("title"@, "trackNumber"@, 1);
        chars::lemma_text_less_at("trackNumber"@, "url"@, 0);
        chars::lemma_text_less_at("url"@, "version"@, 0);
        chars::lemma_text_less_at("version"@, "volumeNumber"@, 1);
    }
    o.put("album", album_json(album));
    o.put("allowStreaming", Json::Bool(true));
    o.put("artists", one_item_array(artist_json(artist)));
    o.put("audioModes", one_item_array(text("STEREO")));
    o.put("audioQuality", text("HIGH"));
    o.put("copyright", text(""));
    o.put("duration", unsigned(duration_secs));
    o.put("editable", Json::Bool(false));
    o.put("explicit", Json::Bool(false));
    o.put("id", text(id));
    o.put("isrc", text(""));
    o.put("peak", Json::Null);
    o.put("popularity", unsigned(0));
    o.put("premiumStreamingOnly", Json::Bool(false));
    o.put("replayGain", Json::Null);
    o.put("streamReady", Json::Bool(true));
    o.put("title", text(title));
    o.put("trackNumber", unsigned(1));
    o.put("url", text(""));
    o.put("version", Json::Null);
    o.put("volumeNumber", unsigned(1));
    let r = o.done();
    assert(r@->Object_0 =~= track_view(id@, title@, artist@, album@, duration_secs)->Object_0);
    r
}

/// The object of a provider's track. It lasts a second at least.
pub open spec fn provider_track_view(t: music::TrackView) -> json::JsonView {
    let seconds = t.duration_ms / 1000;
    track_view(
        t.id,
        t.title,
        t.artist,
        t.album,
        if seconds == 0 {
            1
        } else {
            seconds
        },
    )
}

/// The object of a provider's track.
pub fn track_json_from_provider(t: &ProviderTrack) -> (r: Json)
    ensures
        r@ == provider_track_view(t@),
        json::writable(r@),
{
    let seconds: u64 = t.duration_ms / 1000;
    let duration: u64 = if seconds == 0 {
        1
    } else {
        seconds
    };
    track_json(&t.id, &t.title, &t.artist, &t.album, duration)
}

/// The objects of a provider's tracks.
pub open spec fn tracks_view(tracks: Seq<music::TrackView>) -> Seq<json::JsonView> {
    tracks.map_values(|t: music::TrackView| provider_track_view(t))
}

/// The objects of a provider's tracks.
pub fn tracks_json(tracks: &Vec<ProviderTrack>) -> (r: Vec<Json>)
    ensures
        json::views(r@) == tracks_view(music::track_views(tracks@)),
        all_writable(json::views(r@)),
{
    let mut out: Vec<Json> = Vec::new();
    let mut i: usize = 0;
    while i < tracks.len()
        invariant
            i <= tracks@.len(),
            out@.len() == i,
            forall|k: int|
                0 <= k < i ==> (#[trigger] out@[k])@ == provider_track_view(tracks@[k]@)
                    && json::writable(out@[k]@),
        decreases tracks@.len() - i,
    {
        out.push(track_json_from_provider(&tracks[i]));
        i += 1;
    }
    proof {
        assert(json::views(out@) =~= tracks_view(music::track_views(tracks@)));
        assert forall|k: int| 0 <= k < json::views(out@).len() implies json::writable(
            #[trigger] json::views(out@)[k],
        ) by {
            assert(json::writable(out@[k]@));
        }
    }
    out
}

// ---- Lists ----

/// A list in its container.
pub open spec fn section_view(items: Seq<json::JsonView>, n: nat) -> json::JsonView {
    json::JsonView::Object(
        seq![
            ("items"@, json::JsonView::Array(items)),
            ("limit"@, count(n)),
            ("offset"@, json::JsonView::Number(json::NumberView::Unsigned(0))),
            ("totalNumberOfItems"@, count(n)),
        ],
    )
}

/// A list in its container.
fn section_of(items: Vec<Json>, n: u64) -> (r: Json)
    requires
        all_writable(json::views(items@)),
    ensures
        r@ == section_view(json::views(items@), n as nat),
        json::writable(r@),
{
    let ghost given = json::views(items@);
    let mut o = ObjectBuilder::new();
    proof {
        reveal_strlit("items");
        reveal_strlit("limit");
        reveal_strlit("offset");
        reveal_strlit("totalNumberOfItems");
        chars::lemma_text_less_at("items"@, "limit"@, 0);
        chars::lemma_text_less_at("limit"@, "offset"@, 0);
        chars::lemma_text_less_at("offset"@, "totalNumberOfItems"@, 0);
    }
    o.put("items", item_array(items));
    o.put("limit", unsigned(n));
    o.put("offset", unsigned(0));
    o.put("totalNumberOfItems", unsigned(n));
    let r = o.done();
    assert(r@->Object_0 =~= section_view(given, n as nat)->Object_0);
    r
}

/// A list in its container.
pub fn section(items: Vec<Json>) -> (r: Json)
    requires
        all_writable(json::views(items@)),
    ensures
        r@ == section_view(json::views(items@), items@.len()),
        json::writable(r@),
{
    let n: u64 = items.len() as u64;
    section_of(items, n)
}

/// An empty list in its container.
pub fn empty_section() -> (r: Json)
    ensures
        r@ == section_view(Seq::empty(), 0),
        json::writable(r@),
{
    let none: Vec<Json> = Vec::new();
    assert(json::views(none@) =~= Seq::<json::JsonView>::empty());
    section(none)
}

/// A track in a list of an album or a playlist.
pub open spec fn track_item_view(t: music::TrackView) -> json::JsonView {
    json::JsonView::Object(
        seq![
            ("item"@, provider_track_view(t)),
            ("type"@, json::JsonView::Str("track"@)),
        ],
    )
}

/// A track in a list of an album or a playlist.
fn track_item(t: &ProviderTrack) -> (r: Json)
    ensures
        r@ == track_item_view(t@),
        json::writable(r@),
{
    let mut o = ObjectBuilder::new();
    proof {
        reveal_strlit("item");
        reveal_strlit("type");
        chars::lemma_text_less_at("item"@, "type"@, 0);
    }
    o.put("item", track_json_from_provider(t));
    o.put("type", text("track"));
    let r = o.done();
    assert(r@->Object_0 =~= track_item_view(t@)->Object_0);
    r
}

/// A track that is recommended.
pub open spec fn recommended_view(t: music::TrackView) -> json::JsonView {
    json::JsonView::Object(
        seq![
            ("sources"@, one_item(json::JsonView::Str("SUGGESTED_TRACKS"@))),
            ("track"@, provider_track_view(t)),
        ],
    )
}

/// A track that is recommended.
fn recommended_item(t: &ProviderTrack) -> (r: Json)
    ensures
        r@ == recommended_view(t@),
        json::writable(r@),
{
    let mut o = ObjectBuilder::new();
    proof {
        reveal_strlit("sources");
        reveal_strlit("track");
        chars::lemma_text_less_at("sources"@, "track"@, 0);
    }
    o.put("sources", one_item_array(text("SUGGESTED_TRACKS")));
    o.put("track", track_json_from_provider(t));
    let r = o.done();
    assert(r@->Object_0 =~= recommended_view(t@)->Object_0);
    r
}

/// The tracks of an album or a playlist.
pub fn track_item_wrapper(tracks: &Vec<ProviderTrack>) -> (r: Json)
    ensures
        r@ == section_view(
            music::track_views(tracks@).map_values(|t: music::TrackView| track_item_view(t)),
            tracks@.len(),
        ),
        json::writable(r@),
{
    let mut items: Vec<Json> = Vec::new();
    let mut i: usize = 0;
    while i < tracks.len()
        invariant
            i <= tracks@.len(),
            items@.len() == i,
            forall|k: int|
                0 <= k < i ==> (#[trigger] items@[k])@ == track_item_view(tracks@[k]@) && json::writable(
                    items@[k]@,
                ),
        decreases tracks@.len() - i,
    {
        items.push(track_item(&tracks[i]));
        i += 1;
    }
    proof {
        assert(json::views(items@) =~= music::track_views(tracks@).map_values(
            |t: music::TrackView| track_item_view(t),
        ));
        assert forall|k: int| 0 <= k < json::views(items@).len() implies json::writable(
            #[trigger] json::views(items@)[k],
        ) by {
            assert(json::writable(items@[k]@));
        }
    }
    section(items)
}

/// The tracks that are recommended after another.
pub fn track_recommendations(tracks: &Vec<ProviderTrack>) -> (r: Json)
    ensures
        r@ == section_view(
            music::track_views(tracks@).map_values(|t: music::TrackView| recommended_view(t)),
            tracks@.len(),
        ),
        json::writable(r@),
{
    let mut items: Vec<Json> = Vec::new();
    let mut i: usize = 0;
    while i < tracks.len()
        invariant
            i <= tracks@.len(),
            items@.len() == i,
            forall|k: int|
                0 <= k < i ==> (#[trigger] items@[k])@ == recommended_view(tracks@[k]@) && json::writable(
                    items@[k]@,
                ),
        decreases tracks@.len() - i,
    {
        items.push(recommended_item(&tracks[i]));
        i += 1;
    }
    proof {
        assert(json::views(items@) =~= music::track_views(tracks@).map_values(
            |t: music::TrackView| recommended_view(t),
        ));
        assert forall|k: int| 0 <= k < json::views(items@).len() implies json::writable(
            #[trigger] json::views(items@)[k],
        ) by {
            assert(json::writable(items@[k]@));
        }
    }
    section(items)
}

/// The tracks of a station.
pub fn track_radio(tracks: &Vec<ProviderTrack>) -> (r: Json)
    ensures
        r@ == section_view(tracks_view(music::track_views(tracks@)), tracks@.len()),
        json::writable(r@),
{
    let items = tracks_json(tracks);
    assert(json::views(items@).len() == items@.len());
    section(items)
}

// ---- Playlists ----

/// Who made the playlist.
pub open spec fn creator_view() -> json::JsonView {
    json::JsonView::Object(
        seq![
            ("id"@, json::JsonView::Number(json::NumberView::Unsigned(0))),
            ("name"@, json::JsonView::Str("Penumbra"@)),
        ],
    )
}

/// Who made the playlist.
fn creator_json() -> (r: Json)
    ensures
        r@ == creator_view(),
        json::writable(r@),
{
    let mut o = ObjectBuilder::new();
    proof {
        reveal_strlit("id");
        reveal_strlit("name");
        chars::lemma_text_less_at("id"@, "name"@, 0);
    }
    o.put("id", unsigned(0));
    o.put("name", text("Penumbra"));
    let r = o.done();
    assert(r@->Object_0 =~= creator_view()->Object_0);
    r
}

/// The playlist on offer.
pub open spec fn playlist_view() -> json::JsonView {
    json::JsonView::Object(
        seq![
            ("created"@, json::JsonView::Str(PLAYLIST_DATE@)),
            ("creator"@, creator_view()),
            ("description"@, json::JsonView::Str("Local shim playlist"@)),
            ("duration"@, json::JsonView::Number(json::NumberView::Unsigned(1260))),
            ("image"@, json::JsonView::Str(""@)),
            ("lastItemAddedAt"@, json::JsonView::Str(PLAYLIST_DATE@)),
            ("lastUpdated"@, json::JsonView::Str(PLAYLIST_DATE@)),
            ("numberOfTracks"@, json::JsonView::Number(json::NumberView::Unsigned(6))),
            ("numberOfVideos"@, json::JsonView::Number(json::NumberView::Unsigned(0))),
            ("popularity"@, json::JsonView::Number(json::NumberView::Unsigned(0))),
            ("promotedArtists"@, no_items()),
            ("publicPlaylist"@, json::JsonView::Bool(true)),
            ("squareImage"@, json::JsonView::Str(""@)),
            ("title"@, json::JsonView::Str("Penumbra Mix"@)),
            ("type"@, json::JsonView::Str("EDITORIAL"@)),
            ("url"@, json::JsonView::Str(""@)),
            ("uuid"@, json::JsonView::Str(PLAYLIST_UUID@)),
        ],
    )
}

/// The playlist on offer.
pub fn playlist_json() -> (r: Json)
    ensures
        r@ == playlist_view(),
        json::writable(r@),
{
    let mut o = ObjectBuilder::new();
    proof {
        reveal_strlit("created");
        reveal_strlit("creator");
        reveal_strlit("description");
        reveal_strlit("duration");
        reveal_strlit("image");
        reveal_strlit("lastItemAddedAt");
        reveal_strlit("lastUpdated");
        reveal_strlit("numberOfTracks");
        reveal_strlit("numberOfVideos");
        reveal_strlit("popularity");
        reveal_strlit("promotedArtists");
        reveal_strlit("publicPlaylist");
        reveal_strlit("squareImage");
        reveal_strlit("title");
        reveal_strlit("type");
        reveal_strlit("url");
        reveal_strlit("uuid");
        chars::lemma_text_less_at("created"@, "creator"@, 5);
        chars::lemma_text_less_at("creator"@, "description"@, 0);
        chars::lemma_text_less_at("description"@, "duration"@, 1);
        chars::lemma_text_less_at("duration"@, "image"@, 0);
        chars::lemma_text_less_at("image"@, "lastItemAddedAt"@, 0);
        chars::lemma_text_less_at("lastItemAddedAt"@, "lastUpdated"@, 4);
        chars::lemma_text_less_at("lastUpdated"@, "numberOfTracks"@, 0);
        chars::lemma_text_less_at("numberOfTracks"@, "numberOfVideos"@, 8);
        chars::lemma_text_less_at("numberOfVideos"@, "popularity"@, 0);
        chars::lemma_text_less_at("popularity"@, "promotedArtists"@, 1);
        chars::lemma_text_less_at("promotedArtists"@, "publicPlaylist"@, 1);
        chars::lemma_text_less_at("publicPlaylist"@, "squareImage"@, 0);
        chars::lemma_text_less_at("squareImage"@, "title"@, 0);
        chars::lemma_text_less_at("title"@, "type"@, 1);
        chars::lemma_text_less_at("type"@, "url"@, 0);
        chars::lemma_text_less_at("url"@, "uuid"@, 1);
    }
    o.put("created", text(PLAYLIST_DATE));
    o.put("creator", creator_json());
    o.put("description", text("Local shim playlist"));
    o.put("duration", unsigned(1260));
    o.put("image", text(""));
    o.put("lastItemAddedAt", text(PLAYLIST_DATE));
    o.put("lastUpdated", text(PLAYLIST_DATE));
    o.put("numberOfTracks", unsigned(6));
    o.put("numberOfVideos", unsigned(0));
    o.put("popularity", unsigned(0));
    o.put("promotedArtists", empty_array());
    o.put("publicPlaylist", Json::Bool(true));
    o.put("squareImage", text(""));
    o.put("title", text("Penumbra Mix"));
    o.put("type", text("EDITORIAL"));
    o.put("url", text(""));
    o.put("uuid", text(PLAYLIST_UUID));
    let r = o.done();
    assert(r@->Object_0 =~= playlist_view()->Object_0);
    r
}

/// The playlists on offer: one.
pub fn featured_playlists() -> (r: Json)
    ensures
        r@ == section_view(seq![playlist_view()], 1),
        json::writable(r@),
{
    let mut items: Vec<Json> = Vec::new();
    items.push(playlist_json());
    assert(json::views(items@) =~= seq![playlist_view()]);
    section(items)
}

// ---- Searches ----

/// What is searched for, from the parameters of a request.
pub fn search_term(query: Option<&str>, term: Option<&str>) -> (r: String)
    ensures
        r@ == match query {
            Some(q) => q@,
            None => match term {
                Some(t) => t@,
                None => Seq::empty(),
            },
        },
{
    match query {
        Some(q) => String::from_str(q),
        None => match term {
            Some(t) => String::from_str(t),
            None => String::new(),
        },
    }
}

/// What is played for a search: the track that was found, and those that go with it.
pub open spec fn search_queue(
    seed: music::TrackView,
    related: Seq<music::TrackView>,
) -> Seq<music::TrackView> {
    seq![seed] + music::without_id(related, seed.id)
}

/// The track that was asked for is played first, and not again.
pub proof fn law_found_track_is_played_once(
    seed: music::TrackView,
    related: Seq<music::TrackView>,
    i: int,
)
    requires
        0 <= i < search_queue(seed, related).len(),
    ensures
        search_queue(seed, related)[i].id == seed.id <==> i == 0,
        search_queue(seed, related)[0] == seed,
{
    music::law_seed_is_not_related(related, seed.id);
    if i > 0 {
        assert(search_queue(seed, related)[i] == music::without_id(related, seed.id)[i - 1]);
    }
}

/// What a search asks for next.
#[derive(Debug, PartialEq, Eq)]
pub enum SearchStep {
    /// The tracks that go with the one of this id.
    Recommend(String),
    /// The default queue.
    Queue,
}

/// What a search asks for next, given the track that it found, if any.
pub fn search_step(top: &Option<ProviderTrack>) -> (r: SearchStep)
    ensures
        match *top {
            Some(t) => r matches SearchStep::Recommend(id) && id@ == t.id@,
            None => r is Queue,
        },
{
    match top {
        Some(t) => SearchStep::Recommend(t.id.clone()),
        None => SearchStep::Queue,
    }
}

/// The tracks that a search leads to, given the track that it found, if any, and what was asked
/// for then: those that go with the track, or the default queue.
pub fn searched_tracks(top: Option<ProviderTrack>, more: Vec<ProviderTrack>) -> (r: Vec<
    ProviderTrack,
>)
    ensures
        music::track_views(r@) == match top {
            Some(seed) => search_queue(seed@, music::track_views(more@)),
            None => music::track_views(more@),
        },
{
    match top {
        Some(seed) => search_tracks(seed, more),
        None => more,
    }
}

/// The tracks that a search leads to: the one that was found, and the others that go with
/// it.
pub fn search_tracks(seed: ProviderTrack, related: Vec<ProviderTrack>) -> (r: Vec<ProviderTrack>)
    ensures
        music::track_views(r@) == search_queue(seed@, music::track_views(related@)),
{
    let ghost raw = related@;
    let ghost all = music::track_views(related@);
    let ghost first = seed@;
    let id = seed.id.clone();
    let mut out: Vec<ProviderTrack> = Vec::new();
    out.push(seed);
    assert(music::track_views(out@) =~= seq![first] + music::without_id(all.take(0), id@));
    for t in it: related
        invariant
            it.seq() == raw,
            all == music::track_views(raw),
            music::track_views(out@) == seq![first] + music::without_id(
                all.take(it.index()),
                id@,
            ),
    {
        let ghost n = it.index();
        proof {
            assert(all.take(n + 1).drop_last() =~= all.take(n));
            assert(all.take(n + 1).last() == t@);
        }
        if !same_text(&t.id, &id) {
            let ghost was = out@;
            let ghost shown = t@;
            out.push(t);
            assert(music::track_views(out@) =~= music::track_views(was).push(shown));
            assert(seq![first] + music::without_id(all.take(n), id@).push(shown) =~= (seq![first]
                + music::without_id(all.take(n), id@)).push(shown));
        }
    }
    assert(all.take(all.len() as int) =~= all);
    out
}

/// The top hit of a search: its first track, or an empty object.
pub open spec fn top_view(tracks: Seq<music::TrackView>) -> json::JsonView {
    if tracks.len() > 0 {
        provider_track_view(tracks[0])
    } else {
        json::JsonView::Object(Seq::empty())
    }
}

fn top_json(tracks: &Vec<ProviderTrack>) -> (r: Json)
    ensures
        r@ == top_view(music::track_views(tracks@)),
        json::writable(r@),
{
    if tracks.len() > 0 {
        track_json_from_provider(&tracks[0])
    } else {
        let r = ObjectBuilder::new().done();
        assert(r@->Object_0 =~= Seq::<(Seq<char>, json::JsonView)>::empty());
        r
    }
}

/// The top hit of a search.
pub open spec fn top_hit_view(tracks: Seq<music::TrackView>) -> json::JsonView {
    json::JsonView::Object(
        seq![
            ("type"@, json::JsonView::Str("TRACKS"@)),
            ("value"@, top_view(tracks)),
        ],
    )
}

/// The top hit of a search.
fn top_hit(tracks: &Vec<ProviderTrack>) -> (r: Json)
    ensures
        r@ == top_hit_view(music::track_views(tracks@)),
        json::writable(r@),
{
    let mut o = ObjectBuilder::new();
    proof {
        reveal_strlit("type");
        reveal_strlit("value");
        chars::lemma_text_less_at("type"@, "value"@, 0);
    }
    o.put("type", text("TRACKS"));
    o.put("value", top_json(tracks));
    let r = o.done();
    assert(r@->Object_0 =~= top_hit_view(music::track_views(tracks@))->Object_0);
    r
}

/// What a search is answered with. Every section is there, as the player needs them.
pub open spec fn search_view(tracks: Seq<music::TrackView>) -> json::JsonView {
    json::JsonView::Object(
        seq![
            ("albums"@, section_view(Seq::empty(), 0)),
            ("artists"@, section_view(Seq::empty(), 0)),
            ("genres"@, no_items()),
            ("playlists"@, section_view(Seq::empty(), 0)),
            ("topHits"@, one_item(top_hit_view(tracks))),
            ("tracks"@, section_view(tracks_view(tracks), tracks.len())),
            ("videos"@, section_view(Seq::empty(), 0)),
        ],
    )
}

/// What a search is answered with. Every section is there, as the player needs them.
pub fn search_top_hits(tracks: &Vec<ProviderTrack>) -> (r: Json)
    ensures
        r@ == search_view(music::track_views(tracks@)),
        json::writable(r@),
{
    let mut o = ObjectBuilder::new();
    proof {
        reveal_strlit("albums");
        reveal_strlit("artists");
        reveal_strlit("genres");
        reveal_strlit("playlists");
        reveal_strlit("topHits");
        reveal_strlit("tracks");
        reveal_strlit("videos");
        chars::lemma_text_less_at("albums"@, "artists"@, 1);
        chars::lemma_text_less_at("artists"@, "genres"@, 0);
        chars::lemma_text_less_at("genres"@, "playlists"@, 0);
        chars::lemma_text_less_at("playlists"@, "topHits"@, 0);
        chars::lemma_text_less_at("topHits"@, "tracks"@, 1);
        chars::lemma_text_less_at("tracks"@, "videos"@, 0);
    }
    o.put("albums", empty_section());
    o.put("artists", empty_section());
    o.put("genres", empty_array());
    o.put("playlists", empty_section());
    o.put("topHits", one_item_array(top_hit(tracks)));
    o.put("tracks", track_radio(tracks));
    o.put("videos", empty_section());
    let r = o.done();
    assert(r@->Object_0 =~= search_view(music::track_views(tracks@))->Object_0);
    r
}

// ---- Playback ----

/// What the player fetches.
pub open spec fn manifest_view(url: Seq<char>) -> json::JsonView {
    json::JsonView::Object(
        seq![
            ("codecs"@, json::JsonView::Str("1"@)),
            ("encryptionType"@, json::JsonView::Str("NONE"@)),
            ("mimeType"@, json::JsonView::Str("audio/wav"@)),
            ("urls"@, one_item(json::JsonView::Str(url))),
        ],
    )
}

/// What the player fetches.
fn manifest_json(url: &str) -> (r: Json)
    ensures
        r@ == manifest_view(url@),
        json::writable(r@),
{
    let mut o = ObjectBuilder::new();
    proof {
        reveal_strlit("codecs");
        reveal_strlit("encryptionType");
        reveal_strlit("mimeType");
        reveal_strlit("urls");
        chars::lemma_text_less_at("codecs"@, "encryptionType"@, 0);
        chars::lemma_text_less_at("encryptionType"@, "mimeType"@, 0);
        chars::lemma_text_less_at("mimeType"@, "urls"@, 0);
    }
    o.put("codecs", text("1"));
    o.put("encryptionType", text("NONE"));
    o.put("mimeType", text("audio/wav"));
    o.put("urls", one_item_array(text(url)));
    let r = o.done();
    assert(r@->Object_0 =~= manifest_view(url@)->Object_0);
    r
}

/// The manifest of a track: its JSON text in Base64.
pub open spec fn manifest_text(url: Seq<char>) -> Seq<char> {
    codec::base64_text(vstd::utf8::encode_utf8(json::json_text(manifest_view(url))))
}

fn manifest(url: &str) -> (r: String)
    ensures
        r@ == manifest_text(url@),
{
    let t = manifest_json(url).to_text();
    codec::encode_standard(t.as_str().as_bytes())
}

/// What the player is told of a track, given its manifest.
pub open spec fn playback_view(id: Seq<char>, manifest: Seq<char>) -> json::JsonView {
    json::JsonView::Object(
        seq![
            ("albumPeakAmplitude"@, json::JsonView::Null),
            ("albumReplayGain"@, json::JsonView::Null),
            ("assetPresentation"@, json::JsonView::Str("FULL"@)),
            ("audioMode"@, json::JsonView::Str("STEREO"@)),
            ("audioQuality"@, json::JsonView::Str("HIGH"@)),
            ("manifest"@, json::JsonView::Str(manifest)),
            ("manifestHash"@, json::JsonView::Str("poc"@)),
            ("manifestMimeType"@, json::JsonView::Str("application/vnd.tidal.bts"@)),
            ("trackId"@, json::JsonView::Str(id)),
            ("trackPeakAmplitude"@, json::JsonView::Null),
            ("trackReplayGain"@, json::JsonView::Null),
        ],
    )
}

/// What the player is told of a track, given its manifest.
pub fn playback_info_of(id: &str, manifest: &str) -> (r: Json)
    ensures
        r@ == playback_view(id@, manifest@),
        json::writable(r@),
{
    let mut o = ObjectBuilder::new();
    proof {
        reveal_strlit("albumPeakAmplitude");
        reveal_strlit("albumReplayGain");
        reveal_strlit("assetPresentation");
        reveal_strlit("audioMode");
        reveal_strlit("audioQuality");
        reveal_strlit("manifest");
        reveal_strlit("manifestHash");
        reveal_strlit("manifestMimeType");
        reveal_strlit("trackId");
        reveal_strlit("trackPeakAmplitude");
        reveal_strlit("trackReplayGain");
        chars::lemma_text_less_at("albumPeakAmplitude"@, "albumReplayGain"@, 5);
        chars::lemma_text_less_at("albumReplayGain"@, "assetPresentation"@, 1);
        chars::lemma_text_less_at("assetPresentation"@, "audioMode"@, 1);
        chars::lemma_text_less_at("audioMode"@, "audioQuality"@, 5);
        chars::lemma_text_less_at("audioQuality"@, "manifest"@, 0);
        chars::lemma_text_less_at("manifest"@, "manifestHash"@, 8);
        chars::lemma_text_less_at("manifestHash"@, "manifestMimeType"@, 8);
        chars::lemma_text_less_at("manifestMimeType"@, "trackId"@, 0);
        chars::lemma_text_less_at("trackId"@, "trackPeakAmplitude"@, 5);
        chars::lemma_text_less_at("trackPeakAmplitude"@, "trackReplayGain"@, 5);
    }
    o.put("albumPeakAmplitude", Json::Null);
    o.put("albumReplayGain", Json::Null);
    o.put("assetPresentation", text("FULL"));
    o.put("audioMode", text("STEREO"));
    o.put("audioQuality", text("HIGH"));
    o.put("manifest", text(manifest));
    o.put("manifestHash", text("poc"));
    o.put("manifestMimeType", text("application/vnd.tidal.bts"));
    o.put("trackId", text(id));
    o.put("trackPeakAmplitude", Json::Null);
    o.put("trackReplayGain", Json::Null);
    let r = o.done();
    assert(r@->Object_0 =~= playback_view(id@, manifest@)->Object_0);
    r
}

/// What the player is told of a track: the address that it loads, in a manifest.
pub fn playback_info(id: &str, url: &str) -> (r: Json)
    ensures
        r@ == playback_view(id@, manifest_text(url@)),
        json::writable(r@),
{
    playback_info_of(id, &manifest(url))
}

// ---- The test tone ----

/// The lowest `n` bytes of a number, the lowest first.
pub open spec fn low_bytes(x: nat, n: nat) -> Seq<u8>
    decreases n,
{
    if n == 0 {
        Seq::empty()
    } else {
        seq![(x % 256) as u8] + low_bytes(x / 256, (n - 1) as nat)
    }
}

/// A sample as a number of 16 bits, in two's complement.
pub open spec fn sample_bits(s: i16) -> nat {
    if s < 0 {
        (s + 65536) as nat
    } else {
        s as nat
    }
}

/// The bytes of some samples.
pub open spec fn sample_bytes(samples: Seq<i16>) -> Seq<u8>
    decreases samples.len(),
{
    if samples.len() == 0 {
        Seq::empty()
    } else {
        sample_bytes(samples.drop_last()) + low_bytes(sample_bits(samples.last()), 2)
    }
}

/// The header of a WAV file with `length` bytes of 16-bit mono samples.
pub open spec fn wav_header(length: nat) -> Seq<u8> {
    riff() + low_bytes(36 + length, 4) + wave() + fmt() + low_bytes(16, 4) + low_bytes(1, 2)
        + low_bytes(1, 2) + low_bytes(TONE_SAMPLE_RATE as nat, 4) + low_bytes(
        (TONE_SAMPLE_RATE * 2) as nat,
        4,
    ) + low_bytes(2, 2) + low_bytes(16, 2) + data() + low_bytes(length, 4)
}

/// `RIFF` in ASCII.
pub open spec fn riff() -> Seq<u8> {
    seq![0x52u8, 0x49u8, 0x46u8, 0x46u8]
}

/// `WAVE` in ASCII.
pub open spec fn wave() -> Seq<u8> {
    seq![0x57u8, 0x41u8, 0x56u8, 0x45u8]
}

/// `fmt ` in ASCII.
pub open spec fn fmt() -> Seq<u8> {
    seq![0x66u8, 0x6du8, 0x74u8, 0x20u8]
}

/// `data` in ASCII.
pub open spec fn data() -> Seq<u8> {
    seq![0x64u8, 0x61u8, 0x74u8, 0x61u8]
}

fn push_low_bytes(out: &mut Vec<u8>, x: u32, n: usize)
    ensures
        final(out)@ == old(out)@ + low_bytes(x as nat, n as nat),
{
    let ghost before = out@;
    let mut rest: u32 = x;
    let mut left: usize = n;
    assert(before + low_bytes(x as nat, n as nat) =~= out@ + low_bytes(rest as nat, left as nat));
    while left > 0
        invariant
            before + low_bytes(x as nat, n as nat) == out@ + low_bytes(rest as nat, left as nat),
        decreases left,
    {
        let ghost was = out@;
        let ghost old_rest = rest;
        out.push((rest % 256) as u8);
        rest = rest / 256;
        left -= 1;
        assert(out@ + low_bytes(rest as nat, left as nat) =~= was + low_bytes(
            old_rest as nat,
            (left + 1) as nat,
        ));
    }
    assert(out@ + low_bytes(rest as nat, 0) =~= out@);
}

fn push_four(out: &mut Vec<u8>, a: u8, b: u8, c: u8, d: u8)
    ensures
        final(out)@ == old(out)@ + seq![a, b, c, d],
{
    let ghost before = out@;
    out.push(a);
    out.push(b);
    out.push(c);
    out.push(d);
    assert(out@ =~= before + seq![a, b, c, d]);
}

/// A WAV file of some 16-bit mono samples.
pub fn generate_tone_wav(samples: &Vec<i16>) -> (r: Vec<u8>)
    requires
        36 + 2 * samples@.len() <= u32::MAX,
    ensures
        r@ == wav_header(2 * samples@.len()) + sample_bytes(samples@),
{
    let length: u32 = samples.len() as u32 * 2;
    let mut out: Vec<u8> = Vec::new();
    push_four(&mut out, 0x52, 0x49, 0x46, 0x46);
    assert(out@ =~= riff());
    push_low_bytes(&mut out, 36 + length, 4);
    push_four(&mut out, 0x57, 0x41, 0x56, 0x45);
    push_four(&mut out, 0x66, 0x6d, 0x74, 0x20);
    push_low_bytes(&mut out, 16, 4);
    push_low_bytes(&mut out, 1, 2);
    push_low_bytes(&mut out, 1, 2);
    push_low_bytes(&mut out, TONE_SAMPLE_RATE, 4);
    push_low_bytes(&mut out, TONE_SAMPLE_RATE * 2, 4);
    push_low_bytes(&mut out, 2, 2);
    push_low_bytes(&mut out, 16, 2);
    push_four(&mut out, 0x64, 0x61, 0x74, 0x61);
    push_low_bytes(&mut out, length, 4);
    let ghost header = wav_header(2 * samples@.len());
    assert(out@ =~= header);
    let mut i: usize = 0;
    assert(out@ =~= header + sample_bytes(samples@.take(0)));
    while i < samples.len()
        invariant
            i <= samples@.len(),
            out@ == header + sample_bytes(samples@.take(i as int)),
        decreases samples@.len() - i,
    {
        proof {
            assert(samples@.take(i + 1).drop_last() =~= samples@.take(i as int));
        }
        let s: i16 = samples[i];
        let bits: u32 = if s < 0 {
            (s as i32 + 65536) as u32
        } else {
            s as u32
        };
        let ghost was = out@;
        push_low_bytes(&mut out, bits, 2);
        assert(out@ =~= header + sample_bytes(samples@.take(i + 1)));
        i += 1;
    }
    assert(samples@.take(i as int) =~= samples@);
    out
}

proof fn lemma_low_bytes_len(x: nat, n: nat)
    ensures
        low_bytes(x, n).len() == n,
    decreases n,
{
    if n > 0 {
        lemma_low_bytes_len(x / 256, (n - 1) as nat);
    }
}

proof fn lemma_sample_bytes_len(samples: Seq<i16>)
    ensures
        sample_bytes(samples).len() == 2 * samples.len(),
    decreases samples.len(),
{
    if samples.len() > 0 {
        lemma_sample_bytes_len(samples.drop_last());
        lemma_low_bytes_len(sample_bits(samples.last()), 2);
    }
}

/// The header is 44 bytes long, and tells the length of what follows it.
pub proof fn law_wav_lengths(samples: Seq<i16>)
    ensures
        wav_header(2 * samples.len()).len() == 44,
        sample_bytes(samples).len() == 2 * samples.len(),
{
    lemma_sample_bytes_len(samples);
    lemma_low_bytes_len(36 + 2 * samples.len(), 4);
    lemma_low_bytes_len(16, 4);
    lemma_low_bytes_len(1, 2);
    lemma_low_bytes_len(TONE_SAMPLE_RATE as nat, 4);
    lemma_low_bytes_len((TONE_SAMPLE_RATE * 2) as nat, 4);
    lemma_low_bytes_len(2, 2);
    lemma_low_bytes_len(16, 2);
    lemma_low_bytes_len(2 * samples.len(), 4);
}

// ---- Laws ----

/// The JSON of a track tells its title, its id and its duration under the names that the device
/// reads, and its artist and album in JSON of their own.
pub proof fn law_track_json_tells_the_track(
    id: Seq<char>,
    title: Seq<char>,
    artist: Seq<char>,
    album: Seq<char>,
    seconds: u64,
)
    ensures
        ({
            let v = track_view(id, title, artist, album, seconds);
            &&& json::holds(v, "id"@, json::JsonView::Str(id))
            &&& json::holds(v, "title"@, json::JsonView::Str(title))
            &&& json::holds(
                v,
                "duration"@,
                json::JsonView::Number(json::NumberView::Unsigned(seconds)),
            )
            &&& json::holds(v, "artists"@, json::JsonView::Array(seq![artist_view(artist)]))
            &&& json::holds(v, "album"@, album_view(album))
            &&& json::holds(v, "allowStreaming"@, json::JsonView::Bool(true))
            &&& json::holds(v, "streamReady"@, json::JsonView::Bool(true))
        }),
        json::holds(artist_view(artist), "name"@, json::JsonView::Str(artist)),
        json::holds(artist_view(artist), "type"@, json::JsonView::Str("MAIN"@)),
        json::holds(album_view(album), "title"@, json::JsonView::Str(album)),
{
    let m = track_view(id, title, artist, album, seconds)->Object_0;
    assert(m[0] == ("album"@, album_view(album)));
    assert(m[1] == ("allowStreaming"@, json::JsonView::Bool(true)));
    assert(m[2].0 == "artists"@);
    assert(m[6] == ("duration"@, json::JsonView::Number(json::NumberView::Unsigned(seconds))));
    assert(m[9] == ("id"@, json::JsonView::Str(id)));
    assert(m[15] == ("streamReady"@, json::JsonView::Bool(true)));
    assert(m[16] == ("title"@, json::JsonView::Str(title)));
    let a = artist_view(artist)->Object_0;
    assert(a[1] == ("name"@, json::JsonView::Str(artist)));
    assert(a[2] == ("type"@, json::JsonView::Str("MAIN"@)));
    let b = album_view(album)->Object_0;
    assert(b[2] == ("title"@, json::JsonView::Str(album)));
}

/// A provider's track is told under its own id, title, artist and album, and lasts its full
/// seconds, but one at least.
pub proof fn law_provider_track_keeps_its_parts(t: music::TrackView)
    ensures
        t.duration_ms >= 1000 ==> provider_track_view(t) == track_view(
            t.id,
            t.title,
            t.artist,
            t.album,
            t.duration_ms / 1000,
        ),
        t.duration_ms < 1000 ==> provider_track_view(t) == track_view(
            t.id,
            t.title,
            t.artist,
            t.album,
            1,
        ),
{
}

/// Every track is told, in order, and their number with them.
pub proof fn law_every_track_is_told(tracks: Seq<music::TrackView>, i: int)
    requires
        0 <= i < tracks.len(),
    ensures
        tracks_view(tracks).len() == tracks.len(),
        tracks_view(tracks)[i] == provider_track_view(tracks[i]),
{
}

/// A section tells its items, and their number both as the limit and as the total.
pub proof fn law_section_tells_its_items(items: Seq<json::JsonView>, n: nat)
    requires
        n <= u64::MAX,
    ensures
        json::holds(section_view(items, n), "items"@, json::JsonView::Array(items)),
        json::holds(
            section_view(items, n),
            "limit"@,
            json::JsonView::Number(json::NumberView::Unsigned(n as u64)),
        ),
        json::holds(
            section_view(items, n),
            "totalNumberOfItems"@,
            json::JsonView::Number(json::NumberView::Unsigned(n as u64)),
        ),
        json::holds(
            section_view(items, n),
            "offset"@,
            json::JsonView::Number(json::NumberView::Unsigned(0)),
        ),
{
    let m = section_view(items, n)->Object_0;
    assert(m[0] == ("items"@, json::JsonView::Array(items)));
    assert(m[1].0 == "limit"@);
    assert(m[2].0 == "offset"@);
    assert(m[3].0 == "totalNumberOfItems"@);
}

/// An item of a playlist and a recommended track hold the track.
pub proof fn law_items_hold_the_track(t: music::TrackView)
    ensures
        json::holds(track_item_view(t), "item"@, provider_track_view(t)),
        json::holds(track_item_view(t), "type"@, json::JsonView::Str("track"@)),
        json::holds(recommended_view(t), "track"@, provider_track_view(t)),
        json::holds(
            recommended_view(t),
            "sources"@,
            json::JsonView::Array(seq![json::JsonView::Str("SUGGESTED_TRACKS"@)]),
        ),
{
    let a = track_item_view(t)->Object_0;
    assert(a[0] == ("item"@, provider_track_view(t)));
    assert(a[1] == ("type"@, json::JsonView::Str("track"@)));
    let b = recommended_view(t)->Object_0;
    assert(b[0].0 == "sources"@);
    assert(b[1] == ("track"@, provider_track_view(t)));
}

/// The tracks that go with the one that was found follow it, in order.
pub proof fn law_related_tracks_follow(
    seed: music::TrackView,
    related: Seq<music::TrackView>,
    last: music::TrackView,
)
    ensures
        search_queue(seed, Seq::empty()) == seq![seed],
        last.id != seed.id ==> search_queue(seed, related.push(last)) == search_queue(
            seed,
            related,
        ).push(last),
        last.id == seed.id ==> search_queue(seed, related.push(last)) == search_queue(seed, related),
{
    music::law_other_tracks_are_kept(related, last, seed.id);
    assert(search_queue(seed, Seq::empty()) =~= seq![seed]);
    if last.id != seed.id {
        assert(search_queue(seed, related.push(last)) =~= search_queue(seed, related).push(last));
    }
}

/// What a search finds is told as tracks, with the first of them as the top hit; it finds no
/// albums, artists, playlists or videos.
pub proof fn law_search_tells_tracks(tracks: Seq<music::TrackView>)
    requires
        tracks.len() <= u64::MAX,
    ensures
        ({
            let v = search_view(tracks);
            let none = section_view(Seq::empty(), 0);
            &&& json::holds(v, "tracks"@, section_view(tracks_view(tracks), tracks.len()))
            &&& json::holds(v, "topHits"@, json::JsonView::Array(seq![top_hit_view(tracks)]))
            &&& json::holds(v, "albums"@, none)
            &&& json::holds(v, "artists"@, none)
            &&& json::holds(v, "playlists"@, none)
            &&& json::holds(v, "videos"@, none)
        }),
        tracks.len() > 0 ==> json::holds(
            top_hit_view(tracks),
            "value"@,
            provider_track_view(tracks[0]),
        ),
        tracks.len() == 0 ==> json::holds(
            top_hit_view(tracks),
            "value"@,
            json::JsonView::Object(Seq::empty()),
        ),
        json::holds(top_hit_view(tracks), "type"@, json::JsonView::Str("TRACKS"@)),
{
    let m = search_view(tracks)->Object_0;
    assert(m[0].0 == "albums"@ && m[1].0 == "artists"@ && m[3].0 == "playlists"@);
    assert(m[4].0 == "topHits"@ && m[5].0 == "tracks"@ && m[6].0 == "videos"@);
    let h = top_hit_view(tracks)->Object_0;
    assert(h[0] == ("type"@, json::JsonView::Str("TRACKS"@)));
    assert(h[1] == ("value"@, top_view(tracks)));
}

/// The manifest of a track has its address and no encryption, and what is played is the track that
/// was asked for, from that manifest.
pub proof fn law_playback_names_track_and_address(id: Seq<char>, url: Seq<char>)
    ensures
        json::holds(
            manifest_view(url),
            "urls"@,
            json::JsonView::Array(seq![json::JsonView::Str(url)]),
        ),
        json::holds(manifest_view(url), "encryptionType"@, json::JsonView::Str("NONE"@)),
        json::holds(manifest_view(url), "mimeType"@, json::JsonView::Str("audio/wav"@)),
        json::holds(playback_view(id, manifest_text(url)), "trackId"@, json::JsonView::Str(id)),
        json::holds(
            playback_view(id, manifest_text(url)),
            "manifest"@,
            json::JsonView::Str(
                codec::base64_text(vstd::utf8::encode_utf8(json::json_text(manifest_view(url)))),
            ),
        ),
        json::holds(
            playback_view(id, manifest_text(url)),
            "manifestMimeType"@,
            json::JsonView::Str("application/vnd.tidal.bts"@),
        ),
{
    let m = manifest_view(url)->Object_0;
    assert(m[1] == ("encryptionType"@, json::JsonView::Str("NONE"@)));
    assert(m[2] == ("mimeType"@, json::JsonView::Str("audio/wav"@)));
    assert(m[3].0 == "urls"@);
    let p = playback_view(id, manifest_text(url))->Object_0;
    assert(p[5] == ("manifest"@, json::JsonView::Str(manifest_text(url))));
    assert(p[7].0 == "manifestMimeType"@);
    assert(p[8] == ("trackId"@, json::JsonView::Str(id)));
}

/// The playlist of the device is told under the id by which it is asked for.
pub proof fn law_playlist_goes_by_its_id()
    ensures
        json::holds(playlist_view(), "uuid"@, json::JsonView::Str(PLAYLIST_UUID@)),
        json::holds(
            playlist_view(),
            "numberOfTracks"@,
            json::JsonView::Number(json::NumberView::Unsigned(QUEUE_SIZE as u64)),
        ),
{
    let m = playlist_view()->Object_0;
    assert(m[7].0 == "numberOfTracks"@);
    assert(m[16] == ("uuid"@, json::JsonView::Str(PLAYLIST_UUID@)));
}

/// The number in `n` bytes from position `at`, the lowest byte first.
pub open spec fn number_at(s: Seq<u8>, at: int, n: nat) -> nat
    decreases n,
{
    if n == 0 {
        0
    } else {
        s[at] as nat + 256 * number_at(s, at + 1, (n - 1) as nat)
    }
}

proof fn lemma_number_at(before: Seq<u8>, x: nat, n: nat, after: Seq<u8>, limit: nat)
    requires
        n == 2 ==> limit == 0x1_0000,
        n == 4 ==> limit == 0x1_0000_0000,
        n == 2 || n == 4,
        x < limit,
    ensures
        number_at(before + low_bytes(x, n) + after, before.len() as int, n) == x,
{
    let s = before + low_bytes(x, n) + after;
    let k = before.len() as int;
    reveal_with_fuel(low_bytes, 5);
    reveal_with_fuel(number_at, 5);
    assert(low_bytes(x, n)[0] == (x % 256) as u8);
    assert(low_bytes(x, n)[1] == ((x / 256) % 256) as u8);
    assert(s[k] == low_bytes(x, n)[0]);
    assert(s[k + 1] == low_bytes(x, n)[1]);
    if n == 4 {
        assert(low_bytes(x, n)[2] == ((x / 256 / 256) % 256) as u8);
        assert(low_bytes(x, n)[3] == ((x / 256 / 256 / 256) % 256) as u8);
        assert(s[k + 2] == low_bytes(x, n)[2]);
        assert(s[k + 3] == low_bytes(x, n)[3]);
    }
}

/// The header of a WAV file tells the length of what follows it, and one channel of 16-bit samples
/// at 44100 a second, at the positions that the format fixes.
pub proof fn law_wav_header_tells_the_format(length: nat)
    requires
        length + 36 <= u32::MAX,
    ensures
        ({
            let h = wav_header(length);
            &&& h.len() == 44
            &&& number_at(h, 4, 4) == 36 + length
            &&& number_at(h, 16, 4) == 16
            &&& number_at(h, 20, 2) == 1
            &&& number_at(h, 22, 2) == 1
            &&& number_at(h, 24, 4) == 44100
            &&& number_at(h, 28, 4) == 44100 * 2
            &&& number_at(h, 32, 2) == 2
            &&& number_at(h, 34, 2) == 16
            &&& number_at(h, 40, 4) == length
        }),
{
    let (a0, a1, a2, a3, a4) = (riff(), low_bytes(36 + length, 4), wave(), fmt(), low_bytes(16, 4));
    let (a5, a6) = (low_bytes(1, 2), low_bytes(TONE_SAMPLE_RATE as nat, 4));
    let (a7, a8, a9) = (
        low_bytes((TONE_SAMPLE_RATE * 2) as nat, 4),
        low_bytes(2, 2),
        low_bytes(16, 2),
    );
    let (b0, b1) = (data(), low_bytes(length, 4));
    lemma_low_bytes_len(36 + length, 4);
    lemma_low_bytes_len(16, 4);
    lemma_low_bytes_len(1, 2);
    lemma_low_bytes_len(TONE_SAMPLE_RATE as nat, 4);
    lemma_low_bytes_len((TONE_SAMPLE_RATE * 2) as nat, 4);
    lemma_low_bytes_len(2, 2);
    lemma_low_bytes_len(16, 2);
    lemma_low_bytes_len(length, 4);
    let h = wav_header(length);
    let none = Seq::<u8>::empty();
    assert(h =~= a0 + a1 + h.skip(8));
    lemma_number_at(a0, 36 + length, 4, h.skip(8), 0x1_0000_0000);
    assert(h =~= h.take(16) + a4 + h.skip(20));
    lemma_number_at(h.take(16), 16, 4, h.skip(20), 0x1_0000_0000);
    assert(h =~= h.take(20) + a5 + h.skip(22));
    lemma_number_at(h.take(20), 1, 2, h.skip(22), 0x1_0000);
    assert(h =~= h.take(22) + a5 + h.skip(24));
    lemma_number_at(h.take(22), 1, 2, h.skip(24), 0x1_0000);
    assert(h =~= h.take(24) + a6 + h.skip(28));
    lemma_number_at(h.take(24), 44100, 4, h.skip(28), 0x1_0000_0000);
    assert(h =~= h.take(28) + a7 + h.skip(32));
    lemma_number_at(h.take(28), 88200, 4, h.skip(32), 0x1_0000_0000);
    assert(h =~= h.take(32) + a8 + h.skip(34));
    lemma_number_at(h.take(32), 2, 2, h.skip(34), 0x1_0000);
    assert(h =~= h.take(34) + a9 + h.skip(36));
    lemma_number_at(h.take(34), 16, 2, h.skip(36), 0x1_0000);
    assert(h =~= h.take(40) + b1 + none);
    lemma_number_at(h.take(40), length, 4, none, 0x1_0000_0000);
}

/// Each sample takes the next two bytes, the lower one first; a negative one counts from 65536
/// down.
pub proof fn law_samples_are_written_in_order(samples: Seq<i16>, s: i16)
    ensures
        ({
            let was = sample_bytes(samples);
            let now = sample_bytes(samples.push(s));
            &&& was.len() == 2 * samples.len()
            &&& now.len() == was.len() + 2
            &&& now.take(was.len() as int) == was
            &&& s >= 0 ==> number_at(now, was.len() as int, 2) == s
            &&& s < 0 ==> number_at(now, was.len() as int, 2) == s + 65536
        }),
{
    let was = sample_bytes(samples);
    let now = sample_bytes(samples.push(s));
    assert(samples.push(s).drop_last() =~= samples);
    lemma_sample_bytes_len(samples);
    lemma_low_bytes_len(sample_bits(s), 2);
    assert(now.take(was.len() as int) =~= was);
    assert(now =~= was + low_bytes(sample_bits(s), 2) + Seq::<u8>::empty());
    lemma_number_at(was, sample_bits(s), 2, Seq::empty(), 0x1_0000);
}

/// What is searched for is the query, or the term without one; the track that is found goes first,
/// and what goes with it follows; without one the default queue is played as it is.
pub proof fn law_search_starts_from_the_best_match(
    query: Option<&str>,
    term: Option<&str>,
    top: Option<ProviderTrack>,
    more: Vec<ProviderTrack>,
    t: String,
    step: SearchStep,
    r: Vec<ProviderTrack>,
)
    requires
        call_ensures(search_term, (query, term), t),
        call_ensures(search_step, (&top,), step),
        call_ensures(searched_tracks, (top, more), r),
    ensures
        query matches Some(q) ==> t@ == q@,
        query is None ==> (term matches Some(s) ==> t@ == s@),
        query is None && term is None ==> t@.len() == 0,
        top matches Some(seed) ==> (step matches SearchStep::Recommend(id) && id@ == seed.id@),
        top is None ==> step is Queue,
        top matches Some(seed) ==> r@.len() > 0 && r@[0]@ == seed@,
        top is None ==> music::track_views(r@) == music::track_views(more@),
{
    let v = music::track_views(r@);
    assert(v.len() == r@.len());
    if top is Some {
        assert(v[0] == r@[0]@);
    }
}

/// A list of tracks is told track by track, with their number.
pub proof fn law_lists_tell_every_track(
    tracks: Vec<ProviderTrack>,
    i: int,
    items: Json,
    related: Json,
    radio: Json,
)
    requires
        0 <= i < tracks@.len(),
        call_ensures(track_item_wrapper, (&tracks,), items),
        call_ensures(track_recommendations, (&tracks,), related),
        call_ensures(track_radio, (&tracks,), radio),
    ensures
        exists|s: Seq<json::JsonView>|
            items@ == section_view(s, tracks@.len()) && s.len() == tracks@.len() && #[trigger] s[i]
                == track_item_view(tracks@[i]@),
        exists|s: Seq<json::JsonView>|
            related@ == section_view(s, tracks@.len()) && s.len() == tracks@.len() && #[trigger] s[i]
                == recommended_view(tracks@[i]@),
        exists|s: Seq<json::JsonView>|
            radio@ == section_view(s, tracks@.len()) && s.len() == tracks@.len() && #[trigger] s[i]
                == provider_track_view(tracks@[i]@),
{
    let v = music::track_views(tracks@);
    assert(v.len() == tracks@.len() && v[i] == tracks@[i]@);
    let a = v.map_values(|t: music::TrackView| track_item_view(t));
    assert(a[i] == track_item_view(tracks@[i]@));
    let b = v.map_values(|t: music::TrackView| recommended_view(t));
    assert(b[i] == recommended_view(tracks@[i]@));
    let c = tracks_view(v);
    assert(c[i] == provider_track_view(tracks@[i]@));
}

/// A tone is a WAV file: its header, which tells how many bytes of samples follow, and the samples.
pub proof fn law_tone_is_a_wav_file(samples: Vec<i16>, r: Vec<u8>)
    requires
        36 + 2 * samples@.len() <= u32::MAX,
        call_ensures(generate_tone_wav, (&samples,), r),
    ensures
        r@.len() == 44 + 2 * samples@.len(),
        r@.skip(44) == sample_bytes(samples@),
        r@.take(44) == wav_header(2 * samples@.len()),
{
    law_wav_lengths(samples@);
    assert(r@.skip(44) =~= sample_bytes(samples@));
    assert(r@.take(44) =~= wav_header(2 * samples@.len()));
}

/// What a provider does not tell of a track has a neutral value, and nothing else is told.
pub proof fn law_unknown_parts_of_a_track_are_neutral(
    id: Seq<char>,
    title: Seq<char>,
    artist: Seq<char>,
    album: Seq<char>,
    seconds: u64,
)
    ensures
        ({
            let v = track_view(id, title, artist, album, seconds);
            &&& v->Object_0.len() == 21
            &&& json::holds(v, "audioModes"@, json::JsonView::Array(seq![json::JsonView::Str("STEREO"@)]))
            &&& json::holds(v, "audioQuality"@, json::JsonView::Str("HIGH"@))
            &&& json::holds(v, "copyright"@, json::JsonView::Str(""@))
            &&& json::holds(v, "editable"@, json::JsonView::Bool(false))
            &&& json::holds(v, "explicit"@, json::JsonView::Bool(false))
            &&& json::holds(v, "isrc"@, json::JsonView::Str(""@))
            &&& json::holds(v, "peak"@, json::JsonView::Null)
            &&& json::holds(v, "popularity"@, json::JsonView::Number(json::NumberView::Unsigned(0)))
            &&& json::holds(v, "premiumStreamingOnly"@, json::JsonView::Bool(false))
            &&& json::holds(v, "replayGain"@, json::JsonView::Null)
            &&& json::holds(v, "trackNumber"@, json::JsonView::Number(json::NumberView::Unsigned(1)))
            &&& json::holds(v, "url"@, json::JsonView::Str(""@))
            &&& json::holds(v, "version"@, json::JsonView::Null)
            &&& json::holds(v, "volumeNumber"@, json::JsonView::Number(json::NumberView::Unsigned(1)))
        }),
{
    let m = track_view(id, title, artist, album, seconds)->Object_0;
    assert(m[3] == ("audioModes"@, json::JsonView::Array(seq![json::JsonView::Str("STEREO"@)])));
    assert(m[4] == ("audioQuality"@, json::JsonView::Str("HIGH"@)));
    assert(m[5] == ("copyright"@, json::JsonView::Str(""@)));
    assert(m[7] == ("editable"@, json::JsonView::Bool(false)));
    assert(m[8] == ("explicit"@, json::JsonView::Bool(false)));
    assert(m[10] == ("isrc"@, json::JsonView::Str(""@)));
    assert(m[11] == ("peak"@, json::JsonView::Null));
    assert(m[12] == ("popularity"@, json::JsonView::Number(json::NumberView::Unsigned(0))));
    assert(m[13] == ("premiumStreamingOnly"@, json::JsonView::Bool(false)));
    assert(m[14] == ("replayGain"@, json::JsonView::Null));
    assert(m[17] == ("trackNumber"@, json::JsonView::Number(json::NumberView::Unsigned(1))));
    assert(m[18] == ("url"@, json::JsonView::Str(""@)));
    assert(m[19] == ("version"@, json::JsonView::Null));
    assert(m[20] == ("volumeNumber"@, json::JsonView::Number(json::NumberView::Unsigned(1))));
}

/// What a provider does not tell of an album has a neutral value, and nothing else is told.
pub proof fn law_unknown_parts_of_an_album_are_neutral(title: Seq<char>)
    ensures
        ({
            let v = album_view(title);
            &&& v->Object_0.len() == 5
            &&& json::holds(v, "cover"@, json::JsonView::Null)
            &&& json::holds(v, "id"@, json::JsonView::Number(json::NumberView::Unsigned(0)))
            &&& json::holds(v, "url"@, json::JsonView::Str(""@))
            &&& json::holds(v, "videoCover"@, json::JsonView::Null)
        }),
{
    let m = album_view(title)->Object_0;
    assert(m[0] == ("cover"@, json::JsonView::Null));
    assert(m[1] == ("id"@, json::JsonView::Number(json::NumberView::Unsigned(0))));
    assert(m[3] == ("url"@, json::JsonView::Str(""@)));
    assert(m[4] == ("videoCover"@, json::JsonView::Null));
}

/// An artist has no id of its own, and nothing but its name and its part is told.
pub proof fn law_unknown_parts_of_an_artist_are_neutral(name: Seq<char>)
    ensures
        ({
            let v = artist_view(name);
            &&& v->Object_0.len() == 3
            &&& json::holds(v, "id"@, json::JsonView::Number(json::NumberView::Unsigned(0)))
        }),
{
    let m = artist_view(name)->Object_0;
    assert(m[0] == ("id"@, json::JsonView::Number(json::NumberView::Unsigned(0))));
}

/// A playback is of the whole track in stereo, and no loudness is known of it.
pub proof fn law_unknown_parts_of_a_playback_are_neutral(id: Seq<char>, manifest: Seq<char>)
    ensures
        ({
            let v = playback_view(id, manifest);
            &&& v->Object_0.len() == 11
            &&& json::holds(v, "albumPeakAmplitude"@, json::JsonView::Null)
            &&& json::holds(v, "albumReplayGain"@, json::JsonView::Null)
            &&& json::holds(v, "assetPresentation"@, json::JsonView::Str("FULL"@))
            &&& json::holds(v, "audioMode"@, json::JsonView::Str("STEREO"@))
            &&& json::holds(v, "audioQuality"@, json::JsonView::Str("HIGH"@))
            &&& json::holds(v, "manifestHash"@, json::JsonView::Str("poc"@))
            &&& json::holds(v, "trackPeakAmplitude"@, json::JsonView::Null)
            &&& json::holds(v, "trackReplayGain"@, json::JsonView::Null)
        }),
{
    let m = playback_view(id, manifest)->Object_0;
    assert(m[0] == ("albumPeakAmplitude"@, json::JsonView::Null));
    assert(m[1] == ("albumReplayGain"@, json::JsonView::Null));
    assert(m[2] == ("assetPresentation"@, json::JsonView::Str("FULL"@)));
    assert(m[3] == ("audioMode"@, json::JsonView::Str("STEREO"@)));
    assert(m[4] == ("audioQuality"@, json::JsonView::Str("HIGH"@)));
    assert(m[6] == ("manifestHash"@, json::JsonView::Str("poc"@)));
    assert(m[9] == ("trackPeakAmplitude"@, json::JsonView::Null));
    assert(m[10] == ("trackReplayGain"@, json::JsonView::Null));
}

/// The playlist of the device is the server's own: it is public, and has no videos.
pub proof fn law_playlist_is_the_shims_own()
    ensures
        ({
            let v = playlist_view();
            &&& v->Object_0.len() == 17
            &&& json::holds(v, "created"@, json::JsonView::Str("2020-01-01T00:00:00.000+0000"@))
            &&& json::holds(v, "creator"@, creator_view())
            &&& json::holds(v, "image"@, json::JsonView::Str(""@))
            &&& json::holds(v, "lastItemAddedAt"@, json::JsonView::Str("2020-01-01T00:00:00.000+0000"@))
            &&& json::holds(v, "lastUpdated"@, json::JsonView::Str("2020-01-01T00:00:00.000+0000"@))
            &&& json::holds(v, "numberOfTracks"@, json::JsonView::Number(json::NumberView::Unsigned(6)))
            &&& json::holds(v, "popularity"@, json::JsonView::Number(json::NumberView::Unsigned(0)))
            &&& json::holds(v, "promotedArtists"@, json::JsonView::Array(Seq::empty()))
            &&& json::holds(v, "squareImage"@, json::JsonView::Str(""@))
            &&& json::holds(v, "url"@, json::JsonView::Str(""@))
            &&& json::holds(v, "uuid"@, json::JsonView::Str("poc-playlist"@))
            &&& json::holds(v, "description"@, json::JsonView::Str("Local shim playlist"@))
            &&& json::holds(v, "duration"@, json::JsonView::Number(json::NumberView::Unsigned(1260)))
            &&& json::holds(v, "numberOfVideos"@, json::JsonView::Number(json::NumberView::Unsigned(0)))
            &&& json::holds(v, "publicPlaylist"@, json::JsonView::Bool(true))
            &&& json::holds(v, "title"@, json::JsonView::Str("Penumbra Mix"@))
            &&& json::holds(v, "type"@, json::JsonView::Str("EDITORIAL"@))
        }),
        json::holds(creator_view(), "name"@, json::JsonView::Str("Penumbra"@)),
        json::holds(
            creator_view(),
            "id"@,
            json::JsonView::Number(json::NumberView::Unsigned(0)),
        ),
{
    let c = creator_view()->Object_0;
    assert(c[0].0 == "id"@);
    assert(c[1] == ("name"@, json::JsonView::Str("Penumbra"@)));
    let m = playlist_view()->Object_0;
    assert(m[0] == ("created"@, json::JsonView::Str("2020-01-01T00:00:00.000+0000"@)));
    assert(m[1] == ("creator"@, creator_view()));
    assert(m[4] == ("image"@, json::JsonView::Str(""@)));
    assert(m[5] == ("lastItemAddedAt"@, json::JsonView::Str("2020-01-01T00:00:00.000+0000"@)));
    assert(m[6] == ("lastUpdated"@, json::JsonView::Str("2020-01-01T00:00:00.000+0000"@)));
    assert(m[7] == ("numberOfTracks"@, json::JsonView::Number(json::NumberView::Unsigned(6))));
    assert(m[9] == ("popularity"@, json::JsonView::Number(json::NumberView::Unsigned(0))));
    assert(m[10] == ("promotedArtists"@, json::JsonView::Array(Seq::empty())));
    assert(m[12] == ("squareImage"@, json::JsonView::Str(""@)));
    assert(m[15] == ("url"@, json::JsonView::Str(""@)));
    assert(m[16] == ("uuid"@, json::JsonView::Str("poc-playlist"@)));
    assert(m[2] == ("description"@, json::JsonView::Str("Local shim playlist"@)));
    assert(m[3] == ("duration"@, json::JsonView::Number(json::NumberView::Unsigned(1260))));
    assert(m[8] == ("numberOfVideos"@, json::JsonView::Number(json::NumberView::Unsigned(0))));
    assert(m[11] == ("publicPlaylist"@, json::JsonView::Bool(true)));
    assert(m[13] == ("title"@, json::JsonView::Str("Penumbra Mix"@)));
    assert(m[14] == ("type"@, json::JsonView::Str("EDITORIAL"@)));
}

/// A search finds no genres, a manifest names its codec, and only the sections and the parts that
/// the device reads are told.
pub proof fn law_replies_have_no_other_parts(
    tracks: Seq<music::TrackView>,
    url: Seq<char>,
    items: Seq<json::JsonView>,
    n: nat,
)
    ensures
        search_view(tracks)->Object_0.len() == 7,
        json::holds(search_view(tracks), "genres"@, json::JsonView::Array(Seq::empty())),
        manifest_view(url)->Object_0.len() == 4,
        json::holds(manifest_view(url), "codecs"@, json::JsonView::Str("1"@)),
        section_view(items, n)->Object_0.len() == 4,
        top_hit_view(tracks)->Object_0.len() == 2,
{
    assert(search_view(tracks)->Object_0[2] == ("genres"@, no_items()));
    assert(manifest_view(url)->Object_0[0] == ("codecs"@, json::JsonView::Str("1"@)));
}

} // verus!
