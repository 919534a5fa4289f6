//! Music providers behind the Tidal shim.
//!
//! One [`MusicProvider`] answers what the shim needs, for whichever backend is active. What
//! the player loads is the key difference between them: Apple's tracks are played on the
//! device, under a scheme of their own, and the others come as streams of this server.
//!
//! A provider whose credentials are missing is [`MusicProvider::Unconfigured`], and says
//! why.

use crate::chars;
use crate::chars::{chars_of, clone_opt, has_prefix, is_blank, same_text, text_of, to_lower, trim};
use crate::codec;
use crate::config::{Config, MusicProviderKind};
use crate::external::apple_music;
use crate::external::apple_music::{AppleEntity, AppleMusicClient, AppleRequest, AppleSong, EntityKind};
use crate::external::mopidy;
use crate::external::mopidy::MopidyClient;
use crate::external::spotify;
use crate::external::spotify::SpotifyClient;
use crate::external::youtube;
use crate::external::youtube::YoutubeClient;
use crate::external::{text2, text3};
use crate::json;
use crate::json::{field, object, Json};
use crate::number;
use crate::number::{is_number, parse_u64};
use crate::weburl;
use vstd::prelude::*;
use vstd::string::*;

verus! {

/// A single track, of whatever provider.
#[derive(Debug, Clone, PartialEq, Eq)]
pub struct ProviderTrack {
    pub id: String,
    pub title: String,
    pub artist: String,
    pub album: String,
    pub duration_ms: u64,
}

pub ghost struct TrackView {
    pub id: Seq<char>,
    pub title: Seq<char>,
    pub artist: Seq<char>,
    pub album: Seq<char>,
    pub duration_ms: u64,
}

impl View for ProviderTrack {
    type V = TrackView;

    open spec fn view(&self) -> TrackView {
        TrackView {
            id: self.id@,
            title: self.title@,
            artist: self.artist@,
            album: self.album@,
            duration_ms: self.duration_ms,
        }
    }
}

pub open spec fn track_views(v: Seq<ProviderTrack>) -> Seq<TrackView> {
    v.map_values(|t: ProviderTrack| t@)
}

/// An artist, album or playlist. The device only asks for the tracks of one with a track
/// count above 0.
#[derive(Debug, Clone, PartialEq, Eq)]
pub struct ProviderEntity {
    pub id: String,
    pub name: String,
    pub track_count: u32,
}

pub ghost struct ProviderEntityView {
    pub id: Seq<char>,
    pub name: Seq<char>,
    pub track_count: u32,
}

impl View for ProviderEntity {
    type V = ProviderEntityView;

    open spec fn view(&self) -> ProviderEntityView {
        ProviderEntityView { id: self.id@, name: self.name@, track_count: self.track_count }
    }
}

pub open spec fn entity_views(v: Seq<ProviderEntity>) -> Seq<ProviderEntityView> {
    v.map_values(|e: ProviderEntity| e@)
}

/// At most the first `limit` of some items.
pub open spec fn first_of<T>(s: Seq<T>, limit: u32) -> Seq<T> {
    if s.len() <= limit {
        s
    } else {
        s.take(limit as int)
    }
}

/// At most the first `limit` tracks.
pub fn first_tracks(tracks: Vec<ProviderTrack>, limit: u32) -> (r: Vec<ProviderTrack>)
    ensures
        r@ == first_of(tracks@, limit),
        track_views(r@) == first_of(track_views(tracks@), limit),
{
    let mut out = tracks;
    out.truncate(limit as usize);
    assert(out@ =~= first_of(tracks@, limit));
    assert(track_views(out@) =~= first_of(track_views(tracks@), limit));
    out
}

/// At most the first `limit` entities.
pub fn first_entities(entities: Vec<ProviderEntity>, limit: u32) -> (r: Vec<ProviderEntity>)
    ensures
        r@ == first_of(entities@, limit),
        entity_views(r@) == first_of(entity_views(entities@), limit),
{
    let mut out = entities;
    out.truncate(limit as usize);
    assert(out@ =~= first_of(entities@, limit));
    assert(entity_views(out@) =~= first_of(entity_views(entities@), limit));
    out
}

// ---- Now playing ----

/// The track that is playing.
#[derive(Debug, Clone, PartialEq, Eq)]
pub struct NowPlaying {
    pub title: String,
    pub artist: String,
    pub album: String,
}

/// What the assistant is told of the track that is playing: its title, its artist, and the
/// album it is from, as far as they are known and the album is not called like the track.
pub open spec fn summary_text(title: Seq<char>, artist: Seq<char>, album: Seq<char>) -> Seq<char> {
    title + (if artist.len() > 0 {
        " — "@ + artist
    } else {
        Seq::empty()
    }) + (if album.len() > 0 && album != title {
        " (from "@ + album + ")"@
    } else {
        Seq::empty()
    })
}

impl NowPlaying {
    pub fn summary(&self) -> (r: String)
        ensures
            r@ == summary_text(self.title@, self.artist@, self.album@),
    {
        let mut s = self.title.clone();
        if !self.artist.as_str().is_empty() {
            s.append(" — ");
            s.append(&self.artist);
        }
        if !self.album.as_str().is_empty() && !same_text(&self.album, &self.title) {
            s.append(" (from ");
            s.append(&self.album);
            s.append(")");
        }
        assert(s@ =~= summary_text(self.title@, self.artist@, self.album@));
        s
    }
}

// ---- Ids ----

/// Whether the device can play a track with this id. Apple's ids from 2^31 on do not fit
/// the device's player; an id that is no number is another provider's.
pub open spec fn is_playable(id: Seq<char>) -> bool {
    match number::written_number(id) {
        Some(n) => n < 0x8000_0000,
        None => true,
    }
}

pub fn apple_id_playable(id: &str) -> (r: bool)
    ensures
        r == is_playable(id@),
{
    match parse_u64(id) {
        Some(n) => n < 0x8000_0000,
        None => !is_number(id),
    }
}

/// The id of an entity that stands for a search.
pub open spec fn search_id(term: Seq<char>) -> Seq<char> {
    "q_"@ + codec::url_base64(vstd::utf8::encode_utf8(term))
}

/// The term of the search that an id stands for.
pub open spec fn search_term(id: Seq<char>) -> Option<Seq<char>> {
    if chars::starts_with(id, "q_"@) {
        mopidy::id_uri(id.skip(2))
    } else {
        None
    }
}

/// The id of an entity that stands for a search. [`decode_entity_term`] gives the term back.
pub fn search_entity_id(term: &str) -> (r: String)
    ensures
        r@ == search_id(term@),
        search_term(r@) == Some(term@),
{
    let code = mopidy::encode_uri(term);
    let r = text2("q_", &code);
    proof {
        reveal_strlit("q_");
        assert(r@.subrange(0, 2) =~= "q_"@);
        assert(r@.skip(2) =~= code@);
    }
    r
}

/// The term of the search that an id stands for.
pub fn decode_entity_term(id: &str) -> (r: Option<String>)
    ensures
        chars::opt_text(r) == search_term(id@),
{
    if has_prefix(id, "q_") {
        proof {
            reveal_strlit("q_");
        }
        let v = chars_of(id);
        let code = text_of(&v, 2, v.len());
        assert(code@ =~= id@.skip(2));
        mopidy::decode_uri(&code)
    } else {
        None
    }
}

/// The term of the search that an id stands for, or else the id.
pub open spec fn term_or_id(id: Seq<char>) -> Seq<char> {
    match search_term(id) {
        Some(t) => t,
        None => id,
    }
}

/// The term of the search that an id stands for, or else the id.
pub fn decoded(id: &str) -> (r: String)
    ensures
        r@ == term_or_id(id@),
{
    match decode_entity_term(id) {
        Some(t) => t,
        None => String::from_str(id),
    }
}

/// An entity that stands for a search, for providers without entities. [`decoded`] gives the
/// term back from its id.
pub fn search_synthetic(term: &str) -> (r: ProviderEntity)
    ensures
        r@ == synthetic(term@),
        term_or_id(r.id@) == term@,
{
    ProviderEntity { id: search_entity_id(term), name: String::from_str(term), track_count: 25 }
}

pub open spec fn synthetic(term: Seq<char>) -> ProviderEntityView {
    ProviderEntityView { id: search_id(term), name: term, track_count: 25 }
}

// ---- Apple's songs and entities ----

impl From<AppleSong> for ProviderTrack {
    fn from(s: AppleSong) -> (r: Self) {
        ProviderTrack {
            id: s.id,
            title: s.name,
            artist: s.artist,
            album: s.album,
            duration_ms: s.duration_ms,
        }
    }
}

impl vstd::std_specs::convert::FromSpecImpl<AppleSong> for ProviderTrack {
    open spec fn obeys_from_spec() -> bool {
        true
    }

    open spec fn from_spec(s: AppleSong) -> ProviderTrack {
        ProviderTrack {
            id: s.id,
            title: s.name,
            artist: s.artist,
            album: s.album,
            duration_ms: s.duration_ms,
        }
    }
}

/// The track of a song.
pub open spec fn song_track(s: AppleSong) -> TrackView {
    TrackView {
        id: s.id@,
        title: s.name@,
        artist: s.artist@,
        album: s.album@,
        duration_ms: s.duration_ms,
    }
}

/// The tracks of some songs.
pub fn song_tracks(songs: Vec<AppleSong>) -> (r: Vec<ProviderTrack>)
    ensures
        track_views(r@) == songs@.map_values(|s: AppleSong| song_track(s)),
{
    let ghost all = songs@;
    let mut out: Vec<ProviderTrack> = Vec::new();
    for s in it: songs
        invariant
            it.seq() == all,
            out@.len() == it.index(),
            forall|i: int| 0 <= i < out@.len() ==> (#[trigger] out@[i])@ == song_track(all[i]),
    {
        out.push(ProviderTrack::from(s));
    }
    assert(track_views(out@) =~= all.map_values(|s: AppleSong| song_track(s)));
    out
}

/// The count of tracks that is told to the device: one at least.
pub open spec fn told_count(count: Option<u32>, default: u32) -> u32 {
    let n = match count {
        Some(n) => n,
        None => default,
    };
    if n == 0 {
        1
    } else {
        n
    }
}

/// The entity of one of the catalog, whose count of tracks is `default` where it is not
/// known.
pub fn apple_entity(e: AppleEntity, default: u32) -> (r: ProviderEntity)
    ensures
        r.id == e.id,
        r.name == e.name,
        r.track_count == told_count(e.track_count, default),
{
    let n: u32 = match e.track_count {
        Some(n) => n,
        None => default,
    };
    let track_count: u32 = if n == 0 {
        1
    } else {
        n
    };
    ProviderEntity { id: e.id, name: e.name, track_count }
}

/// The user's playlists, whose counts of tracks are `limit` where they are not known.
pub fn my_playlists_reply(playlists: Vec<AppleEntity>, limit: u32) -> (r: Vec<ProviderEntity>)
    ensures
        r@.len() == playlists@.len(),
        forall|i: int|
            0 <= i < r@.len() ==> (#[trigger] r@[i]).id == playlists@[i].id && r@[i].name
                == playlists@[i].name && r@[i].track_count == told_count(
                playlists@[i].track_count,
                limit,
            ),
{
    let ghost all = playlists@;
    let mut out: Vec<ProviderEntity> = Vec::new();
    for e in it: playlists
        invariant
            it.seq() == all,
            out@.len() == it.index(),
            forall|i: int|
                0 <= i < out@.len() ==> (#[trigger] out@[i]).id == all[i].id && out@[i].name
                    == all[i].name && out@[i].track_count == told_count(all[i].track_count, limit),
    {
        out.push(apple_entity(e, limit));
    }
    out
}

/// What the count of an artist's, an album's and a playlist's tracks is taken for.
pub const ARTIST_TRACKS: u32 = 50;

pub const ALBUM_TRACKS: u32 = 12;

pub const PLAYLIST_TRACKS: u32 = 25;

/// The tracks but for the one with this id.
pub open spec fn without_id(tracks: Seq<TrackView>, id: Seq<char>) -> Seq<TrackView>
    decreases tracks.len(),
{
    if tracks.len() == 0 {
        Seq::empty()
    } else {
        let before = without_id(tracks.drop_last(), id);
        if tracks.last().id != id {
            before.push(tracks.last())
        } else {
            before
        }
    }
}

/// The tracks that go with a seed track, from the songs of its artist: all but the seed. If
/// there are none, the default queue takes their place.
pub fn related_tracks(songs: Vec<AppleSong>, seed_id: &str) -> (r: Option<Vec<ProviderTrack>>)
    ensures
        ({
            let related = without_id(songs@.map_values(|s: AppleSong| song_track(s)), seed_id@);
            match r {
                Some(tracks) => track_views(tracks@) == related && related.len() > 0,
                None => related.len() == 0,
            }
        }),
{
    let tracks = song_tracks(songs);
    let ghost raw = tracks@;
    let ghost all = track_views(tracks@);
    let mut out: Vec<ProviderTrack> = Vec::new();
    assert(track_views(out@) =~= without_id(all.take(0), seed_id@));
    for t in it: tracks
        invariant
            it.seq() == raw,
            all == track_views(raw),
            track_views(out@) == without_id(all.take(it.index()), seed_id@),
    {
        let ghost n = it.index();
        proof {
            assert(all.take(n + 1).drop_last() =~= all.take(n));
            assert(all.take(n + 1).last() == t@);
        }
        if !same_text(&t.id, seed_id) {
            let ghost was = out@;
            let ghost shown = t@;
            out.push(t);
            assert(track_views(out@) =~= track_views(was).push(shown));
        }
    }
    assert(all.take(all.len() as int) =~= all);
    assert(track_views(out@).len() == out@.len());
    if out.len() > 0 {
        Some(out)
    } else {
        None
    }
}

/// What comes next when tracks that go with a seed track are looked for.
#[derive(Debug, PartialEq, Eq)]
pub enum RecommendStep {
    /// Ask Apple this, and go on with what it answers.
    Ask(AppleRequest),
    /// These are the tracks.
    Tracks(Vec<ProviderTrack>),
    /// The default queue takes their place.
    Queue,
}

/// Whether a step is to send a request, or to take the default queue where there is none.
pub open spec fn asks_or_queues(
    step: RecommendStep,
    request: Result<apple_music::RequestView, Seq<char>>,
) -> bool {
    match request {
        Ok(_) => step matches RecommendStep::Ask(q) && apple_music::request_view(Ok(q)) == request,
        Err(_) => step is Queue,
    }
}

fn ask_or_queue(request: Result<AppleRequest, String>) -> (r: RecommendStep)
    ensures
        asks_or_queues(r, apple_music::request_view(request)),
{
    match request {
        Ok(q) => RecommendStep::Ask(q),
        Err(_) => RecommendStep::Queue,
    }
}

/// Ends the search for tracks that go with a seed track, with its artist's songs, if they were
/// found.
pub fn recommended(songs: Result<Vec<AppleSong>, String>, seed_id: &str) -> (r: RecommendStep)
    ensures
        ({
            let related = match songs {
                Ok(found) => without_id(
                    found@.map_values(|s: AppleSong| song_track(s)),
                    seed_id@,
                ),
                Err(_) => Seq::empty(),
            };
            if related.len() > 0 {
                r matches RecommendStep::Tracks(tracks) && track_views(tracks@) == related
            } else {
                r is Queue
            }
        }),
{
    match songs {
        Ok(found) => match related_tracks(found, seed_id) {
            Some(tracks) => RecommendStep::Tracks(tracks),
            None => RecommendStep::Queue,
        },
        Err(_) => RecommendStep::Queue,
    }
}

/// The seed is never among the tracks that go with it.
pub proof fn law_seed_is_not_related(tracks: Seq<TrackView>, id: Seq<char>)
    ensures
        forall|i: int| 0 <= i < without_id(tracks, id).len() ==> (#[trigger] without_id(tracks, id)[i]).id != id,
    decreases tracks.len(),
{
    if tracks.len() > 0 {
        let before = without_id(tracks.drop_last(), id);
        let all = without_id(tracks, id);
        law_seed_is_not_related(tracks.drop_last(), id);
        assert forall|i: int| 0 <= i < all.len() implies (#[trigger] all[i]).id != id by {
            if i < before.len() {
                assert(all[i] == before[i]);
            }
        }
    }
}

// ---- Genres ----

/// The id of Apple's genre for a name in lower case.
pub open spec fn genre_id(name: Seq<char>) -> Option<Seq<char>> {
    if name == "pop"@ {
        Some("14"@)
    } else if name == "hiphop"@ || name == "hip-hop"@ || name == "rap"@ {
        Some("18"@)
    } else if name == "rock"@ {
        Some("21"@)
    } else if name == "jazz"@ {
        Some("11"@)
    } else if name == "classical"@ {
        Some("5"@)
    } else if name == "dance"@ || name == "electronic"@ {
        Some("17"@)
    } else if name == "country"@ {
        Some("6"@)
    } else {
        None
    }
}

/// The id of Apple's genre for a name in lower case.
pub fn lower_genre_id(name: &str) -> (r: Option<&'static str>)
    ensures
        r is Some <==> genre_id(name@) is Some,
        r matches Some(id) ==> genre_id(name@) == Some(id@),
{
    if same_text(name, "pop") {
        Some("14")
    } else if same_text(name, "hiphop") || same_text(name, "hip-hop") || same_text(name, "rap") {
        Some("18")
    } else if same_text(name, "rock") {
        Some("21")
    } else if same_text(name, "jazz") {
        Some("11")
    } else if same_text(name, "classical") {
        Some("5")
    } else if same_text(name, "dance") || same_text(name, "electronic") {
        Some("17")
    } else if same_text(name, "country") {
        Some("6")
    } else {
        None
    }
}

/// The id of Apple's genre for a name, in whatever case.
pub fn apple_genre_id(name: &str) -> (r: Option<&'static str>)
    ensures
        r is Some <==> genre_id(chars::lowercase(chars::trimmed(name@))) is Some,
        r matches Some(id) ==> genre_id(chars::lowercase(chars::trimmed(name@))) == Some(id@),
{
    lower_genre_id(&to_lower(&trim(name)))
}

// ---- The provider ----

/// The base of the streams that this server serves.
pub const STREAM_BASE: &'static str = "http://127.0.0.1:8080/tidal-shim/stream";

/// The scheme of the tracks that the device plays by itself.
pub const APPLE_SENTINEL: &'static str = "penumbra-apple://";

/// The file beside the configuration in which the device finds Apple's tokens.
pub const APPLE_DEVICE_TOKENS_FILE: &'static str = "apple_tokens.json";

pub const APPLE_NOT_SET: &'static str =
    "set [apple_music] p8_private_key + key_id + team_id (or a developer_token)";

pub const SPOTIFY_NOT_SET: &'static str = "set [spotify] client_id and client_secret";

pub const MOPIDY_NOT_SET: &'static str = "set [mopidy] url + stream_url";

pub const LIBRARY_NEEDS_ACCOUNT: &'static str =
    "personalized library requires a signed-in account";

pub const NO_TRACK_BY_ID: &'static str = "track-by-id not supported for this provider";

/// The active music backend.
#[derive(Debug, PartialEq, Eq)]
pub enum MusicProvider {
    Apple(AppleMusicClient),
    Spotify(SpotifyClient),
    Youtube(YoutubeClient),
    Mopidy(MopidyClient),
    /// The selected provider lacks credentials, for this reason.
    Unconfigured { kind: MusicProviderKind, reason: String },
}

pub open spec fn kind_text(kind: MusicProviderKind) -> Seq<char> {
    match kind {
        MusicProviderKind::Apple => "apple"@,
        MusicProviderKind::Spotify => "spotify"@,
        MusicProviderKind::Youtube => "youtube"@,
        MusicProviderKind::Mopidy => "mopidy"@,
    }
}

pub fn kind_name(kind: MusicProviderKind) -> (r: &'static str)
    ensures
        r@ == kind_text(kind),
{
    match kind {
        MusicProviderKind::Apple => "apple",
        MusicProviderKind::Spotify => "spotify",
        MusicProviderKind::Youtube => "youtube",
        MusicProviderKind::Mopidy => "mopidy",
    }
}

/// Which provider was selected.
pub open spec fn provider_kind(p: MusicProvider) -> MusicProviderKind {
    match p {
        MusicProvider::Apple(_) => MusicProviderKind::Apple,
        MusicProvider::Spotify(_) => MusicProviderKind::Spotify,
        MusicProvider::Youtube(_) => MusicProviderKind::Youtube,
        MusicProvider::Mopidy(_) => MusicProviderKind::Mopidy,
        MusicProvider::Unconfigured { kind, .. } => kind,
    }
}

/// Whether a setting is there and not blank.
pub open spec fn is_set(o: Option<String>) -> bool {
    o is Some && chars::trimmed(o->0@).len() > 0
}

fn is_given(o: &Option<String>) -> (r: bool)
    ensures
        r == is_set(*o),
{
    match o {
        Some(t) => !is_blank(t),
        None => false,
    }
}

/// The provider that a configuration selects, given Apple's developer token, if there is
/// one.
pub open spec fn is_configured(p: MusicProvider, c: Config, developer_token: Option<String>) -> bool {
    match c.music.provider {
        MusicProviderKind::Apple => match developer_token {
            Some(token) => p == MusicProvider::Apple(
                AppleMusicClient {
                    developer_token: token,
                    storefront: c.apple_music.storefront,
                    user_token: match c.apple_music.user_token {
                        Some(t) if t@.len() > 0 => Some(t),
                        _ => None,
                    },
                },
            ),
            None => is_unconfigured(p, MusicProviderKind::Apple, APPLE_NOT_SET@),
        },
        MusicProviderKind::Spotify => if is_set(c.spotify.client_id) && is_set(
            c.spotify.client_secret,
        ) {
            p == MusicProvider::Spotify(
                SpotifyClient {
                    client_id: c.spotify.client_id->0,
                    client_secret: c.spotify.client_secret->0,
                    market: c.spotify.market,
                    refresh_token: spotify::unless_blank(c.spotify.refresh_token),
                    streaming_token: spotify::unless_blank(c.spotify.streaming_token),
                },
            )
        } else {
            is_unconfigured(p, MusicProviderKind::Spotify, SPOTIFY_NOT_SET@)
        },
        MusicProviderKind::Youtube => p == MusicProvider::Youtube(
            YoutubeClient { cookies_path: c.youtube.cookies_path },
        ),
        MusicProviderKind::Mopidy => if is_set(c.mopidy.url) && is_set(c.mopidy.stream_url) {
            &&& p is Mopidy
            &&& p->Mopidy_0.rpc_url@ == mopidy::without_slashes(c.mopidy.url->0@) + "/mopidy/rpc"@
            &&& p->Mopidy_0.stream_url == c.mopidy.stream_url->0
        } else {
            is_unconfigured(p, MusicProviderKind::Mopidy, MOPIDY_NOT_SET@)
        },
    }
}

pub open spec fn is_unconfigured(p: MusicProvider, kind: MusicProviderKind, reason: Seq<char>) -> bool {
    p matches MusicProvider::Unconfigured { kind: k, reason: r } && k == kind && r@ == reason
}

/// A request to the active backend.
#[derive(Debug, PartialEq, Eq)]
pub enum ProviderRequest {
    Apple(AppleRequest),
    /// The URL of a GET request.
    Spotify(String),
    /// The body of a search.
    Youtube(String),
    /// The body of a call.
    Mopidy(String),
}

pub ghost enum AskView {
    Apple(apple_music::RequestView),
    Spotify(Seq<char>),
    Youtube(Seq<char>),
    Mopidy(Seq<char>),
}

/// The views of a request, or of why there is none.
pub open spec fn ask_view(r: Result<ProviderRequest, String>) -> Result<AskView, Seq<char>> {
    match r {
        Ok(ProviderRequest::Apple(q)) => Ok(
            AskView::Apple(
                apple_music::RequestView {
                    url: q.url@,
                    bearer: q.bearer@,
                    user_token: chars::opt_text(q.user_token),
                },
            ),
        ),
        Ok(ProviderRequest::Spotify(url)) => Ok(AskView::Spotify(url@)),
        Ok(ProviderRequest::Youtube(body)) => Ok(AskView::Youtube(body@)),
        Ok(ProviderRequest::Mopidy(body)) => Ok(AskView::Mopidy(body@)),
        Err(e) => Err(e@),
    }
}

pub open spec fn ask_apple(r: Result<apple_music::RequestView, Seq<char>>) -> Result<
    AskView,
    Seq<char>,
> {
    match r {
        Ok(q) => Ok(AskView::Apple(q)),
        Err(e) => Err(e),
    }
}

pub open spec fn ask_spotify(r: Result<Seq<char>, Seq<char>>) -> Result<AskView, Seq<char>> {
    match r {
        Ok(url) => Ok(AskView::Spotify(url)),
        Err(e) => Err(e),
    }
}

pub open spec fn ask_mopidy(r: Result<Seq<char>, Seq<char>>) -> Result<AskView, Seq<char>> {
    match r {
        Ok(body) => Ok(AskView::Mopidy(body)),
        Err(e) => Err(e),
    }
}

fn to_apple(r: Result<AppleRequest, String>) -> (q: Result<ProviderRequest, String>)
    ensures
        ask_view(q) == ask_apple(apple_music::request_view(r)),
{
    match r {
        Ok(q) => Ok(ProviderRequest::Apple(q)),
        Err(e) => Err(e),
    }
}

fn to_spotify(r: Result<String, String>) -> (q: Result<ProviderRequest, String>)
    ensures
        ask_view(q) == ask_spotify(weburl::text_result(r)),
{
    match r {
        Ok(url) => Ok(ProviderRequest::Spotify(url)),
        Err(e) => Err(e),
    }
}

fn to_mopidy(r: Result<String, String>) -> (q: Result<ProviderRequest, String>)
    ensures
        ask_view(q) == ask_mopidy(weburl::text_result(r)),
{
    match r {
        Ok(body) => Ok(ProviderRequest::Mopidy(body)),
        Err(e) => Err(e),
    }
}

/// A search for songs with the active backend.
pub open spec fn search_ask(p: MusicProvider, term: Seq<char>, limit: u32) -> Result<
    AskView,
    Seq<char>,
> {
    match p {
        MusicProvider::Apple(c) => ask_apple(
            apple_music::catalog_get(
                c,
                "/search"@,
                seq![
                    ("term"@, term),
                    ("types"@, "songs"@),
                    ("limit"@, apple_music::limit_text(limit, 25)),
                ],
            ),
        ),
        MusicProvider::Spotify(c) => ask_spotify(
            spotify::search_url(
                weburl::query_url(
                    spotify::API_BASE@ + "/search"@,
                    spotify::search_query(
                        term,
                        c.market@,
                        if limit == 0 {
                            1
                        } else {
                            limit
                        },
                    ),
                ),
            ),
        ),
        MusicProvider::Youtube(_) => Ok(
            AskView::Youtube(json::json_text(youtube::search_body(term))),
        ),
        MusicProvider::Mopidy(_) => Ok(AskView::Mopidy(mopidy_search(term))),
        MusicProvider::Unconfigured { reason, .. } => Err(reason@),
    }
}

pub open spec fn mopidy_search(term: Seq<char>) -> Seq<char> {
    mopidy::call_text(
        "core.library.search"@,
        mopidy::one_member("query"@, mopidy::one_member("any"@, mopidy::one_string(term))),
    )
}

pub open spec fn mopidy_lists() -> Seq<char> {
    mopidy::call_text("core.playlists.as_list"@, mopidy::no_params())
}

/// A request for Mopidy's playlist of this id.
pub open spec fn mopidy_playlist(id: Seq<char>) -> Result<Seq<char>, Seq<char>> {
    match mopidy::id_uri(id) {
        Some(uri) => Ok(
            mopidy::call_text(
                "core.playlists.lookup"@,
                mopidy::one_member("uri"@, json::JsonView::Str(uri)),
            ),
        ),
        None => Err(mopidy::BAD_PLAYLIST_ID@),
    }
}

/// A request for Mopidy's track of this id.
pub open spec fn mopidy_track(id: Seq<char>) -> Result<Seq<char>, Seq<char>> {
    match mopidy::id_uri(id) {
        Some(uri) => Ok(
            mopidy::call_text(
                "core.library.lookup"@,
                mopidy::one_member("uris"@, mopidy::one_string(uri)),
            ),
        ),
        None => Err(mopidy::BAD_TRACK_ID@),
    }
}

/// What the player loads for a track.
pub open spec fn playback_address(p: MusicProvider, id: Seq<char>) -> Seq<char> {
    match p {
        MusicProvider::Apple(_) => APPLE_SENTINEL@ + id,
        MusicProvider::Spotify(_) => STREAM_BASE@ + "/spotify/"@ + id,
        MusicProvider::Youtube(_) => STREAM_BASE@ + "/youtube/"@ + id,
        MusicProvider::Mopidy(c) => c.stream_url@,
        MusicProvider::Unconfigured { .. } => APPLE_SENTINEL@ + id,
    }
}

/// How an entity comes about.
#[derive(Debug, PartialEq, Eq)]
pub enum EntityStep {
    /// It is here.
    Ready(ProviderEntity),
    /// Apple's catalog is asked for it.
    Ask(AppleRequest),
}

/// How the search for an entity goes on.
pub open spec fn is_entity_step(
    p: MusicProvider,
    kind: EntityKind,
    term: Seq<char>,
    r: Result<EntityStep, String>,
) -> bool {
    match p {
        MusicProvider::Apple(c) => match apple_music::catalog_get(
            c,
            "/search"@,
            seq![
                ("term"@, term),
                ("types"@, apple_music::kind_text(kind)),
                ("limit"@, "1"@),
            ],
        ) {
            Ok(q) => r is Ok && r->Ok_0 is Ask && apple_music::request_view(
                Ok(r->Ok_0->Ask_0),
            ) == Ok::<apple_music::RequestView, Seq<char>>(q),
            Err(e) => r is Err && r->Err_0@ == e,
        },
        MusicProvider::Unconfigured { reason, .. } => r is Err && r->Err_0 == reason,
        _ => r is Ok && r->Ok_0 is Ready && r->Ok_0->Ready_0@ == synthetic(term),
    }
}

impl MusicProvider {
    /// The provider that a configuration selects, given Apple's developer token, if one is
    /// set or could be minted.
    pub fn from_config(config: &Config, developer_token: Option<String>) -> (r: Self)
        ensures
            is_configured(r, *config, developer_token),
            provider_kind(r) == config.music.provider,
    {
        match config.music.provider {
            MusicProviderKind::Apple => match developer_token {
                Some(token) => MusicProvider::Apple(
                    AppleMusicClient::new(
                        token,
                        config.apple_music.storefront.clone(),
                    ).with_user_token(clone_opt(&config.apple_music.user_token)),
                ),
                None => MusicProvider::Unconfigured {
                    kind: MusicProviderKind::Apple,
                    reason: String::from_str(APPLE_NOT_SET),
                },
            },
            MusicProviderKind::Spotify => {
                if is_given(&config.spotify.client_id) && is_given(&config.spotify.client_secret) {
                    if let (Some(id), Some(secret)) = (
                        &config.spotify.client_id,
                        &config.spotify.client_secret,
                    ) {
                        let client = SpotifyClient::new(
                            id.clone(),
                            secret.clone(),
                            config.spotify.market.clone(),
                        );
                        let client = client.with_refresh_token(
                            clone_opt(&config.spotify.refresh_token),
                        );
                        return MusicProvider::Spotify(
                            client.with_streaming_token(
                                clone_opt(&config.spotify.streaming_token),
                            ),
                        );
                    }
                }
                MusicProvider::Unconfigured {
                    kind: MusicProviderKind::Spotify,
                    reason: String::from_str(SPOTIFY_NOT_SET),
                }
            },
            MusicProviderKind::Youtube => MusicProvider::Youtube(
                YoutubeClient::new(clone_opt(&config.youtube.cookies_path)),
            ),
            MusicProviderKind::Mopidy => {
                if is_given(&config.mopidy.url) && is_given(&config.mopidy.stream_url) {
                    if let (Some(url), Some(stream)) = (
                        &config.mopidy.url,
                        &config.mopidy.stream_url,
                    ) {
                        return MusicProvider::Mopidy(MopidyClient::new(url, stream.clone()));
                    }
                }
                MusicProvider::Unconfigured {
                    kind: MusicProviderKind::Mopidy,
                    reason: String::from_str(MOPIDY_NOT_SET),
                }
            },
        }
    }

    /// What the provider is called.
    pub fn name(&self) -> (r: &'static str)
        ensures
            r@ == kind_text(provider_kind(*self)),
    {
        match self {
            MusicProvider::Apple(_) => "apple",
            MusicProvider::Spotify(_) => "spotify",
            MusicProvider::Youtube(_) => "youtube",
            MusicProvider::Mopidy(_) => "mopidy",
            MusicProvider::Unconfigured { kind, .. } => kind_name(*kind),
        }
    }

    /// Searches for songs.
    pub fn search_songs(&self, term: &str, limit: u32) -> (r: Result<ProviderRequest, String>)
        ensures
            ask_view(r) == search_ask(*self, term@, limit),
    {
        match self {
            MusicProvider::Apple(c) => to_apple(c.search_songs(term, limit)),
            MusicProvider::Spotify(c) => to_spotify(c.search_songs(term, limit)),
            MusicProvider::Youtube(c) => Ok(ProviderRequest::Youtube(c.search(term))),
            MusicProvider::Mopidy(c) => Ok(ProviderRequest::Mopidy(c.search_songs(term))),
            MusicProvider::Unconfigured { reason, .. } => Err(reason.clone()),
        }
    }

    /// Searches for the top track.
    pub fn search_top(&self, term: &str) -> (r: Result<ProviderRequest, String>)
        ensures
            ask_view(r) == search_ask(*self, term@, 1),
    {
        self.search_songs(term, 1)
    }

    /// Asks for the default queue. Of Mopidy, its playlists are asked for first.
    pub fn queue(&self, limit: u32) -> (r: Result<ProviderRequest, String>)
        ensures
            ask_view(r) == match *self {
                MusicProvider::Apple(c) => ask_apple(
                    apple_music::catalog_get(
                        c,
                        "/charts"@,
                        seq![("types"@, "songs"@), ("limit"@, number::nat_text(limit as nat))],
                    ),
                ),
                MusicProvider::Spotify(c) => ask_spotify(
                    spotify::search_url(
                        weburl::query_url(
                            spotify::API_BASE@ + "/search"@,
                            spotify::search_query(spotify::QUEUE_SEARCH@, c.market@, limit),
                        ),
                    ),
                ),
                MusicProvider::Youtube(_) => Ok(
                    AskView::Youtube(json::json_text(youtube::search_body(youtube::QUEUE_QUERY@))),
                ),
                MusicProvider::Mopidy(_) => Ok(AskView::Mopidy(mopidy_lists())),
                MusicProvider::Unconfigured { reason, .. } => Err(reason@),
            },
    {
        match self {
            MusicProvider::Apple(c) => to_apple(c.chart_songs(limit)),
            MusicProvider::Spotify(c) => to_spotify(c.queue(limit)),
            MusicProvider::Youtube(c) => Ok(ProviderRequest::Youtube(c.queue())),
            MusicProvider::Mopidy(c) => Ok(ProviderRequest::Mopidy(c.playlists())),
            MusicProvider::Unconfigured { reason, .. } => Err(reason.clone()),
        }
    }

    /// Starts to look for the tracks that go with a seed track: asks Apple for the seed, to go
    /// on with [`MusicProvider::recommendations_of`]. Other providers go on with the default
    /// queue.
    pub fn recommendations(&self, seed_id: &str) -> (r: RecommendStep)
        ensures
            match *self {
                MusicProvider::Apple(c) => asks_or_queues(
                    r,
                    apple_music::catalog_get(c, "/songs/"@ + seed_id@, Seq::empty()),
                ),
                _ => r is Queue,
            },
    {
        match self {
            MusicProvider::Apple(c) => ask_or_queue(c.song(seed_id)),
            _ => RecommendStep::Queue,
        }
    }

    /// Goes on from the seed track, if it was found: asks for its artist's songs, to go on with
    /// [`recommended`].
    pub fn recommendations_of(&self, seed: Result<AppleSong, String>, limit: u32) -> (r:
        RecommendStep)
        ensures
            match (*self, seed) {
                (MusicProvider::Apple(c), Ok(song)) => asks_or_queues(
                    r,
                    apple_music::catalog_get(
                        c,
                        "/search"@,
                        seq![
                            ("term"@, song.artist@),
                            ("types"@, "songs"@),
                            ("limit"@, apple_music::limit_text(limit, 25)),
                        ],
                    ),
                ),
                _ => r is Queue,
            },
    {
        match (self, seed) {
            (MusicProvider::Apple(c), Ok(song)) => ask_or_queue(
                c.search_songs(&song.artist, limit),
            ),
            _ => RecommendStep::Queue,
        }
    }

    /// Whether the user's own library can be asked for.
    pub fn has_user_library(&self) -> (r: bool)
        ensures
            r == match *self {
                MusicProvider::Apple(c) => c.user_token is Some,
                MusicProvider::Spotify(c) => c.refresh_token is Some,
                MusicProvider::Mopidy(_) => true,
                _ => false,
            },
    {
        match self {
            MusicProvider::Apple(c) => c.has_user_token(),
            MusicProvider::Spotify(c) => c.has_user_auth(),
            MusicProvider::Mopidy(_) => true,
            _ => false,
        }
    }

    /// Asks for the user's favorite songs. Mopidy has none: its default queue stands for
    /// them.
    pub fn my_favorites(&self, limit: u32) -> (r: Result<ProviderRequest, String>)
        ensures
            ask_view(r) == match *self {
                MusicProvider::Apple(c) => ask_apple(
                    apple_music::me_get(
                        c,
                        "/library/songs"@,
                        seq![("limit"@, apple_music::limit_text(limit, 100))],
                    ),
                ),
                MusicProvider::Spotify(_) => Ok(
                    AskView::Spotify(spotify::API_BASE@ + "/me/tracks"@ + spotify::PAGE_QUERY@),
                ),
                MusicProvider::Mopidy(_) => Ok(AskView::Mopidy(mopidy_lists())),
                _ => Err(LIBRARY_NEEDS_ACCOUNT@),
            },
    {
        match self {
            MusicProvider::Apple(c) => to_apple(c.library_songs(limit)),
            MusicProvider::Spotify(c) => Ok(ProviderRequest::Spotify(c.library_tracks())),
            MusicProvider::Mopidy(c) => Ok(ProviderRequest::Mopidy(c.playlists())),
            _ => Err(String::from_str(LIBRARY_NEEDS_ACCOUNT)),
        }
    }

    /// Asks for the user's playlists.
    pub fn my_playlists(&self, limit: u32) -> (r: Result<ProviderRequest, String>)
        ensures
            ask_view(r) == match *self {
                MusicProvider::Apple(c) => ask_apple(
                    apple_music::me_get(
                        c,
                        "/library/playlists"@,
                        seq![("limit"@, apple_music::limit_text(limit, 100))],
                    ),
                ),
                MusicProvider::Spotify(_) => Ok(
                    AskView::Spotify(spotify::API_BASE@ + "/me/playlists"@ + spotify::PAGE_QUERY@),
                ),
                MusicProvider::Mopidy(_) => Ok(AskView::Mopidy(mopidy_lists())),
                _ => Err(LIBRARY_NEEDS_ACCOUNT@),
            },
    {
        match self {
            MusicProvider::Apple(c) => to_apple(c.library_playlists(limit)),
            MusicProvider::Spotify(c) => Ok(ProviderRequest::Spotify(c.library_playlists())),
            MusicProvider::Mopidy(c) => Ok(ProviderRequest::Mopidy(c.playlists())),
            _ => Err(String::from_str(LIBRARY_NEEDS_ACCOUNT)),
        }
    }

    /// Asks for the tracks of one of the user's playlists.
    pub fn my_playlist_tracks(&self, id: &str, limit: u32) -> (r: Result<ProviderRequest, String>)
        ensures
            ask_view(r) == match *self {
                MusicProvider::Apple(c) => ask_apple(
                    apple_music::me_get(
                        c,
                        "/library/playlists/"@ + id@ + "/tracks"@,
                        seq![("limit"@, apple_music::limit_text(limit, 100))],
                    ),
                ),
                MusicProvider::Spotify(_) => Ok(
                    AskView::Spotify(
                        spotify::API_BASE@ + "/playlists/"@ + id@ + ("/tracks"@
                            + spotify::PAGE_QUERY@),
                    ),
                ),
                MusicProvider::Mopidy(_) => ask_mopidy(mopidy_playlist(id@)),
                _ => Err(LIBRARY_NEEDS_ACCOUNT@),
            },
    {
        match self {
            MusicProvider::Apple(c) => to_apple(c.library_playlist_tracks(id, limit)),
            MusicProvider::Spotify(c) => Ok(
                ProviderRequest::Spotify(c.library_playlist_tracks(id)),
            ),
            MusicProvider::Mopidy(c) => to_mopidy(c.playlist_tracks(id)),
            _ => Err(String::from_str(LIBRARY_NEEDS_ACCOUNT)),
        }
    }

    /// What the player loads for a track: an address for the device's own player, or a
    /// stream of this server's.
    pub fn playback_url(&self, id: &str) -> (r: String)
        ensures
            r@ == playback_address(*self, id@),
    {
        match self {
            MusicProvider::Apple(_) => text2(APPLE_SENTINEL, id),
            MusicProvider::Spotify(_) => text3(STREAM_BASE, "/spotify/", id),
            MusicProvider::Youtube(_) => text3(STREAM_BASE, "/youtube/", id),
            MusicProvider::Mopidy(c) => String::from_str(c.stream_url()),
            MusicProvider::Unconfigured { .. } => text2(APPLE_SENTINEL, id),
        }
    }

    /// The calls to make before the player loads a track: Mopidy's player is pointed at it.
    /// Others need none.
    pub fn prepare_playback(&self, id: &str) -> (r: Result<Vec<String>, String>)
        ensures
            match *self {
                MusicProvider::Mopidy(_) => match mopidy::id_uri(id@) {
                    Some(uri) => r is Ok && chars::texts(r->Ok_0@) == seq![
                        mopidy::call_text("core.tracklist.clear"@, mopidy::no_params()),
                        mopidy::call_text(
                            "core.tracklist.add"@,
                            mopidy::one_member("uris"@, mopidy::one_string(uri)),
                        ),
                        mopidy::call_text("core.playback.play"@, mopidy::no_params()),
                    ],
                    None => r is Err && r->Err_0@ == mopidy::BAD_TRACK_ID@,
                },
                _ => r is Ok && r->Ok_0@.len() == 0,
            },
    {
        match self {
            MusicProvider::Mopidy(c) => c.play_track(id),
            _ => Ok(Vec::new()),
        }
    }

    fn entity(&self, kind: EntityKind, term: &str) -> (r: Result<EntityStep, String>)
        ensures
            is_entity_step(*self, kind, term@, r),
    {
        match self {
            MusicProvider::Apple(c) => match c.search_entity(kind, term) {
                Ok(q) => Ok(EntityStep::Ask(q)),
                Err(e) => Err(e),
            },
            MusicProvider::Unconfigured { reason, .. } => Err(reason.clone()),
            _ => Ok(EntityStep::Ready(search_synthetic(term))),
        }
    }

    /// Looks for an artist. Apple's reply is read by [`apple_entity`] with
    /// [`ARTIST_TRACKS`].
    pub fn search_artist(&self, term: &str) -> (r: Result<EntityStep, String>)
        ensures
            is_entity_step(*self, EntityKind::Artists, term@, r),
    {
        self.entity(EntityKind::Artists, term)
    }

    /// Looks for an album. Apple's reply is read by [`apple_entity`] with [`ALBUM_TRACKS`].
    pub fn search_album(&self, term: &str) -> (r: Result<EntityStep, String>)
        ensures
            is_entity_step(*self, EntityKind::Albums, term@, r),
    {
        self.entity(EntityKind::Albums, term)
    }

    /// Looks for a playlist. Apple's reply is read by [`apple_entity`] with
    /// [`PLAYLIST_TRACKS`].
    pub fn search_playlist(&self, term: &str) -> (r: Result<EntityStep, String>)
        ensures
            is_entity_step(*self, EntityKind::Playlists, term@, r),
    {
        self.entity(EntityKind::Playlists, term)
    }

    /// Asks for an artist's top tracks.
    pub fn artist_tracks(&self, id: &str, limit: u32) -> (r: Result<ProviderRequest, String>)
        ensures
            ask_view(r) == match *self {
                MusicProvider::Apple(c) => ask_apple(
                    apple_music::catalog_get(
                        c,
                        "/artists/"@ + id@ + "/view/top-songs"@,
                        seq![("limit"@, number::nat_text(limit as nat))],
                    ),
                ),
                _ => search_ask(*self, term_or_id(id@), limit),
            },
    {
        match self {
            MusicProvider::Apple(c) => to_apple(c.artist_top_songs(id, limit)),
            _ => self.search_songs(&decoded(id), limit),
        }
    }

    /// Asks for an album's tracks.
    pub fn album_tracks(&self, id: &str, limit: u32) -> (r: Result<ProviderRequest, String>)
        ensures
            ask_view(r) == match *self {
                MusicProvider::Apple(c) => ask_apple(
                    apple_music::catalog_get(
                        c,
                        "/albums/"@ + id@ + "/tracks"@,
                        seq![("limit"@, number::nat_text(limit as nat))],
                    ),
                ),
                _ => search_ask(*self, term_or_id(id@), limit),
            },
    {
        match self {
            MusicProvider::Apple(c) => to_apple(c.album_tracks(id, limit)),
            _ => self.search_songs(&decoded(id), limit),
        }
    }

    /// Asks for a playlist's tracks.
    pub fn playlist_tracks(&self, id: &str, limit: u32) -> (r: Result<ProviderRequest, String>)
        ensures
            ask_view(r) == match *self {
                MusicProvider::Apple(c) => ask_apple(
                    apple_music::catalog_get(
                        c,
                        "/playlists/"@ + id@ + "/tracks"@,
                        seq![("limit"@, number::nat_text(limit as nat))],
                    ),
                ),
                _ => search_ask(*self, term_or_id(id@), limit),
            },
    {
        match self {
            MusicProvider::Apple(c) => to_apple(c.playlist_tracks(id, limit)),
            _ => self.search_songs(&decoded(id), limit),
        }
    }

    /// Asks for the songs of a genre: Apple has charts for some.
    pub fn genre_tracks(&self, genre: &str, limit: u32) -> (r: Result<ProviderRequest, String>)
        ensures
            ask_view(r) == genre_ask(
                *self,
                genre@,
                genre_id(chars::lowercase(chars::trimmed(genre@))),
                limit,
            ),
    {
        self.genre_tracks_of(genre, apple_genre_id(genre), limit)
    }

    /// Asks for the songs of a genre, given the id of Apple's chart for it, if there is one.
    pub fn genre_tracks_of(&self, genre: &str, chart: Option<&'static str>, limit: u32) -> (r: Result<
        ProviderRequest,
        String,
    >)
        ensures
            ask_view(r) == genre_ask(
                *self,
                genre@,
                match chart {
                    Some(id) => Some(id@),
                    None => None,
                },
                limit,
            ),
    {
        match self {
            MusicProvider::Apple(c) => match chart {
                Some(id) => to_apple(c.genre_chart_songs(id, limit)),
                None => self.search_songs(genre, limit),
            },
            _ => self.search_songs(genre, limit),
        }
    }

    /// Looks for an artist whose newest album is wanted: only Apple's catalog knows it.
    pub fn latest_album(&self, artist: &str) -> (r: Option<Result<AppleRequest, String>>)
        ensures
            r is Some <==> *self is Apple,
            *self matches MusicProvider::Apple(c) ==> apple_music::request_view(r->0)
                == apple_music::catalog_get(
                c,
                "/search"@,
                seq![("term"@, artist@), ("types"@, "artists"@), ("limit"@, "1"@)],
            ),
    {
        match self {
            MusicProvider::Apple(c) => Some(c.search_entity(EntityKind::Artists, artist)),
            _ => None,
        }
    }

    /// Asks for the albums of the artist that was found, if one was.
    pub fn latest_album_of(&self, found: &Option<AppleEntity>) -> (r: Option<
        Result<AppleRequest, String>,
    >)
        ensures
            r is Some <==> *self is Apple && *found is Some,
            *self matches MusicProvider::Apple(c) ==> *found is Some ==> apple_music::request_view(
                r->0,
            ) == apple_music::catalog_get(
                c,
                "/artists/"@ + found->0.id@ + "/albums"@,
                seq![("limit"@, "25"@)],
            ),
    {
        match (self, found) {
            (MusicProvider::Apple(c), Some(a)) => Some(c.artist_latest_album(&a.id)),
            _ => None,
        }
    }

    /// Asks for a track by its id.
    pub fn track(&self, id: &str) -> (r: Result<ProviderRequest, String>)
        ensures
            ask_view(r) == match *self {
                MusicProvider::Apple(c) => ask_apple(
                    apple_music::catalog_get(c, "/songs/"@ + id@, Seq::empty()),
                ),
                MusicProvider::Mopidy(_) => ask_mopidy(mopidy_track(id@)),
                _ => Err(NO_TRACK_BY_ID@),
            },
    {
        match self {
            MusicProvider::Apple(c) => to_apple(c.song(id)),
            MusicProvider::Mopidy(c) => match c.track(id) {
                Ok((call, _uri)) => Ok(ProviderRequest::Mopidy(call)),
                Err(e) => Err(e),
            },
            _ => Err(String::from_str(NO_TRACK_BY_ID)),
        }
    }
}

/// How the songs of a genre are asked for, given the id of Apple's chart for it.
pub open spec fn genre_ask(p: MusicProvider, genre: Seq<char>, chart: Option<Seq<char>>, limit: u32) -> Result<
    AskView,
    Seq<char>,
> {
    match p {
        MusicProvider::Apple(c) => match chart {
            Some(id) => ask_apple(
                apple_music::catalog_get(
                    c,
                    "/charts"@,
                    seq![
                        ("types"@, "songs"@),
                        ("genre"@, id),
                        ("limit"@, apple_music::limit_text(limit, 25)),
                    ],
                ),
            ),
            None => search_ask(p, genre, limit),
        },
        _ => search_ask(p, genre, limit),
    }
}

/// An entity that stands for a search leads to that search, whatever is asked of it.
pub proof fn law_synthetic_entity_leads_back(
    p: MusicProvider,
    id: Seq<char>,
    term: Seq<char>,
    limit: u32,
)
    requires
        !(p is Apple),
        search_term(id) == Some(term),
    ensures
        search_ask(p, term_or_id(id), limit) == search_ask(p, term, limit),
{
}

/// The device asks for the tracks of an entity only if it is told that there are some. It is
/// told so of each: of Apple's, of those that stand for a search, and of Spotify's playlists.
pub proof fn law_entities_have_tracks(
    count: Option<u32>,
    default: u32,
    term: Seq<char>,
    playlist: spotify::PlaylistObject,
)
    ensures
        told_count(count, default) >= 1,
        synthetic(term).track_count >= 1,
        spotify::playlist_entity(playlist).track_count >= 1,
{
}

// ---- Tokens for the device ----

pub open spec fn token_view(o: Option<String>) -> json::JsonView {
    match o {
        Some(t) => json::JsonView::Str(t@),
        None => json::JsonView::Null,
    }
}

/// What the device finds in [`APPLE_DEVICE_TOKENS_FILE`].
pub open spec fn tokens_view(developer: Option<String>, user: Option<String>) -> json::JsonView {
    json::JsonView::Object(
        seq![("developer_token"@, token_view(developer)), ("user_token"@, token_view(user))],
    )
}

fn token_json(o: &Option<String>) -> (r: Json)
    ensures
        r@ == token_view(*o),
        json::writable(r@),
{
    match o {
        Some(t) => json::text(t),
        None => Json::Null,
    }
}

/// What the device finds in [`APPLE_DEVICE_TOKENS_FILE`], given the developer token, if one is
/// set or could be minted.
pub fn write_device_tokens(config: &Config, developer_token: Option<String>) -> (r: String)
    ensures
        r@ == json::json_text(tokens_view(developer_token, config.apple_music.user_token)),
{
    let mut members: Vec<(String, Json)> = Vec::new();
    members.push(field("developer_token", token_json(&developer_token)));
    members.push(field("user_token", token_json(&config.apple_music.user_token)));
    let r = object(members);
    proof {
        reveal_strlit("developer_token");
        reveal_strlit("user_token");
        chars::lemma_text_less_at("developer_token"@, "user_token"@, 0);
        assert(r@->Object_0 =~= tokens_view(
            developer_token,
            config.apple_music.user_token,
        )->Object_0);
        let m = r@->Object_0;
        assert(json::names_ascend(m));
        assert forall|i: int| 0 <= i < m.len() implies json::writable((#[trigger] m[i]).1) by {
            assert(m[i].1 is Str || m[i].1 is Null);
        }
    }
    r.to_text()
}

// ---- Laws on what is told and asked ----

/// What a track and an entity are seen as is what their fields hold.
pub proof fn law_views_tell_the_fields(t: ProviderTrack, e: ProviderEntity)
    ensures
        t@.id == t.id@,
        t@.title == t.title@,
        t@.artist == t.artist@,
        t@.album == t.album@,
        t@.duration_ms == t.duration_ms,
        e@.id == e.id@,
        e@.name == e.name@,
        e@.track_count == e.track_count,
{
}

/// A song of Apple's is told as a track with the same id, title, artist, album and duration.
pub proof fn law_song_is_told_as_track(s: AppleSong)
    ensures
        song_track(s).id == s.id@,
        song_track(s).title == s.name@,
        song_track(s).artist == s.artist@,
        song_track(s).album == s.album@,
        song_track(s).duration_ms == s.duration_ms,
{
}

/// A limit keeps the first items, in order, and never more than it says; a list that is short
/// enough is kept whole.
pub proof fn law_limit_keeps_the_first<T>(s: Seq<T>, limit: u32)
    ensures
        first_of(s, limit).len() <= limit,
        first_of(s, limit).len() <= s.len(),
        first_of(s, limit).len() < limit ==> first_of(s, limit) == s,
        forall|i: int| 0 <= i < first_of(s, limit).len() ==> #[trigger] first_of(s, limit)[i] == s[i],
        s.len() <= limit ==> first_of(s, limit) == s,
{
}

/// What is playing is told by its title first, then its artist if that is known, and then its
/// album if that is known and not called like the track.
pub proof fn law_summary_tells_what_is_known(title: Seq<char>, artist: Seq<char>, album: Seq<char>)
    ensures
        summary_text(title, artist, album).take(title.len() as int) == title,
        artist.len() == 0 && (album.len() == 0 || album == title) ==> summary_text(
            title,
            artist,
            album,
        ) == title,
        artist.len() > 0 && (album.len() == 0 || album == title) ==> summary_text(
            title,
            artist,
            album,
        ) == title + " — "@ + artist,
        artist.len() == 0 && album.len() > 0 && album != title ==> summary_text(
            title,
            artist,
            album,
        ) == title + " (from "@ + album + ")"@,
        artist.len() > 0 && album.len() > 0 && album != title ==> summary_text(
            title,
            artist,
            album,
        ) == title + " — "@ + artist + " (from "@ + album + ")"@,
{
    let s = summary_text(title, artist, album);
    assert(s.take(title.len() as int) =~= title);
    if artist.len() == 0 {
        if album.len() == 0 || album == title {
            assert(s =~= title);
        } else {
            assert(s =~= title + " (from "@ + album + ")"@);
        }
    } else {
        if album.len() == 0 || album == title {
            assert(s =~= title + " — "@ + artist);
        } else {
            assert(s =~= title + " — "@ + artist + " (from "@ + album + ")"@);
        }
    }
}

/// The ids that do not play are exactly the numbers from 2^31 on.
pub proof fn law_large_ids_do_not_play(n: nat, id: Seq<char>)
    ensures
        is_playable(number::nat_text(n)) <==> n < 0x8000_0000,
        number::written_number(id) is None ==> is_playable(id),
        id.len() == 0 ==> is_playable(id),
{
    number::law_written_number_is_read_back(n, n);
}

/// An id with a character that is no digit, other than a plus sign in front, always plays.
pub proof fn law_ids_that_are_no_numbers_play(id: Seq<char>, k: int)
    requires
        0 <= k < id.len(),
        !('0' <= id[k] && id[k] <= '9'),
        k == 0 ==> id[0] != '+',
    ensures
        is_playable(id),
{
    if id[0] == '+' {
        assert(id.drop_first()[k - 1] == id[k]);
    }
}

/// An entity that stands for a search is called by the term, and has tracks for the device to ask
/// for.
pub proof fn law_synthetic_entity_tells_the_term(term: Seq<char>)
    ensures
        synthetic(term).name == term,
        synthetic(term).track_count == 25,
        synthetic(term).id.len() >= 2,
        synthetic(term).id.take(2) == seq!['q', '_'],
        synthetic(term).id.skip(2) == codec::url_base64(vstd::utf8::encode_utf8(term)),
{
    reveal_strlit("q_");
    assert(synthetic(term).id.take(2) =~= seq!['q', '_']);
    assert(synthetic(term).id.skip(2) =~= codec::url_base64(vstd::utf8::encode_utf8(term)));
}

/// An id without the mark of a search is no search: it stands for itself.
pub proof fn law_other_ids_stand_for_themselves(id: Seq<char>)
    requires
        id.len() < 2 || id[0] != 'q' || id[1] != '_',
    ensures
        search_term(id) is None,
        term_or_id(id) == id,
{
    reveal_strlit("q_");
    if id.len() >= 2 {
        assert(id.subrange(0, 2)[0] == id[0] && id.subrange(0, 2)[1] == id[1]);
    }
}

/// An entity is told the number of tracks that is known of it, or else a default, and never none.
pub proof fn law_count_is_told(count: Option<u32>, default: u32)
    ensures
        count matches Some(n) ==> (n > 0 ==> told_count(count, default) == n) && (n == 0 ==> told_count(
            count,
            default,
        ) == 1),
        count is None && default > 0 ==> told_count(count, default) == default,
        told_count(count, default) > 0,
{
}

/// Leaving one id out keeps every other track, in order, and loses none.
pub proof fn law_other_tracks_are_kept(a: Seq<TrackView>, t: TrackView, id: Seq<char>)
    ensures
        without_id(Seq::empty(), id).len() == 0,
        t.id == id ==> without_id(a.push(t), id) == without_id(a, id),
        t.id != id ==> without_id(a.push(t), id) == without_id(a, id).push(t),
{
    assert(a.push(t).drop_last() =~= a);
}

/// The genres that have charts of their own, and the ids of these charts.
pub proof fn law_genres_have_charts(name: Seq<char>)
    ensures
        genre_id(name) == Some("14"@) <== name == "pop"@,
        genre_id("rap"@) == genre_id("hiphop"@),
        genre_id("hip-hop"@) == genre_id("hiphop"@),
        genre_id("electronic"@) == genre_id("dance"@),
        genre_id(name) is Some ==> name == "pop"@ || name == "hiphop"@ || name == "hip-hop"@ || name
            == "rap"@ || name == "rock"@ || name == "jazz"@ || name == "classical"@ || name
            == "dance"@ || name == "electronic"@ || name == "country"@,
        name == "hiphop"@ ==> genre_id(name) == Some("18"@),
        name == "rock"@ ==> genre_id(name) == Some("21"@),
        name == "jazz"@ ==> genre_id(name) == Some("11"@),
        name == "classical"@ ==> genre_id(name) == Some("5"@),
        name == "dance"@ ==> genre_id(name) == Some("17"@),
        name == "country"@ ==> genre_id(name) == Some("6"@),
{
    reveal_strlit("pop");
    reveal_strlit("hiphop");
    reveal_strlit("hip-hop");
    reveal_strlit("rap");
    reveal_strlit("rock");
    reveal_strlit("jazz");
    reveal_strlit("classical");
    reveal_strlit("dance");
    reveal_strlit("electronic");
    reveal_strlit("country");
    assert("pop"@.len() == 3 && "hiphop"@.len() == 6 && "hip-hop"@.len() == 7 && "rap"@.len() == 3
        && "rock"@.len() == 4 && "jazz"@.len() == 4 && "classical"@.len() == 9 && "dance"@.len() == 5
        && "electronic"@.len() == 10 && "country"@.len() == 7);
    assert("pop"@[0] == 'p' && "rap"@[0] == 'r' && "rock"@[0] == 'r' && "jazz"@[0] == 'j'
        && "hip-hop"@[0] == 'h' && "country"@[0] == 'c');
}

/// The provider is of the kind that the configuration selects, whether or not it can be used, and
/// goes by the name of that kind.
pub proof fn law_provider_is_the_selected_one(p: MusicProvider, c: Config, token: Option<String>)
    requires
        is_configured(p, c, token),
    ensures
        provider_kind(p) == c.music.provider,
        c.music.provider is Apple && token is Some ==> p is Apple,
        c.music.provider is Apple && token is None ==> p is Unconfigured,
        c.music.provider is Youtube ==> p is Youtube,
        c.music.provider is Spotify ==> (p is Spotify || p is Unconfigured),
        c.music.provider is Mopidy ==> (p is Mopidy || p is Unconfigured),
        kind_text(MusicProviderKind::Apple) == "apple"@,
        kind_text(MusicProviderKind::Spotify) == "spotify"@,
        kind_text(MusicProviderKind::Youtube) == "youtube"@,
        kind_text(MusicProviderKind::Mopidy) == "mopidy"@,
{
}

/// Apple's client is made with the developer token and the storefront that are set, and with the
/// user's token unless it is empty.
pub proof fn law_apple_is_configured(p: MusicProvider, c: Config, token: String)
    requires
        is_configured(p, c, Some(token)),
        c.music.provider is Apple,
    ensures
        p->Apple_0.developer_token == token,
        p->Apple_0.storefront == c.apple_music.storefront,
        c.apple_music.user_token matches Some(t) ==> (t@.len() > 0 ==> p->Apple_0.user_token == Some(t))
            && (t@.len() == 0 ==> p->Apple_0.user_token is None),
        c.apple_music.user_token is None ==> p->Apple_0.user_token is None,
{
}

/// Spotify can be used exactly where both its id and its secret are set and not blank; the client
/// is made with them.
pub proof fn law_spotify_is_configured(p: MusicProvider, c: Config, token: Option<String>)
    requires
        is_configured(p, c, token),
        c.music.provider is Spotify,
    ensures
        p is Spotify <==> (c.spotify.client_id matches Some(id) && chars::trimmed(id@).len() > 0) && (
        c.spotify.client_secret matches Some(secret) && chars::trimmed(secret@).len() > 0),
        p is Spotify ==> {
            &&& c.spotify.client_id == Some(p->Spotify_0.client_id)
            &&& c.spotify.client_secret == Some(p->Spotify_0.client_secret)
            &&& p->Spotify_0.market == c.spotify.market
            &&& p->Spotify_0.refresh_token is Some ==> p->Spotify_0.refresh_token
                == c.spotify.refresh_token
            &&& p->Spotify_0.streaming_token is Some ==> p->Spotify_0.streaming_token
                == c.spotify.streaming_token
            &&& (c.spotify.refresh_token matches Some(t) && chars::trimmed(t@).len() > 0)
                ==> p->Spotify_0.refresh_token is Some
            &&& (c.spotify.streaming_token matches Some(t) && chars::trimmed(t@).len() > 0)
                ==> p->Spotify_0.streaming_token is Some
        },
{
}

/// Mopidy can be used exactly where both its address and that of its stream are set and not blank;
/// the stream is played from the latter.
pub proof fn law_mopidy_is_configured(p: MusicProvider, c: Config, token: Option<String>)
    requires
        is_configured(p, c, token),
        c.music.provider is Mopidy,
    ensures
        p is Mopidy <==> (c.mopidy.url matches Some(u) && chars::trimmed(u@).len() > 0) && (
        c.mopidy.stream_url matches Some(s) && chars::trimmed(s@).len() > 0),
        p is Mopidy ==> c.mopidy.stream_url == Some(p->Mopidy_0.stream_url),
{
}

/// A track is played from where its provider has it, and under its own id: two tracks of one
/// provider are played from the same place only if they have the same id, but for Mopidy, which
/// has one stream.
pub proof fn law_playback_is_by_id(p: MusicProvider, a: Seq<char>, b: Seq<char>)
    ensures
        !(p is Mopidy) && playback_address(p, a) == playback_address(p, b) ==> a == b,
        p matches MusicProvider::Mopidy(c) ==> playback_address(p, a) == c.stream_url@,
        p is Spotify ==> playback_address(p, a) == "http://127.0.0.1:8080/tidal-shim/stream"@
            + "/spotify/"@ + a,
        p is Youtube ==> playback_address(p, a) == "http://127.0.0.1:8080/tidal-shim/stream"@
            + "/youtube/"@ + a,
        p is Apple ==> playback_address(p, a) == "penumbra-apple://"@ + a,
{
    if !(p is Mopidy) && playback_address(p, a) == playback_address(p, b) {
        let head = match p {
            MusicProvider::Spotify(_) => STREAM_BASE@ + "/spotify/"@,
            MusicProvider::Youtube(_) => STREAM_BASE@ + "/youtube/"@,
            _ => APPLE_SENTINEL@,
        };
        let n = head.len() as int;
        assert((head + a).skip(n) =~= a);
        assert((head + b).skip(n) =~= b);
    }
}

/// A search asks each provider for the term itself, and a provider that cannot be used refuses
/// with its reason.
pub proof fn law_search_asks_for_the_term(p: MusicProvider, term: Seq<char>, limit: u32)
    ensures
        p matches MusicProvider::Unconfigured { reason, .. } ==> search_ask(p, term, limit) == Err::<
            AskView,
            Seq<char>,
        >(reason@),
        p is Youtube ==> search_ask(p, term, limit) == Ok::<AskView, Seq<char>>(
            AskView::Youtube(json::json_text(youtube::search_body(term))),
        ),
        p is Mopidy ==> search_ask(p, term, limit) matches Ok(AskView::Mopidy(_)),
        search_ask(p, term, limit) matches Ok(AskView::Apple(_)) ==> p is Apple,
        search_ask(p, term, limit) matches Ok(AskView::Spotify(_)) ==> p is Spotify,
        search_ask(p, term, limit) matches Ok(AskView::Youtube(_)) ==> p is Youtube,
        search_ask(p, term, limit) matches Ok(AskView::Mopidy(_)) ==> p is Mopidy,
{
}

/// A genre is asked for as a chart only of Apple and only if it has one; else it is searched for.
pub proof fn law_genre_without_chart_is_searched(
    p: MusicProvider,
    genre: Seq<char>,
    chart: Option<Seq<char>>,
    limit: u32,
)
    ensures
        chart is None ==> genre_ask(p, genre, chart, limit) == search_ask(p, genre, limit),
        !(p is Apple) ==> genre_ask(p, genre, chart, limit) == search_ask(p, genre, limit),
{
}

/// The tokens that the player on the device reads are the developer's and the user's, each under
/// its own name, and null where there is none.
pub proof fn law_tokens_are_told_apart(developer: Option<String>, user: Option<String>)
    ensures
        developer matches Some(t) ==> json::holds(
            tokens_view(developer, user),
            "developer_token"@,
            json::JsonView::Str(t@),
        ),
        developer is None ==> json::holds(
            tokens_view(developer, user),
            "developer_token"@,
            json::JsonView::Null,
        ),
        user matches Some(t) ==> json::holds(
            tokens_view(developer, user),
            "user_token"@,
            json::JsonView::Str(t@),
        ),
        user is None ==> json::holds(
            tokens_view(developer, user),
            "user_token"@,
            json::JsonView::Null,
        ),
        tokens_view(developer, user)->Object_0.len() == 2,
{
    let v = tokens_view(developer, user);
    assert(v->Object_0[0].0 == "developer_token"@);
    assert(v->Object_0[1].0 == "user_token"@);
}

/// Mopidy is asked for what a call is about: a search for its term, a playlist and a track for
/// what their ids stand for, and for nothing where an id stands for nothing.
pub proof fn law_mopidy_ids_are_looked_up(id: Seq<char>, uri: Seq<char>)
    ensures
        mopidy::id_uri(id) == Some(uri) ==> mopidy_playlist(id) == Ok::<Seq<char>, Seq<char>>(
            json::json_text(
                mopidy::rpc_view(
                    "core.playlists.lookup"@,
                    json::JsonView::Object(seq![("uri"@, json::JsonView::Str(uri))]),
                ),
            ),
        ),
        mopidy::id_uri(id) == Some(uri) ==> mopidy_track(id) == Ok::<Seq<char>, Seq<char>>(
            json::json_text(
                mopidy::rpc_view(
                    "core.library.lookup"@,
                    json::JsonView::Object(
                        seq![("uris"@, json::JsonView::Array(seq![json::JsonView::Str(uri)]))],
                    ),
                ),
            ),
        ),
        mopidy::id_uri(id) is None ==> mopidy_playlist(id) == Err::<Seq<char>, Seq<char>>(
            "bad mopidy playlist id"@,
        ) && mopidy_track(id) == Err::<Seq<char>, Seq<char>>("bad mopidy track id"@),
{
}

/// Each of the user's requests for an entity goes to Apple's catalog under its kind; the others
/// make one of their own; and one that cannot be used refuses.
pub proof fn law_entity_comes_from_the_provider(
    p: MusicProvider,
    kind: EntityKind,
    term: Seq<char>,
    r: Result<EntityStep, String>,
)
    requires
        is_entity_step(p, kind, term, r),
    ensures
        p is Spotify || p is Youtube || p is Mopidy ==> (r matches Ok(EntityStep::Ready(e)) && e.name@
            == term),
        p matches MusicProvider::Unconfigured { reason, .. } ==> (r matches Err(e) && e == reason),
        p is Apple ==> !(r matches Ok(EntityStep::Ready(_))),
{
}

// ---- Laws on what each call asks for ----

/// A search asks for as many songs as are wanted, but one at least and 25 of Apple's at most.
pub proof fn law_search_asks_for_as_many(p: MusicProvider, term: Seq<char>, limit: u32)
    ensures
        p matches MusicProvider::Apple(c) ==> (1 <= limit <= 25 ==> search_ask(p, term, limit)
            == ask_apple(
            apple_music::catalog_get(
                c,
                "/search"@,
                seq![
                    ("term"@, term),
                    ("types"@, "songs"@),
                    ("limit"@, number::nat_text(limit as nat)),
                ],
            ),
        )),
        p is Apple && limit > 25 ==> search_ask(p, term, limit) == search_ask(p, term, 25),
        p is Apple || p is Spotify ==> search_ask(p, term, 0) == search_ask(p, term, 1),
        p matches MusicProvider::Spotify(c) ==> (limit >= 1 ==> search_ask(p, term, limit)
            == ask_spotify(
            spotify::search_url(
                weburl::query_url(
                    "https://api.spotify.com/v1"@ + "/search"@,
                    spotify::search_query(term, c.market@, limit),
                ),
            ),
        )),
        p is Mopidy ==> search_ask(p, term, limit) == Ok::<AskView, Seq<char>>(
            AskView::Mopidy(
                json::json_text(
                    mopidy::rpc_view(
                        "core.library.search"@,
                        json::JsonView::Object(
                            seq![
                                (
                                    "query"@,
                                    json::JsonView::Object(
                                        seq![
                                            (
                                                "any"@,
                                                json::JsonView::Array(
                                                    seq![json::JsonView::Str(term)],
                                                ),
                                            ),
                                        ],
                                    ),
                                ),
                            ],
                        ),
                    ),
                ),
            ),
        ),
{
}

/// The best match of a search is what a search for one song finds.
pub proof fn law_top_is_a_search_for_one(
    p: MusicProvider,
    term: &str,
    top: Result<ProviderRequest, String>,
    one: Result<ProviderRequest, String>,
)
    requires
        call_ensures(MusicProvider::search_top, (&p, term), top),
        call_ensures(MusicProvider::search_songs, (&p, term, 1u32), one),
    ensures
        ask_view(top) == ask_view(one),
{
}

/// The tracks of an artist, an album or a playlist are asked of Apple by their id; the others
/// search for the term that the id stands for.
pub proof fn law_tracks_are_asked_by_id(
    p: MusicProvider,
    id: &str,
    limit: u32,
    artist: Result<ProviderRequest, String>,
    album: Result<ProviderRequest, String>,
    playlist: Result<ProviderRequest, String>,
)
    requires
        call_ensures(MusicProvider::artist_tracks, (&p, id, limit), artist),
        call_ensures(MusicProvider::album_tracks, (&p, id, limit), album),
        call_ensures(MusicProvider::playlist_tracks, (&p, id, limit), playlist),
    ensures
        !(p is Apple) ==> {
            &&& ask_view(artist) == search_ask(p, term_or_id(id@), limit)
            &&& ask_view(album) == search_ask(p, term_or_id(id@), limit)
            &&& ask_view(playlist) == search_ask(p, term_or_id(id@), limit)
        },
        p matches MusicProvider::Apple(c) ==> {
            let query = seq![("limit"@, number::nat_text(limit as nat))];
            &&& ask_view(artist) == ask_apple(
                apple_music::catalog_get(c, "/artists/"@ + id@ + "/view/top-songs"@, query),
            )
            &&& ask_view(album) == ask_apple(
                apple_music::catalog_get(c, "/albums/"@ + id@ + "/tracks"@, query),
            )
            &&& ask_view(playlist) == ask_apple(
                apple_music::catalog_get(c, "/playlists/"@ + id@ + "/tracks"@, query),
            )
        },
{
}

/// The tracks of an entity that stands for a search are those of the search, by whatever kind they
/// are asked for, except from Apple, which has entities of its own.
pub proof fn law_synthetic_entities_lead_to_the_search(
    p: MusicProvider,
    term: Seq<char>,
    id: &str,
    limit: u32,
    tracks: Result<ProviderRequest, String>,
)
    requires
        !(p is Apple),
        term_or_id(id@) == term,
        call_ensures(MusicProvider::artist_tracks, (&p, id, limit), tracks) || call_ensures(
            MusicProvider::album_tracks,
            (&p, id, limit),
            tracks,
        ) || call_ensures(MusicProvider::playlist_tracks, (&p, id, limit), tracks),
    ensures
        ask_view(tracks) == search_ask(p, term, limit),
{
}

/// Apple and Mopidy find a track by its id; the others cannot.
pub proof fn law_track_is_asked_by_id(
    p: MusicProvider,
    id: &str,
    r: Result<ProviderRequest, String>,
)
    requires
        call_ensures(MusicProvider::track, (&p, id), r),
    ensures
        p matches MusicProvider::Apple(c) ==> ask_view(r) == ask_apple(
            apple_music::catalog_get(c, "/songs/"@ + id@, Seq::empty()),
        ),
        p is Mopidy ==> (mopidy::id_uri(id@) matches Some(_) ==> r matches Ok(ProviderRequest::Mopidy(_))),
        p is Mopidy && mopidy::id_uri(id@) is None ==> r is Err,
        p is Spotify || p is Youtube || p is Unconfigured ==> r is Err,
{
}

/// The user's own music needs an account: Apple's with a user's token, Spotify's with a token of
/// the user's, and Mopidy's, which is the user's own.
pub proof fn law_user_library_needs_an_account(
    p: MusicProvider,
    limit: u32,
    own: bool,
    favorites: Result<ProviderRequest, String>,
    playlists: Result<ProviderRequest, String>,
)
    requires
        call_ensures(MusicProvider::has_user_library, (&p,), own),
        call_ensures(MusicProvider::my_favorites, (&p, limit), favorites),
        call_ensures(MusicProvider::my_playlists, (&p, limit), playlists),
    ensures
        p matches MusicProvider::Apple(c) ==> (own <==> c.user_token is Some),
        p matches MusicProvider::Spotify(c) ==> (own <==> c.refresh_token is Some),
        p is Mopidy ==> own,
        p is Youtube || p is Unconfigured ==> !own && favorites is Err && playlists is Err,
        p is Apple && !own ==> favorites is Err && playlists is Err,
        p matches MusicProvider::Apple(c) ==> {
            let most = if limit == 0 {
                1
            } else if limit > 100 {
                100
            } else {
                limit as nat
            };
            &&& ask_view(favorites) == ask_apple(
                apple_music::me_get(
                    c,
                    "/library/songs"@,
                    seq![("limit"@, number::nat_text(most as nat))],
                ),
            )
            &&& ask_view(playlists) == ask_apple(
                apple_music::me_get(
                    c,
                    "/library/playlists"@,
                    seq![("limit"@, number::nat_text(most as nat))],
                ),
            )
        },
        p is Spotify ==> ask_view(favorites) == Ok::<AskView, Seq<char>>(
            AskView::Spotify("https://api.spotify.com/v1"@ + "/me/tracks"@ + spotify::PAGE_QUERY@),
        ),
        p is Spotify ==> ask_view(playlists) == Ok::<AskView, Seq<char>>(
            AskView::Spotify("https://api.spotify.com/v1"@ + "/me/playlists"@ + spotify::PAGE_QUERY@),
        ),
        p is Mopidy ==> ask_view(favorites) == ask_view(playlists),
{
}

/// The tracks of one of the user's playlists are asked for by its id.
pub proof fn law_own_playlist_is_asked_by_id(
    p: MusicProvider,
    id: &str,
    limit: u32,
    r: Result<ProviderRequest, String>,
)
    requires
        call_ensures(MusicProvider::my_playlist_tracks, (&p, id, limit), r),
    ensures
        p matches MusicProvider::Apple(c) ==> (1 <= limit <= 100 ==> ask_view(r) == ask_apple(
            apple_music::me_get(
                c,
                "/library/playlists/"@ + id@ + "/tracks"@,
                seq![("limit"@, number::nat_text(limit as nat))],
            ),
        )),
        p is Spotify ==> ask_view(r) == Ok::<AskView, Seq<char>>(
            AskView::Spotify(
                "https://api.spotify.com/v1"@ + "/playlists/"@ + id@ + ("/tracks"@
                    + spotify::PAGE_QUERY@),
            ),
        ),
        p is Mopidy ==> ask_view(r) == ask_mopidy(mopidy_playlist(id@)),
        p is Youtube || p is Unconfigured ==> r is Err,
{
}

/// Recommendations start from the song of the id, and go on with songs of its artist; where there
/// is no song to start from, or no such provider, the queue is played.
pub proof fn law_recommendations_follow_the_artist(
    p: MusicProvider,
    seed_id: &str,
    seed: Result<AppleSong, String>,
    limit: u32,
    first: RecommendStep,
    next: RecommendStep,
)
    requires
        call_ensures(MusicProvider::recommendations, (&p, seed_id), first),
        call_ensures(MusicProvider::recommendations_of, (&p, seed, limit), next),
    ensures
        !(p is Apple) ==> first is Queue && next is Queue,
        seed is Err ==> next is Queue,
        first matches RecommendStep::Ask(q) ==> p is Apple && apple_music::catalog_get(
            p->Apple_0,
            "/songs/"@ + seed_id@,
            Seq::empty(),
        ) == apple_music::request_view(Ok(q)),
        next matches RecommendStep::Ask(q) ==> p is Apple && seed is Ok && ask_view(
            Ok(ProviderRequest::Apple(q)),
        ) == search_ask(p, seed->Ok_0.artist@, limit),
        !(first is Tracks) && !(next is Tracks),
{
}

/// What is recommended is what was found, without the song that it started from; where nothing is
/// left, the queue is played.
pub proof fn law_recommended_tracks_leave_out_the_seed(
    songs: Vec<AppleSong>,
    seed_id: &str,
    r: RecommendStep,
)
    requires
        call_ensures(
            recommended,
            (Ok::<Vec<AppleSong>, String>(songs), seed_id),
            r,
        ),
    ensures
        r matches RecommendStep::Tracks(tracks) ==> tracks@.len() > 0 && forall|i: int|
            0 <= i < tracks@.len() ==> (#[trigger] tracks@[i]).id@ != seed_id@,
        !(r is Ask),
{
    let all = songs@.map_values(|s: AppleSong| song_track(s));
    law_seed_is_not_related(all, seed_id@);
    if let RecommendStep::Tracks(tracks) = r {
        assert(track_views(tracks@).len() == tracks@.len());
        assert forall|i: int| 0 <= i < tracks@.len() implies (#[trigger] tracks@[i]).id@ != seed_id@ by {
            assert(track_views(tracks@)[i] == tracks@[i]@);
            assert(track_views(tracks@)[i].id != seed_id@);
        }
    }
}

/// The queue is each provider's own: Apple's charts, a fixed search of Spotify and YouTube, and
/// Mopidy's playlists; one that cannot be used refuses.
pub proof fn law_queue_is_the_providers_own(
    p: MusicProvider,
    limit: u32,
    r: Result<ProviderRequest, String>,
)
    requires
        call_ensures(MusicProvider::queue, (&p, limit), r),
    ensures
        p matches MusicProvider::Apple(c) ==> ask_view(r) == ask_apple(
            apple_music::catalog_get(
                c,
                "/charts"@,
                seq![("types"@, "songs"@), ("limit"@, number::nat_text(limit as nat))],
            ),
        ),
        p is Spotify && limit > 0 ==> ask_view(r) == search_ask(p, spotify::QUEUE_SEARCH@, limit),
        p is Youtube ==> ask_view(r) == search_ask(p, "top songs today"@, limit),
        p is Mopidy ==> ask_view(r) == Ok::<AskView, Seq<char>>(
            AskView::Mopidy(
                json::json_text(mopidy::rpc_view("core.playlists.as_list"@, mopidy::no_params())),
            ),
        ),
        p matches MusicProvider::Unconfigured { reason, .. } ==> (r matches Err(e) && e@ == reason@),
{
}

/// Only Mopidy has to be told what to play: its list is cleared, the track is added, and it plays.
pub proof fn law_mopidy_is_told_what_to_play(
    p: MusicProvider,
    id: &str,
    r: Result<Vec<String>, String>,
)
    requires
        call_ensures(MusicProvider::prepare_playback, (&p, id), r),
    ensures
        !(p is Mopidy) ==> (r matches Ok(calls) && calls@.len() == 0),
        p is Mopidy ==> (mopidy::id_uri(id@) matches Some(uri) ==> (r matches Ok(calls) && {
            &&& calls@.len() == 3
            &&& calls@[0]@ == json::json_text(
                mopidy::rpc_view("core.tracklist.clear"@, mopidy::no_params()),
            )
            &&& calls@[1]@ == json::json_text(
                mopidy::rpc_view(
                    "core.tracklist.add"@,
                    json::JsonView::Object(
                        seq![("uris"@, json::JsonView::Array(seq![json::JsonView::Str(uri)]))],
                    ),
                ),
            )
            &&& calls@[2]@ == json::json_text(
                mopidy::rpc_view("core.playback.play"@, mopidy::no_params()),
            )
        })),
        p is Mopidy && mopidy::id_uri(id@) is None ==> r is Err,
{
    if let Ok(calls) = r {
        let t = chars::texts(calls@);
        assert(t.len() == calls@.len());
        if calls@.len() == 3 {
            assert(t[0] == calls@[0]@ && t[1] == calls@[1]@ && t[2] == calls@[2]@);
        }
    }
}

/// The newest album is looked for at Apple only, by the artist's name first and then by the id
/// that was found.
pub proof fn law_newest_album_is_asked_of_apple(
    p: MusicProvider,
    artist: &str,
    found: Option<AppleEntity>,
    first: Option<Result<AppleRequest, String>>,
    next: Option<Result<AppleRequest, String>>,
)
    requires
        call_ensures(MusicProvider::latest_album, (&p, artist), first),
        call_ensures(MusicProvider::latest_album_of, (&p, &found), next),
    ensures
        first is Some <==> p is Apple,
        next is Some <==> p is Apple && found is Some,
        p matches MusicProvider::Apple(c) ==> apple_music::request_view(first->0)
            == apple_music::catalog_get(
            c,
            "/search"@,
            seq![("term"@, artist@), ("types"@, "artists"@), ("limit"@, "1"@)],
        ),
        p matches MusicProvider::Apple(c) ==> (found matches Some(e) ==> apple_music::request_view(
            next->0,
        ) == apple_music::catalog_get(
            c,
            "/artists/"@ + e.id@ + "/albums"@,
            seq![("limit"@, "25"@)],
        )),
{
}

/// An entity that is looked for is of the kind that it is looked for by.
pub proof fn law_entities_are_looked_for_by_kind(
    c: apple_music::AppleMusicClient,
    term: &str,
    artist: Result<EntityStep, String>,
    album: Result<EntityStep, String>,
    playlist: Result<EntityStep, String>,
)
    requires
        call_ensures(MusicProvider::search_artist, (&MusicProvider::Apple(c), term), artist),
        call_ensures(MusicProvider::search_album, (&MusicProvider::Apple(c), term), album),
        call_ensures(MusicProvider::search_playlist, (&MusicProvider::Apple(c), term), playlist),
    ensures
        artist matches Ok(EntityStep::Ask(q)) ==> apple_music::request_view(Ok(q))
            == apple_music::catalog_get(
            c,
            "/search"@,
            seq![("term"@, term@), ("types"@, "artists"@), ("limit"@, "1"@)],
        ),
        album matches Ok(EntityStep::Ask(q)) ==> apple_music::request_view(Ok(q))
            == apple_music::catalog_get(
            c,
            "/search"@,
            seq![("term"@, term@), ("types"@, "albums"@), ("limit"@, "1"@)],
        ),
        playlist matches Ok(EntityStep::Ask(q)) ==> apple_music::request_view(Ok(q))
            == apple_music::catalog_get(
            c,
            "/search"@,
            seq![("term"@, term@), ("types"@, "playlists"@), ("limit"@, "1"@)],
        ),
{
}

/// A genre's chart is asked for by the id of the genre, whatever the case of its name and the white
/// space around it.
pub proof fn law_genre_is_asked_as_chart(
    p: MusicProvider,
    genre: &str,
    limit: u32,
    r: Result<ProviderRequest, String>,
)
    requires
        call_ensures(MusicProvider::genre_tracks, (&p, genre, limit), r),
    ensures
        p matches MusicProvider::Apple(c) ==> (genre_id(chars::lowercase(chars::trimmed(genre@))) matches Some(id) ==> (1
            <= limit <= 25 ==> ask_view(r) == ask_apple(
            apple_music::catalog_get(
                c,
                "/charts"@,
                seq![
                    ("types"@, "songs"@),
                    ("genre"@, id),
                    ("limit"@, number::nat_text(limit as nat)),
                ],
            ),
        ))),
        genre_id(chars::lowercase(chars::trimmed(genre@))) is None || !(p is Apple) ==> ask_view(r)
            == search_ask(p, genre@, limit),
{
}

/// Every song that was found is a track, in order; every playlist an entity, in order.
pub proof fn law_replies_are_told_one_by_one(
    songs: Vec<AppleSong>,
    playlists: Vec<AppleEntity>,
    limit: u32,
    tracks: Vec<ProviderTrack>,
    entities: Vec<ProviderEntity>,
    i: int,
)
    requires
        call_ensures(song_tracks, (songs,), tracks),
        call_ensures(my_playlists_reply, (playlists, limit), entities),
    ensures
        tracks@.len() == songs@.len(),
        entities@.len() == playlists@.len(),
        0 <= i < songs@.len() ==> tracks@[i].id@ == songs@[i].id@ && tracks@[i].title@
            == songs@[i].name@ && tracks@[i].artist@ == songs@[i].artist@ && tracks@[i].album@
            == songs@[i].album@ && tracks@[i].duration_ms == songs@[i].duration_ms,
        0 <= i < playlists@.len() ==> entities@[i].id == playlists@[i].id && entities@[i].name
            == playlists@[i].name && entities@[i].track_count > 0,
{
    let v = track_views(tracks@);
    assert(v.len() == tracks@.len());
    if 0 <= i < songs@.len() {
        assert(v[i] == tracks@[i]@);
        assert(v[i] == song_track(songs@[i]));
    }
    if 0 <= i < playlists@.len() {
        assert(entities@[i].id == playlists@[i].id);
    }
}

/// A genre is found whatever the case of its name and the white space around it.
pub proof fn law_genre_is_found_by_its_name(name: &str, r: Option<&'static str>)
    requires
        call_ensures(apple_genre_id, (name,), r),
    ensures
        r is Some <==> genre_id(chars::lowercase(chars::trimmed(name@))) is Some,
        chars::lowercase(chars::trimmed(name@)) == "jazz"@ ==> (r matches Some(id) && id@ == "11"@),
{
    law_genres_have_charts("jazz"@);
}

/// A provider that cannot be used says what has to be set.
pub proof fn law_unconfigured_provider_says_what_is_missing(
    p: MusicProvider,
    c: Config,
    token: Option<String>,
)
    requires
        is_configured(p, c, token),
    ensures
        p matches MusicProvider::Unconfigured { kind, reason } ==> kind == c.music.provider && (
        c.music.provider is Apple ==> reason@ == APPLE_NOT_SET@) && (c.music.provider is Spotify
            ==> reason@ == "set [spotify] client_id and client_secret"@) && (
        c.music.provider is Mopidy ==> reason@ == "set [mopidy] url + stream_url"@),
{
}

/// YouTube is used with the cookies that are configured, and Mopidy is called at its address, with
/// the slashes at its end cut off.
pub proof fn law_clients_go_to_their_addresses(p: MusicProvider, c: Config, token: Option<String>)
    requires
        is_configured(p, c, token),
    ensures
        p matches MusicProvider::Youtube(y) ==> y.cookies_path == c.youtube.cookies_path,
        p matches MusicProvider::Mopidy(m) ==> (c.mopidy.url matches Some(u) ==> m.rpc_url@
            == mopidy::without_slashes(u@) + "/mopidy/rpc"@),
{
}

} // verus!
