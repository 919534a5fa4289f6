//! The Spotify Web API: catalog search, and the user's library.

use crate::chars;
use crate::chars::is_blank;
use crate::codec;
use crate::external::oauth::{TokenRequest, TokenResponse};
use crate::external::{text2, text3, text4};
use crate::music;
use crate::music::{first_entities, first_tracks, ProviderEntity, ProviderTrack};
use crate::number;
use crate::number::u64_text;
use crate::weburl;
use crate::weburl::{param, with_query};
use vstd::prelude::*;
use vstd::string::*;

verus! {

pub const TOKEN_URL: &'static str = "https://accounts.spotify.com/api/token";

pub const API_BASE: &'static str = "https://api.spotify.com/v1";

/// How long before they expire tokens are given up, in seconds.
pub const TOKEN_MARGIN: u64 = 30;

/// How many pages of a list are asked for at most.
pub const MAX_PAGES: u32 = 8;

/// How a page of the most items is asked for.
pub const PAGE_QUERY: &'static str = "?limit=50";

/// What stands for recent music in a search.
pub const QUEUE_SEARCH: &'static str = "year:2024-2026";

pub const NO_SIGN_IN: &'static str = "spotify: no user sign-in (refresh token) configured";

pub const NO_REFRESH_TOKEN: &'static str = "spotify: no refresh token in exchange response";

/// An app's credentials, and those of the user who is signed in, if any.
#[derive(Debug, Clone, PartialEq, Eq)]
pub struct SpotifyClient {
    pub client_id: String,
    pub client_secret: String,
    pub market: String,
    /// From a user's sign-in, for access to the library.
    pub refresh_token: Option<String>,
    /// For playback.
    pub streaming_token: Option<String>,
}

#[derive(Debug, PartialEq, Eq)]
pub struct TrackObject {
    pub id: String,
    pub name: String,
    /// The names of the artists.
    pub artists: Vec<String>,
    /// The name of the album.
    pub album: Option<String>,
    pub duration_ms: u64,
}

#[derive(Debug, PartialEq, Eq)]
pub struct PlaylistObject {
    pub id: String,
    pub name: String,
    /// How many tracks it has, if that is said.
    pub total: Option<u32>,
}

/// A text, unless it is absent or blank.
pub open spec fn unless_blank(o: Option<String>) -> Option<String> {
    match o {
        Some(t) => if chars::trimmed(t@).len() == 0 {
            None
        } else {
            Some(t)
        },
        None => None,
    }
}

fn non_blank(o: Option<String>) -> (r: Option<String>)
    ensures
        r == unless_blank(o),
{
    match o {
        Some(t) => if is_blank(&t) {
            None
        } else {
            Some(t)
        },
        None => None,
    }
}

/// The parameters of a search for tracks.
pub open spec fn search_query(term: Seq<char>, market: Seq<char>, limit: u32) -> Seq<
    (Seq<char>, Seq<char>),
> {
    seq![
        ("q"@, term),
        ("type"@, "track"@),
        ("market"@, market),
        ("limit"@, number::nat_text(limit as nat)),
    ]
}

/// The URL of a search, or why there is none.
pub open spec fn search_url(built: Result<Seq<char>, Seq<char>>) -> Result<Seq<char>, Seq<char>> {
    match built {
        Ok(url) => Ok(url),
        Err(e) => Err("spotify url: "@ + e),
    }
}

impl SpotifyClient {
    pub fn new(client_id: String, client_secret: String, market: String) -> (r: Self)
        ensures
            r == (SpotifyClient {
                client_id,
                client_secret,
                market,
                refresh_token: None,
                streaming_token: None,
            }),
    {
        SpotifyClient {
            client_id,
            client_secret,
            market,
            refresh_token: None,
            streaming_token: None,
        }
    }

    /// The client with a user's refresh token, unless that is blank.
    pub fn with_refresh_token(self, refresh_token: Option<String>) -> (r: Self)
        ensures
            r == (SpotifyClient { refresh_token: unless_blank(refresh_token), ..self }),
    {
        let refresh_token = non_blank(refresh_token);
        SpotifyClient { refresh_token, ..self }
    }

    /// The client with a token for playback, unless that is blank.
    pub fn with_streaming_token(self, token: Option<String>) -> (r: Self)
        ensures
            r == (SpotifyClient { streaming_token: unless_blank(token), ..self }),
    {
        let streaming_token = non_blank(token);
        SpotifyClient { streaming_token, ..self }
    }

    /// The token for playback, if any.
    pub fn streaming_token(&self) -> (r: Option<&str>)
        ensures
            r is Some <==> self.streaming_token is Some,
            r matches Some(t) ==> t@ == self.streaming_token->0@,
    {
        match &self.streaming_token {
            Some(t) => Some(t.as_str()),
            None => None,
        }
    }

    /// Whether a user is signed in.
    pub fn has_user_auth(&self) -> (r: bool)
        ensures
            r == (self.refresh_token is Some),
    {
        self.refresh_token.is_some()
    }

    /// The URL of a search for tracks. See [`search_reply`].
    pub fn search(&self, term: &str, limit: u32) -> (r: Result<String, String>)
        ensures
            weburl::text_result(r) == search_url(
                weburl::query_url(API_BASE@ + "/search"@, search_query(term@, self.market@, limit)),
            ),
    {
        let mut query: Vec<(String, String)> = Vec::new();
        query.push(param("q", term));
        query.push(param("type", "track"));
        query.push(param("market", &self.market));
        query.push(param("limit", &u64_text(limit as u64)));
        assert(weburl::pair_views(query@) =~= search_query(term@, self.market@, limit));
        let url = text2(API_BASE, "/search");
        match with_query(&url, &query) {
            Ok(url) => Ok(url),
            Err(e) => Err(text2("spotify url: ", &e)),
        }
    }

    /// The URL of a search for the top track.
    pub fn search_top(&self, term: &str) -> (r: Result<String, String>)
        ensures
            weburl::text_result(r) == search_url(
                weburl::query_url(API_BASE@ + "/search"@, search_query(term@, self.market@, 1)),
            ),
    {
        self.search(term, 1)
    }

    /// The URL of a search for tracks, one at least.
    pub fn search_songs(&self, term: &str, limit: u32) -> (r: Result<String, String>)
        ensures
            weburl::text_result(r) == search_url(
                weburl::query_url(
                    API_BASE@ + "/search"@,
                    search_query(
                        term@,
                        self.market@,
                        if limit == 0 {
                            1
                        } else {
                            limit
                        },
                    ),
                ),
            ),
    {
        self.search(
            term,
            if limit == 0 {
                1
            } else {
                limit
            },
        )
    }

    /// The URL of a search for the default queue.
    pub fn queue(&self, limit: u32) -> (r: Result<String, String>)
        ensures
            weburl::text_result(r) == search_url(
                weburl::query_url(
                    API_BASE@ + "/search"@,
                    search_query(QUEUE_SEARCH@, self.market@, limit),
                ),
            ),
    {
        self.search(QUEUE_SEARCH, limit)
    }

    /// Asks for a token for the app.
    pub fn token(&self) -> (r: TokenRequest)
        ensures
            r.url@ == TOKEN_URL@,
            r.authorization is Some,
            r.authorization->0@ == "Basic "@ + codec::base64_text(
                vstd::utf8::encode_utf8(self.client_id@ + ":"@ + self.client_secret@),
            ),
            weburl::pair_views(r.form@) == seq![("grant_type"@, "client_credentials"@)],
    {
        let pair = text3(&self.client_id, ":", &self.client_secret);
        let basic = codec::encode_standard(pair.as_str().as_bytes());
        TokenRequest {
            url: String::from_str(TOKEN_URL),
            authorization: Some(text2("Basic ", &basic)),
            form: weburl::one_param("grant_type", "client_credentials"),
        }
    }

    /// Asks for a token for the user who is signed in.
    pub fn user_access_token(&self) -> (r: Result<TokenRequest, String>)
        ensures
            match self.refresh_token {
                Some(refresh) => {
                    &&& r is Ok
                    &&& r->Ok_0.url@ == TOKEN_URL@
                    &&& r->Ok_0.authorization is None
                    &&& weburl::pair_views(r->Ok_0.form@) == seq![
                        ("grant_type"@, "refresh_token"@),
                        ("refresh_token"@, refresh@),
                        ("client_id"@, self.client_id@),
                    ]
                },
                None => r is Err && r->Err_0@ == NO_SIGN_IN@,
            },
    {
        match &self.refresh_token {
            Some(refresh) => Ok(
                TokenRequest {
                    url: String::from_str(TOKEN_URL),
                    authorization: None,
                    form: weburl::three_params(
                        "grant_type",
                        "refresh_token",
                        "refresh_token",
                        refresh,
                        "client_id",
                        &self.client_id,
                    ),
                },
            ),
            None => Err(String::from_str(NO_SIGN_IN)),
        }
    }

    /// The URL of the first page of the user's saved tracks. See [`TrackPages`].
    pub fn library_tracks(&self) -> (r: String)
        ensures
            r@ == API_BASE@ + "/me/tracks"@ + PAGE_QUERY@,
    {
        text3(API_BASE, "/me/tracks", PAGE_QUERY)
    }

    /// The URL of the first page of the user's playlists. See [`TrackPages`].
    pub fn library_playlists(&self) -> (r: String)
        ensures
            r@ == API_BASE@ + "/me/playlists"@ + PAGE_QUERY@,
    {
        text3(API_BASE, "/me/playlists", PAGE_QUERY)
    }

    /// The URL of the first page of a playlist's tracks. See [`TrackPages`].
    pub fn library_playlist_tracks(&self, playlist_id: &str) -> (r: String)
        ensures
            r@ == API_BASE@ + "/playlists/"@ + playlist_id@ + ("/tracks"@ + PAGE_QUERY@),
    {
        let end = text2("/tracks", PAGE_QUERY);
        text4(API_BASE, "/playlists/", playlist_id, &end)
    }
}

// ---- Replies ----

/// The track of a resource.
pub open spec fn provider_track(t: TrackObject) -> music::TrackView {
    music::TrackView {
        id: t.id@,
        title: t.name@,
        artist: if t.artists@.len() > 0 {
            t.artists@[0]@
        } else {
            Seq::empty()
        },
        album: match t.album {
            Some(a) => a@,
            None => Seq::empty(),
        },
        duration_ms: t.duration_ms,
    }
}

impl TrackObject {
    pub fn into_track(self) -> (r: ProviderTrack)
        ensures
            r@ == provider_track(self),
    {
        let artist = if self.artists.len() > 0 {
            self.artists[0].clone()
        } else {
            String::new()
        };
        let album = match self.album {
            Some(a) => a,
            None => String::new(),
        };
        ProviderTrack {
            id: self.id,
            title: self.name,
            artist,
            album,
            duration_ms: self.duration_ms,
        }
    }
}

/// The tracks of some items, in order; items without a track are left out.
pub open spec fn item_tracks(items: Seq<Option<TrackObject>>) -> Seq<music::TrackView>
    decreases items.len(),
{
    if items.len() == 0 {
        Seq::empty()
    } else {
        let rest = item_tracks(items.drop_last());
        match items.last() {
            Some(t) => rest.push(provider_track(t)),
            None => rest,
        }
    }
}

/// Adds the tracks of some items.
fn push_tracks(out: &mut Vec<ProviderTrack>, items: Vec<Option<TrackObject>>)
    ensures
        music::track_views(final(out)@) == music::track_views(old(out)@) + item_tracks(items@),
{
    let ghost all = items@;
    let ghost before = music::track_views(out@);
    assert(music::track_views(out@) =~= before + item_tracks(all.take(0)));
    for item in it: items
        invariant
            it.seq() == all,
            music::track_views(out@) == before + item_tracks(all.take(it.index())),
    {
        let ghost n = it.index();
        proof {
            assert(all.take(n + 1).drop_last() =~= all.take(n));
            assert(all.take(n + 1).last() == item);
        }
        if let Some(t) = item {
            let track = t.into_track();
            let ghost was = out@;
            let ghost shown = track@;
            out.push(track);
            assert(music::track_views(out@) =~= music::track_views(was).push(shown));
            assert(before + item_tracks(all.take(n)).push(shown) =~= (before + item_tracks(
                all.take(n),
            )).push(shown));
        }
    }
    assert(all.take(all.len() as int) =~= all);
}

/// The tracks that a search found.
pub open spec fn found_tracks(items: Option<Vec<TrackObject>>) -> Seq<music::TrackView> {
    match items {
        Some(v) => v@.map_values(|t: TrackObject| provider_track(t)),
        None => Seq::empty(),
    }
}

/// The tracks that a search found, from a reply that may hold none.
pub fn search_reply(items: Option<Vec<TrackObject>>) -> (r: Vec<ProviderTrack>)
    ensures
        music::track_views(r@) == found_tracks(items),
{
    let mut out: Vec<ProviderTrack> = Vec::new();
    if let Some(v) = items {
        let ghost all = v@;
        for t in it: v
            invariant
                it.seq() == all,
                out@.len() == it.index(),
                forall|i: int|
                    0 <= i < out@.len() ==> (#[trigger] out@[i])@ == provider_track(all[i]),
        {
            out.push(t.into_track());
        }
        assert(music::track_views(out@) =~= all.map_values(|t: TrackObject| provider_track(t)));
    } else {
        assert(music::track_views(out@) =~= Seq::<music::TrackView>::empty());
    }
    out
}

/// The entity of a playlist: one track at least, so that the device asks for them.
pub open spec fn playlist_entity(p: PlaylistObject) -> music::ProviderEntityView {
    music::ProviderEntityView {
        id: p.id@,
        name: p.name@,
        track_count: match p.total {
            Some(n) => if n == 0 {
                1
            } else {
                n
            },
            None => 1,
        },
    }
}

pub open spec fn playlist_entities(items: Seq<PlaylistObject>) -> Seq<music::ProviderEntityView> {
    items.map_values(|p: PlaylistObject| playlist_entity(p))
}

/// Adds the entities of some playlists.
fn push_playlists(out: &mut Vec<ProviderEntity>, items: Vec<PlaylistObject>)
    ensures
        music::entity_views(final(out)@) == music::entity_views(old(out)@) + playlist_entities(
            items@,
        ),
{
    let ghost all = items@;
    let ghost before = music::entity_views(out@);
    assert(music::entity_views(out@) =~= before + playlist_entities(all.take(0)));
    for p in it: items
        invariant
            it.seq() == all,
            music::entity_views(out@) == before + playlist_entities(all.take(it.index())),
    {
        let ghost n = it.index();
        let track_count: u32 = match p.total {
            Some(n) => if n == 0 {
                1
            } else {
                n
            },
            None => 1,
        };
        let ghost shown = playlist_entity(p);
        let ghost was = out@;
        out.push(ProviderEntity { id: p.id, name: p.name, track_count });
        proof {
            assert(music::entity_views(out@) =~= music::entity_views(was).push(shown));
            assert(playlist_entities(all.take(n + 1)) =~= playlist_entities(all.take(n)).push(
                shown,
            ));
            assert(before + playlist_entities(all.take(n)).push(shown) =~= (before
                + playlist_entities(all.take(n))).push(shown));
        }
    }
    assert(all.take(all.len() as int) =~= all);
}

// ---- Pages ----

/// Whether another page is asked for, once `pages` were read and `have` items are there.
/// The count of items is compared as a 32-bit number.
pub open spec fn wants_more(pages: int, have: nat, limit: u32) -> bool {
    pages < MAX_PAGES && (have as u32) < limit
}

/// The address of the next page, if another one is asked for.
pub open spec fn next_page(pages: int, have: nat, limit: u32, next: Option<String>) -> Option<String> {
    if wants_more(pages, have, limit) {
        next
    } else {
        None
    }
}

fn next_address(pages: u32, have: usize, limit: u32, next: Option<String>) -> (r: Option<String>)
    ensures
        r == next_page(pages as int, have as nat, limit, next),
{
    if pages < MAX_PAGES && (#[verifier::truncate] (have as u32)) < limit {
        next
    } else {
        None
    }
}

/// The tracks of the pages of a list that were read so far.
#[derive(Debug, PartialEq, Eq)]
pub struct TrackPages {
    pub tracks: Vec<ProviderTrack>,
    pub pages: u32,
}

impl TrackPages {
    pub fn new() -> (r: Self)
        ensures
            r.pages == 0,
            r.tracks@.len() == 0,
    {
        TrackPages { tracks: Vec::new(), pages: 0 }
    }

    /// Takes a page in, and says which one to ask for next, if any.
    pub fn page(
        &mut self,
        items: Vec<Option<TrackObject>>,
        next: Option<String>,
        limit: u32,
    ) -> (r: Option<String>)
        requires
            old(self).pages < MAX_PAGES,
        ensures
            final(self).pages == old(self).pages + 1,
            music::track_views(final(self).tracks@) == music::track_views(old(self).tracks@)
                + item_tracks(items@),
            r == next_page(
                old(self).pages + 1,
                final(self).tracks@.len(),
                limit,
                next,
            ),
            r is Some ==> final(self).pages < MAX_PAGES,
    {
        push_tracks(&mut self.tracks, items);
        self.pages = self.pages + 1;
        next_address(self.pages, self.tracks.len(), limit, next)
    }

    /// At most `limit` of the tracks.
    pub fn finish(self, limit: u32) -> (r: Vec<ProviderTrack>)
        ensures
            r@ == music::first_of(self.tracks@, limit),
    {
        first_tracks(self.tracks, limit)
    }
}

/// The playlists of the pages of a list that were read so far.
#[derive(Debug, PartialEq, Eq)]
pub struct PlaylistPages {
    pub playlists: Vec<ProviderEntity>,
    pub pages: u32,
}

impl PlaylistPages {
    pub fn new() -> (r: Self)
        ensures
            r.pages == 0,
            r.playlists@.len() == 0,
    {
        PlaylistPages { playlists: Vec::new(), pages: 0 }
    }

    /// Takes a page in, and says which one to ask for next, if any.
    pub fn page(
        &mut self,
        items: Vec<PlaylistObject>,
        next: Option<String>,
        limit: u32,
    ) -> (r: Option<String>)
        requires
            old(self).pages < MAX_PAGES,
        ensures
            final(self).pages == old(self).pages + 1,
            music::entity_views(final(self).playlists@) == music::entity_views(
                old(self).playlists@,
            ) + playlist_entities(items@),
            r == next_page(
                old(self).pages + 1,
                final(self).playlists@.len(),
                limit,
                next,
            ),
            r is Some ==> final(self).pages < MAX_PAGES,
    {
        push_playlists(&mut self.playlists, items);
        self.pages = self.pages + 1;
        next_address(self.pages, self.playlists.len(), limit, next)
    }

    /// At most `limit` of the playlists.
    pub fn finish(self, limit: u32) -> (r: Vec<ProviderEntity>)
        ensures
            r@ == music::first_of(self.playlists@, limit),
    {
        first_entities(self.playlists, limit)
    }
}

// ---- Signing in ----

/// Exchanges an authorization code for tokens. See [`exchange_reply`].
pub fn exchange_code(
    client_id: &str,
    code: &str,
    code_verifier: &str,
    redirect_uri: &str,
) -> (r: TokenRequest)
    ensures
        r.url@ == TOKEN_URL@,
        r.authorization is None,
        weburl::pair_views(r.form@) == seq![
            ("grant_type"@, "authorization_code"@),
            ("code"@, code@),
            ("redirect_uri"@, redirect_uri@),
            ("client_id"@, client_id@),
            ("code_verifier"@, code_verifier@),
        ],
{
    let mut form: Vec<(String, String)> = Vec::new();
    form.push(param("grant_type", "authorization_code"));
    form.push(param("code", code));
    form.push(param("redirect_uri", redirect_uri));
    form.push(param("client_id", client_id));
    form.push(param("code_verifier", code_verifier));
    assert(weburl::pair_views(form@) =~= seq![
        ("grant_type"@, "authorization_code"@),
        ("code"@, code@),
        ("redirect_uri"@, redirect_uri@),
        ("client_id"@, client_id@),
        ("code_verifier"@, code_verifier@),
    ]);
    TokenRequest { url: String::from_str(TOKEN_URL), authorization: None, form }
}

/// The refresh token to keep, from the answer to an exchange.
pub fn exchange_reply(token: TokenResponse) -> (r: Result<String, String>)
    ensures
        match token.refresh_token {
            Some(t) if t@.len() > 0 => r == Ok::<String, String>(t),
            _ => r is Err && r->Err_0@ == NO_REFRESH_TOKEN@,
        },
{
    match token.refresh_token {
        Some(t) => if t.as_str().is_empty() {
            Err(String::from_str(NO_REFRESH_TOKEN))
        } else {
            Ok(t)
        },
        None => Err(String::from_str(NO_REFRESH_TOKEN)),
    }
}

// ---- Laws ----

/// The track of a resource is called by the resource's own name, under its own id and with its own
/// duration; its artist is the first that is named and its album the name of the resource's
/// album, each empty where there is none.
pub proof fn law_track_tells_the_resource(t: TrackObject)
    ensures
        provider_track(t).id == t.id@,
        provider_track(t).title == t.name@,
        provider_track(t).duration_ms == t.duration_ms,
        t.artists@.len() > 0 ==> provider_track(t).artist == t.artists@[0]@,
        t.artists@.len() == 0 ==> provider_track(t).artist.len() == 0,
        t.album matches Some(a) ==> provider_track(t).album == a@,
        t.album is None ==> provider_track(t).album.len() == 0,
{
}

/// A search gives a track for each resource that it finds, in order, and none without a list of
/// them.
pub proof fn law_search_gives_each_track(items: Option<Vec<TrackObject>>)
    ensures
        items is None ==> found_tracks(items).len() == 0,
        items matches Some(v) ==> {
            &&& found_tracks(items).len() == v@.len()
            &&& forall|i: int|
                0 <= i < v@.len() ==> (#[trigger] found_tracks(items)[i]).title == v@[i].name@
                    && found_tracks(items)[i].id == v@[i].id@
        },
{
    if let Some(v) = items {
        assert forall|i: int| 0 <= i < v@.len() implies (#[trigger] found_tracks(items)[i]).title
            == v@[i].name@ && found_tracks(items)[i].id == v@[i].id@ by {
            law_track_tells_the_resource(v@[i]);
        }
    }
}

/// The entries of a library that hold a track give it, in order; the others give nothing. So what
/// an entry adds comes behind what the entries before it gave.
pub proof fn law_library_gives_each_track(
    items: Seq<Option<TrackObject>>,
    last: Option<TrackObject>,
)
    ensures
        item_tracks(Seq::empty()).len() == 0,
        last is None ==> item_tracks(items.push(last)) == item_tracks(items),
        last matches Some(t) ==> {
            &&& item_tracks(items.push(last)).len() == item_tracks(items).len() + 1
            &&& item_tracks(items.push(last)).drop_last() == item_tracks(items)
            &&& item_tracks(items.push(last)).last().id == t.id@
            &&& item_tracks(items.push(last)).last().title == t.name@
        },
{
    assert(items.push(last).drop_last() =~= items);
    if let Some(t) = last {
        law_track_tells_the_resource(t);
        assert(item_tracks(items.push(last)).drop_last() =~= item_tracks(items));
    }
}

/// A playlist keeps its id and name. It is told to have a track at least, so that the device asks
/// for its tracks, and else as many as it says.
pub proof fn law_playlist_is_told_with_tracks(p: PlaylistObject)
    ensures
        playlist_entity(p).id == p.id@,
        playlist_entity(p).name == p.name@,
        playlist_entity(p).track_count > 0,
        p.total matches Some(n) ==> n > 0 ==> playlist_entity(p).track_count == n,
        p.total is None ==> playlist_entity(p).track_count == 1,
{
}

/// Every playlist is listed, in order.
pub proof fn law_every_playlist_is_listed(items: Seq<PlaylistObject>)
    ensures
        playlist_entities(items).len() == items.len(),
        forall|i: int|
            0 <= i < items.len() ==> (#[trigger] playlist_entities(items)[i]).id == items[i].id@
                && playlist_entities(items)[i].name == items[i].name@,
{
}

/// The next page is read exactly where there is one, fewer tracks than asked for are there and
/// fewer than eight pages were read.
pub proof fn law_pages_end(pages: int, have: nat, limit: u32, next: Option<String>)
    requires
        have <= u32::MAX,
    ensures
        have >= limit ==> next_page(pages, have, limit, next) is None,
        pages >= 8 ==> next_page(pages, have, limit, next) is None,
        pages < 8 && have < limit ==> next_page(pages, have, limit, next) == next,
{
}

/// A token that is blank is none.
pub proof fn law_blank_token_is_none(o: Option<String>)
    ensures
        o is None ==> unless_blank(o) is None,
        o matches Some(t) ==> (chars::trimmed(t@).len() == 0 ==> unless_blank(o) is None) && (
        chars::trimmed(t@).len() > 0 ==> unless_blank(o) == o),
{
}

/// A search asks for tracks by the term, in the market and up to the limit that are given.
pub proof fn law_search_asks_for_tracks(term: Seq<char>, market: Seq<char>, limit: u32)
    ensures
        search_query(term, market, limit).contains(("q"@, term)),
        search_query(term, market, limit).contains(("type"@, "track"@)),
        search_query(term, market, limit).contains(("market"@, market)),
        search_query(term, market, limit).contains(("limit"@, number::nat_text(limit as nat))),
        search_query(term, market, limit).len() == 4,
{
    let q = search_query(term, market, limit);
    assert(q[0] == ("q"@, term));
    assert(q[1] == ("type"@, "track"@));
    assert(q[2] == ("market"@, market));
    assert(q[3] == ("limit"@, number::nat_text(limit as nat)));
}

/// The user's token is asked for by the token kept from the sign-in, and cannot be had without one.
pub proof fn law_user_access_needs_a_sign_in(
    c: SpotifyClient,
    own: bool,
    r: Result<TokenRequest, String>,
)
    requires
        call_ensures(SpotifyClient::has_user_auth, (&c,), own),
        call_ensures(SpotifyClient::user_access_token, (&c,), r),
    ensures
        r is Ok <==> own,
        own <==> c.refresh_token is Some,
        c.refresh_token matches Some(t) ==> {
            &&& r->Ok_0.authorization is None
            &&& weburl::pair_views(r->Ok_0.form@) == seq![
                ("grant_type"@, "refresh_token"@),
                ("refresh_token"@, t@),
                ("client_id"@, c.client_id@),
            ]
        },
{
}

/// A code is exchanged with the verifier and the address that it was asked for with; what is kept
/// is the token for later, which must not be empty.
pub proof fn law_code_is_exchanged_for_a_token(
    client_id: &str,
    code: &str,
    verifier: &str,
    redirect: &str,
    q: TokenRequest,
    token: TokenResponse,
    r: Result<String, String>,
)
    requires
        call_ensures(exchange_code, (client_id, code, verifier, redirect), q),
        call_ensures(exchange_reply, (token,), r),
    ensures
        q.authorization is None,
        weburl::pair_views(q.form@) == seq![
            ("grant_type"@, "authorization_code"@),
            ("code"@, code@),
            ("redirect_uri"@, redirect@),
            ("client_id"@, client_id@),
            ("code_verifier"@, verifier@),
        ],
        r matches Ok(t) ==> t@.len() > 0 && token.refresh_token == Some(t),
        token.refresh_token matches Some(t) ==> (t@.len() > 0 ==> r is Ok),
        token.refresh_token is None ==> r is Err,
{
}

/// The application's own token is asked for with its id and its secret.
pub proof fn law_application_signs_in_with_its_secret(c: SpotifyClient, q: TokenRequest)
    requires
        call_ensures(SpotifyClient::token, (&c,), q),
    ensures
        q.authorization matches Some(t) && t@ == "Basic "@ + codec::base64_text(
            vstd::utf8::encode_utf8(c.client_id@ + ":"@ + c.client_secret@),
        ),
        weburl::pair_views(q.form@) == seq![("grant_type"@, "client_credentials"@)],
{
}

/// The best match is what a search for one finds, and a search for none counts as one for one.
pub proof fn law_top_is_a_search_for_one(
    c: SpotifyClient,
    term: &str,
    top: Result<String, String>,
    one: Result<String, String>,
    none: Result<String, String>,
)
    requires
        call_ensures(SpotifyClient::search_top, (&c, term), top),
        call_ensures(SpotifyClient::search, (&c, term, 1u32), one),
        call_ensures(SpotifyClient::search_songs, (&c, term, 0u32), none),
    ensures
        weburl::text_result(top) == weburl::text_result(one),
        weburl::text_result(none) == weburl::text_result(one),
{
}

/// The user's library is asked for page by page: the tracks, the playlists, and the tracks of one
/// of them by its id.
pub proof fn law_library_is_asked_for(
    c: SpotifyClient,
    id: &str,
    tracks: String,
    playlists: String,
    playlist: String,
)
    requires
        call_ensures(SpotifyClient::library_tracks, (&c,), tracks),
        call_ensures(SpotifyClient::library_playlists, (&c,), playlists),
        call_ensures(SpotifyClient::library_playlist_tracks, (&c, id), playlist),
    ensures
        tracks@ == "https://api.spotify.com/v1"@ + "/me/tracks"@ + PAGE_QUERY@,
        playlists@ == "https://api.spotify.com/v1"@ + "/me/playlists"@ + PAGE_QUERY@,
        playlist@ == "https://api.spotify.com/v1"@ + "/playlists/"@ + id@ + ("/tracks"@ + PAGE_QUERY@),
{
}

/// A client keeps what it is made with, and takes tokens only if they are not blank.
pub proof fn law_client_keeps_its_parts(
    client_id: String,
    client_secret: String,
    market: String,
    token: Option<String>,
    c: SpotifyClient,
    d: SpotifyClient,
    e: SpotifyClient,
)
    requires
        call_ensures(SpotifyClient::new, (client_id, client_secret, market), c),
        call_ensures(SpotifyClient::with_refresh_token, (c, token), d),
        call_ensures(SpotifyClient::with_streaming_token, (c, token), e),
    ensures
        c.client_id == client_id && c.client_secret == client_secret && c.market == market,
        c.refresh_token is None && c.streaming_token is None,
        d.client_id == client_id && d.client_secret == client_secret && d.market == market,
        d.streaming_token is None && e.refresh_token is None,
        token matches Some(t) ==> (chars::trimmed(t@).len() > 0 ==> d.refresh_token == token
            && e.streaming_token == token),
        token matches Some(t) ==> (chars::trimmed(t@).len() == 0 ==> d.refresh_token is None
            && e.streaming_token is None),
{
}

/// An address that can be built is asked; one that cannot is an error with its reason.
pub proof fn law_address_is_asked_as_built(built: Result<Seq<char>, Seq<char>>)
    ensures
        built is Ok ==> search_url(built) == built,
        built matches Err(e) ==> search_url(built) == Err::<Seq<char>, Seq<char>>(
            "spotify url: "@ + e,
        ),
{
}

} // verus!
