//! Tidal itself (`api.tidal.com`), for the device's own Tidal player.
//!
//! The user signs in by the OAuth device flow: the device shows a code, the user enters it
//! in a browser, and the server polls until it is given a refresh token.

use crate::chars;
use crate::chars::{contains, has_prefix, is_blank};
use crate::external::oauth::{TokenRequest, TokenResponse};
use crate::external::{text2, text3};
use crate::music;
use crate::music::ProviderTrack;
use crate::number;
use crate::number::{i64_text, u64_text};
use crate::weburl;
use crate::weburl::{param, with_query};
use vstd::prelude::*;
use vstd::string::*;

verus! {

pub const AUTH_BASE: &'static str = "https://auth.tidal.com/v1/oauth2";

pub const API_BASE: &'static str = "https://api.tidal.com/v1";

pub const SCOPE: &'static str = "r_usr w_usr w_sub";

pub const DEVICE_CODE_GRANT: &'static str = "urn:ietf:params:oauth:grant-type:device_code";

/// How long before they expire tokens are given up, in seconds.
pub const TOKEN_MARGIN: u64 = 60;

pub const QUEUE_SEARCH: &'static str = "top hits";

pub const NOT_SIGNED_IN: &'static str = "tidal: not signed in";

/// The pending login that the user must complete in a browser.
#[derive(Debug, Clone, PartialEq, Eq)]
pub struct DeviceLogin {
    pub device_code: String,
    pub user_code: String,
    pub verification_uri: String,
    pub interval: u64,
    pub expires_in: u64,
}

#[derive(Debug, Clone, PartialEq, Eq)]
pub struct TidalClient {
    pub client_id: String,
    pub client_secret: String,
    pub refresh_token: Option<String>,
    pub country_code: String,
    pub quality: String,
}

#[derive(Debug, PartialEq, Eq)]
pub struct DeviceAuthResponse {
    pub device_code: String,
    pub user_code: String,
    pub verification_uri: String,
    pub verification_uri_complete: String,
    pub interval: u64,
    pub expires_in: u64,
}

/// How often to poll where the answer does not say, in seconds.
pub fn default_interval() -> (r: u64)
    ensures
        r == 2,
{
    2
}

/// A POST of a form.
pub open spec fn is_form(r: TokenRequest, path: Seq<char>, form: Seq<(Seq<char>, Seq<char>)>) -> bool {
    &&& r.url@ == AUTH_BASE@ + path
    &&& r.authorization is None
    &&& weburl::pair_views(r.form@) == form
}

fn form_to(path: &str, form: Vec<(String, String)>) -> (r: TokenRequest)
    ensures
        is_form(r, path@, weburl::pair_views(form@)),
{
    TokenRequest { url: text2(AUTH_BASE, path), authorization: None, form }
}

/// The parameters of an API request: the country, and others.
pub open spec fn api_query(c: TidalClient, extra: Seq<(Seq<char>, Seq<char>)>) -> Seq<
    (Seq<char>, Seq<char>),
> {
    seq![("countryCode"@, c.country_code@)] + extra
}

/// The URL of an API request, or why there is none.
pub open spec fn api_url(built: Result<Seq<char>, Seq<char>>) -> Result<Seq<char>, Seq<char>> {
    match built {
        Ok(url) => Ok(url),
        Err(e) => Err("tidal url build failed: "@ + e),
    }
}

/// The URL of a request to a path of the API, or why there is none.
pub open spec fn api_get(c: TidalClient, path: Seq<char>, extra: Seq<(Seq<char>, Seq<char>)>) -> Result<
    Seq<char>,
    Seq<char>,
> {
    api_url(weburl::query_url(API_BASE@ + path, api_query(c, extra)))
}

/// The URL of an API request that was built, or not.
pub fn url_or_error(built: Result<String, String>) -> (r: Result<String, String>)
    ensures
        weburl::text_result(r) == api_url(weburl::text_result(built)),
{
    match built {
        Ok(url) => Ok(url),
        Err(e) => Err(text2("tidal url build failed: ", &e)),
    }
}

impl TidalClient {
    pub fn new(
        client_id: String,
        client_secret: String,
        refresh_token: Option<String>,
        country_code: String,
        quality: String,
    ) -> (r: Self)
        ensures
            r == (TidalClient {
                client_id,
                client_secret,
                refresh_token: match refresh_token {
                    Some(t) if chars::trimmed(t@).len() > 0 => Some(t),
                    _ => None,
                },
                country_code,
                quality,
            }),
    {
        let refresh_token = match refresh_token {
            Some(t) => if is_blank(&t) {
                None
            } else {
                Some(t)
            },
            None => None,
        };
        TidalClient { client_id, client_secret, refresh_token, country_code, quality }
    }

    /// Whether a user is signed in.
    pub fn has_user_auth(&self) -> (r: bool)
        ensures
            r == (self.refresh_token is Some),
    {
        self.refresh_token.is_some()
    }

    /// Starts a login. See [`device_login`].
    pub fn start_device_login(&self) -> (r: TokenRequest)
        ensures
            is_form(
                r,
                "/device_authorization"@,
                seq![("client_id"@, self.client_id@), ("scope"@, SCOPE@)],
            ),
    {
        let form = weburl::two_params("client_id", &self.client_id, "scope", SCOPE);
        form_to("/device_authorization", form)
    }

    /// Asks whether a login was completed. See [`poll_reply`].
    pub fn poll_login(&self, device_code: &str) -> (r: TokenRequest)
        ensures
            is_form(
                r,
                "/token"@,
                seq![
                    ("client_id"@, self.client_id@),
                    ("client_secret"@, self.client_secret@),
                    ("device_code"@, device_code@),
                    ("grant_type"@, DEVICE_CODE_GRANT@),
                    ("scope"@, SCOPE@),
                ],
            ),
    {
        let mut form: Vec<(String, String)> = Vec::new();
        form.push(param("client_id", &self.client_id));
        form.push(param("client_secret", &self.client_secret));
        form.push(param("device_code", device_code));
        form.push(param("grant_type", DEVICE_CODE_GRANT));
        form.push(param("scope", SCOPE));
        assert(weburl::pair_views(form@) =~= seq![
            ("client_id"@, self.client_id@),
            ("client_secret"@, self.client_secret@),
            ("device_code"@, device_code@),
            ("grant_type"@, DEVICE_CODE_GRANT@),
            ("scope"@, SCOPE@),
        ]);
        form_to("/token", form)
    }

    /// Asks for an access token for the user who is signed in.
    pub fn access_token(&self) -> (r: Result<TokenRequest, String>)
        ensures
            match self.refresh_token {
                Some(refresh) => r is Ok && is_form(
                    r->Ok_0,
                    "/token"@,
                    seq![
                        ("grant_type"@, "refresh_token"@),
                        ("refresh_token"@, refresh@),
                        ("client_id"@, self.client_id@),
                        ("client_secret"@, self.client_secret@),
                    ],
                ),
                None => r is Err && r->Err_0@ == NOT_SIGNED_IN@,
            },
    {
        match &self.refresh_token {
            Some(refresh) => {
                let mut form: Vec<(String, String)> = Vec::new();
                form.push(param("grant_type", "refresh_token"));
                form.push(param("refresh_token", refresh));
                form.push(param("client_id", &self.client_id));
                form.push(param("client_secret", &self.client_secret));
                assert(weburl::pair_views(form@) =~= seq![
                    ("grant_type"@, "refresh_token"@),
                    ("refresh_token"@, refresh@),
                    ("client_id"@, self.client_id@),
                    ("client_secret"@, self.client_secret@),
                ]);
                Ok(form_to("/token", form))
            },
            None => Err(String::from_str(NOT_SIGNED_IN)),
        }
    }

    /// The URL of a request to a path of the API.
    fn get_json(&self, path: &str, extra: Vec<(String, String)>) -> (r: Result<String, String>)
        ensures
            weburl::text_result(r) == api_get(*self, path@, weburl::pair_views(extra@)),
    {
        let ghost more = weburl::pair_views(extra@);
        let mut query = weburl::one_param("countryCode", &self.country_code);
        let mut rest = extra;
        let ghost first = query@;
        let ghost second = rest@;
        query.append(&mut rest);
        assert(weburl::pair_views(query@) =~= weburl::pair_views(first) + more);
        let url = text2(API_BASE, path);
        url_or_error(with_query(&url, &query))
    }

    /// The URL of a search for tracks. See [`search_reply`].
    pub fn search_songs(&self, term: &str, limit: u32) -> (r: Result<String, String>)
        ensures
            weburl::text_result(r) == api_get(
                *self,
                "/search"@,
                seq![
                    ("query"@, term@),
                    ("types"@, "TRACKS"@),
                    ("limit"@, number::nat_text(limit as nat)),
                ],
            ),
    {
        let extra = weburl::three_params(
            "query",
            term,
            "types",
            "TRACKS",
            "limit",
            &u64_text(limit as u64),
        );
        self.get_json("/search", extra)
    }

    /// The URL of a search for the top track.
    pub fn search_top(&self, term: &str) -> (r: Result<String, String>)
        ensures
            weburl::text_result(r) == api_get(
                *self,
                "/search"@,
                seq![
                    ("query"@, term@),
                    ("types"@, "TRACKS"@),
                    ("limit"@, number::nat_text(1)),
                ],
            ),
    {
        self.search_songs(term, 1)
    }

    /// The URL of a search for the default queue.
    pub fn queue(&self, limit: u32) -> (r: Result<String, String>)
        ensures
            weburl::text_result(r) == api_get(
                *self,
                "/search"@,
                seq![
                    ("query"@, QUEUE_SEARCH@),
                    ("types"@, "TRACKS"@),
                    ("limit"@, number::nat_text(limit as nat)),
                ],
            ),
    {
        self.search_songs(QUEUE_SEARCH, limit)
    }

    /// The URL of a track.
    pub fn track(&self, id: &str) -> (r: Result<String, String>)
        ensures
            weburl::text_result(r) == api_get(*self, "/tracks/"@ + id@, Seq::empty()),
    {
        let none: Vec<(String, String)> = Vec::new();
        assert(weburl::pair_views(none@) =~= Seq::<(Seq<char>, Seq<char>)>::empty());
        let path = text2("/tracks/", id);
        self.get_json(&path, none)
    }

    /// The URL of a track's playback information, which is passed on to the device as it
    /// comes.
    pub fn playback_info(&self, id: &str) -> (r: Result<String, String>)
        ensures
            weburl::text_result(r) == api_get(
                *self,
                "/tracks/"@ + id@ + "/playbackinfopostpaywall"@,
                seq![
                    ("playbackmode"@, "STREAM"@),
                    ("assetpresentation"@, "FULL"@),
                    ("audioquality"@, self.quality@),
                ],
            ),
    {
        let extra = weburl::three_params(
            "playbackmode",
            "STREAM",
            "assetpresentation",
            "FULL",
            "audioquality",
            &self.quality,
        );
        let path = text3("/tracks/", id, "/playbackinfopostpaywall");
        self.get_json(&path, extra)
    }
}

// ---- Replies ----

/// Where the user completes a login: the address with the code in it, where there is one.
pub open spec fn verification_address(d: DeviceAuthResponse) -> Seq<char> {
    if d.verification_uri_complete@.len() == 0 {
        d.verification_uri@
    } else if chars::starts_with(d.verification_uri_complete@, "http"@) {
        d.verification_uri_complete@
    } else {
        "https://"@ + d.verification_uri_complete@
    }
}

/// The login that was started.
pub fn device_login(d: DeviceAuthResponse) -> (r: DeviceLogin)
    ensures
        r.device_code == d.device_code,
        r.user_code == d.user_code,
        r.verification_uri@ == verification_address(d),
        r.interval == d.interval,
        r.expires_in == d.expires_in,
{
    let verification_uri = if d.verification_uri_complete.as_str().is_empty() {
        d.verification_uri
    } else if has_prefix(&d.verification_uri_complete, "http") {
        d.verification_uri_complete
    } else {
        text2("https://", &d.verification_uri_complete)
    };
    DeviceLogin {
        device_code: d.device_code,
        user_code: d.user_code,
        verification_uri,
        interval: d.interval,
        expires_in: d.expires_in,
    }
}

/// How a poll was answered.
#[derive(Debug, PartialEq, Eq)]
pub enum PollAnswer {
    Success(TokenResponse),
    /// With this text.
    Failure(String),
}

/// What a poll comes to: the refresh token once the user has authorized, nothing while
/// that is pending, and an error if it will not happen any more.
pub fn poll_reply(answer: PollAnswer) -> (r: Result<Option<String>, String>)
    ensures
        match answer {
            PollAnswer::Success(t) => r == Ok::<Option<String>, String>(
                match t.refresh_token {
                    Some(refresh) if refresh@.len() > 0 => Some(refresh),
                    _ => None,
                },
            ),
            PollAnswer::Failure(text) => if chars::contains_text(text@, "pending"@) {
                r == Ok::<Option<String>, String>(None)
            } else {
                r is Err && r->Err_0@ == "tidal token: "@ + text@
            },
        },
{
    match answer {
        PollAnswer::Success(t) => match t.refresh_token {
            Some(refresh) => if refresh.as_str().is_empty() {
                Ok(None)
            } else {
                Ok(Some(refresh))
            },
            None => Ok(None),
        },
        PollAnswer::Failure(text) => if contains(&text, "pending") {
            Ok(None)
        } else {
            Err(text2("tidal token: ", &text))
        },
    }
}

#[derive(Debug, PartialEq, Eq)]
pub struct TidalTrack {
    pub id: i64,
    pub title: String,
    /// In seconds.
    pub duration: u64,
    /// The name of the artist, in older replies.
    pub artist: Option<String>,
    /// The names of the artists.
    pub artists: Vec<Option<String>>,
    /// The title of the album.
    pub album: Option<String>,
}

/// The first of some names that is there.
pub open spec fn first_name(names: Seq<Option<String>>) -> Option<Seq<char>>
    decreases names.len(),
{
    if names.len() == 0 {
        None
    } else {
        match names[0] {
            Some(n) => Some(n@),
            None => first_name(names.drop_first()),
        }
    }
}

/// The artist of a track: the first that has a name.
pub open spec fn artist_name(t: TidalTrack) -> Seq<char> {
    match first_name(t.artists@) {
        Some(n) => n,
        None => match t.artist {
            Some(n) => n@,
            None => Seq::empty(),
        },
    }
}

/// The track of a resource. Its duration in milliseconds stops at the greatest number.
pub open spec fn provider_track(t: TidalTrack) -> music::TrackView {
    music::TrackView {
        id: number::int_text(t.id as int),
        title: t.title@,
        artist: artist_name(t),
        album: match t.album {
            Some(a) => a@,
            None => Seq::empty(),
        },
        duration_ms: if t.duration * 1000 > u64::MAX {
            u64::MAX
        } else {
            (t.duration * 1000) as u64
        },
    }
}

fn find_name(names: &Vec<Option<String>>) -> (r: Option<String>)
    ensures
        chars::opt_text(r) == first_name(names@),
{
    let mut i: usize = 0;
    assert(names@.skip(0) =~= names@);
    while i < names.len()
        invariant
            i <= names@.len(),
            first_name(names@) == first_name(names@.skip(i as int)),
        decreases names@.len() - i,
    {
        assert(names@.skip(i as int).drop_first() =~= names@.skip(i + 1));
        if let Some(n) = &names[i] {
            return Some(n.clone());
        }
        i += 1;
    }
    None
}

impl TidalTrack {
    pub fn into_provider(self) -> (r: ProviderTrack)
        ensures
            r@ == provider_track(self),
    {
        let artist = match find_name(&self.artists) {
            Some(n) => n,
            None => match self.artist {
                Some(n) => n,
                None => String::new(),
            },
        };
        let album = match self.album {
            Some(a) => a,
            None => String::new(),
        };
        let duration_ms: u64 = if self.duration > u64::MAX / 1000 {
            u64::MAX
        } else {
            self.duration * 1000
        };
        ProviderTrack { id: i64_text(self.id), title: self.title, artist, album, duration_ms }
    }
}

/// The tracks that a search found.
pub open spec fn found_tracks(items: Option<Vec<TidalTrack>>) -> Seq<music::TrackView> {
    match items {
        Some(v) => v@.map_values(|t: TidalTrack| provider_track(t)),
        None => Seq::empty(),
    }
}

/// The tracks that a search found, from a reply that may hold none.
pub fn search_reply(items: Option<Vec<TidalTrack>>) -> (r: Vec<ProviderTrack>)
    ensures
        music::track_views(r@) == found_tracks(items),
{
    let mut out: Vec<ProviderTrack> = Vec::new();
    if let Some(v) = items {
        let ghost all = v@;
        for t in it: v
            invariant
                it.seq() == all,
                out@.len() == it.index(),
                forall|i: int|
                    0 <= i < out@.len() ==> (#[trigger] out@[i])@ == provider_track(all[i]),
        {
            out.push(t.into_provider());
        }
        assert(music::track_views(out@) =~= all.map_values(|t: TidalTrack| provider_track(t)));
    } else {
        assert(music::track_views(out@) =~= Seq::<music::TrackView>::empty());
    }
    out
}

/// What is said of a request to a path that was not answered with success.
pub fn path_error(path: &str, status: &str, text: &str) -> (r: String)
    ensures
        r@ == "tidal "@ + path@ + " "@ + status@ + (": "@ + text@),
{
    let end = text2(": ", text);
    crate::external::text5("tidal ", path, " ", status, &end)
}

// ---- Laws ----

/// The track of a resource has its title, and its album's title if there is one; its id is the
/// number that it has, and its duration is in milliseconds.
pub proof fn law_track_tells_the_resource(t: TidalTrack)
    ensures
        provider_track(t).title == t.title@,
        t.album matches Some(a) ==> provider_track(t).album == a@,
        t.album is None ==> provider_track(t).album.len() == 0,
        t.id >= 0 ==> provider_track(t).id == number::nat_text(t.id as nat),
        t.duration <= u64::MAX / 1000 ==> provider_track(t).duration_ms == t.duration * 1000,
        t.duration > u64::MAX / 1000 ==> provider_track(t).duration_ms == u64::MAX,
{
}

/// The artist is the first one that is named in the list of artists; the single artist counts only
/// where none is named there.
pub proof fn law_listed_artist_goes_before(t: TidalTrack, k: int, name: String)
    requires
        0 <= k < t.artists@.len(),
        t.artists@[k] == Some(name),
        forall|i: int| 0 <= i < k ==> (#[trigger] t.artists@[i]) is None,
    ensures
        provider_track(t).artist == name@,
{
    lemma_first_name(t.artists@, k, name);
}

proof fn lemma_first_name(names: Seq<Option<String>>, k: int, name: String)
    requires
        0 <= k < names.len(),
        names[k] == Some(name),
        forall|i: int| 0 <= i < k ==> (#[trigger] names[i]) is None,
    ensures
        first_name(names) == Some(name@),
    decreases k,
{
    if k > 0 {
        assert(names[0] is None);
        assert(names.drop_first()[k - 1] == names[k]);
        assert forall|i: int| 0 <= i < k - 1 implies (#[trigger] names.drop_first()[i]) is None by {
            assert(names[i + 1] is None);
        }
        lemma_first_name(names.drop_first(), k - 1, name);
    }
}

/// Where the list names no artist, the single artist is told, and none without one.
pub proof fn law_single_artist_without_a_list(t: TidalTrack)
    requires
        forall|i: int| 0 <= i < t.artists@.len() ==> (#[trigger] t.artists@[i]) is None,
    ensures
        t.artist matches Some(n) ==> provider_track(t).artist == n@,
        t.artist is None ==> provider_track(t).artist.len() == 0,
{
    lemma_no_name(t.artists@);
}

proof fn lemma_no_name(names: Seq<Option<String>>)
    requires
        forall|i: int| 0 <= i < names.len() ==> (#[trigger] names[i]) is None,
    ensures
        first_name(names) is None,
    decreases names.len(),
{
    if names.len() > 0 {
        assert(names[0] is None);
        assert forall|i: int| 0 <= i < names.drop_first().len() implies (
        #[trigger] names.drop_first()[i]) is None by {
            assert(names[i + 1] is None);
        }
        lemma_no_name(names.drop_first());
    }
}

/// A search gives a track for each resource that it finds, in order.
pub proof fn law_search_gives_each_track(items: Option<Vec<TidalTrack>>)
    ensures
        items is None ==> found_tracks(items).len() == 0,
        items matches Some(v) ==> {
            &&& found_tracks(items).len() == v@.len()
            &&& forall|i: int|
                0 <= i < v@.len() ==> (#[trigger] found_tracks(items)[i]).title == v@[i].title@
        },
{
}

/// The user is sent to the complete address where there is one, as a web address, and else to the
/// plain one.
pub proof fn law_user_is_sent_to_the_complete_address(d: DeviceAuthResponse)
    ensures
        d.verification_uri_complete@.len() == 0 ==> verification_address(d) == d.verification_uri@,
        chars::starts_with(d.verification_uri_complete@, "http"@) && d.verification_uri_complete@.len()
            > 0 ==> verification_address(d) == d.verification_uri_complete@,
        !chars::starts_with(d.verification_uri_complete@, "http"@) && d.verification_uri_complete@.len()
            > 0 ==> verification_address(d) == "https://"@ + d.verification_uri_complete@,
{
}

/// Every request to the catalog tells the country first.
pub proof fn law_requests_tell_the_country(c: TidalClient, extra: Seq<(Seq<char>, Seq<char>)>)
    ensures
        api_query(c, extra).len() == extra.len() + 1,
        api_query(c, extra)[0] == ("countryCode"@, c.country_code@),
        api_query(c, extra).skip(1) == extra,
{
    assert(api_query(c, extra).skip(1) =~= extra);
}

/// A login that is still pending is not refused, and neither gives a token; one that is refused is
/// told with the reason; and one that succeeds gives the token for later, unless it is empty.
pub proof fn law_pending_login_is_no_failure(answer: PollAnswer, r: Result<Option<String>, String>)
    requires
        call_ensures(poll_reply, (answer,), r),
    ensures
        answer matches PollAnswer::Failure(t) ==> (chars::contains_text(t@, "pending"@) ==> r == Ok::<
            Option<String>,
            String,
        >(None)),
        answer matches PollAnswer::Failure(t) ==> (!chars::contains_text(t@, "pending"@) ==> (
        r matches Err(e) && e@ == "tidal token: "@ + t@)),
        answer matches PollAnswer::Success(t) ==> r is Ok && (t.refresh_token matches Some(s) ==> (s@.len()
            > 0 ==> r->Ok_0 == Some(s)) && (s@.len() == 0 ==> r->Ok_0 is None)),
        r matches Ok(Some(s)) ==> s@.len() > 0 && answer is Success,
{
}

/// Only a user who has signed in gets a token, by the token kept from then.
pub proof fn law_access_needs_a_sign_in(c: TidalClient, own: bool, r: Result<TokenRequest, String>)
    requires
        call_ensures(TidalClient::has_user_auth, (&c,), own),
        call_ensures(TidalClient::access_token, (&c,), r),
    ensures
        r is Ok <==> own,
        c.refresh_token matches Some(t) ==> r is Ok && is_form(
            r->Ok_0,
            "/token"@,
            seq![
                ("grant_type"@, "refresh_token"@),
                ("refresh_token"@, t@),
                ("client_id"@, c.client_id@),
                ("client_secret"@, c.client_secret@),
            ],
        ),
{
}

/// A search asks for tracks of the term, and for one where only the best is wanted; a track is
/// asked for by its id, and to be played in the quality that is set.
pub proof fn law_requests_name_their_subject(
    c: TidalClient,
    t: &str,
    limit: u32,
    songs: Result<String, String>,
    top: Result<String, String>,
    track: Result<String, String>,
    info: Result<String, String>,
)
    requires
        call_ensures(TidalClient::search_songs, (&c, t, limit), songs),
        call_ensures(TidalClient::search_top, (&c, t), top),
        call_ensures(TidalClient::track, (&c, t), track),
        call_ensures(TidalClient::playback_info, (&c, t), info),
    ensures
        limit == 1 ==> weburl::text_result(songs) == weburl::text_result(top),
        weburl::text_result(songs) == api_get(
            c,
            "/search"@,
            seq![("query"@, t@), ("types"@, "TRACKS"@), ("limit"@, number::nat_text(limit as nat))],
        ),
        weburl::text_result(track) == api_get(c, "/tracks/"@ + t@, Seq::empty()),
        weburl::text_result(info) == api_get(
            c,
            "/tracks/"@ + t@ + "/playbackinfopostpaywall"@,
            seq![
                ("playbackmode"@, "STREAM"@),
                ("assetpresentation"@, "FULL"@),
                ("audioquality"@, c.quality@),
            ],
        ),
{
}

/// A form goes to the sign-in service, and a request to the catalog, each under its path.
pub proof fn law_requests_go_to_their_services(
    q: TokenRequest,
    path: Seq<char>,
    form: Seq<(Seq<char>, Seq<char>)>,
    c: TidalClient,
    extra: Seq<(Seq<char>, Seq<char>)>,
)
    ensures
        is_form(q, path, form) ==> q.url@ == "https://auth.tidal.com/v1/oauth2"@ + path
            && q.authorization is None && weburl::pair_views(q.form@) == form,
        weburl::query_url("https://api.tidal.com/v1"@ + path, api_query(c, extra)) matches Ok(url)
            ==> api_get(c, path, extra) == Ok::<Seq<char>, Seq<char>>(url),
        weburl::query_url("https://api.tidal.com/v1"@ + path, api_query(c, extra)) matches Err(e)
            ==> api_get(c, path, extra) == Err::<Seq<char>, Seq<char>>(
            "tidal url build failed: "@ + e,
        ),
{
}

/// A login by a device starts with the client's id, and is polled with the device's code.
pub proof fn law_device_login_is_polled_by_its_code(
    c: TidalClient,
    code: &str,
    start: TokenRequest,
    poll: TokenRequest,
)
    requires
        call_ensures(TidalClient::start_device_login, (&c,), start),
        call_ensures(TidalClient::poll_login, (&c, code), poll),
    ensures
        start.url@ == "https://auth.tidal.com/v1/oauth2"@ + "/device_authorization"@,
        poll.url@ == "https://auth.tidal.com/v1/oauth2"@ + "/token"@,
        weburl::pair_views(start.form@).contains(("client_id"@, c.client_id@)),
        weburl::pair_views(poll.form@).contains(("client_id"@, c.client_id@)),
        weburl::pair_views(poll.form@).contains(("client_secret"@, c.client_secret@)),
        weburl::pair_views(poll.form@).contains(("device_code"@, code@)),
        weburl::pair_views(poll.form@).contains(
            ("grant_type"@, "urn:ietf:params:oauth:grant-type:device_code"@),
        ),
{
    let a = weburl::pair_views(start.form@);
    let b = weburl::pair_views(poll.form@);
    assert(a[0] == ("client_id"@, c.client_id@));
    assert(b[0] == ("client_id"@, c.client_id@));
    assert(b[1] == ("client_secret"@, c.client_secret@));
    assert(b[2] == ("device_code"@, code@));
    assert(b[3].0 == "grant_type"@);
}

/// A login that was started tells the codes and the times that it was given.
pub proof fn law_login_tells_its_codes(d: DeviceAuthResponse, r: DeviceLogin)
    requires
        call_ensures(device_login, (d,), r),
    ensures
        r.device_code == d.device_code,
        r.user_code == d.user_code,
        r.interval == d.interval,
        r.expires_in == d.expires_in,
        d.verification_uri_complete@.len() == 0 ==> r.verification_uri@ == d.verification_uri@,
{
}

} // verus!
