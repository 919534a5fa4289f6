use penumbra::external::mopidy::{
    decode_uri, encode_uri, list_items, playlist_items, playlists_into, rpc, rpc_reply,
    rpc_status_error, search_items, track_item, track_reply, tracks_into, MopidyClient, MopidyRef,
    MopidyTrack, QueueStep, BAD_PLAYLIST_ID, BAD_TRACK_ID,
};
use penumbra::external::oauth::{TokenCache, TokenResponse};
use penumbra::external::spotify::{
    exchange_code, exchange_reply, PlaylistObject, PlaylistPages, SpotifyClient, TrackObject,
    TrackPages, MAX_PAGES, NO_REFRESH_TOKEN, NO_SIGN_IN, TOKEN_MARGIN, TOKEN_URL,
};
use penumbra::external::spotify_playback::{choose_format, OggFormat, NO_SUPPORTED_FORMAT};
use penumbra::external::tidal::{
    default_interval, device_login, path_error, poll_reply, DeviceAuthResponse, PollAnswer,
    TidalClient, TidalTrack, NOT_SIGNED_IN,
};
use penumbra::external::{decode_failed, request_failed, status_error};
use penumbra::json::{object, parse_json, Json};
use penumbra::music::ProviderEntity;

fn json(t: &str) -> Json {
    parse_json(t).unwrap()
}

fn mopidy() -> MopidyClient {
    MopidyClient::new("http://m:6680//", "http://ice".to_string())
}

fn mopidy_track(uri: &str) -> MopidyTrack {
    MopidyTrack {
        uri: uri.to_string(),
        name: "N".to_string(),
        artists: vec!["A".to_string(), "B".to_string()],
        album: None,
        length: Some(5),
    }
}

fn token(access: &str, expires_in: u64, refresh: Option<&str>) -> TokenResponse {
    TokenResponse {
        access_token: access.to_string(),
        expires_in,
        refresh_token: refresh.map(str::to_string),
    }
}

#[test]
fn mopidy_ids_lead_back_to_uris() {
    let id = encode_uri("spotify:track:1?");
    assert_eq!(id, "c3BvdGlmeTp0cmFjazoxPw");
    assert_eq!(decode_uri(&id).as_deref(), Some("spotify:track:1?"));
    assert_eq!(decode_uri("!"), None);
    assert_eq!(decode_uri("_w"), None);
}

#[test]
fn mopidy_is_called_by_json_rpc() {
    assert_eq!(mopidy().rpc_url, "http://m:6680/mopidy/rpc");
    assert_eq!(mopidy().stream_url(), "http://ice");
    assert_eq!(
        rpc("core.x", object(Vec::new())),
        r#"{"id":1,"jsonrpc":"2.0","method":"core.x","params":{}}"#
    );
    assert_eq!(
        mopidy().search_songs("a\"b"),
        r#"{"id":1,"jsonrpc":"2.0","method":"core.library.search","params":{"query":{"any":["a\"b"]}}}"#
    );
    assert_eq!(json(&mopidy().playlists()).get_str("method"), Some("core.playlists.as_list"));
    assert_eq!(rpc_status_error("core.x", "500"), "mopidy core.x 500");
    assert_eq!(
        rpc_reply("core.x", Some("{}"), Json::Null),
        Err("mopidy core.x error: {}".to_string())
    );
    assert_eq!(rpc_reply("core.x", None, Json::Bool(true)), Ok(Json::Bool(true)));
}

#[test]
fn mopidy_plays_a_track_in_three_calls() {
    let id = encode_uri("yt:1");
    let methods: Vec<String> = mopidy()
        .play_track(&id)
        .unwrap()
        .iter()
        .map(|c| json(c).get_str("method").unwrap().to_string())
        .collect();
    assert_eq!(methods, ["core.tracklist.clear", "core.tracklist.add", "core.playback.play"]);
    assert_eq!(mopidy().play_track("!"), Err(BAD_TRACK_ID.to_string()));
    assert_eq!(mopidy().playlist_tracks("!"), Err(BAD_PLAYLIST_ID.to_string()));
    let (call, uri) = mopidy().track(&id).unwrap();
    assert_eq!(uri, "yt:1");
    assert!(call.contains(r#""uris":["yt:1"]"#));
}

#[test]
fn mopidy_transport_knows_five_actions() {
    for action in ["pause", "resume", "next", "previous", "stop"] {
        let call = json(&mopidy().transport(action).unwrap());
        assert_eq!(call.get_str("method"), Some(format!("core.playback.{action}").as_str()));
    }
    assert_eq!(
        mopidy().transport("rewind"),
        Err("unsupported mopidy transport: rewind".to_string())
    );
}

#[test]
fn mopidy_replies_become_tracks() {
    let tracks = tracks_into(vec![Some(mopidy_track("a")), None, Some(mopidy_track("b"))], 1);
    assert_eq!(tracks.len(), 1);
    assert_eq!(tracks[0].id, encode_uri("a"));
    assert_eq!(tracks[0].artist, "A");
    assert_eq!(tracks[0].album, "");
    assert_eq!(tracks[0].duration_ms, 5);
    assert_eq!(track_reply("u", None), Err("mopidy track not found: u".to_string()));
    let refs = vec![Some(MopidyRef { uri: "p".to_string(), name: "P".to_string() }), None];
    let playlists = playlists_into(refs, 9);
    assert_eq!(playlists.len(), 1);
    assert_eq!(playlists[0].track_count, 1);
    assert_eq!(playlists[0].id, encode_uri("p"));
}

#[test]
fn mopidy_replies_are_walked() {
    let results = json(r#"[{"tracks":[1,2]},{},{"tracks":[3]}]"#);
    assert_eq!(search_items(&results).len(), 3);
    assert_eq!(list_items(&results).len(), 3);
    assert!(list_items(&json("{}")).is_empty());
    assert_eq!(playlist_items(&json(r#"{"tracks":[1]}"#)).len(), 1);
    assert!(track_item(&json(r#"{"u":[7]}"#), "u").is_some());
    assert!(track_item(&json(r#"{"u":[]}"#), "u").is_none());
}

#[test]
fn a_mopidy_queue_starts_with_a_playlist() {
    let playlist = |id: &str| ProviderEntity {
        id: id.to_string(),
        name: String::new(),
        track_count: 1,
    };
    let id = encode_uri("p");
    assert_eq!(
        mopidy().queue(&Ok(vec![playlist(&id), playlist("x")])),
        Ok(QueueStep::AskPlaylist(mopidy().playlist_tracks(&id).unwrap()))
    );
    assert_eq!(mopidy().queue(&Ok(vec![playlist("!")])), Err(BAD_PLAYLIST_ID.to_string()));
    let search = || Ok(QueueStep::Search(mopidy().search_songs("top hits")));
    assert_eq!(mopidy().queue(&Ok(Vec::new())), search());
    assert_eq!(mopidy().queue(&Err("e".to_string())), search());
    assert_eq!(mopidy().queue_of(Ok(Vec::new())), search());
    assert_eq!(mopidy().queue_of(Err("e".to_string())), Err("e".to_string()));
    let tracks = || tracks_into(vec![Some(mopidy_track("a"))], 1);
    assert_eq!(mopidy().queue_of(Ok(tracks())), Ok(QueueStep::Tracks(tracks())));
}

#[test]
fn tokens_are_kept_until_shortly_before_they_expire() {
    let second = 1_000_000_000u64;
    let mut cache = TokenCache::new();
    assert_eq!(cache.get(0), None);
    assert_eq!(cache.put(token("t", 100, None), TOKEN_MARGIN, 0), "t");
    assert_eq!(cache.get(70 * second - 1).as_deref(), Some("t"));
    assert_eq!(cache.get(70 * second), None);
    // However soon a token expires, it is kept for a minute.
    cache.put(token("u", 0, None), TOKEN_MARGIN, 0);
    assert_eq!(cache.get(60 * second - 1).as_deref(), Some("u"));
    assert_eq!(cache.get(60 * second), None);
}

#[test]
fn spotify_asks_for_tokens() {
    let client = SpotifyClient::new("id".to_string(), "secret".to_string(), "US".to_string());
    let request = client.token();
    assert_eq!(request.url, TOKEN_URL);
    assert_eq!(request.authorization.as_deref(), Some("Basic aWQ6c2VjcmV0"));
    assert_eq!(
        request.form,
        vec![("grant_type".to_string(), "client_credentials".to_string())]
    );
    assert_eq!(client.user_access_token(), Err(NO_SIGN_IN.to_string()));
    let blank = client.clone().with_refresh_token(Some(" ".to_string()));
    assert!(!blank.has_user_auth());
    let client = client.with_refresh_token(Some("r".to_string()));
    assert!(client.has_user_auth());
    let form = client.user_access_token().unwrap().form;
    assert!(form.contains(&("refresh_token".to_string(), "r".to_string())));
    assert_eq!(client.streaming_token(), None);
    assert_eq!(
        client.with_streaming_token(Some("s".to_string())).streaming_token(),
        Some("s")
    );
}

#[test]
fn spotify_searches_by_url() {
    let client = SpotifyClient::new("id".to_string(), "secret".to_string(), "US".to_string());
    let base = "https://api.spotify.com/v1";
    assert_eq!(
        client.search_songs("a&b", 0).unwrap(),
        format!("{base}/search?q=a%26b&type=track&market=US&limit=1")
    );
    assert_eq!(
        client.queue(6).unwrap(),
        format!("{base}/search?q=year%3A2024-2026&type=track&market=US&limit=6")
    );
    assert_eq!(client.library_tracks(), format!("{base}/me/tracks?limit=50"));
    assert_eq!(client.library_playlist_tracks("p"), format!("{base}/playlists/p/tracks?limit=50"));
}

fn track_object(id: &str) -> TrackObject {
    TrackObject {
        id: id.to_string(),
        name: "N".to_string(),
        artists: Vec::new(),
        album: Some("B".to_string()),
        duration_ms: 9,
    }
}

#[test]
fn spotify_pages_are_followed_up_to_a_limit() {
    let mut pages = TrackPages::new();
    let next = pages.page(vec![Some(track_object("1")), None], Some("u2".to_string()), 3);
    assert_eq!(next.as_deref(), Some("u2"));
    let next = pages.page(
        vec![Some(track_object("2")), Some(track_object("3")), Some(track_object("4"))],
        Some("u3".to_string()),
        3,
    );
    assert_eq!(next, None);
    let ids: Vec<String> = pages.finish(3).into_iter().map(|t| t.id).collect();
    assert_eq!(ids, ["1", "2", "3"]);

    let mut pages = TrackPages::new();
    for i in 0..MAX_PAGES {
        let next = pages.page(Vec::new(), Some("u".to_string()), 5);
        assert_eq!(next.is_some(), i + 1 < MAX_PAGES);
    }

    let mut playlists = PlaylistPages::new();
    let object = |total: Option<u32>| PlaylistObject {
        id: "p".to_string(),
        name: "P".to_string(),
        total,
    };
    assert_eq!(playlists.page(vec![object(None), object(Some(0)), object(Some(7))], None, 9), None);
    let counts: Vec<u32> = playlists.finish(9).iter().map(|p| p.track_count).collect();
    assert_eq!(counts, [1, 1, 7]);
}

#[test]
fn spotify_codes_are_exchanged() {
    let request = exchange_code("id", "code", "verifier", "uri");
    assert_eq!(request.authorization, None);
    let names: Vec<&str> = request.form.iter().map(|p| p.0.as_str()).collect();
    assert_eq!(names, ["grant_type", "code", "redirect_uri", "client_id", "code_verifier"]);
    assert_eq!(exchange_reply(token("a", 1, Some("r"))), Ok("r".to_string()));
    assert_eq!(exchange_reply(token("a", 1, Some(""))), Err(NO_REFRESH_TOKEN.to_string()));
    assert_eq!(exchange_reply(token("a", 1, None)), Err(NO_REFRESH_TOKEN.to_string()));
}

#[test]
fn the_best_format_is_chosen() {
    assert_eq!(choose_format(&vec![OggFormat::Vorbis320, OggFormat::Vorbis96, OggFormat::Vorbis160]), Ok(OggFormat::Vorbis160));
    assert_eq!(choose_format(&vec![OggFormat::Vorbis320, OggFormat::Vorbis96]), Ok(OggFormat::Vorbis96));
    assert_eq!(choose_format(&vec![OggFormat::Vorbis320]), Ok(OggFormat::Vorbis320));
    assert_eq!(choose_format(&Vec::new()), Err(NO_SUPPORTED_FORMAT.to_string()));
}

fn tidal(refresh: Option<&str>) -> TidalClient {
    TidalClient::new(
        "id".to_string(),
        "secret".to_string(),
        refresh.map(str::to_string),
        "US".to_string(),
        "HIGH".to_string(),
    )
}

#[test]
fn tidal_signs_in_by_device() {
    assert_eq!(default_interval(), 2);
    let answer = |complete: &str| {
        device_login(DeviceAuthResponse {
            device_code: "d".to_string(),
            user_code: "u".to_string(),
            verification_uri: "plain".to_string(),
            verification_uri_complete: complete.to_string(),
            interval: 2,
            expires_in: 300,
        })
        .verification_uri
    };
    assert_eq!(answer("link.tidal.com/X"), "https://link.tidal.com/X");
    assert_eq!(answer("http://x"), "http://x");
    assert_eq!(answer(""), "plain");
    assert!(!tidal(Some(" ")).has_user_auth());
    assert_eq!(tidal(None).access_token(), Err(NOT_SIGNED_IN.to_string()));
    let start = tidal(None).start_device_login();
    assert_eq!(start.url, "https://auth.tidal.com/v1/oauth2/device_authorization");
    let poll = tidal(None).poll_login("dev");
    assert!(poll.form.contains(&("device_code".to_string(), "dev".to_string())));
}

#[test]
fn tidal_polls_until_the_user_agrees() {
    assert_eq!(poll_reply(PollAnswer::Success(token("a", 1, Some("r")))), Ok(Some("r".to_string())));
    assert_eq!(poll_reply(PollAnswer::Success(token("a", 1, Some("")))), Ok(None));
    assert_eq!(poll_reply(PollAnswer::Failure("authorization_pending".to_string())), Ok(None));
    assert_eq!(
        poll_reply(PollAnswer::Failure("expired".to_string())),
        Err("tidal token: expired".to_string())
    );
}

#[test]
fn tidal_tracks_are_flattened() {
    let track = TidalTrack {
        id: -7,
        title: "T".to_string(),
        duration: u64::MAX,
        artist: Some("single".to_string()),
        artists: vec![None, Some("first".to_string())],
        album: None,
    };
    let track = track.into_provider();
    assert_eq!(track.id, "-7");
    assert_eq!(track.artist, "first");
    assert_eq!(track.duration_ms, u64::MAX);
    let url = tidal(None).search_songs("a b", 3).unwrap();
    assert_eq!(
        url,
        "https://api.tidal.com/v1/search?countryCode=US&query=a+b&types=TRACKS&limit=3"
    );
    assert!(tidal(None).playback_info("5").unwrap().contains("/tracks/5/playbackinfopostpaywall?"));
    assert_eq!(path_error("/x", "404", "t"), "tidal /x 404: t");
}

#[test]
fn failures_name_the_service() {
    assert_eq!(request_failed("apple me", "e"), "apple me request failed: e");
    assert_eq!(status_error("spotify", "404 Not Found", "t"), "spotify 404 Not Found: t");
    assert_eq!(decode_failed("tidal", "e"), "tidal decode failed: e");
}
