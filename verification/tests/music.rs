use penumbra::config::{Config, MusicProviderKind};
use penumbra::external::apple_music::{
    artist_latest_album_reply, chart_reply, library_playlists_into, library_songs_into,
    search_entity_reply, search_reply, search_top_reply, song_reply, songs_into, AppleEntity,
    AppleMusicClient, AppleSong, EntityKind, LibraryPlaylist, LibrarySong, LibrarySongAttributes,
    SongAttributes, SongResource, NO_USER_TOKEN,
};
use penumbra::external::youtube::YoutubeClient;
use penumbra::json::parse_json;
use penumbra::music::{
    apple_entity, apple_genre_id, apple_id_playable, decode_entity_term, decoded, kind_name,
    lower_genre_id, my_playlists_reply, recommended, related_tracks, search_entity_id,
    search_synthetic, song_tracks, write_device_tokens, EntityStep, MusicProvider, NowPlaying,
    ProviderRequest, ProviderTrack, RecommendStep, APPLE_NOT_SET, LIBRARY_NEEDS_ACCOUNT, MOPIDY_NOT_SET, NO_TRACK_BY_ID,
};

fn song(id: &str) -> AppleSong {
    AppleSong {
        id: id.to_string(),
        name: "Name".to_string(),
        artist: "Artist".to_string(),
        album: "Album".to_string(),
        duration_ms: 1500,
        artwork_url: None,
    }
}

fn apple() -> MusicProvider {
    MusicProvider::from_config(&Config::default(), Some("dev".to_string()))
}

fn spotify() -> MusicProvider {
    let mut config = Config::default();
    config.music.provider = MusicProviderKind::Spotify;
    config.spotify.client_id = Some("id".to_string());
    config.spotify.client_secret = Some("secret".to_string());
    MusicProvider::from_config(&config, None)
}

fn mopidy() -> MusicProvider {
    let mut config = Config::default();
    config.music.provider = MusicProviderKind::Mopidy;
    config.mopidy.url = Some("http://m/".to_string());
    config.mopidy.stream_url = Some("http://ice/mp3".to_string());
    MusicProvider::from_config(&config, None)
}

#[test]
fn apple_default_provider_uses_sentinel_playback_url() {
    // Default config selects Apple; without a token it is Unconfigured,
    // which still yields a harmless Apple sentinel URL.
    let provider = MusicProvider::from_config(&Config::default(), None);
    assert!(matches!(
        provider,
        MusicProvider::Unconfigured {
            kind: MusicProviderKind::Apple,
            ..
        }
    ));
    assert_eq!(provider.playback_url("123"), "penumbra-apple://123");
}

#[test]
fn spotify_and_youtube_playback_urls_point_at_local_stream() {
    let sp = MusicProvider::Youtube(YoutubeClient::new(None));
    assert_eq!(
        sp.playback_url("vid"),
        "http://127.0.0.1:8080/tidal-shim/stream/youtube/vid"
    );
}

#[test]
fn apple_playability_boundary_is_2_to_the_31() {
    assert!(apple_id_playable("1888707290")); // "All the Love" (2026, low id) — plays
    assert!(apple_id_playable("1440650711")); // Bohemian — plays
    assert!(!apple_id_playable("6769568456")); // ICEMAN track — overflows, unplayable
    assert!(!apple_id_playable("2147483648")); // exactly 2^31 — unplayable
    assert!(apple_id_playable("2147483647")); // 2^31 - 1 — plays
    assert!(apple_id_playable("dQw4w9WgXcQ")); // non-numeric (YouTube) — pass-through
}

#[test]
fn selecting_spotify_without_creds_is_unconfigured() {
    let mut config = Config::default();
    config.music.provider = MusicProviderKind::Spotify;
    let provider = MusicProvider::from_config(&config, None);
    assert!(matches!(
        provider,
        MusicProvider::Unconfigured {
            kind: MusicProviderKind::Spotify,
            ..
        }
    ));
}

#[test]
fn blank_credentials_count_as_none() {
    let mut config = Config::default();
    config.music.provider = MusicProviderKind::Mopidy;
    config.mopidy.url = Some(" ".to_string());
    config.mopidy.stream_url = Some("http://s".to_string());
    let provider = MusicProvider::from_config(&config, None);
    assert!(matches!(&provider, MusicProvider::Unconfigured { reason, .. } if reason == MOPIDY_NOT_SET));
    assert_eq!(provider.name(), "mopidy");
    assert_eq!(provider.queue(3), Err(MOPIDY_NOT_SET.to_string()));
    assert_eq!(provider.search_artist("x"), Err(MOPIDY_NOT_SET.to_string()));
}

#[test]
fn providers_have_names_and_urls() {
    assert_eq!(apple().name(), "apple");
    assert_eq!(spotify().name(), "spotify");
    assert_eq!(mopidy().name(), "mopidy");
    assert_eq!(apple().playback_url("7"), "penumbra-apple://7");
    assert_eq!(spotify().playback_url("7"), "http://127.0.0.1:8080/tidal-shim/stream/spotify/7");
    assert_eq!(mopidy().playback_url("7"), "http://ice/mp3");
    assert_eq!(kind_name(MusicProviderKind::Youtube), "youtube");
}

#[test]
fn an_entity_leads_back_to_its_term() {
    let entity = search_synthetic("Daft Punk");
    assert_eq!(entity.id, "q_RGFmdCBQdW5r");
    assert_eq!(entity.name, "Daft Punk");
    assert_eq!(entity.track_count, 25);
    assert_eq!(decoded(&entity.id), "Daft Punk");
    assert_eq!(decode_entity_term("RGFmdCBQdW5r"), None);
    assert_eq!(decode_entity_term("q_!"), None);
    assert_eq!(decode_entity_term("q__w"), None);
    assert_eq!(decoded("plain"), "plain");
    assert_eq!(search_entity_id(""), "q_");
    assert_eq!(spotify().search_album("Daft Punk"), Ok(EntityStep::Ready(entity)));
}

#[test]
fn synthetic_ids_are_searched_for() {
    let id = search_entity_id("rock & roll");
    let url = match spotify().artist_tracks(&id, 0) {
        Ok(ProviderRequest::Spotify(url)) => url,
        other => panic!("{other:?}"),
    };
    assert!(url.contains("q=rock+%26+roll"));
    assert!(url.contains("limit=1"));
}

#[test]
fn apple_requests_carry_the_tokens() {
    let client = AppleMusicClient::new("dev".to_string(), "us".to_string());
    assert!(!client.has_user_token());
    assert_eq!(client.library_songs(5), Err(NO_USER_TOKEN.to_string()));
    let request = client.search_songs("a b", 99).unwrap();
    assert_eq!(
        request.url,
        "https://api.music.apple.com/v1/catalog/us/search?term=a+b&types=songs&limit=25"
    );
    assert_eq!(request.bearer, "dev");
    assert_eq!(request.user_token, None);

    let client = client.with_user_token(Some("user".to_string()));
    let request = client.library_playlist_tracks("p.1", 0).unwrap();
    assert_eq!(
        request.url,
        "https://api.music.apple.com/v1/me/library/playlists/p.1/tracks?limit=1"
    );
    assert_eq!(request.user_token.as_deref(), Some("user"));
    assert!(!client.with_user_token(Some(String::new())).has_user_token());
}

#[test]
fn apple_urls_name_what_is_asked_for() {
    let client = AppleMusicClient::new("dev".to_string(), "gb".to_string());
    let base = "https://api.music.apple.com/v1/catalog/gb";
    assert_eq!(client.song("1").unwrap().url, format!("{base}/songs/1?"));
    assert_eq!(client.chart_songs(6).unwrap().url, format!("{base}/charts?types=songs&limit=6"));
    assert_eq!(
        client.genre_chart_songs("21", 100).unwrap().url,
        format!("{base}/charts?types=songs&genre=21&limit=25")
    );
    assert_eq!(
        client.artist_top_songs("9", 3).unwrap().url,
        format!("{base}/artists/9/view/top-songs?limit=3")
    );
    assert_eq!(
        client.search_entity(EntityKind::Albums, "x").unwrap().url,
        format!("{base}/search?term=x&types=albums&limit=1")
    );
}

#[test]
fn songs_are_flattened() {
    let resource = |id: &str, attributes: Option<SongAttributes>| SongResource {
        id: id.to_string(),
        attributes,
    };
    let full = SongAttributes {
        name: "N".to_string(),
        artist_name: "A".to_string(),
        album_name: "B".to_string(),
        duration_in_millis: 3,
        artwork_url: Some("u".to_string()),
    };
    let songs = songs_into(vec![resource("1", Some(full)), resource("2", None)]);
    assert_eq!(songs[0].artist, "A");
    assert_eq!(songs[0].artwork_url.as_deref(), Some("u"));
    assert_eq!(songs[1].name, "");
    assert_eq!(songs[1].duration_ms, 0);
    assert_eq!(song_reply("9", Vec::new()), Err("apple catalog: song 9 not found".to_string()));
    assert_eq!(song_reply("9", vec![resource("9", None)]).unwrap().id, "9");
    assert_eq!(search_top_reply(None), None);
    assert!(search_reply(None).is_empty());
    let charts = vec![vec![resource("1", None)], vec![resource("2", None)]];
    assert_eq!(chart_reply(charts).len(), 1);
}

#[test]
fn library_songs_prefer_the_catalog() {
    let attributes = |catalog_id: Option<&str>| LibrarySongAttributes {
        name: "N".to_string(),
        artist_name: None,
        album_name: Some("B".to_string()),
        duration_ms: None,
        catalog_id: catalog_id.map(str::to_string),
    };
    let songs = library_songs_into(vec![
        LibrarySong { id: "i.1".to_string(), attributes: Some(attributes(Some("77"))) },
        LibrarySong { id: "i.2".to_string(), attributes: None },
        LibrarySong { id: "i.3".to_string(), attributes: Some(attributes(None)) },
    ]);
    let ids: Vec<&str> = songs.iter().map(|s| s.id.as_str()).collect();
    assert_eq!(ids, ["77", "i.3"]);
    assert_eq!(songs[0].artist, "");
    let playlists = library_playlists_into(vec![LibraryPlaylist { id: "p".to_string(), name: None }]);
    assert_eq!(playlists[0].name, "");
    let entities = my_playlists_reply(playlists, 0);
    assert_eq!(entities[0].track_count, 1);
}

#[test]
fn the_newest_real_album_is_the_latest() {
    let body = parse_json(
        r#"{"data":[
            {"attributes":{"name":"Old","releaseDate":"2001-01-01","trackCount":12}},
            {"attributes":{"name":"Hit - Single","releaseDate":"2024-01-01","trackCount":9}},
            {"attributes":{"releaseDate":"2030-01-01","trackCount":9}},
            {"attributes":{"name":"New","releaseDate":"2020-01-01","trackCount":4}},
            {"attributes":{"name":"Undated","trackCount":10}}
        ]}"#,
    )
    .unwrap();
    assert_eq!(artist_latest_album_reply(&body).as_deref(), Some("New"));
    let singles = parse_json(
        r#"{"data":[
            {"attributes":{"name":"A - Single","releaseDate":"2001"}},
            {"attributes":{"name":"B","releaseDate":"2002","trackCount":3}}
        ]}"#,
    )
    .unwrap();
    assert_eq!(artist_latest_album_reply(&singles).as_deref(), Some("B"));
    assert_eq!(artist_latest_album_reply(&parse_json("{}").unwrap()), None);
}

#[test]
fn entities_are_read_from_a_search() {
    let body = parse_json(
        r#"{"results":{"artists":{"data":[{"id":"5","attributes":{"name":"X","trackCount":4294967297}}]}}}"#,
    )
    .unwrap();
    let found = search_entity_reply(EntityKind::Artists, &body).unwrap();
    assert_eq!(found.id, "5");
    assert_eq!(found.name, "X");
    assert_eq!(found.track_count, Some(1));
    assert_eq!(search_entity_reply(EntityKind::Albums, &body), None);
    let entity = AppleEntity { id: "5".to_string(), name: "X".to_string(), track_count: Some(0) };
    assert_eq!(apple_entity(entity, 50).track_count, 1);
}

#[test]
fn related_tracks_leave_the_seed_out() {
    let related = related_tracks(vec![song("1"), song("2"), song("1")], "1").unwrap();
    let ids: Vec<&str> = related.iter().map(|t| t.id.as_str()).collect();
    assert_eq!(ids, ["2"]);
    assert_eq!(related_tracks(vec![song("1")], "1"), None);
    assert_eq!(song_tracks(vec![song("3")])[0].title, "Name");
    assert_eq!(ProviderTrack::from(song("4")).duration_ms, 1500);
}

#[test]
fn recommendations_go_by_the_seeds_artist() {
    match apple().recommendations("1") {
        RecommendStep::Ask(request) => assert!(request.url.contains("/songs/1?")),
        other => panic!("{other:?}"),
    }
    match apple().recommendations_of(Ok(song("1")), 6) {
        RecommendStep::Ask(request) => assert!(request.url.contains("term=Artist&")),
        other => panic!("{other:?}"),
    }
    assert_eq!(apple().recommendations_of(Err("e".to_string()), 6), RecommendStep::Queue);
    assert_eq!(spotify().recommendations("1"), RecommendStep::Queue);
    assert_eq!(spotify().recommendations_of(Ok(song("1")), 6), RecommendStep::Queue);
    assert_eq!(
        recommended(Ok(vec![song("1"), song("2")]), "1"),
        RecommendStep::Tracks(song_tracks(vec![song("2")]))
    );
    assert_eq!(recommended(Ok(vec![song("1")]), "1"), RecommendStep::Queue);
    assert_eq!(recommended(Err("e".to_string()), "1"), RecommendStep::Queue);
}

#[test]
fn genres_map_to_charts() {
    assert_eq!(apple_genre_id(" Hip-Hop "), Some("18"));
    assert_eq!(apple_genre_id("ELECTRONIC"), Some("17"));
    assert_eq!(apple_genre_id("polka"), None);
    assert_eq!(lower_genre_id("jazz"), Some("11"));
    assert_eq!(lower_genre_id("JAZZ"), None);
    for (name, id) in [("pop", "14"), ("rap", "18"), ("rock", "21"), ("classical", "5"), ("country", "6")] {
        assert_eq!(apple_genre_id(name), Some(id));
    }
}

#[test]
fn what_is_playing_is_summed_up() {
    let playing = |title: &str, artist: &str, album: &str| NowPlaying {
        title: title.to_string(),
        artist: artist.to_string(),
        album: album.to_string(),
    };
    assert_eq!(playing("T", "A", "B").summary(), "T — A (from B)");
    assert_eq!(playing("T", "", "T").summary(), "T");
    assert_eq!(playing("T", "A", "").summary(), "T — A");
}

#[test]
fn a_library_needs_an_account() {
    assert!(!apple().has_user_library());
    assert!(mopidy().has_user_library());
    assert!(!spotify().has_user_library());
    let youtube = MusicProvider::Youtube(YoutubeClient::new(None));
    assert_eq!(youtube.my_favorites(5), Err(LIBRARY_NEEDS_ACCOUNT.to_string()));
    assert_eq!(youtube.my_playlists(5), Err(LIBRARY_NEEDS_ACCOUNT.to_string()));
    assert_eq!(youtube.my_playlist_tracks("p", 5), Err(LIBRARY_NEEDS_ACCOUNT.to_string()));
    assert_eq!(youtube.track("p"), Err(NO_TRACK_BY_ID.to_string()));
}

#[test]
fn apple_without_a_token_says_what_to_set() {
    let provider = MusicProvider::from_config(&Config::default(), None);
    assert_eq!(provider.search_top("x"), Err(APPLE_NOT_SET.to_string()));
    assert!(provider.latest_album("x").is_none());
    assert!(apple().latest_album("x").is_some());
}

#[test]
fn device_tokens_are_published_as_json() {
    let mut config = Config::default();
    config.apple_music.user_token = Some("u\"".to_string());
    assert_eq!(
        write_device_tokens(&config, None),
        r#"{"developer_token":null,"user_token":"u\""}"#
    );
}

#[test]
fn ids_of_any_size_are_numbers() {
    assert!(!apple_id_playable("18446744073709551616"));
    assert!(!apple_id_playable("+99999999999999999999999"));
    assert!(apple_id_playable("+7"));
    assert!(apple_id_playable("00000000000000000000000007"));
    assert!(apple_id_playable(""));
    assert!(apple_id_playable("+"));
    assert!(apple_id_playable("99999999999999999999999x"));
}
