use penumbra::external::youtube::{
    attr, choose_audio_playlist, collect_songs, first_string, is_count, is_count_text, itag_of,
    media_playlist, parse_duration, parse_media_playlist, parse_song_item, player_reply,
    resolved_audio, search_limit, search_reply, YoutubeClient, NO_MANIFEST, NO_PLAYLIST,
    NO_SEGMENTS,
};
use penumbra::json::{parse_json, Json};

fn json(t: &str) -> Json {
    parse_json(t).unwrap()
}

fn item(id: &str) -> String {
    format!(
        r#"{{"videoId":"{id}","flexColumns":[
            {{"musicResponsiveListItemFlexColumnRenderer":{{"text":{{"runs":[{{"text":"Bohemian "}},{{"text":"Rhapsody"}}]}}}}}},
            {{"musicResponsiveListItemFlexColumnRenderer":{{"text":{{"runs":[{{"text":"Queen"}},{{"text":" • "}},{{"text":"1B plays"}},{{"text":"5:55"}},{{"text":"A Night at the Opera"}}]}}}}}}
        ]}}"#
    )
}

#[test]
fn parses_hls_attr_and_itag() {
    assert_eq!(attr(r#"#EXT-X-MAP:URI="https://x/y""#, "URI").as_deref(), Some("https://x/y"));
    assert_eq!(itag_of("https://h/api/manifest/hls_playlist/itag/140/source/youtube"), 140);
}

#[test]
fn parses_duration() {
    assert_eq!(parse_duration("3:33"), Some(213_000));
    assert_eq!(parse_duration("1:02:03"), Some(3_723_000));
    assert_eq!(parse_duration("Queen"), None);
}

#[test]
fn ts_vs_fmp4_content_type() {
    let ts = "#EXTM3U\nhttps://seg1.ts\nhttps://seg2.ts\n";
    assert_eq!(parse_media_playlist(ts).0, "video/mp2t");
    let fmp4 = "#EXTM3U\n#EXT-X-MAP:URI=\"https://init.mp4\"\nhttps://seg1.mp4\n";
    let (ct, segs) = parse_media_playlist(fmp4);
    assert_eq!(ct, "audio/mp4");
    assert_eq!(segs[0], "https://init.mp4"); // init prepended
}

#[test]
fn chooses_audio_rendition_over_variant() {
    let master = "#EXTM3U\n\
        #EXT-X-MEDIA:TYPE=AUDIO,GROUP-ID=\"233\",URI=\"https://a/itag/139/x\"\n\
        #EXT-X-MEDIA:TYPE=AUDIO,GROUP-ID=\"234\",URI=\"https://a/itag/140/x\"\n\
        #EXT-X-STREAM-INF:BANDWIDTH=300000,AUDIO=\"234\"\n\
        https://variant/itag/230/x\n";
    assert_eq!(choose_audio_playlist(master).as_deref(), Some("https://a/itag/140/x"));
}

#[test]
fn without_audio_the_smallest_variant_is_chosen() {
    let master = "#EXTM3U\n\
        #EXT-X-STREAM-INF:BANDWIDTH=300000\n\
        # a comment\n\
        https://big/x\n\
        #EXT-X-STREAM-INF:BANDWIDTH=90000\n\
        \n\
        https://small/x \n\
        #EXT-X-STREAM-INF:CODECS=none\n\
        https://unknown/x\n";
    assert_eq!(choose_audio_playlist(master).as_deref(), Some("https://small/x"));
    assert_eq!(choose_audio_playlist("#EXTM3U\n"), None);
    assert_eq!(choose_audio_playlist("#EXT-X-STREAM-INF:BANDWIDTH=1\n"), None);
}

#[test]
fn the_init_segment_comes_first_wherever_it_stands() {
    let media = "https://seg1.mp4\n  #EXT-X-MAP:URI=\"https://init.mp4\"\nhttps://seg2.mp4\n";
    let (kind, segments) = parse_media_playlist(media);
    assert_eq!(kind, "audio/mp4");
    assert_eq!(segments, ["https://init.mp4", "https://seg1.mp4", "https://seg2.mp4"]);
}

#[test]
fn attributes_and_itags_may_be_missing() {
    assert_eq!(attr("URI=x", "URI"), None);
    assert_eq!(attr("URI=\"x", "URI"), None);
    assert_eq!(attr("URI=\"\"", "URI").as_deref(), Some(""));
    assert_eq!(itag_of("https://h/itag/abc/x"), 0);
    assert_eq!(itag_of("https://h/x"), 0);
}

#[test]
fn durations_have_two_or_three_parts() {
    assert_eq!(parse_duration(" 0:01 "), Some(1_000));
    assert_eq!(parse_duration("1:2:3:4"), None);
    assert_eq!(parse_duration("1:"), None);
    assert_eq!(parse_duration("+1:+2"), Some(62_000));
    assert_eq!(parse_duration("59"), None);
}

#[test]
fn counts_are_told_from_albums() {
    assert!(is_count("1.2B PLAYS"));
    assert!(is_count("3 Views"));
    assert!(is_count_text("12 listeners"));
    assert!(is_count_text("9 streams"));
    assert!(!is_count_text("an album"));
    assert!(!is_count("A Night at the Opera"));
}

#[test]
fn a_song_is_read_from_its_columns() {
    let track = parse_song_item(&json(&item("dQw4w9WgXcQ"))).unwrap();
    assert_eq!(track.id, "dQw4w9WgXcQ");
    assert_eq!(track.title, "Bohemian Rhapsody");
    assert_eq!(track.artist, "Queen");
    assert_eq!(track.album, "A Night at the Opera");
    assert_eq!(track.duration_ms, 355_000);
}

#[test]
fn a_song_needs_a_video_of_eleven_bytes() {
    assert!(parse_song_item(&json(r#"{"videoId":"short"}"#)).is_none());
    assert!(parse_song_item(&json("{}")).is_none());
    let bare = parse_song_item(&json(r#"{"x":[{"videoId":"12345678901"}]}"#)).unwrap();
    assert_eq!(bare.title, "");
    assert_eq!(bare.artist, "");
    assert_eq!(bare.album, "");
    assert_eq!(bare.duration_ms, 0);
}

#[test]
fn the_first_string_is_found_in_the_tree() {
    let value = json(r#"{"a":{"k":1,"z":{"k":"deep"}},"b":[{"k":"later"}]}"#);
    assert_eq!(first_string(&value, "k").as_deref(), Some("deep"));
    assert_eq!(first_string(&value, "none"), None);
}

#[test]
fn songs_are_collected_once_each() {
    let wrap = |id: &str| format!(r#"{{"musicResponsiveListItemRenderer":{}}}"#, item(id));
    let reply = json(&format!(
        r#"{{"contents":[{},{},{}]}}"#,
        wrap("aaaaaaaaaaa"),
        wrap("aaaaaaaaaaa"),
        wrap("bbbbbbbbbbb")
    ));
    let mut found = Vec::new();
    let mut seen = Vec::new();
    collect_songs(&reply, &mut found, &mut seen);
    let ids: Vec<String> = found.into_iter().map(|t| t.id).collect();
    assert_eq!(seen, ids);
    let mut again = Vec::new();
    collect_songs(&reply, &mut again, &mut seen);
    assert!(again.is_empty());
    assert_eq!(seen, ids);
    assert_eq!(ids, ["aaaaaaaaaaa", "bbbbbbbbbbb"]);
    assert_eq!(search_reply(&reply, 1).len(), 1);
    assert_eq!(search_limit(0), 1);
    assert_eq!(search_limit(7), 7);
}

#[test]
fn a_player_reply_gives_the_manifest() {
    let ok = r#"{"playabilityStatus":{"status":"OK"},"streamingData":{"hlsManifestUrl":"https://m"}}"#;
    assert_eq!(player_reply(&json(ok)), Ok("https://m".to_string()));
    assert_eq!(
        player_reply(&json(r#"{"playabilityStatus":{"status":"OK"}}"#)),
        Err(NO_MANIFEST.to_string())
    );
    assert_eq!(
        player_reply(&json(r#"{"playabilityStatus":{"status":"ERROR","reason":"gone"}}"#)),
        Err("youtube not playable: gone".to_string())
    );
    assert_eq!(
        player_reply(&json(r#"{"playabilityStatus":{"status":"ERROR"}}"#)),
        Err("youtube not playable: ERROR".to_string())
    );
    assert_eq!(player_reply(&json("{}")), Err("youtube not playable: ".to_string()));
}

#[test]
fn playlists_without_audio_are_refused() {
    assert_eq!(media_playlist("#EXTM3U\n"), Err(NO_PLAYLIST.to_string()));
    assert_eq!(
        media_playlist("#EXT-X-STREAM-INF:BANDWIDTH=1\nhttps://v\n"),
        Ok("https://v".to_string())
    );
    assert_eq!(resolved_audio("#EXTM3U\n"), Err(NO_SEGMENTS.to_string()));
    let audio = resolved_audio("https://s\n").unwrap();
    assert_eq!(audio.content_type, "video/mp2t");
    assert_eq!(audio.segments, ["https://s"]);
}

#[test]
fn requests_hold_the_client_and_the_query() {
    let client = YoutubeClient::new(None);
    let body = json(&client.search("a \"b\""));
    assert_eq!(body.get_str("query"), Some("a \"b\""));
    assert_eq!(body.pointer(&vec!["context", "client", "clientName"]).unwrap().as_str(), Some("WEB_REMIX"));
    assert_eq!(json(&client.queue()).get_str("query"), Some("top songs today"));
    let player = json(&client.resolve_audio("vid"));
    assert_eq!(player.get_str("videoId"), Some("vid"));
    assert_eq!(player.get("racyCheckOk").unwrap().as_bool(), Some(true));
    assert_eq!(player.pointer(&vec!["context", "client", "deviceModel"]).unwrap().as_str(), Some("iPhone16,2"));
}
