use base64::Engine;
use penumbra::json::Json;
use penumbra::music::ProviderTrack;
use penumbra::services::tidal_shim::{
    empty_section, featured_playlists, generate_tone_wav, playback_info, playback_info_of,
    playlist_json, search_step, search_term, search_top_hits, search_tracks, searched_tracks,
    track_item_wrapper, track_json, track_json_from_provider, track_radio, track_recommendations,
    SearchStep,
};

fn track(id: &str, duration_ms: u64) -> ProviderTrack {
    ProviderTrack {
        id: id.to_string(),
        title: "T".to_string(),
        artist: "A".to_string(),
        album: "B".to_string(),
        duration_ms,
    }
}

fn read(v: &Json) -> serde_json::Value {
    serde_json::from_str(&v.to_text()).unwrap()
}

#[test]
fn tracks_are_shaped_for_the_player() {
    let t = read(&track_json_from_provider(&track("7", 2999)));
    assert_eq!(t["id"], "7");
    assert_eq!(t["title"], "T");
    assert_eq!(t["duration"], 2);
    assert_eq!(t["artists"][0]["name"], "A");
    assert_eq!(t["artists"][0]["type"], "MAIN");
    assert_eq!(t["album"]["title"], "B");
    assert_eq!(t["audioModes"][0], "STEREO");
    assert_eq!(t["peak"], serde_json::Value::Null);
    assert_eq!(t.as_object().unwrap().len(), 21);
    // A track is never shorter than a second.
    assert_eq!(read(&track_json_from_provider(&track("7", 10)))["duration"], 1);
    assert_eq!(read(&track_json("i", "t", "a", "b", 9))["duration"], 9);
}

#[test]
fn sections_count_their_items() {
    let empty = read(&empty_section());
    assert_eq!(empty["totalNumberOfItems"], 0);
    let radio = read(&track_radio(&vec![track("1", 1), track("2", 1)]));
    assert_eq!(radio["limit"], 2);
    assert_eq!(radio["offset"], 0);
    assert_eq!(radio["items"][1]["id"], "2");
    let wrapped = read(&track_item_wrapper(&vec![track("1", 1)]));
    assert_eq!(wrapped["items"][0]["type"], "track");
    assert_eq!(wrapped["items"][0]["item"]["id"], "1");
    let suggested = read(&track_recommendations(&vec![track("1", 1)]));
    assert_eq!(suggested["items"][0]["sources"][0], "SUGGESTED_TRACKS");
    assert_eq!(suggested["items"][0]["track"]["id"], "1");
}

#[test]
fn one_playlist_is_featured() {
    let playlist = read(&playlist_json());
    assert_eq!(playlist["uuid"], "poc-playlist");
    assert_eq!(playlist["numberOfTracks"], 6);
    assert_eq!(playlist["duration"], 1260);
    let featured = read(&featured_playlists());
    assert_eq!(featured["items"][0], playlist);
    assert_eq!(featured["totalNumberOfItems"], 1);
}

#[test]
fn a_search_plays_its_hit_first() {
    assert_eq!(search_term(Some("q"), Some("t")), "q");
    assert_eq!(search_term(None, Some("t")), "t");
    assert_eq!(search_term(None, None), "");
    let tracks =
        search_tracks(track("1", 1), vec![track("2", 1), track("1", 1), track("3", 1)]);
    let ids: Vec<&str> = tracks.iter().map(|t| t.id.as_str()).collect();
    assert_eq!(ids, ["1", "2", "3"]);
    let hits = read(&search_top_hits(&tracks));
    assert_eq!(hits["topHits"][0]["type"], "TRACKS");
    assert_eq!(hits["topHits"][0]["value"]["id"], "1");
    assert_eq!(hits["tracks"]["totalNumberOfItems"], 3);
    for name in ["albums", "artists", "playlists", "videos"] {
        assert_eq!(hits[name]["totalNumberOfItems"], 0);
    }
    let none = read(&search_top_hits(&Vec::new()));
    assert_eq!(none["topHits"][0]["value"].as_object().unwrap().len(), 0);
}

#[test]
fn playback_goes_by_a_manifest() {
    let info = read(&playback_info("9", "penumbra-apple://9"));
    assert_eq!(info["trackId"], "9");
    assert_eq!(info["manifestMimeType"], "application/vnd.tidal.bts");
    let manifest = base64::engine::general_purpose::STANDARD
        .decode(info["manifest"].as_str().unwrap())
        .unwrap();
    let manifest: serde_json::Value = serde_json::from_slice(&manifest).unwrap();
    assert_eq!(manifest["urls"][0], "penumbra-apple://9");
    assert_eq!(manifest["encryptionType"], "NONE");
    assert_eq!(read(&playback_info_of("9", "m"))["manifest"], "m");
}

#[test]
fn the_tone_is_a_wave_file() {
    let samples = vec![1i16, -2, 300];
    let wav = generate_tone_wav(&samples);
    assert_eq!(wav.len(), 44 + 6);
    assert_eq!(&wav[0..4], b"RIFF");
    assert_eq!(&wav[4..8], &42u32.to_le_bytes());
    assert_eq!(&wav[8..16], b"WAVEfmt ");
    assert_eq!(&wav[16..20], &16u32.to_le_bytes());
    assert_eq!(&wav[20..24], &[1, 0, 1, 0]);
    assert_eq!(&wav[24..28], &44100u32.to_le_bytes());
    assert_eq!(&wav[28..32], &88200u32.to_le_bytes());
    assert_eq!(&wav[32..36], &[2, 0, 16, 0]);
    assert_eq!(&wav[36..40], b"data");
    assert_eq!(&wav[40..44], &6u32.to_le_bytes());
    assert_eq!(&wav[44..], &[1, 0, 254, 255, 44, 1]);
}

#[test]
fn a_search_goes_on_from_what_it_found() {
    let top = Some(track("1", 1));
    assert_eq!(search_step(&top), SearchStep::Recommend("1".to_string()));
    assert_eq!(search_step(&None), SearchStep::Queue);
    let ids = |tracks: Vec<ProviderTrack>| tracks.into_iter().map(|t| t.id).collect::<Vec<_>>();
    assert_eq!(ids(searched_tracks(top, vec![track("1", 1), track("2", 1)])), ["1", "2"]);
    assert_eq!(ids(searched_tracks(None, vec![track("2", 1)])), ["2"]);
}
