use penumbra::config::Config;
use penumbra::json::{parse_json, JsonNumber};
use penumbra::llm::request::{Message, PromptTemplateContext, PromptTemplates};
use penumbra::llm::ChatResult;
use penumbra::moment::LocalTime;
use penumbra::music::{MusicProvider, NowPlaying, ProviderTrack};
use penumbra::services::aibus::completion::{
    chat_choice, chat_completion_request, chat_prompt, completion_choice, completion_request,
    encrypted_chat_completion, encrypted_completion, ChatMessage,
};
use penumbra::services::aibus::envelope::{
    decoded, optional_data, status_of, unwrap_plaintext_data, Code, Coordinates, EncryptedData,
    Status, MISSING_ENVELOPE,
};
use penumbra::services::aibus::fetch::Fetched;
use penumbra::services::aibus::geolocate::GeoLocateHandler;
use penumbra::services::aibus::reverse_geocode::{
    encrypted_reverse_geocode, fetched_address, reverse_reply, reverse_url,
};
use penumbra::services::aibus::stubs::StubHandler;
use penumbra::services::aibus::understand::{
    action_response, apple_unplayable_message, build_play_music_input,
    build_prompt_template_context, chat_request, encrypted_understand,
    evaluate_agent_conversation, latest_album_artist, non_empty_string, parse_play_args,
    phrase_of, play_music_response, request_history, request_location, term_for_playlist, understand_inner,
    unplayable_query, ChatStep, Route, ShimTerms,
};
use penumbra::services::aibus::vision::{
    analyze_decoded_image, analyze_image_inner, encrypted_analyze_image, image_question,
    request_image, AnalyzeImageRequest, BAD_BASE64, NO_IMAGE,
};
use penumbra::services::aibus::weather::{
    current_conditions, encrypted_weather, fetched_conditions, forecast_url, location_data,
    pirate_weather_icon_to_device, NOT_CONFIGURED, NO_CURRENT_CONDITIONS,
};
use penumbra::synapse::extract_run_id;
use penumbra::synapse::image_store::LiveImageStore;
use penumbra::synapse::vision::{
    extract_most_recent_image_data, is_vision_request, ChatTurn, DeviceContext, UserRequest,
};

fn terms() -> ShimTerms {
    ShimTerms {
        favorites: "fav:".to_string(),
        my_playlists: "mine:".to_string(),
        playlist_prefix: "pl:".to_string(),
    }
}

fn user(vision_requested: bool, image_data: Vec<u8>) -> ChatTurn {
    ChatTurn::UserRequest(UserRequest { vision_requested, image_data })
}

fn context(turns: Vec<ChatTurn>) -> DeviceContext {
    DeviceContext { turns, reverse_geocoded_location: " Oslo ".to_string() }
}

fn image_request() -> AnalyzeImageRequest {
    AnalyzeImageRequest {
        request: String::new(),
        utterance: String::new(),
        image_data: Vec::new(),
        base64_encoded_image: String::new(),
    }
}

fn answer(step: ChatStep) -> (String, String, Option<String>) {
    match step {
        ChatStep::Answer { response, saved } => (response.action, response.input, saved),
        ChatStep::PlayMusic(args) => panic!("plays {args}"),
    }
}

#[test]
fn the_run_comes_from_the_header() {
    assert_eq!(extract_run_id(Some("r1")), "r1");
    assert_eq!(extract_run_id(None), "unknown");
}

#[test]
fn the_last_request_decides_on_vision() {
    assert!(is_vision_request(&context(vec![user(false, vec![]), user(true, vec![]), ChatTurn::Other])));
    assert!(!is_vision_request(&context(vec![user(true, vec![]), user(false, vec![])])));
    assert!(!is_vision_request(&context(vec![ChatTurn::Other])));
}

#[test]
fn the_last_image_is_taken() {
    let turns = vec![user(false, vec![1]), user(false, vec![2]), ChatTurn::Other];
    assert_eq!(extract_most_recent_image_data(&context(turns)), Some(vec![2]));
    let turns = vec![user(false, vec![1]), user(false, vec![])];
    assert_eq!(extract_most_recent_image_data(&context(turns)), None);
    assert_eq!(extract_most_recent_image_data(&context(vec![ChatTurn::Other])), None);
}

#[test]
fn an_utterance_goes_where_its_image_is() {
    let mut store = LiveImageStore::new();
    store.put("r", vec![7], 0);
    let inline = Some(context(vec![user(true, vec![1])]));
    assert_eq!(understand_inner(&inline, &mut store, "u", "r", 1), Route::ChatWithImage(vec![1]));
    let vision = Some(context(vec![user(true, vec![])]));
    assert_eq!(understand_inner(&vision, &mut store, "u", "r", 1), Route::ChatWithImage(vec![7]));
    match understand_inner(&vision, &mut store, "what is this", "other", 1) {
        Route::AskForScene(response) => {
            assert_eq!(response.action, "UnderstandScene");
            assert_eq!(response.input, r#"{"Question":"what is this"}"#);
            assert_eq!(response.run_id, "other");
            assert_eq!(response.spoken, None);
        }
        other => panic!("{other:?}"),
    }
    let plain = Some(context(vec![user(false, vec![])]));
    assert_eq!(understand_inner(&plain, &mut store, "u", "other", 1), Route::Chat);
    assert_eq!(understand_inner(&None, &mut store, "u", "r", 1), Route::Chat);
}

#[test]
fn what_the_model_says_becomes_an_action() {
    let step = |result| evaluate_agent_conversation(result, "u", "r", &terms());
    assert_eq!(
        answer(step(Ok(ChatResult::Text("hi \"you\"".to_string())))),
        (
            "Respond".to_string(),
            r#"{"Response":"hi \"you\""}"#.to_string(),
            Some("hi \"you\"".to_string())
        )
    );
    assert_eq!(
        answer(step(Err("bad".to_string()))),
        ("Respond".to_string(), r#"{"Response":"bad"}"#.to_string(), Some("bad".to_string()))
    );
    assert_eq!(
        answer(step(Ok(ChatResult::DeferredVision))),
        ("UnderstandScene".to_string(), r#"{"Question":"u"}"#.to_string(), None)
    );
    assert_eq!(
        answer(step(Ok(ChatResult::MusicControl("PlayFavoriteTracks".to_string())))),
        ("PlayMusic".to_string(), r#"{"Track":"fav:"}"#.to_string(), None)
    );
    assert_eq!(
        answer(step(Ok(ChatResult::MusicControl("PauseMusic".to_string())))),
        ("PauseMusic".to_string(), "{}".to_string(), None)
    );
    assert_eq!(
        step(Ok(ChatResult::PlayMusic("{}".to_string()))),
        ChatStep::PlayMusic("{}".to_string())
    );
}

#[test]
fn what_is_played_follows_the_arguments() {
    let input = |args: &str, latest: Option<&str>| {
        build_play_music_input(args, latest.map(str::to_string), "say it", &terms())
    };
    assert_eq!(
        input(r#"{"artist":" Kanye ","latest_album":true,"mood":"x"}"#, Some("Donda")),
        r#"{"Album":"Donda","Artist":"Kanye"}"#
    );
    assert_eq!(input(r#"{"artist":"Kanye","latest_album":true}"#, None), r#"{"Artist":"Kanye"}"#);
    assert_eq!(input(r#"{"playlist":"ALL","mood":"x"}"#, None), r#"{"Track":"mine:"}"#);
    assert_eq!(input(r#"{"playlist":"Workout"}"#, None), r#"{"Track":"pl:Workout"}"#);
    assert_eq!(input(r#"{"mood":"jazz","track":"t"}"#, None), r#"{"Album":"playlist:jazz"}"#);
    assert_eq!(
        input(r#"{"track":"t","artist":"a","album":"b"}"#, None),
        r#"{"Album":"b","Artist":"a","Track":"t"}"#
    );
    assert_eq!(input(r#"{"track":"  "}"#, None), r#"{"Query":"say it"}"#);
    assert_eq!(input("not json", None), r#"{"Query":"say it"}"#);
}

#[test]
fn the_users_own_playlists_have_names() {
    for name in ["my playlists", "all", "my library", "everything", "my playlist"] {
        assert_eq!(term_for_playlist(name, name, &terms()), "mine:");
    }
    assert_eq!(term_for_playlist("Gym", "gym", &terms()), "pl:Gym");
}

#[test]
fn the_latest_album_is_asked_for_by_artist() {
    let artist = |t: &str| latest_album_artist(&parse_play_args(t));
    assert_eq!(artist(r#"{"artist":"A","latest_album":true}"#).as_deref(), Some("A"));
    assert_eq!(artist(r#"{"artist":"A","latest_album":false}"#), None);
    assert_eq!(artist(r#"{"latest_album":true}"#), None);
    assert_eq!(artist("]"), None);
}

#[test]
fn unplayable_songs_are_announced() {
    let apple = MusicProvider::from_config(&Config::default(), Some("t".to_string()));
    let none = MusicProvider::from_config(&Config::default(), None);
    let input = r#"{"Artist":"A","Track":"T"}"#;
    assert_eq!(unplayable_query(&apple, input).as_deref(), Some("T A"));
    assert_eq!(unplayable_query(&apple, r#"{"Artist":"","Track":"T"}"#).as_deref(), Some("T"));
    assert_eq!(unplayable_query(&apple, r#"{"Artist":"A"}"#), None);
    assert_eq!(unplayable_query(&apple, "{"), None);
    assert_eq!(unplayable_query(&none, input), None);
    assert_eq!(phrase_of(&parse_json(input).unwrap()).as_deref(), Some("T A"));

    let track = |id: &str| {
        Some(ProviderTrack {
            id: id.to_string(),
            title: "ICEMAN".to_string(),
            artist: String::new(),
            album: String::new(),
            duration_ms: 0,
        })
    };
    assert_eq!(apple_unplayable_message(&None), None);
    assert_eq!(apple_unplayable_message(&track("1440650711")), None);
    let message = apple_unplayable_message(&track("6769568456")).unwrap();
    assert_eq!(
        message,
        "Sorry — \"ICEMAN\" is a recent release that can't play on Apple Music right now due to a known \
         limitation with newer songs. You can switch to Spotify or YouTube in settings to play it."
    );
    let response = play_music_response(input, Some(message.clone()), "r");
    assert_eq!(response.action, "Respond");
    assert_eq!(response.spoken, Some(message));
    let response = play_music_response(input, None, "r");
    assert_eq!(response.action, "PlayMusic");
    assert_eq!(response.input, input);
    assert_eq!(response.spoken, None);
    assert_eq!(response.run_id, "r");
}

#[test]
fn the_prompt_tells_of_the_surroundings() {
    let time = LocalTime {
        timestamp: "ts".to_string(),
        date: "d".to_string(),
        time: "t".to_string(),
    };
    let base = PromptTemplateContext::new("r", &Config::default(), time);
    let place = Coordinates { latitude: "1.000".to_string(), longitude: "2.000".to_string() };
    let playing = NowPlaying {
        title: "T".to_string(),
        artist: "A".to_string(),
        album: String::new(),
    };
    let full =
        build_prompt_template_context(base, &Some(context(Vec::new())), &Some(place), &Some(playing));
    assert_eq!(full.run_id, "r");
    assert_eq!(full.current_timestamp, "ts");
    assert_eq!(full.location_name.as_deref(), Some("Oslo"));
    assert_eq!(full.coordinates.as_deref(), Some("1.000, 2.000"));
    assert_eq!(full.now_playing.as_deref(), Some("T — A"));

    let templates =
        PromptTemplates { system_prompt: "s".to_string(), status_prompt: "p".to_string() };
    let request = chat_request(
        "u",
        &None,
        vec![Message::System("old".to_string())],
        templates,
        full,
        Some("memory".to_string()),
        Some(vec![1]),
    );
    assert_eq!(request.utterance, "u");
    assert_eq!(request.memory_context.as_deref(), Some("memory"));
    assert_eq!(request.image, Some(vec![1]));
    assert!(request.history.is_empty());
    let said = || vec![Message::System("old".to_string())];
    assert_eq!(request_history(&None, said()), Vec::new());
    assert_eq!(request_history(&Some(context(Vec::new())), said()), said());
}

#[test]
fn texts_and_actions_are_plain() {
    assert_eq!(non_empty_string(" a "), Some("a".to_string()));
    assert_eq!(non_empty_string(" "), None);
    let response = action_response("A", "t", "{}", "r");
    assert_eq!(response.action, "A");
    assert_eq!(response.thought, "t");
    assert_eq!(response.spoken, None);
}

fn place_at(latitude: &str, longitude: &str) -> Coordinates {
    Coordinates { latitude: latitude.to_string(), longitude: longitude.to_string() }
}

fn refusal(code: Code, message: &str) -> Status {
    Status { code, message: message.to_string() }
}

#[test]
fn messages_that_cannot_be_decoded_are_refused() {
    assert_eq!(decoded("Name", Ok(4u8)), Ok(4u8));
    assert_eq!(
        decoded::<u8>("Name", Err("eof".to_string())),
        Err(refusal(Code::InvalidArgument, "bad Name: eof"))
    );
    let templates = || PromptTemplates {
        system_prompt: "be".to_string(),
        status_prompt: "it is".to_string(),
    };
    let now = || LocalTime {
        timestamp: "s".to_string(),
        date: "d".to_string(),
        time: "t".to_string(),
    };
    let config = Config::default();
    let messages = vec![ChatMessage { role: "user".to_string(), content: "hi".to_string() }];
    let asked = chat_completion_request(Ok(messages), templates(), &config, now()).unwrap();
    assert_eq!(asked.utterance, "user: hi");
    assert_eq!(asked.template_context.run_id, "encrypted-chat-completion");
    assert_eq!(asked.templates, templates());
    assert!(asked.history.is_empty());
    assert_eq!(
        chat_completion_request(Err("eof".to_string()), templates(), &config, now()),
        Err(refusal(Code::InvalidArgument, "bad ChatCompletionRequest: eof"))
    );
    let asked = completion_request(Ok("go on".to_string()), templates(), &config, now()).unwrap();
    assert_eq!(asked.utterance, "go on");
    assert_eq!(asked.template_context.run_id, "encrypted-completion");
    assert_eq!(asked.template_context.current_date, "d");
    assert_eq!(
        completion_request(Err("eof".to_string()), templates(), &config, now()),
        Err(refusal(Code::InvalidArgument, "bad CompletionRequest: eof"))
    );
    let mut store = LiveImageStore::new();
    assert_eq!(
        analyze_decoded_image(&mut store, "run", Err("eof".to_string()), 0),
        Err(refusal(Code::InvalidArgument, "bad AnalyzeImageRequest: eof"))
    );
    let request = AnalyzeImageRequest {
        request: String::new(),
        utterance: String::new(),
        image_data: vec![7],
        base64_encoded_image: String::new(),
    };
    let answer = analyze_decoded_image(&mut store, "run", Ok(request), 0).unwrap();
    assert_eq!(answer.generic_observation, "Image captured");
    assert_eq!(store.get_refresh("run", 0), Some(vec![7]));
}

#[test]
fn locations_in_their_own_envelope_go_before() {
    let envelope = Some(EncryptedData::new("kid", vec![1]));
    let empty = Some(EncryptedData::stub("kid"));
    let told = || Ok(Some(place_at("1", "2")));
    assert_eq!(
        request_location(told(), &envelope, Ok(place_at("3", "4"))),
        Ok(Some(place_at("3", "4")))
    );
    assert_eq!(
        request_location(told(), &empty, Ok(place_at("3", "4"))),
        Ok(Some(place_at("1", "2")))
    );
    assert_eq!(request_location(Ok(None), &None, Err("eof".to_string())), Ok(None));
    assert_eq!(
        request_location(told(), &envelope, Err("eof".to_string())),
        Err(refusal(Code::InvalidArgument, "bad LocationEnvelope: eof"))
    );
    assert_eq!(
        request_location(Err("eof".to_string()), &envelope, Ok(place_at("3", "4"))),
        Err(refusal(Code::InvalidArgument, "bad SynapseUnderstandingRequest: eof"))
    );
}

#[test]
fn envelopes_hold_their_data() {
    let envelope = EncryptedData::new("kid", vec![1, 2]);
    assert_eq!(unwrap_plaintext_data(&Some(envelope)), Ok(&vec![1, 2]));
    let missing = unwrap_plaintext_data(&None).unwrap_err();
    assert_eq!(missing.code, Code::InvalidArgument);
    assert_eq!(missing.message, MISSING_ENVELOPE);
    assert!(EncryptedData::stub("kid").data.is_empty());
    assert_eq!(optional_data(&Some(EncryptedData::new("kid", vec![4]))), Some(&vec![4]));
    assert_eq!(optional_data(&Some(EncryptedData::stub("kid"))), None);
    assert_eq!(optional_data(&None), None);
    assert_eq!(status_of(Code::Internal, "parse failed: ", "e").message, "parse failed: e");
}

#[test]
fn stubs_name_their_messages() {
    let kid = |e: EncryptedData| e.encryption_information.unwrap().kid;
    let stubs = StubHandler;
    assert_eq!(kid(stubs.encrypted_loading_message()), "humane.aibus.LoadingMessageResponse");
    assert_eq!(kid(stubs.encrypted_smart_playlist()), "humane.aibus.SmartPlaylistResponse");
    assert_eq!(kid(stubs.encrypted_get_food_item()), "humane.aibus.GetFoodItemResponse");
    assert_eq!(kid(stubs.encrypted_analyze_food_image()), "humane.aibus.AnalyzeFoodImageResponse");
    assert_eq!(kid(stubs.translate()), "humane.aibus.TranslateResponse");
    assert_eq!(
        kid(stubs.encrypted_action_based_interstitial()),
        "humane.aibus.ActionBasedInterstitialResponse"
    );
    assert_eq!(
        kid(stubs.encrypted_navigation_directions(Vec::new())),
        "humane.aibus.NavigationDirectionsResponse"
    );
    assert_eq!(stubs.encrypted_function_execution(vec![3]).data, vec![3]);
    let located = GeoLocateHandler.encrypted_geo_locate(vec![9]);
    assert_eq!(located.data, vec![9]);
    assert_eq!(kid(located), "humane.aibus.GeoLocateResponse");
    assert_eq!(kid(encrypted_chat_completion(vec![1])), "humane.aibus.ChatCompletionResponse");
    assert_eq!(kid(encrypted_completion(vec![1])), "humane.aibus.CompletionResponse");
    assert_eq!(
        kid(encrypted_understand(vec![1])),
        "humane.aibus.SynapseUnderstandingResponse"
    );
    assert_eq!(kid(encrypted_analyze_image(vec![1])), "humane.aibus.AnalyzeImageResponse");
    assert_eq!(kid(encrypted_weather(vec![1])), "humane.aibus.WeatherResponse");
    assert_eq!(encrypted_weather(vec![1]).data, vec![1]);
    assert_eq!(kid(encrypted_reverse_geocode(vec![1])), "humane.aibus.ReverseGeocodeResponse");
}

#[test]
fn chat_messages_become_one_prompt() {
    let message = |role: &str, content: &str| ChatMessage {
        role: role.to_string(),
        content: content.to_string(),
    };
    let messages = vec![message("user", "hi"), message("user", " "), message("assistant", "yo")];
    assert_eq!(chat_prompt(&messages), "user: hi\nassistant: yo");
    assert_eq!(chat_prompt(&vec![message("user", "\n")]), "Hello");
    let choice = chat_choice(Err("failed".to_string()));
    assert_eq!(choice.content, "failed");
    assert_eq!(choice.role, "assistant");
    assert_eq!(choice.stop_reason, "stop");
    let choice = completion_choice(Ok("said".to_string()));
    assert_eq!(choice.text, "said");
    assert_eq!(choice.index, 0);
    assert_eq!(choice.finish_reason, "stop");
}

#[test]
fn places_are_read_from_addresses() {
    let reply = parse_json(
        r#"{"address":{"house_number":"1","footway":"Way","pedestrian":"Walk","town":"Town","county":"County","country":"Land"}}"#,
    )
    .unwrap();
    let place = reverse_reply(&reply);
    assert_eq!(place.street_number, "1");
    assert_eq!(place.street_name, "Walk");
    assert_eq!(place.municipality, "Town");
    assert_eq!(place.country_subdivision, "County");
    assert_eq!(place.country, "Land");
    assert_eq!(place.postal_code, "");
    assert_eq!(reverse_reply(&parse_json("{}").unwrap()).country, "");
    assert_eq!(
        reverse_url(Ok(place_at("1.5", "-2"))).unwrap(),
        "https://nominatim.openstreetmap.org/reverse?format=jsonv2&lat=1.5&lon=-2"
    );
    assert_eq!(
        reverse_url(Err("eof".to_string())),
        Err(refusal(Code::InvalidArgument, "bad LocationEnvelope: eof"))
    );
    assert_eq!(fetched_address(Fetched::Reply(reply)).unwrap().street_name, "Walk");
    assert_eq!(
        fetched_address(Fetched::NotSent("down".to_string())),
        Err(refusal(Code::Unavailable, "reverse geocode request failed: down"))
    );
    assert_eq!(
        fetched_address(Fetched::NotParsed("eof".to_string())),
        Err(refusal(Code::Internal, "reverse geocode response parse failed: eof"))
    );
}

#[test]
fn weather_is_read_from_the_forecast() {
    let reply = parse_json(
        r#"{"currently":{"temperature":70,"icon":"rain","summary":"Wet","precipType":"rain","precipIntensity":0.5}}"#,
    )
    .unwrap();
    let now = current_conditions(&reply).unwrap();
    assert_eq!(now.weather_icon, 12);
    assert_eq!(now.weather_text, "Wet");
    assert_eq!(now.precipitation_type, "rain");
    assert_eq!(now.temperature, Some(JsonNumber::Unsigned(70)));
    assert_eq!(now.uv_index, None);
    assert!(matches!(now.precipitation_intensity, Some(JsonNumber::Other(_))));
    let bare = current_conditions(&parse_json(r#"{"currently":{}}"#).unwrap()).unwrap();
    assert_eq!(bare.weather_icon, 3);
    let missing = current_conditions(&parse_json("{}").unwrap()).unwrap_err();
    assert_eq!(missing.code, Code::Internal);
    assert_eq!(missing.message, NO_CURRENT_CONDITIONS);
    let key = Some("key".to_string());
    assert_eq!(
        forecast_url(&key, Ok(place_at("1", "2"))).unwrap(),
        "https://api.pirateweather.net/forecast/key/1,2?units=us&exclude=minutely,hourly,daily,alerts"
    );
    let refused = Err(refusal(Code::Unavailable, NOT_CONFIGURED));
    assert_eq!(forecast_url(&None, Ok(place_at("1", "2"))), refused);
    assert_eq!(
        forecast_url(&key, Err("eof".to_string())),
        Err(refusal(Code::InvalidArgument, "bad LocationEnvelope: eof"))
    );
    let location = Some(EncryptedData::new("kid", vec![1]));
    assert_eq!(location_data(&key, &location), Ok(&vec![1]));
    assert_eq!(
        location_data(&key, &None),
        Err(refusal(Code::InvalidArgument, MISSING_ENVELOPE))
    );
    assert_eq!(
        location_data(&None, &None),
        Err(refusal(Code::Unavailable, NOT_CONFIGURED))
    );
    assert_eq!(fetched_conditions(Fetched::Reply(reply)).unwrap().weather_icon, 12);
    assert_eq!(
        fetched_conditions(Fetched::NotSent("down".to_string())),
        Err(refusal(Code::Unavailable, "weather API request failed: down"))
    );
    assert_eq!(
        fetched_conditions(Fetched::NotParsed("eof".to_string())),
        Err(refusal(Code::Internal, "weather API response parse failed: eof"))
    );
}

#[test]
fn icons_have_codes() {
    for (icon, code) in [
        ("clear-day", 1),
        ("clear-night", 33),
        ("partly-cloudy-day", 3),
        ("partly-cloudy-night", 35),
        ("cloudy", 7),
        ("rain", 12),
        ("snow", 19),
        ("sleet", 24),
        ("wind", 32),
        ("fog", 11),
        ("thunderstorm", 15),
        ("hail", 3),
    ] {
        assert_eq!(pirate_weather_icon_to_device(icon), code);
    }
}

#[test]
fn captured_images_are_stored_for_their_run() {
    let mut store = LiveImageStore::new();
    let mut request = image_request();
    let refused = analyze_image_inner(&mut store, "r", &request, 0).unwrap_err();
    assert_eq!(refused.message, NO_IMAGE);
    assert_eq!(store.len(), 0);
    request.base64_encoded_image = "AQI=".to_string();
    let response = analyze_image_inner(&mut store, "r", &request, 0).unwrap();
    assert_eq!(response.observation, "");
    assert_eq!(response.generic_observation, "Image captured");
    assert_eq!(store.get_refresh("r", 1), Some(vec![1, 2]));
    request.image_data = vec![9];
    analyze_image_inner(&mut store, "r", &request, 2).unwrap();
    assert_eq!(store.get_refresh("r", 3), Some(vec![9]));
    request.image_data = Vec::new();
    request.base64_encoded_image = "***".to_string();
    let refused = analyze_image_inner(&mut store, "r", &request, 4).unwrap_err();
    assert_eq!(refused.code, Code::InvalidArgument);
    assert!(refused.message.starts_with(BAD_BASE64));
}

#[test]
fn questions_have_a_default() {
    let mut request = image_request();
    assert_eq!(image_question(&request), "What do you see in this image?");
    request.utterance = "u".to_string();
    assert_eq!(image_question(&request), "u");
    request.request = "q".to_string();
    assert_eq!(image_question(&request), "q");
    assert_eq!(request_image(&request, Ok(vec![5])).unwrap_err().message, NO_IMAGE);
    request.base64_encoded_image = "x".to_string();
    assert_eq!(request_image(&request, Ok(vec![5])), Ok(vec![5]));
    assert_eq!(
        request_image(&request, Err("e".to_string())).unwrap_err().message,
        "bad base64 image: e"
    );
}
