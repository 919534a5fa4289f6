use penumbra::api::device::{
    non_empty_value, parse_dumpsys_field, probed_value, run_command, DeviceApi,
    DeviceVersionCollector, OsVersionInfo, NOT_ANDROID,
};
use penumbra::api::persist::persist_config;
use penumbra::api::settings::{
    agent_failed, apply_settings, get_settings, read_only_refusal, update_settings,
    UpdateLlmSettings, UpdateServerSettings, UpdateSettingsRequest, UpdateStep,
    UpdateWeatherSettings, GRPC_BIND_ADDR_IS_FIXED, HTTP_BIND_ADDR_IS_FIXED, PUBLIC_ADDR_IS_FIXED,
    STORAGE_IS_FIXED,
};
use penumbra::api::{
    delete_memory, display_name, event_stream, get_device, get_file, get_memory, get_thumbnail,
    health, serve_file, Event, StreamAction, StreamInput, STATUS_INTERNAL_SERVER_ERROR,
    STATUS_NOT_FOUND, STATUS_NO_CONTENT, STATUS_OK,
};
use penumbra::config::Config;

fn nothing() -> UpdateSettingsRequest {
    UpdateSettingsRequest { llm: None, server: None, weather: None, storage: false }
}

fn server() -> UpdateServerSettings {
    UpdateServerSettings {
        http_bind_addr: false,
        grpc_bind_addr: false,
        public_addr: false,
        system_prompt: None,
        display_name: None,
    }
}

fn llm() -> UpdateLlmSettings {
    UpdateLlmSettings { provider: None, model: None, api_key: None, base_url: None }
}

#[test]
fn read_only_settings_are_refused() {
    let with = |server: UpdateServerSettings| UpdateSettingsRequest { server: Some(server), ..nothing() };
    let mut s = server();
    s.public_addr = true;
    assert_eq!(read_only_refusal(&with(s)).as_deref(), Some(PUBLIC_ADDR_IS_FIXED));
    let mut s = server();
    s.grpc_bind_addr = true;
    s.public_addr = true;
    assert_eq!(read_only_refusal(&with(s)).as_deref(), Some(GRPC_BIND_ADDR_IS_FIXED));
    let mut s = server();
    s.http_bind_addr = true;
    let mut config = Config::default();
    let step = update_settings(&mut config, &with(s));
    assert_eq!(step, UpdateStep::Refuse(HTTP_BIND_ADDR_IS_FIXED.to_string()));
    assert_eq!(config, Config::default());
    let request = UpdateSettingsRequest { storage: true, ..nothing() };
    assert_eq!(read_only_refusal(&request).as_deref(), Some(STORAGE_IS_FIXED));
    assert_eq!(
        STORAGE_IS_FIXED,
        "storage paths cannot be changed at runtime (requires server restart)"
    );
    assert_eq!(read_only_refusal(&nothing()), None);
}

#[test]
fn settings_are_applied() {
    let mut config = Config::default();
    let request = UpdateSettingsRequest {
        llm: Some(UpdateLlmSettings {
            provider: Some("openai".to_string()),
            model: Some("m".to_string()),
            api_key: Some("k".to_string()),
            base_url: Some(String::new()),
        }),
        server: Some(UpdateServerSettings {
            system_prompt: Some("p".to_string()),
            display_name: Some("Pin".to_string()),
            ..server()
        }),
        weather: Some(UpdateWeatherSettings { pirate_weather_api_key: Some("w".to_string()) }),
        storage: false,
    };
    let step = update_settings(&mut config, &request);
    assert_eq!(step, UpdateStep::BuildAgent { weather_key_changed: true });
    assert_eq!(config.llm.provider, "openai");
    assert_eq!(config.llm.model, "m");
    assert_eq!(config.llm.api_key.as_deref(), Some("k"));
    assert_eq!(config.llm.base_url, None);
    assert_eq!(config.server.system_prompt, "p");
    assert_eq!(config.server.display_name.as_deref(), Some("Pin"));
    assert_eq!(config.weather.pirate_weather_api_key.as_deref(), Some("w"));

    let after = config.clone();
    let again = apply_settings(&mut config, &request);
    assert_eq!(config, after);
    assert!(!again.weather_key_changed);
    assert!(!again.system_prompt_changed);
    // A key counts as changed whenever it is given.
    assert!(again.llm_changed);
}

#[test]
fn empty_values_clear_a_setting() {
    let mut config = Config::default();
    config.llm.api_key = Some("k".to_string());
    config.server.display_name = Some("Pin".to_string());
    let request = UpdateSettingsRequest {
        llm: Some(UpdateLlmSettings { api_key: Some(String::new()), ..llm() }),
        server: Some(UpdateServerSettings { display_name: Some(String::new()), ..server() }),
        ..nothing()
    };
    let changes = apply_settings(&mut config, &request);
    assert!(changes.llm_changed);
    assert_eq!(config, Config::default());
}

#[test]
fn an_empty_request_changes_nothing() {
    let mut config = Config::default();
    let step = update_settings(&mut config, &nothing());
    assert_eq!(step, UpdateStep::Commit { weather_key_changed: false });
    assert_eq!(config, Config::default());
}

#[test]
fn a_failed_agent_restores_the_file() {
    let mut config = Config::default();
    config.llm.model = "bad".to_string();
    let message = agent_failed(&mut config, "no key", Some(Config::default()));
    assert_eq!(message, "invalid LLM configuration: no key");
    assert_eq!(config, Config::default());
    config.llm.model = "bad".to_string();
    agent_failed(&mut config, "no key", None);
    assert_eq!(config.llm.model, "bad");
}

#[test]
fn the_answer_shows_no_key() {
    let mut config = Config::default();
    config.llm.api_key = Some("one".to_string());
    let shown = get_settings(&config, true, false);
    assert!(shown.llm.has_api_key);
    assert!(!shown.weather.has_api_key);
    config.llm.api_key = Some("two".to_string());
    assert_eq!(get_settings(&config, true, false), shown);
}

#[test]
fn settings_are_written_into_the_file() {
    let mut config = Config::default();
    config.llm.model = "m".to_string();
    config.server.display_name = Some("Pin".to_string());
    let existing = "# mine\n[llm]\nmodel = \"old\" # keep\napi_key = \"gone\"\n\n[server]\nport = 1\n\n[extra]\nx = 2\n";
    let written = persist_config(Some(existing.to_string()), &config).unwrap().unwrap();
    assert!(written.contains("# mine"));
    assert!(written.contains("[extra]\nx = 2"));
    assert!(!written.contains("# keep"));
    assert!(!written.contains("gone"));
    assert!(!written.contains("port"));
    let read: toml::Value = toml::from_str(&written).unwrap();
    assert_eq!(read["llm"]["model"].as_str(), Some("m"));
    assert_eq!(read["llm"]["provider"].as_str(), Some("echo"));
    assert!(read["llm"].get("base_url").is_none());
    assert_eq!(read["server"]["display_name"].as_str(), Some("Pin"));
    assert_eq!(read["storage"]["db_path"].as_str(), Some(""));
    assert!(read["weather"].get("pirate_weather_api_key").is_none());

    let fresh = persist_config(None, &config).unwrap().unwrap();
    let read: toml::Value = toml::from_str(&fresh).unwrap();
    assert_eq!(read["llm"]["model"].as_str(), Some("m"));
}

#[test]
fn the_layout_of_the_file_is_kept() {
    let mut config = Config::default();
    config.llm.model = "m".to_string();
    let existing = "# top\nx = 1\n\n# models\n[llm]  # here\nextra = 'e'   # mine\n# which one\n  model   = \"old\"\napi_key = \"gone\"\nprovider = \"p\"\n\n[other]\n";
    let written = persist_config(Some(existing.to_string()), &config).unwrap().unwrap();
    let kept = "# top\nx = 1\n\n# models\n[llm]  # here\nextra = 'e'   # mine\n# which one\n  model   = \"m\"\nprovider = \"echo\"\n\n[other]\n";
    assert!(written.starts_with(kept), "{written}");
}

#[test]
fn what_is_no_table_takes_no_setting() {
    let mut config = Config::default();
    let existing = || Some("weather = 5\n".to_string());
    let written = persist_config(existing(), &config).unwrap().unwrap();
    let read: toml::Value = toml::from_str(&written).unwrap();
    assert_eq!(read["weather"].as_integer(), Some(5));
    assert_eq!(read["llm"]["provider"].as_str(), Some("echo"));
    config.weather.pirate_weather_api_key = Some("w".to_string());
    assert_eq!(persist_config(existing(), &config), Ok(None));
    assert_eq!(persist_config(Some("llm = 5\n".to_string()), &Config::default()), Ok(None));
}

#[test]
fn a_broken_file_is_not_overwritten() {
    assert!(persist_config(Some("[llm".to_string()), &Config::default()).is_err());
}

#[test]
fn an_inline_table_can_be_written_too() {
    let written =
        persist_config(Some("llm = { model = \"old\" }\n".to_string()), &Config::default());
    let read: toml::Value = toml::from_str(&written.unwrap().unwrap()).unwrap();
    assert_eq!(read["llm"]["provider"].as_str(), Some("echo"));
}

#[test]
fn health_names_the_server() {
    let mut config = Config::default();
    assert_eq!(
        health(&config, "1.2").to_text(),
        r#"{"name":"Penumbra","status":"ok","version":"1.2"}"#
    );
    config.server.display_name = Some("Pin".to_string());
    assert_eq!(display_name(&config), "Pin");
    assert_eq!(get_device(&config).display_name, "Pin");
    assert_eq!(get_device(&config).llm_provider, "echo");
}

#[test]
fn memories_have_their_statuses() {
    assert_eq!(get_memory(true), STATUS_OK);
    assert_eq!(get_memory(false), STATUS_NOT_FOUND);
    let (status, event) = delete_memory("u", Ok(true));
    assert_eq!(status, STATUS_NO_CONTENT);
    assert_eq!(event, Some(Event::MemoryDeleted { uuid: "u".to_string() }));
    assert_eq!(delete_memory("u", Ok(false)), (STATUS_NOT_FOUND, None));
    assert_eq!(delete_memory("u", Err("e".to_string())), (STATUS_INTERNAL_SERVER_ERROR, None));
}

#[test]
fn files_have_their_types() {
    assert_eq!(get_file("/m/u/a.jpg"), "image/jpeg");
    assert_eq!(get_file("/m/u/a.mp4"), "video/mp4");
    assert_eq!(get_file("/m/u/a"), "application/octet-stream");
    assert_eq!(get_thumbnail(12), "thumbnail_12.jpg");
    assert_eq!(serve_file(true), STATUS_NOT_FOUND);
    assert_eq!(serve_file(false), STATUS_INTERNAL_SERVER_ERROR);
}

#[test]
fn events_are_told_by_the_line() {
    assert_eq!(Event::Heartbeat.line(), "{\"type\":\"heartbeat\"}\n");
    assert_eq!(
        Event::MemoryDeleted { uuid: "a\"b".to_string() }.line(),
        "{\"type\":\"memory_deleted\",\"uuid\":\"a\\\"b\"}\n"
    );
    assert_eq!(Event::MemoryCompleted { uuid: "x".to_string() }.tag(), "memory_completed");
    assert_eq!(
        Event::MemoryCreated { memory: "{\"id\":1}".to_string() }.line(),
        "{\"type\":\"memory_created\",\"memory\":{\"id\":1}}\n"
    );
}

#[test]
fn a_slow_client_stays_connected() {
    assert_eq!(event_stream(StreamInput::Connected), StreamAction::Send(Event::Heartbeat));
    assert_eq!(event_stream(StreamInput::Tick), StreamAction::Send(Event::Heartbeat));
    assert_eq!(event_stream(StreamInput::Lagged), StreamAction::Wait);
    assert_eq!(event_stream(StreamInput::Closed), StreamAction::Stop);
    let event = || Event::MemoryCompleted { uuid: "x".to_string() };
    assert_eq!(event_stream(StreamInput::Event(event())), StreamAction::Send(event()));
}

#[test]
fn versions_are_read_from_dumpsys() {
    let output = "  versionCode=12 versionName=\n versionName=1.2.3 x\nversionName=9";
    assert_eq!(parse_dumpsys_field(output, "versionName").as_deref(), Some("1.2.3"));
    assert_eq!(parse_dumpsys_field(output, "version"), None);
}

#[test]
fn values_may_be_missing() {
    assert_eq!(non_empty_value(" a "), Some("a".to_string()));
    assert_eq!(non_empty_value(" null\n"), None);
    assert_eq!(non_empty_value("  "), None);
    assert_eq!(probed_value(Err("e".to_string())), None);
    assert_eq!(probed_value(Ok("13".to_string())), Some("13".to_string()));
}

#[test]
fn commands_tell_what_went_wrong() {
    assert_eq!(run_command("pm", true, "exit status: 0", " out\n", ""), Ok("out".to_string()));
    assert_eq!(
        run_command("pm", false, "exit status: 1", "out", " err "),
        Err("pm exited with exit status: 1: err".to_string())
    );
    assert_eq!(
        run_command("pm", false, "exit status: 1", " out", " "),
        Err("pm exited with exit status: 1: out".to_string())
    );
}

#[test]
fn only_installed_components_have_versions() {
    let components = DeviceVersionCollector::managed_components();
    let hook = &components[1];
    assert_eq!(hook.package_name, "com.penumbraos.hook");
    let other = Ok("package:com.penumbraos.hook.injector\n".to_string());
    assert_eq!(
        DeviceVersionCollector::query_component_version(hook, &other, Ok(String::new())),
        None
    );
    let listed = Ok(" package:com.penumbraos.hook \n".to_string());
    let found = DeviceVersionCollector::query_component_version(
        hook,
        &listed,
        Ok("versionName=2.0".to_string()),
    )
    .unwrap();
    assert_eq!(found.version_name.as_deref(), Some("2.0"));
    assert_eq!(found.error, None);
    let failed =
        DeviceVersionCollector::query_component_version(hook, &listed, Err("e".to_string())).unwrap();
    assert_eq!(failed.error.as_deref(), Some("e"));
    assert!(!DeviceVersionCollector::is_installed(hook, &Err("e".to_string())));
    let away = DeviceVersionCollector::unavailable(hook);
    assert_eq!(away.error.as_deref(), Some(NOT_ANDROID));

    let os = OsVersionInfo {
        humane_display_version: None,
        android_release: None,
        android_sdk: None,
        security_patch: None,
    };
    let snapshot =
        DeviceVersionCollector::collect(None, "0.1", vec![None, Some(found.clone()), None], os);
    assert_eq!(snapshot.captured_at_ms, 0);
    assert_eq!(snapshot.components, vec![found]);
    let info = DeviceApi::get_device(&Config::default(), snapshot, Some("1.0".to_string()));
    assert_eq!(info.versions.os.humane_display_version.as_deref(), Some("1.0"));
    assert_eq!(info.display_name, "Penumbra");
}
