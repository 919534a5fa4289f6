use penumbra::api::settings_schema::{
    describe, enum_variants, provider_label, provider_options, Kind, Schema,
};
use penumbra::config::Config;
use penumbra::json::{parse_json, Json};

fn providers() -> Json {
    parse_json(
        r#"{"title":"LlmProvider","type":"string","enum":["echo","gemini","anthropic","openai","openai-compatible"]}"#,
    )
    .unwrap()
}

fn schema(config: &Config) -> Schema {
    describe(config, "system".to_string(), "status".to_string(), &providers())
}

fn descriptor(config: &Config) -> serde_json::Value {
    serde_json::from_str(&schema(config).to_json().to_text()).unwrap()
}

fn field<'a>(schema: &'a serde_json::Value, key: &str) -> &'a serde_json::Value {
    schema["sections"]
        .as_array()
        .unwrap()
        .iter()
        .flat_map(|s| s["fields"].as_array().unwrap())
        .find(|f| f["key"] == key)
        .unwrap_or_else(|| panic!("field {key} not in descriptor"))
}

#[test]
fn secret_fields_report_configured_not_the_value() {
    let mut config = Config::default();
    config.llm.api_key = Some("sk-secret".to_string());
    let schema = descriptor(&config);

    let api_key = field(&schema, "llm.api_key");
    assert_eq!(api_key["type"], "secret");
    assert_eq!(api_key["configured"], true);
    // The value must never appear.
    assert!(api_key.get("value").is_none());
    assert!(!schema.to_string().contains("sk-secret"));
}

#[test]
fn enum_and_conditional_fields_are_described() {
    let schema = descriptor(&Config::default());

    let provider = field(&schema, "llm.provider");
    assert_eq!(provider["type"], "enum");
    // Every variant, the renamed `openai-compatible` too, is present with a label.
    let values: Vec<&str> = provider["options"]
        .as_array()
        .unwrap()
        .iter()
        .map(|o| o["value"].as_str().unwrap())
        .collect();
    assert_eq!(values, ["echo", "gemini", "anthropic", "openai", "openai-compatible"]);
    let openai_compatible = provider["options"]
        .as_array()
        .unwrap()
        .iter()
        .find(|o| o["value"] == "openai-compatible")
        .unwrap();
    assert_eq!(openai_compatible["label"], "OpenAI-compatible");

    // base_url is gated on the openai-compatible provider.
    let base_url = field(&schema, "llm.base_url");
    assert_eq!(base_url["visibleWhen"]["llm.provider"], "openai-compatible");
}

#[test]
fn sections_come_in_order_with_their_fields() {
    let mut config = Config::default();
    config.server.display_name = Some("Pin".to_string());
    config.contacts.trust_all_contacts = true;
    let schema = descriptor(&config);
    let keys: Vec<&str> =
        schema["sections"].as_array().unwrap().iter().map(|s| s["key"].as_str().unwrap()).collect();
    assert_eq!(keys, ["server", "llm", "services", "dev"]);
    assert_eq!(field(&schema, "server.display_name")["value"], "Pin");
    assert_eq!(field(&schema, "server.display_name")["type"], "string");
    assert_eq!(field(&schema, "server.system_prompt")["value"], "system");
    assert_eq!(field(&schema, "server.status_prompt")["type"], "text");
    assert_eq!(field(&schema, "contacts.trust_all_contacts")["value"], true);
    assert_eq!(field(&schema, "dev.apk_install_enabled")["value"], false);
    assert_eq!(field(&schema, "weather.pirate_weather_api_key")["configured"], false);
    assert!(field(&schema, "llm.model").get("options").is_none());
}

#[test]
fn only_the_presence_of_a_secret_tells() {
    let mut a = Config::default();
    let mut b = Config::default();
    a.llm.api_key = Some("one".to_string());
    b.llm.api_key = Some("two".to_string());
    assert_eq!(schema(&a), schema(&b));
    b.llm.api_key = None;
    assert_ne!(schema(&a), schema(&b));
}

#[test]
fn every_field_is_a_secret_or_has_a_value() {
    for section in schema(&Config::default()).sections {
        for field in section.fields {
            assert_eq!(field.kind == Kind::Secret, field.value.is_none());
            assert_eq!(field.kind == Kind::Secret, field.configured.is_some());
        }
    }
}

#[test]
fn variants_are_the_strings_of_the_enum() {
    let odd = parse_json(r#"{"enum":["a",1,null,"b"]}"#).unwrap();
    assert_eq!(enum_variants(&odd), ["a", "b"]);
    assert!(enum_variants(&parse_json(r#"{"enum":"a"}"#).unwrap()).is_empty());
    assert!(enum_variants(&parse_json("[]").unwrap()).is_empty());
    let options = provider_options(&odd);
    assert_eq!(options[1].value, "b");
    assert_eq!(options[1].label, "b");
}

#[test]
fn providers_have_labels() {
    assert_eq!(provider_label("echo"), "Echo (no API)");
    assert_eq!(provider_label("gemini"), "Google Gemini");
    assert_eq!(provider_label("anthropic"), "Anthropic");
    assert_eq!(provider_label("openai"), "OpenAI");
    assert_eq!(provider_label("other"), "other");
}
