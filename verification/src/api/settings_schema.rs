//! The settings as typed, sectioned fields, from which a client renders its form.

use crate::chars;
use crate::chars::same_text;
use crate::config::Config;
use crate::json;
use crate::json::{array, Json, ObjectBuilder};
use vstd::prelude::*;
use vstd::string::*;

verus! {

/// What kind of value a setting has.
#[derive(Clone, Copy, Debug, PartialEq, Eq, Structural)]
pub enum Kind {
    Line,
    Text,
    Bool,
    Secret,
    Enum,
}

/// The value of a setting.
#[derive(Debug, PartialEq, Eq)]
pub enum FieldValue {
    Text(String),
    Bool(bool),
}

/// One of the values that a setting can have.
#[derive(Debug, PartialEq, Eq)]
pub struct EnumOption {
    pub value: String,
    pub label: String,
}

/// A setting.
#[derive(Debug, PartialEq, Eq)]
pub struct Field {
    pub key: &'static str,
    pub label: &'static str,
    pub kind: Kind,
    /// Its value. A secret has none here: see `configured`.
    pub value: Option<FieldValue>,
    /// Whether a secret is set.
    pub configured: Option<bool>,
    pub options: Vec<EnumOption>,
    /// The setting is shown only while another one, whose key comes first, has this value.
    pub visible_when: Option<(&'static str, &'static str)>,
}

/// Settings that belong together.
#[derive(Debug, PartialEq, Eq)]
pub struct Section {
    pub key: &'static str,
    pub label: &'static str,
    pub fields: Vec<Field>,
}

/// All settings.
#[derive(Debug, PartialEq, Eq)]
pub struct Schema {
    pub sections: Vec<Section>,
}

pub ghost enum ValueView {
    Text(Seq<char>),
    Bool(bool),
}

pub ghost struct OptionView {
    pub value: Seq<char>,
    pub label: Seq<char>,
}

#[verifier::ext_equal]
pub ghost struct FieldView {
    pub key: Seq<char>,
    pub label: Seq<char>,
    pub kind: Kind,
    pub value: Option<ValueView>,
    pub configured: Option<bool>,
    pub options: Seq<OptionView>,
    pub visible_when: Option<(Seq<char>, Seq<char>)>,
}

#[verifier::ext_equal]
pub ghost struct SectionView {
    pub key: Seq<char>,
    pub label: Seq<char>,
    pub fields: Seq<FieldView>,
}

impl View for FieldValue {
    type V = ValueView;

    open spec fn view(&self) -> ValueView {
        match *self {
            FieldValue::Text(t) => ValueView::Text(t@),
            FieldValue::Bool(b) => ValueView::Bool(b),
        }
    }
}

impl View for EnumOption {
    type V = OptionView;

    open spec fn view(&self) -> OptionView {
        OptionView { value: self.value@, label: self.label@ }
    }
}

pub open spec fn option_views(options: Seq<EnumOption>) -> Seq<OptionView> {
    options.map_values(|o: EnumOption| o@)
}

impl View for Field {
    type V = FieldView;

    open spec fn view(&self) -> FieldView {
        FieldView {
            key: self.key@,
            label: self.label@,
            kind: self.kind,
            value: match self.value {
                Some(v) => Some(v@),
                None => None,
            },
            configured: self.configured,
            options: option_views(self.options@),
            visible_when: match self.visible_when {
                Some(w) => Some((w.0@, w.1@)),
                None => None,
            },
        }
    }
}

pub open spec fn field_views(fields: Seq<Field>) -> Seq<FieldView> {
    fields.map_values(|f: Field| f@)
}

impl View for Section {
    type V = SectionView;

    open spec fn view(&self) -> SectionView {
        SectionView { key: self.key@, label: self.label@, fields: field_views(self.fields@) }
    }
}

impl View for Schema {
    type V = Seq<SectionView>;

    open spec fn view(&self) -> Seq<SectionView> {
        self.sections@.map_values(|s: Section| s@)
    }
}

// ---- Fields ----

/// A setting of which only its key, its label and its kind are known.
pub open spec fn bare_field(key: Seq<char>, label: Seq<char>, kind: Kind) -> FieldView {
    FieldView {
        key,
        label,
        kind,
        value: None,
        configured: None,
        options: Seq::empty(),
        visible_when: None,
    }
}

/// A setting with a text for its value.
pub open spec fn text_field(key: Seq<char>, label: Seq<char>, kind: Kind, value: Seq<char>) -> FieldView {
    FieldView { value: Some(ValueView::Text(value)), ..bare_field(key, label, kind) }
}

pub open spec fn bool_field(key: Seq<char>, label: Seq<char>, value: bool) -> FieldView {
    FieldView { value: Some(ValueView::Bool(value)), ..bare_field(key, label, Kind::Bool) }
}

/// A secret, of which is told only whether it is set.
pub open spec fn secret_field(key: Seq<char>, label: Seq<char>, configured: bool) -> FieldView {
    FieldView { configured: Some(configured), ..bare_field(key, label, Kind::Secret) }
}

impl Field {
    fn new(key: &'static str, label: &'static str, kind: Kind) -> (r: Field)
        ensures
            r@ == bare_field(key@, label@, kind),
            r.value is None,
            r.configured is None,
            r.visible_when is None,
            r.kind == kind,
            r.key@ == key@,
            r.label@ == label@,
    {
        let r = Field {
            key,
            label,
            kind,
            value: None,
            configured: None,
            options: Vec::new(),
            visible_when: None,
        };
        assert(r@ =~= bare_field(key@, label@, kind));
        r
    }

    /// The setting, shown only while another one has this value.
    pub fn visible_when(self, key: &'static str, value: &'static str) -> (r: Field)
        ensures
            r@ == (FieldView { visible_when: Some((key@, value@)), ..self@ }),
    {
        let mut r = self;
        r.visible_when = Some((key, value));
        r
    }
}

/// A setting with a line of text for its value.
pub fn string(key: &'static str, label: &'static str, value: String) -> (r: Field)
    ensures
        r@ == text_field(key@, label@, Kind::Line, value@),
{
    Field { value: Some(FieldValue::Text(value)), ..Field::new(key, label, Kind::Line) }
}

/// A setting with a longer text for its value.
pub fn text(key: &'static str, label: &'static str, value: String) -> (r: Field)
    ensures
        r@ == text_field(key@, label@, Kind::Text, value@),
{
    Field { value: Some(FieldValue::Text(value)), ..Field::new(key, label, Kind::Text) }
}

/// A setting that is on or off.
pub fn boolean(key: &'static str, label: &'static str, value: bool) -> (r: Field)
    ensures
        r@ == bool_field(key@, label@, value),
{
    Field { value: Some(FieldValue::Bool(value)), ..Field::new(key, label, Kind::Bool) }
}

/// A secret, of which is told only whether it is set.
pub fn secret(key: &'static str, label: &'static str, configured: bool) -> (r: Field)
    ensures
        r@ == secret_field(key@, label@, configured),
{
    Field { configured: Some(configured), ..Field::new(key, label, Kind::Secret) }
}

/// A setting with one of some values.
pub fn enum_field(
    key: &'static str,
    label: &'static str,
    value: String,
    options: Vec<EnumOption>,
) -> (r: Field)
    ensures
        r@ == (FieldView {
            options: option_views(options@),
            ..text_field(key@, label@, Kind::Enum, value@)
        }),
{
    Field { value: Some(FieldValue::Text(value)), options, ..Field::new(key, label, Kind::Enum) }
}

// ---- The options for the provider ----

/// The texts among some values, in order.
pub open spec fn strings_among(items: Seq<json::JsonView>) -> Seq<Seq<char>>
    decreases items.len(),
{
    if items.len() == 0 {
        Seq::empty()
    } else {
        let before = strings_among(items.drop_last());
        match json::string_of(items.last()) {
            Some(t) => before.push(t),
            None => before,
        }
    }
}

/// The names of an enum's variants, from the JSON schema of the enum.
pub open spec fn variant_names(schema: json::JsonView) -> Seq<Seq<char>> {
    match json::member(schema, "enum"@) {
        Some(v) => match json::items_of(v) {
            Some(items) => strings_among(items),
            None => Seq::empty(),
        },
        None => Seq::empty(),
    }
}

/// The names of an enum's variants, from the JSON schema of the enum.
pub fn enum_variants(schema: &Json) -> (r: Vec<String>)
    ensures
        chars::texts(r@) == variant_names(schema@),
{
    let mut out: Vec<String> = Vec::new();
    assert(chars::texts(out@) =~= Seq::empty());
    match schema.get("enum") {
        Some(v) => match v.as_array() {
            Some(items) => {
                let ghost all = json::views(items@);
                let mut i: usize = 0;
                assert(strings_among(all.take(0)) =~= Seq::empty());
                while i < items.len()
                    invariant
                        i <= items@.len(),
                        all == json::views(items@),
                        chars::texts(out@) == strings_among(all.take(i as int)),
                    decreases items@.len() - i,
                {
                    proof {
                        assert(all.take(i + 1).drop_last() =~= all.take(i as int));
                        assert(all.take(i + 1).last() == items@[i as int]@);
                    }
                    let ghost before = chars::texts(out@);
                    if let Some(t) = items[i].as_str() {
                        out.push(String::from_str(t));
                        assert(chars::texts(out@) =~= before.push(t@));
                    }
                    i += 1;
                }
                assert(all.take(all.len() as int) =~= all);
                out
            },
            None => out,
        },
        None => out,
    }
}

/// What a provider is called. One that is not known is called by its name on the wire, so
/// that it can still be picked.
pub open spec fn label_of(value: Seq<char>) -> Seq<char> {
    if value == "echo"@ {
        "Echo (no API)"@
    } else if value == "gemini"@ {
        "Google Gemini"@
    } else if value == "anthropic"@ {
        "Anthropic"@
    } else if value == "openai"@ {
        "OpenAI"@
    } else if value == "openai-compatible"@ {
        "OpenAI-compatible"@
    } else {
        value
    }
}

/// What a provider is called. One that is not known is called by its name on the wire, so
/// that it can still be picked.
pub fn provider_label(value: &str) -> (r: String)
    ensures
        r@ == label_of(value@),
{
    if same_text(value, "echo") {
        String::from_str("Echo (no API)")
    } else if same_text(value, "gemini") {
        String::from_str("Google Gemini")
    } else if same_text(value, "anthropic") {
        String::from_str("Anthropic")
    } else if same_text(value, "openai") {
        String::from_str("OpenAI")
    } else if same_text(value, "openai-compatible") {
        String::from_str("OpenAI-compatible")
    } else {
        String::from_str(value)
    }
}

/// The providers that can be picked: one for each variant, in order.
pub open spec fn provider_choices(schema: json::JsonView) -> Seq<OptionView> {
    variant_names(schema).map_values(|t: Seq<char>| OptionView { value: t, label: label_of(t) })
}

/// The providers that can be picked: one for each variant, in order.
pub fn provider_options(schema: &Json) -> (r: Vec<EnumOption>)
    ensures
        option_views(r@) == provider_choices(schema@),
{
    let names = enum_variants(schema);
    let ghost all = names@;
    let mut out: Vec<EnumOption> = Vec::new();
    for value in it: names
        invariant
            it.seq() == all,
            out@.len() == it.index(),
            forall|k: int|
                0 <= k < out@.len() ==> (#[trigger] out@[k])@ == (OptionView {
                    value: all[k]@,
                    label: label_of(all[k]@),
                }),
    {
        out.push(EnumOption { label: provider_label(&value), value });
    }
    proof {
        assert(chars::texts(all) == variant_names(schema@));
        assert forall|k: int| 0 <= k < out@.len() implies #[trigger] option_views(out@)[k]
            == provider_choices(schema@)[k] by {
            assert(out@[k]@.value == chars::texts(all)[k]);
        }
        assert(option_views(out@) =~= provider_choices(schema@));
    }
    out
}

// ---- The schema ----

/// The text, or nothing.
pub open spec fn text_or_empty(t: Option<String>) -> Seq<char> {
    match t {
        Some(t) => t@,
        None => Seq::empty(),
    }
}

fn or_empty(t: &Option<String>) -> (r: String)
    ensures
        r@ == text_or_empty(*t),
{
    match t {
        Some(t) => t.clone(),
        None => {
            let r = String::new();
            assert(r@ =~= Seq::empty());
            r
        },
    }
}

pub open spec fn server_section(
    config: Config,
    system_prompt: Seq<char>,
    status_prompt: Seq<char>,
) -> SectionView {
    SectionView {
        key: "server"@,
        label: "Server"@,
        fields: seq![
            text_field(
                "server.display_name"@,
                "Display Name"@,
                Kind::Line,
                text_or_empty(config.server.display_name),
            ),
            text_field("server.system_prompt"@, "System Prompt"@, Kind::Text, system_prompt),
            text_field("server.status_prompt"@, "Status Prompt"@, Kind::Text, status_prompt),
        ],
    }
}

pub open spec fn llm_section(config: Config, providers: Seq<OptionView>) -> SectionView {
    SectionView {
        key: "llm"@,
        label: "LLM"@,
        fields: seq![
            FieldView {
                options: providers,
                ..text_field("llm.provider"@, "Provider"@, Kind::Enum, config.llm.provider@)
            },
            text_field("llm.model"@, "Model ID"@, Kind::Line, config.llm.model@),
            secret_field("llm.api_key"@, "API Key"@, config.llm.api_key is Some),
            FieldView {
                visible_when: Some(("llm.provider"@, "openai-compatible"@)),
                ..text_field(
                    "llm.base_url"@,
                    "Base URL"@,
                    Kind::Line,
                    text_or_empty(config.llm.base_url),
                )
            },
            bool_field("llm.web_search"@, "Provider web search"@, config.llm.web_search),
        ],
    }
}

pub open spec fn services_section(config: Config) -> SectionView {
    SectionView {
        key: "services"@,
        label: "Services"@,
        fields: seq![
            secret_field(
                "weather.pirate_weather_api_key"@,
                "PirateWeather API Key"@,
                config.weather.pirate_weather_api_key is Some,
            ),
            bool_field(
                "contacts.trust_all_contacts"@,
                "Trust all contacts"@,
                config.contacts.trust_all_contacts,
            ),
            bool_field(
                "contacts.allow_all_inbound"@,
                "Allow all inbound calls and messages"@,
                config.contacts.allow_all_inbound,
            ),
        ],
    }
}

pub open spec fn dev_section(config: Config) -> SectionView {
    SectionView {
        key: "dev"@,
        label: "Developer"@,
        fields: seq![
            bool_field(
                "dev.apk_install_enabled"@,
                "Remote APK install"@,
                config.dev.apk_install_enabled,
            ),
        ],
    }
}

/// The settings, with their keys as they stand in the configuration.
pub open spec fn description(
    config: Config,
    system_prompt: Seq<char>,
    status_prompt: Seq<char>,
    provider_schema: json::JsonView,
) -> Seq<SectionView> {
    seq![
        server_section(config, system_prompt, status_prompt),
        llm_section(config, provider_choices(provider_schema)),
        services_section(config),
        dev_section(config),
    ]
}

fn describe_server(config: &Config, system_prompt: String, status_prompt: String) -> (r: Section)
    ensures
        r@ == server_section(*config, system_prompt@, status_prompt@),
{
    let mut fields: Vec<Field> = Vec::new();
    fields.push(string("server.display_name", "Display Name", or_empty(&config.server.display_name)));
    fields.push(text("server.system_prompt", "System Prompt", system_prompt));
    fields.push(text("server.status_prompt", "Status Prompt", status_prompt));
    let r = Section { key: "server", label: "Server", fields };
    assert(r@.fields =~= server_section(*config, system_prompt@, status_prompt@).fields);
    r
}

fn describe_llm(config: &Config, providers: Vec<EnumOption>) -> (r: Section)
    ensures
        r@ == llm_section(*config, option_views(providers@)),
{
    let mut fields: Vec<Field> = Vec::new();
    fields.push(enum_field("llm.provider", "Provider", config.llm.provider.clone(), providers));
    fields.push(string("llm.model", "Model ID", config.llm.model.clone()));
    fields.push(secret("llm.api_key", "API Key", config.llm.api_key.is_some()));
    fields.push(
        string("llm.base_url", "Base URL", or_empty(&config.llm.base_url)).visible_when(
            "llm.provider",
            "openai-compatible",
        ),
    );
    fields.push(boolean("llm.web_search", "Provider web search", config.llm.web_search));
    let r = Section { key: "llm", label: "LLM", fields };
    assert(r@.fields =~= llm_section(*config, option_views(providers@)).fields);
    r
}

fn describe_services(config: &Config) -> (r: Section)
    ensures
        r@ == services_section(*config),
{
    let mut fields: Vec<Field> = Vec::new();
    fields.push(
        secret(
            "weather.pirate_weather_api_key",
            "PirateWeather API Key",
            config.weather.pirate_weather_api_key.is_some(),
        ),
    );
    fields.push(
        boolean(
            "contacts.trust_all_contacts",
            "Trust all contacts",
            config.contacts.trust_all_contacts,
        ),
    );
    fields.push(
        boolean(
            "contacts.allow_all_inbound",
            "Allow all inbound calls and messages",
            config.contacts.allow_all_inbound,
        ),
    );
    let r = Section { key: "services", label: "Services", fields };
    assert(r@.fields =~= services_section(*config).fields);
    r
}

fn describe_dev(config: &Config) -> (r: Section)
    ensures
        r@ == dev_section(*config),
{
    let mut fields: Vec<Field> = Vec::new();
    fields.push(
        boolean("dev.apk_install_enabled", "Remote APK install", config.dev.apk_install_enabled),
    );
    let r = Section { key: "dev", label: "Developer", fields };
    assert(r@.fields =~= dev_section(*config).fields);
    r
}

/// The settings, with their keys as they stand in the configuration. The prompts are those
/// that are in use, and `provider_schema` is the JSON schema of the providers' enum.
pub fn describe(
    config: &Config,
    system_prompt: String,
    status_prompt: String,
    provider_schema: &Json,
) -> (r: Schema)
    ensures
        r@ == description(*config, system_prompt@, status_prompt@, provider_schema@),
{
    let mut sections: Vec<Section> = Vec::new();
    sections.push(describe_server(config, system_prompt, status_prompt));
    sections.push(describe_llm(config, provider_options(provider_schema)));
    sections.push(describe_services(config));
    sections.push(describe_dev(config));
    let r = Schema { sections };
    assert(r@ =~= description(*config, system_prompt@, status_prompt@, provider_schema@));
    r
}

/// No secret is ever told: settings that differ only in what their secrets are give the same
/// description.
pub proof fn law_description_tells_no_secret(
    a: Config,
    b: Config,
    system_prompt: Seq<char>,
    status_prompt: Seq<char>,
    provider_schema: json::JsonView,
)
    requires
        a.server == b.server,
        a.llm.api_key is Some == b.llm.api_key is Some,
        a.llm == (crate::config::LlmConfig { api_key: a.llm.api_key, ..b.llm }),
        a.weather.pirate_weather_api_key is Some == b.weather.pirate_weather_api_key is Some,
        a.contacts == b.contacts,
        a.dev == b.dev,
    ensures
        description(a, system_prompt, status_prompt, provider_schema) == description(
            b,
            system_prompt,
            status_prompt,
            provider_schema,
        ),
{
}

/// A field with a secret has no value, and one without has one: in every description each
/// field has a value or, if it is a secret, says whether it is set.
pub proof fn law_secrets_have_no_value(
    config: Config,
    system_prompt: Seq<char>,
    status_prompt: Seq<char>,
    provider_schema: json::JsonView,
    s: int,
    f: int,
)
    requires
        0 <= s < description(config, system_prompt, status_prompt, provider_schema).len(),
        0 <= f < description(config, system_prompt, status_prompt, provider_schema)[s].fields.len(),
    ensures
        ({
            let field = description(
                config,
                system_prompt,
                status_prompt,
                provider_schema,
            )[s].fields[f];
            &&& field.kind == Kind::Secret <==> field.value is None
            &&& field.kind == Kind::Secret <==> field.configured is Some
        }),
{
}

// ---- The schema as JSON ----

/// What a kind is called on the wire.
pub open spec fn kind_text(kind: Kind) -> Seq<char> {
    match kind {
        Kind::Line => "string"@,
        Kind::Text => "text"@,
        Kind::Bool => "bool"@,
        Kind::Secret => "secret"@,
        Kind::Enum => "enum"@,
    }
}

impl Kind {
    /// What the kind is called on the wire.
    pub fn name(&self) -> (r: &'static str)
        ensures
            r@ == kind_text(*self),
    {
        match self {
            Kind::Line => "string",
            Kind::Text => "text",
            Kind::Bool => "bool",
            Kind::Secret => "secret",
            Kind::Enum => "enum",
        }
    }
}

pub open spec fn value_json(v: ValueView) -> json::JsonView {
    match v {
        ValueView::Text(t) => json::JsonView::Str(t),
        ValueView::Bool(b) => json::JsonView::Bool(b),
    }
}

/// An option, as JSON.
pub open spec fn option_json(option: OptionView) -> json::JsonView {
    json::JsonView::Object(
        seq![
            ("label"@, json::JsonView::Str(option.label)),
            ("value"@, json::JsonView::Str(option.value)),
        ],
    )
}

/// An option, as JSON.
fn option_to_json(option: &EnumOption) -> (r: Json)
    ensures
        r@ == option_json(option@),
        json::writable(r@),
{
    let mut o = ObjectBuilder::new();
    proof {
        reveal_strlit("label");
        reveal_strlit("value");
        chars::lemma_text_less_at("label"@, "value"@, 0);
    }
    o.put("label", json::text(&option.label));
    o.put("value", json::text(&option.value));
    let r = o.done();
    assert(r@->Object_0 =~= option_json(option@)->Object_0);
    r
}

/// What a field is visible with, as JSON.
pub open spec fn condition_json(w: (Seq<char>, Seq<char>)) -> json::JsonView {
    json::JsonView::Object(seq![(w.0, json::JsonView::Str(w.1))])
}

fn condition_to_json(w: &(&'static str, &'static str)) -> (r: Json)
    ensures
        r@ == condition_json((w.0@, w.1@)),
        json::writable(r@),
{
    let mut o = ObjectBuilder::new();
    o.put(w.0, json::text(w.1));
    let r = o.done();
    assert(r@->Object_0 =~= condition_json((w.0@, w.1@))->Object_0);
    r
}

pub open spec fn options_json(options: Seq<OptionView>) -> json::JsonView {
    json::JsonView::Array(options.map_values(|o: OptionView| option_json(o)))
}

fn options_to_json(options: &Vec<EnumOption>) -> (r: Json)
    ensures
        r@ == options_json(option_views(options@)),
        json::writable(r@),
{
    let mut out: Vec<Json> = Vec::new();
    let mut i: usize = 0;
    while i < options.len()
        invariant
            i <= options@.len(),
            out@.len() == i,
            forall|k: int|
                0 <= k < i ==> (#[trigger] out@[k])@ == option_json(options@[k]@)
                    && json::writable(out@[k]@),
        decreases options@.len() - i,
    {
        out.push(option_to_json(&options[i]));
        i += 1;
    }
    let ghost views = json::views(out@);
    proof {
        assert(views =~= option_views(options@).map_values(|o: OptionView| option_json(o)));
        assert forall|k: int| 0 <= k < views.len() implies json::writable(#[trigger] views[k]) by {
            assert(views[k] == out@[k]@);
        }
        json::lemma_array_is_writable(views);
    }
    array(out)
}

/// One member where there is a value, and none where there is not.
pub open spec fn optional_member(name: Seq<char>, value: Option<json::JsonView>) -> Seq<
    (Seq<char>, json::JsonView),
> {
    match value {
        Some(v) => seq![(name, v)],
        None => Seq::empty(),
    }
}

/// A field, as JSON. It tells nothing of what it does not have.
pub open spec fn field_json(f: FieldView) -> json::JsonView {
    json::JsonView::Object(
        optional_member(
            "configured"@,
            match f.configured {
                Some(b) => Some(json::JsonView::Bool(b)),
                None => None,
            },
        ) + seq![("key"@, json::JsonView::Str(f.key)), ("label"@, json::JsonView::Str(f.label))]
            + optional_member(
            "options"@,
            if f.options.len() == 0 {
                None
            } else {
                Some(options_json(f.options))
            },
        ) + seq![("type"@, json::JsonView::Str(kind_text(f.kind)))] + optional_member(
            "value"@,
            match f.value {
                Some(v) => Some(value_json(v)),
                None => None,
            },
        ) + optional_member(
            "visibleWhen"@,
            match f.visible_when {
                Some(w) => Some(condition_json(w)),
                None => None,
            },
        ),
    )
}

fn field_to_json(f: &Field) -> (r: Json)
    ensures
        r@ == field_json(f@),
        json::writable(r@),
{
    let mut o = ObjectBuilder::new();
    proof {
        reveal_strlit("configured");
        reveal_strlit("key");
        reveal_strlit("label");
        reveal_strlit("options");
        reveal_strlit("type");
        reveal_strlit("value");
        reveal_strlit("visibleWhen");
        chars::lemma_text_less_at("configured"@, "key"@, 0);
        chars::lemma_text_less_at("key"@, "label"@, 0);
        chars::lemma_text_less_at("label"@, "options"@, 0);
        chars::lemma_text_less_at("label"@, "type"@, 0);
        chars::lemma_text_less_at("options"@, "type"@, 0);
        chars::lemma_text_less_at("type"@, "value"@, 0);
        chars::lemma_text_less_at("type"@, "visibleWhen"@, 0);
        chars::lemma_text_less_at("value"@, "visibleWhen"@, 1);
    }
    if let Some(b) = f.configured {
        o.put("configured", Json::Bool(b));
    }
    o.put("key", json::text(f.key));
    o.put("label", json::text(f.label));
    if f.options.len() > 0 {
        o.put("options", options_to_json(&f.options));
    }
    o.put("type", json::text(f.kind.name()));
    match &f.value {
        Some(FieldValue::Text(t)) => o.put("value", json::text(t)),
        Some(FieldValue::Bool(b)) => o.put("value", Json::Bool(*b)),
        None => {},
    }
    if let Some(w) = &f.visible_when {
        o.put("visibleWhen", condition_to_json(w));
    }
    let r = o.done();
    assert(r@->Object_0 =~= field_json(f@)->Object_0);
    r
}

pub open spec fn fields_json(fields: Seq<FieldView>) -> json::JsonView {
    json::JsonView::Array(fields.map_values(|f: FieldView| field_json(f)))
}

fn fields_to_json(fields: &Vec<Field>) -> (r: Json)
    ensures
        r@ == fields_json(field_views(fields@)),
        json::writable(r@),
{
    let mut out: Vec<Json> = Vec::new();
    let mut i: usize = 0;
    while i < fields.len()
        invariant
            i <= fields@.len(),
            out@.len() == i,
            forall|k: int|
                0 <= k < i ==> (#[trigger] out@[k])@ == field_json(fields@[k]@) && json::writable(
                    out@[k]@,
                ),
        decreases fields@.len() - i,
    {
        out.push(field_to_json(&fields[i]));
        i += 1;
    }
    let ghost views = json::views(out@);
    proof {
        assert(views =~= field_views(fields@).map_values(|f: FieldView| field_json(f)));
        assert forall|k: int| 0 <= k < views.len() implies json::writable(#[trigger] views[k]) by {
            assert(views[k] == out@[k]@);
        }
        json::lemma_array_is_writable(views);
    }
    array(out)
}

/// A section, as JSON.
pub open spec fn section_json(s: SectionView) -> json::JsonView {
    json::JsonView::Object(
        seq![
            ("fields"@, fields_json(s.fields)),
            ("key"@, json::JsonView::Str(s.key)),
            ("label"@, json::JsonView::Str(s.label)),
        ],
    )
}

/// A section, as JSON.
fn section_to_json(s: &Section) -> (r: Json)
    ensures
        r@ == section_json(s@),
        json::writable(r@),
{
    let mut o = ObjectBuilder::new();
    proof {
        reveal_strlit("fields");
        reveal_strlit("key");
        reveal_strlit("label");
        chars::lemma_text_less_at("fields"@, "key"@, 0);
        chars::lemma_text_less_at("key"@, "label"@, 0);
    }
    o.put("fields", fields_to_json(&s.fields));
    o.put("key", json::text(s.key));
    o.put("label", json::text(s.label));
    let r = o.done();
    assert(r@->Object_0 =~= section_json(s@)->Object_0);
    r
}

/// The schema, as JSON.
pub open spec fn schema_json(sections: Seq<SectionView>) -> json::JsonView {
    json::JsonView::Object(
        seq![
            (
                "sections"@,
                json::JsonView::Array(sections.map_values(|s: SectionView| section_json(s))),
            ),
        ],
    )
}

impl Schema {
    /// The schema, as JSON.
    pub fn to_json(&self) -> (r: Json)
        ensures
            r@ == schema_json(self@),
            json::writable(r@),
    {
        let mut out: Vec<Json> = Vec::new();
        let mut i: usize = 0;
        while i < self.sections.len()
            invariant
                i <= self.sections@.len(),
                out@.len() == i,
                forall|k: int|
                    0 <= k < i ==> (#[trigger] out@[k])@ == section_json(self.sections@[k]@)
                        && json::writable(out@[k]@),
            decreases self.sections@.len() - i,
        {
            out.push(section_to_json(&self.sections[i]));
            i += 1;
        }
        let ghost views = json::views(out@);
        proof {
            assert(views =~= self@.map_values(|s: SectionView| section_json(s)));
            assert forall|k: int| 0 <= k < views.len() implies json::writable(
                #[trigger] views[k],
            ) by {
                assert(views[k] == out@[k]@);
            }
            json::lemma_array_is_writable(views);
        }
        let mut o = ObjectBuilder::new();
        o.put("sections", array(out));
        let r = o.done();
        assert(r@->Object_0 =~= schema_json(self@)->Object_0);
        r
    }
}

// ---- Laws on what the description tells ----

/// A provider is offered under its own name, with a label for people, and one without a label goes
/// by its name.
pub proof fn law_providers_have_labels(value: Seq<char>)
    ensures
        value == "echo"@ ==> label_of(value) == "Echo (no API)"@,
        value == "gemini"@ ==> label_of(value) == "Google Gemini"@,
        value == "anthropic"@ ==> label_of(value) == "Anthropic"@,
        value == "openai"@ ==> label_of(value) == "OpenAI"@,
        value == "openai-compatible"@ ==> label_of(value) == "OpenAI-compatible"@,
        value != "echo"@ && value != "gemini"@ && value != "anthropic"@ && value != "openai"@ && value
            != "openai-compatible"@ ==> label_of(value) == value,
{
    reveal_strlit("echo");
    reveal_strlit("gemini");
    reveal_strlit("anthropic");
    reveal_strlit("openai");
    reveal_strlit("openai-compatible");
    assert("echo"@.len() == 4 && "gemini"@.len() == 6 && "anthropic"@.len() == 9 && "openai"@.len() == 6
        && "openai-compatible"@.len() == 17);
    assert("gemini"@[0] == 'g' && "openai"@[0] == 'o');
}

/// Every name in the list of variants is offered, in order, and what is no name is left out.
pub proof fn law_every_variant_is_offered(
    schema: json::JsonView,
    items: Seq<json::JsonView>,
    i: int,
)
    requires
        json::member(schema, "enum"@) == Some(json::JsonView::Array(items)),
    ensures
        provider_choices(schema).len() == strings_among(items).len(),
        0 <= i < strings_among(items).len() ==> provider_choices(schema)[i].value == strings_among(
            items,
        )[i] && provider_choices(schema)[i].label == label_of(strings_among(items)[i]),
{
}

/// The strings of an array are taken in order.
pub proof fn law_strings_are_taken_in_order(
    items: Seq<json::JsonView>,
    t: Seq<char>,
    other: json::JsonView,
)
    requires
        !(other is Str),
    ensures
        strings_among(Seq::empty()).len() == 0,
        strings_among(items.push(json::JsonView::Str(t))) == strings_among(items).push(t),
        strings_among(items.push(other)) == strings_among(items),
{
    assert(items.push(json::JsonView::Str(t)).drop_last() =~= items);
    assert(items.push(other).drop_last() =~= items);
}

/// Whether a description has a setting of this key with this value.
pub open spec fn tells(sections: Seq<SectionView>, key: Seq<char>, value: ValueView) -> bool {
    exists|s: int, f: int|
        #![trigger sections[s].fields[f]]
        0 <= s < sections.len() && 0 <= f < sections[s].fields.len() && sections[s].fields[f].key
            == key && sections[s].fields[f].value == Some(value)
}

/// Whether a description has a secret of this key that is set, or not.
pub open spec fn tells_secret(sections: Seq<SectionView>, key: Seq<char>, is_set: bool) -> bool {
    exists|s: int, f: int|
        #![trigger sections[s].fields[f]]
        0 <= s < sections.len() && 0 <= f < sections[s].fields.len() && sections[s].fields[f].key
            == key && sections[s].fields[f].configured == Some(is_set) && sections[s].fields[f].kind
            == Kind::Secret
}

/// Every setting is told under its key with the value that it has, and every secret by whether it is
/// set.
pub proof fn law_description_tells_the_settings(
    c: Config,
    system_prompt: Seq<char>,
    status_prompt: Seq<char>,
    schema: json::JsonView,
)
    ensures
        ({
            let d = description(c, system_prompt, status_prompt, schema);
            &&& tells(d, "server.system_prompt"@, ValueView::Text(system_prompt))
            &&& tells(d, "server.status_prompt"@, ValueView::Text(status_prompt))
            &&& c.server.display_name matches Some(n) ==> tells(
                d,
                "server.display_name"@,
                ValueView::Text(n@),
            )
            &&& tells(d, "llm.provider"@, ValueView::Text(c.llm.provider@))
            &&& tells(d, "llm.model"@, ValueView::Text(c.llm.model@))
            &&& c.llm.base_url matches Some(u) ==> tells(d, "llm.base_url"@, ValueView::Text(u@))
            &&& tells(d, "llm.web_search"@, ValueView::Bool(c.llm.web_search))
            &&& tells(
                d,
                "contacts.trust_all_contacts"@,
                ValueView::Bool(c.contacts.trust_all_contacts),
            )
            &&& tells(
                d,
                "contacts.allow_all_inbound"@,
                ValueView::Bool(c.contacts.allow_all_inbound),
            )
            &&& tells(d, "dev.apk_install_enabled"@, ValueView::Bool(c.dev.apk_install_enabled))
            &&& tells_secret(d, "llm.api_key"@, c.llm.api_key is Some)
            &&& tells_secret(
                d,
                "weather.pirate_weather_api_key"@,
                c.weather.pirate_weather_api_key is Some,
            )
        }),
{
    let d = description(c, system_prompt, status_prompt, schema);
    assert(d[0].fields[0].key == "server.display_name"@);
    assert(d[0].fields[1].key == "server.system_prompt"@);
    assert(d[0].fields[2].key == "server.status_prompt"@);
    assert(d[1].fields[0].key == "llm.provider"@);
    assert(d[1].fields[1].key == "llm.model"@);
    assert(d[1].fields[2].key == "llm.api_key"@);
    assert(d[1].fields[3].key == "llm.base_url"@);
    assert(d[1].fields[4].key == "llm.web_search"@);
    assert(d[2].fields[0].key == "weather.pirate_weather_api_key"@);
    assert(d[2].fields[1].key == "contacts.trust_all_contacts"@);
    assert(d[2].fields[2].key == "contacts.allow_all_inbound"@);
    assert(d[3].fields[0].key == "dev.apk_install_enabled"@);
}

/// Only the base URL is hidden, and only while the provider does not need one; only the provider has
/// options.
pub proof fn law_only_the_base_url_is_hidden(
    c: Config,
    system_prompt: Seq<char>,
    status_prompt: Seq<char>,
    schema: json::JsonView,
    s: int,
    f: int,
)
    requires
        0 <= s < description(c, system_prompt, status_prompt, schema).len(),
        0 <= f < description(c, system_prompt, status_prompt, schema)[s].fields.len(),
    ensures
        ({
            let field = description(c, system_prompt, status_prompt, schema)[s].fields[f];
            &&& field.key == "llm.base_url"@ || field.visible_when is None
            &&& field.visible_when matches Some(w) ==> w == ("llm.provider"@, "openai-compatible"@)
            &&& field.key == "llm.provider"@ || field.options.len() == 0
            &&& field.kind == Kind::Enum ==> field.options == provider_choices(schema)
        }),
{
}

/// The JSON of a setting tells its key, its label and its type, and its value where it has one.
pub proof fn law_field_json_tells_the_field(f: FieldView)
    ensures
        json::holds(field_json(f), "key"@, json::JsonView::Str(f.key)),
        json::holds(field_json(f), "label"@, json::JsonView::Str(f.label)),
        json::holds(field_json(f), "type"@, json::JsonView::Str(kind_text(f.kind))),
        f.value matches Some(ValueView::Text(t)) ==> json::holds(
            field_json(f),
            "value"@,
            json::JsonView::Str(t),
        ),
        f.value matches Some(ValueView::Bool(b)) ==> json::holds(
            field_json(f),
            "value"@,
            json::JsonView::Bool(b),
        ),
        f.configured matches Some(b) ==> json::holds(
            field_json(f),
            "configured"@,
            json::JsonView::Bool(b),
        ),
        f.options.len() > 0 ==> json::holds(field_json(f), "options"@, options_json(f.options)),
        f.visible_when matches Some(w) ==> json::holds(
            field_json(f),
            "visibleWhen"@,
            json::JsonView::Object(seq![(w.0, json::JsonView::Str(w.1))]),
        ),
        kind_text(Kind::Line) == "string"@,
        kind_text(Kind::Text) == "text"@,
        kind_text(Kind::Bool) == "bool"@,
        kind_text(Kind::Secret) == "secret"@,
        kind_text(Kind::Enum) == "enum"@,
{
    let m = field_json(f)->Object_0;
    let a: int = if f.configured is Some {
        1
    } else {
        0
    };
    let b: int = if f.options.len() > 0 {
        1
    } else {
        0
    };
    let c: int = if f.value is Some {
        1
    } else {
        0
    };
    if f.configured is Some {
        assert(m[0].0 == "configured"@);
    }
    assert(m[a] == ("key"@, json::JsonView::Str(f.key)));
    assert(m[a + 1] == ("label"@, json::JsonView::Str(f.label)));
    if f.options.len() > 0 {
        assert(m[a + 2] == ("options"@, options_json(f.options)));
    }
    assert(m[a + 2 + b] == ("type"@, json::JsonView::Str(kind_text(f.kind))));
    if f.value is Some {
        assert(m[a + 3 + b] == ("value"@, value_json(f.value->0)));
    }
    if f.visible_when is Some {
        assert(m[a + 3 + b + c] == ("visibleWhen"@, condition_json(f.visible_when->0)));
    }
}

/// The JSON of a section tells its key, its label and its fields, and that of an option its value
/// and its label.
pub proof fn law_section_json_tells_the_section(s: SectionView, o: OptionView, i: int)
    ensures
        json::holds(section_json(s), "key"@, json::JsonView::Str(s.key)),
        json::holds(section_json(s), "label"@, json::JsonView::Str(s.label)),
        json::holds(section_json(s), "fields"@, fields_json(s.fields)),
        fields_json(s.fields)->Array_0.len() == s.fields.len(),
        0 <= i < s.fields.len() ==> fields_json(s.fields)->Array_0[i] == field_json(s.fields[i]),
        json::holds(option_json(o), "value"@, json::JsonView::Str(o.value)),
        json::holds(option_json(o), "label"@, json::JsonView::Str(o.label)),
{
    let m = section_json(s)->Object_0;
    assert(m[0] == ("fields"@, fields_json(s.fields)));
    assert(m[1] == ("key"@, json::JsonView::Str(s.key)));
    assert(m[2] == ("label"@, json::JsonView::Str(s.label)));
    let p = option_json(o)->Object_0;
    assert(p[0] == ("label"@, json::JsonView::Str(o.label)));
    assert(p[1] == ("value"@, json::JsonView::Str(o.value)));
}

/// Whether a section has a setting of this key, label and kind at this place.
pub open spec fn shows(s: SectionView, f: int, key: Seq<char>, label: Seq<char>, kind: Kind) -> bool {
    0 <= f < s.fields.len() && s.fields[f].key == key && s.fields[f].label == label
        && s.fields[f].kind == kind
}

/// The sections and their settings are shown in this order, under these labels and in these forms.
pub proof fn law_settings_are_shown_in_order(
    c: Config,
    system_prompt: Seq<char>,
    status_prompt: Seq<char>,
    schema: json::JsonView,
)
    ensures
        ({
            let d = description(c, system_prompt, status_prompt, schema);
            &&& d.len() == 4
            &&& d[0].key == "server"@ && d[0].label == "Server"@ && d[0].fields.len() == 3
            &&& shows(d[0], 0, "server.display_name"@, "Display Name"@, Kind::Line)
            &&& shows(d[0], 1, "server.system_prompt"@, "System Prompt"@, Kind::Text)
            &&& shows(d[0], 2, "server.status_prompt"@, "Status Prompt"@, Kind::Text)
            &&& d[1].key == "llm"@ && d[1].label == "LLM"@ && d[1].fields.len() == 5
            &&& shows(d[1], 0, "llm.provider"@, "Provider"@, Kind::Enum)
            &&& shows(d[1], 1, "llm.model"@, "Model ID"@, Kind::Line)
            &&& shows(d[1], 2, "llm.api_key"@, "API Key"@, Kind::Secret)
            &&& shows(d[1], 3, "llm.base_url"@, "Base URL"@, Kind::Line)
            &&& shows(d[1], 4, "llm.web_search"@, "Provider web search"@, Kind::Bool)
            &&& d[2].key == "services"@ && d[2].label == "Services"@ && d[2].fields.len() == 3
            &&& shows(
                d[2],
                0,
                "weather.pirate_weather_api_key"@,
                "PirateWeather API Key"@,
                Kind::Secret,
            )
            &&& shows(d[2], 1, "contacts.trust_all_contacts"@, "Trust all contacts"@, Kind::Bool)
            &&& shows(
                d[2],
                2,
                "contacts.allow_all_inbound"@,
                "Allow all inbound calls and messages"@,
                Kind::Bool,
            )
            &&& d[3].key == "dev"@ && d[3].label == "Developer"@ && d[3].fields.len() == 1
            &&& shows(d[3], 0, "dev.apk_install_enabled"@, "Remote APK install"@, Kind::Bool)
        }),
{
}

/// The JSON of a description has its sections, in order.
pub proof fn law_description_json_has_the_sections(sections: Seq<SectionView>, i: int)
    requires
        0 <= i < sections.len(),
    ensures
        exists|items: Seq<json::JsonView>|
            {
                &&& json::holds(schema_json(sections), "sections"@, json::JsonView::Array(items))
                &&& items.len() == sections.len()
                &&& #[trigger] items[i] == section_json(sections[i])
            },
        schema_json(sections)->Object_0.len() == 1,
{
    let items = sections.map_values(|s: SectionView| section_json(s));
    assert(schema_json(sections)->Object_0[0] == ("sections"@, json::JsonView::Array(items)));
    assert(items[i] == section_json(sections[i]));
    assert(json::holds(schema_json(sections), "sections"@, json::JsonView::Array(items)));
}

} // verus!
