//! Reading and changing the settings at runtime.

use crate::chars;
use crate::chars::{clone_opt, non_empty, same_opt, same_text};
use crate::config::Config;
use vstd::prelude::*;
use vstd::string::*;

verus! {

// ---- Requests ----

/// A change of the LLM settings: what is absent stays.
#[derive(Debug, PartialEq, Eq)]
pub struct UpdateLlmSettings {
    pub provider: Option<String>,
    pub model: Option<String>,
    pub api_key: Option<String>,
    pub base_url: Option<String>,
}

/// A change of the server settings. The addresses are read-only: of them a request only
/// says whether it holds them.
#[derive(Debug, PartialEq, Eq)]
pub struct UpdateServerSettings {
    pub http_bind_addr: bool,
    pub grpc_bind_addr: bool,
    pub public_addr: bool,
    pub system_prompt: Option<String>,
    pub display_name: Option<String>,
}

#[derive(Debug, PartialEq, Eq)]
pub struct UpdateWeatherSettings {
    pub pirate_weather_api_key: Option<String>,
}

/// A request to change settings. Storage is read-only.
#[derive(Debug, PartialEq, Eq)]
pub struct UpdateSettingsRequest {
    pub llm: Option<UpdateLlmSettings>,
    pub server: Option<UpdateServerSettings>,
    pub weather: Option<UpdateWeatherSettings>,
    pub storage: bool,
}

/// The settings that a request can change.
pub ghost struct SettingsView {
    pub provider: Seq<char>,
    pub model: Seq<char>,
    pub api_key: Option<Seq<char>>,
    pub base_url: Option<Seq<char>>,
    pub system_prompt: Seq<char>,
    pub display_name: Option<Seq<char>>,
    pub weather_key: Option<Seq<char>>,
}

/// The settings in a configuration that a request can change.
pub open spec fn settings_of(c: Config) -> SettingsView {
    SettingsView {
        provider: c.llm.provider@,
        model: c.llm.model@,
        api_key: chars::opt_text(c.llm.api_key),
        base_url: chars::opt_text(c.llm.base_url),
        system_prompt: c.server.system_prompt@,
        display_name: chars::opt_text(c.server.display_name),
        weather_key: chars::opt_text(c.weather.pirate_weather_api_key),
    }
}

/// Whether two configurations agree on everything that no request can change.
pub open spec fn same_fixed_settings(a: Config, b: Config) -> bool {
    &&& a.server.http_bind_addr == b.server.http_bind_addr
    &&& a.server.grpc_bind_addr == b.server.grpc_bind_addr
    &&& a.server.public_addr == b.server.public_addr
    &&& a.llm.web_search == b.llm.web_search
    &&& a.llm.tools == b.llm.tools
    &&& a.storage == b.storage
    &&& a.contacts == b.contacts
    &&& a.dev == b.dev
    &&& a.music == b.music
    &&& a.apple_music == b.apple_music
    &&& a.spotify == b.spotify
    &&& a.youtube == b.youtube
    &&& a.mopidy == b.mopidy
}

/// What a request asks to set; `None` leaves a setting alone.
pub ghost struct RequestView {
    pub provider: Option<Seq<char>>,
    pub model: Option<Seq<char>>,
    pub api_key: Option<Seq<char>>,
    pub base_url: Option<Seq<char>>,
    pub system_prompt: Option<Seq<char>>,
    pub display_name: Option<Seq<char>>,
    pub weather_key: Option<Seq<char>>,
}

impl View for UpdateSettingsRequest {
    type V = RequestView;

    open spec fn view(&self) -> RequestView {
        RequestView {
            provider: match self.llm {
                Some(llm) => chars::opt_text(llm.provider),
                None => None,
            },
            model: match self.llm {
                Some(llm) => chars::opt_text(llm.model),
                None => None,
            },
            api_key: match self.llm {
                Some(llm) => chars::opt_text(llm.api_key),
                None => None,
            },
            base_url: match self.llm {
                Some(llm) => chars::opt_text(llm.base_url),
                None => None,
            },
            system_prompt: match self.server {
                Some(server) => chars::opt_text(server.system_prompt),
                None => None,
            },
            display_name: match self.server {
                Some(server) => chars::opt_text(server.display_name),
                None => None,
            },
            weather_key: match self.weather {
                Some(weather) => chars::opt_text(weather.pirate_weather_api_key),
                None => None,
            },
        }
    }
}

/// A setting after a request: what was asked for, or else what it was.
pub open spec fn asked_or(asked: Option<Seq<char>>, was: Seq<char>) -> Seq<char> {
    match asked {
        Some(t) => t,
        None => was,
    }
}

/// An optional setting after a request: the empty text clears it.
pub open spec fn asked_or_cleared(
    asked: Option<Seq<char>>,
    was: Option<Seq<char>>,
) -> Option<Seq<char>> {
    match asked {
        Some(t) => chars::text_or_none(t),
        None => was,
    }
}

/// The settings after a request.
pub open spec fn updated(s: SettingsView, r: RequestView) -> SettingsView {
    SettingsView {
        provider: asked_or(r.provider, s.provider),
        model: asked_or(r.model, s.model),
        api_key: asked_or_cleared(r.api_key, s.api_key),
        base_url: asked_or_cleared(r.base_url, s.base_url),
        system_prompt: asked_or(r.system_prompt, s.system_prompt),
        display_name: asked_or_cleared(r.display_name, s.display_name),
        weather_key: asked_or_cleared(r.weather_key, s.weather_key),
    }
}

/// What has to be reloaded after a change.
#[derive(Clone, Copy, Debug, PartialEq, Eq, Structural)]
pub struct SettingsChanges {
    pub llm_changed: bool,
    pub system_prompt_changed: bool,
    pub weather_key_changed: bool,
}

/// What has to be reloaded when the settings `s` change by a request. A new API key
/// always counts as a change, as keys are not compared.
pub open spec fn changes(s: SettingsView, r: RequestView) -> SettingsChanges {
    let n = updated(s, r);
    SettingsChanges {
        llm_changed: n.provider != s.provider || n.model != s.model || r.api_key is Some
            || n.base_url != s.base_url,
        system_prompt_changed: n.system_prompt != s.system_prompt,
        weather_key_changed: n.weather_key != s.weather_key,
    }
}

// ---- Refusing ----

pub const HTTP_BIND_ADDR_IS_FIXED: &'static str =
    "http_bind_addr cannot be changed at runtime (requires server restart)";

pub const GRPC_BIND_ADDR_IS_FIXED: &'static str =
    "grpc_bind_addr cannot be changed at runtime (requires server restart)";

pub const PUBLIC_ADDR_IS_FIXED: &'static str =
    "public_addr cannot be changed at runtime (requires server restart)";

pub const STORAGE_IS_FIXED: &'static str =
    "storage paths cannot be changed at runtime (requires server restart)";

/// Why a request is refused, if it asks for a change of what is read-only.
pub open spec fn refusal(r: UpdateSettingsRequest) -> Option<Seq<char>> {
    if r.server is Some && r.server->0.http_bind_addr {
        Some(HTTP_BIND_ADDR_IS_FIXED@)
    } else if r.server is Some && r.server->0.grpc_bind_addr {
        Some(GRPC_BIND_ADDR_IS_FIXED@)
    } else if r.server is Some && r.server->0.public_addr {
        Some(PUBLIC_ADDR_IS_FIXED@)
    } else if r.storage {
        Some(STORAGE_IS_FIXED@)
    } else {
        None
    }
}

/// Why a request is refused, if it asks for a change of what is read-only.
pub fn read_only_refusal(body: &UpdateSettingsRequest) -> (r: Option<String>)
    ensures
        chars::opt_text(r) == refusal(*body),
{
    if let Some(server) = &body.server {
        if server.http_bind_addr {
            return Some(String::from_str(HTTP_BIND_ADDR_IS_FIXED));
        }
        if server.grpc_bind_addr {
            return Some(String::from_str(GRPC_BIND_ADDR_IS_FIXED));
        }
        if server.public_addr {
            return Some(String::from_str(PUBLIC_ADDR_IS_FIXED));
        }
    }
    if body.storage {
        return Some(String::from_str(STORAGE_IS_FIXED));
    }
    None
}

// ---- Applying ----

/// Sets a text if a request asks for it, and says whether that changed it.
fn set_text(target: &mut String, asked: &Option<String>) -> (changed: bool)
    ensures
        final(target)@ == asked_or(chars::opt_text(*asked), old(target)@),
        changed == (final(target)@ != old(target)@),
{
    if let Some(t) = asked {
        if !same_text(t, target.as_str()) {
            *target = t.clone();
            return true;
        }
    }
    false
}

/// Sets or clears an optional text if a request asks for it, and says whether that
/// changed it.
fn set_optional(target: &mut Option<String>, asked: &Option<String>) -> (changed: bool)
    ensures
        chars::opt_text(*final(target)) == asked_or_cleared(
            chars::opt_text(*asked),
            chars::opt_text(*old(target)),
        ),
        changed == (chars::opt_text(*final(target)) != chars::opt_text(*old(target))),
{
    if let Some(t) = asked {
        let value = non_empty(t);
        if !same_opt(&value, target) {
            *target = value;
            return true;
        }
    }
    false
}

/// Applies a request to the settings, and says what has to be reloaded.
pub fn apply_settings(config: &mut Config, body: &UpdateSettingsRequest) -> (r: SettingsChanges)
    ensures
        settings_of(*final(config)) == updated(settings_of(*old(config)), body@),
        same_fixed_settings(*final(config), *old(config)),
        r == changes(settings_of(*old(config)), body@),
{
    let mut llm_changed = false;
    let mut system_prompt_changed = false;
    let mut weather_key_changed = false;
    if let Some(llm) = &body.llm {
        let provider_changed = set_text(&mut config.llm.provider, &llm.provider);
        let model_changed = set_text(&mut config.llm.model, &llm.model);
        set_optional(&mut config.llm.api_key, &llm.api_key);
        let base_url_changed = set_optional(&mut config.llm.base_url, &llm.base_url);
        llm_changed = provider_changed || model_changed || llm.api_key.is_some()
            || base_url_changed;
    }
    if let Some(server) = &body.server {
        system_prompt_changed = set_text(&mut config.server.system_prompt, &server.system_prompt);
        set_optional(&mut config.server.display_name, &server.display_name);
    }
    if let Some(weather) = &body.weather {
        weather_key_changed = set_optional(
            &mut config.weather.pirate_weather_api_key,
            &weather.pirate_weather_api_key,
        );
    }
    SettingsChanges { llm_changed, system_prompt_changed, weather_key_changed }
}

// ---- The course of an update ----

/// What to do with a request, once it has been read.
#[derive(Debug, PartialEq, Eq)]
pub enum UpdateStep {
    /// Answer that the request is bad, for this reason.
    Refuse(String),
    /// The settings are changed. Build a new LLM agent from them. Where that fails, go on
    /// with [`agent_failed`], and else as for `Commit`.
    BuildAgent { weather_key_changed: bool },
    /// The settings are changed. Reload the weather key if it changed, write the settings
    /// to disk and answer with them.
    Commit { weather_key_changed: bool },
}

/// Whether this step answers a request, which turns the configuration `was` into `now`.
pub open spec fn is_update(
    r: UpdateStep,
    was: Config,
    now: Config,
    body: UpdateSettingsRequest,
) -> bool {
    match refusal(body) {
        Some(why) => r is Refuse && r->Refuse_0@ == why && now == was,
        None => {
            let c = changes(settings_of(was), body@);
            &&& settings_of(now) == updated(settings_of(was), body@)
            &&& same_fixed_settings(now, was)
            &&& r == if c.llm_changed || c.system_prompt_changed {
                UpdateStep::BuildAgent { weather_key_changed: c.weather_key_changed }
            } else {
                UpdateStep::Commit { weather_key_changed: c.weather_key_changed }
            }
        },
    }
}

/// Takes a request to change the settings. A refused request changes nothing.
pub fn update_settings(config: &mut Config, body: &UpdateSettingsRequest) -> (r: UpdateStep)
    ensures
        is_update(r, *old(config), *final(config), *body),
{
    if let Some(why) = read_only_refusal(body) {
        return UpdateStep::Refuse(why);
    }
    let c = apply_settings(config, body);
    if c.llm_changed || c.system_prompt_changed {
        UpdateStep::BuildAgent { weather_key_changed: c.weather_key_changed }
    } else {
        UpdateStep::Commit { weather_key_changed: c.weather_key_changed }
    }
}

pub const INVALID_LLM: &'static str = "invalid LLM configuration: ";

/// The agent could not be built from the changed settings: the settings go back to what
/// is on disk, if that could be read, and the answer says why.
pub fn agent_failed(config: &mut Config, error: &str, on_disk: Option<Config>) -> (r: String)
    ensures
        *final(config) == match on_disk {
            Some(c) => c,
            None => *old(config),
        },
        r@ == INVALID_LLM@ + error@,
{
    if let Some(restored) = on_disk {
        *config = restored;
    }
    let mut answer = String::from_str(INVALID_LLM);
    answer.append(error);
    answer
}

// ---- Answers ----

#[derive(Debug, PartialEq, Eq)]
pub struct LlmSettingsResponse {
    pub provider: String,
    pub model: String,
    pub has_api_key: bool,
    pub base_url: Option<String>,
}

#[derive(Debug, PartialEq, Eq)]
pub struct ServerSettingsResponse {
    pub http_bind_addr: String,
    pub grpc_bind_addr: String,
    pub public_addr: String,
    pub system_prompt: String,
    pub display_name: Option<String>,
}

#[derive(Debug, PartialEq, Eq)]
pub struct StorageSettingsResponse {
    pub media_dir: String,
    pub db_path: String,
}

#[derive(Debug, PartialEq, Eq)]
pub struct WeatherSettingsResponse {
    pub has_api_key: bool,
}

#[derive(Debug, PartialEq, Eq)]
pub struct SettingsResponse {
    pub llm: LlmSettingsResponse,
    pub server: ServerSettingsResponse,
    pub storage: StorageSettingsResponse,
    pub weather: WeatherSettingsResponse,
}

/// The settings as they are answered: of a key, only whether there is one.
pub open spec fn settings_answer(c: Config, has_llm_key: bool, has_weather_key: bool) -> SettingsResponse {
    SettingsResponse {
        llm: LlmSettingsResponse {
            provider: c.llm.provider,
            model: c.llm.model,
            has_api_key: has_llm_key,
            base_url: c.llm.base_url,
        },
        server: ServerSettingsResponse {
            http_bind_addr: c.server.http_bind_addr,
            grpc_bind_addr: c.server.grpc_bind_addr,
            public_addr: c.server.public_addr,
            system_prompt: c.server.system_prompt,
            display_name: c.server.display_name,
        },
        storage: StorageSettingsResponse { media_dir: c.storage.media_dir, db_path: c.storage.db_path },
        weather: WeatherSettingsResponse { has_api_key: has_weather_key },
    }
}

/// The settings as they are answered, given whether an LLM key and a weather key were
/// found, in the settings or elsewhere.
pub fn get_settings(config: &Config, has_llm_key: bool, has_weather_key: bool) -> (r: SettingsResponse)
    ensures
        r == settings_answer(*config, has_llm_key, has_weather_key),
{
    SettingsResponse {
        llm: LlmSettingsResponse {
            provider: config.llm.provider.clone(),
            model: config.llm.model.clone(),
            has_api_key: has_llm_key,
            base_url: clone_opt(&config.llm.base_url),
        },
        server: ServerSettingsResponse {
            http_bind_addr: config.server.http_bind_addr.clone(),
            grpc_bind_addr: config.server.grpc_bind_addr.clone(),
            public_addr: config.server.public_addr.clone(),
            system_prompt: config.server.system_prompt.clone(),
            display_name: clone_opt(&config.server.display_name),
        },
        storage: StorageSettingsResponse {
            media_dir: config.storage.media_dir.clone(),
            db_path: config.storage.db_path.clone(),
        },
        weather: WeatherSettingsResponse { has_api_key: has_weather_key },
    }
}

// ---- Laws ----

/// Asking for the same settings a second time changes nothing more.
pub proof fn law_update_is_idempotent(s: SettingsView, r: RequestView)
    ensures
        updated(updated(s, r), r) == updated(s, r),
        !changes(updated(s, r), r).system_prompt_changed,
        !changes(updated(s, r), r).weather_key_changed,
        r.api_key is None ==> !changes(updated(s, r), r).llm_changed,
{
}

/// A request that asks for nothing changes nothing.
pub proof fn law_empty_request_changes_nothing(s: SettingsView, r: RequestView)
    requires
        r == (RequestView {
            provider: None,
            model: None,
            api_key: None,
            base_url: None,
            system_prompt: None,
            display_name: None,
            weather_key: None,
        }),
    ensures
        updated(s, r) == s,
        changes(s, r) == (SettingsChanges {
            llm_changed: false,
            system_prompt_changed: false,
            weather_key_changed: false,
        }),
{
}

/// The answer shows no key: configurations that differ in their keys alone are answered
/// alike.
pub proof fn law_answer_shows_no_key(a: Config, b: Config, has_llm_key: bool, has_weather_key: bool)
    requires
        a.server == b.server,
        a.storage == b.storage,
        a.llm.provider == b.llm.provider,
        a.llm.model == b.llm.model,
        a.llm.base_url == b.llm.base_url,
    ensures
        settings_answer(a, has_llm_key, has_weather_key) == settings_answer(
            b,
            has_llm_key,
            has_weather_key,
        ),
{
}

/// A setting that a request gives is set to what it gives, and one that it does not give stays;
/// an empty text takes an optional setting away.
pub proof fn law_settings_are_what_is_asked(s: SettingsView, r: RequestView)
    ensures
        ({
            let n = updated(s, r);
            &&& r.provider matches Some(t) ==> n.provider == t
            &&& r.provider is None ==> n.provider == s.provider
            &&& r.model matches Some(t) ==> n.model == t
            &&& r.model is None ==> n.model == s.model
            &&& r.system_prompt matches Some(t) ==> n.system_prompt == t
            &&& r.system_prompt is None ==> n.system_prompt == s.system_prompt
            &&& r.api_key matches Some(t) ==> (t.len() > 0 ==> n.api_key == Some(t)) && (t.len() == 0
                ==> n.api_key is None)
            &&& r.api_key is None ==> n.api_key == s.api_key
            &&& r.base_url matches Some(t) ==> (t.len() > 0 ==> n.base_url == Some(t)) && (t.len()
                == 0 ==> n.base_url is None)
            &&& r.base_url is None ==> n.base_url == s.base_url
            &&& r.display_name matches Some(t) ==> (t.len() > 0 ==> n.display_name == Some(t)) && (
            t.len() == 0 ==> n.display_name is None)
            &&& r.display_name is None ==> n.display_name == s.display_name
            &&& r.weather_key matches Some(t) ==> (t.len() > 0 ==> n.weather_key == Some(t)) && (
            t.len() == 0 ==> n.weather_key is None)
            &&& r.weather_key is None ==> n.weather_key == s.weather_key
        }),
{
}

/// A request that leaves provider, model or base URL other than it was, or that gives an API key,
/// leads to a new agent, each of them alone; and nothing else does.
pub proof fn law_agent_follows_its_settings(s: SettingsView, r: RequestView)
    ensures
        updated(s, r).provider != s.provider ==> changes(s, r).llm_changed,
        updated(s, r).model != s.model ==> changes(s, r).llm_changed,
        updated(s, r).base_url != s.base_url ==> changes(s, r).llm_changed,
        r.api_key is Some ==> changes(s, r).llm_changed,
        changes(s, r).llm_changed ==> r.api_key is Some || updated(s, r).provider != s.provider
            || updated(s, r).model != s.model || updated(s, r).base_url != s.base_url,
{
}

/// The weather key is reloaded, and the prompt counts as changed, exactly where the new one
/// differs from the old one.
pub proof fn law_changes_are_noticed(s: SettingsView, r: RequestView)
    ensures
        changes(s, r).weather_key_changed <==> updated(s, r).weather_key != s.weather_key,
        changes(s, r).system_prompt_changed <==> updated(s, r).system_prompt != s.system_prompt,
{
}

/// A request is refused exactly where it gives one of the settings that cannot be changed.
pub proof fn law_fixed_settings_are_refused(r: UpdateSettingsRequest)
    ensures
        refusal(r) is Some <==> r.storage || (r.server is Some && (r.server->0.http_bind_addr
            || r.server->0.grpc_bind_addr || r.server->0.public_addr)),
        r.server is Some && r.server->0.http_bind_addr ==> refusal(r)
            == Some("http_bind_addr cannot be changed at runtime (requires server restart)"@),
        r.server is Some && r.server->0.grpc_bind_addr && !r.server->0.http_bind_addr ==> refusal(r)
            == Some("grpc_bind_addr cannot be changed at runtime (requires server restart)"@),
        r.server is Some && r.server->0.public_addr && !r.server->0.http_bind_addr
            && !r.server->0.grpc_bind_addr ==> refusal(r)
            == Some("public_addr cannot be changed at runtime (requires server restart)"@),
{
}

/// What a request asks for is what its parts give.
pub proof fn law_request_is_read_by_its_parts(r: UpdateSettingsRequest)
    ensures
        r.llm matches Some(llm) ==> {
            &&& r@.provider == chars::opt_text(llm.provider)
            &&& r@.model == chars::opt_text(llm.model)
            &&& r@.api_key == chars::opt_text(llm.api_key)
            &&& r@.base_url == chars::opt_text(llm.base_url)
        },
        r.llm is None ==> r@.provider is None && r@.model is None && r@.api_key is None
            && r@.base_url is None,
        r.server matches Some(server) ==> r@.system_prompt == chars::opt_text(server.system_prompt)
            && r@.display_name == chars::opt_text(server.display_name),
        r.server is None ==> r@.system_prompt is None && r@.display_name is None,
        r.weather matches Some(w) ==> r@.weather_key == chars::opt_text(w.pirate_weather_api_key),
        r.weather is None ==> r@.weather_key is None,
{
}

/// The settings of a configuration are its own.
pub proof fn law_settings_are_those_of_the_configuration(c: Config)
    ensures
        settings_of(c).provider == c.llm.provider@,
        settings_of(c).model == c.llm.model@,
        settings_of(c).api_key == chars::opt_text(c.llm.api_key),
        settings_of(c).base_url == chars::opt_text(c.llm.base_url),
        settings_of(c).system_prompt == c.server.system_prompt@,
        settings_of(c).display_name == chars::opt_text(c.server.display_name),
        settings_of(c).weather_key == chars::opt_text(c.weather.pirate_weather_api_key),
{
}

/// No request reaches the settings that cannot be changed, those of the music services among
/// them.
pub proof fn law_fixed_settings_stay(a: Config, b: Config)
    requires
        same_fixed_settings(a, b),
    ensures
        a.server.http_bind_addr == b.server.http_bind_addr,
        a.server.grpc_bind_addr == b.server.grpc_bind_addr,
        a.server.public_addr == b.server.public_addr,
        a.storage == b.storage,
        a.music == b.music,
        a.apple_music == b.apple_music,
        a.spotify == b.spotify,
        a.youtube == b.youtube,
        a.mopidy == b.mopidy,
        a.contacts == b.contacts,
        a.dev == b.dev,
        a.llm.tools == b.llm.tools,
        a.llm.web_search == b.llm.web_search,
{
}

/// The answer shows each setting as the configuration has it, and of a key only whether there is
/// one.
pub proof fn law_answer_shows_the_settings(c: Config, has_llm_key: bool, has_weather_key: bool)
    ensures
        ({
            let a = settings_answer(c, has_llm_key, has_weather_key);
            &&& a.llm.provider == c.llm.provider
            &&& a.llm.model == c.llm.model
            &&& a.llm.base_url == c.llm.base_url
            &&& a.llm.has_api_key == has_llm_key
            &&& a.weather.has_api_key == has_weather_key
            &&& a.server.http_bind_addr == c.server.http_bind_addr
            &&& a.server.grpc_bind_addr == c.server.grpc_bind_addr
            &&& a.server.public_addr == c.server.public_addr
            &&& a.server.system_prompt == c.server.system_prompt
            &&& a.server.display_name == c.server.display_name
            &&& a.storage.media_dir == c.storage.media_dir
            &&& a.storage.db_path == c.storage.db_path
        }),
{
}

/// A refused request changes nothing. Any other leaves a new agent to be built exactly where
/// something that the agent is made of is new: the provider, the model, the base URL, the system
/// prompt, or a key that was sent. The weather key is reported as new exactly where it is.
pub proof fn law_step_tells_what_is_new(
    r: UpdateStep,
    was: Config,
    now: Config,
    body: UpdateSettingsRequest,
)
    requires
        is_update(r, was, now, body),
    ensures
        r is Refuse <==> body.storage || (body.server is Some && (body.server->0.http_bind_addr
            || body.server->0.grpc_bind_addr || body.server->0.public_addr)),
        r is Refuse ==> now == was,
        r is BuildAgent <==> !(r is Refuse) && (now.llm.provider@ != was.llm.provider@
            || now.llm.model@ != was.llm.model@ || chars::opt_text(now.llm.base_url)
            != chars::opt_text(was.llm.base_url) || now.server.system_prompt@
            != was.server.system_prompt@ || (body.llm is Some && body.llm->0.api_key is Some)),
        r matches UpdateStep::BuildAgent { weather_key_changed } ==> (weather_key_changed
            <==> chars::opt_text(now.weather.pirate_weather_api_key) != chars::opt_text(
            was.weather.pirate_weather_api_key,
        )),
        r matches UpdateStep::Commit { weather_key_changed } ==> (weather_key_changed
            <==> chars::opt_text(now.weather.pirate_weather_api_key) != chars::opt_text(
            was.weather.pirate_weather_api_key,
        )),
        !(r is Refuse) && body.llm is None ==> now.llm.provider@ == was.llm.provider@ && now.llm.model@
            == was.llm.model@,
{
    let s = settings_of(was);
    let n = updated(s, body@);
    if !(r is Refuse) {
        assert(settings_of(now).provider == n.provider && settings_of(now).model == n.model);
        assert(settings_of(now).base_url == n.base_url && settings_of(now).system_prompt
            == n.system_prompt);
        assert(settings_of(now).weather_key == n.weather_key);
    }
}

/// A request to change where things are stored is refused for that reason, unless an address is to
/// be changed too.
pub proof fn law_storage_stays(r: UpdateSettingsRequest)
    ensures
        r.storage && r.server is None ==> refusal(r)
            == Some("storage paths cannot be changed at runtime (requires server restart)"@),
{
}

} // verus!
