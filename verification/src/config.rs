//! The server's configuration, as the rest of the library reads it.

use vstd::prelude::*;
use vstd::string::*;

verus! {

#[derive(Clone, Debug, PartialEq, Eq)]
pub struct ServerConfig {
    pub http_bind_addr: String,
    pub grpc_bind_addr: String,
    pub public_addr: String,
    pub system_prompt: String,
    pub display_name: Option<String>,
}

#[derive(Clone, Debug, PartialEq, Eq)]
pub struct ToolsConfig {
    pub enabled: bool,
    pub max_tool_turns: usize,
    pub tool_concurrency: usize,
}

#[derive(Clone, Debug, PartialEq, Eq)]
pub struct LlmConfig {
    /// The provider's wire name, such as `openai`.
    pub provider: String,
    pub model: String,
    pub api_key: Option<String>,
    pub base_url: Option<String>,
    pub web_search: bool,
    pub tools: ToolsConfig,
}

#[derive(Clone, Debug, PartialEq, Eq)]
pub struct StorageConfig {
    pub media_dir: String,
    pub db_path: String,
}

#[derive(Clone, Debug, PartialEq, Eq)]
pub struct WeatherConfig {
    pub pirate_weather_api_key: Option<String>,
}

#[derive(Clone, Debug, PartialEq, Eq)]
pub struct ContactsConfig {
    pub trust_all_contacts: bool,
    pub allow_all_inbound: bool,
}

#[derive(Clone, Debug, PartialEq, Eq)]
pub struct DevConfig {
    pub apk_install_enabled: bool,
}

/// The music backends that can be selected.
#[derive(Clone, Copy, Debug, PartialEq, Eq, Structural)]
pub enum MusicProviderKind {
    Apple,
    Spotify,
    Youtube,
    Mopidy,
}

#[derive(Clone, Debug, PartialEq, Eq)]
pub struct MusicConfig {
    pub provider: MusicProviderKind,
}

#[derive(Clone, Debug, PartialEq, Eq)]
pub struct AppleMusicConfig {
    pub storefront: String,
    pub user_token: Option<String>,
}

#[derive(Clone, Debug, PartialEq, Eq)]
pub struct SpotifyConfig {
    pub client_id: Option<String>,
    pub client_secret: Option<String>,
    pub market: String,
    pub refresh_token: Option<String>,
    pub streaming_token: Option<String>,
}

#[derive(Clone, Debug, PartialEq, Eq)]
pub struct YoutubeConfig {
    pub cookies_path: Option<String>,
}

#[derive(Clone, Debug, PartialEq, Eq)]
pub struct MopidyConfig {
    pub url: Option<String>,
    pub stream_url: Option<String>,
}

#[derive(Clone, Debug, PartialEq, Eq)]
pub struct Config {
    pub server: ServerConfig,
    pub llm: LlmConfig,
    pub storage: StorageConfig,
    pub weather: WeatherConfig,
    pub contacts: ContactsConfig,
    pub dev: DevConfig,
    pub music: MusicConfig,
    pub apple_music: AppleMusicConfig,
    pub spotify: SpotifyConfig,
    pub youtube: YoutubeConfig,
    pub mopidy: MopidyConfig,
}

/// Whether no credential is set in `c`.
pub open spec fn has_no_credentials(c: Config) -> bool {
    &&& c.llm.api_key is None
    &&& c.weather.pirate_weather_api_key is None
    &&& c.apple_music.user_token is None
    &&& c.spotify.client_id is None
    &&& c.spotify.client_secret is None
    &&& c.spotify.refresh_token is None
    &&& c.spotify.streaming_token is None
    &&& c.youtube.cookies_path is None
    &&& c.mopidy.url is None
    &&& c.mopidy.stream_url is None
}

impl Default for Config {
    /// A configuration with no credentials and Apple as the music provider.
    fn default() -> (r: Config)
        ensures
            has_no_credentials(r),
            r.music.provider == MusicProviderKind::Apple,
            r.llm.base_url is None,
            r.server.display_name is None,
    {
        Config {
            server: ServerConfig {
                http_bind_addr: String::new(),
                grpc_bind_addr: String::new(),
                public_addr: String::new(),
                system_prompt: String::new(),
                display_name: None,
            },
            llm: LlmConfig {
                provider: String::from_str("echo"),
                model: String::new(),
                api_key: None,
                base_url: None,
                web_search: false,
                tools: ToolsConfig { enabled: false, max_tool_turns: 0, tool_concurrency: 0 },
            },
            storage: StorageConfig { media_dir: String::new(), db_path: String::new() },
            weather: WeatherConfig { pirate_weather_api_key: None },
            contacts: ContactsConfig { trust_all_contacts: false, allow_all_inbound: false },
            dev: DevConfig { apk_install_enabled: false },
            music: MusicConfig { provider: MusicProviderKind::Apple },
            apple_music: AppleMusicConfig { storefront: String::new(), user_token: None },
            spotify: SpotifyConfig {
                client_id: None,
                client_secret: None,
                market: String::new(),
                refresh_token: None,
                streaming_token: None,
            },
            youtube: YoutubeConfig { cookies_path: None },
            mopidy: MopidyConfig { url: None, stream_url: None },
        }
    }
}

} // verus!
