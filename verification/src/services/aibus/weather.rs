//! The weather at a place.

use crate::chars::same_text;
use crate::external::text4;
use crate::json;
use crate::json::{Json, JsonNumber};
use crate::services::aibus::envelope;
use crate::services::aibus::envelope::{
    decoded, status, unwrap_plaintext_data, Code, Coordinates, EncryptedData, Status,
    LOCATION_ENVELOPE,
};
use crate::services::aibus::fetch;
use crate::services::aibus::fetch::{reply_of, Fetched};
use vstd::prelude::*;
use vstd::string::*;

verus! {

pub const WEATHER_RESPONSE: &'static str = "humane.aibus.WeatherResponse";

pub const NOT_CONFIGURED: &'static str =
    "weather not configured — set PIRATE_WEATHER_API_KEY in the environment or .env, or set pirate_weather_api_key in config.toml";

pub const NO_CURRENT_CONDITIONS: &'static str = "weather API response missing current conditions";

pub const FORECAST_BASE: &'static str = "https://api.pirateweather.net/forecast/";

pub const FORECAST_QUERY: &'static str = "?units=us&exclude=minutely,hourly,daily,alerts";

/// The URL of a forecast.
pub open spec fn forecast_address(key: Seq<char>, latitude: Seq<char>, longitude: Seq<char>) -> Seq<
    char,
> {
    FORECAST_BASE@ + key + "/"@ + (latitude + ","@ + longitude + FORECAST_QUERY@)
}

/// The data that tells where the device is. Nothing is looked at where no API key is set.
pub fn location_data<'a>(
    api_key: &Option<String>,
    location: &'a Option<EncryptedData>,
) -> (r: Result<&'a Vec<u8>, Status>)
    ensures
        match (*api_key, *location) {
            (None, _) => r is Err && envelope::is_status(
                r->Err_0,
                Code::Unavailable,
                NOT_CONFIGURED@,
            ),
            (Some(_), None) => r is Err && envelope::is_status(
                r->Err_0,
                Code::InvalidArgument,
                envelope::MISSING_ENVELOPE@,
            ),
            (Some(_), Some(e)) => r is Ok && *r->Ok_0 == e.data,
        },
{
    match api_key {
        Some(_) => unwrap_plaintext_data(location),
        None => Err(status(Code::Unavailable, NOT_CONFIGURED)),
    }
}

/// The URL that is asked for the weather, given the API key, if there is one, and the
/// coordinates that were decoded.
pub fn forecast_url(api_key: &Option<String>, location: Result<Coordinates, String>) -> (r: Result<
    String,
    Status,
>)
    ensures
        match (*api_key, location) {
            (None, _) => r is Err && envelope::is_status(
                r->Err_0,
                Code::Unavailable,
                NOT_CONFIGURED@,
            ),
            (Some(_), Err(e)) => r is Err && envelope::is_status(
                r->Err_0,
                Code::InvalidArgument,
                envelope::bad_message(LOCATION_ENVELOPE@, e@),
            ),
            (Some(key), Ok(place)) => r is Ok && r->Ok_0@ == forecast_address(
                key@,
                place.latitude@,
                place.longitude@,
            ),
        },
{
    match api_key {
        Some(key) => match decoded(LOCATION_ENVELOPE, location) {
            Ok(place) => {
                let at = text4(&place.latitude, ",", &place.longitude, FORECAST_QUERY);
                Ok(text4(FORECAST_BASE, key, "/", &at))
            },
            Err(e) => Err(e),
        },
        None => Err(status(Code::Unavailable, NOT_CONFIGURED)),
    }
}

/// The code of the device's icon for a kind of weather.
pub open spec fn icon_code(icon: Seq<char>) -> i32 {
    if icon == "clear-day"@ {
        1
    } else if icon == "clear-night"@ {
        33
    } else if icon == "partly-cloudy-day"@ {
        3
    } else if icon == "partly-cloudy-night"@ {
        35
    } else if icon == "cloudy"@ {
        7
    } else if icon == "rain"@ {
        12
    } else if icon == "snow"@ {
        19
    } else if icon == "sleet"@ {
        24
    } else if icon == "wind"@ {
        32
    } else if icon == "fog"@ {
        11
    } else if icon == "thunderstorm"@ {
        15
    } else {
        3
    }
}

/// The code of the device's icon for a kind of weather.
pub fn pirate_weather_icon_to_device(icon: &str) -> (r: i32)
    ensures
        r == icon_code(icon@),
{
    if same_text(icon, "clear-day") {
        1
    } else if same_text(icon, "clear-night") {
        33
    } else if same_text(icon, "partly-cloudy-day") {
        3
    } else if same_text(icon, "partly-cloudy-night") {
        35
    } else if same_text(icon, "cloudy") {
        7
    } else if same_text(icon, "rain") {
        12
    } else if same_text(icon, "snow") {
        19
    } else if same_text(icon, "sleet") {
        24
    } else if same_text(icon, "wind") {
        32
    } else if same_text(icon, "fog") {
        11
    } else if same_text(icon, "thunderstorm") {
        15
    } else {
        3
    }
}

/// The current weather, with its numbers as they are in the reply.
#[derive(Debug, PartialEq, Eq)]
pub struct Conditions {
    /// In degrees Fahrenheit.
    pub temperature: Option<JsonNumber>,
    pub uv_index: Option<JsonNumber>,
    pub precipitation_intensity: Option<JsonNumber>,
    pub precipitation_type: String,
    pub weather_text: String,
    pub weather_icon: i32,
}

/// A number under a key.
pub open spec fn number_member(v: json::JsonView, key: Seq<char>) -> Option<json::NumberView> {
    match json::member(v, key) {
        Some(json::JsonView::Number(n)) => Some(n),
        _ => None,
    }
}

/// A string under a key, or nothing.
pub open spec fn string_or_empty(v: json::JsonView, key: Seq<char>) -> Seq<char> {
    match json::string_member(v, key) {
        Some(t) => t,
        None => Seq::empty(),
    }
}

pub open spec fn opt_number(o: Option<JsonNumber>) -> Option<json::NumberView> {
    match o {
        Some(n) => Some(n@),
        None => None,
    }
}

/// Whether some conditions are those of a reply's block.
pub open spec fn are_conditions(c: Conditions, block: json::JsonView) -> bool {
    &&& opt_number(c.temperature) == number_member(block, "temperature"@)
    &&& opt_number(c.uv_index) == number_member(block, "uvIndex"@)
    &&& opt_number(c.precipitation_intensity) == number_member(block, "precipIntensity"@)
    &&& c.precipitation_type@ == string_or_empty(block, "precipType"@)
    &&& c.weather_text@ == string_or_empty(block, "summary"@)
    &&& c.weather_icon == icon_code(
        match json::string_member(block, "icon"@) {
            Some(icon) => icon,
            None => "partly-cloudy-day"@,
        },
    )
}

fn number_under(v: &Json, key: &str) -> (r: Option<JsonNumber>)
    ensures
        opt_number(r) == number_member(v@, key@),
{
    match v.get(key) {
        Some(Json::Number(n)) => match n {
            JsonNumber::Unsigned(u) => Some(JsonNumber::Unsigned(*u)),
            JsonNumber::Negative(i) => Some(JsonNumber::Negative(*i)),
            JsonNumber::Other(t) => Some(JsonNumber::Other(t.clone())),
        },
        _ => None,
    }
}

fn string_under(v: &Json, key: &str) -> (r: String)
    ensures
        r@ == string_or_empty(v@, key@),
{
    match v.get_str(key) {
        Some(t) => String::from_str(t),
        None => String::new(),
    }
}

/// The current weather, from a reply.
pub fn current_conditions(reply: &Json) -> (r: Result<Conditions, Status>)
    ensures
        match json::member(reply@, "currently"@) {
            Some(block) => r is Ok && are_conditions(r->Ok_0, block),
            None => r is Err && envelope::is_status(
                r->Err_0,
                Code::Internal,
                NO_CURRENT_CONDITIONS@,
            ),
        },
{
    match reply.get("currently") {
        Some(block) => {
            let icon = match block.get_str("icon") {
                Some(icon) => icon,
                None => "partly-cloudy-day",
            };
            Ok(
                Conditions {
                    temperature: number_under(block, "temperature"),
                    uv_index: number_under(block, "uvIndex"),
                    precipitation_intensity: number_under(block, "precipIntensity"),
                    precipitation_type: string_under(block, "precipType"),
                    weather_text: string_under(block, "summary"),
                    weather_icon: pirate_weather_icon_to_device(icon),
                },
            )
        },
        None => Err(status(Code::Internal, NO_CURRENT_CONDITIONS)),
    }
}

/// The name of the service in what is said of its failures.
pub const WEATHER_API: &'static str = "weather API";

/// The current weather, from what came of asking for it.
pub fn fetched_conditions(fetched: Fetched) -> (r: Result<Conditions, Status>)
    ensures
        match fetched {
            Fetched::NotSent(e) => r is Err && envelope::is_status(
                r->Err_0,
                Code::Unavailable,
                WEATHER_API@ + fetch::REQUEST_FAILED@ + e@,
            ),
            Fetched::NotParsed(e) => r is Err && envelope::is_status(
                r->Err_0,
                Code::Internal,
                WEATHER_API@ + fetch::PARSE_FAILED@ + e@,
            ),
            Fetched::Reply(reply) => match json::member(reply@, "currently"@) {
                Some(block) => r is Ok && are_conditions(r->Ok_0, block),
                None => r is Err && envelope::is_status(
                    r->Err_0,
                    Code::Internal,
                    NO_CURRENT_CONDITIONS@,
                ),
            },
        },
{
    match reply_of(WEATHER_API, fetched) {
        Ok(reply) => current_conditions(&reply),
        Err(e) => Err(e),
    }
}

/// The envelope of an encoded report of the weather.
pub fn encrypted_weather(response: Vec<u8>) -> (r: EncryptedData)
    ensures
        envelope::is_envelope(r, WEATHER_RESPONSE@, response@),
{
    EncryptedData::new(WEATHER_RESPONSE, response)
}

// ---- Laws ----

/// The forecast is asked for with the key and the place, the latitude first.
pub proof fn law_forecast_is_for_the_place(
    key: Seq<char>,
    latitude: Seq<char>,
    longitude: Seq<char>,
)
    ensures
        forecast_address(key, latitude, longitude) == "https://api.pirateweather.net/forecast/"@ + key
            + "/"@ + latitude + ","@ + longitude
            + "?units=us&exclude=minutely,hourly,daily,alerts"@,
{
    assert(forecast_address(key, latitude, longitude) =~= "https://api.pirateweather.net/forecast/"@
        + key + "/"@ + latitude + ","@ + longitude
        + "?units=us&exclude=minutely,hourly,daily,alerts"@);
}

/// Each icon has a code of its own, that of a night being 32 above that of the day; an icon that is
/// not known counts as partly cloudy.
pub proof fn law_icons_have_codes(icon: Seq<char>)
    ensures
        icon == "clear-day"@ ==> icon_code(icon) == 1,
        icon_code("clear-night"@) == icon_code("clear-day"@) + 32,
        icon_code("partly-cloudy-night"@) == icon_code("partly-cloudy-day"@) + 32,
        icon == "partly-cloudy-day"@ ==> icon_code(icon) == 3,
        icon == "cloudy"@ ==> icon_code(icon) == 7,
        icon == "rain"@ ==> icon_code(icon) == 12,
        icon == "snow"@ ==> icon_code(icon) == 19,
        icon == "sleet"@ ==> icon_code(icon) == 24,
        icon == "wind"@ ==> icon_code(icon) == 32,
        icon == "fog"@ ==> icon_code(icon) == 11,
        icon == "thunderstorm"@ ==> icon_code(icon) == 15,
        icon != "clear-day"@ && icon != "clear-night"@ && icon != "partly-cloudy-night"@ && icon
            != "cloudy"@ && icon != "rain"@ && icon != "snow"@ && icon != "sleet"@ && icon != "wind"@
            && icon != "fog"@ && icon != "thunderstorm"@ ==> icon_code(icon) == icon_code(
            "partly-cloudy-day"@,
        ),
{
    reveal_strlit("clear-day");
    reveal_strlit("clear-night");
    reveal_strlit("partly-cloudy-day");
    reveal_strlit("partly-cloudy-night");
    reveal_strlit("cloudy");
    reveal_strlit("rain");
    reveal_strlit("snow");
    reveal_strlit("sleet");
    reveal_strlit("wind");
    reveal_strlit("fog");
    reveal_strlit("thunderstorm");
    assert("clear-day"@.len() == 9 && "clear-night"@.len() == 11 && "partly-cloudy-day"@.len() == 17
        && "partly-cloudy-night"@.len() == 19 && "cloudy"@.len() == 6 && "rain"@.len() == 4
        && "snow"@.len() == 4 && "sleet"@.len() == 5 && "wind"@.len() == 4 && "fog"@.len() == 3
        && "thunderstorm"@.len() == 12);
    assert("rain"@[0] == 'r' && "snow"@[0] == 's' && "wind"@[0] == 'w');
}

/// The conditions are told as the reply has them: each number and text under its own name, and
/// none where the reply has none.
pub proof fn law_conditions_are_those_of_the_reply(c: Conditions, block: json::JsonView)
    requires
        are_conditions(c, block),
    ensures
        json::member(block, "temperature"@) matches Some(json::JsonView::Number(n)) ==> (
        c.temperature matches Some(t) && t@ == n),
        json::member(block, "temperature"@) is None ==> c.temperature is None,
        json::member(block, "uvIndex"@) matches Some(json::JsonView::Number(n)) ==> (
        c.uv_index matches Some(t) && t@ == n),
        json::member(block, "uvIndex"@) is None ==> c.uv_index is None,
        json::member(block, "precipIntensity"@) matches Some(json::JsonView::Number(n)) ==> (
        c.precipitation_intensity matches Some(t) && t@ == n),
        json::member(block, "precipIntensity"@) is None ==> c.precipitation_intensity is None,
        json::member(block, "precipType"@) matches Some(json::JsonView::Str(t)) ==> c.precipitation_type@
            == t,
        json::member(block, "precipType"@) is None ==> c.precipitation_type@.len() == 0,
        json::member(block, "summary"@) matches Some(json::JsonView::Str(t)) ==> c.weather_text@ == t,
        json::member(block, "summary"@) is None ==> c.weather_text@.len() == 0,
        json::member(block, "icon"@) matches Some(json::JsonView::Str(t)) ==> c.weather_icon
            == icon_code(t),
        json::member(block, "icon"@) is None ==> c.weather_icon == 3,
{
    law_icons_have_codes("partly-cloudy-day"@);
}

/// Without a key there is no weather, whatever else is sent; with one the place must be readable.
pub proof fn law_weather_needs_a_key_and_a_place(
    key: Option<String>,
    location: Option<EncryptedData>,
    place: Result<Coordinates, String>,
    data: Result<&Vec<u8>, Status>,
    url: Result<String, Status>,
)
    requires
        call_ensures(location_data, (&key, &location), data),
        call_ensures(forecast_url, (&key, place), url),
    ensures
        key is None ==> data is Err && data->Err_0.code == Code::Unavailable && url is Err
            && url->Err_0.code == Code::Unavailable,
        data is Ok <==> key is Some && location is Some,
        data matches Ok(d) ==> *d == location->0.data,
        url is Ok <==> key is Some && place is Ok,
        url matches Ok(u) ==> u@ == "https://api.pirateweather.net/forecast/"@ + key->0@ + "/"@
            + place->Ok_0.latitude@ + ","@ + place->Ok_0.longitude@
            + "?units=us&exclude=minutely,hourly,daily,alerts"@,
        key is Some && location is None ==> data->Err_0.code == Code::InvalidArgument,
        key is Some && place is Err ==> url->Err_0.code == Code::InvalidArgument,
{
    if key is Some && place is Ok {
        law_forecast_is_for_the_place(key->0@, place->Ok_0.latitude@, place->Ok_0.longitude@);
    }
}

/// The conditions are those that the reply calls current; a reply without them is a failure of the
/// server, and so is one that is no JSON, while no reply at all is one of the service.
pub proof fn law_current_conditions_are_told(
    reply: Json,
    e: String,
    r: Result<Conditions, Status>,
    fetched: Result<Conditions, Status>,
    unsent: Result<Conditions, Status>,
    unread: Result<Conditions, Status>,
)
    requires
        call_ensures(current_conditions, (&reply,), r),
        call_ensures(fetched_conditions, (Fetched::Reply(reply),), fetched),
        call_ensures(fetched_conditions, (Fetched::NotSent(e),), unsent),
        call_ensures(fetched_conditions, (Fetched::NotParsed(e),), unread),
    ensures
        r is Ok <==> json::member(reply@, "currently"@) is Some,
        fetched is Ok <==> json::member(reply@, "currently"@) is Some,
        json::member(reply@, "currently"@) matches Some(block) ==> are_conditions(r->Ok_0, block)
            && are_conditions(fetched->Ok_0, block),
        r is Err ==> r->Err_0.code == Code::Internal && fetched->Err_0.code == Code::Internal,
        unsent matches Err(s) && s.code == Code::Unavailable && s.message@
            == "weather API request failed: "@ + e@,
        unread matches Err(s) && s.code == Code::Internal && s.message@
            == "weather API response parse failed: "@ + e@,
{
    reveal_strlit("weather API");
    reveal_strlit(" request failed: ");
    reveal_strlit(" response parse failed: ");
    reveal_strlit("weather API request failed: ");
    reveal_strlit("weather API response parse failed: ");
    assert("weather API"@ + " request failed: "@ + e@ =~= "weather API request failed: "@ + e@);
    assert("weather API"@ + " response parse failed: "@ + e@
        =~= "weather API response parse failed: "@ + e@);
}

} // verus!
