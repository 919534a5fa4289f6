//! Addresses of places.

use crate::external::text4;
use crate::json;
use crate::json::Json;
use crate::services::aibus::envelope;
use crate::services::aibus::envelope::{
    decoded, Code, Coordinates, EncryptedData, Status, LOCATION_ENVELOPE,
};
use crate::services::aibus::fetch;
use crate::services::aibus::fetch::{reply_of, Fetched};
use vstd::prelude::*;
use vstd::string::*;

verus! {

pub const NOMINATIM_USER_AGENT: &'static str = "PenumbraOS/0.1";

pub const REVERSE_GEOCODE_RESPONSE: &'static str = "humane.aibus.ReverseGeocodeResponse";

pub const NOMINATIM_URL: &'static str =
    "https://nominatim.openstreetmap.org/reverse?format=jsonv2&lat=";

/// The URL that is asked for the address of a place, given the coordinates that were decoded.
pub fn reverse_url(location: Result<Coordinates, String>) -> (r: Result<String, Status>)
    ensures
        match location {
            Ok(place) => r is Ok && r->Ok_0@ == NOMINATIM_URL@ + place.latitude@ + "&lon="@
                + place.longitude@,
            Err(e) => r is Err && envelope::is_status(
                r->Err_0,
                Code::InvalidArgument,
                envelope::bad_message(LOCATION_ENVELOPE@, e@),
            ),
        },
{
    match decoded(LOCATION_ENVELOPE, location) {
        Ok(place) => Ok(text4(NOMINATIM_URL, &place.latitude, "&lon=", &place.longitude)),
        Err(e) => Err(e),
    }
}

#[derive(Debug, PartialEq, Eq)]
pub struct ReverseGeocodeResponse {
    pub street_number: String,
    pub street_name: String,
    pub municipality: String,
    pub country_subdivision: String,
    pub country: String,
    pub postal_code: String,
}

/// The first string under one of some keys, or nothing.
pub open spec fn first_under(address: json::JsonView, keys: Seq<Seq<char>>) -> Seq<char>
    decreases keys.len(),
{
    if keys.len() == 0 {
        Seq::empty()
    } else {
        match json::string_member(address, keys[0]) {
            Some(t) => t,
            None => first_under(address, keys.drop_first()),
        }
    }
}

/// The address in a reply.
pub open spec fn address_of(reply: json::JsonView) -> json::JsonView {
    match json::member(reply, "address"@) {
        Some(a) => a,
        None => json::JsonView::Null,
    }
}

/// The first string under one of some keys of an address that may be absent.
fn address_field(address: Option<&Json>, keys: &Vec<&str>) -> (r: String)
    ensures
        r@ == first_under(
            match address {
                Some(a) => a@,
                None => json::JsonView::Null,
            },
            json::str_views(keys@),
        ),
{
    let ghost given = match address {
        Some(a) => a@,
        None => json::JsonView::Null,
    };
    let ghost all = json::str_views(keys@);
    let mut i: usize = 0;
    assert(all.skip(0) =~= all);
    while i < keys.len()
        invariant
            i <= keys@.len(),
            all == json::str_views(keys@),
            given == match address {
                Some(a) => a@,
                None => json::JsonView::Null,
            },
            first_under(given, all) == first_under(given, all.skip(i as int)),
        decreases keys@.len() - i,
    {
        proof {
            assert(all.skip(i as int)[0] == keys@[i as int]@);
            assert(all.skip(i as int).drop_first() =~= all.skip(i + 1));
        }
        if let Some(a) = address {
            if let Some(t) = a.get_str(keys[i]) {
                return String::from_str(t);
            }
        }
        i += 1;
    }
    String::new()
}

fn keys1<'a>(a: &'a str) -> (r: Vec<&'a str>)
    ensures
        json::str_views(r@) == seq![a@],
{
    let mut v: Vec<&'a str> = Vec::new();
    v.push(a);
    assert(json::str_views(v@) =~= seq![a@]);
    v
}

/// Whether a response is the address in a reply.
pub open spec fn is_address(r: ReverseGeocodeResponse, reply: json::JsonView) -> bool {
    let a = address_of(reply);
    &&& r.street_number@ == first_under(a, seq!["house_number"@])
    &&& r.street_name@ == first_under(a, seq!["road"@, "pedestrian"@, "footway"@, "path"@])
    &&& r.municipality@ == first_under(
        a,
        seq!["city"@, "town"@, "village"@, "hamlet"@, "municipality"@],
    )
    &&& r.country_subdivision@ == first_under(a, seq!["state"@, "region"@, "county"@])
    &&& r.country@ == first_under(a, seq!["country"@])
    &&& r.postal_code@ == first_under(a, seq!["postcode"@])
}

/// The address of a place, from a reply.
pub fn reverse_reply(reply: &Json) -> (r: ReverseGeocodeResponse)
    ensures
        is_address(r, reply@),
{
    let address = reply.get("address");
    let mut streets: Vec<&str> = Vec::new();
    streets.push("road");
    streets.push("pedestrian");
    streets.push("footway");
    streets.push("path");
    assert(json::str_views(streets@) =~= seq!["road"@, "pedestrian"@, "footway"@, "path"@]);
    let mut places: Vec<&str> = Vec::new();
    places.push("city");
    places.push("town");
    places.push("village");
    places.push("hamlet");
    places.push("municipality");
    assert(json::str_views(places@) =~= seq![
        "city"@,
        "town"@,
        "village"@,
        "hamlet"@,
        "municipality"@,
    ]);
    let mut regions: Vec<&str> = Vec::new();
    regions.push("state");
    regions.push("region");
    regions.push("county");
    assert(json::str_views(regions@) =~= seq!["state"@, "region"@, "county"@]);
    ReverseGeocodeResponse {
        street_number: address_field(address, &keys1("house_number")),
        street_name: address_field(address, &streets),
        municipality: address_field(address, &places),
        country_subdivision: address_field(address, &regions),
        country: address_field(address, &keys1("country")),
        postal_code: address_field(address, &keys1("postcode")),
    }
}

/// The name of the service in what is said of its failures.
pub const REVERSE_GEOCODE: &'static str = "reverse geocode";

/// The address of a place, from what came of asking for it.
pub fn fetched_address(fetched: Fetched) -> (r: Result<ReverseGeocodeResponse, Status>)
    ensures
        match fetched {
            Fetched::NotSent(e) => r is Err && envelope::is_status(
                r->Err_0,
                Code::Unavailable,
                REVERSE_GEOCODE@ + fetch::REQUEST_FAILED@ + e@,
            ),
            Fetched::NotParsed(e) => r is Err && envelope::is_status(
                r->Err_0,
                Code::Internal,
                REVERSE_GEOCODE@ + fetch::PARSE_FAILED@ + e@,
            ),
            Fetched::Reply(reply) => r is Ok && is_address(r->Ok_0, reply@),
        },
{
    match reply_of(REVERSE_GEOCODE, fetched) {
        Ok(reply) => Ok(reverse_reply(&reply)),
        Err(e) => Err(e),
    }
}

/// The envelope of an encoded place.
pub fn encrypted_reverse_geocode(response: Vec<u8>) -> (r: EncryptedData)
    ensures
        envelope::is_envelope(r, REVERSE_GEOCODE_RESPONSE@, response@),
{
    EncryptedData::new(REVERSE_GEOCODE_RESPONSE, response)
}

// ---- Laws ----

/// Whether an address names something under a key.
pub open spec fn names(address: json::JsonView, key: Seq<char>) -> bool {
    json::string_member(address, key) is Some
}

proof fn lemma_first_under(address: json::JsonView, keys: Seq<Seq<char>>)
    ensures
        keys.len() == 0 ==> first_under(address, keys).len() == 0,
        keys.len() > 0 && names(address, keys[0]) ==> first_under(address, keys)
            == json::string_member(address, keys[0])->0,
        keys.len() > 0 && !names(address, keys[0]) ==> first_under(address, keys) == first_under(
            address,
            keys.drop_first(),
        ),
{
}

/// The subdivision is the state that an address names, whatever else it names; a region is taken
/// only without a state, and a county only without either.
pub proof fn law_state_goes_before(
    r: ReverseGeocodeResponse,
    reply: json::JsonView,
    a: json::JsonView,
)
    requires
        is_address(r, reply),
        json::member(reply, "address"@) == Some(a),
    ensures
        json::string_member(a, "state"@) matches Some(t) ==> r.country_subdivision@ == t,
        !names(a, "state"@) ==> (json::string_member(a, "region"@) matches Some(t)
            ==> r.country_subdivision@ == t),
        !names(a, "state"@) && !names(a, "region"@) ==> (json::string_member(a, "county"@) matches Some(
            t,
        ) ==> r.country_subdivision@ == t),
        !names(a, "state"@) && !names(a, "region"@) && !names(a, "county"@)
            ==> r.country_subdivision@.len() == 0,
{
    let keys = seq!["state"@, "region"@, "county"@];
    lemma_first_under(a, keys);
    assert(keys.drop_first() =~= seq!["region"@, "county"@]);
    lemma_first_under(a, seq!["region"@, "county"@]);
    assert(seq!["region"@, "county"@].drop_first() =~= seq!["county"@]);
    lemma_first_under(a, seq!["county"@]);
    assert(seq!["county"@].drop_first() =~= Seq::<Seq<char>>::empty());
}

/// The municipality is the city that an address names, and without one the town, then the
/// village, then the hamlet, and then what is called the municipality.
pub proof fn law_city_goes_before(
    r: ReverseGeocodeResponse,
    reply: json::JsonView,
    a: json::JsonView,
)
    requires
        is_address(r, reply),
        json::member(reply, "address"@) == Some(a),
    ensures
        json::string_member(a, "city"@) matches Some(t) ==> r.municipality@ == t,
        !names(a, "city"@) ==> (json::string_member(a, "town"@) matches Some(t) ==> r.municipality@
            == t),
        !names(a, "city"@) && !names(a, "town"@) ==> (json::string_member(a, "village"@) matches Some(
            t,
        ) ==> r.municipality@ == t),
        !names(a, "city"@) && !names(a, "town"@) && !names(a, "village"@) ==> (json::string_member(
            a,
            "hamlet"@,
        ) matches Some(t) ==> r.municipality@ == t),
        !names(a, "city"@) && !names(a, "town"@) && !names(a, "village"@) && !names(a, "hamlet"@) ==> (
        json::string_member(a, "municipality"@) matches Some(t) ==> r.municipality@ == t),
        !names(a, "city"@) && !names(a, "town"@) && !names(a, "village"@) && !names(a, "hamlet"@)
            && !names(a, "municipality"@) ==> r.municipality@.len() == 0,
{
    let k0 = seq!["city"@, "town"@, "village"@, "hamlet"@, "municipality"@];
    let k1 = seq!["town"@, "village"@, "hamlet"@, "municipality"@];
    let k2 = seq!["village"@, "hamlet"@, "municipality"@];
    let k3 = seq!["hamlet"@, "municipality"@];
    let k4 = seq!["municipality"@];
    lemma_first_under(a, k0);
    assert(k0.drop_first() =~= k1);
    lemma_first_under(a, k1);
    assert(k1.drop_first() =~= k2);
    lemma_first_under(a, k2);
    assert(k2.drop_first() =~= k3);
    lemma_first_under(a, k3);
    assert(k3.drop_first() =~= k4);
    lemma_first_under(a, k4);
    assert(k4.drop_first() =~= Seq::<Seq<char>>::empty());
}

/// The street is the road that an address names, and without one a way for pedestrians, then a
/// footway, and then a path.
pub proof fn law_road_goes_before(
    r: ReverseGeocodeResponse,
    reply: json::JsonView,
    a: json::JsonView,
)
    requires
        is_address(r, reply),
        json::member(reply, "address"@) == Some(a),
    ensures
        json::string_member(a, "road"@) matches Some(t) ==> r.street_name@ == t,
        !names(a, "road"@) ==> (json::string_member(a, "pedestrian"@) matches Some(t)
            ==> r.street_name@ == t),
        !names(a, "road"@) && !names(a, "pedestrian"@) ==> (json::string_member(
            a,
            "footway"@,
        ) matches Some(t) ==> r.street_name@ == t),
        !names(a, "road"@) && !names(a, "pedestrian"@) && !names(a, "footway"@) ==> (
        json::string_member(a, "path"@) matches Some(t) ==> r.street_name@ == t),
        !names(a, "road"@) && !names(a, "pedestrian"@) && !names(a, "footway"@) && !names(a, "path"@)
            ==> r.street_name@.len() == 0,
{
    let k0 = seq!["road"@, "pedestrian"@, "footway"@, "path"@];
    let k1 = seq!["pedestrian"@, "footway"@, "path"@];
    let k2 = seq!["footway"@, "path"@];
    let k3 = seq!["path"@];
    lemma_first_under(a, k0);
    assert(k0.drop_first() =~= k1);
    lemma_first_under(a, k1);
    assert(k1.drop_first() =~= k2);
    lemma_first_under(a, k2);
    assert(k2.drop_first() =~= k3);
    lemma_first_under(a, k3);
    assert(k3.drop_first() =~= Seq::<Seq<char>>::empty());
}

/// House number, country and postal code are what an address names as such, or empty.
pub proof fn law_address_is_told_as_named(
    r: ReverseGeocodeResponse,
    reply: json::JsonView,
    a: json::JsonView,
)
    requires
        is_address(r, reply),
        json::member(reply, "address"@) == Some(a),
    ensures
        json::string_member(a, "house_number"@) matches Some(t) ==> r.street_number@ == t,
        !names(a, "house_number"@) ==> r.street_number@.len() == 0,
        json::string_member(a, "country"@) matches Some(t) ==> r.country@ == t,
        !names(a, "country"@) ==> r.country@.len() == 0,
        json::string_member(a, "postcode"@) matches Some(t) ==> r.postal_code@ == t,
        !names(a, "postcode"@) ==> r.postal_code@.len() == 0,
{
    lemma_first_under(a, seq!["house_number"@]);
    lemma_first_under(a, seq!["country"@]);
    lemma_first_under(a, seq!["postcode"@]);
    assert(seq!["house_number"@].drop_first() =~= Seq::<Seq<char>>::empty());
    assert(seq!["country"@].drop_first() =~= Seq::<Seq<char>>::empty());
    assert(seq!["postcode"@].drop_first() =~= Seq::<Seq<char>>::empty());
}

/// A reply without an address tells nothing.
pub proof fn law_no_address_tells_nothing(r: ReverseGeocodeResponse, reply: json::JsonView)
    requires
        is_address(r, reply),
        json::member(reply, "address"@) is None,
    ensures
        r.street_number@.len() == 0,
        r.street_name@.len() == 0,
        r.municipality@.len() == 0,
        r.country_subdivision@.len() == 0,
        r.country@.len() == 0,
        r.postal_code@.len() == 0,
{
    lemma_nothing_under(seq!["house_number"@]);
    lemma_nothing_under(seq!["road"@, "pedestrian"@, "footway"@, "path"@]);
    lemma_nothing_under(seq!["city"@, "town"@, "village"@, "hamlet"@, "municipality"@]);
    lemma_nothing_under(seq!["state"@, "region"@, "county"@]);
    lemma_nothing_under(seq!["country"@]);
    lemma_nothing_under(seq!["postcode"@]);
}

proof fn lemma_nothing_under(keys: Seq<Seq<char>>)
    ensures
        first_under(json::JsonView::Null, keys).len() == 0,
    decreases keys.len(),
{
    if keys.len() > 0 {
        lemma_nothing_under(keys.drop_first());
    }
}

/// The address is asked for by the place, the latitude first; a place that cannot be read is
/// refused.
pub proof fn law_address_is_asked_by_the_place(
    location: Result<Coordinates, String>,
    r: Result<String, Status>,
)
    requires
        call_ensures(reverse_url, (location,), r),
    ensures
        r is Ok <==> location is Ok,
        location matches Ok(p) ==> r->Ok_0@ == NOMINATIM_URL@ + p.latitude@ + "&lon="@ + p.longitude@,
        location matches Err(e) ==> r->Err_0.code == Code::InvalidArgument,
{
}

/// The address is read from the reply; without a reply the service is not available.
pub proof fn law_address_comes_from_the_reply(
    fetched: Fetched,
    r: Result<ReverseGeocodeResponse, Status>,
)
    requires
        call_ensures(fetched_address, (fetched,), r),
    ensures
        r is Ok <==> fetched is Reply,
        fetched matches Fetched::Reply(j) ==> is_address(r->Ok_0, j@),
        fetched is NotSent ==> r->Err_0.code == Code::Unavailable,
        fetched is NotParsed ==> r->Err_0.code == Code::Internal,
{
}

} // verus!
