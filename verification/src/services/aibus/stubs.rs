//! Calls that are answered without doing anything.

use crate::services::aibus::envelope;
use crate::services::aibus::envelope::EncryptedData;
use vstd::prelude::*;
use vstd::string::*;

verus! {

pub const LOADING_MESSAGE_RESPONSE: &'static str = "humane.aibus.LoadingMessageResponse";

pub const NAVIGATION_DIRECTIONS_RESPONSE: &'static str =
    "humane.aibus.NavigationDirectionsResponse";

pub const SMART_PLAYLIST_RESPONSE: &'static str = "humane.aibus.SmartPlaylistResponse";

pub const FUNCTION_RESPONSE: &'static str = "humane.aibus.FunctionResponse";

pub const ANALYZE_FOOD_IMAGE_RESPONSE: &'static str = "humane.aibus.AnalyzeFoodImageResponse";

pub const GET_FOOD_ITEM_RESPONSE: &'static str = "humane.aibus.GetFoodItemResponse";

pub const ACTION_BASED_INTERSTITIAL_RESPONSE: &'static str =
    "humane.aibus.ActionBasedInterstitialResponse";

pub const TRANSLATE_RESPONSE: &'static str = "humane.aibus.TranslateResponse";

#[derive(Debug, Clone, Copy, PartialEq, Eq, Default)]
pub struct StubHandler;

impl StubHandler {
    pub fn encrypted_loading_message(&self) -> (r: EncryptedData)
        ensures
            envelope::is_envelope(r, LOADING_MESSAGE_RESPONSE@, Seq::empty()),
    {
        EncryptedData::stub(LOADING_MESSAGE_RESPONSE)
    }

    /// The envelope of directions that lead nowhere.
    pub fn encrypted_navigation_directions(&self, empty: Vec<u8>) -> (r: EncryptedData)
        ensures
            envelope::is_envelope(r, NAVIGATION_DIRECTIONS_RESPONSE@, empty@),
    {
        EncryptedData::new(NAVIGATION_DIRECTIONS_RESPONSE, empty)
    }

    pub fn encrypted_smart_playlist(&self) -> (r: EncryptedData)
        ensures
            envelope::is_envelope(r, SMART_PLAYLIST_RESPONSE@, Seq::empty()),
    {
        EncryptedData::stub(SMART_PLAYLIST_RESPONSE)
    }

    /// The envelope of a function's answer that says nothing.
    pub fn encrypted_function_execution(&self, empty: Vec<u8>) -> (r: EncryptedData)
        ensures
            envelope::is_envelope(r, FUNCTION_RESPONSE@, empty@),
    {
        EncryptedData::new(FUNCTION_RESPONSE, empty)
    }

    pub fn encrypted_analyze_food_image(&self) -> (r: EncryptedData)
        ensures
            envelope::is_envelope(r, ANALYZE_FOOD_IMAGE_RESPONSE@, Seq::empty()),
    {
        EncryptedData::stub(ANALYZE_FOOD_IMAGE_RESPONSE)
    }

    pub fn encrypted_get_food_item(&self) -> (r: EncryptedData)
        ensures
            envelope::is_envelope(r, GET_FOOD_ITEM_RESPONSE@, Seq::empty()),
    {
        EncryptedData::stub(GET_FOOD_ITEM_RESPONSE)
    }

    pub fn encrypted_action_based_interstitial(&self) -> (r: EncryptedData)
        ensures
            envelope::is_envelope(r, ACTION_BASED_INTERSTITIAL_RESPONSE@, Seq::empty()),
    {
        EncryptedData::stub(ACTION_BASED_INTERSTITIAL_RESPONSE)
    }

    pub fn translate(&self) -> (r: EncryptedData)
        ensures
            envelope::is_envelope(r, TRANSLATE_RESPONSE@, Seq::empty()),
    {
        EncryptedData::stub(TRANSLATE_RESPONSE)
    }
}

/// Every answer is of the type that was asked for, and those that have nothing to tell are empty.
pub proof fn law_answers_are_of_their_types(
    h: StubHandler,
    loading: EncryptedData,
    playlist: EncryptedData,
    food: EncryptedData,
    item: EncryptedData,
    interstitial: EncryptedData,
    translated: EncryptedData,
)
    requires
        call_ensures(StubHandler::encrypted_loading_message, (&h,), loading),
        call_ensures(StubHandler::encrypted_smart_playlist, (&h,), playlist),
        call_ensures(StubHandler::encrypted_analyze_food_image, (&h,), food),
        call_ensures(StubHandler::encrypted_get_food_item, (&h,), item),
        call_ensures(StubHandler::encrypted_action_based_interstitial, (&h,), interstitial),
        call_ensures(StubHandler::translate, (&h,), translated),
    ensures
        envelope::is_envelope(loading, "humane.aibus.LoadingMessageResponse"@, Seq::empty()),
        envelope::is_envelope(playlist, "humane.aibus.SmartPlaylistResponse"@, Seq::empty()),
        envelope::is_envelope(food, "humane.aibus.AnalyzeFoodImageResponse"@, Seq::empty()),
        envelope::is_envelope(item, "humane.aibus.GetFoodItemResponse"@, Seq::empty()),
        envelope::is_envelope(
            interstitial,
            "humane.aibus.ActionBasedInterstitialResponse"@,
            Seq::empty(),
        ),
        envelope::is_envelope(translated, "humane.aibus.TranslateResponse"@, Seq::empty()),
{
}

/// Directions and functions are answered with the message that they are given.
pub proof fn law_messages_are_handed_on(
    h: StubHandler,
    bytes: Vec<u8>,
    directions: EncryptedData,
    function: EncryptedData,
)
    requires
        call_ensures(StubHandler::encrypted_navigation_directions, (&h, bytes), directions),
        call_ensures(StubHandler::encrypted_function_execution, (&h, bytes), function),
    ensures
        envelope::is_envelope(directions, "humane.aibus.NavigationDirectionsResponse"@, bytes@),
        envelope::is_envelope(function, "humane.aibus.FunctionResponse"@, bytes@),
{
}

} // verus!
