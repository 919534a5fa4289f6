//! Locating the device by its surroundings: not offered.

use crate::services::aibus::envelope;
use crate::services::aibus::envelope::EncryptedData;
use vstd::prelude::*;
use vstd::string::*;

verus! {

pub const GEO_LOCATE_RESPONSE: &'static str = "humane.aibus.GeoLocateResponse";

#[derive(Debug, Clone, Copy, PartialEq, Eq, Default)]
pub struct GeoLocateHandler;

impl GeoLocateHandler {
    /// The envelope of the answer that no location was found.
    pub fn encrypted_geo_locate(&self, not_found: Vec<u8>) -> (r: EncryptedData)
        ensures
            envelope::is_envelope(r, GEO_LOCATE_RESPONSE@, not_found@),
    {
        EncryptedData::new(GEO_LOCATE_RESPONSE, not_found)
    }
}

} // verus!
