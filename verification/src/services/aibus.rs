//! The AI bus: what the device asks of the assistant.

pub mod completion;
pub mod envelope;
pub mod fetch;
pub mod geolocate;
pub mod reverse_geocode;
pub mod stubs;
pub mod understand;
pub mod vision;
pub mod weather;
