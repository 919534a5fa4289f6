//! What the server's services decide and answer.

pub mod aibus;
pub mod tidal_shim;
