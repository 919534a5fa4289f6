//! The tools that the model is told of.

pub mod control_music;
pub mod play_music;

use crate::json::Json;
use vstd::prelude::*;

verus! {

/// A tool, as the model is told of it.
#[derive(Debug, PartialEq, Eq)]
pub struct ToolDefinition {
    pub name: String,
    pub description: String,
    /// The JSON schema of the arguments.
    pub parameters: Json,
}

} // verus!
