//! The language model's side: requests, replies and their log.

pub mod providers;
pub mod request;
pub mod request_log;
pub mod rig_backend;
pub mod tools;

use vstd::prelude::*;
use vstd::string::*;

verus! {

/// Result of an LLM user Understand request.
#[derive(Debug, Clone, PartialEq, Eq)]
pub enum ChatResult {
    Text(String),
    /// The `understand_scene` tool was invoked; the server awaits a follow up request
    /// with a new camera image.
    DeferredVision,
    /// The `play_music` tool was invoked, with these arguments as JSON.
    PlayMusic(String),
    /// The `control_music` tool was invoked. Carries the device's transport action.
    MusicControl(String),
}

} // verus!
