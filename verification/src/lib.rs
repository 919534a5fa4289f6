pub mod api;
pub mod chars;
pub mod clock;
pub mod codec;
pub mod config;
pub mod external;
pub mod json;
pub mod llm;
pub mod moment;
pub mod music;
pub mod number;
pub mod services;
pub mod synapse;
pub mod util;
pub mod weburl;
