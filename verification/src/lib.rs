//! Command-line client library for the Cantrip daemon: the request
//! envelope that each command sends, the rules that pick the daemon URL and
//! the API key, the reading of the daemon's replies, and the text renderings
//! of JSON replies.

pub mod cli;
pub mod credentials;
pub mod flags;
pub mod json;
pub mod laws;
pub mod meter;
pub mod output;
pub mod reply;
pub mod request;
pub mod text;

pub use cli::{
    ApikeyAction, Cli, Command, EntityAction, MeterAction, NextMode, OutputFormat, ProjectAction,
    ReviewAction, UserAction,
};
pub use credentials::Credentials;
pub use flags::Flags;
pub use json::Json;
pub use request::{build_entity_request, build_request};
