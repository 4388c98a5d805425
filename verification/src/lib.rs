//! Devin CLI support for Luvus.
//!
//! Devin reads hook definitions from the `hooks` key of its user configuration.
//! The library adds a hook on session start that runs a script of Luvus, takes it
//! out again, and decides what the hook reports when Devin runs it. It asks its
//! caller to read and write files, and decides on what came of that.
pub mod agent;
pub mod agent_laws;
pub mod base64;
pub mod command;
pub mod command_laws;
pub mod config;
pub mod config_laws;
pub mod encoding_laws;
pub mod error;
pub mod groups;
pub mod hook;
pub mod hook_laws;
pub mod install;
pub mod install_laws;
pub mod json;
pub mod json_laws;
pub mod lists;
pub mod parse;
pub mod platform;
pub mod registration_laws;
pub mod text;
pub mod text_laws;
pub mod utf16;
pub mod view_laws;
