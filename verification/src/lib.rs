//! Keeps the sprint key held while the forward key is held in Minecraft
//! Bedrock.
//!
//! The library decides and the program around it acts: it reads files, asks
//! Windows, sends keys, and hands what came of it back as plain values.

pub mod args;
pub mod args_laws;
pub mod bytes;
pub mod bytes_laws;
pub mod files;
pub mod files_laws;
pub mod focus;
pub mod focus_laws;
pub mod keyboard;
pub mod keyboard_laws;
pub mod latency;
pub mod latency_laws;
pub mod options;
pub mod options_laws;
pub mod search;
pub mod search_laws;
pub mod sprint;
pub mod sprint_laws;
pub mod text;
pub mod text_laws;
