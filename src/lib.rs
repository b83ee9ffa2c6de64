//! Core of a streaming-service client: content identifiers and their text
//! forms, the session key agreement, the cache record format and layout,
//! the playback control decisions, and the settings and rules that
//! front-ends build on.

pub mod cache;
pub mod config;
pub mod connection;
pub mod item_id;
pub mod keybinds;
pub mod mock_spotify;
pub mod player;
pub mod presets;
pub mod radix;
pub mod record;
pub mod theme;
pub mod update_checker;
mod text;
