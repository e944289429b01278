//! Core logic of a terminal music player: the playback queue, navigation and
//! selection state, the demo catalog, themes, durations and cache naming.

pub mod cache;
pub mod config;
pub mod errors;
pub mod playback;
pub mod plugin;
pub mod provider;
pub mod state;
pub mod text;
pub mod theme;
pub mod types;
pub mod ui;
