//! Freally Player: the verified core of a local-first media player.
pub mod text;
pub mod host;
pub mod percent;
pub mod charset;
pub mod subtitles;
pub mod opensubtitles;
pub mod store;
pub mod settings;
pub mod paths;
pub mod eula;
pub mod commands;
pub mod bugreport;
pub mod launch;
pub mod player;
pub mod surface;
