//! The state and the rules of a terminal music player.

pub mod app;
pub mod clock;
pub mod digest;
pub mod key_laws;
pub mod keys;
pub mod laws;
pub mod path;
pub mod playback;
pub mod playback_laws;
pub mod playlist_laws;
pub mod playlists;
pub mod remote;
pub mod scan;
pub mod screen;
pub mod search;
pub mod song;
pub mod sort;
pub mod tags;
pub mod text;
