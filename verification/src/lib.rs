//! Playback decisions for a television client of a Plex media server.

pub mod abr;
pub mod arith;
pub mod devcaps;
pub mod plex;
pub mod text;
pub mod text_laws;
