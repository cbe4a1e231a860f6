//! The client's side of the media server's protocol.
pub mod client;
pub mod laws;
pub mod params;
pub mod probe;
pub mod profile_laws;
pub mod query;
pub mod transcoder;
pub mod wire_laws;
