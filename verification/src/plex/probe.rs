//! How a server is reached.
use vstd::prelude::*;

verus! {

/// The tier of a connection to a server.
#[derive(Clone, Copy, Debug, PartialEq, Eq, Structural)]
pub enum Location {
    /// On the same network.
    Local,
    /// Over the internet, straight to the server.
    Remote,
    /// Through a relay host, which caps the rate.
    Relay,
}

} // verus!
