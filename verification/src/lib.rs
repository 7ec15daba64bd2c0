//! Authoritative server core for a small multiplayer first-person-shooter:
//! player registry, connection lifecycle, client-state ingestion with a
//! respawn-grace window, hit-scan combat resolution, and full-state
//! broadcast, together with the wire codec for every message.
//!
//! World geometry is held in fixed-point coordinates (100 units per world
//! unit) so that the hit-scan test is exact integer arithmetic.
use vstd::prelude::*;

pub mod geom;
pub mod player;
pub mod registry;
pub mod messages;
pub mod codec;
pub mod lifecycle;
pub mod ingestion;
pub mod combat;
pub mod resources;
pub mod broadcast;
pub mod laws;
pub mod tick;

verus! {

/// The display name chosen by the local player.
pub struct MyUsername(pub String);

impl MyUsername {
    /// Wraps a chosen display name.
    pub fn new(username: String) -> (r: Self)
        ensures
            r.0 == username,
    {
        Self(username)
    }
}

/// Whether this endpoint has received its first lobby synchronization.
pub struct IsSynced(pub bool);

} // verus!
