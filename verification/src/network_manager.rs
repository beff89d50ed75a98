//! Snapshot and event types shared by the network-manager subscriptions.

use vstd::prelude::*;

pub mod wireless_enabled;

verus! {

/// The full observed state of the network subsystem at one instant.
///
/// A snapshot is produced fresh on every listen cycle and fully replaces the
/// previous one in the consumer's eyes; there are no partial updates.
#[derive(Clone, Copy, Debug, PartialEq, Eq, Structural)]
pub struct NetworkManagerState {
    pub wireless_enabled: bool,
}

impl NetworkManagerState {
    /// The fallback snapshot substituted when a re-fetch fails.
    pub open spec fn default_spec() -> NetworkManagerState {
        NetworkManagerState { wireless_enabled: false }
    }
}

impl Default for NetworkManagerState {
    fn default() -> (r: Self)
        ensures
            r == NetworkManagerState::default_spec(),
    {
        NetworkManagerState { wireless_enabled: false }
    }
}

/// A discrete UI update event, tagged by kind, carrying the snapshot that
/// replaces whatever the consumer held before.
#[derive(Clone, Copy, Debug, PartialEq, Eq, Structural)]
pub enum NetworkManagerEvent {
    WiFiEnabled(NetworkManagerState),
}

} // verus!
