//! Peer discovery. There is no lookup service yet: peers exchange their
//! identity strings out of band.
use crate::models::User;
use vstd::prelude::*;

verus! {

/// Settings of a discovery service.
#[derive(Debug, Clone)]
pub struct DiscoveryConfig {
    pub bootstrap_nodes: Vec<String>,
    pub timeout_secs: u64,
}

impl Default for DiscoveryConfig {
    fn default() -> (r: Self)
        ensures
            r.bootstrap_nodes@.len() == 0,
            r.timeout_secs == 10,
    {
        DiscoveryConfig { bootstrap_nodes: Vec::new(), timeout_secs: 10 }
    }
}

pub struct PeerDiscovery {
    pub config: DiscoveryConfig,
}

impl PeerDiscovery {
    pub fn new(config: DiscoveryConfig) -> (r: PeerDiscovery)
        ensures
            r.config.timeout_secs == config.timeout_secs,
            r.config.bootstrap_nodes@ == config.bootstrap_nodes@,
    {
        PeerDiscovery { config }
    }

    /// Looks a peer up; with no lookup service, nobody is found.
    pub fn find_peer(&self, pubkey: &str) -> (r: Option<User>)
        ensures
            r is None,
    {
        None
    }

    /// Whether a text is long enough to be a key: at least four bytes.
    pub fn validate_pubkey(pubkey: &str) -> (r: bool)
        ensures
            r == (pubkey.len() >= 4),
    {
        pubkey.len() >= 4
    }
}

} // verus!
