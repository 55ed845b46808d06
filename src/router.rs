//! Choice of the channel that carries a sealed envelope.
use crate::models::TransportMode;
use vstd::prelude::*;

verus! {

/// The collaborators that move envelopes.
#[derive(Debug, Clone, Copy, PartialEq, Eq, Structural)]
pub enum Channel {
    /// Direct peer-to-peer delivery.
    Direct,
    /// The HTTP relay.
    Relay,
    /// The mesh store-and-forward cache.
    Mesh,
    /// DNS query names.
    DnsTunnel,
    /// Carrier SMS.
    Sms,
}

pub open spec fn channel_of(mode: TransportMode) -> Channel {
    match mode {
        TransportMode::Internet => Channel::Direct,
        TransportMode::CdnRelay => Channel::Relay,
        TransportMode::Mesh => Channel::Mesh,
        TransportMode::DnsTunnel => Channel::DnsTunnel,
        TransportMode::Sms => Channel::Sms,
    }
}

/// The channel for a chat's transport mode, one for each mode.
pub fn channel_for(mode: TransportMode) -> (r: Channel)
    ensures
        r == channel_of(mode),
{
    match mode {
        TransportMode::Internet => Channel::Direct,
        TransportMode::CdnRelay => Channel::Relay,
        TransportMode::Mesh => Channel::Mesh,
        TransportMode::DnsTunnel => Channel::DnsTunnel,
        TransportMode::Sms => Channel::Sms,
    }
}

} // verus!
