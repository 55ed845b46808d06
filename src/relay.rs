//! What the node exchanges with an HTTP relay, which forwards opaque
//! envelopes between peers and never sees plaintext, and the relay's
//! endpoints. The HTTP requests themselves are made outside this library.
use crate::models::{copy_opt_text, opt_view, User, UserStatus};
use vstd::prelude::*;
use vstd::string::*;

verus! {

/// Settings of the relay endpoint.
#[derive(Debug, Clone)]
pub struct RelayConfig {
    /// Base URL of the relay.
    pub relay_url: String,
    /// Timeout of one request, in seconds.
    pub timeout_secs: u64,
}

impl Default for RelayConfig {
    fn default() -> (r: Self)
        ensures
            r.relay_url@ == "https://neochat-relay.dimsimd.workers.dev"@,
            r.timeout_secs == 10,
    {
        RelayConfig {
            relay_url: "https://neochat-relay.dimsimd.workers.dev".to_owned(),
            timeout_secs: 10,
        }
    }
}

/// An envelope as the relay carries it.
#[derive(Debug, Clone)]
pub struct RelayEnvelope {
    /// Sender's identity or key hash.
    pub from: String,
    /// Recipient's identity or key hash.
    pub to: String,
    /// Base64 of the end-to-end encrypted payload.
    pub payload: String,
    /// Message id, for deduplication.
    pub message_id: String,
    /// Unix time of sending.
    pub timestamp: u64,
}

/// The relay's answer to a poll.
#[derive(Debug, Clone)]
pub struct RelayPollResponse {
    pub messages: Vec<RelayEnvelope>,
}

/// The public profile that the node publishes on the relay.
#[derive(Debug, Clone)]
pub struct ProfileUpdate {
    pub id: String,
    pub username: String,
    pub status: UserStatus,
    pub avatar_url: Option<String>,
}

impl ProfileUpdate {
    /// The published part of a user's profile.
    pub fn from_user(user: &User) -> (r: ProfileUpdate)
        ensures
            r.id@ == user.id@,
            r.username@ == user.username@,
            r.status == user.status,
            opt_view(r.avatar_url) == opt_view(user.avatar_url),
    {
        ProfileUpdate {
            id: user.id.clone(),
            username: user.username.clone(),
            status: user.status,
            avatar_url: copy_opt_text(&user.avatar_url),
        }
    }
}

impl RelayConfig {
    /// `{relay_url}/send`, where envelopes are posted.
    pub fn send_url(&self) -> (r: String)
        ensures
            r@ == self.relay_url@ + "/send"@,
    {
        let mut url = self.relay_url.clone();
        url.append("/send");
        url
    }

    /// `{relay_url}/poll/{user_hash}`, where waiting envelopes are fetched.
    pub fn poll_url(&self, user_hash: &str) -> (r: String)
        ensures
            r@ == self.relay_url@ + "/poll/"@ + user_hash@,
    {
        let mut url = self.relay_url.clone();
        url.append("/poll/");
        url.append(user_hash);
        url
    }

    /// `{relay_url}/ack/{user_hash}/{message_id}`, where a delivered envelope
    /// is acknowledged.
    pub fn ack_url(&self, user_hash: &str, message_id: &str) -> (r: String)
        ensures
            r@ == self.relay_url@ + "/ack/"@ + user_hash@ + "/"@ + message_id@,
    {
        let mut url = self.relay_url.clone();
        url.append("/ack/");
        url.append(user_hash);
        url.append("/");
        url.append(message_id);
        url
    }

    /// `{relay_url}/profile`, where the node's profile is published.
    pub fn profile_url(&self) -> (r: String)
        ensures
            r@ == self.relay_url@ + "/profile"@,
    {
        let mut url = self.relay_url.clone();
        url.append("/profile");
        url
    }

    /// `{relay_url}/profile/{user_id}`, where a user's profile is looked up.
    pub fn profile_lookup_url(&self, user_id: &str) -> (r: String)
        ensures
            r@ == self.relay_url@ + "/profile/"@ + user_id@,
    {
        let mut url = self.relay_url.clone();
        url.append("/profile/");
        url.append(user_id);
        url
    }
}

} // verus!
