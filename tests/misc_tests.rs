use neochat_core::discovery::{DiscoveryConfig, PeerDiscovery};
use neochat_core::relay::{ProfileUpdate, RelayConfig};
use neochat_core::router::{channel_for, Channel};
use neochat_core::{TransportMode, User, UserStatus};

#[test]
fn discovery_finds_nobody() {
    let config = DiscoveryConfig::default();
    assert!(config.bootstrap_nodes.is_empty());
    assert_eq!(config.timeout_secs, 10);
    let d = PeerDiscovery::new(config);
    assert!(d.find_peer("ABCDEFGH").is_none());
}

#[test]
fn discovery_validates_length() {
    assert!(!PeerDiscovery::validate_pubkey(""));
    assert!(!PeerDiscovery::validate_pubkey("abc"));
    assert!(PeerDiscovery::validate_pubkey("abcd"));
}

#[test]
fn relay_urls() {
    let c = RelayConfig::default();
    assert_eq!(c.timeout_secs, 10);
    assert_eq!(c.send_url(), "https://neochat-relay.dimsimd.workers.dev/send");
    let c = RelayConfig { relay_url: "https://r.example".to_string(), timeout_secs: 3 };
    assert_eq!(c.poll_url("u1"), "https://r.example/poll/u1");
    assert_eq!(c.ack_url("u1", "m9"), "https://r.example/ack/u1/m9");
    assert_eq!(c.profile_url(), "https://r.example/profile");
    assert_eq!(c.profile_lookup_url("u2"), "https://r.example/profile/u2");
}

#[test]
fn profile_update_from_user() {
    let user = User {
        id: "test-id".to_string(),
        username: "Test".to_string(),
        status: UserStatus::Online,
        last_seen: 12345,
        avatar_url: Some("url".to_string()),
        is_registered: true,
    };
    let p = ProfileUpdate::from_user(&user);
    assert_eq!(p.id, "test-id");
    assert_eq!(p.username, "Test");
    assert_eq!(p.status, UserStatus::Online);
    assert_eq!(p.avatar_url, Some("url".to_string()));
}

#[test]
fn router_has_one_channel_per_mode() {
    assert_eq!(channel_for(TransportMode::Internet), Channel::Direct);
    assert_eq!(channel_for(TransportMode::CdnRelay), Channel::Relay);
    assert_eq!(channel_for(TransportMode::Mesh), Channel::Mesh);
    assert_eq!(channel_for(TransportMode::DnsTunnel), Channel::DnsTunnel);
    assert_eq!(channel_for(TransportMode::Sms), Channel::Sms);
}
