//! Secure transport and storage core of a peer-to-peer messenger: end-to-end
//! envelopes, the at-rest state codec, the mesh store-and-forward cache and the
//! DNS tunnel chunk codec.
pub mod encoding;
pub mod mesh;
pub mod dns_tunnel;
pub mod crypto;
pub mod storage;
pub mod models;
pub mod router;
pub mod discovery;
pub mod relay;
pub mod node;

pub use crate::models::{
    Chat, ChatLastMessage, ChatType, Contact, CoreError, Message, MessageStatus, NetworkStatus,
    TransportMode, User, UserStatus,
};
