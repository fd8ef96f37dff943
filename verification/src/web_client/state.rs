//! What connected browsers are told.
use vstd::prelude::*;
use vstd::string::*;

verus! {

/// An event that is told to all connected browsers.
#[derive(Debug)]
pub enum WsEvent {
    NewMessage {
        message_id: String,
        sender_id: String,
        message_kind: String,
        body: Option<String>,
        timestamp: u64,
    },
    PeerOnline { peer_id: String },
    PeerOffline { peer_id: String },
    MessageRead { message_id: String },
    RelayStatus { connected: bool, relay_url: Option<String> },
    FriendRequestReceived { request_id: i64, from_peer_id: String, message: Option<String> },
    FriendRequestAccepted { request_id: i64, from_peer_id: String },
}

} // verus!
