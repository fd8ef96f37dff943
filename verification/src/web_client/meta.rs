//! What the web client tells other peers about itself.
use vstd::prelude::*;
use vstd::string::*;

use crate::storage::rows::StoredKeypair;
use crate::text::copy_opt;
use crate::web_client::config::DEFAULT_TTL_SECONDS;

verus! {

/// A message between peers that is not for their users.
#[derive(Debug)]
pub enum PeerMeta {
    FriendRequest {
        peer_id: String,
        signing_public_key: String,
        encryption_public_key: String,
        message: Option<String>,
    },
    FriendAccept { peer_id: String, signing_public_key: String, encryption_public_key: String },
    GroupInvite {
        peer_id: String,
        group_id: String,
        group_name: Option<String>,
        message: Option<String>,
    },
    GroupInviteAccept { peer_id: String, group_id: String },
    ProfileRequest { peer_id: String, for_peer_id: String },
}

/// A meta message to be sent.
#[derive(Debug)]
pub struct MetaToSend {
    pub sender_id: String,
    pub recipient_id: String,
    pub timestamp: u64,
    pub ttl_seconds: u64,
    pub message: PeerMeta,
}

/// Whether a meta message goes from one peer to another now, and for the usual time.
pub open spec fn addressed(m: MetaToSend, from: String, to: Seq<char>, now: u64) -> bool {
    &&& m.sender_id == from
    &&& m.recipient_id@ == to
    &&& m.timestamp == now
    &&& m.ttl_seconds == DEFAULT_TTL_SECONDS
}

/// Addresses a meta message.
pub fn address(from: &String, to: &String, now: u64, message: PeerMeta) -> (r: MetaToSend)
    ensures
        addressed(r, *from, to@, now),
        r.message == message,
{
    MetaToSend {
        sender_id: from.clone(),
        recipient_id: to.clone(),
        timestamp: now,
        ttl_seconds: DEFAULT_TTL_SECONDS,
        message,
    }
}

/// A request for friendship: it carries the keys of the one who asks.
pub open spec fn friend_request_meta(own: StoredKeypair, message: Option<String>) -> PeerMeta {
    PeerMeta::FriendRequest {
        peer_id: own.id,
        signing_public_key: own.signing_public_key_hex,
        encryption_public_key: own.public_key_hex,
        message,
    }
}

/// Builds a request for friendship.
pub fn friend_request(own: &StoredKeypair, message: &Option<String>) -> (r: PeerMeta)
    ensures
        r == friend_request_meta(*own, *message),
{
    PeerMeta::FriendRequest {
        peer_id: own.id.clone(),
        signing_public_key: own.signing_public_key_hex.clone(),
        encryption_public_key: own.public_key_hex.clone(),
        message: copy_opt(message),
    }
}

/// The answer to a request for friendship: it carries the keys of the one who accepts.
pub open spec fn friend_accept_meta(own: StoredKeypair) -> PeerMeta {
    PeerMeta::FriendAccept {
        peer_id: own.id,
        signing_public_key: own.signing_public_key_hex,
        encryption_public_key: own.public_key_hex,
    }
}

/// Builds the answer to a request for friendship.
pub fn friend_accept(own: &StoredKeypair) -> (r: PeerMeta)
    ensures
        r == friend_accept_meta(*own),
{
    PeerMeta::FriendAccept {
        peer_id: own.id.clone(),
        signing_public_key: own.signing_public_key_hex.clone(),
        encryption_public_key: own.public_key_hex.clone(),
    }
}

/// An invitation to a group, which goes by its id.
pub open spec fn group_invite_meta(own_id: String, group_id: String, message: Option<String>) -> PeerMeta {
    PeerMeta::GroupInvite { peer_id: own_id, group_id, group_name: Some(group_id), message }
}

/// Builds an invitation to a group.
pub fn group_invite(own_id: &String, group_id: &String, message: &Option<String>) -> (r: PeerMeta)
    ensures
        r == group_invite_meta(*own_id, *group_id, *message),
{
    PeerMeta::GroupInvite {
        peer_id: own_id.clone(),
        group_id: group_id.clone(),
        group_name: Some(group_id.clone()),
        message: copy_opt(message),
    }
}

} // verus!
