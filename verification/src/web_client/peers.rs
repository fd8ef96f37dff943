//! Peers.
use vstd::prelude::*;
use vstd::string::*;

use crate::codec::hex_bytes;
use crate::codec::hex_decode;
use crate::storage::rows::FriendRequestRow;
use crate::storage::rows::PeerRow;
use crate::storage::rows::StoredKeypair;
use crate::text::blank;
use crate::text::copy_opt;
use crate::text::decimal;
use crate::text::is_blank;
use crate::text::join;
use crate::text::same;
use crate::text::to_decimal;
use crate::web_client::api::api_error;
use crate::web_client::api::refusal;
use crate::web_client::api::refused_as;
use crate::web_client::api::ApiError;
use crate::web_client::api::ErrorView;
use crate::web_client::api::BAD_REQUEST;
use crate::web_client::api::CONFLICT;
use crate::web_client::api::NOT_FOUND;
use crate::web_client::friends::has_status;
use crate::web_client::friends::is_outgoing;
use crate::web_client::friends::FriendRequestPlan;
use crate::web_client::meta::address;
use crate::web_client::meta::addressed;
use crate::web_client::meta::friend_request;
use crate::web_client::meta::friend_request_meta;
use crate::web_client::meta::MetaToSend;
use crate::web_client::meta::PeerMeta;

verus! {

/// A peer that is to be added as a friend.
#[derive(Debug)]
pub struct AddPeerRequest {
    pub peer_id: String,
    pub display_name: Option<String>,
    pub signing_public_key: String,
    pub encryption_public_key: Option<String>,
}

/// Which messages of a peer are listed.
#[derive(Debug)]
pub struct PeerActivityQuery {
    pub limit: Option<u32>,
    pub before: Option<u64>,
}

// ---------------------------------------------------------------------------
// Keys
// ---------------------------------------------------------------------------

/// What is wrong with a key, if anything is: it must be hexadecimal, and of a given length.
pub open spec fn key_fault(key: Seq<char>, length: nat, field: Seq<char>) -> Option<Seq<char>> {
    match hex_bytes(key) {
        None => Some(field + " is not valid hex"@),
        Some(data) => if data.len() != length {
            Some(field + " must be "@ + decimal(length) + " bytes"@)
        } else {
            None
        },
    }
}

/// Checks a key.
pub fn validate_hex_key(key: &str, length: usize, field: &str) -> (r: Result<(), String>)
    ensures
        match key_fault(key@, length as nat, field@) {
            Some(e) => r matches Err(s) && s@ == e,
            None => r is Ok,
        },
{
    match hex_decode(key) {
        None => Err(join(field, " is not valid hex")),
        Some(data) => if data.len() != length {
            let mut message = join(field, " must be ");
            message.append(to_decimal(length as u64).as_str());
            message.append(" bytes");
            Err(message)
        } else {
            Ok(())
        },
    }
}

/// The bytes of a key, if it is one.
pub fn key_bytes(key: &str) -> (r: Option<Vec<u8>>)
    ensures
        match r {
            Some(data) => hex_bytes(key@) == Some(data@),
            None => hex_bytes(key@) is None,
        },
{
    hex_decode(key)
}

// ---------------------------------------------------------------------------
// Adding
// ---------------------------------------------------------------------------

/// Whether a row holds a peer of which nothing is known but its id and what is given.
pub open spec fn is_fresh_peer(p: PeerRow, is_friend: bool, now: u64) -> bool {
    &&& p.added_at == now
    &&& p.is_friend == is_friend
    &&& p.last_seen_online is None
    &&& !p.online
    &&& p.last_profile_requested_at is None
    &&& p.last_profile_responded_at is None
    &&& !p.is_blocked
    &&& !p.is_muted
    &&& p.blocked_at is None
    &&& p.muted_at is None
}

/// Why a peer cannot be added, if it cannot.
pub open spec fn add_fault(req: AddPeerRequest) -> Option<ErrorView> {
    if blank(req.peer_id@) {
        Some(refusal(BAD_REQUEST, "peer_id cannot be empty"@))
    } else if blank(req.signing_public_key@) {
        Some(refusal(BAD_REQUEST, "signing_public_key cannot be empty"@))
    } else {
        match key_fault(req.signing_public_key@, 32, "signing_public_key"@) {
            Some(e) => Some(refusal(BAD_REQUEST, e)),
            None => match req.encryption_public_key {
                Some(k) => if blank(k@) {
                    None
                } else {
                    match key_fault(k@, 32, "encryption_public_key"@) {
                        Some(e) => Some(refusal(BAD_REQUEST, e)),
                        None => None,
                    }
                },
                None => None,
            },
        }
    }
}

/// Decides on adding a peer as a friend.
pub fn add_peer(req: &AddPeerRequest, now: u64) -> (r: Result<PeerRow, ApiError>)
    ensures
        match add_fault(*req) {
            Some(e) => refused_as(r, e),
            None => {
                &&& r is Ok
                &&& r->Ok_0.peer_id == req.peer_id
                &&& r->Ok_0.display_name == req.display_name
                &&& r->Ok_0.signing_public_key == req.signing_public_key
                &&& r->Ok_0.encryption_public_key == req.encryption_public_key
                &&& is_fresh_peer(r->Ok_0, true, now)
            },
        },
{
    if is_blank(req.peer_id.as_str()) {
        return Err(api_error(BAD_REQUEST, "peer_id cannot be empty"));
    }
    if is_blank(req.signing_public_key.as_str()) {
        return Err(api_error(BAD_REQUEST, "signing_public_key cannot be empty"));
    }
    match validate_hex_key(req.signing_public_key.as_str(), 32, "signing_public_key") {
        Err(message) => {
            return Err(ApiError { status: BAD_REQUEST, message });
        },
        Ok(_) => {},
    }
    match &req.encryption_public_key {
        Some(k) => {
            if !is_blank(k.as_str()) {
                match validate_hex_key(k.as_str(), 32, "encryption_public_key") {
                    Err(message) => {
                        return Err(ApiError { status: BAD_REQUEST, message });
                    },
                    Ok(_) => {},
                }
            }
        },
        None => {},
    }
    Ok(
        PeerRow {
            peer_id: req.peer_id.clone(),
            display_name: copy_opt(&req.display_name),
            signing_public_key: req.signing_public_key.clone(),
            encryption_public_key: copy_opt(&req.encryption_public_key),
            added_at: now,
            is_friend: true,
            last_seen_online: None,
            online: false,
            last_profile_requested_at: None,
            last_profile_responded_at: None,
            is_blocked: false,
            is_muted: false,
            blocked_at: None,
            muted_at: None,
        },
    )
}

/// Whether messages that came in before a peer's key was known are taken up: where the id that its
/// key stands for is its own.
pub fn backfills(peer_id: &str, derived_id: &str) -> (r: bool)
    ensures
        r == (peer_id@ == derived_id@),
{
    same(peer_id, derived_id)
}

/// Whether a row stands for a peer that is not known yet.
pub open spec fn is_placeholder(p: PeerRow, peer_id: Seq<char>, now: u64) -> bool {
    &&& p.peer_id@ == peer_id
    &&& p.display_name is None
    &&& p.signing_public_key@ == Seq::<char>::empty()
    &&& p.encryption_public_key is None
    &&& is_fresh_peer(p, false, now)
}

/// A row that stands for a peer that is not known yet.
pub fn create_placeholder_peer(peer_id: &str, now: u64) -> (r: PeerRow)
    ensures
        is_placeholder(r, peer_id@, now),
{
    PeerRow {
        peer_id: peer_id.to_owned(),
        display_name: None,
        signing_public_key: String::new(),
        encryption_public_key: None,
        added_at: now,
        is_friend: false,
        last_seen_online: None,
        online: false,
        last_profile_requested_at: None,
        last_profile_responded_at: None,
        is_blocked: false,
        is_muted: false,
        blocked_at: None,
        muted_at: None,
    }
}

/// What is done when a peer is looked at.
pub struct PeerVisit {
    /// The row that is added, where the peer is not known.
    pub placeholder: Option<PeerRow>,
    /// Whether the peer is asked for its profile.
    pub request_profile: bool,
}

/// Decides what is done when a peer is looked at. Its profile is asked for where its key or its
/// profile is not known, and where it was never asked for.
pub fn visit_peer(peer_id: &str, known: &Option<PeerRow>, has_profile: bool, now: u64) -> (r:
    PeerVisit)
    ensures
        match known {
            None => r.placeholder is Some && is_placeholder(r.placeholder->0, peer_id@, now)
                && r.request_profile,
            Some(p) => r.placeholder is None && r.request_profile == (
            p.signing_public_key@.len() == 0 || p.last_profile_requested_at is None
                || !has_profile),
        },
{
    match known {
        None => PeerVisit {
            placeholder: Some(create_placeholder_peer(peer_id, now)),
            request_profile: true,
        },
        Some(p) => PeerVisit {
            placeholder: None,
            request_profile: p.signing_public_key.as_str().unicode_len() == 0
                || p.last_profile_requested_at.is_none() || !has_profile,
        },
    }
}

/// Asks a peer for its profile, by way of the relay.
pub fn request_profile(peer_id: &String, own_id: &String, relay_url: &Option<String>, now: u64) -> (r:
    Result<MetaToSend, ApiError>)
    ensures
        if relay_url is None {
            refused_as(r, refusal(BAD_REQUEST, "no relay configured"@))
        } else {
            &&& r is Ok
            &&& addressed(r->Ok_0, *own_id, peer_id@, now)
            &&& r->Ok_0.message == (PeerMeta::ProfileRequest {
                peer_id: *own_id,
                for_peer_id: *peer_id,
            })
        },
{
    if relay_url.is_none() {
        return Err(api_error(BAD_REQUEST, "no relay configured"));
    }
    Ok(
        address(
            own_id,
            peer_id,
            now,
            PeerMeta::ProfileRequest { peer_id: own_id.clone(), for_peer_id: peer_id.clone() },
        ),
    )
}

/// The answer to an action on a peer, given whether it is known.
pub fn peer_found(found: bool) -> (r: Result<(), ApiError>)
    ensures
        if found {
            r is Ok
        } else {
            refused_as(r, refusal(NOT_FOUND, "peer not found"@))
        },
{
    if found {
        Ok(())
    } else {
        Err(api_error(NOT_FOUND, "peer not found"))
    }
}

/// Decides on forgetting a peer: friends are not forgotten.
pub fn forget_peer(peer: &Option<PeerRow>) -> (r: Result<(), ApiError>)
    ensures
        match peer {
            None => refused_as(r, refusal(NOT_FOUND, "peer not found"@)),
            Some(p) => if p.is_friend {
                refused_as(
                    r,
                    refusal(BAD_REQUEST, "cannot forget a friend; remove friendship first"@),
                )
            } else {
                r is Ok
            },
        },
{
    match peer {
        None => Err(api_error(NOT_FOUND, "peer not found")),
        Some(p) => if p.is_friend {
            Err(api_error(BAD_REQUEST, "cannot forget a friend; remove friendship first"))
        } else {
            Ok(())
        },
    }
}

/// Why a known peer cannot be asked for friendship, if it cannot.
pub open spec fn peer_request_fault(
    peer_id: Seq<char>,
    own_id: Seq<char>,
    peer: Option<PeerRow>,
    existing: Option<FriendRequestRow>,
) -> Option<ErrorView> {
    if peer_id == own_id {
        Some(refusal(BAD_REQUEST, "cannot send friend request to yourself"@))
    } else {
        match peer {
            None => Some(refusal(NOT_FOUND, "peer not found"@)),
            Some(p) => if p.is_friend {
                Some(refusal(CONFLICT, "already friends with this peer"@))
            } else if has_status(existing, "pending"@) {
                Some(refusal(CONFLICT, "friend request already pending"@))
            } else {
                None
            },
        }
    }
}

/// Decides on asking a known peer for friendship, without a message. `existing` holds the latest
/// request to it.
pub fn peer_friend_request(
    peer_id: &String,
    own: &StoredKeypair,
    peer: &Option<PeerRow>,
    existing: &Option<FriendRequestRow>,
    now: u64,
) -> (r: Result<FriendRequestPlan, ApiError>)
    ensures
        match peer_request_fault(peer_id@, own.id@, *peer, *existing) {
            Some(e) => refused_as(r, e),
            None => {
                &&& r is Ok
                &&& is_outgoing(r->Ok_0.row, *own, peer_id@, None, now)
                &&& r->Ok_0.refresh == (match existing {
                    Some(ex) => Some(ex.id),
                    None => None,
                })
                &&& r->Ok_0.row.id == (match existing {
                    Some(ex) => ex.id,
                    None => 0,
                })
                &&& addressed(r->Ok_0.meta, own.id, peer_id@, now)
                &&& r->Ok_0.meta.message == friend_request_meta(*own, None)
            },
        },
{
    if same(peer_id.as_str(), own.id.as_str()) {
        return Err(api_error(BAD_REQUEST, "cannot send friend request to yourself"));
    }
    match peer {
        None => {
            return Err(api_error(NOT_FOUND, "peer not found"));
        },
        Some(p) => {
            if p.is_friend {
                return Err(api_error(CONFLICT, "already friends with this peer"));
            }
        },
    }
    let (refresh, id): (Option<i64>, i64) = match existing {
        Some(ex) => {
            if same(ex.status.as_str(), "pending") {
                return Err(api_error(CONFLICT, "friend request already pending"));
            }
            (Some(ex.id), ex.id)
        },
        None => (None, 0),
    };
    let none: Option<String> = None;
    Ok(
        FriendRequestPlan {
            row: FriendRequestRow {
                id,
                from_peer_id: own.id.clone(),
                to_peer_id: peer_id.clone(),
                status: "pending".to_owned(),
                message: None,
                from_signing_key: own.signing_public_key_hex.clone(),
                from_encryption_key: own.public_key_hex.clone(),
                direction: "outgoing".to_owned(),
                created_at: now,
                updated_at: now,
            },
            refresh,
            meta: address(&own.id, peer_id, now, friend_request(own, &none)),
        },
    )
}

} // verus!
