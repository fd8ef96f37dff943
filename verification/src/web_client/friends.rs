//! Friend requests.
use vstd::prelude::*;
use vstd::string::*;

use crate::storage::rows::FriendRequestRow;
use crate::storage::rows::PeerRow;
use crate::storage::rows::StoredKeypair;
use crate::text::blank;
use crate::text::copy_opt;
use crate::text::is_blank;
use crate::text::join;
use crate::text::same;
use crate::text::trim;
use crate::text::trimmed;
use crate::web_client::api::api_error;
use crate::web_client::api::refusal;
use crate::web_client::api::refused_as;
use crate::web_client::api::ApiError;
use crate::web_client::api::ErrorView;
use crate::web_client::api::BAD_REQUEST;
use crate::web_client::api::CONFLICT;
use crate::web_client::api::NOT_FOUND;
use crate::web_client::meta::address;
use crate::web_client::meta::addressed;
use crate::web_client::meta::friend_accept;
use crate::web_client::meta::friend_accept_meta;
use crate::web_client::meta::friend_request;
use crate::web_client::meta::friend_request_meta;
use crate::web_client::meta::MetaToSend;

verus! {

/// A wish to be friends with somebody.
#[derive(Debug)]
pub struct SendFriendRequestPayload {
    pub peer_id: String,
    pub message: Option<String>,
    /// Whether to ask again where an answer is still awaited.
    pub force: bool,
}

/// Which friend requests are listed.
#[derive(Debug)]
pub struct ListFriendRequestsQuery {
    pub status: Option<String>,
    pub direction: Option<String>,
}

/// Whether there is a request with a given status.
pub open spec fn has_status(fr: Option<FriendRequestRow>, status: Seq<char>) -> bool {
    fr matches Some(row) && row.status@ == status
}

/// Why a friend request is refused, if it is.
pub open spec fn request_fault(
    peer_id: Seq<char>,
    force: bool,
    own_id: Seq<char>,
    is_friend: bool,
    existing: Option<FriendRequestRow>,
) -> Option<ErrorView> {
    if blank(peer_id) {
        Some(refusal(BAD_REQUEST, "peer_id cannot be empty"@))
    } else if trimmed(peer_id) == own_id {
        Some(refusal(BAD_REQUEST, "cannot send friend request to yourself"@))
    } else if is_friend {
        Some(refusal(CONFLICT, "already friends with this peer"@))
    } else if has_status(existing, "pending"@) && !force {
        Some(refusal(CONFLICT, "friend request already pending"@))
    } else {
        None
    }
}

/// A friend request to be sent.
pub struct FriendRequestPlan {
    /// The request as it stands from now on; without an id where it is new.
    pub row: FriendRequestRow,
    /// The request that is asked again, if there was one.
    pub refresh: Option<i64>,
    pub meta: MetaToSend,
}

/// Whether a row holds a request of the local peer that awaits an answer.
pub open spec fn is_outgoing(
    row: FriendRequestRow,
    own: StoredKeypair,
    to: Seq<char>,
    message: Option<String>,
    now: u64,
) -> bool {
    &&& row.from_peer_id == own.id
    &&& row.to_peer_id@ == to
    &&& row.status@ == "pending"@
    &&& row.message == message
    &&& row.from_signing_key == own.signing_public_key_hex
    &&& row.from_encryption_key == own.public_key_hex
    &&& row.direction@ == "outgoing"@
    &&& row.created_at == now
    &&& row.updated_at == now
}

/// Decides on a friend request. `is_friend` says whether the peer is a friend already, and
/// `existing` holds the latest request to it.
pub fn send_friend_request(
    req: &SendFriendRequestPayload,
    own: &StoredKeypair,
    is_friend: bool,
    existing: &Option<FriendRequestRow>,
    now: u64,
) -> (r: Result<FriendRequestPlan, ApiError>)
    ensures
        match request_fault(req.peer_id@, req.force, own.id@, is_friend, *existing) {
            Some(e) => refused_as(r, e),
            None => {
                &&& r is Ok
                &&& is_outgoing(r->Ok_0.row, *own, trimmed(req.peer_id@), req.message, now)
                &&& r->Ok_0.refresh == (match existing {
                    Some(ex) => Some(ex.id),
                    None => None,
                })
                &&& r->Ok_0.row.id == (match existing {
                    Some(ex) => ex.id,
                    None => 0,
                })
                &&& addressed(r->Ok_0.meta, own.id, trimmed(req.peer_id@), now)
                &&& r->Ok_0.meta.message == friend_request_meta(*own, req.message)
            },
        },
{
    if is_blank(req.peer_id.as_str()) {
        return Err(api_error(BAD_REQUEST, "peer_id cannot be empty"));
    }
    let peer_id = trim(req.peer_id.as_str()).to_owned();
    if same(peer_id.as_str(), own.id.as_str()) {
        return Err(api_error(BAD_REQUEST, "cannot send friend request to yourself"));
    }
    if is_friend {
        return Err(api_error(CONFLICT, "already friends with this peer"));
    }
    let (refresh, id): (Option<i64>, i64) = match existing {
        Some(ex) => {
            if same(ex.status.as_str(), "pending") && !req.force {
                return Err(api_error(CONFLICT, "friend request already pending"));
            }
            (Some(ex.id), ex.id)
        },
        None => (None, 0),
    };
    let meta = address(&own.id, &peer_id, now, friend_request(own, &req.message));
    Ok(
        FriendRequestPlan {
            row: FriendRequestRow {
                id,
                from_peer_id: own.id.clone(),
                to_peer_id: peer_id,
                status: "pending".to_owned(),
                message: copy_opt(&req.message),
                from_signing_key: own.signing_public_key_hex.clone(),
                from_encryption_key: own.public_key_hex.clone(),
                direction: "outgoing".to_owned(),
                created_at: now,
                updated_at: now,
            },
            refresh,
            meta,
        },
    )
}

/// Why a request cannot be answered any more, if it cannot.
pub open spec fn answer_fault(fr: Option<FriendRequestRow>) -> Option<ErrorView> {
    match fr {
        None => Some(refusal(NOT_FOUND, "friend request not found"@)),
        Some(row) => if row.status@ != "pending"@ {
            Some(refusal(BAD_REQUEST, "friend request is already "@ + row.status@))
        } else {
            None
        },
    }
}

/// Why a request cannot be accepted, if it cannot.
pub open spec fn accept_fault(fr: Option<FriendRequestRow>) -> Option<ErrorView> {
    match answer_fault(fr) {
        Some(e) => Some(e),
        None => if fr->0.direction@ != "incoming"@ {
            Some(refusal(BAD_REQUEST, "can only accept incoming friend requests"@))
        } else {
            None
        },
    }
}

/// Why a request cannot be blocked, if it cannot. One that was answered can still be blocked.
pub open spec fn block_fault(fr: Option<FriendRequestRow>) -> Option<ErrorView> {
    match fr {
        None => Some(refusal(NOT_FOUND, "friend request not found"@)),
        Some(row) => if row.direction@ != "incoming"@ {
            Some(refusal(BAD_REQUEST, "can only block incoming friend requests"@))
        } else {
            None
        },
    }
}

/// A friend request that is accepted.
pub struct AcceptPlan {
    /// The new friend.
    pub peer: PeerRow,
    /// The local peer's own request to the new friend, which is settled too.
    pub settle: Option<i64>,
    pub meta: MetaToSend,
}

/// Whether a row holds the friend whose request was accepted, with the keys of the request.
pub open spec fn is_new_friend(p: PeerRow, fr: FriendRequestRow, now: u64) -> bool {
    &&& p.peer_id == fr.from_peer_id
    &&& p.display_name is None
    &&& p.signing_public_key == fr.from_signing_key
    &&& p.encryption_public_key == Some(fr.from_encryption_key)
    &&& p.added_at == now
    &&& p.is_friend
    &&& p.last_seen_online == Some(now)
    &&& !p.online
    &&& p.last_profile_requested_at is None
    &&& p.last_profile_responded_at is None
    &&& !p.is_blocked
    &&& !p.is_muted
    &&& p.blocked_at is None
    &&& p.muted_at is None
}

fn check_pending(fr: &FriendRequestRow) -> (r: Result<(), ApiError>)
    ensures
        if fr.status@ != "pending"@ {
            refused_as(r, refusal(BAD_REQUEST, "friend request is already "@ + fr.status@))
        } else {
            r is Ok
        },
{
    if same(fr.status.as_str(), "pending") {
        Ok(())
    } else {
        Err(
            ApiError {
                status: BAD_REQUEST,
                message: join("friend request is already ", fr.status.as_str()),
            },
        )
    }
}

/// Decides on accepting a friend request. `outgoing` holds the local peer's latest request to the
/// one who asks.
pub fn accept_friend_request(
    fr: &Option<FriendRequestRow>,
    own: &StoredKeypair,
    outgoing: &Option<FriendRequestRow>,
    now: u64,
) -> (r: Result<AcceptPlan, ApiError>)
    ensures
        match accept_fault(*fr) {
            Some(e) => refused_as(r, e),
            None => {
                &&& r is Ok
                &&& is_new_friend(r->Ok_0.peer, fr->0, now)
                &&& r->Ok_0.settle == (if has_status(*outgoing, "pending"@) {
                    Some(outgoing->0.id)
                } else {
                    None
                })
                &&& addressed(r->Ok_0.meta, own.id, fr->0.from_peer_id@, now)
                &&& r->Ok_0.meta.message == friend_accept_meta(*own)
            },
        },
{
    let row = match fr {
        Some(row) => row,
        None => {
            return Err(api_error(NOT_FOUND, "friend request not found"));
        },
    };
    match check_pending(row) {
        Err(e) => {
            return Err(e);
        },
        Ok(_) => {},
    }
    if !same(row.direction.as_str(), "incoming") {
        return Err(api_error(BAD_REQUEST, "can only accept incoming friend requests"));
    }
    let settle: Option<i64> = match outgoing {
        Some(o) => if same(o.status.as_str(), "pending") {
            Some(o.id)
        } else {
            None
        },
        None => None,
    };
    Ok(
        AcceptPlan {
            peer: PeerRow {
                peer_id: row.from_peer_id.clone(),
                display_name: None,
                signing_public_key: row.from_signing_key.clone(),
                encryption_public_key: Some(row.from_encryption_key.clone()),
                added_at: now,
                is_friend: true,
                last_seen_online: Some(now),
                online: false,
                last_profile_requested_at: None,
                last_profile_responded_at: None,
                is_blocked: false,
                is_muted: false,
                blocked_at: None,
                muted_at: None,
            },
            settle,
            meta: address(&own.id, &row.from_peer_id, now, friend_accept(own)),
        },
    )
}

/// Decides on ignoring a friend request.
pub fn ignore_friend_request(fr: &Option<FriendRequestRow>) -> (r: Result<(), ApiError>)
    ensures
        match answer_fault(*fr) {
            Some(e) => refused_as(r, e),
            None => r is Ok,
        },
{
    match fr {
        Some(row) => check_pending(row),
        None => Err(api_error(NOT_FOUND, "friend request not found")),
    }
}

/// Decides on blocking the sender of a friend request.
pub fn block_friend_request(fr: &Option<FriendRequestRow>) -> (r: Result<(), ApiError>)
    ensures
        match block_fault(*fr) {
            Some(e) => refused_as(r, e),
            None => r is Ok,
        },
{
    match fr {
        Some(row) => if same(row.direction.as_str(), "incoming") {
            Ok(())
        } else {
            Err(api_error(BAD_REQUEST, "can only block incoming friend requests"))
        },
        None => Err(api_error(NOT_FOUND, "friend request not found")),
    }
}

/// A request that was answered is not answered again, neither by accepting nor by ignoring it.
pub proof fn law_requests_are_answered_once(fr: FriendRequestRow)
    requires
        fr.status@ == "accepted"@ || fr.status@ == "ignored"@ || fr.status@ == "blocked"@,
    ensures
        accept_fault(Some(fr)) is Some,
        answer_fault(Some(fr)) is Some,
{
    reveal_strlit("pending");
    reveal_strlit("accepted");
    reveal_strlit("ignored");
    reveal_strlit("blocked");
    assert("accepted"@[0] == 'a' && "pending"@[0] == 'p');
    assert("ignored"@[0] == 'i');
    assert("blocked"@[0] == 'b');
}

/// Nobody becomes a friend by a request of their own making: what is accepted came in.
pub proof fn law_only_incoming_requests_are_accepted(fr: FriendRequestRow)
    requires
        fr.direction@ == "outgoing"@,
    ensures
        accept_fault(Some(fr)) is Some,
        block_fault(Some(fr)) is Some,
{
    reveal_strlit("incoming");
    reveal_strlit("outgoing");
    assert("incoming"@[0] == 'i' && "outgoing"@[0] == 'o');
}

} // verus!
