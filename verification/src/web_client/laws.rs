//! What the users of web clients can rely on, in terms of what they ask for and what comes of it.
use vstd::prelude::*;

use crate::codec::base64_bytes;
use crate::codec::base64_of;
use crate::codec::hex_bytes;
use crate::codec::hex_of;
use crate::codec::json_compacted;
use crate::codec::opened;
use crate::codec::sha256_of;
use crate::storage::queries::SqlQuery;
use crate::storage::queries::SqlValue;
use crate::storage::queries::SqlView;
use crate::storage::queries::list_conversation_messages;
use crate::storage::rows::AttachmentRow;
use crate::storage::rows::BlobManifestRow;
use crate::storage::rows::FriendRequestRow;
use crate::storage::rows::GroupInviteRow;
use crate::storage::rows::GroupRow;
use crate::storage::rows::MessageAttachmentRow;
use crate::storage::rows::MessageRow;
use crate::storage::rows::PeerRow;
use crate::storage::rows::ProfileRow;
use crate::storage::rows::ReactionRow;
use crate::storage::rows::StoredKeypair;
use crate::text::blank;
use crate::text::decimal;
use crate::text::opt_text;
use crate::text::stripped_end;
use crate::text::texts;
use crate::text::trimmed;
use crate::web_client::api::ApiError;
use crate::web_client::api::page_size;
use crate::web_client::attachments::AcceptedAttachment;
use crate::web_client::attachments::AssemblyView;
use crate::web_client::attachments::BlobAssembly;
use crate::web_client::attachments::BlobError;
use crate::web_client::attachments::ChunkUpload;
use crate::web_client::attachments::DownloadPlan;
use crate::web_client::attachments::SealedChunk;
use crate::web_client::attachments::accept_upload;
use crate::web_client::attachments::assembly_fault;
use crate::web_client::attachments::attachment_row;
use crate::web_client::attachments::blob_manifest;
use crate::web_client::attachments::check_size;
use crate::web_client::attachments::chunk_nonce;
use crate::web_client::attachments::chunk_taken;
use crate::web_client::attachments::chunk_upload;
use crate::web_client::attachments::chunk_url;
use crate::web_client::attachments::hydrated_row;
use crate::web_client::attachments::plan_download;
use crate::web_client::attachments::seal_blob;
use crate::web_client::attachments::upload_succeeded;
use crate::web_client::config::CHUNK_SIZE;
use crate::web_client::config::Cli;
use crate::web_client::config::Config;
use crate::web_client::config::DEFAULT_MESH_WINDOW_SECS;
use crate::web_client::config::DEFAULT_TTL_SECONDS;
use crate::web_client::config::Environment;
use crate::web_client::config::INLINE_THRESHOLD;
use crate::web_client::config::MAX_ATTACHMENT_SIZE;
use crate::web_client::config::MAX_WS_CONNECTIONS;
use crate::web_client::config::MESH_QUERY_INTERVAL_SECS;
use crate::web_client::config::SYNC_INTERVAL_SECS;
use crate::web_client::config::WS_CHANNEL_CAPACITY;
use crate::web_client::config::effective_relay;
use crate::web_client::friends::AcceptPlan;
use crate::web_client::friends::FriendRequestPlan;
use crate::web_client::friends::SendFriendRequestPayload;
use crate::web_client::friends::accept_friend_request;
use crate::web_client::friends::block_friend_request;
use crate::web_client::friends::ignore_friend_request;
use crate::web_client::friends::send_friend_request;
use crate::web_client::groups::AddGroupMemberRequest;
use crate::web_client::groups::CreateGroupRequest;
use crate::web_client::groups::GroupCreated;
use crate::web_client::groups::GroupPlan;
use crate::web_client::groups::accept_group_invite;
use crate::web_client::groups::add_group_member;
use crate::web_client::groups::founds;
use crate::web_client::groups::group_created;
use crate::web_client::groups::group_left;
use crate::web_client::groups::ignore_group_invite;
use crate::web_client::groups::invite_meta;
use crate::web_client::groups::member_removed;
use crate::web_client::groups::pending_invitees;
use crate::web_client::groups::plan_group;
use crate::web_client::groups::without;
use crate::web_client::messages::Draft;
use crate::web_client::messages::ReactRequest;
use crate::web_client::messages::ReplyRequest;
use crate::web_client::messages::SendAttachmentRef;
use crate::web_client::messages::SendDirectRequest;
use crate::web_client::messages::SendGroupRequest;
use crate::web_client::messages::SendPublicRequest;
use crate::web_client::messages::SentMessage;
use crate::web_client::messages::attachment_links;
use crate::web_client::messages::message_marked_read;
use crate::web_client::messages::notification_marked_read;
use crate::web_client::messages::react;
use crate::web_client::messages::reaction_removed;
use crate::web_client::messages::reaction_row;
use crate::web_client::messages::reply;
use crate::web_client::messages::reply_group;
use crate::web_client::messages::send_direct;
use crate::web_client::messages::send_group;
use crate::web_client::messages::send_public;
use crate::web_client::messages::sent_message;
use crate::web_client::meta::MetaToSend;
use crate::web_client::peers::AddPeerRequest;
use crate::web_client::peers::PeerVisit;
use crate::web_client::peers::add_peer;
use crate::web_client::peers::forget_peer;
use crate::web_client::peers::key_bytes;
use crate::web_client::peers::peer_found;
use crate::web_client::peers::peer_friend_request;
use crate::web_client::peers::request_profile;
use crate::web_client::peers::validate_hex_key;
use crate::web_client::peers::visit_peer;
use crate::web_client::profiles::FriendKey;
use crate::web_client::profiles::ProfileReply;
use crate::web_client::profiles::ProfileUpdate;
use crate::web_client::profiles::UpdateProfileRequest;
use crate::web_client::profiles::friends_to_tell;
use crate::web_client::profiles::get_own_profile;
use crate::web_client::profiles::get_peer_profile;
use crate::web_client::profiles::reachable_friend;
use crate::web_client::profiles::update_own_profile;
use crate::web_client::state::WsEvent;
use crate::web_client::status::GeoSettings;
use crate::web_client::status::Health;
use crate::web_client::status::SocketInput;
use crate::web_client::status::SocketOutput;
use crate::web_client::status::UpdateGeoSettingsRequest;
use crate::web_client::status::check_connections;
use crate::web_client::status::health;
use crate::web_client::status::qr_code;
use crate::web_client::status::relay_status;
use crate::web_client::status::socket_step;
use crate::web_client::status::updated_geo_settings;

verus! {

// ---------------------------------------------------------------------------
// Messages
// ---------------------------------------------------------------------------

/// Whether what was sent is kept as a message of its sender: read, of now, under its id, with the
/// envelope still to be delivered; and browsers are told of that very message.
pub open spec fn kept_of(s: SentMessage, own_id: Seq<char>, id: Seq<char>, envelope: Seq<char>, now: u64) -> bool {
    &&& s.message.message_id@ == id
    &&& s.message.sender_id@ == own_id
    &&& s.message.timestamp == now
    &&& s.message.received_at == now
    &&& s.message.ttl_seconds == 3600
    &&& s.message.is_read
    &&& s.message.raw_envelope is None
    &&& s.outbox.message_id@ == id
    &&& s.outbox.envelope@ == envelope
    &&& s.outbox.sent_at == now
    &&& !s.outbox.delivered
    &&& s.event is NewMessage
    &&& s.event->NewMessage_message_id@ == id
    &&& s.event->sender_id@ == own_id
    &&& s.event->message_kind@ == s.message.message_kind@
    &&& s.event->body is Some
    &&& s.message.body is Some
    &&& s.event->body->0@ == s.message.body->0@
    &&& s.event->timestamp == now
}

/// A direct message that was sent is kept as one from the local peer to the one it is for, with
/// its text, and is sealed under that peer's key for encryption. So it is in the conversation of
/// the two: the list of that conversation is asked for by these two ids.
pub proof fn law_direct_message_is_in_the_conversation(
    req: SendDirectRequest,
    peer: Option<PeerRow>,
    draft: Draft,
    own_id: String,
    message_id: String,
    envelope: String,
    now: u64,
    sent: SentMessage,
    me: &str,
    them: &str,
    before: Option<u64>,
    limit: u32,
    query: SqlQuery,
)
    requires
        call_ensures(send_direct, (&req, &peer), Ok::<Draft, ApiError>(draft)),
        call_ensures(sent_message, (&draft, &own_id, &message_id, envelope, now), sent),
        me@ == own_id@,
        them@ == req.recipient_id@,
        call_ensures(list_conversation_messages, (me, them, before, limit), query),
    ensures
        kept_of(sent, own_id@, message_id@, envelope@, now),
        sent.message.recipient_id@ == req.recipient_id@,
        sent.message.message_kind@ == "direct"@,
        sent.message.body->0@ == req.body@,
        sent.message.group_id is None,
        sent.message.reply_to is None,
        peer is Some && peer->0.encryption_public_key is Some,
        draft.sealing is ForPeer && draft.sealing->encryption_key@
            == peer->0.encryption_public_key->0@,
        draft.body@ == req.body@,
        draft.recipient_id@ == sent.message.recipient_id@,
        query.values@.len() >= 2,
        query.values@[0]@ == SqlView::Text(sent.message.sender_id@),
        query.values@[1]@ == SqlView::Text(sent.message.recipient_id@),
{
    let v = query.values@.map_values(|x: SqlValue| x@);
    assert(crate::storage::queries::values(query.values@) =~= v);
    assert(v[0] == query.values@[0]@ && v[1] == query.values@[1]@);
}

/// A message is not sent where it says nothing, where its recipient is not known, or where it
/// could not be sealed; otherwise it is.
pub proof fn law_direct_message_needs_a_recipient_with_a_key(
    req: SendDirectRequest,
    peer: Option<PeerRow>,
    r: Result<Draft, ApiError>,
)
    requires
        call_ensures(send_direct, (&req, &peer), r),
    ensures
        r is Ok <==> (!blank(req.body@) || req.attachments@.len() > 0) && peer is Some
            && peer->0.encryption_public_key is Some,
        r is Err ==> r->Err_0.status == (if peer is None && (!blank(req.body@)
            || req.attachments@.len() > 0) {
            404u16
        } else {
            400u16
        }),
{
}

/// A public message is kept as one from the local peer to everybody, with its text, and goes out
/// in the clear.
pub proof fn law_public_message_is_for_everybody(
    req: SendPublicRequest,
    r: Result<Draft, ApiError>,
    own_id: String,
    message_id: String,
    envelope: String,
    now: u64,
    sent: SentMessage,
)
    requires
        call_ensures(send_public, (&req,), r),
        r is Ok ==> call_ensures(
            sent_message,
            (&r->Ok_0, &own_id, &message_id, envelope, now),
            sent,
        ),
    ensures
        r is Ok <==> !blank(req.body@) || req.attachments@.len() > 0,
        r is Err ==> r->Err_0.status == 400,
        r is Ok ==> {
            &&& kept_of(sent, own_id@, message_id@, envelope@, now)
            &&& sent.message.recipient_id@ == "*"@
            &&& r->Ok_0.recipient_id@ == "*"@
            &&& sent.message.message_kind@ == "public"@
            &&& sent.message.body->0@ == req.body@
            &&& sent.message.group_id is None
            &&& sent.message.reply_to is None
            &&& r->Ok_0.sealing is Plain
            &&& r->Ok_0.body@ == req.body@
        },
{
}

/// A message to a group is kept as one from the local peer to everybody under that group, with its
/// text, and is sealed under the key of the group, which has 32 bytes.
pub proof fn law_group_message_is_for_the_group(
    req: SendGroupRequest,
    group: Option<GroupRow>,
    r: Result<Draft, ApiError>,
    own_id: String,
    message_id: String,
    envelope: String,
    now: u64,
    sent: SentMessage,
)
    requires
        call_ensures(send_group, (&req, &group), r),
        r is Ok ==> call_ensures(
            sent_message,
            (&r->Ok_0, &own_id, &message_id, envelope, now),
            sent,
        ),
    ensures
        r is Ok <==> (!blank(req.body@) || req.attachments@.len() > 0) && group is Some
            && group->0.group_key@.len() == 32,
        r is Err && !(blank(req.body@) && req.attachments@.len() == 0) ==> r->Err_0.status == (
        if group is None {
            404u16
        } else {
            500u16
        }),
        r is Ok ==> {
            &&& kept_of(sent, own_id@, message_id@, envelope@, now)
            &&& sent.message.recipient_id@ == "*"@
            &&& r->Ok_0.recipient_id@ == "*"@
            &&& sent.message.message_kind@ == "friend_group"@
            &&& sent.message.body->0@ == req.body@
            &&& sent.message.group_id is Some
            &&& sent.message.group_id->0@ == req.group_id@
            &&& sent.message.reply_to is None
            &&& r->Ok_0.sealing is ForGroup
            &&& r->Ok_0.sealing->group_id@ == req.group_id@
            &&& r->Ok_0.sealing->group_key@ == group->0.group_key@
            &&& r->Ok_0.body@ == req.body@
        },
{
}

/// A reply is kept under the message that it answers and goes where that message went: to everybody
/// in the clear, or to the same group under its key. Nothing else can be answered.
pub proof fn law_reply_goes_where_the_message_went(
    req: ReplyRequest,
    parent_id: String,
    parent: Option<MessageRow>,
    group: Option<GroupRow>,
    r: Result<Draft, ApiError>,
    own_id: String,
    message_id: String,
    envelope: String,
    now: u64,
    sent: SentMessage,
)
    requires
        call_ensures(reply, (&req, &parent_id, &parent, &group), r),
        r is Ok ==> call_ensures(
            sent_message,
            (&r->Ok_0, &own_id, &message_id, envelope, now),
            sent,
        ),
    ensures
        r is Ok <==> (!blank(req.body@) || req.attachments@.len() > 0) && parent is Some && (
        parent->0.message_kind@ == "public"@ || (parent->0.message_kind@ == "friend_group"@
            && parent->0.group_id is Some && group is Some && group->0.group_key@.len() == 32)),
        parent is None && (!blank(req.body@) || req.attachments@.len() > 0) ==> r->Err_0.status
            == 404,
        r is Ok ==> {
            &&& kept_of(sent, own_id@, message_id@, envelope@, now)
            &&& sent.message.recipient_id@ == "*"@
            &&& r->Ok_0.recipient_id@ == "*"@
            &&& sent.message.message_kind@ == parent->0.message_kind@
            &&& sent.message.body->0@ == req.body@
            &&& opt_text(sent.message.group_id) == opt_text(parent->0.group_id)
            &&& sent.message.reply_to is Some
            &&& sent.message.reply_to->0@ == parent_id@
            &&& parent->0.message_kind@ == "public"@ ==> r->Ok_0.sealing is Plain
            &&& parent->0.message_kind@ == "friend_group"@ ==> r->Ok_0.sealing is ForGroup
                && r->Ok_0.sealing->group_id@ == parent->0.group_id->0@
                && r->Ok_0.sealing->group_key@ == group->0.group_key@
        },
{
    lemma_kinds_differ();
}

proof fn lemma_kinds_differ()
    ensures
        "public"@ != "friend_group"@,
        "direct"@ != "public"@,
        "direct"@ != "friend_group"@,
{
    reveal_strlit("public");
    reveal_strlit("friend_group");
    reveal_strlit("direct");
    assert("direct"@[0] == 'd');
    assert("public"@[0] == 'p');
}

/// The group that a reply is sealed for is the group of the message that it answers.
pub proof fn law_reply_asks_for_the_group_of_the_message(
    parent: Option<MessageRow>,
    r: Option<&String>,
)
    requires
        call_ensures(reply_group, (&parent,), r),
    ensures
        r is Some <==> parent is Some && parent->0.message_kind@ == "friend_group"@
            && parent->0.group_id is Some,
        r is Some ==> r->0@ == parent->0.group_id->0@,
{
}

/// The attachments of a message are linked to it in the order in which they were given.
pub proof fn law_attachments_are_linked_in_order(
    message_id: String,
    attachments: Vec<SendAttachmentRef>,
    r: Vec<MessageAttachmentRow>,
    i: int,
)
    requires
        call_ensures(attachment_links, (&message_id, &attachments), r),
        0 <= i < attachments@.len() <= u32::MAX,
    ensures
        r@.len() == attachments@.len(),
        r@[i].message_id@ == message_id@,
        r@[i].content_hash@ == attachments@[i].content_hash@,
        opt_text(r@[i].filename) == opt_text(attachments@[i].filename),
        r@[i].position == i,
{
    let row = r@[i];
    assert(row == r@[i]);
}

/// Votes, and nothing else, are reactions to messages that are known; a reaction is kept with who
/// reacted, to what and how.
pub proof fn law_only_votes_are_reactions(
    req: ReactRequest,
    known: bool,
    r: Result<(), ApiError>,
    own_id: String,
    reaction_id: String,
    target_id: String,
    now: u64,
    row: ReactionRow,
)
    requires
        call_ensures(react, (&req, known), r),
        call_ensures(reaction_row, (&req, &own_id, &reaction_id, &target_id, now), row),
    ensures
        r is Ok <==> known && (req.reaction@ == "upvote"@ || req.reaction@ == "downvote"@),
        r is Err ==> r->Err_0.status == (if req.reaction@ == "upvote"@ || req.reaction@
            == "downvote"@ {
            404u16
        } else {
            400u16
        }),
        row.message_id@ == reaction_id@,
        row.target_id@ == target_id@,
        row.sender_id@ == own_id@,
        row.reaction@ == req.reaction@,
        row.timestamp == now,
{
}

/// What is not there cannot be taken back or marked; what is there can, and browsers are told which
/// message was read.
pub proof fn law_what_is_there_can_be_marked(
    there: bool,
    id: String,
    a: Result<(), ApiError>,
    b: Result<WsEvent, ApiError>,
    c: Result<(), ApiError>,
)
    requires
        call_ensures(reaction_removed, (there,), a),
        call_ensures(message_marked_read, (there, &id), b),
        call_ensures(notification_marked_read, (there,), c),
    ensures
        a is Ok <==> there,
        b is Ok <==> there,
        c is Ok <==> there,
        there ==> b->Ok_0 is MessageRead && b->Ok_0->MessageRead_message_id@ == id@,
        !there ==> a->Err_0.status == 404 && b->Err_0.status == 404 && c->Err_0.status == 404,
{
}

/// A page holds as many rows as are asked for, or the usual number, but never more than the most.
pub proof fn law_page_is_no_longer_than_allowed(asked: Option<u32>, usual: u32, most: u32, r: u32)
    requires
        call_ensures(page_size, (asked, usual, most), r),
    ensures
        r <= most,
        asked is Some && asked->0 <= most ==> r == asked->0,
        asked is Some && asked->0 > most ==> r == most,
        asked is None && usual <= most ==> r == usual,
{
}

// ---------------------------------------------------------------------------
// Friendship
// ---------------------------------------------------------------------------

/// Friendship between two peers. The first asks; the other gets the request with the keys that it
/// announces, and accepts. Each then holds the keys that the other announced for itself, each key
/// for its purpose: a message that the second drafts to the first is sealed for the first's key for
/// encryption, and the answer tells the first the keys of the second.
pub proof fn law_friends_hold_each_others_keys(
    req: SendFriendRequestPayload,
    first: StoredKeypair,
    was_friend: bool,
    existing: Option<FriendRequestRow>,
    now: u64,
    plan: FriendRequestPlan,
    incoming: FriendRequestRow,
    second: StoredKeypair,
    outgoing: Option<FriendRequestRow>,
    later: u64,
    accepted: AcceptPlan,
    message: SendDirectRequest,
    draft: Draft,
)
    requires
        call_ensures(
            send_friend_request,
            (&req, &first, was_friend, &existing, now),
            Ok::<FriendRequestPlan, ApiError>(plan),
        ),
        plan.meta.message is FriendRequest,
        incoming.from_peer_id@ == plan.meta.message->FriendRequest_peer_id@,
        incoming.from_signing_key@ == plan.meta.message->FriendRequest_signing_public_key@,
        incoming.from_encryption_key@ == plan.meta.message->FriendRequest_encryption_public_key@,
        call_ensures(
            accept_friend_request,
            (&Some(incoming), &second, &outgoing, later),
            Ok::<AcceptPlan, ApiError>(accepted),
        ),
        call_ensures(
            send_direct,
            (&message, &Some(accepted.peer)),
            Ok::<Draft, ApiError>(draft),
        ),
    ensures
        plan.meta.sender_id@ == first.id@,
        plan.meta.recipient_id@ == trimmed(req.peer_id@),
        plan.meta.timestamp == now,
        plan.meta.ttl_seconds == 3600,
        opt_text(plan.meta.message->FriendRequest_message) == opt_text(req.message),
        accepted.peer.peer_id@ == first.id@,
        accepted.peer.signing_public_key@ == first.signing_public_key_hex@,
        accepted.peer.encryption_public_key is Some,
        accepted.peer.encryption_public_key->0@ == first.public_key_hex@,
        accepted.peer.is_friend && !accepted.peer.is_blocked && !accepted.peer.is_muted,
        accepted.peer.added_at == later,
        accepted.peer.last_seen_online == Some(later) && !accepted.peer.online,
        draft.sealing is ForPeer && draft.sealing->encryption_key@ == first.public_key_hex@,
        accepted.meta.sender_id@ == second.id@,
        accepted.meta.recipient_id@ == first.id@,
        accepted.meta.timestamp == later,
        accepted.meta.ttl_seconds == 3600,
        accepted.meta.message is FriendAccept,
        accepted.meta.message->FriendAccept_peer_id@ == second.id@,
        accepted.meta.message->FriendAccept_signing_public_key@ == second.signing_public_key_hex@,
        accepted.meta.message->FriendAccept_encryption_public_key@ == second.public_key_hex@,
{
}

/// The friend whose request is accepted is kept under the keys that the request carried, each for
/// its purpose, whatever they are.
pub proof fn law_accepted_friend_has_the_keys_of_the_request(
    fr: Option<FriendRequestRow>,
    own: StoredKeypair,
    outgoing: Option<FriendRequestRow>,
    now: u64,
    r: Result<AcceptPlan, ApiError>,
)
    requires
        call_ensures(accept_friend_request, (&fr, &own, &outgoing, now), r),
    ensures
        r is Ok <==> fr is Some && fr->0.status@ == "pending"@ && fr->0.direction@ == "incoming"@,
        r is Err ==> r->Err_0.status == (if fr is None {
            404u16
        } else {
            400u16
        }),
        r is Ok ==> {
            let p = r->Ok_0.peer;
            &&& p.peer_id@ == fr->0.from_peer_id@
            &&& p.signing_public_key@ == fr->0.from_signing_key@
            &&& p.encryption_public_key is Some
            &&& p.encryption_public_key->0@ == fr->0.from_encryption_key@
            &&& p.display_name is None
            &&& p.is_friend
            &&& r->Ok_0.settle is Some <==> outgoing is Some && outgoing->0.status@ == "pending"@
            &&& r->Ok_0.settle is Some ==> r->Ok_0.settle->0 == outgoing->0.id
            &&& r->Ok_0.meta.recipient_id@ == fr->0.from_peer_id@
        },
{
}

/// A request for friendship is kept as the local peer's own, awaiting an answer, with the keys that
/// it announces; a request that is asked again stays the same request. It is not made to oneself,
/// to a friend, or where an answer is awaited already, unless that is wanted.
pub proof fn law_friend_request_is_kept_as_it_was_sent(
    req: SendFriendRequestPayload,
    own: StoredKeypair,
    is_friend: bool,
    existing: Option<FriendRequestRow>,
    now: u64,
    r: Result<FriendRequestPlan, ApiError>,
)
    requires
        call_ensures(send_friend_request, (&req, &own, is_friend, &existing, now), r),
    ensures
        r is Ok <==> !blank(req.peer_id@) && trimmed(req.peer_id@) != own.id@ && !is_friend && (
        req.force || !(existing is Some && existing->0.status@ == "pending"@)),
        r is Err ==> r->Err_0.status == (if blank(req.peer_id@) || trimmed(req.peer_id@)
            == own.id@ {
            400u16
        } else {
            409u16
        }),
        r is Ok ==> {
            let row = r->Ok_0.row;
            &&& row.from_peer_id@ == own.id@
            &&& row.to_peer_id@ == trimmed(req.peer_id@)
            &&& row.status@ == "pending"@
            &&& row.direction@ == "outgoing"@
            &&& opt_text(row.message) == opt_text(req.message)
            &&& row.from_signing_key@ == own.signing_public_key_hex@
            &&& row.from_encryption_key@ == own.public_key_hex@
            &&& row.created_at == now && row.updated_at == now
            &&& existing is Some ==> row.id == existing->0.id && r->Ok_0.refresh == Some(
                existing->0.id,
            )
            &&& existing is None ==> r->Ok_0.refresh is None
            &&& r->Ok_0.meta.message is FriendRequest
            &&& r->Ok_0.meta.message->FriendRequest_peer_id@ == own.id@
            &&& r->Ok_0.meta.message->FriendRequest_signing_public_key@ == row.from_signing_key@
            &&& r->Ok_0.meta.message->FriendRequest_encryption_public_key@
                == row.from_encryption_key@
        },
{
}

/// A request can be ignored as long as it awaits an answer, and its sender be blocked at any time,
/// but only where the request came in.
pub proof fn law_requests_can_be_ignored_and_blocked(
    fr: Option<FriendRequestRow>,
    ignored: Result<(), ApiError>,
    blocked: Result<(), ApiError>,
)
    requires
        call_ensures(ignore_friend_request, (&fr,), ignored),
        call_ensures(block_friend_request, (&fr,), blocked),
    ensures
        ignored is Ok <==> fr is Some && fr->0.status@ == "pending"@,
        blocked is Ok <==> fr is Some && fr->0.direction@ == "incoming"@,
        fr is None ==> ignored->Err_0.status == 404 && blocked->Err_0.status == 404,
        fr is Some && ignored is Err ==> ignored->Err_0.status == 400 && ignored->Err_0.message@
            == "friend request is already "@ + fr->0.status@,
        fr is Some && blocked is Err ==> blocked->Err_0.status == 400,
{
}

// ---------------------------------------------------------------------------
// Peers
// ---------------------------------------------------------------------------

/// A peer that is added is a friend from now on, under the id, the name and the keys that were
/// given, each key for its purpose; keys have 32 bytes in hexadecimal.
pub proof fn law_added_peer_has_the_keys_given(
    req: AddPeerRequest,
    now: u64,
    r: Result<PeerRow, ApiError>,
)
    requires
        call_ensures(add_peer, (&req, now), r),
    ensures
        r is Ok ==> {
            let p = r->Ok_0;
            &&& p.peer_id@ == req.peer_id@
            &&& opt_text(p.display_name) == opt_text(req.display_name)
            &&& p.signing_public_key@ == req.signing_public_key@
            &&& opt_text(p.encryption_public_key) == opt_text(req.encryption_public_key)
            &&& p.added_at == now
            &&& p.is_friend && !p.is_blocked && !p.is_muted && !p.online
            &&& p.last_seen_online is None && p.last_profile_requested_at is None
            &&& hex_bytes(p.signing_public_key@) is Some
            &&& hex_bytes(p.signing_public_key@)->0.len() == 32
            &&& p.encryption_public_key is Some && !blank(p.encryption_public_key->0@)
                ==> hex_bytes(p.encryption_public_key->0@) is Some && hex_bytes(
                p.encryption_public_key->0@,
            )->0.len() == 32
        },
        r is Err ==> r->Err_0.status == 400,
        !blank(req.peer_id@) && !blank(req.signing_public_key@) && hex_bytes(
            req.signing_public_key@,
        ) is Some && hex_bytes(req.signing_public_key@)->0.len() == 32
            && req.encryption_public_key is None ==> r is Ok,
        blank(req.peer_id@) || blank(req.signing_public_key@) ==> r is Err,
{
}

/// Somebody who is not known yet is entered by id alone, as no friend, and asked for a profile; of
/// somebody who is known a profile is asked where the key or the profile is not, or where it was
/// never asked for.
pub proof fn law_unknown_peers_are_asked_for_their_profile(
    peer_id: &str,
    known: Option<PeerRow>,
    has_profile: bool,
    now: u64,
    r: PeerVisit,
)
    requires
        call_ensures(visit_peer, (peer_id, &known, has_profile, now), r),
    ensures
        r.placeholder is Some <==> known is None,
        known is None ==> {
            let p = r.placeholder->0;
            &&& r.request_profile
            &&& p.peer_id@ == peer_id@
            &&& !p.is_friend && !p.online && !p.is_blocked && !p.is_muted
            &&& p.signing_public_key@.len() == 0 && p.encryption_public_key is None
            &&& p.display_name is None && p.added_at == now
        },
        known is Some ==> (r.request_profile <==> known->0.signing_public_key@.len() == 0
            || known->0.last_profile_requested_at is None || !has_profile),
{
}

/// A profile is asked of the peer whose it is, by the local peer, where there is a relay.
pub proof fn law_profile_is_asked_of_its_peer(
    peer_id: String,
    own_id: String,
    relay_url: Option<String>,
    now: u64,
    r: Result<MetaToSend, ApiError>,
)
    requires
        call_ensures(request_profile, (&peer_id, &own_id, &relay_url, now), r),
    ensures
        r is Ok <==> relay_url is Some,
        r is Err ==> r->Err_0.status == 400,
        r is Ok ==> {
            &&& r->Ok_0.sender_id@ == own_id@
            &&& r->Ok_0.recipient_id@ == peer_id@
            &&& r->Ok_0.timestamp == now && r->Ok_0.ttl_seconds == 3600
            &&& r->Ok_0.message is ProfileRequest
            &&& r->Ok_0.message->ProfileRequest_peer_id@ == own_id@
            &&& r->Ok_0.message->for_peer_id@ == peer_id@
        },
{
}

/// Friends are not forgotten, and nobody who is not known is; anybody else can be.
pub proof fn law_friends_are_not_forgotten(
    peer: Option<PeerRow>,
    r: Result<(), ApiError>,
    found: bool,
    f: Result<(), ApiError>,
)
    requires
        call_ensures(forget_peer, (&peer,), r),
        call_ensures(peer_found, (found,), f),
    ensures
        r is Ok <==> peer is Some && !peer->0.is_friend,
        r is Err ==> r->Err_0.status == (if peer is None {
            404u16
        } else {
            400u16
        }),
        f is Ok <==> found,
        f is Err ==> f->Err_0.status == 404,
{
}

/// A known peer is asked for friendship with the keys of the one who asks, unless it is oneself, a
/// friend already, or still has to answer.
pub proof fn law_known_peer_is_asked_for_friendship(
    peer_id: String,
    own: StoredKeypair,
    peer: Option<PeerRow>,
    existing: Option<FriendRequestRow>,
    now: u64,
    r: Result<FriendRequestPlan, ApiError>,
)
    requires
        call_ensures(peer_friend_request, (&peer_id, &own, &peer, &existing, now), r),
    ensures
        r is Ok <==> peer_id@ != own.id@ && peer is Some && !peer->0.is_friend && !(existing is Some
            && existing->0.status@ == "pending"@),
        r is Err ==> r->Err_0.status == (if peer_id@ == own.id@ {
            400u16
        } else if peer is None {
            404u16
        } else {
            409u16
        }),
        r is Ok ==> {
            let row = r->Ok_0.row;
            &&& row.from_peer_id@ == own.id@ && row.to_peer_id@ == peer_id@
            &&& row.status@ == "pending"@ && row.direction@ == "outgoing"@
            &&& row.message is None
            &&& row.from_signing_key@ == own.signing_public_key_hex@
            &&& row.from_encryption_key@ == own.public_key_hex@
            &&& row.created_at == now && row.updated_at == now
            &&& existing is Some ==> row.id == existing->0.id && r->Ok_0.refresh == Some(
                existing->0.id,
            )
            &&& existing is None ==> r->Ok_0.refresh is None
            &&& r->Ok_0.meta.sender_id@ == own.id@ && r->Ok_0.meta.recipient_id@ == peer_id@
            &&& r->Ok_0.meta.message is FriendRequest
            &&& r->Ok_0.meta.message->FriendRequest_peer_id@ == own.id@
            &&& r->Ok_0.meta.message->FriendRequest_signing_public_key@
                == own.signing_public_key_hex@
            &&& r->Ok_0.meta.message->FriendRequest_encryption_public_key@ == own.public_key_hex@
        },
{
}

/// A key is good where it is hexadecimal and has the length that it is to have; its bytes are what
/// it stands for.
pub proof fn law_keys_are_hexadecimal(
    key: &str,
    length: usize,
    field: &str,
    r: Result<(), String>,
    b: Option<Vec<u8>>,
)
    requires
        call_ensures(validate_hex_key, (key, length, field), r),
        call_ensures(key_bytes, (key,), b),
    ensures
        r is Ok <==> b is Some && b->0@.len() == length,
        b is None ==> r->Err_0@ == field@ + " is not valid hex"@,
        b is Some && b->0@.len() != length ==> r->Err_0@ == field@ + " must be "@ + decimal(
            length as nat,
        ) + " bytes"@,
{
}

// ---------------------------------------------------------------------------
// Groups
// ---------------------------------------------------------------------------

proof fn lemma_without(list: Seq<Seq<char>>, who: Seq<char>, keep: spec_fn(Seq<char>) -> bool)
    requires
        forall|p: Seq<char>| #[trigger] keep(p) == (p != who),
    ensures
        without(list, who) == list.filter(keep),
    decreases list.len(),
{
    reveal(Seq::filter);
    if list.len() > 0 {
        lemma_without(list.drop_last(), who, keep);
    } else {
        assert(list.filter(keep) =~= Seq::empty());
    }
}

/// A group that is founded goes by its name, has its founder as its creator and only member, and
/// the key that was drawn for it in its first version; everybody else on the list is invited to it
/// by the founder, in order.
pub proof fn law_group_is_founded(
    req: CreateGroupRequest,
    own_id: String,
    key: Vec<u8>,
    now: u64,
    r: Result<GroupPlan, ApiError>,
)
    requires
        call_ensures(plan_group, (&req, &own_id, key, now), r),
    ensures
        r is Ok <==> !blank(req.group_id@),
        r is Err ==> r->Err_0.status == 400,
        r is Ok ==> {
            let g = r->Ok_0;
            let others = req.member_ids@.map_values(|s: String| s@).filter(
                |p: Seq<char>| p != own_id@,
            );
            &&& g.group.group_id@ == req.group_id@
            &&& g.group.group_key@ == key@
            &&& g.group.creator_id@ == own_id@
            &&& g.group.created_at == now && g.group.key_version == 1
            &&& g.founder.group_id@ == req.group_id@
            &&& g.founder.peer_id@ == own_id@
            &&& g.founder.joined_at == now
            &&& g.invites@.len() == others.len()
            &&& forall|i: int|
                0 <= i < others.len() ==> invites(
                    #[trigger] g.invites@[i],
                    req.group_id@,
                    own_id@,
                    others[i],
                    opt_text(req.message),
                    now,
                )
        },
{
    if r is Ok {
        let members = texts(req.member_ids@);
        assert(members =~= req.member_ids@.map_values(|s: String| s@));
        lemma_without(members, own_id@, |p: Seq<char>| p != own_id@);
        let g = r->Ok_0;
        let others = without(members, own_id@);
        assert(others == req.member_ids@.map_values(|s: String| s@).filter(
            |p: Seq<char>| p != own_id@,
        ));
        assert(founds(g, req, own_id, key@, now));
        assert forall|i: int| 0 <= i < others.len() implies invites(
            #[trigger] g.invites@[i],
            req.group_id@,
            own_id@,
            others[i],
            opt_text(req.message),
            now,
        ) by {
            let row = g.invites@[i];
        }
    }
}

/// Whether a row is an open invitation of one peer to another.
pub open spec fn invites(
    row: GroupInviteRow,
    group: Seq<char>,
    from: Seq<char>,
    to: Seq<char>,
    message: Option<Seq<char>>,
    now: u64,
) -> bool {
    &&& row.group_id@ == group
    &&& row.from_peer_id@ == from
    &&& row.to_peer_id@ == to
    &&& row.status@ == "pending"@
    &&& row.direction@ == "outgoing"@
    &&& opt_text(row.message) == message
    &&& row.created_at == now
    &&& row.updated_at == now
}

/// Somebody is invited to a group that is known, if they are known; the invitation that goes out
/// names the group and the one who invites, and goes to the one invited.
pub proof fn law_invitation_goes_to_the_one_invited(
    req: AddGroupMemberRequest,
    group_id: String,
    own_id: String,
    group_known: bool,
    peer_known: bool,
    now: u64,
    r: Result<GroupInviteRow, ApiError>,
    meta: MetaToSend,
)
    requires
        call_ensures(
            add_group_member,
            (&req, &group_id, &own_id, group_known, peer_known, now),
            r,
        ),
        r is Ok ==> call_ensures(invite_meta, (&r->Ok_0,), meta),
    ensures
        r is Ok <==> !blank(req.peer_id@) && group_known && peer_known,
        r is Err ==> r->Err_0.status == (if blank(req.peer_id@) {
            400u16
        } else {
            404u16
        }),
        r is Ok ==> {
            &&& invites(r->Ok_0, group_id@, own_id@, req.peer_id@, opt_text(req.message), now)
            &&& meta.sender_id@ == own_id@
            &&& meta.recipient_id@ == req.peer_id@
            &&& meta.timestamp == now && meta.ttl_seconds == 3600
            &&& meta.message is GroupInvite
            &&& meta.message->GroupInvite_peer_id@ == own_id@
            &&& meta.message->GroupInvite_group_id@ == group_id@
            &&& opt_text(meta.message->GroupInvite_message) == opt_text(req.message)
        },
{
}

/// An invitation is answered once, and only where it came in; whoever accepts tells the one who
/// invited, by the group.
pub proof fn law_invitation_is_answered(
    inv: Option<GroupInviteRow>,
    own_id: String,
    now: u64,
    accepted: Result<MetaToSend, ApiError>,
    ignored: Result<(), ApiError>,
)
    requires
        call_ensures(accept_group_invite, (&inv, &own_id, now), accepted),
        call_ensures(ignore_group_invite, (&inv,), ignored),
    ensures
        accepted is Ok <==> inv is Some && inv->0.status@ == "pending"@ && inv->0.direction@
            == "incoming"@,
        ignored is Ok <==> accepted is Ok,
        accepted is Err ==> accepted->Err_0.status == (if inv is None {
            404u16
        } else {
            400u16
        }),
        accepted is Ok ==> {
            let m = accepted->Ok_0;
            &&& m.sender_id@ == own_id@
            &&& m.recipient_id@ == inv->0.from_peer_id@
            &&& m.timestamp == now
            &&& m.message is GroupInviteAccept
            &&& m.message->GroupInviteAccept_peer_id@ == own_id@
            &&& m.message->GroupInviteAccept_group_id@ == inv->0.group_id@
        },
{
}

/// What is answered about a group that was founded: it, its creator as its only member, those who
/// are invited, and those whom the invitation did not reach, if there are any.
pub proof fn law_founding_is_answered(
    group: GroupRow,
    recorded: Vec<String>,
    failed: Vec<String>,
    r: GroupCreated,
    there: bool,
    removed: Result<(), ApiError>,
    left: Result<(), ApiError>,
)
    requires
        call_ensures(group_created, (&group, &recorded, &failed), r),
        call_ensures(member_removed, (there,), removed),
        call_ensures(group_left, (there,), left),
    ensures
        r.group_id@ == group.group_id@,
        r.creator_id@ == group.creator_id@,
        r.created_at == group.created_at,
        r.key_version == group.key_version,
        r.members@.len() == 1 && r.members@[0]@ == group.creator_id@,
        r.pending_invites@ == recorded@,
        r.invite_failed is Some <==> failed@.len() > 0,
        r.invite_failed is Some ==> r.invite_failed->0@ == failed@,
        removed is Ok <==> there,
        left is Ok <==> there,
{
}

/// Those who have yet to answer for a group are those invited to that group, in order.
pub proof fn law_pending_are_those_of_the_group(
    group_id: &str,
    all: Vec<GroupInviteRow>,
    r: Vec<String>,
    i: int,
)
    requires
        call_ensures(pending_invitees, (group_id, &all), r),
        0 <= i < all@.len(),
    ensures
        all@[i].group_id@ == group_id@ ==> r@.contains(all@[i].to_peer_id),
        r@.len() <= all@.len(),
{
    let p = |x: GroupInviteRow| x.group_id@ == group_id@;
    let f = all@.filter(p);
    all@.lemma_filter_len(p);
    if all@[i].group_id@ == group_id@ {
        all@.lemma_filter_contains(p, i);
        let k = choose|k: int| 0 <= k < f.len() && f[k] == all@[i];
        assert(r@[k] == all@[i].to_peer_id);
    }
}

// ---------------------------------------------------------------------------
// Profiles
// ---------------------------------------------------------------------------

/// A profile that is changed is kept, answered and sent as it was changed: to friends with what only
/// friends see, each under its own key, and to everybody without.
pub proof fn law_profile_is_kept_and_sent_as_changed(
    req: UpdateProfileRequest,
    own_id: String,
    avatar: Option<AttachmentRow>,
    peers: Vec<PeerRow>,
    now: u64,
    r: ProfileUpdate,
    i: int,
)
    requires
        call_ensures(update_own_profile, (&req, &own_id, &avatar, &peers, now), r),
        0 <= i < peers@.len(),
        json_compacted(req.public_fields@) is Some,
        json_compacted(req.friends_fields@) is Some,
    ensures
        r.row.user_id@ == own_id@ && r.public.user_id@ == own_id@ && r.friends.user_id@ == own_id@
            && r.reply.user_id@ == own_id@,
        opt_text(r.row.display_name) == opt_text(req.display_name),
        opt_text(r.row.bio) == opt_text(req.bio),
        opt_text(r.row.avatar_hash) == opt_text(req.avatar_hash),
        opt_text(r.public.display_name) == opt_text(req.display_name),
        opt_text(r.public.bio) == opt_text(req.bio),
        opt_text(r.public.avatar_hash) == opt_text(req.avatar_hash),
        opt_text(r.friends.display_name) == opt_text(req.display_name),
        opt_text(r.friends.bio) == opt_text(req.bio),
        opt_text(r.friends.avatar_hash) == opt_text(req.avatar_hash),
        r.row.public_fields@ == json_compacted(req.public_fields@)->0,
        r.row.friends_fields@ == json_compacted(req.friends_fields@)->0,
        r.public.public_fields@ == r.row.public_fields@,
        r.friends.public_fields@ == r.row.public_fields@,
        r.public.friends_fields is None,
        r.friends.friends_fields is Some && r.friends.friends_fields->0@ == r.row.friends_fields@,
        r.reply.public_fields@ == r.row.public_fields@,
        r.reply.friends_fields is Some && r.reply.friends_fields->0@ == r.row.friends_fields@,
        r.row.updated_at == now && r.public.updated_at == now && r.friends.updated_at == now
            && r.reply.updated_at == now,
        avatar is Some ==> r.public.avatar_data is Some && r.public.avatar_data->0@ == base64_of(
            avatar->0.data@,
        ) && r.public.avatar_content_type is Some && r.public.avatar_content_type->0@
            == avatar->0.content_type@,
        avatar is None ==> r.public.avatar_data is None && r.friends.avatar_data is None,
        peers@[i].is_friend && peers@[i].encryption_public_key is Some ==> exists|k: int|
            0 <= k < r.to@.len() && (#[trigger] r.to@[k]).peer_id@ == peers@[i].peer_id@
                && r.to@[k].encryption_key@ == peers@[i].encryption_public_key->0@,
{
    let p = |q: PeerRow| reachable_friend(q);
    if peers@[i].is_friend && peers@[i].encryption_public_key is Some {
        peers@.lemma_filter_contains(p, i);
        let f = peers@.filter(p);
        let k = choose|k: int| 0 <= k < f.len() && f[k] == peers@[i];
        assert(r.to@[k].peer_id@ == peers@[i].peer_id@);
    }
}

/// Nobody who is no friend is sent what only friends see.
pub proof fn law_profile_is_sent_to_friends_only(peers: Vec<PeerRow>, r: Vec<FriendKey>, k: int)
    requires
        call_ensures(friends_to_tell, (&peers,), r),
        0 <= k < r@.len(),
    ensures
        exists|i: int|
            0 <= i < peers@.len() && (#[trigger] peers@[i]).is_friend && peers@[i].peer_id@
                == r@[k].peer_id@ && peers@[i].encryption_public_key is Some
                && peers@[i].encryption_public_key->0@ == r@[k].encryption_key@,
{
    let p = |q: PeerRow| reachable_friend(q);
    let f = peers@.filter(p);
    peers@.lemma_filter_pred(p, k);
    let q = f[k];
    assert(f.contains(q));
    peers@.lemma_filter_contains_rev(p, q);
    let i = choose|i: int| 0 <= i < peers@.len() && peers@[i] == q;
    assert(peers@[i].is_friend);
}

/// A profile is shown as it is kept: to its owner with everything, and of others what only friends
/// see only where they are friends.
pub proof fn law_profile_is_shown_as_kept(
    own_id: &str,
    own: Option<ProfileRow>,
    mine: ProfileReply,
    peer_id: &str,
    peer: Option<PeerRow>,
    profile: Option<ProfileRow>,
    theirs: ProfileReply,
)
    requires
        call_ensures(get_own_profile, (own_id, &own), mine),
        call_ensures(get_peer_profile, (peer_id, &peer, &profile), theirs),
    ensures
        mine.friends_fields is Some,
        own is Some ==> mine.user_id@ == own->0.user_id@ && opt_text(mine.display_name) == opt_text(
            own->0.display_name,
        ) && opt_text(mine.bio) == opt_text(own->0.bio) && opt_text(mine.avatar_hash) == opt_text(
            own->0.avatar_hash,
        ) && mine.updated_at == own->0.updated_at,
        own is Some && json_compacted(own->0.friends_fields@) is Some
            ==> mine.friends_fields->0@ == json_compacted(own->0.friends_fields@)->0,
        own is None ==> mine.user_id@ == own_id@ && mine.display_name is None && mine.bio is None
            && mine.avatar_hash is None && mine.public_fields@ == "{}"@
            && mine.friends_fields->0@ == "{}"@ && mine.updated_at == 0,
        profile is Some ==> theirs.user_id@ == profile->0.user_id@ && opt_text(theirs.display_name)
            == opt_text(profile->0.display_name) && opt_text(theirs.bio) == opt_text(profile->0.bio)
            && opt_text(theirs.avatar_hash) == opt_text(profile->0.avatar_hash)
            && theirs.updated_at == profile->0.updated_at,
        profile is Some && json_compacted(profile->0.public_fields@) is Some
            ==> theirs.public_fields@ == json_compacted(profile->0.public_fields@)->0,
        theirs.friends_fields is Some <==> profile is Some && peer is Some && peer->0.is_friend,
        profile is None ==> theirs.user_id@ == peer_id@ && theirs.display_name is None
            && theirs.bio is None && theirs.avatar_hash is None && theirs.public_fields@ == "{}"@
            && theirs.updated_at == 0,
{
}

// ---------------------------------------------------------------------------
// Attachments
// ---------------------------------------------------------------------------

/// A file of less than 256 KiB travels in the message and is kept whole; a larger one goes to the
/// relay and is kept without its data, and cannot go without a relay. It goes by its hash, has the
/// size that it has, and is not empty.
pub proof fn law_small_files_travel_in_the_message(
    file: Option<Vec<u8>>,
    content_type: Option<String>,
    relay_url: Option<String>,
    r: Result<AcceptedAttachment, ApiError>,
    data: Vec<u8>,
    now: u64,
    row: AttachmentRow,
)
    requires
        call_ensures(accept_upload, (&file, &content_type, &relay_url), r),
        file is Some,
        data@ == file->0@,
        r is Ok ==> call_ensures(attachment_row, (&r->Ok_0, data, now), row),
    ensures
        r is Ok <==> file->0@.len() > 0 && (file->0@.len() < 262_144 || relay_url is Some),
        r is Err ==> r->Err_0.status == (if file->0@.len() == 0 {
            400u16
        } else {
            503u16
        }),
        r is Ok ==> {
            &&& row.content_hash@ == base64_of(sha256_of(file->0@))
            &&& row.size_bytes == file->0@.len()
            &&& row.created_at == now
            &&& content_type is Some ==> row.content_type@ == content_type->0@
            &&& content_type is None ==> row.content_type@ == "application/octet-stream"@
            &&& file->0@.len() < 262_144 ==> row.data@ == file->0@ && r->Ok_0.transport is Inline
            &&& file->0@.len() >= 262_144 ==> row.data@.len() == 0 && r->Ok_0.transport is RelayBlob
                && r->Ok_0.transport->relay_url@ == relay_url->0@
        },
{
}

/// A file that went to the relay can be put together from what is kept of it: its manifest gives
/// back the key, the names of the chunks in order, and the size; what is fetched is kept under the
/// same name and type.
pub proof fn law_manifest_gives_back_the_key(
    accepted: AcceptedAttachment,
    relay_url: String,
    key: Vec<u8>,
    names: Vec<String>,
    now: u64,
    m: BlobManifestRow,
    start: Result<BlobAssembly, BlobError>,
)
    requires
        call_ensures(blob_manifest, (&accepted, &relay_url, &key, &names, now), m),
        key@.len() == 32,
        call_ensures(BlobAssembly::start, (&m,), start),
    ensures
        m.content_hash@ == accepted.content_hash@,
        m.relay_url@ == relay_url@,
        m.chunk_hashes@ == names@,
        m.total_size == accepted.size_bytes,
        m.created_at == now,
        base64_bytes(m.blob_key@) == Some(key@),
        start is Ok,
        start->Ok_0@.key == key@,
        start->Ok_0@.names == names@.map_values(|s: String| s@),
        start->Ok_0@.total_size == accepted.size_bytes,
        start->Ok_0@.plain.len() == 0 && start->Ok_0@.taken == 0,
{
}

/// A sealed file is made of chunks of 256 KiB, the last perhaps smaller, which go by the hash of
/// what is sealed and open, under the key, to the file again, one after the other.
pub proof fn law_chunks_open_to_the_file(
    data: Vec<u8>,
    key: Vec<u8>,
    chunks: Vec<SealedChunk>,
    i: int,
)
    requires
        call_ensures(seal_blob, (&data, &key), chunks),
        0 <= i < chunks@.len(),
    ensures
        ({
            let start = i * 262_144;
            let end = if start + 262_144 <= data@.len() {
                start + 262_144
            } else {
                data@.len() as int
            };
            let nonce = sha256_of(
                key@ + vstd::bytes::spec_u64_to_le_bytes(i as u64),
            ).take(12);
            &&& chunks@[i].name@ == hex_of(sha256_of(chunks@[i].data@))
            &&& opened(key@, nonce, chunks@[i].data@) == Some(data@.subrange(start, end))
            &&& (chunks@.len() - 1) * 262_144 < data@.len() <= chunks@.len() * 262_144
        }),
{
    let c = chunks@[i];
    let n = chunks@.len() as int;
    let len = data@.len() as int;
    assert((n - 1) * 262_144 < len <= n * 262_144) by {
        assert(n == (len + 262_144 - 1) / 262_144);
    }
}

/// A chunk is uploaded to the relay under its own name, in base64, by the one who sends it, and is
/// found there under that name.
pub proof fn law_chunk_is_uploaded_under_its_name(
    relay_url: &str,
    chunk: SealedChunk,
    sender: Option<String>,
    u: ChunkUpload,
    name: &str,
    url: String,
    status: u16,
    ok: bool,
)
    requires
        call_ensures(chunk_upload, (relay_url, &chunk, &sender), u),
        call_ensures(chunk_url, (relay_url, name), url),
        call_ensures(upload_succeeded, (status,), ok),
    ensures
        u.chunk_hash@ == chunk.name@,
        base64_bytes(u.data_b64@) == Some(chunk.data@),
        opt_text(u.sender_id) == opt_text(sender),
        url@ == u.url@ + "/"@ + name@,
        !(relay_url@.len() > 0 && relay_url@.last() == '/') ==> u.url@ == relay_url@ + "/blobs"@,
        ok <==> status == 200 || status == 201 || status == 409,
{
    let base = stripped_end(relay_url@, '/');
    reveal_strlit("/blobs");
    reveal_strlit("/blobs/");
    reveal_strlit("/");
    assert("/blobs/"@ =~= "/blobs"@ + "/"@);
    assert(base + "/blobs/"@ + name@ =~= base + "/blobs"@ + "/"@ + name@);
}

/// A file is accepted up to 50 MiB. It is served from what is kept where it is there or cannot be
/// found elsewhere, and fetched otherwise.
pub proof fn law_files_are_served_or_fetched(
    size: u64,
    s: Result<(), ApiError>,
    kept: Option<AttachmentRow>,
    has_manifest: bool,
    r: Result<DownloadPlan, ApiError>,
)
    requires
        call_ensures(check_size, (size,), s),
        call_ensures(plan_download, (&kept, has_manifest), r),
    ensures
        s is Ok <==> size <= 50 * 1024 * 1024,
        s is Err ==> s->Err_0.status == 413,
        r is Ok <==> kept is Some,
        r is Err ==> r->Err_0.status == 404,
        r is Ok ==> (r->Ok_0 == DownloadPlan::Serve <==> kept->0.data@.len() > 0 || !has_manifest),
{
}

/// What came from a relay is kept with its data, and otherwise as it was.
pub proof fn law_fetched_file_is_kept_with_its_data(
    kept: AttachmentRow,
    data: Vec<u8>,
    r: AttachmentRow,
)
    requires
        call_ensures(hydrated_row, (&kept, data), r),
    ensures
        r.data@ == data@,
        r.content_hash@ == kept.content_hash@,
        r.content_type@ == kept.content_type@,
        r.size_bytes == kept.size_bytes,
        r.created_at == kept.created_at,
{
}

/// A chunk is taken in only under its own name and where it opens under the key; it goes behind what
/// is there. The whole is handed over only where it has the size and the hash that it is to have.
pub proof fn law_file_is_put_together_only_of_its_chunks(
    a: AssemblyView,
    boxed: Seq<u8>,
    content_hash: Seq<char>,
    content_type: Seq<char>,
)
    requires
        0 <= a.taken < a.names.len(),
    ensures
        ({
            let r = chunk_taken(a, boxed);
            &&& r is Ok ==> hex_of(sha256_of(boxed)) == a.names[a.taken]
            &&& r is Ok ==> r->Ok_0.taken == a.taken + 1 && a.plain.is_prefix_of(r->Ok_0.plain)
                && r->Ok_0.key == a.key && r->Ok_0.names == a.names && r->Ok_0.total_size
                == a.total_size
            &&& r is Ok ==> opened(
                a.key,
                sha256_of(a.key + vstd::bytes::spec_u64_to_le_bytes(a.taken as u64)).take(12),
                boxed,
            ) == Some(r->Ok_0.plain.skip(a.plain.len() as int))
            &&& hex_of(sha256_of(boxed)) != a.names[a.taken] ==> r
                == Err::<AssemblyView, BlobError>(
                BlobError::ChunkHash,
            )
            &&& assembly_fault(a, content_hash, content_type) is None <==> a.plain.len()
                == a.total_size && base64_of(sha256_of(a.plain)) == content_hash && !blank(
                content_type,
            )
        }),
{
    let r = chunk_taken(a, boxed);
    if r is Ok {
        let p = opened(a.key, chunk_nonce(a.key, a.taken as u64), boxed)->0;
        assert((a.plain + p).skip(a.plain.len() as int) =~= p);
    }
}

// ---------------------------------------------------------------------------
// The client itself
// ---------------------------------------------------------------------------

/// The client tells who it is and how it is doing; browsers are told when the relay is reached again
/// and whenever it is not.
pub proof fn law_client_tells_how_it_is_doing(
    own: StoredKeypair,
    relay_url: Option<String>,
    connected: bool,
    peers: usize,
    messages: usize,
    h: Health,
    reached: bool,
    e: Option<WsEvent>,
)
    requires
        call_ensures(health, (&own, &relay_url, connected, peers, messages), h),
        call_ensures(relay_status, (reached, connected, &relay_url), e),
    ensures
        h.peer_id@ == own.id@,
        h.encryption_public_key@ == own.public_key_hex@,
        relay_url is Some ==> h.relay@ == relay_url->0@,
        relay_url is None ==> h.relay@ == "none"@,
        h.relay_connected == connected,
        h.peers == peers,
        h.has_messages <==> messages > 0,
        e is None <==> reached && connected,
        e is Some ==> e->0 is RelayStatus && e->0->connected == reached
            && e->0->RelayStatus_relay_url
            == relay_url,
{
}

/// Up to eight browsers are connected at a time. Each is told of events, of how many it has missed,
/// and gets its pings answered; it is let go when it has gone or nothing more will come.
pub proof fn law_browsers_are_told(
    connected: usize,
    r: Result<(), ApiError>,
    i: SocketInput,
    o: SocketOutput,
)
    requires
        call_ensures(check_connections, (connected,), r),
        call_ensures(socket_step, (i,), o),
    ensures
        r is Ok <==> connected < 8,
        r is Err ==> r->Err_0.status == 503,
        o == SocketOutput::TellEvent <==> i == SocketInput::Event,
        o is TellMissed <==> i is Lagged,
        i is Lagged ==> o->TellMissed_0 == i->Lagged_0,
        o == SocketOutput::Pong <==> i == SocketInput::Ping,
        o == SocketOutput::Close <==> i == SocketInput::NoMoreEvents || i == SocketInput::Gone,
{
}

/// The QR code of a peer is of the address that names it and its key for encryption; where it cannot
/// be drawn, that is answered.
pub proof fn law_qr_code_names_peer_and_key(own: StoredKeypair, r: Result<String, ApiError>)
    requires
        call_ensures(qr_code, (&own,), r),
    ensures
        ({
            let drawn = crate::codec::qr_picture(
                "tenet://peer/"@ + own.id@ + "?key="@ + own.public_key_hex@,
                200,
                true,
            );
            &&& r is Ok <==> drawn is Ok
            &&& r is Ok ==> r->Ok_0@ == drawn->Ok_0
            &&& r is Err ==> r->Err_0.status == 500 && r->Err_0.message@ == drawn->Err_0
        }),
{
}

/// Settings for locations are those that were given.
pub proof fn law_locations_are_set_as_given(req: UpdateGeoSettingsRequest, r: GeoSettings)
    requires
        call_ensures(updated_geo_settings, (&req,), r),
    ensures
        r.default_precision == req.default_precision,
        opt_text(r.country_code) == opt_text(req.country_code),
        opt_text(r.region) == opt_text(req.region),
        opt_text(r.city) == opt_text(req.city),
        opt_text(r.geohash) == opt_text(req.geohash),
{
}

/// What is given on the command line counts before what the environment says, and that before what
/// is usual.
pub proof fn law_command_line_counts_first(cli: Cli, env: Environment, r: Config)
    requires
        call_ensures(Config::from_cli_and_env, (&cli, &env), r),
    ensures
        cli.bind is Some ==> r.bind_addr@ == cli.bind->0@,
        cli.bind is None && env.bind is Some ==> r.bind_addr@ == env.bind->0@,
        cli.bind is None && env.bind is None ==> r.bind_addr@ == "127.0.0.1:3000"@,
        cli.data_dir is Some ==> r.data_dir@ == cli.data_dir->0@,
        cli.data_dir is None && env.tenet_home is Some ==> r.data_dir@ == env.tenet_home->0@,
        cli.data_dir is None && env.tenet_home is None && env.home is None ==> r.data_dir@
            == ".tenet"@,
        cli.relay_url is Some ==> opt_text(r.relay_url) == Some(cli.relay_url->0@),
        cli.relay_url is None ==> opt_text(r.relay_url) == opt_text(env.relay_url),
        cli.identity is Some ==> opt_text(r.identity) == Some(cli.identity->0@),
        cli.identity is None ==> opt_text(r.identity) == opt_text(env.identity),
{
}

/// The relay that is configured counts before the one that was used.
pub proof fn law_configured_relay_counts_first(
    configured: Option<String>,
    stored: Option<String>,
    r: Option<String>,
)
    requires
        call_ensures(effective_relay, (&configured, &stored), r),
    ensures
        configured is Some ==> opt_text(r) == Some(configured->0@),
        configured is None ==> opt_text(r) == opt_text(stored),
{
}

/// The limits and times of the client.
pub proof fn law_client_limits()
    ensures
        SYNC_INTERVAL_SECS == 30,
        DEFAULT_MESH_WINDOW_SECS == 2 * 3600,
        MESH_QUERY_INTERVAL_SECS == 600,
        WS_CHANNEL_CAPACITY == 256,
        MAX_WS_CONNECTIONS == 8,
        INLINE_THRESHOLD == 256 * 1024,
        CHUNK_SIZE == 256 * 1024,
        MAX_ATTACHMENT_SIZE == 50 * 1024 * 1024,
        DEFAULT_TTL_SECONDS == 3600,
{
}

} // verus!
