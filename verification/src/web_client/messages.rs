//! Sending messages, replies and reactions, and listing what there is.
use vstd::prelude::*;
use vstd::string::*;

use crate::protocol::kind_name;
use crate::protocol::message_kind_to_str;
use crate::protocol::MessageKind;
use crate::storage::rows::GroupRow;
use crate::storage::rows::MessageAttachmentRow;
use crate::storage::rows::MessageRow;
use crate::storage::rows::MessageView;
use crate::storage::rows::OutboxRow;
use crate::storage::rows::PeerRow;
use crate::storage::rows::ReactionRow;
use crate::text::blank;
use crate::text::copy_opt;
use crate::text::is_blank;
use crate::text::opt_text;
use crate::text::same;
use crate::web_client::api::api_error;
use crate::web_client::api::refusal;
use crate::web_client::api::refused_as;
use crate::web_client::api::ApiError;
use crate::web_client::api::ErrorView;
use crate::web_client::api::BAD_REQUEST;
use crate::web_client::api::INTERNAL_ERROR;
use crate::web_client::api::NOT_FOUND;
use crate::web_client::config::DEFAULT_TTL_SECONDS;
use crate::web_client::state::WsEvent;

verus! {

/// Which messages are listed.
#[derive(Debug)]
pub struct ListMessagesQuery {
    pub kind: Option<String>,
    pub group: Option<String>,
    pub before: Option<u64>,
    pub limit: Option<u32>,
}

/// Which messages of a conversation are listed.
#[derive(Debug)]
pub struct ConversationQuery {
    pub before: Option<u64>,
    pub limit: Option<u32>,
}

/// Which replies are listed.
#[derive(Debug)]
pub struct ListRepliesQuery {
    pub before: Option<u64>,
    pub limit: Option<u32>,
}

/// Which notifications are listed.
#[derive(Debug)]
pub struct ListNotificationsQuery {
    pub unread: Option<bool>,
    pub limit: Option<u32>,
}

/// An attachment that a message is to carry.
#[derive(Debug)]
pub struct SendAttachmentRef {
    pub content_hash: String,
    pub filename: Option<String>,
}

/// A message to one peer.
#[derive(Debug)]
pub struct SendDirectRequest {
    pub recipient_id: String,
    pub body: String,
    pub attachments: Vec<SendAttachmentRef>,
}

/// A message to everybody.
#[derive(Debug)]
pub struct SendPublicRequest {
    pub body: String,
    pub attachments: Vec<SendAttachmentRef>,
}

/// A message to a group.
#[derive(Debug)]
pub struct SendGroupRequest {
    pub group_id: String,
    pub body: String,
    pub attachments: Vec<SendAttachmentRef>,
}

/// A reply to a message.
#[derive(Debug)]
pub struct ReplyRequest {
    pub body: String,
    pub attachments: Vec<SendAttachmentRef>,
}

/// A reaction to a message.
#[derive(Debug)]
pub struct ReactRequest {
    pub reaction: String,
}

// ---------------------------------------------------------------------------
// Drafts
// ---------------------------------------------------------------------------

/// How the body of a message is sealed.
#[derive(Debug)]
pub enum Sealing {
    /// It travels in the clear.
    Plain,
    /// For one recipient, under its key.
    ForPeer { encryption_key: String },
    /// For a group, under the group's key.
    ForGroup { group_id: String, group_key: Vec<u8> },
}

/// A message that is to be sealed and sent.
#[derive(Debug)]
pub struct Draft {
    pub recipient_id: String,
    pub message_kind: MessageKind,
    /// The group that the message is kept under.
    pub group_id: Option<String>,
    pub reply_to: Option<String>,
    pub sealing: Sealing,
    pub body: String,
}

/// Whether a message says nothing: its body is blank and nothing is attached.
pub open spec fn says_nothing(body: Seq<char>, attachments: Seq<SendAttachmentRef>) -> bool {
    blank(body) && attachments.len() == 0
}

/// Whether a message would say nothing.
pub fn is_silent(body: &String, attachments: &Vec<SendAttachmentRef>) -> (r: bool)
    ensures
        r == says_nothing(body@, attachments@),
{
    is_blank(body.as_str()) && attachments.len() == 0
}

fn copy_bytes(v: &Vec<u8>) -> (r: Vec<u8>)
    ensures
        r@ == v@,
{
    let mut out: Vec<u8> = Vec::new();
    out.extend_from_slice(v.as_slice());
    assert(out@ =~= v@);
    out
}

/// Drafts a message to one peer, which must be known, and whose key for encryption must be.
pub fn send_direct(req: &SendDirectRequest, peer: &Option<PeerRow>) -> (r: Result<Draft, ApiError>)
    ensures
        if says_nothing(req.body@, req.attachments@) {
            refused_as(r, refusal(BAD_REQUEST, "body or attachments required"@))
        } else {
            match peer {
                None => refused_as(r, refusal(NOT_FOUND, "recipient peer not found"@)),
                Some(p) => match p.encryption_public_key {
                    None => refused_as(
                        r,
                        refusal(
                            BAD_REQUEST,
                            "recipient has no encryption key; cannot send encrypted message"@,
                        ),
                    ),
                    Some(k) => r == Ok::<Draft, ApiError>(
                        Draft {
                            recipient_id: req.recipient_id,
                            message_kind: MessageKind::Direct,
                            group_id: None,
                            reply_to: None,
                            sealing: Sealing::ForPeer { encryption_key: k },
                            body: req.body,
                        },
                    ),
                },
            }
        },
{
    if is_silent(&req.body, &req.attachments) {
        return Err(api_error(BAD_REQUEST, "body or attachments required"));
    }
    let peer = match peer {
        Some(p) => p,
        None => {
            return Err(api_error(NOT_FOUND, "recipient peer not found"));
        },
    };
    match &peer.encryption_public_key {
        None => Err(
            api_error(
                BAD_REQUEST,
                "recipient has no encryption key; cannot send encrypted message",
            ),
        ),
        Some(k) => Ok(
            Draft {
                recipient_id: req.recipient_id.clone(),
                message_kind: MessageKind::Direct,
                group_id: None,
                reply_to: None,
                sealing: Sealing::ForPeer { encryption_key: k.clone() },
                body: req.body.clone(),
            },
        ),
    }
}

/// Whether a draft is for everybody, in the clear.
pub open spec fn is_public_draft(
    d: Draft,
    body: String,
    group_id: Option<String>,
    reply_to: Option<String>,
) -> bool {
    &&& d.recipient_id@ == "*"@
    &&& d.message_kind == MessageKind::Public
    &&& d.group_id == group_id
    &&& d.reply_to == reply_to
    &&& d.sealing is Plain
    &&& d.body == body
}

/// Whether a draft is for a group, under its key.
pub open spec fn is_group_draft(
    d: Draft,
    body: String,
    group_id: String,
    key: Seq<u8>,
    reply_to: Option<String>,
) -> bool {
    &&& d.recipient_id@ == "*"@
    &&& d.message_kind == MessageKind::FriendGroup
    &&& d.group_id == Some(group_id)
    &&& d.reply_to == reply_to
    &&& d.sealing matches Sealing::ForGroup { group_id: g, group_key: k } && g == group_id && k@
        == key
    &&& d.body == body
}

/// Drafts a message to everybody.
pub fn send_public(req: &SendPublicRequest) -> (r: Result<Draft, ApiError>)
    ensures
        if says_nothing(req.body@, req.attachments@) {
            refused_as(r, refusal(BAD_REQUEST, "body or attachments required"@))
        } else {
            r is Ok && is_public_draft(r->Ok_0, req.body, None, None)
        },
{
    if is_silent(&req.body, &req.attachments) {
        return Err(api_error(BAD_REQUEST, "body or attachments required"));
    }
    Ok(
        Draft {
            recipient_id: "*".to_owned(),
            message_kind: MessageKind::Public,
            group_id: None,
            reply_to: None,
            sealing: Sealing::Plain,
            body: req.body.clone(),
        },
    )
}

/// What is wrong with a group that a message is for, if anything is: it must be known, and its
/// key must have 32 bytes.
pub open spec fn group_fault(group: Option<GroupRow>) -> Option<ErrorView> {
    match group {
        None => Some(refusal(NOT_FOUND, "group not found"@)),
        Some(g) => if g.group_key@.len() != 32 {
            Some(refusal(INTERNAL_ERROR, "invalid group key"@))
        } else {
            None
        },
    }
}

fn draft_for_group(
    group_id: &String,
    group: &Option<GroupRow>,
    body: &String,
    reply_to: Option<String>,
) -> (r: Result<Draft, ApiError>)
    ensures
        match group_fault(*group) {
            Some(e) => refused_as(r, e),
            None => r is Ok && is_group_draft(
                r->Ok_0,
                *body,
                *group_id,
                group->0.group_key@,
                reply_to,
            ),
        },
{
    let group = match group {
        Some(g) => g,
        None => {
            return Err(api_error(NOT_FOUND, "group not found"));
        },
    };
    if group.group_key.len() != 32 {
        return Err(api_error(INTERNAL_ERROR, "invalid group key"));
    }
    Ok(
        Draft {
            recipient_id: "*".to_owned(),
            message_kind: MessageKind::FriendGroup,
            group_id: Some(group_id.clone()),
            reply_to,
            sealing: Sealing::ForGroup {
                group_id: group_id.clone(),
                group_key: copy_bytes(&group.group_key),
            },
            body: body.clone(),
        },
    )
}

/// Drafts a message to a group.
pub fn send_group(req: &SendGroupRequest, group: &Option<GroupRow>) -> (r: Result<Draft, ApiError>)
    ensures
        if says_nothing(req.body@, req.attachments@) {
            refused_as(r, refusal(BAD_REQUEST, "body cannot be empty"@))
        } else {
            match group_fault(*group) {
                Some(e) => refused_as(r, e),
                None => r is Ok && is_group_draft(
                    r->Ok_0,
                    req.body,
                    req.group_id,
                    group->0.group_key@,
                    None,
                ),
            }
        },
{
    if is_silent(&req.body, &req.attachments) {
        return Err(api_error(BAD_REQUEST, "body cannot be empty"));
    }
    draft_for_group(&req.group_id, group, &req.body, None)
}

/// The group whose key a reply needs, if it needs one.
pub fn reply_group(parent: &Option<MessageRow>) -> (r: Option<&String>)
    ensures
        match parent {
            Some(p) if p.message_kind@ == "friend_group"@ => match p.group_id {
                Some(g) => r == Some(&g),
                None => r is None,
            },
            _ => r is None,
        },
{
    match parent {
        Some(p) => if same(p.message_kind.as_str(), "friend_group") {
            match &p.group_id {
                Some(g) => Some(g),
                None => None,
            }
        } else {
            None
        },
        None => None,
    }
}

/// Drafts a reply: to a public message for everybody, to a group message for the group. Other
/// messages have no replies. `group` is the group of the message that is answered.
pub fn reply(
    req: &ReplyRequest,
    parent_id: &String,
    parent: &Option<MessageRow>,
    group: &Option<GroupRow>,
) -> (r: Result<Draft, ApiError>)
    ensures
        if says_nothing(req.body@, req.attachments@) {
            refused_as(r, refusal(BAD_REQUEST, "body or attachments required"@))
        } else {
            match parent {
                None => refused_as(r, refusal(NOT_FOUND, "parent message not found"@)),
                Some(p) => if p.message_kind@ == "friend_group"@ {
                    match p.group_id {
                        None => refused_as(
                            r,
                            refusal(BAD_REQUEST, "parent group message has no group_id"@),
                        ),
                        Some(g) => match group_fault(*group) {
                            Some(e) => refused_as(r, e),
                            None => r is Ok && is_group_draft(
                                r->Ok_0,
                                req.body,
                                g,
                                group->0.group_key@,
                                Some(*parent_id),
                            ),
                        },
                    }
                } else if p.message_kind@ == "public"@ {
                    r is Ok && is_public_draft(
                        r->Ok_0,
                        req.body,
                        p.group_id,
                        Some(*parent_id),
                    )
                } else {
                    refused_as(
                        r,
                        refusal(
                            BAD_REQUEST,
                            "replies only supported for public and group messages"@,
                        ),
                    )
                },
            }
        },
{
    if is_silent(&req.body, &req.attachments) {
        return Err(api_error(BAD_REQUEST, "body or attachments required"));
    }
    let parent = match parent {
        Some(p) => p,
        None => {
            return Err(api_error(NOT_FOUND, "parent message not found"));
        },
    };
    if same(parent.message_kind.as_str(), "friend_group") {
        return match &parent.group_id {
            None => Err(api_error(BAD_REQUEST, "parent group message has no group_id")),
            Some(g) => draft_for_group(g, group, &req.body, Some(parent_id.clone())),
        };
    }
    if same(parent.message_kind.as_str(), "public") {
        return Ok(
            Draft {
                recipient_id: "*".to_owned(),
                message_kind: MessageKind::Public,
                group_id: copy_opt(&parent.group_id),
                reply_to: Some(parent_id.clone()),
                sealing: Sealing::Plain,
                body: req.body.clone(),
            },
        );
    }
    Err(api_error(BAD_REQUEST, "replies only supported for public and group messages"))
}

// ---------------------------------------------------------------------------
// What is kept of a message that was sent
// ---------------------------------------------------------------------------

/// What is kept and told of a message that was sent.
#[derive(Debug)]
pub struct SentMessage {
    pub outbox: OutboxRow,
    pub message: MessageRow,
    pub event: WsEvent,
}

/// The row of a message that was sent: its sender has read it.
pub open spec fn sent_view(d: Draft, own_id: Seq<char>, message_id: Seq<char>, now: u64) -> MessageView {
    MessageView {
        id: message_id,
        sender: own_id,
        recipient: d.recipient_id@,
        kind: kind_name(d.message_kind),
        group: opt_text(d.group_id),
        body: Some(d.body@),
        timestamp: now,
        received_at: now,
        ttl_seconds: DEFAULT_TTL_SECONDS,
        is_read: true,
        raw: None,
        reply_to: opt_text(d.reply_to),
    }
}

/// What is kept and told of a message that was sent. `envelope` is the envelope, serialised.
pub fn sent_message(
    draft: &Draft,
    own_id: &String,
    message_id: &String,
    envelope: String,
    now: u64,
) -> (r: SentMessage)
    ensures
        r.outbox == (OutboxRow {
            message_id: *message_id,
            envelope,
            sent_at: now,
            delivered: false,
        }),
        r.message@ == sent_view(*draft, own_id@, message_id@, now),
        r.event matches WsEvent::NewMessage {
            message_id: m,
            sender_id: s,
            message_kind: k,
            body: b,
            timestamp: t,
        } && m == *message_id && s == *own_id && k@ == kind_name(draft.message_kind) && b == Some(
            draft.body,
        ) && t == now,
{
    let kind = message_kind_to_str(draft.message_kind);
    SentMessage {
        outbox: OutboxRow {
            message_id: message_id.clone(),
            envelope,
            sent_at: now,
            delivered: false,
        },
        message: MessageRow {
            message_id: message_id.clone(),
            sender_id: own_id.clone(),
            recipient_id: draft.recipient_id.clone(),
            message_kind: kind.to_owned(),
            group_id: copy_opt(&draft.group_id),
            body: Some(draft.body.clone()),
            timestamp: now,
            received_at: now,
            ttl_seconds: DEFAULT_TTL_SECONDS,
            is_read: true,
            raw_envelope: None,
            reply_to: copy_opt(&draft.reply_to),
        },
        event: WsEvent::NewMessage {
            message_id: message_id.clone(),
            sender_id: own_id.clone(),
            message_kind: kind.to_owned(),
            body: Some(draft.body.clone()),
            timestamp: now,
        },
    }
}

/// The links between a message and its attachments, in order.
pub fn attachment_links(message_id: &String, attachments: &Vec<SendAttachmentRef>) -> (r: Vec<
    MessageAttachmentRow,
>)
    requires
        attachments@.len() <= u32::MAX,
    ensures
        r@.len() == attachments@.len(),
        forall|i: int|
            0 <= i < r@.len() ==> #[trigger] r@[i] == (MessageAttachmentRow {
                message_id: *message_id,
                content_hash: attachments@[i].content_hash,
                filename: attachments@[i].filename,
                position: i as u32,
            }),
{
    let mut out: Vec<MessageAttachmentRow> = Vec::new();
    let mut i: usize = 0;
    while i < attachments.len()
        invariant
            i <= attachments@.len() <= u32::MAX,
            out@.len() == i,
            forall|k: int|
                0 <= k < i ==> #[trigger] out@[k] == (MessageAttachmentRow {
                    message_id: *message_id,
                    content_hash: attachments@[k].content_hash,
                    filename: attachments@[k].filename,
                    position: k as u32,
                }),
        decreases attachments@.len() - i,
    {
        out.push(
            MessageAttachmentRow {
                message_id: message_id.clone(),
                content_hash: attachments[i].content_hash.clone(),
                filename: copy_opt(&attachments[i].filename),
                position: i as u32,
            },
        );
        i = i + 1;
    }
    out
}

/// A reply is kept under the message that it answers, and under the same kind and group.
pub proof fn law_reply_stays_in_thread(
    d: Draft,
    parent: MessageRow,
    parent_id: String,
    body: String,
    key: Seq<u8>,
    own_id: Seq<char>,
    message_id: Seq<char>,
    now: u64,
)
    requires
        parent.message_kind@ == "public"@ ==> is_public_draft(
            d,
            body,
            parent.group_id,
            Some(parent_id),
        ),
        parent.message_kind@ == "friend_group"@ ==> parent.group_id is Some && is_group_draft(
            d,
            body,
            parent.group_id->0,
            key,
            Some(parent_id),
        ),
        parent.message_kind@ == "public"@ || parent.message_kind@ == "friend_group"@,
    ensures
        ({
            let row = sent_view(d, own_id, message_id, now);
            &&& row.reply_to == Some(parent_id@)
            &&& row.kind == parent.message_kind@
            &&& row.group == opt_text(parent.group_id)
        }),
{
}

// ---------------------------------------------------------------------------
// Reactions
// ---------------------------------------------------------------------------

/// Decides on a reaction: only votes are reactions, and only to messages that are known.
pub fn react(req: &ReactRequest, message_known: bool) -> (r: Result<(), ApiError>)
    ensures
        if req.reaction@ != "upvote"@ && req.reaction@ != "downvote"@ {
            refused_as(r, refusal(BAD_REQUEST, "reaction must be 'upvote' or 'downvote'"@))
        } else if !message_known {
            refused_as(r, refusal(NOT_FOUND, "message not found"@))
        } else {
            r is Ok
        },
{
    if !same(req.reaction.as_str(), "upvote") && !same(req.reaction.as_str(), "downvote") {
        return Err(api_error(BAD_REQUEST, "reaction must be 'upvote' or 'downvote'"));
    }
    if !message_known {
        return Err(api_error(NOT_FOUND, "message not found"));
    }
    Ok(())
}

/// The row of a reaction.
pub fn reaction_row(
    req: &ReactRequest,
    own_id: &String,
    reaction_id: &String,
    target_id: &String,
    now: u64,
) -> (r: ReactionRow)
    ensures
        r == (ReactionRow {
            message_id: *reaction_id,
            target_id: *target_id,
            sender_id: *own_id,
            reaction: req.reaction,
            timestamp: now,
        }),
{
    ReactionRow {
        message_id: reaction_id.clone(),
        target_id: target_id.clone(),
        sender_id: own_id.clone(),
        reaction: req.reaction.clone(),
        timestamp: now,
    }
}

/// The answer to taking a reaction back, given whether there was one.
pub fn reaction_removed(removed: bool) -> (r: Result<(), ApiError>)
    ensures
        if removed {
            r is Ok
        } else {
            refused_as(r, refusal(NOT_FOUND, "no reaction to remove"@))
        },
{
    if removed {
        Ok(())
    } else {
        Err(api_error(NOT_FOUND, "no reaction to remove"))
    }
}

// ---------------------------------------------------------------------------
// Reading
// ---------------------------------------------------------------------------

/// The answer to marking a message as read, given whether there is one, and what browsers are
/// told.
pub fn message_marked_read(found: bool, message_id: &String) -> (r: Result<WsEvent, ApiError>)
    ensures
        if found {
            r == Ok::<WsEvent, ApiError>(WsEvent::MessageRead { message_id: *message_id })
        } else {
            refused_as(r, refusal(NOT_FOUND, "message not found"@))
        },
{
    if found {
        Ok(WsEvent::MessageRead { message_id: message_id.clone() })
    } else {
        Err(api_error(NOT_FOUND, "message not found"))
    }
}

/// The answer to marking a notification as read, given whether there is one.
pub fn notification_marked_read(found: bool) -> (r: Result<(), ApiError>)
    ensures
        if found {
            r is Ok
        } else {
            refused_as(r, refusal(NOT_FOUND, "notification not found"@))
        },
{
    if found {
        Ok(())
    } else {
        Err(api_error(NOT_FOUND, "notification not found"))
    }
}

} // verus!
