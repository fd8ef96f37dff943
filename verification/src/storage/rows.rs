//! The rows of the database.
use vstd::prelude::*;
use vstd::string::*;

use crate::protocol::kind_name;
use crate::protocol::message_kind_to_str;
use crate::protocol::MessageKind;
use crate::text::copy_opt;
use crate::text::opt_text;

verus! {

/// A key pair as it is written to disk.
#[derive(Debug)]
pub struct StoredKeypair {
    pub id: String,
    pub public_key_hex: String,
    pub private_key_hex: String,
    pub signing_public_key_hex: String,
    pub signing_private_key_hex: String,
}

/// The identity of the local peer.
#[derive(Debug)]
pub struct IdentityRow {
    pub id: String,
    pub public_key: String,
    pub private_key: String,
    pub signing_pub: String,
    pub signing_priv: String,
    pub created_at: u64,
}

/// The key pair that an identity holds.
pub open spec fn keypair_of(row: IdentityRow) -> StoredKeypair {
    StoredKeypair {
        id: row.id,
        public_key_hex: row.public_key,
        private_key_hex: row.private_key,
        signing_public_key_hex: row.signing_pub,
        signing_private_key_hex: row.signing_priv,
    }
}

/// The identity that a key pair makes.
pub open spec fn identity_of(kp: StoredKeypair, created_at: u64) -> IdentityRow {
    IdentityRow {
        id: kp.id,
        public_key: kp.public_key_hex,
        private_key: kp.private_key_hex,
        signing_pub: kp.signing_public_key_hex,
        signing_priv: kp.signing_private_key_hex,
        created_at,
    }
}

impl IdentityRow {
    /// The identity that a key pair makes.
    pub fn from(kp: &StoredKeypair, created_at: u64) -> (r: Self)
        ensures
            r == identity_of(*kp, created_at),
    {
        IdentityRow {
            id: kp.id.clone(),
            public_key: kp.public_key_hex.clone(),
            private_key: kp.private_key_hex.clone(),
            signing_pub: kp.signing_public_key_hex.clone(),
            signing_priv: kp.signing_private_key_hex.clone(),
            created_at,
        }
    }

    /// The key pair that the identity holds.
    pub fn to_stored_keypair(&self) -> (r: StoredKeypair)
        ensures
            r == keypair_of(*self),
    {
        StoredKeypair {
            id: self.id.clone(),
            public_key_hex: self.public_key.clone(),
            private_key_hex: self.private_key.clone(),
            signing_public_key_hex: self.signing_pub.clone(),
            signing_private_key_hex: self.signing_priv.clone(),
        }
    }
}

/// An identity gives back the key pair that it was made of, whenever it was made.
pub proof fn law_identity_keeps_keypair(kp: StoredKeypair, created_at: u64)
    ensures
        keypair_of(identity_of(kp, created_at)) == kp,
{
}

/// A key pair gives back the identity that it was taken from.
pub proof fn law_keypair_keeps_identity(row: IdentityRow)
    ensures
        identity_of(keypair_of(row), row.created_at) == row,
{
}

/// A peer that is known.
#[derive(Debug)]
pub struct PeerRow {
    pub peer_id: String,
    pub display_name: Option<String>,
    /// Empty until it is learnt.
    pub signing_public_key: String,
    pub encryption_public_key: Option<String>,
    pub added_at: u64,
    pub is_friend: bool,
    pub last_seen_online: Option<u64>,
    pub online: bool,
    pub last_profile_requested_at: Option<u64>,
    pub last_profile_responded_at: Option<u64>,
    pub is_blocked: bool,
    pub is_muted: bool,
    pub blocked_at: Option<u64>,
    pub muted_at: Option<u64>,
}

/// A message that was sent or received.
#[derive(Debug)]
pub struct MessageRow {
    pub message_id: String,
    pub sender_id: String,
    pub recipient_id: String,
    pub message_kind: String,
    pub group_id: Option<String>,
    pub body: Option<String>,
    pub timestamp: u64,
    pub received_at: u64,
    pub ttl_seconds: u64,
    pub is_read: bool,
    pub raw_envelope: Option<String>,
    /// The message that this one replies to.
    pub reply_to: Option<String>,
}

/// A message, by name.
pub struct MessageView {
    pub id: Seq<char>,
    pub sender: Seq<char>,
    pub recipient: Seq<char>,
    pub kind: Seq<char>,
    pub group: Option<Seq<char>>,
    pub body: Option<Seq<char>>,
    pub timestamp: u64,
    pub received_at: u64,
    pub ttl_seconds: u64,
    pub is_read: bool,
    pub raw: Option<Seq<char>>,
    pub reply_to: Option<Seq<char>>,
}

impl View for MessageRow {
    type V = MessageView;

    open spec fn view(&self) -> MessageView {
        MessageView {
            id: self.message_id@,
            sender: self.sender_id@,
            recipient: self.recipient_id@,
            kind: self.message_kind@,
            group: opt_text(self.group_id),
            body: opt_text(self.body),
            timestamp: self.timestamp,
            received_at: self.received_at,
            ttl_seconds: self.ttl_seconds,
            is_read: self.is_read,
            raw: opt_text(self.raw_envelope),
            reply_to: opt_text(self.reply_to),
        }
    }
}

/// A group that the local peer is in.
#[derive(Debug)]
pub struct GroupRow {
    pub group_id: String,
    pub group_key: Vec<u8>,
    pub creator_id: String,
    pub created_at: u64,
    pub key_version: u32,
}

/// A member of a group.
#[derive(Debug)]
pub struct GroupMemberRow {
    pub group_id: String,
    pub peer_id: String,
    pub joined_at: u64,
}

/// A message on its way out.
#[derive(Debug)]
pub struct OutboxRow {
    pub message_id: String,
    pub envelope: String,
    pub sent_at: u64,
    pub delivered: bool,
}

/// A relay that is configured.
#[derive(Debug)]
pub struct RelayRow {
    pub url: String,
    pub added_at: u64,
    pub last_sync: Option<u64>,
    pub enabled: bool,
}

/// An attachment.
#[derive(Debug)]
pub struct AttachmentRow {
    pub content_hash: String,
    pub content_type: String,
    pub size_bytes: u64,
    pub data: Vec<u8>,
    pub created_at: u64,
}

/// How an attachment that went to a relay can be put together again.
#[derive(Debug)]
pub struct BlobManifestRow {
    pub content_hash: String,
    /// The key under which the chunks are sealed, in base64.
    pub blob_key: String,
    pub relay_url: String,
    pub chunk_hashes: Vec<String>,
    pub total_size: u64,
    pub created_at: u64,
}

/// An attachment of a message.
#[derive(Debug)]
pub struct MessageAttachmentRow {
    pub message_id: String,
    pub content_hash: String,
    pub filename: Option<String>,
    pub position: u32,
}

/// A conversation in the list of conversations.
#[derive(Debug)]
pub struct ConversationSummary {
    pub peer_id: String,
    pub last_timestamp: u64,
    pub last_message: Option<String>,
    pub unread_count: u32,
}

/// A reaction to a message.
#[derive(Debug)]
pub struct ReactionRow {
    pub message_id: String,
    pub target_id: String,
    pub sender_id: String,
    pub reaction: String,
    pub timestamp: u64,
}

/// The profile of a peer.
#[derive(Debug)]
pub struct ProfileRow {
    pub user_id: String,
    pub display_name: Option<String>,
    pub bio: Option<String>,
    pub avatar_hash: Option<String>,
    pub public_fields: String,
    pub friends_fields: String,
    pub updated_at: u64,
}

/// A friend request.
#[derive(Debug)]
pub struct FriendRequestRow {
    pub id: i64,
    pub from_peer_id: String,
    pub to_peer_id: String,
    /// "pending", "accepted", "ignored" or "blocked".
    pub status: String,
    pub message: Option<String>,
    pub from_signing_key: String,
    pub from_encryption_key: String,
    /// "incoming" or "outgoing", as the local peer sees it.
    pub direction: String,
    pub created_at: u64,
    pub updated_at: u64,
}

/// An invitation to a group.
#[derive(Debug)]
pub struct GroupInviteRow {
    pub id: i64,
    pub group_id: String,
    pub from_peer_id: String,
    pub to_peer_id: String,
    /// "pending", "accepted" or "ignored".
    pub status: String,
    pub message: Option<String>,
    /// "incoming" or "outgoing", as the local peer sees it.
    pub direction: String,
    pub created_at: u64,
    pub updated_at: u64,
}

/// A notification.
#[derive(Debug)]
pub struct NotificationRow {
    pub id: i64,
    /// "direct_message", "reply", "reaction", "friend_request" or "group_invite".
    pub notification_type: String,
    pub message_id: String,
    pub sender_id: String,
    pub created_at: u64,
    /// Whether the user has opened the notification panel and seen it.
    pub seen: bool,
    /// Whether the user has acted on it.
    pub read: bool,
}

// ---------------------------------------------------------------------------
// Received envelopes
// ---------------------------------------------------------------------------

/// An envelope that came in.
pub struct ReceivedEnvelope {
    pub message_id: String,
    pub sender_id: String,
    pub recipient_id: String,
    pub message_kind: MessageKind,
    pub group_id: Option<String>,
    pub timestamp: u64,
    pub ttl_seconds: u64,
    /// The envelope, serialised.
    pub raw: String,
}

/// The row under which a received envelope is kept: unread, and a reply to nothing.
pub fn received_row(envelope: &ReceivedEnvelope, decrypted_body: &Option<String>, now: u64) -> (r:
    MessageRow)
    ensures
        r@ == (MessageView {
            id: envelope.message_id@,
            sender: envelope.sender_id@,
            recipient: envelope.recipient_id@,
            kind: kind_name(envelope.message_kind),
            group: opt_text(envelope.group_id),
            body: opt_text(*decrypted_body),
            timestamp: envelope.timestamp,
            received_at: now,
            ttl_seconds: envelope.ttl_seconds,
            is_read: false,
            raw: Some(envelope.raw@),
            reply_to: None,
        }),
{
    MessageRow {
        message_id: envelope.message_id.clone(),
        sender_id: envelope.sender_id.clone(),
        recipient_id: envelope.recipient_id.clone(),
        message_kind: message_kind_to_str(envelope.message_kind).to_owned(),
        group_id: copy_opt(&envelope.group_id),
        body: copy_opt(decrypted_body),
        timestamp: envelope.timestamp,
        received_at: now,
        ttl_seconds: envelope.ttl_seconds,
        is_read: false,
        raw_envelope: Some(envelope.raw.clone()),
        reply_to: None,
    }
}

/// Whether an identity can be entered: there is at most one.
pub fn may_insert_identity(existing: &Option<IdentityRow>) -> (r: bool)
    ensures
        r == (existing is None),
{
    existing.is_none()
}

// ---------------------------------------------------------------------------
// Profiles
// ---------------------------------------------------------------------------

/// Whether a profile that comes in takes the place of the one that is there: unless that is
/// newer. One of the same time does, since it may show friends more.
pub open spec fn takes_place(existing: Option<u64>, incoming: u64) -> bool {
    match existing {
        Some(e) => e <= incoming,
        None => true,
    }
}

/// Whether a profile that comes in takes the place of the one that is there, if there is one.
pub fn upsert_profile_if_newer(existing: &Option<ProfileRow>, row: &ProfileRow) -> (r: bool)
    ensures
        r == takes_place(
            match existing {
                Some(e) => Some(e.updated_at),
                None => None,
            },
            row.updated_at,
        ),
{
    match existing {
        Some(e) => e.updated_at <= row.updated_at,
        None => true,
    }
}

/// The time of the profile that is there once another has come in.
pub open spec fn kept_time(existing: Option<u64>, incoming: u64) -> u64 {
    if takes_place(existing, incoming) {
        incoming
    } else {
        existing->0
    }
}

/// The profile that is there is never replaced by an older one, and in whatever order two
/// profiles come in, the newer stays.
pub proof fn law_newest_profile_stays(existing: Option<u64>, a: u64, b: u64)
    ensures
        existing matches Some(e) ==> kept_time(existing, a) >= e,
        kept_time(existing, a) >= a,
        kept_time(Some(kept_time(existing, a)), b) == kept_time(Some(kept_time(existing, b)), a),
{
}

/// The profiles that are there, by user, once one has come in.
pub open spec fn profiles_after(
    profiles: Map<Seq<char>, ProfileRow>,
    row: ProfileRow,
) -> Map<Seq<char>, ProfileRow> {
    let existing = if profiles.contains_key(row.user_id@) {
        Some(profiles[row.user_id@].updated_at)
    } else {
        None
    };
    if takes_place(existing, row.updated_at) {
        profiles.insert(row.user_id@, row)
    } else {
        profiles
    }
}

/// A profile that comes in is kept as it is unless a newer one of the same user is there; the
/// profiles of others stay, and no user's profile gets older.
pub proof fn law_profiles_get_no_older(
    profiles: Map<Seq<char>, ProfileRow>,
    row: ProfileRow,
    user: Seq<char>,
)
    ensures
        ({
            let after = profiles_after(profiles, row);
            let newer = profiles.contains_key(row.user_id@)
                && profiles[row.user_id@].updated_at > row.updated_at;
            &&& !newer ==> after.contains_key(row.user_id@) && after[row.user_id@] == row
            &&& newer ==> after == profiles
            &&& user != row.user_id@ ==> after.contains_key(user) == profiles.contains_key(user)
                && after[user] == profiles[user]
            &&& profiles.contains_key(user) ==> after.contains_key(user)
                && after[user].updated_at >= profiles[user].updated_at
        }),
{
}

} // verus!
