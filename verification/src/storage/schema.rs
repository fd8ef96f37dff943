//! The tables in which a peer keeps what it knows, and the statements on them.
use vstd::prelude::*;

verus! {

/// Creates the tables that are not there yet.
pub const SCHEMA: &'static str = "
CREATE TABLE IF NOT EXISTS identity (
    id TEXT PRIMARY KEY, public_key TEXT NOT NULL, private_key TEXT NOT NULL,
    signing_pub TEXT NOT NULL, signing_priv TEXT NOT NULL, created_at INTEGER NOT NULL
);
CREATE TABLE IF NOT EXISTS peers (
    peer_id TEXT PRIMARY KEY, display_name TEXT, signing_public_key TEXT NOT NULL,
    encryption_public_key TEXT, added_at INTEGER NOT NULL,
    is_friend INTEGER NOT NULL DEFAULT 1, last_seen_online INTEGER,
    online INTEGER NOT NULL DEFAULT 0, last_profile_requested_at INTEGER,
    last_profile_responded_at INTEGER, is_blocked INTEGER NOT NULL DEFAULT 0,
    is_muted INTEGER NOT NULL DEFAULT 0, blocked_at INTEGER, muted_at INTEGER
);
CREATE TABLE IF NOT EXISTS messages (
    message_id TEXT PRIMARY KEY, sender_id TEXT NOT NULL, recipient_id TEXT NOT NULL,
    message_kind TEXT NOT NULL, group_id TEXT, body TEXT, timestamp INTEGER NOT NULL,
    received_at INTEGER NOT NULL, ttl_seconds INTEGER NOT NULL,
    is_read INTEGER NOT NULL DEFAULT 0, raw_envelope TEXT, reply_to TEXT
);
CREATE INDEX IF NOT EXISTS idx_messages_recipient ON messages(recipient_id, timestamp);
CREATE INDEX IF NOT EXISTS idx_messages_sender ON messages(sender_id, timestamp);
CREATE INDEX IF NOT EXISTS idx_messages_kind ON messages(message_kind, timestamp);
CREATE INDEX IF NOT EXISTS idx_messages_group ON messages(group_id, timestamp);
CREATE TABLE IF NOT EXISTS groups (
    group_id TEXT PRIMARY KEY, group_key BLOB NOT NULL, creator_id TEXT NOT NULL,
    created_at INTEGER NOT NULL, key_version INTEGER NOT NULL DEFAULT 1
);
CREATE TABLE IF NOT EXISTS group_members (
    group_id TEXT NOT NULL REFERENCES groups(group_id), peer_id TEXT NOT NULL,
    joined_at INTEGER NOT NULL, PRIMARY KEY (group_id, peer_id)
);
CREATE TABLE IF NOT EXISTS outbox (
    message_id TEXT PRIMARY KEY, envelope TEXT NOT NULL, sent_at INTEGER NOT NULL,
    delivered INTEGER NOT NULL DEFAULT 0
);
CREATE TABLE IF NOT EXISTS relays (
    url TEXT PRIMARY KEY, added_at INTEGER NOT NULL, last_sync INTEGER,
    enabled INTEGER NOT NULL DEFAULT 1
);
CREATE TABLE IF NOT EXISTS attachments (
    content_hash TEXT PRIMARY KEY, content_type TEXT NOT NULL, size_bytes INTEGER NOT NULL,
    created_at INTEGER NOT NULL
);
CREATE TABLE IF NOT EXISTS blob_manifests (
    content_hash TEXT PRIMARY KEY, blob_key TEXT NOT NULL, relay_url TEXT NOT NULL,
    chunk_hashes TEXT NOT NULL, total_size INTEGER NOT NULL, created_at INTEGER NOT NULL
);
CREATE TABLE IF NOT EXISTS message_attachments (
    message_id TEXT NOT NULL REFERENCES messages(message_id),
    content_hash TEXT NOT NULL REFERENCES attachments(content_hash), filename TEXT,
    position INTEGER NOT NULL DEFAULT 0, PRIMARY KEY (message_id, content_hash)
);
CREATE TABLE IF NOT EXISTS reactions (
    message_id TEXT NOT NULL, target_id TEXT NOT NULL, sender_id TEXT NOT NULL,
    reaction TEXT NOT NULL, timestamp INTEGER NOT NULL, PRIMARY KEY (target_id, sender_id)
);
CREATE TABLE IF NOT EXISTS friend_requests (
    id INTEGER PRIMARY KEY AUTOINCREMENT, from_peer_id TEXT NOT NULL, to_peer_id TEXT NOT NULL,
    status TEXT NOT NULL DEFAULT 'pending', message TEXT, from_signing_key TEXT NOT NULL,
    from_encryption_key TEXT NOT NULL, direction TEXT NOT NULL, created_at INTEGER NOT NULL,
    updated_at INTEGER NOT NULL
);
CREATE INDEX IF NOT EXISTS idx_friend_requests_to ON friend_requests(to_peer_id, status);
CREATE INDEX IF NOT EXISTS idx_friend_requests_from ON friend_requests(from_peer_id, status);
CREATE TABLE IF NOT EXISTS group_invites (
    id INTEGER PRIMARY KEY AUTOINCREMENT, group_id TEXT NOT NULL, from_peer_id TEXT NOT NULL,
    to_peer_id TEXT NOT NULL, status TEXT NOT NULL DEFAULT 'pending', message TEXT,
    direction TEXT NOT NULL, created_at INTEGER NOT NULL, updated_at INTEGER NOT NULL
);
CREATE UNIQUE INDEX IF NOT EXISTS idx_group_invites_unique
    ON group_invites(group_id, from_peer_id, to_peer_id, direction);
CREATE INDEX IF NOT EXISTS idx_group_invites_to ON group_invites(to_peer_id, status);
CREATE INDEX IF NOT EXISTS idx_group_invites_from ON group_invites(from_peer_id, status);
CREATE TABLE IF NOT EXISTS profiles (
    user_id TEXT PRIMARY KEY, display_name TEXT, bio TEXT, avatar_hash TEXT,
    public_fields TEXT NOT NULL DEFAULT '{}', friends_fields TEXT NOT NULL DEFAULT '{}',
    updated_at INTEGER NOT NULL
);
CREATE TABLE IF NOT EXISTS notifications (
    id INTEGER PRIMARY KEY AUTOINCREMENT, type TEXT NOT NULL, message_id TEXT NOT NULL,
    sender_id TEXT NOT NULL, created_at INTEGER NOT NULL, seen INTEGER NOT NULL DEFAULT 0,
    read INTEGER NOT NULL DEFAULT 0
);
CREATE INDEX IF NOT EXISTS idx_notifications_unread ON notifications(read, created_at);
";

/// Reads peers.
pub const PEER: &'static str = "SELECT peer_id, display_name, signing_public_key, encryption_public_key, \
     added_at, is_friend, last_seen_online, online, last_profile_requested_at, \
     last_profile_responded_at, is_blocked, is_muted, blocked_at, muted_at FROM peers";

/// Reads messages.
pub const MESSAGE: &'static str = "SELECT message_id, sender_id, recipient_id, message_kind, group_id, body, \
     timestamp, received_at, ttl_seconds, is_read, raw_envelope, reply_to FROM messages";

/// Reads friend requests.
pub const FRIEND_REQUEST: &'static str = "SELECT id, from_peer_id, to_peer_id, status, message, \
     from_signing_key, from_encryption_key, direction, created_at, updated_at FROM friend_requests";

/// Reads invitations to groups.
pub const GROUP_INVITE: &'static str = "SELECT id, group_id, from_peer_id, to_peer_id, status, message, \
     direction, created_at, updated_at FROM group_invites";

/// Enters an identity.
pub const PUT_IDENTITY: &'static str = "\
     INSERT INTO identity (id, public_key, private_key, signing_pub, signing_priv, \
     created_at) \
     VALUES (?1, ?2, ?3, ?4, ?5, ?6)";

/// Enters a peer, in place of what was known of it.
pub const PUT_PEER: &'static str = "\
     INSERT OR REPLACE INTO peers (peer_id, display_name, signing_public_key, \
     encryption_public_key, added_at, is_friend, last_seen_online, online, \
     last_profile_requested_at, last_profile_responded_at, is_blocked, is_muted, blocked_at, \
     muted_at) \
     VALUES (?1, ?2, ?3, ?4, ?5, ?6, ?7, ?8, ?9, ?10, ?11, ?12, ?13, ?14)";

/// Enters a message that is not there yet.
pub const PUT_MESSAGE: &'static str = "\
     INSERT OR IGNORE INTO messages (message_id, sender_id, recipient_id, message_kind, \
     group_id, body, timestamp, received_at, ttl_seconds, is_read, raw_envelope, reply_to) \
     VALUES (?1, ?2, ?3, ?4, ?5, ?6, ?7, ?8, ?9, ?10, ?11, ?12)";

/// Enters a group, in place of what was known of it.
pub const PUT_GROUP: &'static str = "\
     INSERT OR REPLACE INTO groups (group_id, group_key, creator_id, created_at, key_version) \
     VALUES (?1, ?2, ?3, ?4, ?5)";

/// Enters a member of a group that is not there yet.
pub const PUT_MEMBER: &'static str = "\
     INSERT OR IGNORE INTO group_members (group_id, peer_id, joined_at) \
     VALUES (?1, ?2, ?3)";

/// Enters an envelope that was sent.
pub const PUT_OUTBOX: &'static str = "\
     INSERT OR IGNORE INTO outbox (message_id, envelope, sent_at, delivered) \
     VALUES (?1, ?2, ?3, ?4)";

/// Enters a relay, in place of what was known of it.
pub const PUT_RELAY: &'static str = "\
     INSERT OR REPLACE INTO relays (url, added_at, last_sync, enabled) \
     VALUES (?1, ?2, ?3, ?4)";

/// Enters an attachment that is not there yet.
pub const PUT_ATTACHMENT: &'static str = "\
     INSERT OR IGNORE INTO attachments (content_hash, content_type, size_bytes, created_at) \
     VALUES (?1, ?2, ?3, ?4)";

/// Enters how a file is put together.
pub const PUT_MANIFEST: &'static str = "\
     INSERT OR REPLACE INTO blob_manifests (content_hash, blob_key, relay_url, chunk_hashes, \
     total_size, created_at) \
     VALUES (?1, ?2, ?3, ?4, ?5, ?6)";

/// Links an attachment to a message.
pub const PUT_LINK: &'static str = "\
     INSERT OR IGNORE INTO message_attachments (message_id, content_hash, filename, position) \
     VALUES (?1, ?2, ?3, ?4)";

/// Enters a reaction, in place of the sender's last.
pub const PUT_REACTION: &'static str = "\
     INSERT OR REPLACE INTO reactions (message_id, target_id, sender_id, reaction, timestamp) \
     VALUES (?1, ?2, ?3, ?4, ?5)";

/// Enters a profile, in place of the last.
pub const PUT_PROFILE: &'static str = "\
     INSERT OR REPLACE INTO profiles (user_id, display_name, bio, avatar_hash, public_fields, \
     friends_fields, updated_at) \
     VALUES (?1, ?2, ?3, ?4, ?5, ?6, ?7)";

/// Enters a friend request.
pub const PUT_REQUEST: &'static str = "\
     INSERT INTO friend_requests (from_peer_id, to_peer_id, status, message, \
     from_signing_key, from_encryption_key, direction, created_at, updated_at) \
     VALUES (?1, ?2, ?3, ?4, ?5, ?6, ?7, ?8, ?9)";

/// Enters a notification.
pub const PUT_NOTE: &'static str = "\
     INSERT INTO notifications (type, message_id, sender_id, created_at, seen, read) \
     VALUES (?1, ?2, ?3, ?4, ?5, ?6)";

/// Enters an invitation that is not there yet.
pub const PUT_INVITE: &'static str = "\
     INSERT OR IGNORE INTO group_invites (group_id, from_peer_id, to_peer_id, status, \
     message, direction, created_at, updated_at) \
     VALUES (?1, ?2, ?3, ?4, ?5, ?6, ?7, ?8)";

/// Lists the conversations of a peer, the latest first.
pub const CONVERSATIONS: &'static str = "\
     SELECT CASE WHEN sender_id = ?1 THEN recipient_id ELSE sender_id END as peer_id, \
     MAX(timestamp) as last_timestamp, (SELECT body FROM messages m2 WHERE message_kind = \
     'direct' AND ((m2.sender_id = ?1 AND m2.recipient_id = peer_id) OR (m2.sender_id = \
     peer_id AND m2.recipient_id = ?1)) ORDER BY timestamp DESC LIMIT 1) as last_message, \
     (SELECT COUNT(*) FROM messages m3 WHERE message_kind = 'direct' AND m3.sender_id = \
     peer_id AND m3.recipient_id = ?1 AND is_read = 0) as unread_count FROM messages WHERE \
     message_kind = 'direct' AND (sender_id = ?1 OR recipient_id = ?1) GROUP BY peer_id \
     ORDER BY last_timestamp DESC";

/// Asks a friend request again.
pub const REFRESH_REQUEST: &'static str = "\
     UPDATE friend_requests SET message = ?1, from_signing_key = ?2, from_encryption_key = \
     ?3, updated_at = ?4, status = 'pending' WHERE id = ?5";

/// Reads the last direct message from or to a peer.
pub const LAST_MESSAGE: &'static str = "\
     SELECT timestamp, body FROM messages WHERE message_kind = 'direct' AND (sender_id = ?1 \
     OR recipient_id = ?1) ORDER BY timestamp DESC LIMIT 1";

/// Reads the last public message of a peer.
pub const LAST_POST: &'static str = "\
     SELECT timestamp, body FROM messages WHERE message_kind = 'public' AND sender_id = ?1 \
     ORDER BY timestamp DESC LIMIT 1";

/// Unlinks the attachments of all messages from or to a peer.
pub const FORGET_LINKS: &'static str = "\
     DELETE FROM message_attachments WHERE message_id IN (SELECT message_id FROM messages \
     WHERE sender_id = ?1 OR recipient_id = ?1)";

/// Reads how a file is put together.
pub const MANIFEST: &'static str = "\
     SELECT content_hash, blob_key, relay_url, chunk_hashes, total_size, created_at FROM \
     blob_manifests WHERE content_hash = ?1";

/// Reads a profile.
pub const PROFILE: &'static str = "\
     SELECT user_id, display_name, bio, avatar_hash, public_fields, friends_fields, \
     updated_at FROM profiles WHERE user_id = ?1";

/// Lists the attachments of a message.
pub const LINKS: &'static str = "\
     SELECT message_id, content_hash, filename, position FROM message_attachments WHERE \
     message_id = ?1 ORDER BY position";

} // verus!
