//! Rows, paths, queries and the import of old files.
use tenet::protocol::message_kind_to_str;
use tenet::protocol::MessageKind;
use tenet::storage::migration::lines_to_migrate;
use tenet::storage::migration::migrate_message;
use tenet::storage::migration::migrate_sent;
use tenet::storage::migration::migrated_peer;
use tenet::storage::migration::LegacyPeer;
use tenet::storage::migration::LegacyReceivedMessage;
use tenet::storage::migration::MigrationReport;
use tenet::storage::paths::attachment_path;
use tenet::storage::paths::content_type_to_ext;
use tenet::storage::paths::db_path;
use tenet::storage::paths::join_path;
use tenet::storage::paths::resolve_data_dir;
use tenet::storage::queries::from_sql_integer;
use tenet::storage::queries::list_conversation_messages;
use tenet::storage::queries::list_friend_requests;
use tenet::storage::queries::list_group_invites;
use tenet::storage::queries::list_messages;
use tenet::storage::queries::list_notifications;
use tenet::storage::queries::list_replies;
use tenet::storage::queries::to_sql_integer;
use tenet::storage::queries::SqlQuery;
use tenet::storage::queries::SqlValue;
use tenet::storage::rows::may_insert_identity;
use tenet::storage::rows::received_row;
use tenet::storage::rows::upsert_profile_if_newer;
use tenet::storage::rows::IdentityRow;
use tenet::storage::rows::ProfileRow;
use tenet::storage::rows::ReceivedEnvelope;
use tenet::storage::rows::StoredKeypair;

fn profile(updated_at: u64) -> ProfileRow {
    ProfileRow {
        user_id: "u".to_string(),
        display_name: None,
        bio: None,
        avatar_hash: None,
        public_fields: "{}".to_string(),
        friends_fields: "{}".to_string(),
        updated_at,
    }
}

fn placeholders(q: &SqlQuery) -> usize {
    q.sql.matches('?').count()
}

#[test]
fn test_identity_from_stored_keypair() {
    let kp = StoredKeypair {
        id: "test-id".to_string(),
        public_key_hex: "pub".to_string(),
        private_key_hex: "priv".to_string(),
        signing_public_key_hex: "spub".to_string(),
        signing_private_key_hex: "spriv".to_string(),
    };
    let row = IdentityRow::from(&kp, 1);
    assert_eq!(row.id, "test-id");

    let kp2 = row.to_stored_keypair();
    assert_eq!(kp2.id, kp.id);
    assert_eq!(kp2.public_key_hex, kp.public_key_hex);
    assert_eq!(kp2.signing_private_key_hex, kp.signing_private_key_hex);
}

#[test]
fn received_messages_become_rows() {
    let envelope = ReceivedEnvelope {
        message_id: "m".to_string(),
        sender_id: "s".to_string(),
        recipient_id: "r".to_string(),
        message_kind: MessageKind::FriendGroup,
        group_id: Some("g".to_string()),
        timestamp: 5,
        ttl_seconds: 60,
        raw: "{}".to_string(),
    };
    let row = received_row(&envelope, &Some("hi".to_string()), 9);
    assert_eq!(row.message_id, "m");
    assert_eq!(row.message_kind, "friend_group");
    assert_eq!(row.body.as_deref(), Some("hi"));
    assert_eq!(row.received_at, 9);
    assert!(!row.is_read);
    assert_eq!(row.group_id.as_deref(), Some("g"));
}

#[test]
fn kinds_have_names() {
    assert_eq!(message_kind_to_str(MessageKind::Public), "public");
    assert_eq!(message_kind_to_str(MessageKind::Meta), "meta");
    assert_eq!(message_kind_to_str(MessageKind::Direct), "direct");
    assert_eq!(message_kind_to_str(MessageKind::FriendGroup), "friend_group");
    assert_eq!(message_kind_to_str(MessageKind::StoreForPeer), "store_for_peer");
}

#[test]
fn newest_profile_stays() {
    assert!(upsert_profile_if_newer(&None, &profile(1)));
    assert!(upsert_profile_if_newer(&Some(profile(1)), &profile(2)));
    assert!(upsert_profile_if_newer(&Some(profile(2)), &profile(2)));
    assert!(!upsert_profile_if_newer(&Some(profile(3)), &profile(2)));
}

#[test]
fn paths_are_joined() {
    assert_eq!(join_path("dir", "name"), "dir/name");
    assert_eq!(db_path("/data"), "/data/tenet.db");
    assert_eq!(resolve_data_dir(&Some("/t".to_string()), &Some("/h".to_string())), "/t");
    assert_eq!(resolve_data_dir(&None, &Some("/h".to_string())), "/h/.tenet");
    assert_eq!(content_type_to_ext("image/png"), "png");
    assert_eq!(content_type_to_ext("application/x-unknown"), "bin");
    assert_eq!(attachment_path("/a", "abcdef", "image/png"), "/a/ab/cd/abcdef.png");
    assert_eq!(attachment_path("/a", "abc", "image/png"), "/a/ab/xx/abc.png");
}

#[test]
fn integers_survive_the_database() {
    for n in [0u64, 7, i64::MAX as u64, i64::MAX as u64 + 1, u64::MAX] {
        assert_eq!(from_sql_integer(to_sql_integer(n)), n);
    }
}

#[test]
fn queries_hold_one_value_per_placeholder() {
    let q = list_messages(None, None, None, 10);
    assert_eq!(placeholders(&q), q.values.len());
    assert_eq!(q.values.len(), 1);
    let q = list_messages(Some("direct"), Some("g"), Some(5), 10);
    assert_eq!(placeholders(&q), q.values.len());
    assert_eq!(q.values.len(), 4);
    assert!(q.sql.contains("message_kind = ?"));
    assert!(matches!(&q.values[0], SqlValue::Text(t) if t == "direct"));
    assert!(matches!(q.values[3], SqlValue::Integer(10)));
    let q = list_replies("p", Some(3), 4);
    assert_eq!(placeholders(&q), q.values.len());
    let q = list_friend_requests(Some("pending"), None);
    assert_eq!(placeholders(&q), 1);
    let q = list_group_invites(None, Some("incoming"));
    assert_eq!(placeholders(&q), 1);
    let q = list_notifications(true, 4);
    assert_eq!(placeholders(&q), q.values.len());
    let q = list_conversation_messages("me", "you", Some(3), 4);
    assert!(!q.values.is_empty());
}

#[test]
fn queries_run_on_a_database() {
    let db = rusqlite::Connection::open_in_memory().unwrap();
    db.execute_batch(
        "CREATE TABLE messages (message_id TEXT, sender_id TEXT, recipient_id TEXT,
            message_kind TEXT, group_id TEXT, body TEXT, timestamp INTEGER, received_at INTEGER,
            ttl_seconds INTEGER, is_read INTEGER, raw_envelope TEXT, reply_to TEXT);
         CREATE TABLE message_attachments (message_id TEXT, content_hash TEXT);
         CREATE TABLE friend_requests (id INTEGER, from_peer_id TEXT, to_peer_id TEXT,
            status TEXT, message TEXT, from_signing_key TEXT, from_encryption_key TEXT,
            direction TEXT, created_at INTEGER, updated_at INTEGER);
         CREATE TABLE group_invites (id INTEGER, group_id TEXT, from_peer_id TEXT,
            to_peer_id TEXT, status TEXT, message TEXT, direction TEXT, created_at INTEGER,
            updated_at INTEGER);
         CREATE TABLE notifications (id INTEGER, type TEXT, message_id TEXT, sender_id TEXT,
            created_at INTEGER, seen INTEGER, read INTEGER);",
    )
    .unwrap();
    let queries = vec![
        list_messages(None, None, None, 10),
        list_messages(Some("direct"), Some("g"), Some(5), 10),
        list_conversation_messages("me", "you", None, 4),
        list_conversation_messages("me", "you", Some(3), 4),
        list_replies("p", None, 4),
        list_replies("p", Some(3), 4),
        list_friend_requests(None, None),
        list_friend_requests(Some("pending"), Some("incoming")),
        list_group_invites(Some("pending"), Some("incoming")),
        list_notifications(false, 4),
        list_notifications(true, 4),
    ];
    for q in queries {
        let mut statement = match db.prepare(&q.sql) {
            Ok(s) => s,
            Err(e) => panic!("{}: {e}", q.sql),
        };
        let values: Vec<rusqlite::types::Value> = q
            .values
            .iter()
            .map(|v| match v {
                SqlValue::Text(t) => rusqlite::types::Value::Text(t.clone()),
                SqlValue::Integer(n) => rusqlite::types::Value::Integer(*n),
            })
            .collect();
        assert_eq!(statement.parameter_count(), values.len());
        let mut rows = statement.query(rusqlite::params_from_iter(values)).unwrap();
        assert!(rows.next().unwrap().is_none());
    }
}

#[test]
fn old_files_are_taken_over() {
    let mut report = MigrationReport::default();
    assert!(report.is_empty());
    let peer = LegacyPeer {
        name: "Bob".to_string(),
        id: "b".to_string(),
        public_key_hex: "aa".to_string(),
    };
    let row = migrated_peer(&peer, 9);
    assert_eq!(row.peer_id, "b");
    assert_eq!(row.display_name.as_deref(), Some("Bob"));
    assert_eq!(row.added_at, 9);
    let old = LegacyReceivedMessage {
        sender_id: "b".to_string(),
        timestamp: 4,
        message: "hi".to_string(),
    };
    let one = migrate_message(&mut report, &old, 9);
    let two = migrate_message(&mut report, &old, 9);
    assert_ne!(one.message_id, two.message_id);
    assert_eq!(one.body.as_deref(), Some("hi"));
    assert_eq!(report.inbox_migrated, 2);
    assert!(!report.is_empty());
    let sent = migrate_sent(&mut report, &"m".to_string(), &"{}".to_string(), 9);
    assert_eq!(sent.message_id, "m");
    assert_eq!(report.outbox_migrated, 1);
    assert_eq!(lines_to_migrate("a\n\n  \nb\n"), vec!["a".to_string(), "b".to_string()]);
}

#[test]
fn there_is_one_identity() {
    assert!(may_insert_identity(&None));
    let row = IdentityRow {
        id: "i".to_string(),
        public_key: "p".to_string(),
        private_key: "q".to_string(),
        signing_pub: "s".to_string(),
        signing_priv: "t".to_string(),
        created_at: 1,
    };
    assert!(!may_insert_identity(&Some(row)));
}
