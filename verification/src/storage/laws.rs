//! What holds of rows, queries and paths, in terms of what goes in and what comes out.
use vstd::prelude::*;

use crate::protocol::message_kind_to_str;
use crate::protocol::MessageKind;
use crate::relay_transport::envelopes_url;
use crate::relay_transport::inbox_url;
use crate::storage::migration::filled_lines;
use crate::storage::migration::migrated_peer;
use crate::storage::migration::migrated_view;
use crate::storage::migration::LegacyPeer;
use crate::storage::migration::LegacyReceivedMessage;
use crate::storage::paths::attachment_path;
use crate::storage::paths::content_type_to_ext;
use crate::storage::paths::db_path;
use crate::storage::paths::join_path;
use crate::storage::paths::resolve_data_dir;
use crate::storage::queries::from_sql_integer;
use crate::storage::queries::list_conversation_messages;
use crate::storage::queries::list_friend_requests;
use crate::storage::queries::list_group_invites;
use crate::storage::queries::list_messages;
use crate::storage::queries::list_notifications;
use crate::storage::queries::list_replies;
use crate::storage::queries::to_sql_integer;
use crate::storage::queries::values;
use crate::storage::queries::SqlQuery;
use crate::storage::queries::SqlView;
use crate::storage::rows::may_insert_identity;
use crate::storage::rows::received_row;
use crate::storage::rows::upsert_profile_if_newer;
use crate::storage::rows::IdentityRow;
use crate::storage::rows::MessageRow;
use crate::storage::rows::PeerRow;
use crate::storage::rows::ProfileRow;
use crate::storage::rows::ReceivedEnvelope;
use crate::storage::rows::StoredKeypair;
use crate::text::blank;
use crate::text::decimal;
use crate::text::opt_text;
use crate::text::stripped_end;
use crate::text::trimmed;
use crate::text::until;

verus! {

// ---------------------------------------------------------------------------
// Rows
// ---------------------------------------------------------------------------

/// An identity holds each key of the key pair that it is made of, for its purpose, and gives each
/// back.
pub proof fn law_identity_holds_each_key(
    kp: StoredKeypair,
    created_at: u64,
    row: IdentityRow,
    back: StoredKeypair,
)
    requires
        call_ensures(IdentityRow::from, (&kp, created_at), row),
        call_ensures(IdentityRow::to_stored_keypair, (&row,), back),
    ensures
        row.id@ == kp.id@,
        row.public_key@ == kp.public_key_hex@,
        row.private_key@ == kp.private_key_hex@,
        row.signing_pub@ == kp.signing_public_key_hex@,
        row.signing_priv@ == kp.signing_private_key_hex@,
        row.created_at == created_at,
        back.id@ == kp.id@,
        back.public_key_hex@ == kp.public_key_hex@,
        back.private_key_hex@ == kp.private_key_hex@,
        back.signing_public_key_hex@ == kp.signing_public_key_hex@,
        back.signing_private_key_hex@ == kp.signing_private_key_hex@,
{
}

/// A message that came in is kept as it came, from its sender to its recipient, with what was read
/// of it; it is unread, and the envelope is kept too.
pub proof fn law_received_message_is_kept_as_it_came(
    e: ReceivedEnvelope,
    body: Option<String>,
    now: u64,
    r: MessageRow,
)
    requires
        call_ensures(received_row, (&e, &body, now), r),
    ensures
        r.message_id@ == e.message_id@,
        r.sender_id@ == e.sender_id@,
        r.recipient_id@ == e.recipient_id@,
        opt_text(r.group_id) == opt_text(e.group_id),
        opt_text(r.body) == opt_text(body),
        r.timestamp == e.timestamp,
        r.received_at == now,
        r.ttl_seconds == e.ttl_seconds,
        !r.is_read,
        r.raw_envelope is Some && r.raw_envelope->0@ == e.raw@,
        r.reply_to is None,
        e.message_kind == MessageKind::Direct ==> r.message_kind@ == "direct"@,
        e.message_kind == MessageKind::Public ==> r.message_kind@ == "public"@,
        e.message_kind == MessageKind::FriendGroup ==> r.message_kind@ == "friend_group"@,
        e.message_kind == MessageKind::Meta ==> r.message_kind@ == "meta"@,
        e.message_kind == MessageKind::StoreForPeer ==> r.message_kind@ == "store_for_peer"@,
{
}

/// Different kinds of message are kept under different names.
pub proof fn law_kinds_have_names_of_their_own(
    a: MessageKind,
    b: MessageKind,
    x: &'static str,
    y: &'static str,
)
    requires
        call_ensures(message_kind_to_str, (a,), x),
        call_ensures(message_kind_to_str, (b,), y),
    ensures
        x@ == y@ <==> a == b,
        a == MessageKind::Direct ==> x@ == "direct"@,
        a == MessageKind::Public ==> x@ == "public"@,
        a == MessageKind::FriendGroup ==> x@ == "friend_group"@,
        a == MessageKind::Meta ==> x@ == "meta"@,
        a == MessageKind::StoreForPeer ==> x@ == "store_for_peer"@,
{
    reveal_strlit("direct");
    reveal_strlit("public");
    reveal_strlit("friend_group");
    reveal_strlit("meta");
    reveal_strlit("store_for_peer");
    assert("direct"@[0] == 'd' && "public"@[0] == 'p');
    assert("friend_group"@.len() == 12 && "meta"@.len() == 4 && "store_for_peer"@.len() == 14);
}

/// There is at most one identity, and a profile gives way to one that is not older.
pub proof fn law_one_identity_and_the_newest_profile(
    existing: Option<IdentityRow>,
    may: bool,
    profile: Option<ProfileRow>,
    row: ProfileRow,
    takes: bool,
)
    requires
        call_ensures(may_insert_identity, (&existing,), may),
        call_ensures(upsert_profile_if_newer, (&profile, &row), takes),
    ensures
        may <==> existing is None,
        takes <==> profile is None || profile->0.updated_at <= row.updated_at,
{
}

// ---------------------------------------------------------------------------
// Older files
// ---------------------------------------------------------------------------

/// A peer of the older files becomes a friend under its id, its name and its key, which is for
/// signing; a message of the older files becomes a direct one from its sender that is unread.
pub proof fn law_older_files_are_taken_over(
    p: LegacyPeer,
    now: u64,
    r: PeerRow,
    m: LegacyReceivedMessage,
    number: nat,
)
    requires
        call_ensures(migrated_peer, (&p, now), r),
    ensures
        r.peer_id@ == p.id@,
        r.display_name is Some && r.display_name->0@ == p.name@,
        r.signing_public_key@ == p.public_key_hex@,
        r.encryption_public_key is None,
        r.added_at == now,
        r.is_friend && !r.online && !r.is_blocked && !r.is_muted,
        ({
            let v = migrated_view(m, number, now);
            &&& v.id == "migrated-inbox-"@ + decimal(number)
            &&& v.sender == m.sender_id@
            &&& v.body == Some(m.message@)
            &&& v.timestamp == m.timestamp
            &&& v.received_at == now
            &&& v.kind == "direct"@
            &&& !v.is_read
            &&& v.group is None && v.reply_to is None && v.raw is None
            &&& v.ttl_seconds == 3600
        }),
{
}

proof fn lemma_until_line(line: Seq<char>, rest: Seq<char>)
    requires
        forall|i: int| 0 <= i < line.len() ==> line[i] != '\n',
    ensures
        until(line + seq!['\n'] + rest, '\n') == line,
        until(line, '\n') == line,
    decreases line.len(),
{
    let s = line + seq!['\n'] + rest;
    if line.len() == 0 {
        assert(s[0] == '\n');
        assert(until(s, '\n') =~= line);
        assert(until(line, '\n') =~= line);
    } else {
        let tail = line.skip(1);
        assert forall|i: int| 0 <= i < tail.len() implies tail[i] != '\n' by {
            assert(tail[i] == line[i + 1]);
        }
        lemma_until_line(tail, rest);
        assert(s[0] == line[0]);
        assert(s.skip(1) =~= tail + seq!['\n'] + rest);
        assert(seq![line[0]] + tail =~= line);
    }
}

/// A text is read line by line: a line that is blank gives nothing, and any other what is left of it
/// without the white space around it.
pub proof fn law_lines_are_read_one_by_one(line: Seq<char>, rest: Seq<char>)
    requires
        forall|i: int| 0 <= i < line.len() ==> line[i] != '\n',
    ensures
        filled_lines(line + seq!['\n'] + rest) == (if blank(line) {
            Seq::empty()
        } else {
            seq![trimmed(line)]
        }) + filled_lines(rest),
        filled_lines(line) == (if blank(line) {
            Seq::empty()
        } else {
            seq![trimmed(line)]
        }),
{
    let s = line + seq!['\n'] + rest;
    lemma_until_line(line, rest);
    crate::text::lemma_trimmed_blank(line);
    assert(s.skip(line.len() as int + 1) =~= rest);
}

// ---------------------------------------------------------------------------
// Queries
// ---------------------------------------------------------------------------

/// Messages are listed newest first, of the kind and the group and before the time that are asked
/// for, where they are; what is bound stands in that order, and last how many there may be.
pub proof fn law_messages_are_listed_as_asked(
    kind: Option<&str>,
    group: Option<&str>,
    before: Option<u64>,
    limit: u32,
    r: SqlQuery,
)
    requires
        call_ensures(list_messages, (kind, group, before, limit), r),
    ensures
        ({
            let v = values(r.values@);
            let k = if kind is Some {
                1int
            } else {
                0
            };
            let g = if group is Some {
                1int
            } else {
                0
            };
            let b = if before is Some {
                1int
            } else {
                0
            };
            &&& v.len() == k + g + b + 1
            &&& kind is Some ==> v[0] == SqlView::Text(kind->0@)
            &&& group is Some ==> v[k] == SqlView::Text(group->0@)
            &&& before is Some ==> v[k + g] == SqlView::Integer(before->0 as i64)
            &&& v.last() == SqlView::Integer(limit as i64)
            &&& r.sql@
                == "SELECT message_id, sender_id, recipient_id, message_kind, group_id, body, timestamp, received_at, ttl_seconds, is_read, raw_envelope, reply_to FROM messages WHERE "@
                + "1=1"@ + (if kind is Some {
                " AND message_kind = ?"@
            } else {
                Seq::empty()
            }) + (if group is Some {
                " AND group_id = ?"@
            } else {
                Seq::empty()
            }) + (if before is Some {
                " AND timestamp < ?"@
            } else {
                Seq::empty()
            }) + " ORDER BY timestamp DESC LIMIT ?"@
        }),
{
}

/// A conversation is the direct messages between the local peer and another, in both directions,
/// newest first; the replies to a message come oldest first.
pub proof fn law_conversations_go_both_ways(
    me: &str,
    them: &str,
    parent: &str,
    before: Option<u64>,
    limit: u32,
    c: SqlQuery,
    r: SqlQuery,
)
    requires
        call_ensures(list_conversation_messages, (me, them, before, limit), c),
        call_ensures(list_replies, (parent, before, limit), r),
    ensures
        ({
            let v = values(c.values@);
            let u = values(r.values@);
            let b = if before is Some {
                1int
            } else {
                0
            };
            let earlier = if before is Some {
                " AND timestamp < ?"@
            } else {
                Seq::empty()
            };
            let from =
                "SELECT message_id, sender_id, recipient_id, message_kind, group_id, body, timestamp, received_at, ttl_seconds, is_read, raw_envelope, reply_to FROM messages WHERE "@;
            &&& v.len() == 3 + b
            &&& v[0] == SqlView::Text(me@) && v[1] == SqlView::Text(them@)
            &&& before is Some ==> v[2] == SqlView::Integer(before->0 as i64)
            &&& v.last() == SqlView::Integer(limit as i64)
            &&& c.sql@ == from
                + "message_kind = 'direct' AND ((sender_id = ?1 AND recipient_id = ?2) OR (sender_id = ?2 AND recipient_id = ?1))"@
                + earlier + " ORDER BY timestamp DESC LIMIT ?"@
            &&& u.len() == 2 + b
            &&& u[0] == SqlView::Text(parent@)
            &&& before is Some ==> u[1] == SqlView::Integer(before->0 as i64)
            &&& u.last() == SqlView::Integer(limit as i64)
            &&& r.sql@ == from + "reply_to = ?"@ + earlier + " ORDER BY timestamp ASC LIMIT ?"@
        }),
{
}

/// Friend requests and invitations are listed newest first, of the status and the direction that are
/// asked for, where they are; notifications newest first, and only those unread where that is asked.
pub proof fn law_requests_are_listed_as_asked(
    status: Option<&str>,
    direction: Option<&str>,
    unread: bool,
    limit: u32,
    f: SqlQuery,
    g: SqlQuery,
    n: SqlQuery,
)
    requires
        call_ensures(list_friend_requests, (status, direction), f),
        call_ensures(list_group_invites, (status, direction), g),
        call_ensures(list_notifications, (unread, limit), n),
    ensures
        ({
            let v = values(f.values@);
            let s = if status is Some {
                1int
            } else {
                0
            };
            let d = if direction is Some {
                1int
            } else {
                0
            };
            let which = if status is Some && direction is Some {
                " WHERE status = ?1 AND direction = ?2"@
            } else if status is Some {
                " WHERE status = ?1"@
            } else if direction is Some {
                " WHERE direction = ?1"@
            } else {
                Seq::empty()
            };
            &&& v.len() == s + d
            &&& status is Some ==> v[0] == SqlView::Text(status->0@)
            &&& direction is Some ==> v[s] == SqlView::Text(direction->0@)
            &&& values(g.values@) == v
            &&& f.sql@
                == "SELECT id, from_peer_id, to_peer_id, status, message, from_signing_key, from_encryption_key, direction, created_at, updated_at FROM friend_requests"@
                + which + " ORDER BY created_at DESC"@
            &&& g.sql@
                == "SELECT id, group_id, from_peer_id, to_peer_id, status, message, direction, created_at, updated_at FROM group_invites"@
                + which + " ORDER BY created_at DESC"@
            &&& values(n.values@).len() == 1 && values(n.values@)[0] == SqlView::Integer(
                limit as i64,
            )
            &&& n.sql@
                == "SELECT id, type, message_id, sender_id, created_at, seen, read FROM notifications"@
                + (if unread {
                " WHERE read = 0"@
            } else {
                Seq::empty()
            }) + " ORDER BY created_at DESC LIMIT ?"@
        }),
{
}

/// Numbers go into the database and come out again.
pub proof fn law_numbers_come_back(n: u64, i: i64, back: u64)
    requires
        call_ensures(to_sql_integer, (n,), i),
        call_ensures(from_sql_integer, (i,), back),
    ensures
        back == n,
        n <= i64::MAX ==> i == n,
{
    crate::storage::queries::law_sql_integers_round_trip(n);
}

// ---------------------------------------------------------------------------
// Paths
// ---------------------------------------------------------------------------

/// A name is added to a path behind exactly one slash; an absolute name stands for itself. The
/// database is in the directory of the data, and that is where the user says, or else in the home.
pub proof fn law_paths_are_joined(
    dir: &str,
    name: &str,
    r: String,
    db: String,
    tenet_home: Option<String>,
    home: Option<String>,
    data: String,
)
    requires
        call_ensures(join_path, (dir, name), r),
        call_ensures(db_path, (dir,), db),
        call_ensures(resolve_data_dir, (&tenet_home, &home), data),
    ensures
        name@.len() > 0 && name@[0] == '/' ==> r@ == name@,
        !(name@.len() > 0 && name@[0] == '/') && dir@.len() > 0 && dir@.last() == '/' ==> r@ == dir@
            + name@,
        !(name@.len() > 0 && name@[0] == '/') && dir@.len() > 0 && dir@.last() != '/' ==> r@ == dir@
            + "/"@ + name@,
        dir@.len() > 0 && dir@.last() != '/' ==> db@ == dir@ + "/"@ + "tenet.db"@,
        tenet_home is Some ==> data@ == tenet_home->0@,
        tenet_home is None && home is Some && home->0@.len() > 0 && home->0@.last() != '/' ==> data@
            == home->0@ + "/"@ + ".tenet"@,
{
    reveal_strlit("tenet.db");
    reveal_strlit(".tenet");
    assert("tenet.db"@[0] == 't');
    assert(".tenet"@[0] == '.');
}

/// The file of an attachment goes by its hash and the extension of its type, two directories down:
/// the first two characters of the hash, and the next two.
pub proof fn law_attachments_are_filed_by_hash(
    dir: &str,
    hash: &str,
    content_type: &str,
    r: String,
    ext: &'static str,
)
    requires
        call_ensures(attachment_path, (dir, hash, content_type), r),
        call_ensures(content_type_to_ext, (content_type,), ext),
        hash@.len() >= 4,
        dir@.len() > 0,
        dir@.last() != '/',
        forall|i: int| 0 <= i < hash@.len() ==> hash@[i] != '/',
    ensures
        r@ == dir@ + "/"@ + hash@.subrange(0, 2) + "/"@ + hash@.subrange(2, 4) + "/"@ + (hash@ + "."@
            + ext@),
{
    reveal_strlit("/");
    reveal_strlit(".");
    let d1 = hash@.subrange(0, 2);
    let d2 = hash@.subrange(2, 4);
    assert(d1[0] == hash@[0] && d2[0] == hash@[2]);
    assert(d1.last() == hash@[1] && d2.last() == hash@[3]);
    let a = dir@ + "/"@ + d1;
    assert(a.last() == hash@[1]);
    let b = a + "/"@ + d2;
    assert(b.last() == hash@[3]);
    let f = hash@ + "."@ + ext@;
    assert(f[0] == hash@[0]);
}

/// A hash that is too short for that has `xx` in place of what is missing.
pub proof fn law_short_hashes_are_filed_too(
    dir: &str,
    hash: &str,
    content_type: &str,
    r: String,
    ext: &'static str,
)
    requires
        call_ensures(attachment_path, (dir, hash, content_type), r),
        call_ensures(content_type_to_ext, (content_type,), ext),
        2 <= hash@.len() < 4,
        dir@.len() > 0,
        dir@.last() != '/',
        forall|i: int| 0 <= i < hash@.len() ==> hash@[i] != '/',
    ensures
        r@ == dir@ + "/"@ + hash@.subrange(0, 2) + "/"@ + "xx"@ + "/"@ + (hash@ + "."@ + ext@),
{
    reveal_strlit("/");
    reveal_strlit(".");
    reveal_strlit("xx");
    let d1 = hash@.subrange(0, 2);
    assert(d1[0] == hash@[0]);
    let a = dir@ + "/"@ + d1;
    assert(a.last() == hash@[1]);
    let b = a + "/"@ + "xx"@;
    assert(b.last() == 'x');
    let f = hash@ + "."@ + ext@;
    assert(f[0] == hash@[0]);
}

/// The type of a file says its extension, whatever stands behind it; a type that is not known has
/// none of its own.
pub proof fn law_types_have_extensions(content_type: &str, r: &'static str)
    requires
        call_ensures(content_type_to_ext, (content_type,), r),
    ensures
        ({
            let t = trimmed(until(content_type@, ';'));
            &&& t == "image/png"@ ==> r@ == "png"@
            &&& t == "image/jpeg"@ || t == "image/jpg"@ ==> r@ == "jpg"@
            &&& t == "image/gif"@ ==> r@ == "gif"@
            &&& t == "image/webp"@ ==> r@ == "webp"@
            &&& t == "image/svg+xml"@ ==> r@ == "svg"@
            &&& t == "image/bmp"@ ==> r@ == "bmp"@
            &&& t == "image/tiff"@ ==> r@ == "tiff"@
            &&& t == "application/pdf"@ ==> r@ == "pdf"@
            &&& t == "text/plain"@ ==> r@ == "txt"@
            &&& t == "text/html"@ ==> r@ == "html"@
            &&& t == "text/css"@ ==> r@ == "css"@
            &&& t == "application/json"@ ==> r@ == "json"@
            &&& t == "video/mp4"@ ==> r@ == "mp4"@
            &&& t == "video/webm"@ ==> r@ == "webm"@
            &&& t == "audio/mpeg"@ ==> r@ == "mp3"@
            &&& t == "audio/ogg"@ ==> r@ == "ogg"@
            &&& t == "audio/wav"@ ==> r@ == "wav"@
        }),
{
    lemma_types_differ();
}

proof fn lemma_types_differ()
    ensures
        "image/png"@ == seq!['i', 'm', 'a', 'g', 'e', '/', 'p', 'n', 'g'],
        "image/jpeg"@ == seq!['i', 'm', 'a', 'g', 'e', '/', 'j', 'p', 'e', 'g'],
        "image/jpg"@ == seq!['i', 'm', 'a', 'g', 'e', '/', 'j', 'p', 'g'],
        "image/gif"@ == seq!['i', 'm', 'a', 'g', 'e', '/', 'g', 'i', 'f'],
        "image/webp"@ == seq!['i', 'm', 'a', 'g', 'e', '/', 'w', 'e', 'b', 'p'],
        "image/svg+xml"@.len() == 13,
        "image/bmp"@ == seq!['i', 'm', 'a', 'g', 'e', '/', 'b', 'm', 'p'],
        "image/tiff"@ == seq!['i', 'm', 'a', 'g', 'e', '/', 't', 'i', 'f', 'f'],
        "application/pdf"@.len() == 15,
        "text/plain"@ == seq!['t', 'e', 'x', 't', '/', 'p', 'l', 'a', 'i', 'n'],
        "text/html"@ == seq!['t', 'e', 'x', 't', '/', 'h', 't', 'm', 'l'],
        "text/css"@.len() == 8,
        "application/json"@.len() == 16,
        "video/mp4"@ == seq!['v', 'i', 'd', 'e', 'o', '/', 'm', 'p', '4'],
        "video/webm"@ == seq!['v', 'i', 'd', 'e', 'o', '/', 'w', 'e', 'b', 'm'],
        "audio/mpeg"@ == seq!['a', 'u', 'd', 'i', 'o', '/', 'm', 'p', 'e', 'g'],
        "audio/ogg"@ == seq!['a', 'u', 'd', 'i', 'o', '/', 'o', 'g', 'g'],
        "audio/wav"@ == seq!['a', 'u', 'd', 'i', 'o', '/', 'w', 'a', 'v'],
{
    reveal_strlit("image/png");
    reveal_strlit("image/jpeg");
    reveal_strlit("image/jpg");
    reveal_strlit("image/gif");
    reveal_strlit("image/webp");
    reveal_strlit("image/svg+xml");
    reveal_strlit("image/bmp");
    reveal_strlit("image/tiff");
    reveal_strlit("application/pdf");
    reveal_strlit("text/plain");
    reveal_strlit("text/html");
    reveal_strlit("text/css");
    reveal_strlit("application/json");
    reveal_strlit("video/mp4");
    reveal_strlit("video/webm");
    reveal_strlit("audio/mpeg");
    reveal_strlit("audio/ogg");
    reveal_strlit("audio/wav");
}

/// A relay takes envelopes, and has the inbox of a peer, where its address says, with or without a
/// slash at its end.
pub proof fn law_relay_is_found_at_its_address(
    relay: &str,
    slashed: &str,
    peer: &str,
    e: String,
    e2: String,
    i: String,
    i2: String,
)
    requires
        call_ensures(envelopes_url, (relay,), e),
        call_ensures(envelopes_url, (slashed,), e2),
        call_ensures(inbox_url, (relay, peer), i),
        call_ensures(inbox_url, (slashed, peer), i2),
        relay@.len() > 0,
        relay@.last() != '/',
        slashed@ == relay@.push('/'),
    ensures
        e@ == relay@ + "/envelopes"@,
        i@ == relay@ + "/inbox/"@ + peer@,
        e2@ == e@,
        i2@ == i@,
{
    reveal_with_fuel(stripped_end, 3);
    assert(slashed@.drop_last() =~= relay@);
}

} // verus!
