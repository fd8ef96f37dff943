//! The queries that list rows, with the values that are bound to them.
use vstd::prelude::*;
use vstd::string::*;

verus! {

/// A value that is bound to a query.
#[derive(Debug)]
pub enum SqlValue {
    Text(String),
    Integer(i64),
}

/// A bound value, by what it holds.
pub enum SqlView {
    Text(Seq<char>),
    Integer(i64),
}

impl View for SqlValue {
    type V = SqlView;

    open spec fn view(&self) -> SqlView {
        match self {
            SqlValue::Text(s) => SqlView::Text(s@),
            SqlValue::Integer(n) => SqlView::Integer(*n),
        }
    }
}

pub open spec fn values(v: Seq<SqlValue>) -> Seq<SqlView> {
    v.map_values(|x: SqlValue| x@)
}

/// A query and the values that are bound to it, in order.
#[derive(Debug)]
pub struct SqlQuery {
    pub sql: String,
    pub values: Vec<SqlValue>,
}

/// A number as the database holds it.
pub fn to_sql_integer(n: u64) -> (r: i64)
    ensures
        r == n as i64,
{
    #[verifier::truncate]
    (n as i64)
}

/// A number as it was before the database held it.
pub fn from_sql_integer(n: i64) -> (r: u64)
    ensures
        r == n as u64,
{
    #[verifier::truncate]
    (n as u64)
}

/// The database gives back the number that it was given.
pub proof fn law_sql_integers_round_trip(n: u64)
    ensures
        (n as i64) as u64 == n,
{
    assert((n as i64) as u64 == n) by (bit_vector);
}

/// A text if it is wanted.
pub open spec fn when(wanted: bool, s: Seq<char>) -> Seq<char> {
    if wanted {
        s
    } else {
        Seq::empty()
    }
}

/// A bound text if there is one.
pub open spec fn maybe_text(s: Option<&str>) -> Seq<SqlView> {
    match s {
        Some(t) => seq![SqlView::Text(t@)],
        None => Seq::empty(),
    }
}

/// A bound number if there is one.
pub open spec fn maybe_number(n: Option<u64>) -> Seq<SqlView> {
    match n {
        Some(x) => seq![SqlView::Integer(x as i64)],
        None => Seq::empty(),
    }
}

fn bind_text(v: &mut Vec<SqlValue>, s: &str)
    ensures
        values(final(v)@) == values(old(v)@).push(SqlView::Text(s@)),
{
    let ghost before = values(v@);
    v.push(SqlValue::Text(s.to_owned()));
    assert(values(v@) =~= before.push(SqlView::Text(s@)));
}

fn bind_number(v: &mut Vec<SqlValue>, n: i64)
    ensures
        values(final(v)@) == values(old(v)@).push(SqlView::Integer(n)),
{
    let ghost before = values(v@);
    v.push(SqlValue::Integer(n));
    assert(values(v@) =~= before.push(SqlView::Integer(n)));
}

/// The columns of a message, in the order in which they are read.
pub open spec fn message_columns() -> Seq<char> {
    "SELECT message_id, sender_id, recipient_id, message_kind, group_id, body, timestamp, received_at, ttl_seconds, is_read, raw_envelope, reply_to FROM messages WHERE "@
}

fn select_messages() -> (r: String)
    ensures
        r@ == message_columns(),
{
    "SELECT message_id, sender_id, recipient_id, message_kind, group_id, body, timestamp, received_at, ttl_seconds, is_read, raw_envelope, reply_to FROM messages WHERE ".to_owned()
}

/// Messages of a kind, of a group, before a time; the newest first.
pub fn list_messages(kind: Option<&str>, group_id: Option<&str>, before: Option<u64>, limit: u32)
    -> (r: SqlQuery)
    ensures
        r.sql@ == message_columns() + "1=1"@ + when(kind is Some, " AND message_kind = ?"@) + when(
            group_id is Some,
            " AND group_id = ?"@,
        ) + when(before is Some, " AND timestamp < ?"@) + " ORDER BY timestamp DESC LIMIT ?"@,
        values(r.values@) == maybe_text(kind) + maybe_text(group_id) + maybe_number(before) + seq![
            SqlView::Integer(limit as i64),
        ],
{
    let mut sql = select_messages();
    sql.append("1=1");
    let mut v: Vec<SqlValue> = Vec::new();
    assert(values(v@) =~= Seq::empty());
    if let Some(k) = kind {
        sql.append(" AND message_kind = ?");
        bind_text(&mut v, k);
    }
    assert(values(v@) =~= maybe_text(kind));
    if let Some(g) = group_id {
        sql.append(" AND group_id = ?");
        bind_text(&mut v, g);
    }
    assert(values(v@) =~= maybe_text(kind) + maybe_text(group_id));
    if let Some(b) = before {
        sql.append(" AND timestamp < ?");
        bind_number(&mut v, to_sql_integer(b));
    }
    assert(values(v@) =~= maybe_text(kind) + maybe_text(group_id) + maybe_number(before));
    sql.append(" ORDER BY timestamp DESC LIMIT ?");
    bind_number(&mut v, limit as i64);
    assert(values(v@) =~= maybe_text(kind) + maybe_text(group_id) + maybe_number(before) + seq![
        SqlView::Integer(limit as i64),
    ]);
    assert(sql@ =~= message_columns() + "1=1"@ + when(kind is Some, " AND message_kind = ?"@)
        + when(group_id is Some, " AND group_id = ?"@) + when(
        before is Some,
        " AND timestamp < ?"@,
    ) + " ORDER BY timestamp DESC LIMIT ?"@);
    SqlQuery { sql, values: v }
}

/// Direct messages between the local peer and another, before a time; the newest first.
pub fn list_conversation_messages(
    identity_id: &str,
    peer_id: &str,
    before: Option<u64>,
    limit: u32,
) -> (r: SqlQuery)
    ensures
        r.sql@ == message_columns()
            + "message_kind = 'direct' AND ((sender_id = ?1 AND recipient_id = ?2) OR (sender_id = ?2 AND recipient_id = ?1))"@
            + when(before is Some, " AND timestamp < ?"@) + " ORDER BY timestamp DESC LIMIT ?"@,
        values(r.values@) == seq![SqlView::Text(identity_id@), SqlView::Text(peer_id@)]
            + maybe_number(before) + seq![SqlView::Integer(limit as i64)],
{
    let mut sql = select_messages();
    sql.append(
        "message_kind = 'direct' AND ((sender_id = ?1 AND recipient_id = ?2) OR (sender_id = ?2 AND recipient_id = ?1))",
    );
    let mut v: Vec<SqlValue> = Vec::new();
    assert(values(v@) =~= Seq::empty());
    bind_text(&mut v, identity_id);
    bind_text(&mut v, peer_id);
    let ghost first = seq![SqlView::Text(identity_id@), SqlView::Text(peer_id@)];
    assert(values(v@) =~= first);
    if let Some(b) = before {
        sql.append(" AND timestamp < ?");
        bind_number(&mut v, to_sql_integer(b));
    }
    assert(values(v@) =~= first + maybe_number(before));
    sql.append(" ORDER BY timestamp DESC LIMIT ?");
    bind_number(&mut v, limit as i64);
    assert(values(v@) =~= first + maybe_number(before) + seq![SqlView::Integer(limit as i64)]);
    assert(sql@ =~= message_columns()
        + "message_kind = 'direct' AND ((sender_id = ?1 AND recipient_id = ?2) OR (sender_id = ?2 AND recipient_id = ?1))"@
        + when(before is Some, " AND timestamp < ?"@) + " ORDER BY timestamp DESC LIMIT ?"@);
    SqlQuery { sql, values: v }
}

/// Replies to a message, before a time; the oldest first.
pub fn list_replies(parent_id: &str, before: Option<u64>, limit: u32) -> (r: SqlQuery)
    ensures
        r.sql@ == message_columns() + "reply_to = ?"@ + when(
            before is Some,
            " AND timestamp < ?"@,
        ) + " ORDER BY timestamp ASC LIMIT ?"@,
        values(r.values@) == seq![SqlView::Text(parent_id@)] + maybe_number(before) + seq![
            SqlView::Integer(limit as i64),
        ],
{
    let mut sql = select_messages();
    sql.append("reply_to = ?");
    let mut v: Vec<SqlValue> = Vec::new();
    assert(values(v@) =~= Seq::empty());
    bind_text(&mut v, parent_id);
    let ghost first = seq![SqlView::Text(parent_id@)];
    assert(values(v@) =~= first);
    if let Some(b) = before {
        sql.append(" AND timestamp < ?");
        bind_number(&mut v, to_sql_integer(b));
    }
    assert(values(v@) =~= first + maybe_number(before));
    sql.append(" ORDER BY timestamp ASC LIMIT ?");
    bind_number(&mut v, limit as i64);
    assert(values(v@) =~= first + maybe_number(before) + seq![SqlView::Integer(limit as i64)]);
    assert(sql@ =~= message_columns() + "reply_to = ?"@ + when(
        before is Some,
        " AND timestamp < ?"@,
    ) + " ORDER BY timestamp ASC LIMIT ?"@);
    SqlQuery { sql, values: v }
}

/// The condition on status and direction, where one is asked for.
pub open spec fn status_condition(status: bool, direction: bool) -> Seq<char> {
    if status && direction {
        " WHERE status = ?1 AND direction = ?2"@
    } else if status {
        " WHERE status = ?1"@
    } else if direction {
        " WHERE direction = ?1"@
    } else {
        Seq::empty()
    }
}

fn by_status(sql: String, status: Option<&str>, direction: Option<&str>) -> (r: SqlQuery)
    ensures
        r.sql@ == sql@ + status_condition(status is Some, direction is Some)
            + " ORDER BY created_at DESC"@,
        values(r.values@) == maybe_text(status) + maybe_text(direction),
{
    let ghost base = sql@;
    let mut sql = sql;
    let mut v: Vec<SqlValue> = Vec::new();
    assert(values(v@) =~= Seq::empty());
    match (status, direction) {
        (Some(s), Some(d)) => {
            sql.append(" WHERE status = ?1 AND direction = ?2");
            bind_text(&mut v, s);
            bind_text(&mut v, d);
        },
        (Some(s), None) => {
            sql.append(" WHERE status = ?1");
            bind_text(&mut v, s);
        },
        (None, Some(d)) => {
            sql.append(" WHERE direction = ?1");
            bind_text(&mut v, d);
        },
        (None, None) => {},
    }
    assert(values(v@) =~= maybe_text(status) + maybe_text(direction));
    sql.append(" ORDER BY created_at DESC");
    assert(sql@ =~= base + status_condition(status is Some, direction is Some)
        + " ORDER BY created_at DESC"@);
    SqlQuery { sql, values: v }
}

/// Friend requests of a status and a direction; the newest first.
pub fn list_friend_requests(status: Option<&str>, direction: Option<&str>) -> (r: SqlQuery)
    ensures
        r.sql@
            == "SELECT id, from_peer_id, to_peer_id, status, message, from_signing_key, from_encryption_key, direction, created_at, updated_at FROM friend_requests"@
            + status_condition(status is Some, direction is Some) + " ORDER BY created_at DESC"@,
        values(r.values@) == maybe_text(status) + maybe_text(direction),
{
    by_status(
        "SELECT id, from_peer_id, to_peer_id, status, message, from_signing_key, from_encryption_key, direction, created_at, updated_at FROM friend_requests".to_owned(),
        status,
        direction,
    )
}

/// Group invitations of a status and a direction; the newest first.
pub fn list_group_invites(status: Option<&str>, direction: Option<&str>) -> (r: SqlQuery)
    ensures
        r.sql@
            == "SELECT id, group_id, from_peer_id, to_peer_id, status, message, direction, created_at, updated_at FROM group_invites"@
            + status_condition(status is Some, direction is Some) + " ORDER BY created_at DESC"@,
        values(r.values@) == maybe_text(status) + maybe_text(direction),
{
    by_status(
        "SELECT id, group_id, from_peer_id, to_peer_id, status, message, direction, created_at, updated_at FROM group_invites".to_owned(),
        status,
        direction,
    )
}

/// Notifications, or only those that are unread; the newest first.
pub fn list_notifications(unread_only: bool, limit: u32) -> (r: SqlQuery)
    ensures
        r.sql@
            == "SELECT id, type, message_id, sender_id, created_at, seen, read FROM notifications"@
            + when(unread_only, " WHERE read = 0"@) + " ORDER BY created_at DESC LIMIT ?"@,
        values(r.values@) == seq![SqlView::Integer(limit as i64)],
{
    let mut sql =
        "SELECT id, type, message_id, sender_id, created_at, seen, read FROM notifications".to_owned();
    if unread_only {
        sql.append(" WHERE read = 0");
    }
    sql.append(" ORDER BY created_at DESC LIMIT ?");
    let mut v: Vec<SqlValue> = Vec::new();
    assert(values(v@) =~= Seq::empty());
    bind_number(&mut v, limit as i64);
    assert(values(v@) =~= seq![SqlView::Integer(limit as i64)]);
    assert(sql@
        =~= "SELECT id, type, message_id, sender_id, created_at, seen, read FROM notifications"@
        + when(unread_only, " WHERE read = 0"@) + " ORDER BY created_at DESC LIMIT ?"@);
    SqlQuery { sql, values: v }
}

} // verus!
