//! Bringing files of an older kind into the database.
use vstd::prelude::*;
use vstd::string::*;

use crate::storage::rows::MessageRow;
use crate::storage::rows::MessageView;
use crate::storage::rows::OutboxRow;
use crate::storage::rows::PeerRow;
use crate::text::decimal;
use crate::text::join;
use crate::text::to_decimal;
use crate::text::trim;
use crate::text::trimmed;
use crate::text::until;

verus! {

/// What was brought over.
#[derive(Clone, Copy, Debug, PartialEq, Eq, Structural)]
pub struct MigrationReport {
    pub identity_migrated: bool,
    pub peers_migrated: usize,
    pub inbox_migrated: usize,
    pub outbox_migrated: usize,
}

impl Default for MigrationReport {
    fn default() -> (r: Self)
        ensures
            r == (MigrationReport {
                identity_migrated: false,
                peers_migrated: 0,
                inbox_migrated: 0,
                outbox_migrated: 0,
            }),
    {
        MigrationReport {
            identity_migrated: false,
            peers_migrated: 0,
            inbox_migrated: 0,
            outbox_migrated: 0,
        }
    }
}

impl MigrationReport {
    /// Whether nothing was brought over.
    pub fn is_empty(&self) -> (r: bool)
        ensures
            r == (*self == MigrationReport {
                identity_migrated: false,
                peers_migrated: 0,
                inbox_migrated: 0,
                outbox_migrated: 0,
            }),
    {
        !self.identity_migrated && self.peers_migrated == 0 && self.inbox_migrated == 0
            && self.outbox_migrated == 0
    }
}

/// A peer as the older files have it.
pub struct LegacyPeer {
    pub name: String,
    pub id: String,
    pub public_key_hex: String,
}

/// A received message as the older files have it.
pub struct LegacyReceivedMessage {
    pub sender_id: String,
    pub timestamp: u64,
    pub message: String,
}

/// Whether a row holds a peer of the older files: a friend that is offline, and whose key for
/// encryption is not known.
pub open spec fn is_peer_row(p: LegacyPeer, now: u64, r: PeerRow) -> bool {
    &&& r.peer_id == p.id
    &&& r.display_name == Some(p.name)
    &&& r.signing_public_key == p.public_key_hex
    &&& r.encryption_public_key is None
    &&& r.added_at == now
    &&& r.is_friend
    &&& r.last_seen_online is None
    &&& !r.online
    &&& r.last_profile_requested_at is None
    &&& r.last_profile_responded_at is None
    &&& !r.is_blocked
    &&& !r.is_muted
    &&& r.blocked_at is None
    &&& r.muted_at is None
}

/// The row of a peer of the older files.
pub fn migrated_peer(peer: &LegacyPeer, now: u64) -> (r: PeerRow)
    ensures
        is_peer_row(*peer, now, r),
{
    PeerRow {
        peer_id: peer.id.clone(),
        display_name: Some(peer.name.clone()),
        signing_public_key: peer.public_key_hex.clone(),
        encryption_public_key: None,
        added_at: now,
        is_friend: true,
        last_seen_online: None,
        online: false,
        last_profile_requested_at: None,
        last_profile_responded_at: None,
        is_blocked: false,
        is_muted: false,
        blocked_at: None,
        muted_at: None,
    }
}

/// The row of a message of the older files, which had no ids: messages are numbered as they come.
pub open spec fn migrated_view(m: LegacyReceivedMessage, number: nat, now: u64) -> MessageView {
    MessageView {
        id: "migrated-inbox-"@ + decimal(number),
        sender: m.sender_id@,
        recipient: Seq::empty(),
        kind: "direct"@,
        group: None,
        body: Some(m.message@),
        timestamp: m.timestamp,
        received_at: now,
        ttl_seconds: 3600,
        is_read: false,
        raw: None,
        reply_to: None,
    }
}

/// Takes over a message of the older files, and counts it.
pub fn migrate_message(report: &mut MigrationReport, message: &LegacyReceivedMessage, now: u64) -> (r:
    MessageRow)
    requires
        old(report).inbox_migrated < usize::MAX,
    ensures
        r@ == migrated_view(*message, old(report).inbox_migrated as nat, now),
        *final(report) == (MigrationReport {
            inbox_migrated: (old(report).inbox_migrated + 1) as usize,
            ..*old(report)
        }),
{
    let number: usize = report.inbox_migrated;
    let row = MessageRow {
        message_id: join("migrated-inbox-", to_decimal(number as u64).as_str()),
        sender_id: message.sender_id.clone(),
        recipient_id: String::new(),
        message_kind: "direct".to_owned(),
        group_id: None,
        body: Some(message.message.clone()),
        timestamp: message.timestamp,
        received_at: now,
        ttl_seconds: 3600,
        is_read: false,
        raw_envelope: None,
        reply_to: None,
    };
    report.inbox_migrated = number + 1;
    row
}

/// Takes over an envelope that was sent, and counts it; it counts as delivered.
pub fn migrate_sent(report: &mut MigrationReport, message_id: &String, envelope: &String, now: u64)
    -> (r: OutboxRow)
    requires
        old(report).outbox_migrated < usize::MAX,
    ensures
        r.message_id == *message_id,
        r.envelope == *envelope,
        r.sent_at == now,
        r.delivered,
        *final(report) == (MigrationReport {
            outbox_migrated: (old(report).outbox_migrated + 1) as usize,
            ..*old(report)
        }),
{
    report.outbox_migrated = report.outbox_migrated + 1;
    OutboxRow {
        message_id: message_id.clone(),
        envelope: envelope.clone(),
        sent_at: now,
        delivered: true,
    }
}

/// Messages of the older files get ids of their own.
pub proof fn law_migrated_ids_differ(
    a: LegacyReceivedMessage,
    b: LegacyReceivedMessage,
    m: nat,
    n: nat,
    now: u64,
)
    requires
        m != n,
    ensures
        migrated_view(a, m, now).id != migrated_view(b, n, now).id,
{
    let p = "migrated-inbox-"@;
    crate::text::lemma_decimal_injective(m, n);
    assert((p + decimal(m)).skip(p.len() as int) =~= decimal(m));
    assert((p + decimal(n)).skip(p.len() as int) =~= decimal(n));
}

/// The lines of a text that are not blank, without white space around them.
pub open spec fn filled_lines(s: Seq<char>) -> Seq<Seq<char>>
    decreases s.len(),
    via filled_lines_decreases
{
    let line = until(s, '\n');
    let rest = s.skip(line.len() as int + 1);
    let here = if trimmed(line).len() == 0 {
        Seq::empty()
    } else {
        seq![trimmed(line)]
    };
    if line.len() >= s.len() {
        here
    } else {
        here + filled_lines(rest)
    }
}

#[via_fn]
proof fn filled_lines_decreases(s: Seq<char>) {
}

/// The lines of a text that are not blank, without white space around them.
pub fn lines_to_migrate(text: &str) -> (r: Vec<String>)
    ensures
        crate::text::texts(r@) == filled_lines(text@),
{
    let total: usize = text.unicode_len();
    let mut out: Vec<String> = Vec::new();
    let mut start: usize = 0;
    let mut done = false;
    proof {
        assert(text@.skip(0) =~= text@);
        assert(crate::text::texts(out@) + filled_lines(text@) =~= filled_lines(text@));
    }
    while !done
        invariant
            start <= total == text@.len(),
            !done ==> crate::text::texts(out@) + filled_lines(text@.skip(start as int))
                == filled_lines(text@),
            done ==> crate::text::texts(out@) == filled_lines(text@),
        decreases
                (if done {
                    0int
                } else {
                    1int
                }),
                total - start,
    {
        let ghost before = crate::text::texts(out@);
        let rest = text.substring_char(start, total);
        assert(rest@ =~= text@.skip(start as int));
        let line = crate::text::cut_at(rest, '\n');
        let n: usize = line.unicode_len();
        proof {
            crate::text::lemma_until_len(rest@, '\n');
        }
        let t = trim(line);
        let ghost here = if trimmed(line@).len() == 0 {
            Seq::empty()
        } else {
            seq![trimmed(line@)]
        };
        if t.unicode_len() > 0 {
            out.push(t.to_owned());
            assert(crate::text::texts(out@) =~= before.push(t@));
            assert(crate::text::texts(out@) =~= before + here);
        } else {
            assert(before + here =~= before);
        }
        if n >= total - start {
            done = true;
        } else {
            proof {
                assert(rest@.skip(n as int + 1) =~= text@.skip(start + n + 1));
                assert(before + (here + filled_lines(text@.skip(start + n + 1))) =~= (before
                    + here) + filled_lines(text@.skip(start + n + 1)));
            }
            start = start + n + 1;
        }
    }
    out
}

} // verus!
