//! Accepting envelopes.
use vstd::prelude::*;
use vstd::string::*;
use vstd::utf8::encode_utf8;

use crate::codec::hex_encode;
use crate::codec::hex_of;
use crate::codec::json_number;
use crate::codec::json_number_at;
use crate::codec::json_string;
use crate::codec::json_string_at;
use crate::codec::sha256;
use crate::codec::sha256_of;
use crate::keyed::above;
use crate::relay::config::RelayConfig;
use crate::relay::config::SECOND;
use crate::relay::evict::evicted;
use crate::relay::evict::evicted_oldest;
use crate::relay::evict::room;
use crate::relay::evict::room_oldest;
use crate::relay::queue::charges;
use crate::relay::queue::expired;
use crate::relay::queue::live;
use crate::relay::queue::message_ids;
use crate::relay::queue::Envelope;
use crate::relay::state::directed;
use crate::relay::state::forgotten;
use crate::relay::state::queue_of;
use crate::relay::state::reduced;
use crate::relay::state::released;
use crate::relay::state::sent;
use crate::relay::state::tier_of;
use crate::relay::state::touched;
use crate::relay::state::usage_of;
use crate::relay::state::Peer;
use crate::relay::state::RelayView;
use crate::relay::state::SenderUsage;
use crate::text::opt_text;
use crate::text::texts;

verus! {

/// What the relay reads of an envelope, and the envelope itself in compact JSON.
pub struct Payload {
    pub recipient_id: Option<String>,
    pub sender_id: Option<String>,
    /// The message id in the header.
    pub header_message_id: Option<String>,
    /// The message id beside the header.
    pub message_id: Option<String>,
    pub ttl_seconds: Option<u64>,
    pub timestamp: Option<u64>,
    pub body: String,
}

/// What a `Payload` holds.
pub struct PayloadView {
    pub recipient_id: Option<Peer>,
    pub sender_id: Option<Peer>,
    pub header_message_id: Option<Seq<char>>,
    pub message_id: Option<Seq<char>>,
    pub ttl_seconds: Option<u64>,
    pub timestamp: Option<u64>,
    pub body: Seq<char>,
}

impl View for Payload {
    type V = PayloadView;

    open spec fn view(&self) -> PayloadView {
        PayloadView {
            recipient_id: opt_text(self.recipient_id),
            sender_id: opt_text(self.sender_id),
            header_message_id: opt_text(self.header_message_id),
            message_id: opt_text(self.message_id),
            ttl_seconds: self.ttl_seconds,
            timestamp: self.timestamp,
            body: self.body@,
        }
    }
}

impl PayloadView {
    /// The id under which the envelope goes: the header's, else the one beside it, else the
    /// hexadecimal SHA-256 of the envelope.
    pub open spec fn id(&self) -> Seq<char> {
        match self.header_message_id {
            Some(id) => id,
            None => match self.message_id {
                Some(id) => id,
                None => hex_of(sha256_of(encode_utf8(self.body))),
            },
        }
    }

    /// The size of the envelope in bytes.
    pub open spec fn size(&self) -> nat {
        encode_utf8(self.body).len()
    }

    pub open spec fn is_broadcast(&self) -> bool {
        self.recipient_id == Some("*"@)
    }
}

// ---------------------------------------------------------------------------
// Reading envelopes
// ---------------------------------------------------------------------------

/// What the relay reads of the JSON text `text`.
pub open spec fn payload_in(text: Seq<char>) -> PayloadView {
    PayloadView {
        recipient_id: json_string_at(text, "/header/recipient_id"@),
        sender_id: json_string_at(text, "/header/sender_id"@),
        header_message_id: json_string_at(text, "/header/message_id"@),
        message_id: json_string_at(text, "/message_id"@),
        ttl_seconds: json_number_at(text, "/header/ttl_seconds"@),
        timestamp: json_number_at(text, "/header/timestamp"@),
        body: text,
    }
}

/// The recipient that an envelope names.
pub fn recipient_id_from(text: &str) -> (r: Option<String>)
    ensures
        opt_text(r) == payload_in(text@).recipient_id,
{
    json_string(text, "/header/recipient_id")
}

/// The sender that an envelope names.
pub fn sender_id_from(text: &str) -> (r: Option<String>)
    ensures
        opt_text(r) == payload_in(text@).sender_id,
{
    json_string(text, "/header/sender_id")
}

/// Reads an envelope given in compact JSON.
pub fn read_payload(text: &str) -> (r: Payload)
    ensures
        r@ == payload_in(text@),
{
    Payload {
        recipient_id: recipient_id_from(text),
        sender_id: sender_id_from(text),
        header_message_id: json_string(text, "/header/message_id"),
        message_id: json_string(text, "/message_id"),
        ttl_seconds: json_number(text, "/header/ttl_seconds"),
        timestamp: json_number(text, "/header/timestamp"),
        body: text.to_owned(),
    }
}

/// The id under which an envelope goes.
pub fn message_id_from(payload: &Payload) -> (r: String)
    ensures
        r@ == payload@.id(),
{
    match &payload.header_message_id {
        Some(id) => id.clone(),
        None => match &payload.message_id {
            Some(id) => id.clone(),
            None => {
                let digest = sha256(payload.body.as_str().as_bytes());
                hex_encode(digest.as_slice())
            },
        },
    }
}

// ---------------------------------------------------------------------------
// Expiry
// ---------------------------------------------------------------------------

/// Until when an envelope is kept.
#[derive(Clone, Copy, Debug, PartialEq, Eq, Structural)]
pub enum ExpiresAt {
    Expired,
    Valid(u128),
}

/// Why an envelope cannot be handled.
pub enum StoreError {
    MissingRecipient,
    InvalidPayload(String),
}

/// Until when an envelope is kept, or why that cannot be said.
pub enum Expiry {
    Expired,
    Valid(u128),
    Invalid(Seq<char>),
}

/// Until when an envelope with the given header is kept by a relay that keeps envelopes for
/// `ttl`. `epoch` is the wall clock in seconds, where it does not run before 1970.
pub open spec fn expiry_of(
    ttl_seconds: Option<u64>,
    timestamp: Option<u64>,
    ttl: u128,
    now: u128,
    epoch: Option<u64>,
) -> Expiry {
    match (ttl_seconds, timestamp) {
        (Some(t), Some(ts)) => {
            if t == 0 {
                Expiry::Expired
            } else if ts + t > u64::MAX {
                Expiry::Invalid("ttl overflow"@)
            } else {
                match epoch {
                    None => Expiry::Invalid("clock error"@),
                    Some(e) => if ts + t <= e {
                        Expiry::Expired
                    } else if (ts + t - e) * SECOND < ttl {
                        Expiry::Valid((now + (ts + t - e) * SECOND) as u128)
                    } else {
                        Expiry::Valid((now + ttl) as u128)
                    },
                }
            }
        },
        (Some(_), None) => Expiry::Invalid("missing timestamp"@),
        _ => Expiry::Valid((now + ttl) as u128),
    }
}

/// Until when an envelope is kept.
pub fn expires_at_from(
    payload: &Payload,
    config: &RelayConfig,
    now: u128,
    now_epoch: Option<u64>,
) -> (r: Result<ExpiresAt, StoreError>)
    requires
        now + config.ttl <= u128::MAX,
    ensures
        match expiry_of(payload.ttl_seconds, payload.timestamp, config.ttl, now, now_epoch) {
            Expiry::Expired => r == Ok::<ExpiresAt, StoreError>(ExpiresAt::Expired),
            Expiry::Valid(t) => r == Ok::<ExpiresAt, StoreError>(ExpiresAt::Valid(t)),
            Expiry::Invalid(why) => match r {
                Err(StoreError::InvalidPayload(s)) => s@ == why,
                _ => false,
            },
        },
{
    match (payload.ttl_seconds, payload.timestamp) {
        (Some(ttl_seconds), Some(timestamp)) => {
            if ttl_seconds == 0 {
                return Ok(ExpiresAt::Expired);
            }
            let expires_epoch: u64 = match timestamp.checked_add(ttl_seconds) {
                Some(t) => t,
                None => {
                    return Err(StoreError::InvalidPayload("ttl overflow".to_owned()));
                },
            };
            let now_secs: u64 = match now_epoch {
                Some(e) => e,
                None => {
                    return Err(StoreError::InvalidPayload("clock error".to_owned()));
                },
            };
            if expires_epoch <= now_secs {
                return Ok(ExpiresAt::Expired);
            }
            let remaining: u128 = ((expires_epoch - now_secs) as u128) * SECOND;
            let capped: u128 = if remaining < config.ttl {
                remaining
            } else {
                config.ttl
            };
            Ok(ExpiresAt::Valid(now + capped))
        },
        (Some(_), None) => Err(StoreError::InvalidPayload("missing timestamp".to_owned())),
        _ => Ok(ExpiresAt::Valid(now + config.ttl)),
    }
}

// ---------------------------------------------------------------------------
// Outcomes
// ---------------------------------------------------------------------------

/// What became of an envelope.
pub enum StoreDecision {
    Accepted { message_id: String },
    Broadcast { message_id: String, recipients: Vec<String> },
    Duplicate { message_id: String },
    Expired { message_id: String },
    TooLarge { message_id: String },
    /// The sender has used up its quota in this inbox.
    QuotaExceeded { message_id: String },
}

/// What became of an envelope, by name.
pub enum StoreOutcome {
    Accepted(Seq<char>),
    Broadcast(Seq<char>, Set<Peer>),
    Duplicate(Seq<char>),
    Expired(Seq<char>),
    TooLarge(Seq<char>),
    QuotaExceeded(Seq<char>),
    MissingRecipient,
    Invalid(Seq<char>),
}

/// The outcome that a result of `store_envelope_locked` reports.
pub open spec fn outcome_of(r: Result<StoreDecision, StoreError>) -> StoreOutcome {
    match r {
        Ok(StoreDecision::Accepted { message_id }) => StoreOutcome::Accepted(message_id@),
        Ok(StoreDecision::Broadcast { message_id, recipients }) => StoreOutcome::Broadcast(
            message_id@,
            texts(recipients@).to_set(),
        ),
        Ok(StoreDecision::Duplicate { message_id }) => StoreOutcome::Duplicate(message_id@),
        Ok(StoreDecision::Expired { message_id }) => StoreOutcome::Expired(message_id@),
        Ok(StoreDecision::TooLarge { message_id }) => StoreOutcome::TooLarge(message_id@),
        Ok(StoreDecision::QuotaExceeded { message_id }) => StoreOutcome::QuotaExceeded(message_id@),
        Err(StoreError::MissingRecipient) => StoreOutcome::MissingRecipient,
        Err(StoreError::InvalidPayload(s)) => StoreOutcome::Invalid(s@),
    }
}

// ---------------------------------------------------------------------------
// Broadcasts
// ---------------------------------------------------------------------------

/// Every known peer but the sender.
pub open spec fn audience(seen: Map<Peer, u128>, sender: Option<Peer>) -> Set<Peer> {
    seen.dom().filter(|p: Peer| sender != Some(p))
}

/// The limits of an inbox.
pub struct InboxLimits {
    pub max_messages: usize,
    pub max_bytes: usize,
}

pub open spec fn limits_of(config: &RelayConfig) -> InboxLimits {
    InboxLimits { max_messages: config.max_messages, max_bytes: config.max_bytes }
}

/// The inbox `q` once the broadcast `e` has been put into it.
pub open spec fn fanned(q: Seq<Envelope>, e: Envelope, l: InboxLimits, now: u128) -> Seq<Envelope> {
    room_oldest(live(q, now), e.size_bytes as nat, l.max_messages, l.max_bytes).push(e)
}

/// What a broadcast of `size` bytes pushes out of the inbox `q`.
pub open spec fn pushed_out(q: Seq<Envelope>, size: usize, l: InboxLimits, now: u128) -> Seq<
    Envelope,
> {
    expired(q, now) + displaced(q, size, l, now)
}

/// What a broadcast of `size` bytes evicts from the inbox `q` to make room.
pub open spec fn displaced(q: Seq<Envelope>, size: usize, l: InboxLimits, now: u128) -> Seq<
    Envelope,
> {
    evicted_oldest(live(q, now), size as nat, l.max_messages, l.max_bytes)
}

/// Whether a broadcast to `to` evicts an envelope with the given id from some inbox.
pub open spec fn displaces(
    queues: Map<Peer, Seq<Envelope>>,
    to: Set<Peer>,
    size: usize,
    l: InboxLimits,
    now: u128,
    id: Seq<char>,
) -> bool {
    exists|p: Peer| #[trigger]
        to.contains(p) && message_ids(displaced(queue_of(queues, p), size, l, now)).contains(id)
}

/// `v` once the broadcast `e` has gone to every inbox of `to`. Broadcasts are not charged to
/// their sender. The ids of envelopes that had to make room are forgotten; those of expired
/// envelopes run out by themselves.
pub open spec fn fanned_out(
    v: RelayView,
    to: Set<Peer>,
    e: Envelope,
    l: InboxLimits,
    now: u128,
) -> RelayView {
    RelayView {
        queues: Map::new(
            |p: Peer| v.queues.contains_key(p) || to.contains(p),
            |p: Peer|
                if to.contains(p) {
                    fanned(queue_of(v.queues, p), e, l, now)
                } else {
                    v.queues[p]
                },
        ),
        usage: v.usage.map_entries(
            |k: (Peer, Peer), u: SenderUsage|
                if to.contains(k.1) {
                    reduced(
                        u,
                        k.0,
                        charges(pushed_out(queue_of(v.queues, k.1), e.size_bytes, l, now)),
                    )
                } else {
                    u
                },
        ),
        dedup: v.dedup.remove_keys(
            Set::new(|id: Seq<char>| displaces(v.queues, to, e.size_bytes, l, now, id)),
        ),
        ..v
    }
}

// ---------------------------------------------------------------------------
// The transition
// ---------------------------------------------------------------------------

/// `v` once recipient and sender of `p` have been noted.
pub open spec fn registered(v: RelayView, p: PayloadView, now: u128) -> RelayView {
    let v1 = if p.is_broadcast() {
        v
    } else {
        touched(v, p.recipient_id->0, now)
    };
    match p.sender_id {
        Some(s) => touched(v1, s, now),
        None => v1,
    }
}

/// The envelope that goes into inboxes.
pub open spec fn envelope_for(p: PayloadView, expires_at: u128, now: u128) -> Envelope {
    Envelope {
        body: p.body,
        size_bytes: p.size() as usize,
        expires_at,
        message_id: p.id(),
        stored_at: now,
        sender_id: p.sender_id,
    }
}

/// Whether one more envelope of `size` bytes would exceed what `sender` may have in the inbox of
/// `recipient`.
pub open spec fn over_quota(
    config: &RelayConfig,
    v: RelayView,
    sender: Peer,
    recipient: Peer,
    size: nat,
    now: u128,
) -> bool {
    let limits = tier_of(config.qos, v, sender, recipient, now);
    let u = usage_of(v.usage, (sender, recipient));
    u.count >= limits.max_envelopes || u.bytes + size > limits.max_bytes
}

/// `v` once the inbox of `recipient` has been rid of expired envelopes.
pub open spec fn pruned(v: RelayView, recipient: Peer, now: u128) -> RelayView {
    let q = queue_of(v.queues, recipient);
    RelayView {
        queues: v.queues.insert(recipient, live(q, now)),
        usage: released(v.usage, recipient, charges(expired(q, now))),
        ..v
    }
}

/// The usage table once `sender` has been charged for one more envelope.
pub open spec fn charged(
    usage: Map<(Peer, Peer), SenderUsage>,
    sender: Peer,
    recipient: Peer,
    size: usize,
) -> Map<(Peer, Peer), SenderUsage> {
    let u = usage_of(usage, (sender, recipient));
    usage.insert(
        (sender, recipient),
        SenderUsage { count: (u.count + 1) as usize, bytes: (u.bytes + size) as usize },
    )
}

/// `v` once `e` has been put into the inbox of `recipient`, out of which expired envelopes have
/// been taken already. The ids of envelopes that had to make room are forgotten, but the id of `e`
/// is known.
pub open spec fn enqueued(
    v: RelayView,
    recipient: Peer,
    e: Envelope,
    l: InboxLimits,
    now: u128,
) -> RelayView {
    let q = queue_of(v.queues, recipient);
    let size = e.size_bytes as nat;
    let out = evicted(q, size, l.max_messages, l.max_bytes);
    let usage = released(v.usage, recipient, charges(out));
    let w = RelayView {
        queues: v.queues.insert(recipient, room(q, size, l.max_messages, l.max_bytes).push(e)),
        usage: match e.sender_id {
            Some(s) => charged(usage, s, recipient, e.size_bytes),
            None => usage,
        },
        dedup: forgotten(v.dedup, message_ids(out)).insert(e.message_id, e.expires_at),
        total_stored: (v.total_stored + 1) as u64,
        ..v
    };
    match e.sender_id {
        Some(s) => sent(w, s, now),
        None => w,
    }
}

/// What becomes of an envelope for one recipient, whose id is not known.
pub open spec fn direct_outcome(
    config: &RelayConfig,
    v: RelayView,
    recipient: Peer,
    e: Envelope,
    now: u128,
) -> (RelayView, StoreOutcome) {
    let v1 = match e.sender_id {
        Some(s) => directed(v, s, recipient, now, config.qos.bidirectional_window),
        None => v,
    };
    let v2 = pruned(v1, recipient, now);
    let refused = match e.sender_id {
        Some(s) => over_quota(config, v2, s, recipient, e.size_bytes as nat, now),
        None => false,
    };
    if refused {
        (
            RelayView { dedup: v2.dedup.remove(e.message_id), ..v2 },
            StoreOutcome::QuotaExceeded(e.message_id),
        )
    } else {
        (
            enqueued(v2, recipient, e, limits_of(config), now),
            StoreOutcome::Accepted(e.message_id),
        )
    }
}

/// What becomes of a broadcast, whose id is not known. The id is known from then on, whatever had
/// to make room under the same id.
pub open spec fn broadcast_outcome(
    config: &RelayConfig,
    v: RelayView,
    e: Envelope,
    now: u128,
) -> (RelayView, StoreOutcome) {
    let to = audience(v.peer_last_seen, e.sender_id);
    let v1 = fanned_out(v, to, e, limits_of(config), now);
    let v2 = RelayView {
        dedup: v1.dedup.insert(e.message_id, e.expires_at),
        total_stored: (v1.total_stored + to.len()) as u64,
        ..v1
    };
    (
        match e.sender_id {
            Some(s) => sent(v2, s, now),
            None => v2,
        },
        StoreOutcome::Broadcast(e.message_id, to),
    )
}

/// What becomes of an envelope that is neither too large nor expired.
pub open spec fn receive(
    config: &RelayConfig,
    v: RelayView,
    p: PayloadView,
    expires_at: u128,
    now: u128,
    pruned_at: u128,
) -> (RelayView, StoreOutcome) {
    let id = p.id();
    let v1 = RelayView { dedup: above(v.dedup, pruned_at), ..v };
    if v1.dedup.contains_key(id) && v1.dedup[id] > now {
        (v1, StoreOutcome::Duplicate(id))
    } else {
        let e = envelope_for(p, expires_at, now);
        if p.is_broadcast() {
            broadcast_outcome(config, v1, e, now)
        } else {
            direct_outcome(config, v1, p.recipient_id->0, e, now)
        }
    }
}

/// What becomes of an envelope, and of the relay that receives it at `now`. `epoch` is the wall
/// clock in seconds; `pruned_at` is the instant at which known message ids are looked through.
pub open spec fn store(
    config: &RelayConfig,
    v: RelayView,
    p: PayloadView,
    now: u128,
    epoch: Option<u64>,
    pruned_at: u128,
) -> (RelayView, StoreOutcome) {
    if p.recipient_id is None {
        (v, StoreOutcome::MissingRecipient)
    } else {
        let v1 = registered(v, p, now);
        if p.size() > config.max_bytes {
            (v1, StoreOutcome::TooLarge(p.id()))
        } else {
            match expiry_of(p.ttl_seconds, p.timestamp, config.ttl, now, epoch) {
                Expiry::Invalid(why) => (v1, StoreOutcome::Invalid(why)),
                Expiry::Expired => (v1, StoreOutcome::Expired(p.id())),
                Expiry::Valid(t) => receive(config, v1, p, t, now, pruned_at),
            }
        }
    }
}

} // verus!
