//! What the relay remembers.
use std::collections::VecDeque;

use vstd::prelude::*;

use crate::keyed::above;
use crate::keyed::KeyedMap;
use crate::relay::config::RelayConfig;
use crate::relay::config::RelayQosConfig;
use crate::relay::config::TierLimits;
use crate::relay::queue::bytes_weight;
use crate::relay::queue::charge;
use crate::relay::queue::charges;
use crate::relay::queue::count_weight;
use crate::relay::queue::elapsed;
use crate::relay::queue::push_timestamped;
use crate::relay::queue::sent_bytes;
use crate::relay::queue::sent_count;
use crate::relay::queue::stamped;
use crate::relay::queue::time_since;
use crate::relay::queue::total_bytes;
use crate::relay::queue::named_charges;
use crate::relay::queue::Envelope;
use crate::relay::queue::Inbox;
use crate::sums::lemma_sum_map;
use crate::sums::lemma_sum_push;
use crate::sums::sum;
use crate::text::opt_text;
use crate::text::texts;

verus! {

/// How many envelopes and bytes of a sender are charged to it in one inbox.
#[derive(Clone, Copy, Debug, PartialEq, Eq, Structural)]
pub struct SenderUsage {
    pub count: usize,
    pub bytes: usize,
}

impl View for SenderUsage {
    type V = SenderUsage;

    open spec fn view(&self) -> SenderUsage {
        *self
    }
}

/// A client connected by WebSocket.
pub struct WsClientInfo {
    pub peer_id: String,
    pub ip: Option<String>,
    pub web_ui_url: Option<String>,
    pub version: Option<String>,
    pub connected_at: u128,
}

impl View for WsClientInfo {
    type V = WsClientInfo;

    open spec fn view(&self) -> WsClientInfo {
        *self
    }
}

/// A single encrypted chunk held by the blob store.
pub struct BlobEntry {
    /// Raw encrypted chunk bytes.
    pub data: Vec<u8>,
    /// Uploader peer ID.
    pub uploader_id: Option<String>,
}

impl View for BlobEntry {
    type V = (Seq<u8>, Option<Seq<char>>);

    open spec fn view(&self) -> (Seq<u8>, Option<Seq<char>>) {
        (self.data@, opt_text(self.uploader_id))
    }
}

/// Everything that the relay keeps between requests.
pub struct RelayStateInner {
    pub queues: KeyedMap<String, Inbox>,
    pub dedup: KeyedMap<String, u128>,
    pub peer_last_seen: KeyedMap<String, u128>,
    pub total_stored: u64,
    pub total_delivered: u64,
    pub latency_min_ms: u64,
    pub latency_max_ms: u64,
    pub latency_sum_ms: u64,
    pub latency_count: u64,
    /// Instants of delivery per inbox, over a day.
    pub inbox_deliveries: KeyedMap<String, VecDeque<u128>>,
    /// Instants of sending per peer, over a day.
    pub peer_sends: KeyedMap<String, VecDeque<u128>>,
    pub ws_clients: KeyedMap<u64, WsClientInfo>,
    pub next_conn_id: u64,
    /// Usage per (sender, recipient).
    pub sender_inbox_usage: KeyedMap<(String, String), SenderUsage>,
    /// Last sending per (sender, recipient).
    pub directed_last_seen: KeyedMap<(String, String), u128>,
    /// Pairs of peers that have been seen to send to each other, in either order.
    pub bidirectional_pairs: KeyedMap<(String, String), bool>,
    /// Encrypted chunks by the hexadecimal SHA-256 of their bytes.
    pub blobs: KeyedMap<String, BlobEntry>,
    /// Per sender: a UTC epoch day and the bytes uploaded on it.
    pub blob_daily_upload: KeyedMap<String, (u64, u64)>,
}

/// A peer, by name.
pub type Peer = Seq<char>;

/// The relay's memory as mathematical maps.
#[verifier::ext_equal]
pub struct RelayView {
    pub queues: Map<Peer, Seq<Envelope>>,
    pub dedup: Map<Seq<char>, u128>,
    pub peer_last_seen: Map<Peer, u128>,
    pub total_stored: u64,
    pub total_delivered: u64,
    pub latency_min_ms: u64,
    pub latency_max_ms: u64,
    pub latency_sum_ms: u64,
    pub latency_count: u64,
    pub inbox_deliveries: Map<Peer, Seq<u128>>,
    pub peer_sends: Map<Peer, Seq<u128>>,
    pub ws_clients: Map<u64, WsClientInfo>,
    pub next_conn_id: u64,
    pub usage: Map<(Peer, Peer), SenderUsage>,
    pub directed: Map<(Peer, Peer), u128>,
    pub pairs: Map<(Peer, Peer), bool>,
    pub blobs: Map<Seq<char>, (Seq<u8>, Option<Peer>)>,
    pub uploads: Map<Peer, (u64, u64)>,
}

impl View for RelayStateInner {
    type V = RelayView;

    open spec fn view(&self) -> RelayView {
        RelayView {
            queues: self.queues@,
            dedup: self.dedup@,
            peer_last_seen: self.peer_last_seen@,
            total_stored: self.total_stored,
            total_delivered: self.total_delivered,
            latency_min_ms: self.latency_min_ms,
            latency_max_ms: self.latency_max_ms,
            latency_sum_ms: self.latency_sum_ms,
            latency_count: self.latency_count,
            inbox_deliveries: self.inbox_deliveries@,
            peer_sends: self.peer_sends@,
            ws_clients: self.ws_clients@,
            next_conn_id: self.next_conn_id,
            usage: self.sender_inbox_usage@,
            directed: self.directed_last_seen@,
            pairs: self.bidirectional_pairs@,
            blobs: self.blobs@,
            uploads: self.blob_daily_upload@,
        }
    }
}

/// The queue of `peer`; empty where it has none.
pub open spec fn queue_of(queues: Map<Peer, Seq<Envelope>>, peer: Peer) -> Seq<
    Envelope,
> {
    if queues.contains_key(peer) {
        queues[peer]
    } else {
        Seq::empty()
    }
}

/// The usage of `key`; nothing where none is recorded.
pub open spec fn usage_of(usage: Map<(Peer, Peer), SenderUsage>, key: (Peer, Peer)) -> SenderUsage {
    if usage.contains_key(key) {
        usage[key]
    } else {
        SenderUsage { count: 0, bytes: 0 }
    }
}

/// The window of `peer`; empty where it has none.
pub open spec fn window_of(windows: Map<Peer, Seq<u128>>, peer: Peer) -> Seq<u128> {
    if windows.contains_key(peer) {
        windows[peer]
    } else {
        Seq::empty()
    }
}

impl RelayView {
    /// No inbox holds more than the settings allow; an inbox that may hold nothing still takes
    /// the newest envelope.
    pub open spec fn bounded(&self, max_messages: usize, max_bytes: usize) -> bool {
        forall|p: Peer| #[trigger]
            self.queues.contains_key(p) ==> total_bytes(self.queues[p]) <= max_bytes
                && self.queues[p].len() <= if max_messages == 0 {
                1
            } else {
                max_messages
            }
    }

    /// No sender is charged for more than what it has in an inbox.
    pub open spec fn usage_covered(&self) -> bool {
        forall|k: (Peer, Peer)| #[trigger]
            self.usage.contains_key(k) ==> self.usage[k].count <= sent_count(
                queue_of(self.queues, k.1),
                k.0,
            ) && self.usage[k].bytes <= sent_bytes(queue_of(self.queues, k.1), k.0)
    }
}

impl RelayStateInner {
    /// Every table has one entry a name, no inbox is over its limits, and no sender is charged
    /// for more than it has queued.
    pub open spec fn wf(&self, config: &RelayConfig) -> bool {
        &&& self.tables_wf()
        &&& self@.bounded(config.max_messages, config.max_bytes)
        &&& self@.usage_covered()
    }

    pub open spec fn tables_wf(&self) -> bool {
        &&& self.queues.wf()
        &&& self.dedup.wf()
        &&& self.peer_last_seen.wf()
        &&& self.inbox_deliveries.wf()
        &&& self.peer_sends.wf()
        &&& self.ws_clients.wf()
        &&& self.sender_inbox_usage.wf()
        &&& self.directed_last_seen.wf()
        &&& self.bidirectional_pairs.wf()
        &&& self.blobs.wf()
        &&& self.blob_daily_upload.wf()
    }

    /// A relay that has seen nothing yet.
    pub fn new() -> (r: Self)
        ensures
            forall|config: &RelayConfig| #[trigger] r.wf(config),
            r@ == empty_relay(),
    {
        RelayStateInner {
            queues: KeyedMap::new(),
            dedup: KeyedMap::new(),
            peer_last_seen: KeyedMap::new(),
            total_stored: 0,
            total_delivered: 0,
            latency_min_ms: u64::MAX,
            latency_max_ms: 0,
            latency_sum_ms: 0,
            latency_count: 0,
            inbox_deliveries: KeyedMap::new(),
            peer_sends: KeyedMap::new(),
            ws_clients: KeyedMap::new(),
            next_conn_id: 0,
            sender_inbox_usage: KeyedMap::new(),
            directed_last_seen: KeyedMap::new(),
            bidirectional_pairs: KeyedMap::new(),
            blobs: KeyedMap::new(),
            blob_daily_upload: KeyedMap::new(),
        }
    }
}

/// A relay with its settings.
pub struct RelayState {
    pub config: RelayConfig,
    pub inner: RelayStateInner,
}

impl RelayState {
    pub open spec fn wf(&self) -> bool {
        self.inner.wf(&self.config)
    }

    /// A relay that has seen nothing yet.
    pub fn new(config: RelayConfig) -> (r: Self)
        ensures
            r.wf(),
            r.config == config,
            r.inner@ == empty_relay(),
    {
        RelayState { config, inner: RelayStateInner::new() }
    }
}

/// A relay that has seen nothing yet.
pub open spec fn empty_relay() -> RelayView {
    RelayView {
        queues: Map::empty(),
        dedup: Map::empty(),
        peer_last_seen: Map::empty(),
        total_stored: 0,
        total_delivered: 0,
        latency_min_ms: u64::MAX,
        latency_max_ms: 0,
        latency_sum_ms: 0,
        latency_count: 0,
        inbox_deliveries: Map::empty(),
        peer_sends: Map::empty(),
        ws_clients: Map::empty(),
        next_conn_id: 0,
        usage: Map::empty(),
        directed: Map::empty(),
        pairs: Map::empty(),
        blobs: Map::empty(),
        uploads: Map::empty(),
    }
}

// ---------------------------------------------------------------------------
// Presence
// ---------------------------------------------------------------------------

/// `v` once `peer` has been seen at `now`.
pub open spec fn touched(v: RelayView, peer: Peer, now: u128) -> RelayView {
    RelayView { peer_last_seen: v.peer_last_seen.insert(peer, now), ..v }
}

/// Notes that `peer_id` was seen at `now`. For a peer that is named as sender or recipient but
/// has not itself asked for its inbox.
pub fn touch_peer(inner: &mut RelayStateInner, peer_id: &str, now: u128)
    requires
        old(inner).tables_wf(),
    ensures
        final(inner).tables_wf(),
        final(inner)@ == touched(old(inner)@, peer_id@, now),
{
    inner.peer_last_seen.insert(peer_id.to_owned(), now);
}

/// Notes that `peer_id` polled its inbox at `now`, and says whether that is worth a log line:
/// the first poll, and every poll at least `peer_log_window` after the one before.
pub fn record_peer_connection(
    config: &RelayConfig,
    inner: &mut RelayStateInner,
    peer_id: &str,
    now: u128,
) -> (should_log: bool)
    requires
        old(inner).tables_wf(),
    ensures
        final(inner).tables_wf(),
        final(inner)@ == touched(old(inner)@, peer_id@, now),
        should_log == (old(inner)@.peer_last_seen.contains_key(peer_id@) ==> elapsed(
            now,
            old(inner)@.peer_last_seen[peer_id@],
        ) >= config.peer_log_window),
{
    let key = peer_id.to_owned();
    let should_log = match inner.peer_last_seen.get(&key) {
        Some(last_seen) => time_since(now, *last_seen) >= config.peer_log_window,
        None => true,
    };
    inner.peer_last_seen.insert(key, now);
    should_log
}

/// The peers seen within the last `window`.
pub open spec fn recent_peers(seen: Map<Peer, u128>, now: u128, window: u128) -> Set<Peer> {
    seen.dom().filter(|p: Peer| elapsed(now, seen[p]) <= window)
}

/// How many peers were seen within the last `window`.
pub fn count_recent_peers(inner: &RelayStateInner, now: u128, window: u128) -> (r: usize)
    requires
        inner.tables_wf(),
    ensures
        r == recent_peers(inner@.peer_last_seen, now, window).len(),
{
    let seen = &inner.peer_last_seen;
    let mut n: usize = 0;
    let mut i: usize = 0;
    let ghost mut found: Set<Peer> = Set::empty();
    proof {
        seen.lemma_entries();
    }
    while i < seen.len()
        invariant
            seen.wf(),
            i <= seen.count(),
            n <= i,
            found.finite(),
            n == found.len(),
            forall|p: Peer| #[trigger]
                found.contains(p) <==> exists|j: int|
                    0 <= j < i && #[trigger] seen.name_at(j) == p && elapsed(now, seen@[p])
                        <= window,
            forall|a: int, b: int|
                0 <= a < b < seen.count() ==> #[trigger] seen.name_at(a) != #[trigger] seen.name_at(
                    b,
                ),
        decreases seen.count() - i,
    {
        let t: u128 = *seen.value_at(i);
        let ghost p = seen.name_at(i as int);
        let ghost prior = found;
        if time_since(now, t) <= window {
            n = n + 1;
            proof {
                assert(!found.contains(p));
                found = found.insert(p);
            }
        }
        proof {
            assert forall|q: Peer| #[trigger]
                found.contains(q) <==> exists|j: int|
                    0 <= j < i + 1 && #[trigger] seen.name_at(j) == q && elapsed(now, seen@[q])
                        <= window by {
                if found.contains(q) {
                    if prior.contains(q) {
                        let j = choose|j: int| 0 <= j < i && #[trigger] seen.name_at(j) == q;
                        assert(seen.name_at(j) == q);
                    } else {
                        assert(seen.name_at(i as int) == q);
                    }
                }
            }
        }
        i = i + 1;
    }
    proof {
        assert(found =~= recent_peers(seen@, now, window));
    }
    n
}

// ---------------------------------------------------------------------------
// Quotas
// ---------------------------------------------------------------------------

/// Whether a charge falls on `who`.
pub open spec fn falls_on(c: (Option<Peer>, usize), who: Peer) -> bool {
    c.0 == Some(who)
}

pub open spec fn charge_count(who: Peer) -> spec_fn((Option<Peer>, usize)) -> nat {
    |c: (Option<Peer>, usize)| if falls_on(c, who) { 1nat } else { 0nat }
}

pub open spec fn charge_bytes(who: Peer) -> spec_fn((Option<Peer>, usize)) -> nat {
    |c: (Option<Peer>, usize)| if falls_on(c, who) { c.1 as nat } else { 0nat }
}

/// `a` less `b`, but never below zero.
pub open spec fn less(a: usize, b: nat) -> usize {
    if a >= b {
        (a - b) as usize
    } else {
        0
    }
}

/// What is left of `u` once the charges `c` that fall on `who` are given back.
pub open spec fn reduced(u: SenderUsage, who: Peer, c: Seq<(Option<Peer>, usize)>) -> SenderUsage {
    SenderUsage {
        count: less(u.count, sum(c, charge_count(who))),
        bytes: less(u.bytes, sum(c, charge_bytes(who))),
    }
}

/// The usage table once the charges `c` against the inbox of `recipient` are given back.
pub open spec fn released(
    usage: Map<(Peer, Peer), SenderUsage>,
    recipient: Peer,
    c: Seq<(Option<Peer>, usize)>,
) -> Map<(Peer, Peer), SenderUsage> {
    usage.map_entries(
        |k: (Peer, Peer), u: SenderUsage|
            if k.1 == recipient {
                reduced(u, k.0, c)
            } else {
                u
            },
    )
}

/// The charges of a queue fall on its senders.
pub proof fn lemma_charges(q: Seq<Envelope>, who: Peer)
    ensures
        sum(charges(q), charge_count(who)) == sent_count(q, who),
        sum(charges(q), charge_bytes(who)) == sent_bytes(q, who),
{
    lemma_sum_map(
        q,
        |e: Envelope| charge(e),
        charge_count(who),
        count_weight(who),
    );
    lemma_sum_map(
        q,
        |e: Envelope| charge(e),
        charge_bytes(who),
        bytes_weight(who),
    );
}

/// Gives back the charges of envelopes that left the inbox of `recipient_id`.
pub fn apply_usage_decrements(
    sender_inbox_usage: &mut KeyedMap<(String, String), SenderUsage>,
    recipient_id: &str,
    decrements: &Vec<(Option<String>, usize)>,
)
    requires
        old(sender_inbox_usage).wf(),
    ensures
        final(sender_inbox_usage).wf(),
        final(sender_inbox_usage)@ == released(
            old(sender_inbox_usage)@,
            recipient_id@,
            named_charges(decrements@),
        ),
{
    let ghost before = sender_inbox_usage@;
    let mut i: usize = 0;
    proof {
        assert(named_charges(decrements@).take(0) =~= Seq::empty());
        assert(before =~= released(before, recipient_id@, Seq::empty()));
    }
    while i < decrements.len()
        invariant
            i <= decrements@.len(),
            sender_inbox_usage.wf(),
            sender_inbox_usage@ == released(
                before,
                recipient_id@,
                named_charges(decrements@).take(i as int),
            ),
        decreases decrements@.len() - i,
    {
        let ghost c = named_charges(decrements@)[i as int];
        let ghost done = named_charges(decrements@).take(i as int);
        proof {
            assert(named_charges(decrements@).take(i + 1) =~= done.push(c));
            assert forall|who: Peer|
                #![trigger charge_count(who)]
                sum(done.push(c), charge_count(who)) == sum(done, charge_count(who)) + charge_count(
                    who,
                )(c) && sum(done.push(c), charge_bytes(who)) == sum(done, charge_bytes(who))
                    + charge_bytes(who)(c) by {
                lemma_sum_push(done, c, charge_count(who));
                lemma_sum_push(done, c, charge_bytes(who));
            }
        }
        match &decrements[i].0 {
            Some(sid) => {
                let key = (sid.clone(), recipient_id.to_owned());
                let ghost k = (sid@, recipient_id@);
                match sender_inbox_usage.get(&key) {
                    Some(usage) => {
                        let lowered = SenderUsage {
                            count: usage.count.saturating_sub(1),
                            bytes: usage.bytes.saturating_sub(decrements[i].1),
                        };
                        let ghost mid = sender_inbox_usage@;
                        sender_inbox_usage.insert(key, lowered);
                        proof {
                            assert(before.contains_key(k));
                            assert(sender_inbox_usage@ =~= released(
                                before,
                                recipient_id@,
                                done.push(c),
                            ));
                        }
                    },
                    None => {
                        proof {
                            assert(sender_inbox_usage@ =~= released(
                                before,
                                recipient_id@,
                                done.push(c),
                            ));
                        }
                    },
                }
            },
            None => {
                proof {
                    assert(sender_inbox_usage@ =~= released(
                        before,
                        recipient_id@,
                        done.push(c),
                    ));
                }
            },
        }
        i = i + 1;
    }
    proof {
        assert(named_charges(decrements@).take(i as int) =~= named_charges(decrements@));
    }
}

/// Whether the two peers have been seen to send to each other, each within `window` of `now`.
pub open spec fn mutually_active(v: RelayView, a: Peer, b: Peer, now: u128, window: u128) -> bool {
    &&& v.pairs.contains_key((a, b))
    &&& v.directed.contains_key((a, b))
    &&& v.directed.contains_key((b, a))
    &&& elapsed(now, v.directed[(a, b)]) <= window
    &&& elapsed(now, v.directed[(b, a)]) <= window
}

/// The limits under which `sender` writes to `recipient`: Tier 3 while both are active, Tier 2
/// once the recipient has ever written back, Tier 1 otherwise.
pub open spec fn tier_of(
    qos: RelayQosConfig,
    v: RelayView,
    sender: Peer,
    recipient: Peer,
    now: u128,
) -> TierLimits {
    if mutually_active(v, sender, recipient, now, qos.bidirectional_window) {
        qos.tier3
    } else if v.directed.contains_key((recipient, sender)) {
        qos.tier2
    } else {
        qos.tier1
    }
}

/// The limits under which `sender` writes to `recipient`.
pub fn get_tier(
    config: &RelayQosConfig,
    inner: &RelayStateInner,
    sender: &str,
    recipient: &str,
    now: u128,
) -> (r: TierLimits)
    requires
        inner.tables_wf(),
    ensures
        r == tier_of(*config, inner@, sender@, recipient@, now),
{
    let forth = (sender.to_owned(), recipient.to_owned());
    let back = (recipient.to_owned(), sender.to_owned());
    let s_to_r = inner.directed_last_seen.get(&forth);
    let r_to_s = inner.directed_last_seen.get(&back);
    if inner.bidirectional_pairs.contains_key(&forth) {
        match (s_to_r, r_to_s) {
            (Some(s_ts), Some(r_ts)) => {
                if time_since(now, *s_ts) <= config.bidirectional_window && time_since(now, *r_ts)
                    <= config.bidirectional_window {
                    return config.tier3;
                }
            },
            _ => {},
        }
    }
    if r_to_s.is_some() {
        config.tier2
    } else {
        config.tier1
    }
}

/// `v` once `sender` has written to `recipient` at `now`: the direction is noted, and the pair
/// too if the recipient wrote back within the window.
pub open spec fn directed(
    v: RelayView,
    sender: Peer,
    recipient: Peer,
    now: u128,
    window: u128,
) -> RelayView {
    let seen = v.directed.insert((sender, recipient), now);
    RelayView {
        directed: seen,
        pairs: if seen.contains_key((recipient, sender)) && elapsed(now, seen[(recipient, sender)])
            <= window {
            v.pairs.insert((sender, recipient), true).insert((recipient, sender), true)
        } else {
            v.pairs
        },
        ..v
    }
}

/// Notes that `sender` has written to `recipient`.
pub fn record_direction(
    inner: &mut RelayStateInner,
    sender: &str,
    recipient: &str,
    now: u128,
    window: u128,
)
    requires
        old(inner).tables_wf(),
    ensures
        final(inner).tables_wf(),
        final(inner)@ == directed(old(inner)@, sender@, recipient@, now, window),
{
    inner.directed_last_seen.insert((sender.to_owned(), recipient.to_owned()), now);
    let back = (recipient.to_owned(), sender.to_owned());
    let mutual = match inner.directed_last_seen.get(&back) {
        Some(t) => time_since(now, *t) <= window,
        None => false,
    };
    if mutual {
        inner.bidirectional_pairs.insert((sender.to_owned(), recipient.to_owned()), true);
        inner.bidirectional_pairs.insert(back, true);
    }
}

// ---------------------------------------------------------------------------
// Statistics
// ---------------------------------------------------------------------------

/// `v` once an envelope that waited `lat_ms` has been delivered to `recipient`.
pub open spec fn delivered_one(v: RelayView, recipient: Peer, lat_ms: u128, now: u128) -> RelayView {
    let lat = lat_ms as u64;
    RelayView {
        latency_min_ms: if lat < v.latency_min_ms {
            lat
        } else {
            v.latency_min_ms
        },
        latency_max_ms: if lat > v.latency_max_ms {
            lat
        } else {
            v.latency_max_ms
        },
        latency_sum_ms: if v.latency_sum_ms + lat > u64::MAX {
            u64::MAX
        } else {
            (v.latency_sum_ms + lat) as u64
        },
        latency_count: (v.latency_count + 1) as u64,
        total_delivered: (v.total_delivered + 1) as u64,
        inbox_deliveries: v.inbox_deliveries.insert(
            recipient,
            stamped(window_of(v.inbox_deliveries, recipient), now),
        ),
        ..v
    }
}

/// `v` once envelopes that waited `lats` have been delivered to `recipient`.
pub open spec fn delivered(v: RelayView, recipient: Peer, lats: Seq<u128>, now: u128) -> RelayView
    decreases lats.len(),
{
    if lats.len() == 0 {
        v
    } else {
        delivered_one(delivered(v, recipient, lats.drop_last(), now), recipient, lats.last(), now)
    }
}

/// Deliveries only touch the statistics, and count every envelope.
pub proof fn lemma_delivered(v: RelayView, recipient: Peer, lats: Seq<u128>, now: u128)
    requires
        v.latency_count + lats.len() <= u64::MAX,
        v.total_delivered + lats.len() <= u64::MAX,
    ensures
        ({
            let w = delivered(v, recipient, lats, now);
            &&& w.latency_count == v.latency_count + lats.len()
            &&& w.total_delivered == v.total_delivered + lats.len()
            &&& w == (RelayView {
                latency_min_ms: w.latency_min_ms,
                latency_max_ms: w.latency_max_ms,
                latency_sum_ms: w.latency_sum_ms,
                latency_count: w.latency_count,
                total_delivered: w.total_delivered,
                inbox_deliveries: w.inbox_deliveries,
                ..v
            })
        }),
    decreases lats.len(),
{
    if lats.len() > 0 {
        lemma_delivered(v, recipient, lats.drop_last(), now);
    }
}

/// Deliveries change neither inboxes nor quotas nor known message ids.
pub proof fn lemma_delivered_elsewhere(v: RelayView, recipient: Peer, lats: Seq<u128>, now: u128)
    ensures
        ({
            let w = delivered(v, recipient, lats, now);
            &&& w.queues == v.queues && w.usage == v.usage && w.dedup == v.dedup
            &&& w.peer_last_seen == v.peer_last_seen
        }),
    decreases lats.len(),
{
    if lats.len() > 0 {
        lemma_delivered_elsewhere(v, recipient, lats.drop_last(), now);
    }
}

/// Enters deliveries to `recipient_id` into the day's window and the lifetime statistics.
pub fn record_deliveries(
    inner: &mut RelayStateInner,
    recipient_id: &str,
    latencies: &Vec<u128>,
    now: u128,
)
    requires
        old(inner).tables_wf(),
        old(inner)@.latency_count + latencies@.len() <= u64::MAX,
        old(inner)@.total_delivered + latencies@.len() <= u64::MAX,
    ensures
        final(inner).tables_wf(),
        final(inner)@ == delivered(old(inner)@, recipient_id@, latencies@, now),
{
    let ghost before = inner@;
    let mut i: usize = 0;
    while i < latencies.len()
        invariant
            i <= latencies@.len(),
            inner.tables_wf(),
            before.latency_count + latencies@.len() <= u64::MAX,
            before.total_delivered + latencies@.len() <= u64::MAX,
            inner@ == delivered(before, recipient_id@, latencies@.take(i as int), now),
        decreases latencies@.len() - i,
    {
        proof {
            let t = latencies@.take(i as int);
            lemma_delivered(before, recipient_id@, t, now);
            assert(latencies@.take(i + 1) =~= t.push(latencies@[i as int]));
            assert(t.push(latencies@[i as int]).drop_last() =~= t);
        }
        let ghost prior = inner@;
        let lat: u64 = #[verifier::truncate] (latencies[i] as u64);
        if lat < inner.latency_min_ms {
            inner.latency_min_ms = lat;
        }
        if lat > inner.latency_max_ms {
            inner.latency_max_ms = lat;
        }
        inner.latency_sum_ms = inner.latency_sum_ms.saturating_add(lat);
        inner.latency_count = inner.latency_count + 1;
        inner.total_delivered = inner.total_delivered + 1;
        let key = recipient_id.to_owned();
        let mut window: VecDeque<u128> = match inner.inbox_deliveries.remove(&key) {
            Some(w) => w,
            None => VecDeque::new(),
        };
        push_timestamped(&mut window, now);
        inner.inbox_deliveries.insert(key, window);
        proof {
            assert(inner@.inbox_deliveries =~= delivered_one(
                prior,
                recipient_id@,
                latencies@[i as int],
                now,
            ).inbox_deliveries);
        }
        i = i + 1;
    }
    proof {
        assert(latencies@.take(i as int) =~= latencies@);
    }
}

/// `v` once `sender` has sent something at `now`.
pub open spec fn sent(v: RelayView, sender: Peer, now: u128) -> RelayView {
    RelayView {
        peer_sends: v.peer_sends.insert(sender, stamped(window_of(v.peer_sends, sender), now)),
        ..v
    }
}

/// Enters a sending by `sender` into the day's window.
pub fn record_send(inner: &mut RelayStateInner, sender: &str, now: u128)
    requires
        old(inner).tables_wf(),
    ensures
        final(inner).tables_wf(),
        final(inner)@ == sent(old(inner)@, sender@, now),
{
    let ghost before = inner@;
    let key = sender.to_owned();
    let mut window: VecDeque<u128> = match inner.peer_sends.remove(&key) {
        Some(w) => w,
        None => VecDeque::new(),
    };
    push_timestamped(&mut window, now);
    inner.peer_sends.insert(key, window);
    proof {
        assert(inner@.peer_sends =~= sent(before, sender@, now).peer_sends);
    }
}

// ---------------------------------------------------------------------------
// Deduplication
// ---------------------------------------------------------------------------

/// Forgets the message ids that have run out by `now`.
pub fn prune_dedup(dedup: &mut KeyedMap<String, u128>, now: u128)
    requires
        old(dedup).wf(),
    ensures
        final(dedup).wf(),
        final(dedup)@ == above(old(dedup)@, now),
{
    dedup.keep_above(now);
}

/// `d` without the given message ids.
pub open spec fn forgotten(d: Map<Seq<char>, u128>, ids: Seq<Seq<char>>) -> Map<Seq<char>, u128> {
    d.remove_keys(ids.to_set())
}

/// Forgets the given message ids.
pub fn forget(dedup: &mut KeyedMap<String, u128>, ids: &Vec<String>)
    requires
        old(dedup).wf(),
    ensures
        final(dedup).wf(),
        final(dedup)@ == forgotten(old(dedup)@, texts(ids@)),
{
    let ghost before = dedup@;
    let mut i: usize = 0;
    proof {
        assert(forgotten(before, texts(ids@).take(0)) =~= before);
    }
    while i < ids.len()
        invariant
            i <= ids@.len(),
            dedup.wf(),
            dedup@ == forgotten(before, texts(ids@).take(i as int)),
        decreases ids@.len() - i,
    {
        let _gone = dedup.remove(&ids[i]);
        proof {
            let t = texts(ids@).take(i as int);
            let t2 = texts(ids@).take(i + 1);
            assert(t2 =~= t.push(ids@[i as int]@));
            assert forall|x: Seq<char>| t2.contains(x) == (t.contains(x) || x == ids@[i as int]@) by {
                if t.contains(x) {
                    let j = choose|j: int| 0 <= j < t.len() && t[j] == x;
                    assert(t2[j] == x);
                }
                if x == ids@[i as int]@ {
                    assert(t2[t.len() as int] == x);
                }
            }
            assert(dedup@ =~= forgotten(before, t2));
        }
        i = i + 1;
    }
    proof {
        assert(texts(ids@).take(i as int) =~= texts(ids@));
    }
}

} // verus!
