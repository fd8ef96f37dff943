//! What the relay reports about itself.
use std::collections::VecDeque;

use vstd::prelude::*;
use vstd::string::*;

use crate::keyed::KeyedMap;
use crate::relay::config::SECOND;
use crate::relay::queue::count_in_window;
use crate::relay::queue::elapsed;
use crate::relay::queue::live;
use crate::relay::queue::size_weight;
use crate::relay::queue::time_since;
use crate::relay::queue::total_bytes;
use crate::relay::queue::trailing_within;
use crate::relay::queue::Inbox;
use crate::relay::state::window_of;
use crate::relay::state::Peer;
use crate::relay::state::RelayStateInner;
use crate::relay::state::RelayView;
use crate::relay::state::SenderUsage;
use crate::sorting::arranged;
use crate::sorting::lemma_rearranged;
use crate::sorting::lemma_rearranged_distinct;
use crate::sorting::sort;
use crate::sorting::sorted;
use crate::sorting::Ranked;
use crate::sums::lemma_sum_add;
use crate::sums::lemma_sum_push;
use crate::sums::sum;
use crate::text::copy_opt;
use crate::text::lemma_text_le_order;
use crate::text::not_after;
use crate::text::same;
use crate::text::text_le;

verus! {

/// What one sender has in one inbox.
pub struct InboxSenderInfo {
    pub sender_id: String,
    pub count: usize,
    pub bytes: usize,
}

/// Most bytes first; equally many by name.
impl Ranked for InboxSenderInfo {
    open spec fn ranks(&self, other: &Self) -> bool {
        self.bytes > other.bytes || (self.bytes == other.bytes && text_le(
            self.sender_id@,
            other.sender_id@,
        ))
    }

    proof fn lemma_total(a: &Self, b: &Self) {
        lemma_text_le_order(a.sender_id@, b.sender_id@, b.sender_id@);
    }

    proof fn lemma_transitive(a: &Self, b: &Self, c: &Self) {
        lemma_text_le_order(a.sender_id@, b.sender_id@, c.sender_id@);
    }

    fn may_precede(&self, other: &Self) -> (r: bool) {
        self.bytes > other.bytes || (self.bytes == other.bytes && not_after(
            self.sender_id.as_str(),
            other.sender_id.as_str(),
        ))
    }
}

/// One inbox.
pub struct InboxInfo {
    pub peer_id: String,
    /// Envelopes queued, expired ones included.
    pub queue_len: usize,
    /// Envelopes queued that have not expired.
    pub queue_depth: usize,
    /// Their bytes.
    pub queue_bytes: usize,
    pub last_seen_secs: u64,
    pub delivered_1m: usize,
    pub delivered_1h: usize,
    pub delivered_24h: usize,
    /// Per-sender usage, most bytes first.
    pub senders: Vec<InboxSenderInfo>,
}

/// Deepest first; equally deep by name.
impl Ranked for InboxInfo {
    open spec fn ranks(&self, other: &Self) -> bool {
        self.queue_depth > other.queue_depth || (self.queue_depth == other.queue_depth && text_le(
            self.peer_id@,
            other.peer_id@,
        ))
    }

    proof fn lemma_total(a: &Self, b: &Self) {
        lemma_text_le_order(a.peer_id@, b.peer_id@, b.peer_id@);
    }

    proof fn lemma_transitive(a: &Self, b: &Self, c: &Self) {
        lemma_text_le_order(a.peer_id@, b.peer_id@, c.peer_id@);
    }

    fn may_precede(&self, other: &Self) -> (r: bool) {
        self.queue_depth > other.queue_depth || (self.queue_depth == other.queue_depth && not_after(
            self.peer_id.as_str(),
            other.peer_id.as_str(),
        ))
    }
}

/// Delivery latency over the relay's lifetime, in milliseconds.
#[derive(Clone, Copy, Debug, PartialEq, Eq, Structural)]
pub struct LatencyInfo {
    pub min: u64,
    pub max: u64,
    pub avg: u64,
    pub count: u64,
}

/// One WebSocket client.
pub struct WsClientStats {
    pub peer_id: String,
    pub ip: Option<String>,
    pub web_ui_url: Option<String>,
    pub version: Option<String>,
    pub connected_secs: u64,
    pub sent_1m: usize,
    pub sent_1h: usize,
    pub sent_24h: usize,
}

/// By name.
impl Ranked for WsClientStats {
    open spec fn ranks(&self, other: &Self) -> bool {
        text_le(self.peer_id@, other.peer_id@)
    }

    proof fn lemma_total(a: &Self, b: &Self) {
        lemma_text_le_order(a.peer_id@, b.peer_id@, b.peer_id@);
    }

    proof fn lemma_transitive(a: &Self, b: &Self, c: &Self) {
        lemma_text_le_order(a.peer_id@, b.peer_id@, c.peer_id@);
    }

    fn may_precede(&self, other: &Self) -> (r: bool) {
        not_after(self.peer_id.as_str(), other.peer_id.as_str())
    }
}

/// What the relay reports about itself.
pub struct DebugStats {
    pub peer_count: usize,
    /// Envelopes queued in all inboxes, expired ones included.
    pub total_queued: u128,
    /// Bytes of the envelopes queued in all inboxes that have not expired.
    pub total_queued_bytes: u128,
    pub total_stored: u64,
    pub total_delivered: u64,
    pub inboxes: Vec<InboxInfo>,
    pub latency_ms: Option<LatencyInfo>,
    pub ws_clients: Vec<WsClientStats>,
}

// ---------------------------------------------------------------------------
// Senders of an inbox
// ---------------------------------------------------------------------------

/// Whether a usage entry is worth listing.
pub open spec fn in_use(u: SenderUsage) -> bool {
    u.count > 0 || u.bytes > 0
}

/// Whether `l` lists every sender with something in the inbox of `peer`, each once and in order.
pub open spec fn lists_senders(
    l: Seq<InboxSenderInfo>,
    usage: Map<(Peer, Peer), SenderUsage>,
    peer: Peer,
) -> bool {
    &&& sorted(l)
    &&& l.map_values(|x: InboxSenderInfo| x.sender_id@).no_duplicates()
    &&& forall|i: int|
        0 <= i < l.len() ==> usage.contains_key(((#[trigger] l[i]).sender_id@, peer)) && in_use(
            usage[(l[i].sender_id@, peer)],
        ) && usage[(l[i].sender_id@, peer)] == (SenderUsage {
            count: l[i].count,
            bytes: l[i].bytes,
        })
    &&& forall|s: Peer| #[trigger]
        usage.contains_key((s, peer)) && in_use(usage[(s, peer)]) ==> exists|i: int|
            0 <= i < l.len() && (#[trigger] l[i]).sender_id@ == s
}

fn senders_of(usage: &KeyedMap<(String, String), SenderUsage>, peer: &str) -> (r: Vec<
    InboxSenderInfo,
>)
    requires
        usage.wf(),
    ensures
        lists_senders(r@, usage@, peer@),
{
    let mut out: Vec<InboxSenderInfo> = Vec::new();
    let mut i: usize = 0;
    let ghost mut from: Seq<int> = Seq::empty();
    proof {
        usage.lemma_entries();
    }
    while i < usage.len()
        invariant
            usage.wf(),
            i <= usage.count(),
            forall|a: int, b: int|
                0 <= a < b < usage.count() ==> #[trigger] usage.name_at(a)
                    != #[trigger] usage.name_at(b),
            from.len() == out@.len(),
            forall|a: int, b: int| 0 <= a < b < from.len() ==> from[a] < from[b],
            forall|a: int|
                0 <= a < from.len() ==> 0 <= #[trigger] from[a] < i && usage.name_at(from[a]) == (
                    out@[a].sender_id@,
                    peer@,
                ) && usage@.contains_key(usage.name_at(from[a])) && usage@[usage.name_at(from[a])]
                    == (SenderUsage { count: out@[a].count, bytes: out@[a].bytes }) && in_use(
                    usage@[usage.name_at(from[a])],
                ),
            forall|k: int|
                0 <= k < i && (#[trigger] usage.name_at(k)).1 == peer@ && in_use(
                    usage@[usage.name_at(k)],
                ) ==> from.contains(k),
        decreases usage.count() - i,
    {
        let key = usage.key_at(i);
        let u: SenderUsage = *usage.value_at(i);
        let ghost prior = from;
        if same(key.1.as_str(), peer) && (u.count > 0 || u.bytes > 0) {
            out.push(InboxSenderInfo { sender_id: key.0.clone(), count: u.count, bytes: u.bytes });
            proof {
                from = from.push(i as int);
            }
        }
        proof {
            assert forall|k: int|
                0 <= k < i + 1 && (#[trigger] usage.name_at(k)).1 == peer@ && in_use(
                    usage@[usage.name_at(k)],
                ) implies from.contains(k) by {
                if k < i {
                    assert(prior.contains(k));
                    let w = choose|w: int| 0 <= w < prior.len() && prior[w] == k;
                    assert(from[w] == k);
                } else {
                    assert(from[from.len() - 1] == k);
                }
            }
        }
        i = i + 1;
    }
    let ghost list = out@;
    let ghost name = |x: InboxSenderInfo| x.sender_id@;
    proof {
        let names = list.map_values(name);
        assert forall|a: int, b: int|
            0 <= a < names.len() && 0 <= b < names.len() && a != b implies names[a] != names[b] by {
            if a < b {
                assert(from[a] < from[b]);
                assert(usage.name_at(from[a]) != usage.name_at(from[b]));
            } else {
                assert(from[b] < from[a]);
                assert(usage.name_at(from[b]) != usage.name_at(from[a]));
            }
        }
    }
    let r = sort(out);
    proof {
        lemma_rearranged(r@, list);
        lemma_rearranged_distinct(r@, list, name);
        assert forall|j: int| 0 <= j < r@.len() implies usage@.contains_key(
            ((#[trigger] r@[j]).sender_id@, peer@),
        ) && in_use(usage@[(r@[j].sender_id@, peer@)]) && usage@[(r@[j].sender_id@, peer@)] == (
        SenderUsage { count: r@[j].count, bytes: r@[j].bytes }) by {
            assert(r@.contains(r@[j]));
            assert(list.contains(r@[j]));
            let a = choose|a: int| 0 <= a < list.len() && list[a] == r@[j];
            assert(usage.name_at(from[a]) == (list[a].sender_id@, peer@));
        }
        assert forall|s: Peer| #[trigger]
            usage@.contains_key((s, peer@)) && in_use(usage@[(s, peer@)]) implies exists|j: int|
            0 <= j < r@.len() && (#[trigger] r@[j]).sender_id@ == s by {
            let k = choose|k: int| 0 <= k < usage.count() && #[trigger] usage.name_at(k) == (
                s,
                peer@,
            );
            assert(from.contains(k));
            let a = choose|a: int| 0 <= a < from.len() && from[a] == k;
            assert(list[a].sender_id@ == s);
            assert(list.contains(list[a]));
            assert(r@.contains(list[a]));
            let j = choose|j: int| 0 <= j < r@.len() && r@[j] == list[a];
            assert(r@[j].sender_id@ == s);
        }
        assert(r@.map_values(name) =~= r@.map_values(|x: InboxSenderInfo| x.sender_id@));
    }
    r
}

// ---------------------------------------------------------------------------
// Inboxes
// ---------------------------------------------------------------------------

/// Whole seconds from `since` to `now`.
pub open spec fn seconds_since(now: u128, since: u128) -> u64 {
    (elapsed(now, since) / SECOND as int) as u64
}

/// How many instants of the window `d` fall within the last `secs` seconds.
pub open spec fn within_secs(d: Seq<u128>, now: u128, secs: int) -> nat {
    trailing_within(d, now, (secs * SECOND) as u128)
}

/// Whether `info` describes the inbox of `peer`.
pub open spec fn describes_inbox(info: InboxInfo, v: RelayView, peer: Peer, now: u128) -> bool {
    let q = v.queues[peer];
    let d = window_of(v.inbox_deliveries, peer);
    &&& info.peer_id@ == peer
    &&& info.queue_len == q.len()
    &&& info.queue_depth == live(q, now).len()
    &&& info.queue_bytes == total_bytes(live(q, now))
    &&& info.last_seen_secs == if v.peer_last_seen.contains_key(peer) {
        seconds_since(now, v.peer_last_seen[peer])
    } else {
        0
    }
    &&& info.delivered_1m == within_secs(d, now, 60)
    &&& info.delivered_1h == within_secs(d, now, 3600)
    &&& info.delivered_24h == within_secs(d, now, 86_400)
    &&& lists_senders(info.senders@, v.usage, peer)
}

/// Whether `l` lists every inbox, each once and in order.
pub open spec fn lists_inboxes(l: Seq<InboxInfo>, v: RelayView, now: u128) -> bool {
    &&& sorted(l)
    &&& l.map_values(|x: InboxInfo| x.peer_id@).no_duplicates()
    &&& forall|i: int|
        0 <= i < l.len() ==> v.queues.contains_key((#[trigger] l[i]).peer_id@) && describes_inbox(
            l[i],
            v,
            l[i].peer_id@,
            now,
        )
    &&& forall|p: Peer| #[trigger]
        v.queues.contains_key(p) ==> exists|i: int|
            0 <= i < l.len() && (#[trigger] l[i]).peer_id@ == p
}

/// How many envelopes have not expired, and their bytes.
fn live_totals(queue: &Inbox, now: u128) -> (r: (usize, usize))
    requires
        total_bytes(queue@) <= usize::MAX,
    ensures
        r.0 == live(queue@, now).len(),
        r.1 == total_bytes(live(queue@, now)),
{
    let mut count: usize = 0;
    let mut bytes: usize = 0;
    let mut i: usize = 0;
    proof {
        reveal(Seq::filter);
        assert(queue@.take(0) =~= Seq::empty());
    }
    while i < queue.len()
        invariant
            i <= queue@.len(),
            total_bytes(queue@) <= usize::MAX,
            count <= i,
            count == live(queue@.take(i as int), now).len(),
            bytes == total_bytes(live(queue@.take(i as int), now)),
        decreases queue@.len() - i,
    {
        let e = queue.get(i);
        proof {
            let t = queue@.take(i as int);
            let t2 = queue@.take(i + 1);
            assert(t2 =~= t.push(e@));
            assert(t2.drop_last() =~= t);
            reveal(Seq::filter);
            lemma_sum_push(live(t, now), e@, size_weight());
            crate::relay::accept::lemma_live_expired(t2, now, size_weight());
            assert(queue@ =~= t2 + queue@.skip(i + 1));
            lemma_sum_add(t2, queue@.skip(i + 1), size_weight());
        }
        if e.expires_at > now {
            count = count + 1;
            bytes = bytes + e.size_bytes;
        }
        i = i + 1;
    }
    proof {
        assert(queue@.take(i as int) =~= queue@);
    }
    (count, bytes)
}

fn window_count(
    windows: &KeyedMap<String, VecDeque<u128>>,
    peer: &String,
    now: u128,
    secs: u64,
) -> (r: usize)
    requires
        windows.wf(),
    ensures
        r == within_secs(window_of(windows@, peer@), now, secs as int),
{
    match windows.get(peer) {
        Some(d) => count_in_window(d, now, secs),
        None => 0,
    }
}

fn seconds_between(now: u128, since: u128) -> (r: u64)
    ensures
        r == seconds_since(now, since),
{
    let d: u128 = time_since(now, since) / SECOND;
    #[verifier::truncate]
    (d as u64)
}

fn inbox_info(inner: &RelayStateInner, peer_id: &String, queue: &Inbox, now: u128) -> (r: InboxInfo)
    requires
        inner.tables_wf(),
        inner@.queues.contains_key(peer_id@),
        inner@.queues[peer_id@] == queue@,
        total_bytes(queue@) <= usize::MAX,
    ensures
        describes_inbox(r, inner@, peer_id@, now),
{
    let (queue_depth, queue_bytes) = live_totals(queue, now);
    let last_seen_secs: u64 = match inner.peer_last_seen.get(peer_id) {
        Some(t) => seconds_between(now, *t),
        None => 0,
    };
    InboxInfo {
        peer_id: peer_id.clone(),
        queue_len: queue.len(),
        queue_depth,
        queue_bytes,
        last_seen_secs,
        delivered_1m: window_count(&inner.inbox_deliveries, peer_id, now, 60),
        delivered_1h: window_count(&inner.inbox_deliveries, peer_id, now, 3600),
        delivered_24h: window_count(&inner.inbox_deliveries, peer_id, now, 86_400),
        senders: senders_of(&inner.sender_inbox_usage, peer_id.as_str()),
    }
}

fn list_inboxes(inner: &RelayStateInner, now: u128) -> (r: Vec<InboxInfo>)
    requires
        inner.tables_wf(),
        forall|p: Peer| #[trigger]
            inner@.queues.contains_key(p) ==> total_bytes(inner@.queues[p]) <= usize::MAX,
    ensures
        lists_inboxes(r@, inner@, now),
        r@.len() == inner.queues.count(),
{
    let queues = &inner.queues;
    let ghost v = inner@;
    let mut out: Vec<InboxInfo> = Vec::new();
    let mut i: usize = 0;
    proof {
        queues.lemma_entries();
    }
    while i < queues.len()
        invariant
            inner.tables_wf(),
            *queues == inner.queues,
            v == inner@,
            forall|p: Peer| #[trigger]
                v.queues.contains_key(p) ==> total_bytes(v.queues[p]) <= usize::MAX,
            i <= queues.count(),
            out@.len() == i,
            forall|a: int|
                0 <= a < i ==> (#[trigger] out@[a]).peer_id@ == queues.name_at(a)
                    && v.queues.contains_key(out@[a].peer_id@) && describes_inbox(
                    out@[a],
                    v,
                    out@[a].peer_id@,
                    now,
                ),
        decreases queues.count() - i,
    {
        let key = queues.key_at(i);
        let queue = queues.value_at(i);
        out.push(inbox_info(inner, key, queue, now));
        i = i + 1;
    }
    let ghost list = out@;
    let ghost name = |x: InboxInfo| x.peer_id@;
    proof {
        let names = list.map_values(name);
        assert forall|a: int, b: int|
            0 <= a < names.len() && 0 <= b < names.len() && a != b implies names[a] != names[b] by {
            assert(names[a] == list[a].peer_id@);
            assert(names[b] == list[b].peer_id@);
            if a < b {
                assert(queues.name_at(a) != queues.name_at(b));
            } else {
                assert(queues.name_at(b) != queues.name_at(a));
            }
        }
    }
    let r = sort(out);
    proof {
        lemma_rearranged(r@, list);
        lemma_rearranged_distinct(r@, list, name);
        assert forall|j: int| 0 <= j < r@.len() implies v.queues.contains_key(
            (#[trigger] r@[j]).peer_id@,
        ) && describes_inbox(r@[j], v, r@[j].peer_id@, now) by {
            assert(r@.contains(r@[j]));
            assert(list.contains(r@[j]));
            let a = choose|a: int| 0 <= a < list.len() && list[a] == r@[j];
            assert(list[a].peer_id@ == queues.name_at(a));
        }
        assert forall|p: Peer| #[trigger] v.queues.contains_key(p) implies exists|j: int|
            0 <= j < r@.len() && (#[trigger] r@[j]).peer_id@ == p by {
            let a = choose|a: int| 0 <= a < queues.count() && #[trigger] queues.name_at(a) == p;
            assert(list[a].peer_id@ == p);
            assert(list.contains(list[a]));
            assert(r@.contains(list[a]));
            let j = choose|j: int| 0 <= j < r@.len() && r@[j] == list[a];
            assert(r@[j].peer_id@ == p);
        }
        assert(r@.map_values(name) =~= r@.map_values(|x: InboxInfo| x.peer_id@));
    }
    r
}

pub open spec fn len_weight() -> spec_fn(InboxInfo) -> nat {
    |x: InboxInfo| x.queue_len as nat
}

pub open spec fn inbox_bytes_weight() -> spec_fn(InboxInfo) -> nat {
    |x: InboxInfo| x.queue_bytes as nat
}

fn inbox_totals(l: &Vec<InboxInfo>) -> (r: (u128, u128))
    ensures
        r.0 == sum(l@, len_weight()),
        r.1 == sum(l@, inbox_bytes_weight()),
{
    let mut n: u128 = 0;
    let mut b: u128 = 0;
    let mut i: usize = 0;
    while i < l.len()
        invariant
            i <= l@.len(),
            n == sum(l@.take(i as int), len_weight()),
            b == sum(l@.take(i as int), inbox_bytes_weight()),
            n <= i * 0xffff_ffff_ffff_ffff,
            b <= i * 0xffff_ffff_ffff_ffff,
        decreases l@.len() - i,
    {
        proof {
            assert(l@.take(i + 1) =~= l@.take(i as int).push(l@[i as int]));
            lemma_sum_push(l@.take(i as int), l@[i as int], len_weight());
            lemma_sum_push(l@.take(i as int), l@[i as int], inbox_bytes_weight());
            assert(i * 0xffff_ffff_ffff_ffff + 0xffff_ffff_ffff_ffff <= u128::MAX)
                by (nonlinear_arith)
                requires
                    i <= 0xffff_ffff_ffff_ffff,
            ;
            assert((i + 1) * 0xffff_ffff_ffff_ffff == i * 0xffff_ffff_ffff_ffff
                + 0xffff_ffff_ffff_ffff) by (nonlinear_arith);
        }
        n = n + l[i].queue_len as u128;
        b = b + l[i].queue_bytes as u128;
        i = i + 1;
    }
    proof {
        assert(l@.take(i as int) =~= l@);
    }
    (n, b)
}

// ---------------------------------------------------------------------------
// WebSocket clients
// ---------------------------------------------------------------------------

/// Whether `s` describes connection `id`.
pub open spec fn describes_client(s: WsClientStats, v: RelayView, id: u64, now: u128) -> bool {
    let c = v.ws_clients[id];
    let d = window_of(v.peer_sends, c.peer_id@);
    &&& v.ws_clients.contains_key(id)
    &&& s.peer_id == c.peer_id
    &&& s.ip == c.ip
    &&& s.web_ui_url == c.web_ui_url
    &&& s.version == c.version
    &&& s.connected_secs == seconds_since(now, c.connected_at)
    &&& s.sent_1m == within_secs(d, now, 60)
    &&& s.sent_1h == within_secs(d, now, 3600)
    &&& s.sent_24h == within_secs(d, now, 86_400)
}

/// Whether `l` lists the connections `ids`, in that order, and these are all there are.
pub open spec fn lists_connections(
    l: Seq<WsClientStats>,
    ids: Seq<u64>,
    v: RelayView,
    now: u128,
) -> bool {
    &&& ids.len() == l.len()
    &&& ids.no_duplicates()
    &&& forall|i: int| 0 <= i < l.len() ==> describes_client(#[trigger] l[i], v, ids[i], now)
    &&& forall|id: u64| #[trigger] v.ws_clients.contains_key(id) ==> ids.contains(id)
}

/// Whether `l` lists every connection, each once and in order.
pub open spec fn lists_clients(l: Seq<WsClientStats>, v: RelayView, now: u128) -> bool {
    sorted(l) && exists|ids: Seq<u64>| #[trigger] lists_connections(l, ids, v, now)
}

fn list_clients(inner: &RelayStateInner, now: u128) -> (r: Vec<WsClientStats>)
    requires
        inner.tables_wf(),
    ensures
        lists_clients(r@, inner@, now),
{
    let clients = &inner.ws_clients;
    let ghost v = inner@;
    let mut out: Vec<WsClientStats> = Vec::new();
    let mut i: usize = 0;
    proof {
        clients.lemma_entries();
    }
    while i < clients.len()
        invariant
            inner.tables_wf(),
            *clients == inner.ws_clients,
            v == inner@,
            i <= clients.count(),
            out@.len() == i,
            forall|a: int|
                0 <= a < i ==> describes_client(#[trigger] out@[a], v, clients.name_at(a), now),
        decreases clients.count() - i,
    {
        let c = clients.value_at(i);
        out.push(
            WsClientStats {
                peer_id: c.peer_id.clone(),
                ip: copy_opt(&c.ip),
                web_ui_url: copy_opt(&c.web_ui_url),
                version: copy_opt(&c.version),
                connected_secs: seconds_between(now, c.connected_at),
                sent_1m: window_count(&inner.peer_sends, &c.peer_id, now, 60),
                sent_1h: window_count(&inner.peer_sends, &c.peer_id, now, 3600),
                sent_24h: window_count(&inner.peer_sends, &c.peer_id, now, 86_400),
            },
        );
        i = i + 1;
    }
    let ghost list = out@;
    let r = sort(out);
    proof {
        let from = choose|from: Seq<int>| #[trigger] arranged(r@, list, from);
        let ids = Seq::new(r@.len(), |j: int| clients.name_at(from[j]));
        assert forall|a: int, b: int|
            0 <= a < ids.len() && 0 <= b < ids.len() && a != b implies ids[a] != ids[b] by {
            assert(from[a] != from[b]);
            if from[a] < from[b] {
                assert(clients.name_at(from[a]) != clients.name_at(from[b]));
            } else {
                assert(clients.name_at(from[b]) != clients.name_at(from[a]));
            }
        }
        assert forall|j: int| 0 <= j < r@.len() implies describes_client(
            #[trigger] r@[j],
            v,
            ids[j],
            now,
        ) by {
            assert(r@[j] == list[from[j]]);
        }
        assert forall|id: u64| #[trigger] v.ws_clients.contains_key(id) implies ids.contains(
            id,
        ) by {
            let a = choose|a: int| 0 <= a < clients.count() && #[trigger] clients.name_at(a) == id;
            assert(from.contains(a));
            let j = choose|j: int| 0 <= j < from.len() && from[j] == a;
            assert(ids[j] == id);
        }
        assert(lists_connections(r@, ids, v, now));
    }
    r
}

// ---------------------------------------------------------------------------
// The report
// ---------------------------------------------------------------------------

/// Delivery latency over the relay's lifetime; nothing before the first delivery.
pub open spec fn latency_of(v: RelayView) -> Option<LatencyInfo> {
    if v.latency_count > 0 {
        Some(
            LatencyInfo {
                min: v.latency_min_ms,
                max: v.latency_max_ms,
                avg: (v.latency_sum_ms / v.latency_count) as u64,
                count: v.latency_count,
            },
        )
    } else {
        None
    }
}

/// Reports on the relay.
pub fn debug_stats(inner: &RelayStateInner, now: u128) -> (r: DebugStats)
    requires
        inner.tables_wf(),
        forall|p: Peer| #[trigger]
            inner@.queues.contains_key(p) ==> total_bytes(inner@.queues[p]) <= usize::MAX,
    ensures
        r.peer_count == inner@.peer_last_seen.dom().len(),
        lists_inboxes(r.inboxes@, inner@, now),
        r.total_queued == sum(r.inboxes@, len_weight()),
        r.total_queued_bytes == sum(r.inboxes@, inbox_bytes_weight()),
        r.total_stored == inner.total_stored,
        r.total_delivered == inner.total_delivered,
        r.latency_ms == latency_of(inner@),
        lists_clients(r.ws_clients@, inner@, now),
{
    proof {
        inner.peer_last_seen.lemma_count();
    }
    let inboxes = list_inboxes(inner, now);
    let (total_queued, total_queued_bytes) = inbox_totals(&inboxes);
    let latency_ms: Option<LatencyInfo> = if inner.latency_count > 0 {
        Some(
            LatencyInfo {
                min: inner.latency_min_ms,
                max: inner.latency_max_ms,
                avg: inner.latency_sum_ms / inner.latency_count,
                count: inner.latency_count,
            },
        )
    } else {
        None
    };
    DebugStats {
        peer_count: inner.peer_last_seen.len(),
        total_queued,
        total_queued_bytes,
        total_stored: inner.total_stored,
        total_delivered: inner.total_delivered,
        inboxes,
        latency_ms,
        ws_clients: list_clients(inner, now),
    }
}

} // verus!
