//! What peers can rely on, in terms of what they send and what they get.
use vstd::prelude::*;
use vstd::utf8::encode_utf8;

use crate::codec::hex_of;
use crate::codec::sha256_of;
use crate::keyed::above;
use crate::relay::blobs::UploadOutcome;
use crate::relay::blobs::upload_outcome;
use crate::relay::config::RelayConfig;
use crate::relay::config::default_qos;
use crate::relay::evict::evicted;
use crate::relay::evict::evicted_oldest;
use crate::relay::evict::holding;
use crate::relay::evict::lemma_victim;
use crate::relay::evict::lighter;
use crate::relay::evict::overfull;
use crate::relay::evict::room;
use crate::relay::evict::room_oldest;
use crate::relay::evict::victim;
use crate::relay::fetch::InboxQuery;
use crate::relay::fetch::all_polled;
use crate::relay::fetch::all_results;
use crate::relay::fetch::fetched;
use crate::relay::fetch::handed_out;
use crate::relay::fetch::held_back;
use crate::relay::fetch::lemma_handed_out;
use crate::relay::fetch::poll_result;
use crate::relay::fetch::polled;
use crate::relay::history::lemma_pruned_exact;
use crate::relay::history::lemma_same_usage;
use crate::relay::history::usage_exact;
use crate::relay::laws::in_order;
use crate::relay::laws::law_fetch_is_first_in_first_out;
use crate::relay::laws::law_stored_envelope_is_fetched;
use crate::relay::laws::law_window_count_is_exact;
use crate::relay::queue::Envelope;
use crate::relay::queue::charges;
use crate::relay::queue::elapsed;
use crate::relay::queue::expired;
use crate::relay::queue::fetch_limit;
use crate::relay::queue::is_live;
use crate::relay::queue::latencies_ms;
use crate::relay::queue::left;
use crate::relay::queue::live;
use crate::relay::queue::recent;
use crate::relay::queue::sent_bytes;
use crate::relay::queue::sent_count;
use crate::relay::queue::size_weight;
use crate::relay::queue::taken;
use crate::relay::queue::waited_ms;
use crate::relay::requests::BatchStoreResult;
use crate::relay::requests::BatchStoreStatus;
use crate::relay::requests::ReplyBody;
use crate::relay::requests::answers;
use crate::relay::requests::batch_outcome;
use crate::relay::requests::batch_stored;
use crate::relay::requests::notifies;
use crate::relay::requests::reports;
use crate::relay::requests::status_of;
use crate::relay::state::Peer;
use crate::relay::state::RelayView;
use crate::relay::state::delivered;
use crate::relay::state::directed;
use crate::relay::state::lemma_delivered;
use crate::relay::state::lemma_delivered_elsewhere;
use crate::relay::state::queue_of;
use crate::relay::state::recent_peers;
use crate::relay::state::released;
use crate::relay::state::touched;
use crate::relay::state::usage_of;
use crate::relay::state::window_of;
use crate::relay::stats::InboxInfo;
use crate::relay::stats::WsClientStats;
use crate::relay::stats::describes_client;
use crate::relay::stats::describes_inbox;
use crate::relay::stats::latency_of;
use crate::relay::stats::lists_inboxes;
use crate::relay::store::Expiry;
use crate::relay::store::PayloadView;
use crate::relay::store::StoreOutcome;
use crate::relay::store::expiry_of;
use crate::relay::store::pruned;
use crate::relay::store::registered;
use crate::relay::store::store;
use crate::relay::ws::ClientView;
use crate::relay::ws::greeted;
use crate::sorting::Ranked;
use crate::sums::lemma_sum_push;
use crate::sums::sum;
use crate::text::after_prefix;
use crate::text::decimal;
use crate::text::text_le;

verus! {

// ---------------------------------------------------------------------------
// Lifetimes
// ---------------------------------------------------------------------------

/// An envelope that is to live for `t` seconds from its timestamp `ts` is kept for what is left of
/// them at the epoch second `e`, but for no longer than the relay keeps envelopes at all; one that
/// names no lifetime is kept for as long as that. One whose time is up is not taken in.
pub proof fn law_lifetime_is_what_was_asked_for(
    ttl_seconds: Option<u64>,
    timestamp: Option<u64>,
    ttl: u128,
    now: u128,
    epoch: Option<u64>,
)
    requires
        now + ttl <= u128::MAX,
    ensures
        ({
            let x = expiry_of(ttl_seconds, timestamp, ttl, now, epoch);
            match (ttl_seconds, timestamp, epoch) {
                (None, _, _) => x is Valid && x->Valid_0 - now == ttl,
                (Some(_), None, _) => x is Invalid,
                (Some(t), Some(ts), None) => if t == 0 {
                    x is Expired
                } else {
                    x is Invalid
                },
                (Some(t), Some(ts), Some(e)) => {
                    &&& x is Invalid <==> t > 0 && ts + t > u64::MAX
                    &&& x is Expired <==> t == 0 || (ts + t <= e && ts + t <= u64::MAX)
                    &&& x is Valid ==> {
                        let kept = x->Valid_0 - now;
                        let asked = (ts + t - e) * 1_000_000_000;
                        kept <= asked && kept <= ttl && (kept == asked || kept == ttl)
                    }
                },
            }
        }),
{
}

/// An accepted envelope can be fetched for as long as its sender asked for and the relay allows:
/// at every instant less than that after it came in, a recipient whose inbox is otherwise
/// untouched gets it, last of all, when it fetches everything.
pub proof fn law_accepted_envelope_can_be_fetched_while_it_lives(
    config: &RelayConfig,
    v: RelayView,
    p: PayloadView,
    now: u128,
    epoch: Option<u64>,
    pruned_at: u128,
    later: u128,
)
    requires
        now + config.ttl <= u128::MAX,
        store(config, v, p, now, epoch, pruned_at).1 is Accepted,
        later - now < config.ttl,
        p.ttl_seconds is Some ==> later - now < (p.timestamp->0 + p.ttl_seconds->0 - epoch->0)
            * 1_000_000_000,
    ensures
        ({
            let w = store(config, v, p, now, epoch, pruned_at).0;
            let all = InboxQuery { limit: None, max_size_bytes: None };
            let got = poll_result(w, p.recipient_id->0, all, later);
            got.len() > 0 && got.last() == p.body
        }),
{
    law_lifetime_is_what_was_asked_for(p.ttl_seconds, p.timestamp, config.ttl, now, epoch);
    let w = store(config, v, p, now, epoch, pruned_at).0;
    law_stored_envelope_is_fetched(
        config,
        v,
        p,
        now,
        epoch,
        pruned_at,
        w,
        later,
        pruned_at,
        later,
    );
}

// ---------------------------------------------------------------------------
// Fetching
// ---------------------------------------------------------------------------

proof fn lemma_same_filter<A>(s: Seq<A>, p: spec_fn(A) -> bool, q: spec_fn(A) -> bool)
    requires
        forall|a: A| #[trigger] p(a) == q(a),
    ensures
        s.filter(p) == s.filter(q),
{
    assert(p =~= q);
}

proof fn lemma_filter_first<A>(s: Seq<A>, p: spec_fn(A) -> bool)
    requires
        s.len() > 0,
    ensures
        s.filter(p) == (if p(s[0]) {
            seq![s[0]]
        } else {
            Seq::empty()
        }) + s.drop_first().filter(p),
{
    let one = seq![s[0]];
    assert(s =~= one + s.drop_first());
    Seq::filter_distributes_over_add(one, s.drop_first(), p);
    reveal(Seq::filter);
    assert(one.drop_last() =~= Seq::empty());
    assert(Seq::<A>::empty().filter(p) =~= Seq::empty());
    assert(one.filter(p) =~= if p(s[0]) {
        one
    } else {
        Seq::empty()
    });
}

/// Where a reader with a threshold stops reading.
pub open spec fn cut(q: Seq<Envelope>, n: nat, m: Option<usize>, k: int) -> bool {
    let small = |e: Envelope| m is None || e.size_bytes <= m->0;
    let large = |e: Envelope| m is Some && e.size_bytes > m->0;
    &&& 0 <= k <= q.len()
    &&& taken(q, n, m) == q.take(k).filter(small)
    &&& left(q, n, m) == q.take(k).filter(large) + q.skip(k)
    &&& taken(q, n, m).len() <= n
    &&& taken(q, n, m).len() < n ==> k == q.len()
}

pub proof fn lemma_cut(q: Seq<Envelope>, n: nat, m: Option<usize>) -> (k: int)
    ensures
        cut(q, n, m, k),
    decreases q.len(),
{
    let small = |e: Envelope| m is None || e.size_bytes <= m->0;
    let large = |e: Envelope| m is Some && e.size_bytes > m->0;
    if n == 0 || q.len() == 0 {
        reveal(Seq::filter);
        assert(q.take(0) =~= Seq::empty());
        assert(q.take(0).filter(small) =~= Seq::empty());
        assert(q.take(0).filter(large) =~= Seq::empty());
        assert(q.skip(0) =~= q);
        assert(left(q, n, m) =~= q.take(0).filter(large) + q.skip(0));
        0
    } else {
        let rest = q.drop_first();
        let fit = m is None || q[0].size_bytes <= m->0;
        let k = lemma_cut(
            rest,
            if fit {
                (n - 1) as nat
            } else {
                n
            },
            m,
        );
        let head = q.take(k + 1);
        assert(head.drop_first() =~= rest.take(k));
        assert(q.skip(k + 1) =~= rest.skip(k));
        lemma_filter_first(head, small);
        lemma_filter_first(head, large);
        assert(taken(q, n, m) =~= head.filter(small));
        assert(left(q, n, m) =~= head.filter(large) + q.skip(k + 1));
        k + 1
    }
}

/// A fetch reads the inbox from its oldest envelope on, up to some point `k` of what has not
/// expired. Up to there it hands out every envelope that is no larger than the reader's threshold,
/// in order, and leaves every larger one; beyond there everything stays. It stops before the end
/// only where the reader has as many envelopes as it asked for. Other inboxes are left alone.
pub proof fn law_fetch_hands_out_what_is_small_enough(
    v: RelayView,
    peer: Peer,
    query: InboxQuery,
    now: u128,
    pruned_at: u128,
) -> (k: int)
    requires
        v.queues.contains_key(peer),
    ensures
        ({
            let alive = v.queues[peer].filter(|e: Envelope| e.expires_at > now);
            let got = poll_result(v, peer, query, now);
            let w = fetched(v, peer, query, now, pruned_at);
            let m = query.max_size_bytes;
            &&& 0 <= k <= alive.len()
            &&& got == alive.take(k).filter(
                |e: Envelope| m is None || e.size_bytes <= m->0,
            ).map_values(|e: Envelope| e.body)
            &&& w.queues == v.queues.insert(
                peer,
                alive.take(k).filter(|e: Envelope| m is Some && e.size_bytes > m->0) + alive.skip(
                    k,
                ),
            )
            &&& query.limit is None ==> k == alive.len()
            &&& query.limit is Some ==> got.len() <= query.limit->0
            &&& query.limit is Some && got.len() < query.limit->0 ==> k == alive.len()
        }),
{
    let q = v.queues[peer];
    let m = query.max_size_bytes;
    let alive = q.filter(|e: Envelope| e.expires_at > now);
    lemma_same_filter(q, is_live(now), |e: Envelope| e.expires_at > now);
    assert(live(q, now) == alive);
    let n = fetch_limit(query.limit, alive.len());
    let k = lemma_cut(alive, n, m);
    let small = |e: Envelope| m is None || e.size_bytes <= m->0;
    alive.take(k).lemma_filter_len(small);
    let out = handed_out(q, query, now);
    lemma_delivered_elsewhere(
        RelayView {
            queues: v.queues.insert(peer, held_back(q, query, now)),
            usage: released(v.usage, peer, charges(expired(q, now) + out)),
            ..touched(v, peer, now)
        },
        peer,
        latencies_ms(out, now),
        now,
    );
    assert(poll_result(v, peer, query, now) =~= alive.take(k).filter(small).map_values(
        |e: Envelope| e.body,
    ));
    k
}

/// A fetch counts what it hands out, notes when the peer was seen, and keeps what is known of how
/// long envelopes wait: every wait, in whole milliseconds, lies between the least and the greatest
/// on record, and is one of those that the sum is made of.
pub proof fn law_fetch_counts_what_it_hands_out(
    v: RelayView,
    peer: Peer,
    query: InboxQuery,
    now: u128,
    pruned_at: u128,
)
    requires
        v.queues.contains_key(peer),
        v.latency_count + v.queues[peer].len() <= u64::MAX,
        v.total_delivered + v.queues[peer].len() <= u64::MAX,
    ensures
        ({
            let out = handed_out(v.queues[peer], query, now);
            let w = fetched(v, peer, query, now, pruned_at);
            let n = poll_result(v, peer, query, now).len();
            &&& w.total_delivered == v.total_delivered + n
            &&& w.latency_count == v.latency_count + n
            &&& w.peer_last_seen == v.peer_last_seen.insert(peer, now)
            &&& w.latency_min_ms <= v.latency_min_ms
            &&& w.latency_max_ms >= v.latency_max_ms
            &&& forall|i: int|
                0 <= i < out.len() && out[i].stored_at <= now && now - out[i].stored_at <= u64::MAX
                    ==> w.latency_min_ms <= (now - (#[trigger] out[i]).stored_at) / 1_000_000
                    <= w.latency_max_ms
            &&& n == 0 ==> w.latency_sum_ms == v.latency_sum_ms && w.latency_min_ms
                == v.latency_min_ms && w.latency_max_ms == v.latency_max_ms
            &&& n == 1 && out[0].stored_at <= now && v.latency_sum_ms + (now - out[0].stored_at)
                <= u64::MAX ==> w.latency_sum_ms - v.latency_sum_ms == (now - out[0].stored_at)
                / 1_000_000
            &&& w.inbox_deliveries.contains_key(peer) || n == 0
            &&& n > 0 ==> w.inbox_deliveries[peer].len() >= n && forall|i: int|
                w.inbox_deliveries[peer].len() - n <= i < w.inbox_deliveries[peer].len()
                    ==> #[trigger] w.inbox_deliveries[peer][i] == now
            &&& forall|other: Peer|
                other != peer ==> #[trigger] w.inbox_deliveries.contains_key(other)
                    == v.inbox_deliveries.contains_key(other) && (v.inbox_deliveries.contains_key(
                    other,
                ) ==> w.inbox_deliveries[other] == v.inbox_deliveries[other])
        }),
{
    let q = v.queues[peer];
    let out = handed_out(q, query, now);
    let lats = latencies_ms(out, now);
    let v1 = RelayView {
        queues: v.queues.insert(peer, held_back(q, query, now)),
        usage: released(v.usage, peer, charges(expired(q, now) + out)),
        ..touched(v, peer, now)
    };
    lemma_handed_out(q, query, now, |e: Envelope| 0nat);
    lemma_delivered(v1, peer, lats, now);
    lemma_delivered_waits(v1, peer, lats, now);
    lemma_delivered_window(v1, peer, lats, now);
    let w = fetched(v, peer, query, now, pruned_at);
    assert forall|i: int|
        0 <= i < out.len() && out[i].stored_at <= now && now - out[i].stored_at
            <= u64::MAX implies w.latency_min_ms <= (now - (#[trigger] out[i]).stored_at)
        / 1_000_000 <= w.latency_max_ms by {
        assert(lats[i] == (now - out[i].stored_at) / 1_000_000);
    }
    if out.len() == 1 {
        assert(lats[0] == waited_ms(out[0], now));
        assert(lats.drop_last() =~= Seq::empty());
        reveal_with_fuel(delivered, 3);
    }
}

proof fn lemma_delivered_waits(v: RelayView, peer: Peer, lats: Seq<u128>, now: u128)
    ensures
        ({
            let w = delivered(v, peer, lats, now);
            &&& w.latency_min_ms <= v.latency_min_ms
            &&& w.latency_max_ms >= v.latency_max_ms
            &&& forall|i: int|
                0 <= i < lats.len() && lats[i] <= u64::MAX ==> w.latency_min_ms
                    <= #[trigger] lats[i] <= w.latency_max_ms
        }),
    decreases lats.len(),
{
    if lats.len() > 0 {
        let rest = lats.drop_last();
        lemma_delivered_waits(v, peer, rest, now);
        let w = delivered(v, peer, lats, now);
        assert forall|i: int| 0 <= i < lats.len() && lats[i] <= u64::MAX implies w.latency_min_ms
            <= #[trigger] lats[i] <= w.latency_max_ms by {
            if i < rest.len() {
                assert(rest[i] == lats[i]);
            }
        }
    }
}

/// What came last at `now` stays in a window of a day.
proof fn lemma_stamped_tail(d: Seq<u128>, now: u128, n: nat)
    requires
        n <= d.len(),
        forall|i: int| d.len() - n <= i < d.len() ==> #[trigger] d[i] == now,
    ensures
        ({
            let r = recent(d, now, 86_400_000_000_000);
            r.len() >= n && forall|i: int| r.len() - n <= i < r.len() ==> #[trigger] r[i] == now
        }),
    decreases d.len(),
{
    if d.len() > 0 && elapsed(now, d[0]) > 86_400_000_000_000 {
        lemma_stamped_tail(d.drop_first(), now, n);
    }
}

proof fn lemma_delivered_window(v: RelayView, peer: Peer, lats: Seq<u128>, now: u128)
    ensures
        ({
            let w = delivered(v, peer, lats, now);
            let d = w.inbox_deliveries[peer];
            let n = lats.len();
            &&& n > 0 ==> w.inbox_deliveries.contains_key(peer) && d.len() >= n
            &&& n > 0 ==> forall|i: int| d.len() - n <= i < d.len() ==> #[trigger] d[i] == now
            &&& n == 0 ==> w == v
            &&& forall|other: Peer|
                other != peer ==> #[trigger] w.inbox_deliveries.contains_key(other)
                    == v.inbox_deliveries.contains_key(other) && (v.inbox_deliveries.contains_key(
                    other,
                ) ==> w.inbox_deliveries[other] == v.inbox_deliveries[other])
        }),
    decreases lats.len(),
{
    if lats.len() > 0 {
        let rest = lats.drop_last();
        lemma_delivered_window(v, peer, rest, now);
        let before = delivered(v, peer, rest, now);
        let d = window_of(before.inbox_deliveries, peer);
        let e = d.push(now);
        lemma_stamped_tail(e, now, lats.len());
    }
}

// ---------------------------------------------------------------------------
// What is in an inbox
// ---------------------------------------------------------------------------

/// What a sender is said to have in an inbox is the number of its envelopes there, and the sum of
/// their sizes.
pub proof fn law_sender_holds_its_envelopes(q: Seq<Envelope>, who: Peer)
    ensures
        sent_count(q, who) == q.filter(|e: Envelope| e.sender_id == Some(who)).len(),
        sent_bytes(q, who) == sum(
            q.filter(|e: Envelope| e.sender_id == Some(who)),
            |e: Envelope| e.size_bytes as nat,
        ),
    decreases q.len(),
{
    reveal(Seq::filter);
    let f = |e: Envelope| e.size_bytes as nat;
    let p = |e: Envelope| e.sender_id == Some(who);
    if q.len() > 0 {
        law_sender_holds_its_envelopes(q.drop_last(), who);
        if p(q.last()) {
            lemma_sum_push(q.drop_last().filter(p), q.last(), f);
        }
    }
}

/// Making room in a full inbox takes one envelope after the other, and none that need not go: as
/// soon as one more envelope of `size` bytes is within both limits, everything else stays. The
/// envelope that goes is one of the sender that holds the most bytes, and the oldest of those;
/// where no envelope names a sender it is the oldest of all.
pub proof fn law_eviction_takes_from_the_heaviest_sender(
    q: Seq<Envelope>,
    size: nat,
    max_messages: usize,
    max_bytes: usize,
) -> (i: int)
    ensures
        ({
            let weight = |e: Envelope| e.size_bytes as nat;
            let enough = q.len() < max_messages && sum(q, weight) + size <= max_bytes;
            let held = |s: Peer|
                sum(q.filter(|e: Envelope| e.sender_id
                    == Some(s)), |e: Envelope| e.size_bytes as nat);
            &&& enough || q.len() == 0 ==> room(q, size, max_messages, max_bytes) == q && evicted(
                q,
                size,
                max_messages,
                max_bytes,
            ).len() == 0
            &&& !enough && q.len() > 0 ==> {
                &&& 0 <= i < q.len()
                &&& room(q, size, max_messages, max_bytes) == room(
                    q.remove(i),
                    size,
                    max_messages,
                    max_bytes,
                )
                &&& evicted(q, size, max_messages, max_bytes) == seq![q[i]] + evicted(
                    q.remove(i),
                    size,
                    max_messages,
                    max_bytes,
                )
                &&& q[i].sender_id is None ==> i == 0 && forall|j: int|
                    0 <= j < q.len() ==> (#[trigger] q[j]).sender_id is None
                &&& q[i].sender_id is Some ==> forall|j: int|
                    0 <= j < q.len() && (#[trigger] q[j]).sender_id is Some ==> held(
                        q[j].sender_id->0,
                    ) <= held(q[i].sender_id->0) && (j < i ==> held(q[j].sender_id->0) < held(
                        q[i].sender_id->0,
                    ))
            }
        }),
{
    let weight = |e: Envelope| e.size_bytes as nat;
    assert(size_weight() =~= weight);
    if q.len() > 0 {
        lemma_victim(q);
        let i = victim(q);
        assert forall|j: int| 0 <= j < q.len() implies !lighter(
            holding(q, i),
            #[trigger] holding(q, j),
        ) by {}
        assert forall|j: int| 0 <= j < q.len() && (#[trigger] q[j]).sender_id is Some implies sum(
            q.filter(|e: Envelope| e.sender_id == Some(q[j].sender_id->0)),
            |e: Envelope| e.size_bytes as nat,
        ) == sent_bytes(q, q[j].sender_id->0) by {
            law_sender_holds_its_envelopes(q, q[j].sender_id->0);
        }
        assert(holding(q, i) == holding(q, i));
        if q[i].sender_id is None {
            assert forall|j: int| 0 <= j < q.len() implies (#[trigger] q[j]).sender_id is None by {
                assert(!lighter(holding(q, i), holding(q, j)));
            }
            if i > 0 {
                assert(lighter(holding(q, 0), holding(q, i)));
            }
        } else {
            law_sender_holds_its_envelopes(q, q[i].sender_id->0);
            assert forall|j: int| 0 <= j < q.len()
                && (#[trigger] q[j]).sender_id is Some implies sent_bytes(
                q,
                q[j].sender_id->0,
            ) <= sent_bytes(q, q[i].sender_id->0) && (j < i ==> sent_bytes(q, q[j].sender_id->0)
                < sent_bytes(q, q[i].sender_id->0)) by {
                assert(!lighter(holding(q, i), holding(q, j)));
                if j < i {
                    assert(lighter(holding(q, j), holding(q, i)));
                }
            }
        }
        i
    } else {
        0
    }
}

/// Making room for a broadcast takes the oldest envelopes first, and none that need not go: what
/// stays is the inbox without its first `k` envelopes, and had fewer of them gone, one more
/// envelope of `size` bytes would have been too much.
pub proof fn law_broadcast_evicts_the_oldest(
    q: Seq<Envelope>,
    size: nat,
    max_messages: usize,
    max_bytes: usize,
) -> (k: int)
    ensures
        0 <= k <= q.len(),
        room_oldest(q, size, max_messages, max_bytes) == q.skip(k),
        evicted_oldest(q, size, max_messages, max_bytes) == q.take(k),
        k < q.len() ==> q.len() - k < max_messages && sum(
            q.skip(k),
            |e: Envelope| e.size_bytes as nat,
        ) + size <= max_bytes,
        forall|j: int|
            0 <= j < k ==> q.len() - j >= max_messages || sum(
                #[trigger] q.skip(j),
                |e: Envelope| e.size_bytes as nat,
            ) + size > max_bytes,
    decreases q.len(),
{
    assert(size_weight() =~= |e: Envelope| e.size_bytes as nat);
    assert(q.skip(0) =~= q);
    assert(q.take(0) =~= Seq::empty());
    if q.len() == 0 || !overfull(q, size, max_messages, max_bytes) {
        0
    } else {
        let rest = q.drop_first();
        let k = law_broadcast_evicts_the_oldest(rest, size, max_messages, max_bytes);
        assert(rest.skip(k) =~= q.skip(k + 1));
        assert(seq![q[0]] + rest.take(k) =~= q.take(k + 1));
        assert forall|j: int| 0 <= j < k + 1 implies q.len() - j >= max_messages || sum(
            #[trigger] q.skip(j),
            |e: Envelope| e.size_bytes as nat,
        ) + size > max_bytes by {
            if j > 0 {
                assert(rest.skip(j - 1) =~= q.skip(j));
            }
        }
        k + 1
    }
}

// ---------------------------------------------------------------------------
// Storing
// ---------------------------------------------------------------------------

/// What is refused, and why: an envelope without a recipient, one whose bytes are more than an
/// inbox holds, and one whose time is up or cannot be told. What is left is dropped where its id is
/// known, now and at the instant at which ids are looked through, and otherwise taken in; only an
/// envelope for one recipient that names its sender can meet a quota.
pub proof fn law_outcome_says_why(
    config: &RelayConfig,
    v: RelayView,
    p: PayloadView,
    now: u128,
    epoch: Option<u64>,
    pruned_at: u128,
)
    ensures
        ({
            let o = store(config, v, p, now, epoch, pruned_at).1;
            let id = match (p.header_message_id, p.message_id) {
                (Some(h), _) => h,
                (None, Some(m)) => m,
                (None, None) => hex_of(sha256_of(encode_utf8(p.body))),
            };
            let large = encode_utf8(p.body).len() > config.max_bytes;
            let x = expiry_of(p.ttl_seconds, p.timestamp, config.ttl, now, epoch);
            let known = v.dedup.contains_key(id) && v.dedup[id] > now && v.dedup[id] > pruned_at;
            let all = p.recipient_id == Some("*"@);
            &&& o is MissingRecipient <==> p.recipient_id is None
            &&& o is TooLarge <==> p.recipient_id is Some && large
            &&& o is Invalid <==> p.recipient_id is Some && !large && x is Invalid
            &&& o is Expired <==> p.recipient_id is Some && !large && x is Expired
            &&& o is Duplicate <==> p.recipient_id is Some && !large && x is Valid && known
            &&& o is Broadcast <==> all && !large && x is Valid && !known
            &&& o is Accepted || o is QuotaExceeded <==> p.recipient_id is Some && !all && !large
                && x is Valid && !known
            &&& o is QuotaExceeded ==> p.sender_id is Some
            &&& match o {
                StoreOutcome::Accepted(n) => n == id,
                StoreOutcome::Broadcast(n, _) => n == id,
                StoreOutcome::Duplicate(n) => n == id,
                StoreOutcome::Expired(n) => n == id,
                StoreOutcome::TooLarge(n) => n == id,
                StoreOutcome::QuotaExceeded(n) => n == id,
                _ => true,
            }
        }),
{
}

/// Everybody who is named in an envelope with a recipient has been seen, whatever becomes of the
/// envelope; nobody else has.
pub proof fn law_sender_and_recipient_are_noted(
    config: &RelayConfig,
    v: RelayView,
    p: PayloadView,
    now: u128,
    epoch: Option<u64>,
    pruned_at: u128,
    peer: Peer,
)
    requires
        p.recipient_id is Some,
    ensures
        ({
            let w = store(config, v, p, now, epoch, pruned_at).0;
            let named = p.sender_id == Some(peer) || (p.recipient_id == Some(peer) && peer != "*"@);
            &&& named ==> w.peer_last_seen.contains_key(peer) && w.peer_last_seen[peer] == now
            &&& !named ==> w.peer_last_seen.contains_key(peer)
                == v.peer_last_seen.contains_key(peer)
                && w.peer_last_seen[peer] == v.peer_last_seen[peer]
        }),
{
}

pub proof fn lemma_live_raw(q: Seq<Envelope>, now: u128)
    ensures
        live(q, now) == q.filter(|e: Envelope| e.expires_at > now),
{
    lemma_same_filter(q, is_live(now), |e: Envelope| e.expires_at > now);
}

/// An accepted envelope goes, as it came, behind what stays of the live envelopes of its recipient;
/// where there is room for it, all of them stay. It is the only one more that is counted, and
/// counts as sent by its sender now.
pub proof fn law_accepted_envelope_stands_last(
    config: &RelayConfig,
    v: RelayView,
    p: PayloadView,
    now: u128,
    epoch: Option<u64>,
    pruned_at: u128,
)
    requires
        now + config.ttl <= u128::MAX,
        v.total_stored < u64::MAX,
        store(config, v, p, now, epoch, pruned_at).1 is Accepted,
    ensures
        ({
            let w = store(config, v, p, now, epoch, pruned_at).0;
            let r = p.recipient_id->0;
            let alive = queue_of(v.queues, r).filter(|e: Envelope| e.expires_at > now);
            let size = encode_utf8(p.body).len();
            let q = w.queues[r];
            &&& w.queues.contains_key(r)
            &&& w.queues == v.queues.insert(r, q)
            &&& q.len() > 0
            &&& q.last().body == p.body
            &&& q.last().size_bytes == size
            &&& q.last().stored_at == now
            &&& q.last().sender_id == p.sender_id
            &&& q.last().expires_at - now <= config.ttl
            &&& q.drop_last() == room(alive, size, config.max_messages, config.max_bytes)
            &&& alive.len() < config.max_messages && sum(alive, |e: Envelope| e.size_bytes as nat)
                + size <= config.max_bytes ==> q.drop_last() == alive
            &&& w.total_stored == v.total_stored + 1
            &&& w.total_delivered == v.total_delivered
            &&& match p.sender_id {
                Some(s) => w.peer_sends.contains_key(s) && w.peer_sends[s].len() > 0
                    && w.peer_sends[s].last() == now,
                None => w.peer_sends == v.peer_sends,
            }
        }),
{
    let r = p.recipient_id->0;
    let q0 = queue_of(v.queues, r);
    lemma_live_raw(q0, now);
    let alive = live(q0, now);
    let size = encode_utf8(p.body).len();
    let w = store(config, v, p, now, epoch, pruned_at).0;
    let kept = room(alive, size, config.max_messages, config.max_bytes);
    let _ = law_eviction_takes_from_the_heaviest_sender(
        alive,
        size,
        config.max_messages,
        config.max_bytes,
    );
    assert(w.queues[r].drop_last() =~= kept);
    assert(w.queues =~= v.queues.insert(r, w.queues[r]));
    if p.sender_id is Some {
        let d = window_of(v.peer_sends, p.sender_id->0).push(now);
        lemma_stamped_tail(d, now, 1);
    }
}

/// A broadcast goes, as it came, to every peer that has been seen but its sender, behind what stays
/// of the live envelopes there; where there is room for it, all of them stay. It is charged to
/// nobody.
pub proof fn law_broadcast_stands_last_everywhere(
    config: &RelayConfig,
    v: RelayView,
    p: PayloadView,
    now: u128,
    epoch: Option<u64>,
    pruned_at: u128,
    peer: Peer,
)
    requires
        now + config.ttl <= u128::MAX,
        store(config, v, p, now, epoch, pruned_at).1 is Broadcast,
        v.peer_last_seen.contains_key(peer),
        p.sender_id != Some(peer),
    ensures
        ({
            let w = store(config, v, p, now, epoch, pruned_at).0;
            let alive = queue_of(v.queues, peer).filter(|e: Envelope| e.expires_at > now);
            let size = encode_utf8(p.body).len();
            let q = w.queues[peer];
            &&& w.queues.contains_key(peer)
            &&& q.len() > 0
            &&& q.last().body == p.body
            &&& q.last().size_bytes == size
            &&& q.last().stored_at == now
            &&& q.last().sender_id == p.sender_id
            &&& q.last().expires_at - now <= config.ttl
            &&& expiry_of(p.ttl_seconds, p.timestamp, config.ttl, now, epoch) == Expiry::Valid(
                q.last().expires_at,
            )
            &&& q.drop_last() == room_oldest(alive, size, config.max_messages, config.max_bytes)
            &&& alive.len() < config.max_messages && sum(alive, |e: Envelope| e.size_bytes as nat)
                + size <= config.max_bytes ==> q.drop_last() == alive
            &&& forall|s: Peer| #[trigger]
                w.usage.contains_key((s, peer)) ==> v.usage.contains_key((s, peer))
                    && w.usage[(s, peer)].count <= v.usage[(s, peer)].count && w.usage[(
                    s,
                    peer,
                )].bytes <= v.usage[(s, peer)].bytes
        }),
{
    let q0 = queue_of(v.queues, peer);
    lemma_live_raw(q0, now);
    let alive = live(q0, now);
    let size = encode_utf8(p.body).len();
    let w = store(config, v, p, now, epoch, pruned_at).0;
    let kept = room_oldest(alive, size, config.max_messages, config.max_bytes);
    assert(size_weight() =~= |e: Envelope| e.size_bytes as nat);
    assert(w.queues[peer].drop_last() =~= kept);
}

/// A sender meets its quota in an inbox exactly where it has as many live envelopes there as its
/// tier allows, or where one more would be more bytes than its tier allows. A sender that the
/// recipient has never written to is in the first tier; one that the recipient has written to is
/// in the third, or in the second if that was longer ago than the window.
pub proof fn law_quota_is_that_of_the_tier(
    config: &RelayConfig,
    v: RelayView,
    p: PayloadView,
    now: u128,
    epoch: Option<u64>,
    pruned_at: u128,
)
    requires
        usage_exact(v),
        p.sender_id is Some,
        p.sender_id != p.recipient_id,
        store(config, v, p, now, epoch, pruned_at).1 is Accepted || store(
            config,
            v,
            p,
            now,
            epoch,
            pruned_at,
        ).1 is QuotaExceeded,
    ensures
        ({
            let o = store(config, v, p, now, epoch, pruned_at).1;
            let (s, r) = (p.sender_id->0, p.recipient_id->0);
            let mine = queue_of(v.queues, r).filter(|e: Envelope| e.expires_at > now).filter(
                |e: Envelope| e.sender_id == Some(s),
            );
            let qos = config.qos;
            let tier = if !v.directed.contains_key((r, s)) {
                qos.tier1
            } else if now - v.directed[(r, s)] <= qos.bidirectional_window {
                qos.tier3
            } else {
                qos.tier2
            };
            o is QuotaExceeded <==> mine.len() >= tier.max_envelopes || sum(
                mine,
                |e: Envelope| e.size_bytes as nat,
            ) + encode_utf8(p.body).len() > tier.max_bytes
        }),
{
    let (s, r) = (p.sender_id->0, p.recipient_id->0);
    let q = queue_of(v.queues, r);
    lemma_live_raw(q, now);
    let alive = live(q, now);
    law_sender_holds_its_envelopes(alive, s);
    let v1 = registered(v, p, now);
    let v2 = RelayView { dedup: above(v1.dedup, pruned_at), ..v1 };
    let v3 = directed(v2, s, r, now, config.qos.bidirectional_window);
    lemma_same_usage(v, v3);
    lemma_pruned_exact(v3, r, now);
    let v4 = pruned(v3, r, now);
    assert(usage_of(v4.usage, (s, r)).count == sent_count(queue_of(v4.queues, r), s));
    assert(queue_of(v4.queues, r) == alive);
}

/// The peers that are notified of an envelope are those into whose inbox it has gone, and of
/// nothing else is anybody notified.
pub proof fn law_notified_are_those_who_got_it(
    config: &RelayConfig,
    v: RelayView,
    p: PayloadView,
    now: u128,
    epoch: Option<u64>,
    pruned_at: u128,
    to: Seq<Peer>,
    peer: Peer,
)
    requires
        notifies(to, store(config, v, p, now, epoch, pruned_at).1, p.recipient_id),
    ensures
        ({
            let (w, o) = store(config, v, p, now, epoch, pruned_at);
            &&& to.contains(peer) <==> (o is Accepted && p.recipient_id == Some(peer)) || (
            o is Broadcast && v.peer_last_seen.contains_key(peer) && p.sender_id != Some(peer))
            &&& to.contains(peer) ==> w.queues.contains_key(peer) && w.queues[peer].len() > 0
                && w.queues[peer].last().body == p.body
            &&& !(o is Accepted || o is Broadcast) ==> to.len() == 0
        }),
{
    let (w, o) = store(config, v, p, now, epoch, pruned_at);
    if o is Accepted {
        let one = seq![p.recipient_id->0];
        assert(one[0] == p.recipient_id->0);
        assert(to.contains(peer) <==> peer == p.recipient_id->0);
    } else if o is Broadcast {
        assert(to.to_set().contains(peer) <==> to.contains(peer));
    }
}

/// The status of an answer says whether the envelope is there, by now or already; otherwise whose
/// fault it is: the envelope's own, its age's, its size's or its sender's.
pub proof fn law_status_says_what_happened(o: StoreOutcome)
    ensures
        status_of(o) == 202 <==> o is Accepted || o is Broadcast || o is Duplicate,
        status_of(o) == 410 <==> o is Expired,
        status_of(o) == 413 <==> o is TooLarge,
        status_of(o) == 429 <==> o is QuotaExceeded,
        status_of(o) == 400 <==> o is MissingRecipient || o is Invalid,
{
}

/// An answer to an envelope that is there carries its id, and one to an envelope that is refused
/// does not; the report on one envelope of several agrees with it.
pub proof fn law_answer_carries_the_id(b: ReplyBody, r: BatchStoreResult, o: StoreOutcome)
    requires
        answers(b, o),
        reports(r, o),
    ensures
        b is Stored <==> o is Accepted || o is Broadcast || o is Duplicate,
        b is Stored ==> r.message_id is Some && r.message_id->0@ == b->Stored_0@,
        o is Accepted ==> b->Stored_0@ == o->Accepted_0,
        o is Broadcast ==> b->Stored_0@ == o->Broadcast_0,
        o is Duplicate ==> b->Stored_0@ == o->Duplicate_0,
        r.status == BatchStoreStatus::Accepted <==> o is Accepted || o is Broadcast,
        r.status == BatchStoreStatus::Duplicate <==> o is Duplicate,
        r.status == BatchStoreStatus::Expired <==> o is Expired,
        r.status == BatchStoreStatus::TooLarge <==> o is TooLarge,
        r.status == BatchStoreStatus::QuotaExceeded <==> o is QuotaExceeded,
        r.status == BatchStoreStatus::Invalid <==> o is Invalid || o is MissingRecipient,
        r.message_id is Some <==> !(o is Invalid || o is MissingRecipient),
        r.detail is Some <==> o is Invalid || o is MissingRecipient,
        o is Invalid ==> r.detail->0@ == o->Invalid_0,
        o is Invalid ==> b is Text && b->Text_0@ == o->Invalid_0,
{
}

/// Envelopes that are sent together are taken in as if they had been sent one after the other.
pub proof fn law_batch_is_one_after_the_other(
    config: &RelayConfig,
    v: RelayView,
    ps: Seq<PayloadView>,
    qs: Seq<PayloadView>,
    now: u128,
    epoch: Option<u64>,
    at: Seq<u128>,
    then: Seq<u128>,
)
    requires
        at.len() == ps.len(),
        then.len() == qs.len(),
    ensures
        batch_stored(config, v, ps + qs, now, epoch, at + then) == batch_stored(
            config,
            batch_stored(config, v, ps, now, epoch, at),
            qs,
            now,
            epoch,
            then,
        ),
        ps.len() == 1 ==> batch_stored(config, v, ps, now, epoch, at) == store(
            config,
            v,
            ps[0],
            now,
            epoch,
            at[0],
        ).0,
        ps.len() == 1 ==> batch_outcome(config, v, ps, now, epoch, at, 0) == store(
            config,
            v,
            ps[0],
            now,
            epoch,
            at[0],
        ).1,
    decreases qs.len(),
{
    if ps.len() == 1 {
        assert(ps.drop_last() =~= Seq::empty());
        assert(ps.take(0) =~= Seq::empty());
        reveal_with_fuel(batch_stored, 2);
    }
    if qs.len() == 0 {
        assert(ps + qs =~= ps);
        lemma_batch_prefix(config, v, ps, now, epoch, at, at + then);
    } else {
        law_batch_is_one_after_the_other(
            config,
            v,
            ps,
            qs.drop_last(),
            now,
            epoch,
            at,
            then.drop_last(),
        );
        assert((ps + qs).drop_last() =~= ps + qs.drop_last());
        lemma_batch_prefix(
            config,
            v,
            ps + qs.drop_last(),
            now,
            epoch,
            at + then.drop_last(),
            at + then,
        );
        lemma_batch_prefix(
            config,
            batch_stored(config, v, ps, now, epoch, at),
            qs.drop_last(),
            now,
            epoch,
            then.drop_last(),
            then,
        );
    }
}

proof fn lemma_batch_prefix(
    config: &RelayConfig,
    v: RelayView,
    ps: Seq<PayloadView>,
    now: u128,
    epoch: Option<u64>,
    a: Seq<u128>,
    b: Seq<u128>,
)
    requires
        forall|i: int| 0 <= i < ps.len() ==> a[i] == #[trigger] b[i],
    ensures
        batch_stored(config, v, ps, now, epoch, a) == batch_stored(config, v, ps, now, epoch, b),
    decreases ps.len(),
{
    if ps.len() > 0 {
        lemma_batch_prefix(config, v, ps.drop_last(), now, epoch, a, b);
        assert(b[ps.len() - 1] == a[ps.len() - 1]);
    }
}

/// An envelope whose id is not known is no duplicate, and once an id has run out it is not known.
pub proof fn law_id_is_free_again(
    config: &RelayConfig,
    v: RelayView,
    p: PayloadView,
    now: u128,
    epoch: Option<u64>,
    pruned_at: u128,
)
    requires
        v.dedup.contains_key(p.id()) ==> v.dedup[p.id()] <= now,
    ensures
        !(store(config, v, p, now, epoch, pruned_at).1 is Duplicate),
{
}

/// Fetching several inboxes at once gives every peer what it would get alone.
pub proof fn law_batch_fetch_gives_everybody_its_own(
    v: RelayView,
    peers: Seq<Peer>,
    query: InboxQuery,
    now: u128,
    peer: Peer,
)
    requires
        peers.no_duplicates(),
    ensures
        all_results(v, peers, query, now).contains_key(peer) <==> peers.contains(peer),
        peers.contains(peer) ==> all_results(v, peers, query, now)[peer] == poll_result(
            v,
            peer,
            query,
            now,
        ),
        peers.contains(peer) ==> queue_of(all_polled(v, peers, query, now).queues, peer)
            == queue_of(fetched(v, peer, query, now, now).queues, peer),
        !peers.contains(peer) ==> queue_of(all_polled(v, peers, query, now).queues, peer)
            == queue_of(v.queues, peer),
        all_polled(v, peers, query, now).queues.dom() == v.queues.dom(),
    decreases peers.len(),
{
    if peers.len() > 0 {
        let before = peers.drop_last();
        let last = peers.last();
        let w = all_polled(v, before, query, now);
        assert(peers =~= before.push(last));
        law_batch_fetch_gives_everybody_its_own(v, before, query, now, peer);
        law_batch_fetch_gives_everybody_its_own(v, before, query, now, last);
        assert(!before.contains(last)) by {
            if before.contains(last) {
                let i = choose|i: int| 0 <= i < before.len() && before[i] == last;
                assert(peers[i] == peers[peers.len() - 1]);
            }
        }
        if peers.contains(peer) && peer != last {
            let i = choose|i: int| 0 <= i < peers.len() && peers[i] == peer;
            assert(before[i] == peer);
        }
        if before.contains(peer) {
            let i = choose|i: int| 0 <= i < before.len() && before[i] == peer;
            assert(peers[i] == peer);
        }
        assert(peers[peers.len() - 1] == last);
        lemma_polled_queues(w, last, query, now);
        lemma_polled_queues(v, last, query, now);
        lemma_polled_queues(v, peer, query, now);
        assert(all_polled(v, peers, query, now).queues.dom() =~= v.queues.dom());
    }
}

proof fn lemma_polled_queues(v: RelayView, peer: Peer, query: InboxQuery, now: u128)
    ensures
        polled(v, peer, query, now).queues == (if v.queues.contains_key(peer) {
            v.queues.insert(peer, held_back(v.queues[peer], query, now))
        } else {
            v.queues
        }),
{
    if v.queues.contains_key(peer) {
        let q = v.queues[peer];
        let out = handed_out(q, query, now);
        lemma_delivered_elsewhere(
            RelayView {
                queues: v.queues.insert(peer, held_back(q, query, now)),
                usage: released(v.usage, peer, charges(expired(q, now) + out)),
                ..touched(v, peer, now)
            },
            peer,
            latencies_ms(out, now),
            now,
        );
    }
}

/// The token of a request is what follows the name of the scheme.
pub proof fn law_bearer_token_is_found(token: Seq<char>)
    ensures
        after_prefix("Bearer "@ + token, "Bearer "@) == Some(token),
{
    assert(("Bearer "@ + token).take("Bearer "@.len() as int) =~= "Bearer "@);
    assert(("Bearer "@ + token).skip("Bearer "@.len() as int) =~= token);
}

// ---------------------------------------------------------------------------
// Chunks
// ---------------------------------------------------------------------------

/// An upload is taken in exactly where the chunk has the hash that it goes by, 64 hexadecimal
/// digits, is encoded in no more bytes than are allowed, is not there yet, and leaves its sender
/// within the bytes of the day; an upload on another day counts from nothing. It is then charged to
/// its sender, and kept as it came.
pub proof fn law_upload_is_taken_in(
    config: &RelayConfig,
    v: RelayView,
    name: Seq<char>,
    encoded: nat,
    data: Option<Seq<u8>>,
    sender: Option<Peer>,
    today: u64,
)
    ensures
        ({
            let (w, o) = upload_outcome(config, v, name, encoded, data, sender, today);
            let digits = encode_utf8(name).len() == 64 && forall|i: int|
                0 <= i < name.len() ==> {
                    ||| '0' <= #[trigger] name[i] <= '9'
                    ||| 'a' <= name[i] <= 'f'
                    ||| 'A' <= name[i] <= 'F'
                };
            let used = match sender {
                Some(s) => if v.uploads.contains_key(s) && v.uploads[s].0 == today {
                    v.uploads[s].1 as int
                } else {
                    0
                },
                None => 0,
            };
            let good = digits && data is Some && hex_of(sha256_of(data->0)) == name && encoded
                <= config.blob_max_chunk_bytes;
            let paid = sender is Some ==> used + data->0.len() <= config.blob_daily_quota_bytes;
            &&& o == UploadOutcome::Created <==> good && !v.blobs.contains_key(name) && paid
            &&& o == UploadOutcome::QuotaExceeded <==> good && !v.blobs.contains_key(name) && !paid
            &&& o == UploadOutcome::Exists <==> good && v.blobs.contains_key(name)
            &&& o == UploadOutcome::InvalidHash <==> !digits
            &&& o == UploadOutcome::InvalidBase64 <==> digits && data is None
            &&& o == UploadOutcome::HashMismatch <==> digits && data is Some && hex_of(
                sha256_of(data->0),
            ) != name
            &&& o == UploadOutcome::Created ==> w.blobs == v.blobs.insert(name, (data->0, sender))
            &&& o == UploadOutcome::Created && sender is Some ==> w.uploads == v.uploads.insert(
                sender->0,
                (today, (used + data->0.len()) as u64),
            )
            &&& sender is None ==> w.uploads == v.uploads
            &&& w.queues == v.queues && w.dedup == v.dedup && w.usage == v.usage
        }),
{
}

// ---------------------------------------------------------------------------
// What the relay reports
// ---------------------------------------------------------------------------

/// The report on an inbox counts what a fetch of everything would hand out, with its bytes, and
/// gives whole seconds.
pub proof fn law_report_on_inbox_is_what_a_fetch_gets(
    info: InboxInfo,
    v: RelayView,
    peer: Peer,
    now: u128,
)
    requires
        v.queues.contains_key(peer),
        describes_inbox(info, v, peer, now),
    ensures
        ({
            let all = InboxQuery { limit: None, max_size_bytes: None };
            let alive = v.queues[peer].filter(|e: Envelope| e.expires_at > now);
            &&& info.peer_id@ == peer
            &&& info.queue_len == v.queues[peer].len()
            &&& info.queue_depth == poll_result(v, peer, all, now).len()
            &&& info.queue_depth == alive.len()
            &&& info.queue_bytes == sum(alive, |e: Envelope| e.size_bytes as nat)
            &&& v.peer_last_seen.contains_key(peer) && v.peer_last_seen[peer] <= now && now
                - v.peer_last_seen[peer] <= u64::MAX ==> info.last_seen_secs == (now
                - v.peer_last_seen[peer]) / 1_000_000_000
            &&& !v.peer_last_seen.contains_key(peer) ==> info.last_seen_secs == 0
            &&& forall|i: int|
                0 <= i < info.senders@.len() ==> v.usage.contains_key(
                    ((#[trigger] info.senders@[i]).sender_id@, peer),
                ) && v.usage[(info.senders@[i].sender_id@, peer)].count == info.senders@[i].count
                    && v.usage[(info.senders@[i].sender_id@, peer)].bytes == info.senders@[i].bytes
            &&& forall|i: int, j: int|
                0 <= i < j < info.senders@.len() ==> (#[trigger] info.senders@[i]).bytes >= (
                #[trigger] info.senders@[j]).bytes
        }),
{
    let q = v.queues[peer];
    lemma_live_raw(q, now);
    assert(size_weight() =~= |e: Envelope| e.size_bytes as nat);
    law_fetch_is_first_in_first_out(q, None, now);
    let a = live(q, now);
    assert(a.take(a.len() as int) =~= a);
    assert forall|i: int, j: int| 0 <= i < j < info.senders@.len() implies (
    #[trigger] info.senders@[i]).bytes >= (#[trigger] info.senders@[j]).bytes by {
        assert(info.senders@[i].ranks(&info.senders@[j]));
    }
}

/// A report counts the deliveries of the last minute, hour and day, and no others.
pub proof fn law_report_counts_deliveries(info: InboxInfo, v: RelayView, peer: Peer, now: u128)
    requires
        v.queues.contains_key(peer),
        v.inbox_deliveries.contains_key(peer),
        in_order(v.inbox_deliveries[peer], now),
        describes_inbox(info, v, peer, now),
    ensures
        ({
            let d = v.inbox_deliveries[peer];
            &&& forall|i: int|
                0 <= i < d.len() ==> (now - #[trigger] d[i] <= 60_000_000_000 <==> i >= d.len()
                    - info.delivered_1m)
            &&& forall|i: int|
                0 <= i < d.len() ==> (now - #[trigger] d[i] <= 3_600_000_000_000 <==> i >= d.len()
                    - info.delivered_1h)
            &&& forall|i: int|
                0 <= i < d.len() ==> (now - #[trigger] d[i] <= 86_400_000_000_000 <==> i >= d.len()
                    - info.delivered_24h)
            &&& info.delivered_24h <= d.len()
        }),
{
    let d = v.inbox_deliveries[peer];
    law_window_count_is_exact(d, now, 60_000_000_000);
    law_window_count_is_exact(d, now, 3_600_000_000_000);
    law_window_count_is_exact(d, now, 86_400_000_000_000);
}

/// Inboxes are listed deepest first, senders by their bytes, clients by name; and the mean wait is
/// the sum of all waits over their number.
pub proof fn law_report_is_in_order(l: Seq<InboxInfo>, v: RelayView, now: u128, i: int, j: int)
    requires
        lists_inboxes(l, v, now),
        0 <= i < j < l.len(),
    ensures
        l[i].queue_depth >= l[j].queue_depth,
        l[i].peer_id@ != l[j].peer_id@,
        l[i].queue_depth == l[j].queue_depth ==> text_le(l[i].peer_id@, l[j].peer_id@),
{
    assert(l[i].ranks(&l[j]));
    let names = l.map_values(|x: InboxInfo| x.peer_id@);
    assert(names[i] == l[i].peer_id@ && names[j] == l[j].peer_id@);
}

/// Waits are reported once there is one: the least, the greatest, their number and their mean.
pub proof fn law_report_on_waits(v: RelayView)
    ensures
        latency_of(v) is Some <==> v.latency_count > 0,
        latency_of(v) is Some ==> {
            let r = latency_of(v)->0;
            &&& r.min == v.latency_min_ms
            &&& r.max == v.latency_max_ms
            &&& r.count == v.latency_count
            &&& r.avg * v.latency_count <= v.latency_sum_ms < (r.avg + 1) * v.latency_count
        },
{
    if v.latency_count > 0 {
        let (s, n) = (v.latency_sum_ms as int, v.latency_count as int);
        assert((s / n) * n <= s < (s / n + 1) * n) by (nonlinear_arith)
            requires
                n > 0,
        ;
    }
}

/// A report on a client gives what is known of it, the whole seconds since it connected, and how
/// much it sent.
pub proof fn law_report_on_client(s: WsClientStats, v: RelayView, id: u64, now: u128)
    requires
        describes_client(s, v, id, now),
        v.ws_clients[id].connected_at <= now,
        now - v.ws_clients[id].connected_at <= u64::MAX,
    ensures
        s.peer_id == v.ws_clients[id].peer_id,
        s.ip == v.ws_clients[id].ip,
        s.web_ui_url == v.ws_clients[id].web_ui_url,
        s.version == v.ws_clients[id].version,
        s.connected_secs == (now - v.ws_clients[id].connected_at) / 1_000_000_000,
        v.peer_sends.contains_key(s.peer_id@) && in_order(v.peer_sends[s.peer_id@], now) ==> ({
            let d = v.peer_sends[s.peer_id@];
            &&& forall|i: int|
                0 <= i < d.len() ==> (now - #[trigger] d[i] <= 60_000_000_000 <==> i >= d.len()
                    - s.sent_1m)
            &&& forall|i: int|
                0 <= i < d.len() ==> (now - #[trigger] d[i] <= 3_600_000_000_000 <==> i >= d.len()
                    - s.sent_1h)
            &&& forall|i: int|
                0 <= i < d.len() ==> (now - #[trigger] d[i] <= 86_400_000_000_000 <==> i >= d.len()
                    - s.sent_24h)
        }),
        !v.peer_sends.contains_key(s.peer_id@) ==> s.sent_1m == 0 && s.sent_1h == 0 && s.sent_24h
            == 0,
{
    if v.peer_sends.contains_key(s.peer_id@) && in_order(v.peer_sends[s.peer_id@], now) {
        let d = v.peer_sends[s.peer_id@];
        law_window_count_is_exact(d, now, 60_000_000_000);
        law_window_count_is_exact(d, now, 3_600_000_000_000);
        law_window_count_is_exact(d, now, 86_400_000_000_000);
    }
}

/// A client that says hello is known by what it says; what it does not say stays as it was. Its web
/// interface is at the address it connected from.
pub proof fn law_greeting_is_remembered(
    c: ClientView,
    version: Option<Seq<char>>,
    port: Option<u64>,
)
    ensures
        ({
            let g = greeted(c, version, port);
            &&& g.peer_id == c.peer_id && g.ip == c.ip && g.connected_at == c.connected_at
            &&& version is Some ==> g.version == version
            &&& version is None ==> g.version == c.version
            &&& port is None ==> g.web_ui_url == c.web_ui_url
            &&& port is Some && c.ip is Some ==> g.web_ui_url == Some(
                "http://"@ + c.ip->0 + ":"@ + decimal(port->0 as nat),
            )
        }),
{
}

/// A tier higher up allows more: twenty envelopes and 256 KiB for those whom nobody has answered, a
/// hundred and 2 MiB for those who were answered, five hundred and 10 MiB for those who write to
/// each other within a week.
pub proof fn law_default_tiers()
    ensures
        ({
            let q = default_qos();
            &&& q.tier1.max_envelopes == 20 && q.tier1.max_bytes == 256 * 1024
            &&& q.tier2.max_envelopes == 100 && q.tier2.max_bytes == 2 * 1024 * 1024
            &&& q.tier3.max_envelopes == 500 && q.tier3.max_bytes == 10 * 1024 * 1024
            &&& q.bidirectional_window == 7 * 24 * 3600 * 1_000_000_000
        }),
{
}

/// Peers count as recent where they were seen no longer ago than the window, or lie ahead.
pub proof fn law_recent_peers(seen: Map<Peer, u128>, now: u128, window: u128, peer: Peer)
    ensures
        recent_peers(seen, now, window).contains(peer) <==> seen.contains_key(peer) && now
            - seen[peer] <= window,
{
}

} // verus!
