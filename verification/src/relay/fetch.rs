//! Handing envelopes out.
use vstd::prelude::*;
use vstd::string::*;

use crate::keyed::above;
use crate::keyed::KeyedMap;
use crate::relay::accept::lemma_live_expired;
use crate::relay::accept::sound;
use crate::relay::config::RelayConfig;
use crate::relay::queue::bodies;
use crate::relay::queue::bytes_weight;
use crate::relay::queue::charges;
use crate::relay::queue::count_weight;
use crate::relay::queue::expired;
use crate::relay::queue::fetch_limit;
use crate::relay::queue::latencies_ms;
use crate::relay::queue::left;
use crate::relay::queue::lemma_sum_taken_left;
use crate::relay::queue::live;
use crate::relay::queue::pop_envelopes;
use crate::relay::queue::sent_bytes;
use crate::relay::queue::sent_count;
use crate::relay::queue::size_weight;
use crate::relay::queue::taken;
use crate::relay::queue::total_bytes;
use crate::relay::queue::Envelope;
use crate::relay::queue::Inbox;
use crate::relay::state::apply_usage_decrements;
use crate::relay::state::delivered;
use crate::relay::state::lemma_charges;
use crate::relay::state::lemma_delivered;
use crate::relay::state::lemma_delivered_elsewhere;
use crate::relay::state::prune_dedup;
use crate::relay::state::queue_of;
use crate::relay::state::record_deliveries;
use crate::relay::state::record_peer_connection;
use crate::relay::state::released;
use crate::relay::state::touched;
use crate::relay::state::Peer;
use crate::relay::state::RelayStateInner;
use crate::relay::state::RelayView;
use crate::relay::store::limits_of;
use crate::relay::store::InboxLimits;
use crate::sums::lemma_sum_add;
use crate::sums::sum;
use crate::text::after_prefix;
use crate::text::strip_prefix;
use crate::text::texts;

verus! {

/// What a reader asks for: at most so many envelopes, none larger than so many bytes.
#[derive(Clone, Copy, Debug, PartialEq, Eq, Structural)]
pub struct InboxQuery {
    pub limit: Option<usize>,
    /// Envelopes that exceed the threshold remain in the queue for a later fetch.
    pub max_size_bytes: Option<usize>,
}

/// The envelopes that a reader of the inbox `q` gets.
pub open spec fn handed_out(q: Seq<Envelope>, query: InboxQuery, now: u128) -> Seq<Envelope> {
    let a = live(q, now);
    taken(a, fetch_limit(query.limit, a.len()), query.max_size_bytes)
}

/// The envelopes that stay in the inbox `q` behind a reader.
pub open spec fn held_back(q: Seq<Envelope>, query: InboxQuery, now: u128) -> Seq<Envelope> {
    let a = live(q, now);
    left(a, fetch_limit(query.limit, a.len()), query.max_size_bytes)
}

/// `v` once `peer` has polled its inbox. Message ids stay known until they run out, whether their
/// envelopes are handed out or have expired.
pub open spec fn polled(v: RelayView, peer: Peer, query: InboxQuery, now: u128) -> RelayView {
    let v1 = touched(v, peer, now);
    if v.queues.contains_key(peer) {
        let q = v.queues[peer];
        let gone = expired(q, now);
        let out = handed_out(q, query, now);
        delivered(
            RelayView {
                queues: v1.queues.insert(peer, held_back(q, query, now)),
                usage: released(v1.usage, peer, charges(gone + out)),
                ..v1
            },
            peer,
            latencies_ms(out, now),
            now,
        )
    } else {
        v1
    }
}

/// What `peer` gets when it polls its inbox.
pub open spec fn poll_result(v: RelayView, peer: Peer, query: InboxQuery, now: u128) -> Seq<
    Seq<char>,
> {
    bodies(handed_out(queue_of(v.queues, peer), query, now))
}

/// `v` once `peer` has fetched its inbox.
pub open spec fn fetched(
    v: RelayView,
    peer: Peer,
    query: InboxQuery,
    now: u128,
    pruned_at: u128,
) -> RelayView {
    let w = polled(v, peer, query, now);
    if v.queues.contains_key(peer) {
        RelayView { dedup: above(w.dedup, pruned_at), ..w }
    } else {
        w
    }
}

/// What is handed out, what is held back and what has expired share the inbox between them.
pub proof fn lemma_handed_out(
    q: Seq<Envelope>,
    query: InboxQuery,
    now: u128,
    f: spec_fn(Envelope) -> nat,
)
    ensures
        sum(held_back(q, query, now), f) + sum(expired(q, now) + handed_out(q, query, now), f)
            == sum(q, f),
        held_back(q, query, now).len() + handed_out(q, query, now).len() == live(q, now).len(),
        live(q, now).len() <= q.len(),
{
    let a = live(q, now);
    let n = fetch_limit(query.limit, a.len());
    lemma_live_expired(q, now, f);
    lemma_sum_taken_left(a, n, query.max_size_bytes, f);
    lemma_sum_add(expired(q, now), handed_out(q, query, now), f);
    lemma_taken_left_len(a, n, query.max_size_bytes);
}

proof fn lemma_taken_left_len(q: Seq<Envelope>, n: nat, max_size: Option<usize>)
    ensures
        taken(q, n, max_size).len() + left(q, n, max_size).len() == q.len(),
        taken(q, n, max_size).len() <= n,
    decreases q.len(),
{
    if n > 0 && q.len() > 0 {
        if crate::relay::queue::fits(q[0], max_size) {
            lemma_taken_left_len(q.drop_first(), (n - 1) as nat, max_size);
        } else {
            lemma_taken_left_len(q.drop_first(), n, max_size);
        }
    }
}

/// How many envelopes the given peers could be handed, each time they are named.
pub open spec fn load(queues: Map<Peer, Seq<Envelope>>, peers: Seq<Peer>) -> nat {
    sum(peers, |p: Peer| queue_of(queues, p).len())
}

/// Polling keeps a relay sound and lengthens no queue.
pub proof fn lemma_polled_sound(
    v: RelayView,
    peer: Peer,
    query: InboxQuery,
    now: u128,
    l: InboxLimits,
)
    requires
        sound(v, l),
    ensures
        sound(polled(v, peer, query, now), l),
        poll_result(v, peer, query, now).len() <= queue_of(v.queues, peer).len(),
        forall|p: Peer| #[trigger]
            queue_of(polled(v, peer, query, now).queues, p).len() <= queue_of(v.queues, p).len(),
{
    let w = polled(v, peer, query, now);
    let q = queue_of(v.queues, peer);
    let out = handed_out(q, query, now);
    let kept = held_back(q, query, now);
    lemma_handed_out(q, query, now, size_weight());
    if v.queues.contains_key(peer) {
        let gone = expired(q, now);
        let v1 = touched(v, peer, now);
        let v2 = RelayView {
            queues: v1.queues.insert(peer, kept),
            usage: released(v1.usage, peer, charges(gone + out)),
            ..v1
        };
        lemma_delivered_elsewhere(v2, peer, latencies_ms(out, now), now);
        assert(w.queues == v2.queues);
        assert(w.usage == v2.usage);
        assert forall|p: Peer| #[trigger] w.queues.contains_key(p) implies total_bytes(w.queues[p])
            <= l.max_bytes && w.queues[p].len() <= if l.max_messages == 0 {
            1
        } else {
            l.max_messages
        } by {
            assert(v.queues.contains_key(p));
        }
        assert forall|k: (Peer, Peer)| #[trigger] w.usage.contains_key(k) implies w.usage[k].count
            <= sent_count(queue_of(w.queues, k.1), k.0) && w.usage[k].bytes <= sent_bytes(
            queue_of(w.queues, k.1),
            k.0,
        ) by {
            assert(v.usage.contains_key(k));
            if k.1 == peer {
                lemma_handed_out(q, query, now, count_weight(k.0));
                lemma_handed_out(q, query, now, bytes_weight(k.0));
                lemma_charges(gone + out, k.0);
            }
        }
    } else {
        assert(out.len() == 0);
        assert forall|p: Peer| #[trigger] w.queues.contains_key(p) implies total_bytes(w.queues[p])
            <= l.max_bytes && w.queues[p].len() <= if l.max_messages == 0 {
            1
        } else {
            l.max_messages
        } by {
            assert(v.queues.contains_key(p));
        }
    }
}

/// Polling keeps a relay sound, lengthens no queue and counts what it hands out.
pub proof fn lemma_polled(v: RelayView, peer: Peer, query: InboxQuery, now: u128, l: InboxLimits)
    requires
        sound(v, l),
        v.latency_count + queue_of(v.queues, peer).len() <= u64::MAX,
        v.total_delivered + queue_of(v.queues, peer).len() <= u64::MAX,
    ensures
        ({
            let w = polled(v, peer, query, now);
            &&& sound(w, l)
            &&& w.latency_count == v.latency_count + poll_result(v, peer, query, now).len()
            &&& w.total_delivered == v.total_delivered + poll_result(v, peer, query, now).len()
            &&& poll_result(v, peer, query, now).len() <= queue_of(v.queues, peer).len()
            &&& forall|p: Peer| #[trigger]
                queue_of(w.queues, p).len() <= queue_of(v.queues, p).len()
        }),
{
    lemma_polled_sound(v, peer, query, now, l);
    let q = queue_of(v.queues, peer);
    let out = handed_out(q, query, now);
    lemma_handed_out(q, query, now, size_weight());
    if v.queues.contains_key(peer) {
        let v1 = touched(v, peer, now);
        let v2 = RelayView {
            queues: v1.queues.insert(peer, held_back(q, query, now)),
            usage: released(v1.usage, peer, charges(expired(q, now) + out)),
            ..v1
        };
        lemma_delivered(v2, peer, latencies_ms(out, now), now);
    } else {
        assert(out.len() == 0);
    }
}

/// Polls one inbox.
fn poll(
    config: &RelayConfig,
    inner: &mut RelayStateInner,
    recipient_id: &str,
    query: InboxQuery,
    now: u128,
) -> (r: (Vec<String>, bool, bool))
    requires
        old(inner).wf(config),
        old(inner)@.latency_count + queue_of(old(inner)@.queues, recipient_id@).len() <= u64::MAX,
        old(inner)@.total_delivered + queue_of(old(inner)@.queues, recipient_id@).len() <= u64::MAX,
    ensures
        final(inner).wf(config),
        final(inner)@ == polled(old(inner)@, recipient_id@, query, now),
        texts(r.0@) == poll_result(old(inner)@, recipient_id@, query, now),
        r.1 == old(inner)@.queues.contains_key(recipient_id@),
        r.2 == (old(inner)@.peer_last_seen.contains_key(recipient_id@)
            ==> crate::relay::queue::elapsed(now, old(inner)@.peer_last_seen[recipient_id@])
            >= config.peer_log_window),
{
    let ghost v0 = inner@;
    let ghost peer = recipient_id@;
    proof {
        lemma_polled(v0, peer, query, now, limits_of(config));
        lemma_handed_out(queue_of(v0.queues, peer), query, now, size_weight());
    }
    let logged = record_peer_connection(config, inner, recipient_id, now);
    let key = recipient_id.to_owned();
    match inner.queues.remove(&key) {
        None => {
            proof {
                assert(inner@.queues =~= v0.queues);
                assert(handed_out(Seq::empty(), query, now) =~= Seq::empty()) by {
                    assert(live(Seq::empty(), now) =~= Seq::empty()) by {
                        reveal(Seq::filter);
                    }
                }
                assert(bodies(Seq::empty()) =~= Seq::empty());
            }
            let none: Vec<String> = Vec::new();
            proof {
                assert(texts(none@) =~= Seq::empty());
            }
            (none, false, logged)
        },
        Some(q) => {
            let mut queue: Inbox = q;
            let ghost q0 = queue@;
            let (_expired, envelopes, latencies, back) = pop_envelopes(
                &mut queue,
                query.limit,
                query.max_size_bytes,
                now,
            );
            inner.queues.insert(key, queue);
            apply_usage_decrements(&mut inner.sender_inbox_usage, recipient_id, &back);
            proof {
                assert(inner@.queues =~= v0.queues.insert(peer, held_back(q0, query, now)));
            }
            record_deliveries(inner, recipient_id, &latencies, now);
            (envelopes, true, logged)
        },
    }
}

/// Hands out the inbox of `recipient_id`, and says whether the poll is worth a log line.
pub fn fetch_inbox(
    config: &RelayConfig,
    inner: &mut RelayStateInner,
    recipient_id: &str,
    query: InboxQuery,
    now: u128,
    pruned_at: u128,
) -> (r: (Vec<String>, bool))
    requires
        old(inner).wf(config),
        old(inner)@.latency_count + queue_of(old(inner)@.queues, recipient_id@).len() <= u64::MAX,
        old(inner)@.total_delivered + queue_of(old(inner)@.queues, recipient_id@).len() <= u64::MAX,
    ensures
        final(inner).wf(config),
        final(inner)@ == fetched(old(inner)@, recipient_id@, query, now, pruned_at),
        texts(r.0@) == poll_result(old(inner)@, recipient_id@, query, now),
        r.1 == (old(inner)@.peer_last_seen.contains_key(recipient_id@)
            ==> crate::relay::queue::elapsed(now, old(inner)@.peer_last_seen[recipient_id@])
            >= config.peer_log_window),
{
    let (envelopes, found, logged) = poll(config, inner, recipient_id, query, now);
    if found {
        let ghost w = inner@;
        prune_dedup(&mut inner.dedup, pruned_at);
        assert(inner@.queues == w.queues);
        assert(inner@.usage == w.usage);
        assert(w.bounded(config.max_messages, config.max_bytes));
        assert(inner@.bounded(config.max_messages, config.max_bytes));
        assert(inner@.usage_covered());
        assert(inner.tables_wf());
    }
    (envelopes, logged)
}

// ---------------------------------------------------------------------------
// Several inboxes
// ---------------------------------------------------------------------------

/// A list of envelopes handed out.
pub struct Bundle {
    pub envelopes: Vec<String>,
}

impl View for Bundle {
    type V = Seq<Seq<char>>;

    open spec fn view(&self) -> Seq<Seq<char>> {
        texts(self.envelopes@)
    }
}

/// `v` once each of `peers` has polled its inbox, in turn.
pub open spec fn all_polled(v: RelayView, peers: Seq<Peer>, query: InboxQuery, now: u128) -> RelayView
    decreases peers.len(),
{
    if peers.len() == 0 {
        v
    } else {
        polled(all_polled(v, peers.drop_last(), query, now), peers.last(), query, now)
    }
}

/// What each of `peers` gets when they poll their inboxes in turn. A peer that is named twice
/// keeps what it got the last time.
pub open spec fn all_results(v: RelayView, peers: Seq<Peer>, query: InboxQuery, now: u128) -> Map<
    Peer,
    Seq<Seq<char>>,
>
    decreases peers.len(),
{
    if peers.len() == 0 {
        Map::empty()
    } else {
        let before = peers.drop_last();
        all_results(v, before, query, now).insert(
            peers.last(),
            poll_result(all_polled(v, before, query, now), peers.last(), query, now),
        )
    }
}

/// `v` once `peers` have fetched their inboxes in one request.
pub open spec fn batch_fetched(
    v: RelayView,
    peers: Seq<Peer>,
    query: InboxQuery,
    now: u128,
    pruned_at: u128,
) -> RelayView {
    let w = all_polled(v, peers, query, now);
    RelayView { dedup: above(w.dedup, pruned_at), ..w }
}

proof fn lemma_load_shrinks(
    a: Map<Peer, Seq<Envelope>>,
    b: Map<Peer, Seq<Envelope>>,
    peers: Seq<Peer>,
)
    requires
        forall|p: Peer| #[trigger] queue_of(b, p).len() <= queue_of(a, p).len(),
    ensures
        load(b, peers) <= load(a, peers),
    decreases peers.len(),
{
    if peers.len() > 0 {
        lemma_load_shrinks(a, b, peers.drop_last());
        assert(queue_of(b, peers.last()).len() <= queue_of(a, peers.last()).len());
    }
}

/// Hands out several inboxes in one request.
pub fn fetch_inbox_batch(
    config: &RelayConfig,
    inner: &mut RelayStateInner,
    recipient_ids: &Vec<String>,
    query: InboxQuery,
    now: u128,
    pruned_at: u128,
) -> (r: KeyedMap<String, Bundle>)
    requires
        old(inner).wf(config),
        old(inner)@.latency_count + load(old(inner)@.queues, texts(recipient_ids@)) <= u64::MAX,
        old(inner)@.total_delivered + load(old(inner)@.queues, texts(recipient_ids@)) <= u64::MAX,
    ensures
        final(inner).wf(config),
        final(inner)@ == batch_fetched(
            old(inner)@,
            texts(recipient_ids@),
            query,
            now,
            pruned_at,
        ),
        r.wf(),
        r@ == all_results(old(inner)@, texts(recipient_ids@), query, now),
{
    let ghost v0 = inner@;
    let ghost peers = texts(recipient_ids@);
    let ghost l = limits_of(config);
    let mut results: KeyedMap<String, Bundle> = KeyedMap::new();
    let mut i: usize = 0;
    proof {
        assert(peers.take(0) =~= Seq::empty());
        assert(peers.skip(0) =~= peers);
    }
    while i < recipient_ids.len()
        invariant
            i <= recipient_ids@.len(),
            peers == texts(recipient_ids@),
            inner.wf(config),
            inner@ == all_polled(v0, peers.take(i as int), query, now),
            inner@.latency_count + load(inner@.queues, peers.skip(i as int)) <= u64::MAX,
            inner@.total_delivered + load(inner@.queues, peers.skip(i as int)) <= u64::MAX,
            results.wf(),
            results@ == all_results(v0, peers.take(i as int), query, now),
        decreases recipient_ids@.len() - i,
    {
        let ghost before = inner@;
        let ghost p = peers[i as int];
        proof {
            assert(peers.take(i + 1) =~= peers.take(i as int).push(p));
            assert(peers.take(i + 1).drop_last() =~= peers.take(i as int));
            let f = |x: Peer| queue_of(before.queues, x).len();
            crate::sums::lemma_sum_first(peers.skip(i as int), f);
            assert(peers.skip(i as int).drop_first() =~= peers.skip(i + 1));
            assert(recipient_ids@[i as int]@ == p);
            assert(load(before.queues, peers.skip(i as int)) == queue_of(before.queues, p).len()
                + load(before.queues, peers.skip(i + 1)));
            lemma_polled(before, p, query, now, limits_of(config));
        }
        let (envelopes, _found, _logged) = poll(
            config,
            inner,
            recipient_ids[i].as_str(),
            query,
            now,
        );
        proof {
            lemma_load_shrinks(before.queues, inner@.queues, peers.skip(i + 1));
        }
        results.insert(recipient_ids[i].clone(), Bundle { envelopes });
        i = i + 1;
    }
    proof {
        assert(peers.take(i as int) =~= peers);
    }
    prune_dedup(&mut inner.dedup, pruned_at);
    results
}

// ---------------------------------------------------------------------------
// Authorisation
// ---------------------------------------------------------------------------

/// The token in an `Authorization` header of the Bearer scheme.
pub fn extract_bearer_token(header: Option<&str>) -> (r: Option<String>)
    ensures
        match header {
            Some(h) => crate::text::opt_text(r) == after_prefix(h@, "Bearer "@),
            None => r is None,
        },
{
    match header {
        Some(h) => match strip_prefix(h, "Bearer ") {
            Some(t) => Some(t.to_owned()),
            None => None,
        },
        None => None,
    }
}

} // verus!
