//! What holds of the relay as a whole.
use vstd::prelude::*;

use crate::keyed::above;
use crate::relay::accept::lemma_enqueued_sound;
use crate::relay::accept::lemma_fanned_out_sound;
use crate::relay::accept::lemma_pruned_sound;
use crate::relay::accept::sound;
use crate::relay::config::RelayConfig;
use crate::relay::evict::evicted;
use crate::relay::evict::room;
use crate::relay::fetch::fetched;
use crate::relay::fetch::handed_out;
use crate::relay::fetch::held_back;
use crate::relay::fetch::lemma_polled_sound;
use crate::relay::fetch::poll_result;
use crate::relay::fetch::polled;
use crate::relay::fetch::InboxQuery;
use crate::relay::queue::bodies;
use crate::relay::queue::charges;
use crate::relay::queue::elapsed;
use crate::relay::queue::expired;
use crate::relay::queue::fetch_limit;
use crate::relay::queue::fits;
use crate::relay::queue::is_live;
use crate::relay::queue::latencies_ms;
use crate::relay::queue::left;
use crate::relay::queue::live;
use crate::relay::queue::message_ids;
use crate::relay::queue::recent;
use crate::relay::queue::stamped;
use crate::relay::queue::taken;
use crate::relay::queue::trailing_within;
use crate::relay::queue::Envelope;
use crate::relay::state::directed;
use crate::relay::state::lemma_delivered_elsewhere;
use crate::relay::state::queue_of;
use crate::relay::state::released;
use crate::relay::state::tier_of;
use crate::relay::state::touched;
use crate::relay::state::usage_of;
use crate::relay::state::Peer;
use crate::relay::state::RelayView;
use crate::relay::store::audience;
use crate::relay::store::displaces;
use crate::relay::store::envelope_for;
use crate::relay::store::expiry_of;
use crate::relay::store::limits_of;
use crate::relay::store::pruned;
use crate::relay::store::registered;
use crate::relay::store::store;
use crate::relay::store::Expiry;
use crate::relay::store::PayloadView;
use crate::relay::store::StoreOutcome;

verus! {

/// Whether an outcome puts the envelope into inboxes.
pub open spec fn took(o: StoreOutcome) -> bool {
    o is Accepted || o is Broadcast
}

// ---------------------------------------------------------------------------
// Storing
// ---------------------------------------------------------------------------

/// The relay caps lifetimes: no envelope is kept beyond the configured maximum, nor beyond the
/// lifetime that its sender gave it.
pub proof fn law_lifetime_is_capped(
    ttl_seconds: Option<u64>,
    timestamp: Option<u64>,
    ttl: u128,
    now: u128,
    epoch: Option<u64>,
)
    requires
        now + ttl <= u128::MAX,
    ensures
        match expiry_of(ttl_seconds, timestamp, ttl, now, epoch) {
            Expiry::Valid(t) => {
                &&& t <= now + ttl
                &&& ttl > 0 ==> now < t
                &&& ttl_seconds is Some ==> timestamp is Some && epoch is Some && t <= now + (
                timestamp->0 + ttl_seconds->0 - epoch->0) * crate::relay::config::SECOND
            },
            _ => true,
        },
{
}

/// Storing keeps every inbox within its limits and charges no sender for more than it has queued.
pub proof fn law_store_keeps_limits(
    config: &RelayConfig,
    v: RelayView,
    p: PayloadView,
    now: u128,
    epoch: Option<u64>,
    pruned_at: u128,
)
    requires
        sound(v, limits_of(config)),
    ensures
        sound(store(config, v, p, now, epoch, pruned_at).0, limits_of(config)),
{
    let l = limits_of(config);
    if p.recipient_id is Some && p.size() <= config.max_bytes {
        let v1 = registered(v, p, now);
        assert(sound(v1, l));
        match expiry_of(p.ttl_seconds, p.timestamp, config.ttl, now, epoch) {
            Expiry::Valid(t) => {
                let e = envelope_for(p, t, now);
                let v2 = RelayView { dedup: above(v1.dedup, pruned_at), ..v1 };
                assert(sound(v2, l));
                if p.is_broadcast() {
                    lemma_fanned_out_sound(v2, audience(v2.peer_last_seen, p.sender_id), e, l, now);
                } else {
                    let r = p.recipient_id->0;
                    let v4 = match p.sender_id {
                        Some(s) => directed(v2, s, r, now, config.qos.bidirectional_window),
                        None => v2,
                    };
                    assert(sound(v4, l));
                    lemma_pruned_sound(v4, r, now, l);
                    lemma_enqueued_sound(pruned(v4, r, now), r, e, l, now);
                }
            },
            _ => {},
        }
    }
}

/// A refused envelope leaves the inboxes as they were, but for expired envelopes of the inbox
/// that it was meant for.
pub proof fn law_refused_envelope_leaves_inboxes(
    config: &RelayConfig,
    v: RelayView,
    p: PayloadView,
    now: u128,
    epoch: Option<u64>,
    pruned_at: u128,
)
    requires
        !took(store(config, v, p, now, epoch, pruned_at).1),
    ensures
        ({
            let (w, o) = store(config, v, p, now, epoch, pruned_at);
            &&& w.total_stored == v.total_stored
            &&& w.peer_sends == v.peer_sends
            &&& if o is QuotaExceeded {
                let r = p.recipient_id->0;
                &&& w.queues == v.queues.insert(r, live(queue_of(v.queues, r), now))
                &&& !w.dedup.contains_key(p.id())
            } else {
                w.queues == v.queues && w.usage == v.usage
            }
        }),
{
}

/// An accepted envelope is the newest of its recipient's inbox; no other inbox changes.
pub proof fn law_accepted_envelope_is_queued(
    config: &RelayConfig,
    v: RelayView,
    p: PayloadView,
    now: u128,
    epoch: Option<u64>,
    pruned_at: u128,
)
    requires
        store(config, v, p, now, epoch, pruned_at).1 is Accepted,
    ensures
        ({
            let w = store(config, v, p, now, epoch, pruned_at).0;
            let r = p.recipient_id->0;
            let q = live(queue_of(v.queues, r), now);
            let kept = room(q, p.size(), config.max_messages, config.max_bytes);
            &&& expiry_of(p.ttl_seconds, p.timestamp, config.ttl, now, epoch) is Valid
            &&& w.queues == v.queues.insert(
                r,
                kept.push(
                    envelope_for(
                        p,
                        expiry_of(p.ttl_seconds, p.timestamp, config.ttl, now, epoch)->Valid_0,
                        now,
                    ),
                ),
            )
            &&& w.total_stored == (v.total_stored + 1) as u64
        }),
{
}

/// A broadcast is the newest envelope of every known peer but its sender, and changes no other
/// inbox.
pub proof fn law_broadcast_reaches_everyone_else(
    config: &RelayConfig,
    v: RelayView,
    p: PayloadView,
    now: u128,
    epoch: Option<u64>,
    pruned_at: u128,
    peer: Peer,
)
    requires
        store(config, v, p, now, epoch, pruned_at).1 is Broadcast,
    ensures
        ({
            let (w, o) = store(config, v, p, now, epoch, pruned_at);
            let told = v.peer_last_seen.contains_key(peer) && p.sender_id != Some(peer);
            &&& o->Broadcast_1.contains(peer) == told
            &&& told ==> {
                let q = queue_of(w.queues, peer);
                q.len() > 0 && q.last().message_id == p.id() && q.last().body == p.body
            }
            &&& !told ==> w.queues.contains_key(peer) == v.queues.contains_key(peer) && queue_of(
                w.queues,
                peer,
            ) == queue_of(v.queues, peer)
        }),
{
}

/// An accepted envelope does not take its sender over the limits of its tier in that inbox.
pub proof fn law_quota_holds_after_acceptance(
    config: &RelayConfig,
    v: RelayView,
    p: PayloadView,
    now: u128,
    epoch: Option<u64>,
    pruned_at: u128,
)
    requires
        sound(v, limits_of(config)),
        p.sender_id is Some,
        store(config, v, p, now, epoch, pruned_at).1 is Accepted,
    ensures
        ({
            let w = store(config, v, p, now, epoch, pruned_at).0;
            let (s, r) = (p.sender_id->0, p.recipient_id->0);
            let t = tier_of(config.qos, w, s, r, now);
            let u = usage_of(w.usage, (s, r));
            u.count <= t.max_envelopes && u.bytes <= t.max_bytes
        }),
{
    let l = limits_of(config);
    let (s, r) = (p.sender_id->0, p.recipient_id->0);
    let v1 = registered(v, p, now);
    let t = expiry_of(p.ttl_seconds, p.timestamp, config.ttl, now, epoch)->Valid_0;
    let v2 = RelayView { dedup: above(v1.dedup, pruned_at), ..v1 };
    let v4 = directed(v2, s, r, now, config.qos.bidirectional_window);
    assert(sound(v4, l));
    lemma_pruned_sound(v4, r, now, l);
    let v5 = pruned(v4, r, now);
    let e = envelope_for(p, t, now);
    lemma_enqueued_sound(v5, r, e, l, now);
}

// ---------------------------------------------------------------------------
// Deduplication
// ---------------------------------------------------------------------------

/// Whether storing `p` evicts an envelope with the message id `id` from an inbox to make room.
pub open spec fn store_evicts(
    config: &RelayConfig,
    v: RelayView,
    p: PayloadView,
    now: u128,
    epoch: Option<u64>,
    pruned_at: u128,
    id: Seq<char>,
) -> bool {
    let l = limits_of(config);
    let size = p.size() as usize;
    took(store(config, v, p, now, epoch, pruned_at).1) && if p.is_broadcast() {
        displaces(
            v.queues,
            audience(registered(v, p, now).peer_last_seen, p.sender_id),
            size,
            l,
            now,
            id,
        )
    } else {
        let q = queue_of(v.queues, p.recipient_id->0);
        message_ids(
            evicted(live(q, now), size as nat, l.max_messages, l.max_bytes),
        ).contains(id)
    }
}

/// Once an envelope has been taken in, its message id is known until the envelope expires.
pub proof fn law_taken_id_is_known(
    config: &RelayConfig,
    v: RelayView,
    p: PayloadView,
    now: u128,
    epoch: Option<u64>,
    pruned_at: u128,
)
    requires
        took(store(config, v, p, now, epoch, pruned_at).1),
    ensures
        ({
            let w = store(config, v, p, now, epoch, pruned_at).0;
            &&& expiry_of(p.ttl_seconds, p.timestamp, config.ttl, now, epoch) is Valid
            &&& w.dedup.contains_key(p.id())
            &&& w.dedup[p.id()] == expiry_of(
                p.ttl_seconds,
                p.timestamp,
                config.ttl,
                now,
                epoch,
            )->Valid_0
        }),
{
}

/// Storing an envelope leaves a message id known that was known, unless an envelope with that id
/// has to make room.
pub proof fn law_store_keeps_known_id(
    config: &RelayConfig,
    v: RelayView,
    p: PayloadView,
    now: u128,
    epoch: Option<u64>,
    pruned_at: u128,
    id: Seq<char>,
)
    requires
        v.dedup.contains_key(id),
        now < v.dedup[id],
        pruned_at < v.dedup[id],
        !store_evicts(config, v, p, now, epoch, pruned_at, id),
    ensures
        ({
            let w = store(config, v, p, now, epoch, pruned_at).0;
            w.dedup.contains_key(id) && w.dedup[id] == v.dedup[id]
        }),
{
    if took(store(config, v, p, now, epoch, pruned_at).1) {
        let e = envelope_for(
            p,
            expiry_of(p.ttl_seconds, p.timestamp, config.ttl, now, epoch)->Valid_0,
            now,
        );
        assert(e.size_bytes == p.size());
    }
}

/// Polling an inbox leaves every message id known that was known, whatever is handed out or has
/// expired.
pub proof fn law_poll_keeps_known_id(
    v: RelayView,
    peer: Peer,
    query: InboxQuery,
    now: u128,
    id: Seq<char>,
)
    requires
        v.dedup.contains_key(id),
    ensures
        ({
            let w = polled(v, peer, query, now);
            w.dedup.contains_key(id) && w.dedup[id] == v.dedup[id]
        }),
{
    if v.queues.contains_key(peer) {
        let q = v.queues[peer];
        let out = handed_out(q, query, now);
        lemma_delivered_elsewhere(
            RelayView {
                queues: v.queues.insert(peer, held_back(q, query, now)),
                usage: released(v.usage, peer, charges(expired(q, now) + out)),
                ..touched(v, peer, now)
            },
            peer,
            latencies_ms(out, now),
            now,
        );
    }
}

/// Fetching an inbox leaves every message id known that has not run out, whatever is handed out or
/// has expired.
pub proof fn law_fetch_keeps_known_id(
    v: RelayView,
    peer: Peer,
    query: InboxQuery,
    now: u128,
    pruned_at: u128,
    id: Seq<char>,
)
    requires
        v.dedup.contains_key(id),
        pruned_at < v.dedup[id],
    ensures
        ({
            let w = fetched(v, peer, query, now, pruned_at);
            w.dedup.contains_key(id) && w.dedup[id] == v.dedup[id]
        }),
{
    law_poll_keeps_known_id(v, peer, query, now, id);
}

/// An envelope whose message id is known is dropped: it is reported as a duplicate, and neither
/// inboxes nor quotas nor tiers change.
pub proof fn law_known_id_is_dropped(
    config: &RelayConfig,
    v: RelayView,
    p: PayloadView,
    now: u128,
    epoch: Option<u64>,
    pruned_at: u128,
)
    requires
        v.dedup.contains_key(p.id()),
        now < v.dedup[p.id()],
        pruned_at < v.dedup[p.id()],
        p.recipient_id is Some,
        p.size() <= config.max_bytes,
        expiry_of(p.ttl_seconds, p.timestamp, config.ttl, now, epoch) is Valid,
    ensures
        ({
            let (w, o) = store(config, v, p, now, epoch, pruned_at);
            &&& o == StoreOutcome::Duplicate(p.id())
            &&& w.queues == v.queues
            &&& w.usage == v.usage
            &&& w.total_stored == v.total_stored
            &&& w.directed == v.directed
            &&& w.pairs == v.pairs
        }),
{
}

// ---------------------------------------------------------------------------
// Fetching
// ---------------------------------------------------------------------------

proof fn lemma_take_unfiltered(q: Seq<Envelope>, n: nat)
    ensures
        taken(q, n, None) == q.take(if n < q.len() {
            n as int
        } else {
            q.len() as int
        }),
        left(q, n, None) == q.skip(if n < q.len() {
            n as int
        } else {
            q.len() as int
        }),
    decreases q.len(),
{
    let k: int = if n < q.len() {
        n as int
    } else {
        q.len() as int
    };
    if n == 0 || q.len() == 0 {
        assert(taken(q, n, None) =~= q.take(k));
        assert(left(q, n, None) =~= q.skip(k));
    } else {
        let rest = q.drop_first();
        lemma_take_unfiltered(rest, (n - 1) as nat);
        assert(seq![q[0]] + rest.take(k - 1) =~= q.take(k));
        assert(rest.skip(k - 1) =~= q.skip(k));
    }
}

/// A reader that sets no size threshold gets the oldest live envelopes, oldest first, and the
/// rest stay in their order.
pub proof fn law_fetch_is_first_in_first_out(q: Seq<Envelope>, limit: Option<usize>, now: u128)
    ensures
        ({
            let a = live(q, now);
            let n = fetch_limit(limit, a.len());
            let k = if n < a.len() {
                n as int
            } else {
                a.len() as int
            };
            let query = InboxQuery { limit, max_size_bytes: None };
            handed_out(q, query, now) == a.take(k) && held_back(q, query, now) == a.skip(k)
        }),
{
    let a = live(q, now);
    lemma_take_unfiltered(a, fetch_limit(limit, a.len()));
}

proof fn lemma_taken_elements(q: Seq<Envelope>, n: nat, max_size: Option<usize>)
    ensures
        forall|i: int|
            0 <= i < taken(q, n, max_size).len() ==> q.contains(
                #[trigger] taken(q, n, max_size)[i],
            ) && fits(taken(q, n, max_size)[i], max_size),
        forall|e: Envelope|
            q.contains(e) && !fits(e, max_size) ==> #[trigger] left(q, n, max_size).contains(e),
    decreases q.len(),
{
    if n > 0 && q.len() > 0 {
        let rest = q.drop_first();
        let fit = fits(q[0], max_size);
        let m = if fit {
            (n - 1) as nat
        } else {
            n
        };
        lemma_taken_elements(rest, m, max_size);
        let t = taken(rest, m, max_size);
        let l = left(rest, m, max_size);
        let all = taken(q, n, max_size);
        assert forall|i: int| 0 <= i < all.len() implies q.contains(#[trigger] all[i]) && fits(
            all[i],
            max_size,
        ) by {
            if fit && i == 0 {
                assert(q[0] == all[i]);
            } else {
                let j = if fit {
                    i - 1
                } else {
                    i
                };
                assert(all[i] == t[j]);
                assert(rest.contains(t[j]));
                let k = choose|k: int| 0 <= k < rest.len() && rest[k] == t[j];
                assert(q[k + 1] == t[j]);
            }
        }
        assert forall|e: Envelope| q.contains(e) && !fits(e, max_size) implies #[trigger] left(
            q,
            n,
            max_size,
        ).contains(e) by {
            let k = choose|k: int| 0 <= k < q.len() && q[k] == e;
            if k == 0 {
                assert(!fit);
                assert(left(q, n, max_size)[0] == e);
            } else {
                assert(rest[k - 1] == e);
                assert(rest.contains(e));
                assert(l.contains(e));
                let j = choose|j: int| 0 <= j < l.len() && l[j] == e;
                if fit {
                    assert(left(q, n, max_size)[j] == e);
                } else {
                    assert(left(q, n, max_size)[j + 1] == e);
                }
            }
        }
    } else {
        assert(taken(q, n, max_size).len() == 0);
    }
}

/// A reader gets only envelopes that were queued, have not expired and are within its threshold;
/// live envelopes above the threshold stay.
pub proof fn law_fetch_hands_out_only_live_fitting_envelopes(
    q: Seq<Envelope>,
    query: InboxQuery,
    now: u128,
)
    ensures
        forall|i: int|
            0 <= i < handed_out(q, query, now).len() ==> {
                let e = #[trigger] handed_out(q, query, now)[i];
                q.contains(e) && e.expires_at > now && fits(e, query.max_size_bytes)
            },
        forall|e: Envelope|
            q.contains(e) && e.expires_at > now && !fits(e, query.max_size_bytes)
                ==> #[trigger] held_back(q, query, now).contains(e),
{
    let a = live(q, now);
    let n = fetch_limit(query.limit, a.len());
    lemma_taken_elements(a, n, query.max_size_bytes);
    let out = handed_out(q, query, now);
    assert forall|i: int| 0 <= i < out.len() implies q.contains(#[trigger] out[i])
        && out[i].expires_at > now && fits(out[i], query.max_size_bytes) by {
        assert(a.contains(out[i]));
        let k = choose|k: int| 0 <= k < a.len() && a[k] == out[i];
        q.lemma_filter_pred(is_live(now), k);
        q.lemma_filter_contains_rev(is_live(now), out[i]);
    }
    assert forall|e: Envelope|
        q.contains(e) && e.expires_at > now && !fits(
            e,
            query.max_size_bytes,
        ) implies #[trigger] held_back(q, query, now).contains(e) by {
        let k = choose|k: int| 0 <= k < q.len() && q[k] == e;
        q.lemma_filter_contains(is_live(now), k);
        assert(a.contains(e));
    }
}

/// Fetching keeps every inbox within its limits and charges no sender for more than it has
/// queued.
pub proof fn law_fetch_keeps_limits(
    config: &RelayConfig,
    v: RelayView,
    peer: Peer,
    query: InboxQuery,
    now: u128,
    pruned_at: u128,
)
    requires
        sound(v, limits_of(config)),
    ensures
        sound(fetched(v, peer, query, now, pruned_at), limits_of(config)),
{
    lemma_polled_sound(v, peer, query, now, limits_of(config));
}

proof fn lemma_fetch_all(q: Seq<Envelope>, now: u128)
    ensures
        ({
            let query = InboxQuery { limit: None, max_size_bytes: None };
            handed_out(q, query, now) == live(q, now) && held_back(q, query, now) == Seq::<
                Envelope,
            >::empty()
        }),
{
    let a = live(q, now);
    law_fetch_is_first_in_first_out(q, None, now);
    assert(a.take(a.len() as int) =~= a);
    assert(a.skip(a.len() as int) =~= Seq::empty());
}

proof fn lemma_live_push(q: Seq<Envelope>, e: Envelope, now: u128)
    requires
        e.expires_at > now,
    ensures
        live(q.push(e), now) == live(q, now).push(e),
{
    reveal(Seq::filter);
    assert(q.push(e).drop_last() =~= q);
}

/// What was stored is what is fetched: a recipient that fetches its whole inbox before the
/// envelope expires gets the envelope, last of all, and a second fetch gets nothing. Whatever else
/// happened to the relay meanwhile, `w` is one whose inbox of the recipient is still as it was when
/// the envelope came in.
pub proof fn law_stored_envelope_is_fetched(
    config: &RelayConfig,
    v: RelayView,
    p: PayloadView,
    now: u128,
    epoch: Option<u64>,
    pruned_at: u128,
    w: RelayView,
    later: u128,
    pruned_later: u128,
    again: u128,
)
    requires
        store(config, v, p, now, epoch, pruned_at).1 is Accepted,
        queue_of(w.queues, p.recipient_id->0) == queue_of(
            store(config, v, p, now, epoch, pruned_at).0.queues,
            p.recipient_id->0,
        ),
        later < expiry_of(p.ttl_seconds, p.timestamp, config.ttl, now, epoch)->Valid_0,
    ensures
        ({
            let query = InboxQuery { limit: None, max_size_bytes: None };
            let r = p.recipient_id->0;
            let got = poll_result(w, r, query, later);
            let x = fetched(w, r, query, later, pruned_later);
            &&& got.len() > 0 && got.last() == p.body
            &&& queue_of(x.queues, r) == Seq::<Envelope>::empty()
            &&& poll_result(x, r, query, again) == Seq::<Seq<char>>::empty()
        }),
{
    let query = InboxQuery { limit: None, max_size_bytes: None };
    let r = p.recipient_id->0;
    let q = queue_of(w.queues, r);
    law_accepted_envelope_is_queued(config, v, p, now, epoch, pruned_at);
    let e = q.last();
    assert(q =~= q.drop_last().push(e));
    lemma_live_push(q.drop_last(), e, later);
    lemma_fetch_all(q, later);
    let got = poll_result(w, r, query, later);
    assert(got.last() == bodies(live(q, later)).last());
    assert(w.queues.contains_key(r));
    let x = fetched(w, r, query, later, pruned_later);
    lemma_delivered_elsewhere(
        RelayView {
            queues: w.queues.insert(r, held_back(q, query, later)),
            usage: released(w.usage, r, charges(expired(q, later) + handed_out(q, query, later))),
            ..touched(w, r, later)
        },
        r,
        latencies_ms(handed_out(q, query, later), later),
        later,
    );
    assert(queue_of(x.queues, r) == Seq::<Envelope>::empty());
    assert(live(Seq::<Envelope>::empty(), again) =~= Seq::empty()) by {
        reveal(Seq::filter);
    }
    lemma_fetch_all(Seq::empty(), again);
    assert(bodies(Seq::<Envelope>::empty()) =~= Seq::empty());
}

// ---------------------------------------------------------------------------
// Tiers
// ---------------------------------------------------------------------------

/// A recipient that writes back lifts the sender to Tier 3 as long as both keep writing within
/// the window, and to Tier 2 for good.
pub proof fn law_reply_lifts_tier(
    config: &RelayConfig,
    v: RelayView,
    a: Peer,
    b: Peer,
    first: u128,
    reply: u128,
    now: u128,
)
    requires
        a != b,
        first <= reply <= now,
    ensures
        ({
            let window = config.qos.bidirectional_window;
            let w = directed(directed(v, a, b, first, window), b, a, reply, window);
            let t = tier_of(config.qos, w, a, b, now);
            &&& now - first <= window ==> t == config.qos.tier3
            &&& t == config.qos.tier3 || t == config.qos.tier2
        }),
{
}

// ---------------------------------------------------------------------------
// Activity windows
// ---------------------------------------------------------------------------

/// Whether instants stand in the order in which they came, none of them ahead of `now`.
pub open spec fn in_order(d: Seq<u128>, now: u128) -> bool {
    &&& forall|i: int, j: int| 0 <= i <= j < d.len() ==> d[i] <= d[j]
    &&& forall|i: int| 0 <= i < d.len() ==> #[trigger] d[i] <= now
}

proof fn lemma_recent(d: Seq<u128>, now: u128, max_age: u128)
    requires
        in_order(d, now),
    ensures
        in_order(recent(d, now, max_age), now),
        forall|i: int|
            0 <= i < recent(d, now, max_age).len() ==> now - #[trigger] recent(
                d,
                now,
                max_age,
            )[i] <= max_age,
    decreases d.len(),
{
    if d.len() > 0 && elapsed(now, d[0]) > max_age {
        let rest = d.drop_first();
        assert forall|i: int, j: int| 0 <= i <= j < rest.len() implies rest[i] <= rest[j] by {
            assert(rest[i] == d[i + 1]);
            assert(rest[j] == d[j + 1]);
        }
        assert forall|i: int| 0 <= i < rest.len() implies #[trigger] rest[i] <= now by {
            assert(rest[i] == d[i + 1]);
        }
        lemma_recent(rest, now, max_age);
    } else {
        assert forall|i: int| 0 <= i < d.len() implies now - #[trigger] d[i] <= max_age by {
            assert(d[0] <= d[i]);
        }
    }
}

/// A window keeps its instants in order, and none of them is more than a day old.
pub proof fn law_window_spans_a_day(d: Seq<u128>, before: u128, now: u128)
    requires
        in_order(d, before),
        before <= now,
    ensures
        in_order(stamped(d, now), now),
        forall|i: int|
            0 <= i < stamped(d, now).len() ==> now - #[trigger] stamped(d, now)[i] <= 86_400
                * crate::relay::config::SECOND,
{
    lemma_recent(d.push(now), now, (86_400 * crate::relay::config::SECOND) as u128);
}

/// In an ordered window the instants counted are all that fall within the span asked for.
pub proof fn law_window_count_is_exact(d: Seq<u128>, now: u128, window: u128)
    requires
        in_order(d, now),
    ensures
        ({
            let n = trailing_within(d, now, window);
            &&& n <= d.len()
            &&& forall|i: int|
                0 <= i < d.len() ==> ((now - #[trigger] d[i] <= window) <==> i >= d.len() - n)
        }),
    decreases d.len(),
{
    if d.len() > 0 {
        if elapsed(now, d.last()) <= window {
            let rest = d.drop_last();
            assert forall|i: int, j: int| 0 <= i <= j < rest.len() implies rest[i] <= rest[j] by {
                assert(rest[i] == d[i] && rest[j] == d[j]);
            }
            assert forall|i: int| 0 <= i < rest.len() implies #[trigger] rest[i] <= now by {
                assert(rest[i] == d[i]);
            }
            law_window_count_is_exact(rest, now, window);
            let n = trailing_within(d, now, window);
            assert forall|i: int| 0 <= i < d.len() implies ((now - #[trigger] d[i] <= window) <==> i
                >= d.len() - n) by {
                if i < d.len() - 1 {
                    assert(rest[i] == d[i]);
                }
            }
        } else {
            assert forall|i: int| 0 <= i < d.len() implies now - #[trigger] d[i] > window by {
                assert(d[i] <= d[d.len() - 1]);
            }
        }
    }
}

} // verus!
