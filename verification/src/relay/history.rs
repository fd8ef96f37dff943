//! What holds of the relay over a history of requests.
use vstd::prelude::*;

use crate::keyed::above;
use crate::relay::accept::lemma_enqueued_sound;
use crate::relay::accept::lemma_live_expired;
use crate::relay::accept::lemma_pruned_sound;
use crate::relay::accept::sound;
use crate::relay::config::RelayConfig;
use crate::relay::evict::evicted;
use crate::relay::evict::lemma_room;
use crate::relay::evict::room;
use crate::relay::fetch::batch_fetched;
use crate::relay::fetch::fetched;
use crate::relay::fetch::handed_out;
use crate::relay::fetch::held_back;
use crate::relay::fetch::lemma_handed_out;
use crate::relay::fetch::lemma_polled_sound;
use crate::relay::fetch::polled;
use crate::relay::fetch::InboxQuery;
use crate::relay::laws::law_known_id_is_dropped;
use crate::relay::laws::law_poll_keeps_known_id;
use crate::relay::laws::law_store_keeps_known_id;
use crate::relay::laws::law_store_keeps_limits;
use crate::relay::laws::law_taken_id_is_known;
use crate::relay::laws::store_evicts;
use crate::relay::laws::took;
use crate::relay::queue::bytes_weight;
use crate::relay::queue::charges;
use crate::relay::queue::count_weight;
use crate::relay::queue::expired;
use crate::relay::queue::latencies_ms;
use crate::relay::queue::live;
use crate::relay::queue::sent_bytes;
use crate::relay::queue::sent_count;
use crate::relay::queue::Envelope;
use crate::relay::state::directed;
use crate::relay::state::empty_relay;
use crate::relay::state::lemma_charges;
use crate::relay::state::lemma_delivered_elsewhere;
use crate::relay::state::queue_of;
use crate::relay::state::released;
use crate::relay::state::touched;
use crate::relay::state::usage_of;
use crate::relay::state::Peer;
use crate::relay::state::RelayView;
use crate::relay::state::SenderUsage;
use crate::relay::store::enqueued;
use crate::relay::store::envelope_for;
use crate::relay::store::expiry_of;
use crate::relay::store::limits_of;
use crate::relay::store::pruned;
use crate::relay::store::registered;
use crate::relay::store::store;
use crate::relay::store::InboxLimits;
use crate::relay::store::PayloadView;
use crate::relay::store::StoreOutcome;
use crate::sums::lemma_sum_push;
use crate::sums::sum;

verus! {

/// Something that happens to the inboxes of a relay. A fetch is a poll and then a pruning of known
/// ids; a fetch of several inboxes is several polls and then a pruning.
pub enum RelayStep {
    Store { payload: PayloadView, now: u128, epoch: Option<u64>, pruned_at: u128 },
    Poll { peer: Peer, query: InboxQuery, now: u128 },
    Prune { at: u128 },
}

/// The relay once a step has been taken.
pub open spec fn stepped(config: &RelayConfig, v: RelayView, s: RelayStep) -> RelayView {
    match s {
        RelayStep::Store { payload, now, epoch, pruned_at } => store(
            config,
            v,
            payload,
            now,
            epoch,
            pruned_at,
        ).0,
        RelayStep::Poll { peer, query, now } => polled(v, peer, query, now),
        RelayStep::Prune { at } => RelayView { dedup: above(v.dedup, at), ..v },
    }
}

/// The relay once some steps have been taken, one after the other.
pub open spec fn after(config: &RelayConfig, v: RelayView, steps: Seq<RelayStep>) -> RelayView
    decreases steps.len(),
{
    if steps.len() == 0 {
        v
    } else {
        stepped(config, after(config, v, steps.drop_last()), steps.last())
    }
}

/// The steps of a fetch.
pub open spec fn fetch_steps(
    v: RelayView,
    peer: Peer,
    query: InboxQuery,
    now: u128,
    pruned_at: u128,
) -> Seq<RelayStep> {
    let poll = RelayStep::Poll { peer, query, now };
    if v.queues.contains_key(peer) {
        seq![poll, RelayStep::Prune { at: pruned_at }]
    } else {
        seq![poll]
    }
}

/// A fetch is its steps.
pub proof fn law_fetch_is_a_history(
    config: &RelayConfig,
    v: RelayView,
    peer: Peer,
    query: InboxQuery,
    now: u128,
    pruned_at: u128,
)
    ensures
        after(config, v, fetch_steps(v, peer, query, now, pruned_at)) == fetched(
            v,
            peer,
            query,
            now,
            pruned_at,
        ),
{
    reveal_with_fuel(after, 3);
    let steps = fetch_steps(v, peer, query, now, pruned_at);
    let poll = RelayStep::Poll { peer, query, now };
    if v.queues.contains_key(peer) {
        assert(steps.drop_last() =~= seq![poll]);
        assert(seq![poll].drop_last() =~= Seq::empty());
    } else {
        assert(steps.drop_last() =~= Seq::empty());
    }
}

/// The steps of a fetch of several inboxes.
pub open spec fn batch_steps(peers: Seq<Peer>, query: InboxQuery, now: u128, pruned_at: u128) -> Seq<
    RelayStep,
> {
    peers.map_values(|peer: Peer| RelayStep::Poll { peer, query, now }).push(
        RelayStep::Prune { at: pruned_at },
    )
}

proof fn lemma_polls(
    config: &RelayConfig,
    v: RelayView,
    peers: Seq<Peer>,
    query: InboxQuery,
    now: u128,
)
    ensures
        after(config, v, peers.map_values(|peer: Peer| RelayStep::Poll { peer, query, now }))
            == crate::relay::fetch::all_polled(v, peers, query, now),
    decreases peers.len(),
{
    let f = |peer: Peer| RelayStep::Poll { peer, query, now };
    if peers.len() > 0 {
        lemma_polls(config, v, peers.drop_last(), query, now);
        assert(peers.map_values(f).drop_last() =~= peers.drop_last().map_values(f));
    }
}

/// A fetch of several inboxes is its steps.
pub proof fn law_batch_fetch_is_a_history(
    config: &RelayConfig,
    v: RelayView,
    peers: Seq<Peer>,
    query: InboxQuery,
    now: u128,
    pruned_at: u128,
)
    ensures
        after(config, v, batch_steps(peers, query, now, pruned_at)) == batch_fetched(
            v,
            peers,
            query,
            now,
            pruned_at,
        ),
{
    let f = |peer: Peer| RelayStep::Poll { peer, query, now };
    lemma_polls(config, v, peers, query, now);
    assert(batch_steps(peers, query, now, pruned_at).drop_last() =~= peers.map_values(f));
}

// ---------------------------------------------------------------------------
// Deduplication
// ---------------------------------------------------------------------------

/// Whether a step comes before the instant `until`, and evicts no envelope with the message id `id`
/// to make room.
pub open spec fn spares(
    config: &RelayConfig,
    v: RelayView,
    s: RelayStep,
    id: Seq<char>,
    until: u128,
) -> bool {
    match s {
        RelayStep::Store { payload, now, epoch, pruned_at } => now < until && pruned_at < until
            && !store_evicts(config, v, payload, now, epoch, pruned_at, id),
        RelayStep::Poll { .. } => true,
        RelayStep::Prune { at } => at < until,
    }
}

/// Whether every step of a history spares a message id.
pub open spec fn all_spare(
    config: &RelayConfig,
    v: RelayView,
    steps: Seq<RelayStep>,
    id: Seq<char>,
    until: u128,
) -> bool {
    forall|i: int|
        0 <= i < steps.len() ==> spares(
            config,
            after(config, v, steps.take(i)),
            #[trigger] steps[i],
            id,
            until,
        )
}

/// A message id that is known stays known, over any history that spares it: its envelope may have
/// been handed out, and older ones of that id may have expired.
pub proof fn law_known_id_stays_known(
    config: &RelayConfig,
    v: RelayView,
    steps: Seq<RelayStep>,
    id: Seq<char>,
)
    requires
        v.dedup.contains_key(id),
        all_spare(config, v, steps, id, v.dedup[id]),
    ensures
        after(config, v, steps).dedup.contains_key(id),
        after(config, v, steps).dedup[id] == v.dedup[id],
    decreases steps.len(),
{
    if steps.len() > 0 {
        let n = steps.len() - 1;
        let before = steps.drop_last();
        let until = v.dedup[id];
        assert forall|i: int| 0 <= i < before.len() implies spares(
            config,
            after(config, v, before.take(i)),
            #[trigger] before[i],
            id,
            until,
        ) by {
            assert(before.take(i) =~= steps.take(i));
            assert(before[i] == steps[i]);
        }
        law_known_id_stays_known(config, v, before, id);
        assert(steps.take(n) =~= before);
        assert(spares(config, after(config, v, steps.take(n)), steps[n], id, until));
        let w = after(config, v, before);
        match steps.last() {
            RelayStep::Store { payload, now, epoch, pruned_at } => {
                law_store_keeps_known_id(config, w, payload, now, epoch, pruned_at, id);
            },
            RelayStep::Poll { peer, query, now } => {
                law_poll_keeps_known_id(w, peer, query, now, id);
            },
            RelayStep::Prune { at } => {},
        }
    }
}

/// Repeated submissions are dropped: once an envelope has been taken in, and whatever has been
/// stored and fetched since, any envelope with its message id that arrives before it expires is
/// reported as a duplicate, and neither inboxes nor quotas nor tiers change; unless an envelope
/// with that id has meanwhile had to make room.
pub proof fn law_repeated_submission_is_dropped(
    config: &RelayConfig,
    v: RelayView,
    p: PayloadView,
    now: u128,
    epoch: Option<u64>,
    pruned_at: u128,
    steps: Seq<RelayStep>,
    p2: PayloadView,
    now2: u128,
    epoch2: Option<u64>,
    pruned_at2: u128,
)
    requires
        took(store(config, v, p, now, epoch, pruned_at).1),
        all_spare(
            config,
            store(config, v, p, now, epoch, pruned_at).0,
            steps,
            p.id(),
            expiry_of(p.ttl_seconds, p.timestamp, config.ttl, now, epoch)->Valid_0,
        ),
        p2.recipient_id is Some,
        p2.id() == p.id(),
        p2.size() <= config.max_bytes,
        expiry_of(p2.ttl_seconds, p2.timestamp, config.ttl, now2, epoch2) is Valid,
        now2 < expiry_of(p.ttl_seconds, p.timestamp, config.ttl, now, epoch)->Valid_0,
        pruned_at2 < expiry_of(p.ttl_seconds, p.timestamp, config.ttl, now, epoch)->Valid_0,
    ensures
        ({
            let w = after(config, store(config, v, p, now, epoch, pruned_at).0, steps);
            let (x, o) = store(config, w, p2, now2, epoch2, pruned_at2);
            &&& o == StoreOutcome::Duplicate(p.id())
            &&& x.queues == w.queues
            &&& x.usage == w.usage
            &&& x.total_stored == w.total_stored
            &&& x.directed == w.directed
            &&& x.pairs == w.pairs
        }),
{
    let v1 = store(config, v, p, now, epoch, pruned_at).0;
    law_taken_id_is_known(config, v, p, now, epoch, pruned_at);
    law_known_id_stays_known(config, v1, steps, p.id());
    law_known_id_is_dropped(config, after(config, v1, steps), p2, now2, epoch2, pruned_at2);
}

// ---------------------------------------------------------------------------
// Usage
// ---------------------------------------------------------------------------

/// Whether every sender is charged in every inbox for exactly what it has queued there.
pub open spec fn usage_exact(v: RelayView) -> bool {
    forall|s: Peer, r: Peer|
        #![trigger usage_of(v.usage, (s, r))]
        usage_of(v.usage, (s, r)).count == sent_count(queue_of(v.queues, r), s) && usage_of(
            v.usage,
            (s, r),
        ).bytes == sent_bytes(queue_of(v.queues, r), s)
}

/// Giving back the charges of what left an inbox leaves the charges of what stays.
proof fn lemma_released_exact(
    usage: Map<(Peer, Peer), SenderUsage>,
    s: Peer,
    r: Peer,
    q: Seq<Envelope>,
    rest: Seq<Envelope>,
    out: Seq<Envelope>,
)
    requires
        usage_of(usage, (s, r)).count == sent_count(q, s),
        usage_of(usage, (s, r)).bytes == sent_bytes(q, s),
        sent_count(rest, s) + sent_count(out, s) == sent_count(q, s),
        sent_bytes(rest, s) + sent_bytes(out, s) == sent_bytes(q, s),
    ensures
        usage_of(released(usage, r, charges(out)), (s, r)).count == sent_count(rest, s),
        usage_of(released(usage, r, charges(out)), (s, r)).bytes == sent_bytes(rest, s),
{
    lemma_charges(out, s);
}

pub proof fn lemma_pruned_exact(v: RelayView, recipient: Peer, now: u128)
    requires
        usage_exact(v),
    ensures
        usage_exact(pruned(v, recipient, now)),
{
    let w = pruned(v, recipient, now);
    let q = queue_of(v.queues, recipient);
    assert forall|s: Peer, r: Peer|
        #![trigger usage_of(w.usage, (s, r))]
        usage_of(w.usage, (s, r)).count == sent_count(queue_of(w.queues, r), s) && usage_of(
            w.usage,
            (s, r),
        ).bytes == sent_bytes(queue_of(w.queues, r), s) by {
        let _ = usage_of(v.usage, (s, r));
        if r == recipient {
            lemma_live_expired(q, now, count_weight(s));
            lemma_live_expired(q, now, bytes_weight(s));
            lemma_released_exact(v.usage, s, r, q, live(q, now), expired(q, now));
        }
    }
}

proof fn lemma_enqueued_exact(
    v: RelayView,
    recipient: Peer,
    e: Envelope,
    l: InboxLimits,
    now: u128,
)
    requires
        sound(v, l),
        e.size_bytes <= l.max_bytes,
        usage_exact(v),
    ensures
        usage_exact(enqueued(v, recipient, e, l, now)),
{
    let w = enqueued(v, recipient, e, l, now);
    let q = queue_of(v.queues, recipient);
    let size = e.size_bytes as nat;
    let kept = room(q, size, l.max_messages, l.max_bytes);
    let out = evicted(q, size, l.max_messages, l.max_bytes);
    lemma_enqueued_sound(v, recipient, e, l, now);
    assert(queue_of(w.queues, recipient) == kept.push(e));
    assert forall|s: Peer, r: Peer|
        #![trigger usage_of(w.usage, (s, r))]
        usage_of(w.usage, (s, r)).count == sent_count(queue_of(w.queues, r), s) && usage_of(
            w.usage,
            (s, r),
        ).bytes == sent_bytes(queue_of(w.queues, r), s) by {
        let _ = usage_of(v.usage, (s, r));
        if r == recipient {
            lemma_room(q, size, l.max_messages, l.max_bytes, count_weight(s));
            lemma_room(q, size, l.max_messages, l.max_bytes, bytes_weight(s));
            lemma_sum_push(kept, e, count_weight(s));
            lemma_sum_push(kept, e, bytes_weight(s));
            lemma_released_exact(v.usage, s, r, q, kept, out);
        }
    }
}

/// Storing an envelope for one recipient keeps usage exact.
pub proof fn law_store_keeps_usage_exact(
    config: &RelayConfig,
    v: RelayView,
    p: PayloadView,
    now: u128,
    epoch: Option<u64>,
    pruned_at: u128,
)
    requires
        sound(v, limits_of(config)),
        usage_exact(v),
        !p.is_broadcast(),
    ensures
        usage_exact(store(config, v, p, now, epoch, pruned_at).0),
{
    let l = limits_of(config);
    let w = store(config, v, p, now, epoch, pruned_at).0;
    let o = store(config, v, p, now, epoch, pruned_at).1;
    if took(o) || o is QuotaExceeded {
        let v1 = registered(v, p, now);
        let t = expiry_of(p.ttl_seconds, p.timestamp, config.ttl, now, epoch)->Valid_0;
        let e = envelope_for(p, t, now);
        let v3 = RelayView { dedup: above(v1.dedup, pruned_at), ..v1 };
        let r = p.recipient_id->0;
        let v4 = match p.sender_id {
            Some(s) => directed(v3, s, r, now, config.qos.bidirectional_window),
            None => v3,
        };
        assert(v4.queues == v.queues && v4.usage == v.usage);
        lemma_same_usage(v, v4);
        assert(sound(v4, l));
        lemma_pruned_sound(v4, r, now, l);
        lemma_pruned_exact(v4, r, now);
        let v5 = pruned(v4, r, now);
        if took(o) {
            lemma_enqueued_exact(v5, r, e, l, now);
        } else {
            lemma_same_usage(v5, w);
        }
    } else {
        lemma_same_usage(v, w);
    }
}

pub proof fn lemma_same_usage(v: RelayView, w: RelayView)
    requires
        usage_exact(v),
        w.queues == v.queues,
        w.usage == v.usage,
    ensures
        usage_exact(w),
{
    assert forall|s: Peer, r: Peer|
        #![trigger usage_of(w.usage, (s, r))]
        usage_of(w.usage, (s, r)).count == sent_count(queue_of(w.queues, r), s) && usage_of(
            w.usage,
            (s, r),
        ).bytes == sent_bytes(queue_of(w.queues, r), s) by {
        let _ = usage_of(v.usage, (s, r));
    }
}

/// Polling an inbox keeps usage exact.
pub proof fn law_poll_keeps_usage_exact(v: RelayView, peer: Peer, query: InboxQuery, now: u128)
    requires
        usage_exact(v),
    ensures
        usage_exact(polled(v, peer, query, now)),
{
    let w = polled(v, peer, query, now);
    if v.queues.contains_key(peer) {
        let q = v.queues[peer];
        let gone = expired(q, now);
        let out = handed_out(q, query, now);
        let kept = held_back(q, query, now);
        lemma_delivered_elsewhere(
            RelayView {
                queues: v.queues.insert(peer, kept),
                usage: released(v.usage, peer, charges(gone + out)),
                ..touched(v, peer, now)
            },
            peer,
            latencies_ms(out, now),
            now,
        );
        assert forall|s: Peer, r: Peer|
            #![trigger usage_of(w.usage, (s, r))]
            usage_of(w.usage, (s, r)).count == sent_count(queue_of(w.queues, r), s) && usage_of(
                w.usage,
                (s, r),
            ).bytes == sent_bytes(queue_of(w.queues, r), s) by {
            let _ = usage_of(v.usage, (s, r));
            if r == peer {
                lemma_handed_out(q, query, now, count_weight(s));
                lemma_handed_out(q, query, now, bytes_weight(s));
                lemma_released_exact(v.usage, s, r, q, kept, gone + out);
            }
        }
    } else {
        lemma_same_usage(v, w);
    }
}

/// Whether a history holds no broadcast.
pub open spec fn no_broadcast(steps: Seq<RelayStep>) -> bool {
    forall|i: int|
        0 <= i < steps.len() ==> (#[trigger] steps[i] matches RelayStep::Store { payload, .. }
            ==> !payload.is_broadcast())
}

/// Over any history every inbox stays within its limits, and no sender is charged for more than it
/// has queued.
pub proof fn law_limits_hold_over_a_history(config: &RelayConfig, steps: Seq<RelayStep>)
    ensures
        sound(after(config, empty_relay(), steps), limits_of(config)),
    decreases steps.len(),
{
    if steps.len() > 0 {
        law_limits_hold_over_a_history(config, steps.drop_last());
        let v = after(config, empty_relay(), steps.drop_last());
        match steps.last() {
            RelayStep::Store { payload, now, epoch, pruned_at } => {
                law_store_keeps_limits(config, v, payload, now, epoch, pruned_at);
            },
            RelayStep::Poll { peer, query, now } => {
                lemma_polled_sound(v, peer, query, now, limits_of(config));
            },
            RelayStep::Prune { at } => {
                assert(sound(stepped(config, v, steps.last()), limits_of(config)));
            },
        }
    }
}

/// Without broadcasts, every sender is at all times charged in every inbox for exactly the
/// envelopes and bytes that it has queued there. Broadcasts are queued without a charge.
pub proof fn law_usage_is_what_is_queued(config: &RelayConfig, steps: Seq<RelayStep>)
    requires
        no_broadcast(steps),
    ensures
        usage_exact(after(config, empty_relay(), steps)),
    decreases steps.len(),
{
    if steps.len() > 0 {
        let before = steps.drop_last();
        assert(no_broadcast(before)) by {
            assert forall|i: int| 0 <= i < before.len() implies (
            #[trigger] before[i] matches RelayStep::Store { payload, .. }
                ==> !payload.is_broadcast()) by {
                assert(before[i] == steps[i]);
            }
        }
        law_usage_is_what_is_queued(config, before);
        law_limits_hold_over_a_history(config, before);
        let v = after(config, empty_relay(), before);
        assert(steps[steps.len() - 1] == steps.last());
        match steps.last() {
            RelayStep::Store { payload, now, epoch, pruned_at } => {
                law_store_keeps_usage_exact(config, v, payload, now, epoch, pruned_at);
            },
            RelayStep::Poll { peer, query, now } => {
                law_poll_keeps_usage_exact(v, peer, query, now);
            },
            RelayStep::Prune { at } => {
                lemma_same_usage(v, stepped(config, v, steps.last()));
            },
        }
    } else {
        let v = empty_relay();
        assert forall|s: Peer, r: Peer|
            #![trigger usage_of(v.usage, (s, r))]
            usage_of(v.usage, (s, r)).count == sent_count(queue_of(v.queues, r), s) && usage_of(
                v.usage,
                (s, r),
            ).bytes == sent_bytes(queue_of(v.queues, r), s) by {
            assert(sum(Seq::<Envelope>::empty(), count_weight(s)) == 0);
            assert(sum(Seq::<Envelope>::empty(), bytes_weight(s)) == 0);
        }
    }
}

} // verus!
