//! Accepting envelopes: the code, and what it keeps of the relay's limits.
use vstd::prelude::*;
use vstd::string::*;

use crate::keyed::KeyedMap;
use crate::relay::config::RelayConfig;
use crate::relay::evict::evicted;
use crate::relay::evict::evicted_oldest;
use crate::relay::evict::lemma_room;
use crate::relay::evict::lemma_room_oldest;
use crate::relay::evict::lemma_sent_bytes_total;
use crate::relay::evict::make_room;
use crate::relay::evict::make_room_oldest;
use crate::relay::evict::overfull;
use crate::relay::evict::room;
use crate::relay::evict::room_oldest;
use crate::relay::queue::bytes_weight;
use crate::relay::queue::charges;
use crate::relay::queue::count_weight;
use crate::relay::queue::expired;
use crate::relay::queue::is_expired;
use crate::relay::queue::is_live;
use crate::relay::queue::live;
use crate::relay::queue::message_ids;
use crate::relay::queue::prune_expired;
use crate::relay::queue::sent_bytes;
use crate::relay::queue::sent_count;
use crate::relay::queue::size_weight;
use crate::relay::queue::total_bytes;
use crate::relay::queue::Envelope;
use crate::relay::queue::Inbox;
use crate::relay::queue::StoredEnvelope;
use crate::relay::state::apply_usage_decrements;
use crate::relay::state::charge_bytes;
use crate::relay::state::charge_count;
use crate::relay::state::forget;
use crate::relay::state::forgotten;
use crate::relay::state::get_tier;
use crate::relay::state::lemma_charges;
use crate::relay::state::prune_dedup;
use crate::relay::state::queue_of;
use crate::relay::state::record_direction;
use crate::relay::state::record_send;
use crate::relay::state::reduced;
use crate::relay::state::released;
use crate::relay::state::touch_peer;
use crate::relay::state::usage_of;
use crate::relay::state::Peer;
use crate::relay::state::RelayStateInner;
use crate::relay::state::RelayView;
use crate::relay::state::SenderUsage;
use crate::relay::store::audience;
use crate::relay::store::broadcast_outcome;
use crate::relay::store::direct_outcome;
use crate::relay::store::displaced;
use crate::relay::store::displaces;
use crate::relay::store::enqueued;
use crate::relay::store::envelope_for;
use crate::relay::store::expires_at_from;
use crate::relay::store::fanned;
use crate::relay::store::fanned_out;
use crate::relay::store::limits_of;
use crate::relay::store::message_id_from;
use crate::relay::store::outcome_of;
use crate::relay::store::pruned;
use crate::relay::store::pushed_out;
use crate::relay::store::registered;
use crate::relay::store::store;
use crate::relay::store::ExpiresAt;
use crate::relay::store::InboxLimits;
use crate::relay::store::Payload;
use crate::relay::store::StoreDecision;
use crate::relay::store::StoreError;
use crate::sums::lemma_sum_add;
use crate::sums::lemma_sum_push;
use crate::sums::lemma_sum_split;
use crate::sums::sum;
use crate::text::copy_opt;
use crate::text::opt_text;
use crate::text::same;
use crate::text::texts;

verus! {

// ---------------------------------------------------------------------------
// Limits
// ---------------------------------------------------------------------------

/// Whether both promises of a relay hold: no inbox over its limits, no sender overcharged.
pub open spec fn sound(v: RelayView, l: InboxLimits) -> bool {
    v.bounded(l.max_messages, l.max_bytes) && v.usage_covered()
}

/// What is live and what is expired share the queue between them.
pub proof fn lemma_live_expired(q: Seq<Envelope>, now: u128, f: spec_fn(Envelope) -> nat)
    ensures
        sum(live(q, now), f) + sum(expired(q, now), f) == sum(q, f),
        live(q, now).len() <= q.len(),
{
    lemma_sum_split(q, is_live(now), is_expired(now), f);
    q.lemma_filter_len(is_live(now));
}

/// A sender that was not overcharged is not overcharged once what left the inbox is given back.
proof fn lemma_reduced(
    u: SenderUsage,
    who: Peer,
    q: Seq<Envelope>,
    rest: Seq<Envelope>,
    out: Seq<Envelope>,
)
    requires
        u.count <= sent_count(q, who),
        u.bytes <= sent_bytes(q, who),
        sent_count(rest, who) + sent_count(out, who) == sent_count(q, who),
        sent_bytes(rest, who) + sent_bytes(out, who) == sent_bytes(q, who),
    ensures
        reduced(u, who, charges(out)).count <= sent_count(rest, who),
        reduced(u, who, charges(out)).bytes <= sent_bytes(rest, who),
{
    lemma_charges(out, who);
}

/// Ridding an inbox of expired envelopes keeps a relay sound.
pub proof fn lemma_pruned_sound(v: RelayView, recipient: Peer, now: u128, l: InboxLimits)
    requires
        sound(v, l),
    ensures
        sound(pruned(v, recipient, now), l),
{
    let w = pruned(v, recipient, now);
    let q = queue_of(v.queues, recipient);
    lemma_live_expired(q, now, size_weight());
    assert forall|p: Peer| #[trigger] w.queues.contains_key(p) implies total_bytes(w.queues[p])
        <= l.max_bytes && w.queues[p].len() <= if l.max_messages == 0 {
        1
    } else {
        l.max_messages
    } by {
        if p == recipient {
            if v.queues.contains_key(p) {
            }
        } else {
            assert(v.queues.contains_key(p));
        }
    }
    assert forall|k: (Peer, Peer)| #[trigger] w.usage.contains_key(k) implies w.usage[k].count
        <= sent_count(queue_of(w.queues, k.1), k.0) && w.usage[k].bytes <= sent_bytes(
        queue_of(w.queues, k.1),
        k.0,
    ) by {
        assert(v.usage.contains_key(k));
        if k.1 == recipient {
            lemma_live_expired(q, now, count_weight(k.0));
            lemma_live_expired(q, now, bytes_weight(k.0));
            lemma_reduced(v.usage[k], k.0, q, live(q, now), expired(q, now));
        }
    }
}

/// Putting an envelope into an inbox keeps a relay sound.
pub proof fn lemma_enqueued_sound(
    v: RelayView,
    recipient: Peer,
    e: Envelope,
    l: InboxLimits,
    now: u128,
)
    requires
        sound(v, l),
        e.size_bytes <= l.max_bytes,
    ensures
        sound(enqueued(v, recipient, e, l, now), l),
        e.sender_id is Some ==> ({
            let q = queue_of(v.queues, recipient);
            let out = evicted(q, e.size_bytes as nat, l.max_messages, l.max_bytes);
            let u = usage_of(
                released(v.usage, recipient, charges(out)),
                (e.sender_id->0, recipient),
            );
            u.count + 1 <= usize::MAX && u.bytes + e.size_bytes <= l.max_bytes
        }),
{
    let w = enqueued(v, recipient, e, l, now);
    let q = queue_of(v.queues, recipient);
    let size = e.size_bytes as nat;
    let kept = room(q, size, l.max_messages, l.max_bytes);
    let out = evicted(q, size, l.max_messages, l.max_bytes);
    let usage = released(v.usage, recipient, charges(out));
    lemma_room(q, size, l.max_messages, l.max_bytes, size_weight());
    lemma_sum_push(kept, e, size_weight());
    assert(queue_of(w.queues, recipient) == kept.push(e));
    if kept.len() > 0 {
        assert(!overfull(kept, size, l.max_messages, l.max_bytes));
    } else {
        assert(total_bytes(kept) == 0);
    }
    assert(q.len() <= usize::MAX) by {
        if v.queues.contains_key(recipient) {
        }
    }
    assert forall|p: Peer| #[trigger] w.queues.contains_key(p) implies total_bytes(w.queues[p])
        <= l.max_bytes && w.queues[p].len() <= if l.max_messages == 0 {
        1
    } else {
        l.max_messages
    } by {
        if p != recipient {
            assert(v.queues.contains_key(p));
        }
    }
    assert forall|who: Peer|
        #![trigger count_weight(who)]
        usage_of(usage, (who, recipient)).count <= sent_count(kept, who) && usage_of(
            usage,
            (who, recipient),
        ).bytes <= sent_bytes(kept, who) && sent_count(kept.push(e), who) == sent_count(kept, who)
            + count_weight(who)(e) && sent_bytes(kept.push(e), who) == sent_bytes(kept, who)
            + bytes_weight(who)(e) by {
        lemma_room(q, size, l.max_messages, l.max_bytes, count_weight(who));
        lemma_room(q, size, l.max_messages, l.max_bytes, bytes_weight(who));
        lemma_sum_push(kept, e, count_weight(who));
        lemma_sum_push(kept, e, bytes_weight(who));
        if v.usage.contains_key((who, recipient)) {
            lemma_reduced(v.usage[(who, recipient)], who, q, kept, out);
        }
    }
    if e.sender_id is Some {
        let s = e.sender_id->0;
        let _ = count_weight(s);
        lemma_sent_bytes_total(kept, s);
        crate::sums::lemma_sum_monotone(kept, count_weight(s), |x: Envelope| 1nat);
        lemma_sum_ones(kept);
    }
    assert forall|k: (Peer, Peer)| #[trigger] w.usage.contains_key(k) implies w.usage[k].count
        <= sent_count(queue_of(w.queues, k.1), k.0) && w.usage[k].bytes <= sent_bytes(
        queue_of(w.queues, k.1),
        k.0,
    ) by {
        let _ = count_weight(k.0);
        if k.1 == recipient {
        } else {
            assert(v.usage.contains_key(k));
        }
    }
}

proof fn lemma_sum_ones(q: Seq<Envelope>)
    ensures
        sum(q, |x: Envelope| 1nat) == q.len(),
    decreases q.len(),
{
    if q.len() > 0 {
        lemma_sum_ones(q.drop_last());
    }
}

/// A broadcast keeps a relay sound.
pub proof fn lemma_fanned_out_sound(
    v: RelayView,
    to: Set<Peer>,
    e: Envelope,
    l: InboxLimits,
    now: u128,
)
    requires
        sound(v, l),
        e.size_bytes <= l.max_bytes,
    ensures
        sound(fanned_out(v, to, e, l, now), l),
{
    let w = fanned_out(v, to, e, l, now);
    let size = e.size_bytes as nat;
    assert forall|p: Peer| #[trigger] w.queues.contains_key(p) implies total_bytes(w.queues[p])
        <= l.max_bytes && w.queues[p].len() <= if l.max_messages == 0 {
        1
    } else {
        l.max_messages
    } by {
        if to.contains(p) {
            let q = live(queue_of(v.queues, p), now);
            let kept = room_oldest(q, size, l.max_messages, l.max_bytes);
            lemma_room_oldest(q, size, l.max_messages, l.max_bytes, size_weight());
            lemma_sum_push(kept, e, size_weight());
            if kept.len() == 0 {
                assert(total_bytes(kept) == 0);
            }
        } else {
            assert(v.queues.contains_key(p));
        }
    }
    assert forall|k: (Peer, Peer)| #[trigger] w.usage.contains_key(k) implies w.usage[k].count
        <= sent_count(queue_of(w.queues, k.1), k.0) && w.usage[k].bytes <= sent_bytes(
        queue_of(w.queues, k.1),
        k.0,
    ) by {
        assert(v.usage.contains_key(k));
        if to.contains(k.1) {
            let q = queue_of(v.queues, k.1);
            let kept = room_oldest(live(q, now), size, l.max_messages, l.max_bytes);
            lemma_pushed_out(q, e.size_bytes, l, now, count_weight(k.0));
            lemma_pushed_out(q, e.size_bytes, l, now, bytes_weight(k.0));
            lemma_reduced(v.usage[k], k.0, q, kept, pushed_out(q, e.size_bytes, l, now));
            lemma_sum_push(kept, e, count_weight(k.0));
            lemma_sum_push(kept, e, bytes_weight(k.0));
        }
    }
}

/// What a broadcast keeps and what it pushes out share the inbox between them.
proof fn lemma_pushed_out(
    q: Seq<Envelope>,
    size: usize,
    l: InboxLimits,
    now: u128,
    f: spec_fn(Envelope) -> nat,
)
    ensures
        sum(room_oldest(live(q, now), size as nat, l.max_messages, l.max_bytes), f) + sum(
            pushed_out(q, size, l, now),
            f,
        ) == sum(q, f),
{
    lemma_live_expired(q, now, f);
    lemma_room_oldest(live(q, now), size as nat, l.max_messages, l.max_bytes, f);
    lemma_sum_add(
        expired(q, now),
        evicted_oldest(live(q, now), size as nat, l.max_messages, l.max_bytes),
        f,
    );
}

// ---------------------------------------------------------------------------
// One recipient
// ---------------------------------------------------------------------------

/// Puts an envelope into one inbox, or refuses it because its sender's quota there is used up.
fn store_direct(
    config: &RelayConfig,
    inner: &mut RelayStateInner,
    recipient_id: &str,
    stored: StoredEnvelope,
    now: u128,
) -> (r: StoreDecision)
    requires
        old(inner).wf(config),
        stored.size_bytes <= config.max_bytes,
        old(inner).total_stored < u64::MAX,
    ensures
        final(inner).wf(config),
        ({
            let (v, o) = direct_outcome(config, old(inner)@, recipient_id@, stored@, now);
            final(inner)@ == v && outcome_of(Ok(r)) == o
        }),
        !(r is Broadcast),
{
    let ghost v0 = inner@;
    let ghost e = stored@;
    let ghost l = limits_of(config);
    let ghost rid = recipient_id@;
    match &stored.sender_id {
        Some(sid) => {
            record_direction(
                inner,
                sid.as_str(),
                recipient_id,
                now,
                config.qos.bidirectional_window,
            );
        },
        None => {},
    }
    let ghost v1 = inner@;
    let key = recipient_id.to_owned();
    let mut queue: Inbox = match inner.queues.remove(&key) {
        Some(q) => q,
        None => Inbox::new(),
    };
    let ghost q0 = queue@;
    proof {
        assert(q0 == queue_of(v1.queues, rid));
        if v1.queues.contains_key(rid) {
        }
        lemma_pruned_sound(v1, rid, now, l);
    }
    let (_expired, back) = prune_expired(&mut queue, now);
    apply_usage_decrements(&mut inner.sender_inbox_usage, recipient_id, &back);
    let ghost v2 = pruned(v1, rid, now);
    let ghost q1 = queue@;
    proof {
        assert(inner@.usage == v2.usage);
        assert(queue_of(v2.queues, rid) == q1);
        assert(v2.queues.contains_key(rid));
    }
    let refused = match &stored.sender_id {
        Some(sid) => {
            let limits = get_tier(&config.qos, inner, sid.as_str(), recipient_id, now);
            let usage: SenderUsage = match inner.sender_inbox_usage.get(
                &(sid.clone(), recipient_id.to_owned()),
            ) {
                Some(u) => *u,
                None => SenderUsage { count: 0, bytes: 0 },
            };
            usage.count >= limits.max_envelopes || usage.bytes > limits.max_bytes
                || stored.size_bytes > limits.max_bytes - usage.bytes
        },
        None => false,
    };
    if refused {
        inner.queues.insert(key, queue);
        let _gone = inner.dedup.remove(&stored.message_id);
        proof {
            assert(inner@.queues =~= v2.queues);
            assert(inner@ == direct_outcome(config, v0, rid, e, now).0);
        }
        return StoreDecision::QuotaExceeded { message_id: stored.message_id };
    }
    proof {
        lemma_enqueued_sound(v2, rid, e, l, now);
    }
    let (out, out_back) = make_room(
        &mut queue,
        stored.size_bytes,
        config.max_messages,
        config.max_bytes,
    );
    apply_usage_decrements(&mut inner.sender_inbox_usage, recipient_id, &out_back);
    let message_id = stored.message_id.clone();
    let expires_at: u128 = stored.expires_at;
    let sender_id = copy_opt(&stored.sender_id);
    let size: usize = stored.size_bytes;
    queue.push_back(stored);
    inner.queues.insert(key, queue);
    match &sender_id {
        Some(sid) => {
            let usage: SenderUsage = match inner.sender_inbox_usage.get(
                &(sid.clone(), recipient_id.to_owned()),
            ) {
                Some(u) => *u,
                None => SenderUsage { count: 0, bytes: 0 },
            };
            inner.sender_inbox_usage.insert(
                (sid.clone(), recipient_id.to_owned()),
                SenderUsage { count: usage.count + 1, bytes: usage.bytes + size },
            );
        },
        None => {},
    }
    inner.total_stored = inner.total_stored + 1;
    forget(&mut inner.dedup, &out);
    inner.dedup.insert(message_id.clone(), expires_at);
    match &sender_id {
        Some(sid) => {
            record_send(inner, sid.as_str(), now);
        },
        None => {},
    }
    proof {
        let w = enqueued(v2, rid, e, l, now);
        assert(inner@.queues =~= w.queues);
        assert(inner@ == w);
    }
    StoreDecision::Accepted { message_id }
}

// ---------------------------------------------------------------------------
// Broadcasts
// ---------------------------------------------------------------------------

/// Lists every known peer but the sender.
fn list_audience(seen: &KeyedMap<String, u128>, sender_id: &Option<String>) -> (r: Vec<String>)
    requires
        seen.wf(),
    ensures
        texts(r@).no_duplicates(),
        texts(r@).to_set() == audience(seen@, opt_text(*sender_id)),
        r@.len() <= seen.count(),
{
    let ghost to = audience(seen@, opt_text(*sender_id));
    let mut keep: Vec<bool> = Vec::new();
    let mut i: usize = 0;
    proof {
        seen.lemma_entries();
        seen.lemma_count();
    }
    while i < seen.len()
        invariant
            seen.wf(),
            i <= seen.count(),
            keep@.len() == i,
            forall|j: int|
                0 <= j < i ==> #[trigger] keep@[j] == (opt_text(*sender_id) != Some(
                    seen.name_at(j),
                )),
        decreases seen.count() - i,
    {
        let key = seen.key_at(i);
        let is_sender = match sender_id {
            Some(s) => same(s.as_str(), key.as_str()),
            None => false,
        };
        keep.push(!is_sender);
        i = i + 1;
    }
    let out = seen.names_marked(&keep);
    proof {
        let names = texts(out@);
        assert forall|p: Peer| names.to_set().contains(p) == to.contains(p) by {
            if to.contains(p) {
                assert(seen@.contains_key(p));
                let j = choose|j: int| 0 <= j < seen.count() && #[trigger] seen.name_at(j) == p;
                assert(keep@[j]);
                assert(seen.marked(keep@, p));
                assert(names.contains(p));
            }
            if names.to_set().contains(p) {
                assert(names.contains(p));
                assert(seen.marked(keep@, p));
                let j = choose|j: int|
                    0 <= j < seen.count() && keep@[j] && #[trigger] seen.name_at(j) == p;
                assert(seen@.contains_key(seen.name_at(j)));
            }
        }
        assert(names.to_set() =~= to);
        names.unique_seq_to_set();
        assert(to.subset_of(seen@.dom()));
        vstd::set_lib::lemma_len_subset(to, seen@.dom());
    }
    out
}

/// Giving back charges in two steps gives back their concatenation.
proof fn lemma_released_twice(
    usage: Map<(Peer, Peer), SenderUsage>,
    r: Peer,
    a: Seq<Envelope>,
    b: Seq<Envelope>,
)
    ensures
        released(released(usage, r, charges(a)), r, charges(b)) == released(
            usage,
            r,
            charges(a + b),
        ),
{
    assert(charges(a + b) =~= charges(a) + charges(b));
    assert forall|who: Peer|
        #![trigger charge_count(who)]
        sum(charges(a + b), charge_count(who)) == sum(charges(a), charge_count(who)) + sum(
            charges(b),
            charge_count(who),
        ) && sum(charges(a + b), charge_bytes(who)) == sum(charges(a), charge_bytes(who)) + sum(
            charges(b),
            charge_bytes(who),
        ) by {
        lemma_sum_add(charges(a), charges(b), charge_count(who));
        lemma_sum_add(charges(a), charges(b), charge_bytes(who));
    }
    assert(released(released(usage, r, charges(a)), r, charges(b)) =~= released(
        usage,
        r,
        charges(a + b),
    ));
}

/// One more inbox of a broadcast.
proof fn lemma_fanned_out_one(
    v: RelayView,
    to: Set<Peer>,
    p: Peer,
    e: Envelope,
    l: InboxLimits,
    now: u128,
)
    requires
        !to.contains(p),
    ensures
        ({
            let w = fanned_out(v, to, e, l, now);
            let out = pushed_out(queue_of(v.queues, p), e.size_bytes, l, now);
            let gone = displaced(queue_of(v.queues, p), e.size_bytes, l, now);
            &&& queue_of(w.queues, p) == queue_of(v.queues, p)
            &&& fanned_out(v, to.insert(p), e, l, now) == (RelayView {
                queues: w.queues.insert(p, fanned(queue_of(v.queues, p), e, l, now)),
                usage: released(w.usage, p, charges(out)),
                dedup: forgotten(w.dedup, message_ids(gone)),
                ..w
            })
        }),
{
    let w = fanned_out(v, to, e, l, now);
    let w2 = fanned_out(v, to.insert(p), e, l, now);
    let out = pushed_out(queue_of(v.queues, p), e.size_bytes, l, now);
    let gone = displaced(queue_of(v.queues, p), e.size_bytes, l, now);
    assert(w2.queues =~= w.queues.insert(p, fanned(queue_of(v.queues, p), e, l, now)));
    assert(w2.usage =~= released(w.usage, p, charges(out)));
    assert forall|id: Seq<char>|
        displaces(v.queues, to.insert(p), e.size_bytes, l, now, id) == (displaces(
            v.queues,
            to,
            e.size_bytes,
            l,
            now,
            id,
        ) || message_ids(gone).contains(id)) by {
        if message_ids(gone).contains(id) {
            assert(to.insert(p).contains(p));
        }
        if displaces(v.queues, to, e.size_bytes, l, now, id) {
            let x = choose|x: Peer| #[trigger]
                to.contains(x) && message_ids(
                    displaced(queue_of(v.queues, x), e.size_bytes, l, now),
                ).contains(id);
            assert(to.insert(p).contains(x));
        }
        if displaces(v.queues, to.insert(p), e.size_bytes, l, now, id) {
            let x = choose|x: Peer| #[trigger]
                to.insert(p).contains(x) && message_ids(
                    displaced(queue_of(v.queues, x), e.size_bytes, l, now),
                ).contains(id);
            if x != p {
                assert(to.contains(x));
            }
        }
    }
    assert forall|id: Seq<char>| #[trigger]
        w2.dedup.contains_key(id) == forgotten(w.dedup, message_ids(gone)).contains_key(id) by {
        assert(message_ids(gone).to_set().contains(id) == message_ids(gone).contains(id));
        assert(displaces(v.queues, to.insert(p), e.size_bytes, l, now, id) == (displaces(
            v.queues,
            to,
            e.size_bytes,
            l,
            now,
            id,
        ) || message_ids(gone).contains(id)));
    }
    assert(w2.dedup =~= forgotten(w.dedup, message_ids(gone)));
}

/// Puts a broadcast into one inbox.
fn fan_out_to(
    config: &RelayConfig,
    inner: &mut RelayStateInner,
    recipient_id: &String,
    stored: &StoredEnvelope,
    now: u128,
)
    requires
        old(inner).tables_wf(),
        total_bytes(queue_of(old(inner)@.queues, recipient_id@)) <= usize::MAX,
        stored.size_bytes <= config.max_bytes,
    ensures
        final(inner).tables_wf(),
        ({
            let v = old(inner)@;
            let q = queue_of(v.queues, recipient_id@);
            let out = pushed_out(q, stored.size_bytes, limits_of(config), now);
            let gone = displaced(q, stored.size_bytes, limits_of(config), now);
            final(inner)@ == (RelayView {
                queues: v.queues.insert(
                    recipient_id@,
                    fanned(q, stored@, limits_of(config), now),
                ),
                usage: released(v.usage, recipient_id@, charges(out)),
                dedup: forgotten(v.dedup, message_ids(gone)),
                ..v
            })
        }),
{
    let ghost v = inner@;
    let mut queue: Inbox = match inner.queues.remove(recipient_id) {
        Some(q) => q,
        None => Inbox::new(),
    };
    let ghost q = queue@;
    proof {
        assert(q == queue_of(v.queues, recipient_id@));
        lemma_live_expired(q, now, size_weight());
    }
    let (_expired, back) = prune_expired(&mut queue, now);
    apply_usage_decrements(&mut inner.sender_inbox_usage, recipient_id.as_str(), &back);
    let (out, out_back) = make_room_oldest(
        &mut queue,
        stored.size_bytes,
        config.max_messages,
        config.max_bytes,
    );
    apply_usage_decrements(&mut inner.sender_inbox_usage, recipient_id.as_str(), &out_back);
    forget(&mut inner.dedup, &out);
    queue.push_back(stored.copied());
    inner.queues.insert(recipient_id.clone(), queue);
    proof {
        let a = expired(q, now);
        let b = displaced(q, stored.size_bytes, limits_of(config), now);
        lemma_released_twice(v.usage, recipient_id@, a, b);
        assert(inner@.queues =~= v.queues.insert(
            recipient_id@,
            fanned(q, stored@, limits_of(config), now),
        ));
    }
}

/// Puts a broadcast into the inbox of every known peer but the sender.
fn store_broadcast(
    config: &RelayConfig,
    inner: &mut RelayStateInner,
    stored: StoredEnvelope,
    now: u128,
) -> (r: StoreDecision)
    requires
        old(inner).wf(config),
        stored.size_bytes <= config.max_bytes,
        old(inner).total_stored + old(inner)@.peer_last_seen.dom().len() <= u64::MAX,
    ensures
        final(inner).wf(config),
        ({
            let (v, o) = broadcast_outcome(config, old(inner)@, stored@, now);
            final(inner)@ == v && outcome_of(Ok(r)) == o
        }),
        r is Broadcast,
        texts(r->recipients@).no_duplicates(),
{
    let ghost v0 = inner@;
    let ghost e = stored@;
    let ghost l = limits_of(config);
    let recipients = list_audience(&inner.peer_last_seen, &stored.sender_id);
    let ghost names = texts(recipients@);
    let ghost to = audience(v0.peer_last_seen, e.sender_id);
    proof {
        inner.peer_last_seen.lemma_count();
        names.unique_seq_to_set();
        assert(fanned_out(v0, Set::empty(), e, l, now) == v0) by {
            let w = fanned_out(v0, Set::empty(), e, l, now);
            assert(w.queues =~= v0.queues);
            assert(w.usage =~= v0.usage);
            assert(w.dedup =~= v0.dedup);
        }
        assert(names.take(0).to_set() =~= Set::empty());
    }
    let mut i: usize = 0;
    while i < recipients.len()
        invariant
            i <= recipients@.len(),
            names == texts(recipients@),
            names.no_duplicates(),
            e == stored@,
            l == limits_of(config),
            stored.size_bytes <= config.max_bytes,
            sound(v0, l),
            inner.tables_wf(),
            inner@ == fanned_out(v0, names.take(i as int).to_set(), e, l, now),
        decreases recipients@.len() - i,
    {
        let ghost done = names.take(i as int).to_set();
        let ghost p = recipients@[i as int]@;
        proof {
            assert(names[i as int] == p);
            assert(!done.contains(p)) by {
                if names.take(i as int).contains(p) {
                    let j = choose|j: int|
                        0 <= j < names.take(i as int).len() && names.take(i as int)[j] == p;
                    assert(names[j] == names[i as int]);
                }
            }
            lemma_fanned_out_one(v0, done, p, e, l, now);
            if v0.queues.contains_key(p) {
            }
            assert(names.take(i + 1) =~= names.take(i as int).push(p));
            assert(names.take(i + 1).to_set() =~= done.insert(p)) by {
                names.take(i as int).lemma_push_to_set_commute(p);
            }
        }
        fan_out_to(config, inner, &recipients[i], &stored, now);
        i = i + 1;
    }
    proof {
        assert(names.take(i as int) =~= names);
        lemma_fanned_out_sound(v0, to, e, l, now);
    }
    inner.dedup.insert(stored.message_id.clone(), stored.expires_at);
    inner.total_stored = inner.total_stored + recipients.len() as u64;
    match &stored.sender_id {
        Some(sid) => {
            record_send(inner, sid.as_str(), now);
        },
        None => {},
    }
    StoreDecision::Broadcast { message_id: stored.message_id, recipients }
}

// ---------------------------------------------------------------------------
// Any envelope
// ---------------------------------------------------------------------------

/// Takes an envelope in at `now`, or says why not. `now_epoch` is the wall clock in seconds, where
/// it does not run before 1970; `pruned_at` is the instant at which known message ids are looked
/// through.
pub fn store_envelope_locked(
    config: &RelayConfig,
    inner: &mut RelayStateInner,
    payload: Payload,
    now: u128,
    now_epoch: Option<u64>,
    pruned_at: u128,
) -> (r: Result<StoreDecision, StoreError>)
    requires
        old(inner).wf(config),
        now + config.ttl <= u128::MAX,
        old(inner).total_stored + old(inner)@.peer_last_seen.dom().len() + 2 <= u64::MAX,
    ensures
        final(inner).wf(config),
        ({
            let (v, o) = store(config, old(inner)@, payload@, now, now_epoch, pruned_at);
            final(inner)@ == v && outcome_of(r) == o
        }),
        r is Ok && r->Ok_0 is Broadcast ==> texts(r->Ok_0->recipients@).no_duplicates(),
{
    let ghost v0 = inner@;
    let recipient_id: String = match &payload.recipient_id {
        Some(s) => s.clone(),
        None => {
            return Err(StoreError::MissingRecipient);
        },
    };
    let is_broadcast = same(recipient_id.as_str(), "*");
    if !is_broadcast {
        touch_peer(inner, recipient_id.as_str(), now);
    }
    match &payload.sender_id {
        Some(s) => {
            touch_peer(inner, s.as_str(), now);
        },
        None => {},
    }
    let ghost v1 = registered(v0, payload@, now);
    assert(inner@ == v1);
    let size_bytes: usize = payload.body.as_str().as_bytes().len();
    let message_id = message_id_from(&payload);
    if size_bytes > config.max_bytes {
        return Ok(StoreDecision::TooLarge { message_id });
    }
    let expires_at: u128 = match expires_at_from(&payload, config, now, now_epoch) {
        Err(e) => {
            return Err(e);
        },
        Ok(ExpiresAt::Expired) => {
            return Ok(StoreDecision::Expired { message_id });
        },
        Ok(ExpiresAt::Valid(t)) => t,
    };
    prune_dedup(&mut inner.dedup, pruned_at);
    let known = match inner.dedup.get(&message_id) {
        Some(t) => *t > now,
        None => false,
    };
    if known {
        return Ok(StoreDecision::Duplicate { message_id });
    }
    let stored = StoredEnvelope {
        size_bytes,
        expires_at,
        message_id,
        stored_at: now,
        sender_id: copy_opt(&payload.sender_id),
        body: payload.body,
    };
    proof {
        assert(stored@ == envelope_for(payload@, expires_at, now));
        inner.peer_last_seen.lemma_count();
        lemma_registered_count(v0, payload@, now);
    }
    if is_broadcast {
        Ok(store_broadcast(config, inner, stored, now))
    } else {
        Ok(store_direct(config, inner, recipient_id.as_str(), stored, now))
    }
}

/// Noting recipient and sender adds at most two peers.
proof fn lemma_registered_count(v: RelayView, p: crate::relay::store::PayloadView, now: u128)
    requires
        registered(v, p, now).peer_last_seen.dom().finite(),
    ensures
        registered(v, p, now).peer_last_seen.dom().len() <= v.peer_last_seen.dom().len() + 2,
{
    let d = v.peer_last_seen.dom();
    let w = registered(v, p, now).peer_last_seen.dom();
    assert(d.subset_of(w));
    vstd::set_lib::lemma_len_subset(d, w);
    let r = if p.is_broadcast() {
        d
    } else {
        d.insert(p.recipient_id->0)
    };
    let s = match p.sender_id {
        Some(x) => r.insert(x),
        None => r,
    };
    assert(w =~= s);
}

} // verus!
