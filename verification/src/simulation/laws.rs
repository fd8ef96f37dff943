//! What holds of messages on their way through a simulation, in terms of who is online when, who
//! knows whom, and what arrives where.
use vstd::prelude::*;

use crate::protocol::MessageKind;
use crate::simulation::client::announcements;
use crate::simulation::client::applied;
use crate::simulation::client::awaited;
use crate::simulation::client::handled;
use crate::simulation::client::handled_one;
use crate::simulation::client::ContextView;
use crate::simulation::client::DeliveryKind;
use crate::simulation::client::IncomingEnvelopeAction;
use crate::simulation::client::MetaView;
use crate::simulation::client::PendingView;
use crate::simulation::client::Sim;
use crate::simulation::client::StoredForPeerMessage;
use crate::simulation::message::HistoricalMessage;
use crate::simulation::message::SimEnvelope;
use crate::simulation::message::SimMessage;
use crate::simulation::routing::all_direct;
use crate::simulation::routing::all_posted;
use crate::simulation::routing::can_store;
use crate::simulation::routing::decode_envelope_action;
use crate::simulation::routing::forwarded_all;
use crate::simulation::routing::history_of;
use crate::simulation::routing::is_storage_peer;
use crate::simulation::routing::lemma_storage_peer;
use crate::simulation::routing::missed_all;
use crate::simulation::routing::missed_one;
use crate::simulation::routing::processed;
use crate::simulation::routing::processed_one;
use crate::simulation::routing::requested;
use crate::simulation::routing::sent_since;
use crate::simulation::routing::storage_peer;
use crate::simulation::routing::unwanted;
use crate::simulation::routing::wanted;
use crate::simulation::routing::PreparedSend;
use crate::simulation::steps::envelopes_from;
use crate::simulation::steps::forwarded_by;
use crate::simulation::steps::routed;
use crate::simulation::steps::routed_envelope;
use crate::simulation::steps::World;
use crate::text::lemma_text_le_order;
use crate::text::text_le;

verus! {

// ---------------------------------------------------------------------------
// Storage peers
// ---------------------------------------------------------------------------

/// Among those of a list that can keep messages there is a first by name, if there is any.
proof fn lemma_first_of(
    neighbors: Map<Seq<char>, Seq<Seq<char>>>,
    sender: Seq<char>,
    recipient: Seq<char>,
    n: int,
) -> (c: Option<Seq<char>>)
    requires
        neighbors.contains_key(sender),
        0 <= n <= neighbors[sender].len(),
    ensures
        c is Some ==> can_store(neighbors, sender, recipient, c->0),
        forall|i: int|
            0 <= i < n && can_store(neighbors, sender, recipient, #[trigger] neighbors[sender][i])
                ==> c is Some && text_le(c->0, neighbors[sender][i]),
    decreases n,
{
    if n == 0 {
        None
    } else {
        let c = lemma_first_of(neighbors, sender, recipient, n - 1);
        let d = neighbors[sender][n - 1];
        if !can_store(neighbors, sender, recipient, d) {
            c
        } else if c is Some && text_le(c->0, d) {
            c
        } else {
            lemma_text_le_order(d, d, d);
            if c is Some {
                lemma_text_le_order(d, c->0, d);
                assert forall|i: int|
                    0 <= i < n && can_store(
                        neighbors,
                        sender,
                        recipient,
                        #[trigger] neighbors[sender][i],
                    ) implies text_le(d, neighbors[sender][i]) by {
                    lemma_text_le_order(d, c->0, neighbors[sender][i]);
                }
            }
            Some(d)
        }
    }
}

/// There is a storage peer wherever sender and recipient have a common neighbour who is neither of
/// them, and it is the first of these by name.
pub proof fn law_storage_peer_is_a_common_neighbour(
    neighbors: Map<Seq<char>, Seq<Seq<char>>>,
    sender: Seq<char>,
    recipient: Seq<char>,
    c: Seq<char>,
)
    ensures
        neighbors.contains_key(sender) && neighbors.contains_key(recipient)
            && neighbors[sender].contains(c) && neighbors[recipient].contains(c) && c != sender && c
            != recipient ==> storage_peer(neighbors, sender, recipient) is Some && text_le(
            storage_peer(neighbors, sender, recipient)->0,
            c,
        ),
        storage_peer(neighbors, sender, recipient) matches Some(s) ==> {
            &&& neighbors.contains_key(sender) && neighbors[sender].contains(s)
            &&& neighbors.contains_key(recipient) && neighbors[recipient].contains(s)
            &&& s != sender && s != recipient
        },
{
    if can_store(neighbors, sender, recipient, c) {
        let f = lemma_first_of(neighbors, sender, recipient, neighbors[sender].len() as int);
        let i = choose|i: int| 0 <= i < neighbors[sender].len() && neighbors[sender][i] == c;
        assert(can_store(neighbors, sender, recipient, neighbors[sender][i]));
        assert forall|d: Seq<char>| #[trigger]
            can_store(neighbors, sender, recipient, d) implies text_le(f->0, d) by {
            let j = choose|j: int| 0 <= j < neighbors[sender].len() && neighbors[sender][j] == d;
            assert(can_store(neighbors, sender, recipient, neighbors[sender][j]));
        }
        assert(is_storage_peer(neighbors, sender, recipient, f->0));
        lemma_storage_peer(neighbors, sender, recipient, f->0);
    }
    if storage_peer(neighbors, sender, recipient) is Some {
        assert(is_storage_peer(
            neighbors,
            sender,
            recipient,
            storage_peer(neighbors, sender, recipient)->0,
        ));
    }
}

// ---------------------------------------------------------------------------
// Routing
// ---------------------------------------------------------------------------

/// A message to somebody who is online is posted in its own envelope. A message to somebody who is
/// offline is posted in the envelope for a storage peer, where sender and recipient have a common
/// neighbour and that envelope was prepared, and otherwise in its own.
pub proof fn law_offline_recipients_get_messages_by_a_storage_peer(
    w: World,
    step: usize,
    m: SimMessage,
    p: PreparedSend,
    neighbour: Seq<char>,
)
    requires
        p.envelope is Some,
    ensures
        ({
            let to = m.recipient@;
            let online = w.clients.contains_key(to) && step < w.clients[to].schedule.len()
                && w.clients[to].schedule[step as int];
            let n = w.ctx.neighbors;
            let common = n.contains_key(m.sender@) && n.contains_key(to)
                && n[m.sender@].contains(neighbour) && n[to].contains(neighbour) && neighbour
                != m.sender@ && neighbour != to;
            let posted = routed_envelope(w, step, m, p);
            &&& online ==> posted == p.envelope->0
            &&& !online && common && p.stored is Some ==> posted == p.stored->0
            &&& p.stored is None ==> posted == p.envelope->0
            &&& !n.contains_key(m.sender@) || !n.contains_key(to) || n[m.sender@].len() == 0
                || n[to].len() == 0 ==> posted == p.envelope->0
        }),
{
    law_storage_peer_is_a_common_neighbour(
        w.ctx.neighbors,
        m.sender@,
        m.recipient@,
        neighbour,
    );
}

/// A message whose envelope was prepared is noted when it is routed: at which step it was sent, and
/// behind all that its sender has sent to its recipient before, as it is itself. It is handed over
/// at once exactly where direct links are in use, there is one from sender to recipient, the
/// recipient is online and can read it; nobody else's inbox changes.
pub proof fn law_routing_hands_over_on_a_direct_link(
    w: World,
    step: usize,
    m: SimMessage,
    p: PreparedSend,
    who: Seq<char>,
)
    ensures
        ({
            let v = routed(w, step, m, p).0;
            let to = m.recipient@;
            let key = (m.sender@, to);
            let online = w.clients.contains_key(to) && step < w.clients[to].schedule.len()
                && w.clients[to].schedule[step as int];
            let direct = p.envelope is Some && w.ctx.direct_enabled && w.ctx.links.contains_key(key)
                && online && p.decoded is Some;
            &&& p.envelope is None ==> v == w
            &&& p.envelope is Some ==> {
                let h = v.ctx.history[key];
                &&& v.ctx.send_steps == w.ctx.send_steps.insert(m.id@, step)
                &&& v.ctx.history.contains_key(key)
                &&& h.len() > 0
                &&& h.last() == (HistoricalMessage { send_step: step, envelope: p.envelope->0 })
                &&& w.ctx.history.contains_key(key) ==> h.drop_last() == w.ctx.history[key]
                &&& !w.ctx.history.contains_key(key) ==> h.len() == 1
            }
            &&& direct && !w.clients[to].seen.contains_key(p.decoded->0.id@)
                ==> v.clients[to].inbox == w.clients[to].inbox.push(p.decoded->0)
            &&& who != to || !direct ==> v.clients.contains_key(who) == w.clients.contains_key(who)
                && (w.clients.contains_key(who) ==> v.clients[who] == w.clients[who])
            &&& v.ctx.neighbors == w.ctx.neighbors && v.ctx.links == w.ctx.links
        }),
{
    if p.envelope is Some {
        let key = (m.sender@, m.recipient@);
        let h = history_of(w.ctx.history, key);
        assert(h.push(
            HistoricalMessage { send_step: step, envelope: p.envelope->0 },
        ).drop_last() =~= h);
    }
}

/// Whoever sends several messages at once posts them in order, each in its own envelope where its
/// recipient can be reached, and by a storage peer otherwise, under the same conditions.
pub proof fn law_sends_are_posted_in_order(
    c: ContextView,
    m: SimMessage,
    p: PreparedSend,
    online: Map<Seq<char>, bool>,
    neighbour: Seq<char>,
)
    requires
        p.envelope is Some,
    ensures
        ({
            let to = m.recipient@;
            let n = c.neighbors;
            let common = n.contains_key(m.sender@) && n.contains_key(to)
                && n[m.sender@].contains(neighbour) && n[to].contains(neighbour) && neighbour
                != m.sender@ && neighbour != to;
            let out = all_posted(c, seq![m], seq![p], online);
            let handed = all_direct(c, seq![m], seq![p], online);
            &&& out.len() == 1
            &&& online.contains_key(to) ==> out[0] == p.envelope->0
            &&& !online.contains_key(to) && common && p.stored is Some ==> out[0] == p.stored->0
            &&& p.stored is None ==> out[0] == p.envelope->0
            &&& handed.len() == (if c.direct_enabled && c.links.contains_key((m.sender@, to))
                && online.contains_key(to) && p.decoded is Some {
                1nat
            } else {
                0nat
            })
            &&& handed.len() > 0 ==> handed[0] == p.decoded->0
        }),
{
    let n = c.neighbors;
    let to = m.recipient@;
    reveal_with_fuel(all_posted, 2);
    reveal_with_fuel(all_direct, 2);
    assert(seq![m].drop_last() =~= Seq::empty());
    law_storage_peer_is_a_common_neighbour(n, m.sender@, to, neighbour);
}

/// Sending on: what is posted for two lists of messages is what is posted for the first and then
/// what is posted for the second.
pub proof fn law_sends_add_up_in_order(
    c: ContextView,
    ms: Seq<SimMessage>,
    ps: Seq<PreparedSend>,
    m: SimMessage,
    p: PreparedSend,
    online: Map<Seq<char>, bool>,
)
    requires
        ps.len() == ms.len(),
    ensures
        all_posted(c, ms.push(m), ps.push(p), online) == all_posted(c, ms, ps, online)
            + all_posted(c, seq![m], seq![p], online),
        all_direct(c, ms.push(m), ps.push(p), online) == all_direct(c, ms, ps, online)
            + all_direct(c, seq![m], seq![p], online),
{
    reveal_with_fuel(all_posted, 2);
    reveal_with_fuel(all_direct, 2);
    assert(ms.push(m).drop_last() =~= ms);
    assert(seq![m].drop_last() =~= Seq::empty());
    lemma_posted_prefix(c, ms, ps, ps.push(p), online);
    assert(all_posted(c, ms.push(m), ps.push(p), online) =~= all_posted(c, ms, ps, online)
        + all_posted(c, seq![m], seq![p], online));
    assert(all_direct(c, ms.push(m), ps.push(p), online) =~= all_direct(c, ms, ps, online)
        + all_direct(c, seq![m], seq![p], online));
}

proof fn lemma_posted_prefix(
    c: ContextView,
    ms: Seq<SimMessage>,
    ps: Seq<PreparedSend>,
    qs: Seq<PreparedSend>,
    online: Map<Seq<char>, bool>,
)
    requires
        forall|i: int| 0 <= i < ms.len() ==> ps[i] == #[trigger] qs[i],
    ensures
        all_posted(c, ms, ps, online) == all_posted(c, ms, qs, online),
        all_direct(c, ms, ps, online) == all_direct(c, ms, qs, online),
    decreases ms.len(),
{
    if ms.len() > 0 {
        lemma_posted_prefix(c, ms.drop_last(), ps, qs, online);
        assert(qs[ms.len() - 1] == ps[ms.len() - 1]);
    }
}

// ---------------------------------------------------------------------------
// Receiving
// ---------------------------------------------------------------------------

/// A message that a client has not seen goes behind all that is in its inbox, and is seen from then
/// on; one that it has seen changes nothing. The client then knows of the sender at least up to the
/// step at which the message was sent, and one that was forwarded has arrived.
pub proof fn law_message_arrives_once(s: Sim, step: usize, m: SimMessage, kind: DeliveryKind)
    ensures
        ({
            let (t, note) = applied(s, step, m, kind);
            let id = m.id@;
            &&& s.client.seen.contains_key(id) ==> t == s && note is None
            &&& !s.client.seen.contains_key(id) ==> {
                &&& t.client.inbox == s.client.inbox.push(m)
                &&& t.client.seen.dom() == s.client.seen.dom().insert(id)
                &&& t.client.id == s.client.id && t.client.schedule == s.client.schedule
                &&& t.client.stored == s.client.stored && t.client.pending == s.client.pending
                &&& s.ctx.send_steps.contains_key(id) && s.ctx.send_steps[id] <= u64::MAX ==> {
                    &&& t.client.last_seen.contains_key(m.sender@)
                    &&& t.client.last_seen[m.sender@] >= s.ctx.send_steps[id]
                    &&& s.client.last_seen.contains_key(m.sender@)
                        ==> t.client.last_seen[m.sender@] >= s.client.last_seen[m.sender@]
                    &&& t.client.last_seen[m.sender@] == s.ctx.send_steps[id]
                        || t.client.last_seen[m.sender@] == s.client.last_seen[m.sender@]
                }
                &&& !s.ctx.send_steps.contains_key(id) ==> t.client.last_seen == s.client.last_seen
                &&& !t.ctx.forwarded.contains_key(id)
                &&& note is Some <==> s.ctx.tracker.messages.contains_key(id)
                    && s.ctx.tracker.messages[id].recipients.contains(s.client.id)
                    && !s.ctx.tracker.messages[id].delivered.contains(s.client.id)
                &&& note is Some && s.ctx.tracker.messages[id].send_step <= step ==> note->0.latency
                    == step - s.ctx.tracker.messages[id].send_step
                &&& t.ctx.history == s.ctx.history && t.ctx.neighbors == s.ctx.neighbors
                    && t.ctx.links == s.ctx.links
            }
        }),
{
    let (t, note) = applied(s, step, m, kind);
    if !s.client.seen.contains_key(m.id@) {
        assert(t.client.seen.dom() =~= s.client.seen.dom().insert(m.id@));
    }
}

/// Every arrival is counted once, by the way it came: over a direct link, from the inbox of the
/// relay, or among those that were missed; and once more where it had been kept by a storage peer.
pub proof fn law_arrivals_are_counted(s: Sim, step: usize, m: SimMessage, kind: DeliveryKind)
    requires
        !s.client.seen.contains_key(m.id@),
        s.ctx.metrics.direct_deliveries < usize::MAX,
        s.ctx.metrics.inbox_deliveries < usize::MAX,
        s.ctx.metrics.store_forwards_delivered < usize::MAX,
        s.ctx.tracker.missed_message_deliveries < usize::MAX,
        s.ctx.tracker.store_forwards_delivered < usize::MAX,
    ensures
        ({
            let t = applied(s, step, m, kind).0;
            let kept = s.ctx.forwarded.contains_key(m.id@);
            &&& t.ctx.metrics.direct_deliveries - s.ctx.metrics.direct_deliveries == (if kind
                == DeliveryKind::Direct {
                1int
            } else {
                0int
            })
            &&& t.ctx.metrics.inbox_deliveries - s.ctx.metrics.inbox_deliveries == (if kind
                == DeliveryKind::Inbox {
                1int
            } else {
                0int
            })
            &&& t.ctx.tracker.missed_message_deliveries - s.ctx.tracker.missed_message_deliveries
                == (if kind == DeliveryKind::Missed {
                1int
            } else {
                0int
            })
            &&& t.ctx.metrics.store_forwards_delivered - s.ctx.metrics.store_forwards_delivered
                == (if kept {
                1int
            } else {
                0int
            })
            &&& t.ctx.tracker.store_forwards_delivered - s.ctx.tracker.store_forwards_delivered
                == (if kept {
                1int
            } else {
                0int
            })
            &&& t.ctx.metrics.planned_messages == s.ctx.metrics.planned_messages
            &&& t.ctx.metrics.sent_messages == s.ctx.metrics.sent_messages
            &&& t.ctx.metrics.store_forwards_stored == s.ctx.metrics.store_forwards_stored
            &&& t.ctx.metrics.store_forwards_forwarded == s.ctx.metrics.store_forwards_forwarded
        }),
{
}

/// An envelope that a client is to keep for somebody stands behind all that it keeps, and is
/// counted; its inbox is as it was. An envelope that could not be read changes nothing.
pub proof fn law_envelope_is_kept_for_somebody(s: Sim, step: usize, e: StoredForPeerMessage)
    requires
        s.ctx.metrics.store_forwards_stored < usize::MAX,
        s.ctx.tracker.store_forwards_stored < usize::MAX,
    ensures
        ({
            let t = handled_one(s, step, Some(IncomingEnvelopeAction::StoredForPeer(e))).0;
            &&& t.client.stored == s.client.stored.push(e)
            &&& t.client.inbox == s.client.inbox && t.client.seen == s.client.seen
            &&& t.ctx.metrics.store_forwards_stored == s.ctx.metrics.store_forwards_stored + 1
            &&& t.ctx.tracker.store_forwards_stored == s.ctx.tracker.store_forwards_stored + 1
            &&& handled_one(s, step, None).0 == s
        }),
{
}

/// Every message among the envelopes of an inbox is seen once they have been handled, and every
/// envelope to be kept is kept.
pub proof fn law_inbox_is_taken_in(
    s: Sim,
    step: usize,
    actions: Seq<Option<IncomingEnvelopeAction>>,
    i: int,
)
    requires
        0 <= i < actions.len(),
    ensures
        ({
            let t = handled(s, step, actions);
            match actions[i] {
                Some(IncomingEnvelopeAction::DirectMessage(m)) => t.client.seen.contains_key(m.id@),
                Some(IncomingEnvelopeAction::StoredForPeer(e)) => t.client.stored.contains(e),
                None => true,
            }
        }),
        s.client.seen.dom().subset_of(handled(s, step, actions).client.seen.dom()),
        s.client.inbox.is_prefix_of(handled(s, step, actions).client.inbox),
        s.client.stored.is_prefix_of(handled(s, step, actions).client.stored),
    decreases actions.len(),
{
    let before = handled(s, step, actions.drop_last());
    if actions.len() > 1 {
        law_inbox_is_taken_in(
            s,
            step,
            actions.drop_last(),
            if i < actions.len() - 1 {
                i
            } else {
                0
            },
        );
    } else {
        assert(actions.drop_last().len() == 0);
    }
    let t = handled(s, step, actions);
    assert(before.client.stored.is_prefix_of(t.client.stored));
    assert(before.client.inbox.is_prefix_of(t.client.inbox));
    if i == actions.len() - 1 {
        match actions[i] {
            Some(IncomingEnvelopeAction::StoredForPeer(e)) => {
                assert(t.client.stored.last() == e);
            },
            _ => {},
        }
    } else {
        match actions[i] {
            Some(IncomingEnvelopeAction::StoredForPeer(e)) => {
                let k = choose|k: int|
                    0 <= k < before.client.stored.len() && before.client.stored[k] == e;
                assert(t.client.stored[k] == e);
            },
            _ => {},
        }
    }
}

/// What an envelope is to a client: a direct message for what it holds and carries, where it is
/// genuine and can be read; something to be kept, where it names this client to keep it and for
/// whom, and what is inside can be read; and nothing otherwise.
pub proof fn law_envelope_is_what_it_says(
    me: &str,
    e: SimEnvelope,
    genuine: bool,
    body: Option<String>,
    inner: Option<SimEnvelope>,
    r: Option<IncomingEnvelopeAction>,
)
    requires
        call_ensures(decode_envelope_action, (me, &e, genuine, body, inner), r),
    ensures
        r is Some && r->0 is DirectMessage <==> genuine && e.message_kind == MessageKind::Direct
            && body is Some,
        r is Some && r->0 is StoredForPeer <==> genuine && e.message_kind
            == MessageKind::StoreForPeer && e.store_for is Some && e.storage_peer_id is Some
            && e.storage_peer_id->0@ == me@ && inner is Some,
        r is Some && r->0 is DirectMessage ==> {
            let m = r->0->DirectMessage_0;
            &&& m.id@ == e.message_id@ && m.sender@ == e.sender_id@ && m.recipient@
                == e.recipient_id@
            &&& m.body@ == body->0@ && m.payload@ == e.payload@
            &&& m.message_kind == MessageKind::Direct && m.group_id == e.group_id
        },
        r is Some && r->0 is StoredForPeer ==> r->0->StoredForPeer_0.store_for_id@
            == e.store_for->0@ && r->0->StoredForPeer_0.envelope == inner->0,
{
}

// ---------------------------------------------------------------------------
// Forwarding
// ---------------------------------------------------------------------------

/// A peer that is online forwards, in order, exactly what it keeps for those who are online, and
/// keeps the rest; each is noted as forwarded and counted. One that is offline forwards nothing.
pub proof fn law_forwarding_reaches_those_online(
    w: World,
    who: Seq<char>,
    online: Map<Seq<char>, bool>,
)
    requires
        w.clients.contains_key(who),
        w.ctx.metrics.store_forwards_forwarded + w.clients[who].stored.len() <= usize::MAX,
        w.ctx.tracker.store_forwards_forwarded + w.clients[who].stored.len() <= usize::MAX,
    ensures
        ({
            let v = forwarded_by(w, who, online);
            let kept = w.clients[who].stored;
            let goes = kept.filter(|m: StoredForPeerMessage| online.contains_key(m.store_for_id@));
            let out = envelopes_from(w, who, online);
            if online.contains_key(w.clients[who].id) {
                &&& out == goes.map_values(|m: StoredForPeerMessage| m.envelope)
                &&& v.clients[who].stored == kept.filter(
                    |m: StoredForPeerMessage| !online.contains_key(m.store_for_id@),
                )
                &&& v.clients[who].inbox == w.clients[who].inbox
                &&& v.ctx.metrics.store_forwards_forwarded
                    == w.ctx.metrics.store_forwards_forwarded + out.len()
                &&& v.ctx.tracker.store_forwards_forwarded
                    == w.ctx.tracker.store_forwards_forwarded + out.len()
                &&& forall|i: int|
                    0 <= i < out.len() ==> v.ctx.forwarded.contains_key(
                        (#[trigger] out[i]).message_id@,
                    )
            } else {
                out.len() == 0 && v == w
            }
        }),
{
    let kept = w.clients[who].stored;
    assert(wanted(online) =~= |m: StoredForPeerMessage| online.contains_key(m.store_for_id@));
    assert(unwanted(online) =~= |m: StoredForPeerMessage| !online.contains_key(m.store_for_id@));
    let goes = kept.filter(wanted(online));
    kept.lemma_filter_len(wanted(online));
    lemma_forwarded(w.ctx, w.clients[who].id, goes);
    let out = envelopes_from(w, who, online);
    if online.contains_key(w.clients[who].id) {
        assert forall|i: int| 0 <= i < out.len() implies forwarded_by(
            w,
            who,
            online,
        ).ctx.forwarded.contains_key((#[trigger] out[i]).message_id@) by {
            assert(out[i] == goes[i].envelope);
        }
    }
}

proof fn lemma_forwarded(c: ContextView, me: Seq<char>, es: Seq<StoredForPeerMessage>)
    requires
        c.metrics.store_forwards_forwarded + es.len() <= usize::MAX,
        c.tracker.store_forwards_forwarded + es.len() <= usize::MAX,
    ensures
        ({
            let d = forwarded_all(c, me, es);
            &&& d.metrics.store_forwards_forwarded == c.metrics.store_forwards_forwarded + es.len()
            &&& d.tracker.store_forwards_forwarded == c.tracker.store_forwards_forwarded + es.len()
            &&& forall|i: int|
                0 <= i < es.len() ==> d.forwarded.contains_key(
                    (#[trigger] es[i]).envelope.message_id@,
                )
        }),
    decreases es.len(),
{
    if es.len() > 0 {
        let rest = es.drop_last();
        lemma_forwarded(c, me, rest);
        let d = forwarded_all(c, me, es);
        assert forall|i: int| 0 <= i < es.len() implies d.forwarded.contains_key(
            (#[trigger] es[i]).envelope.message_id@,
        ) by {
            if i < rest.len() {
                assert(rest[i] == es[i]);
            }
        }
    }
}

/// By way of a storage peer a message reaches somebody who was offline: what the storage peer took
/// in for them is among what it forwards once both are online.
pub proof fn law_kept_envelope_is_forwarded(
    w: World,
    who: Seq<char>,
    online: Map<Seq<char>, bool>,
    e: StoredForPeerMessage,
)
    requires
        w.clients.contains_key(who),
        w.clients[who].stored.contains(e),
        online.contains_key(w.clients[who].id),
    ensures
        online.contains_key(e.store_for_id@) ==> envelopes_from(w, who, online).contains(e.envelope),
        !online.contains_key(e.store_for_id@) ==> forwarded_by(
            w,
            who,
            online,
        ).clients[who].stored.contains(e),
{
    let kept = w.clients[who].stored;
    let k = choose|k: int| 0 <= k < kept.len() && kept[k] == e;
    if online.contains_key(e.store_for_id@) {
        kept.lemma_filter_contains(wanted(online), k);
        let goes = kept.filter(wanted(online));
        let j = choose|j: int| 0 <= j < goes.len() && goes[j] == e;
        let out = envelopes_from(w, who, online);
        assert(out[j] == e.envelope);
    } else {
        kept.lemma_filter_contains(unwanted(online), k);
    }
}

// ---------------------------------------------------------------------------
// Catching up
// ---------------------------------------------------------------------------

/// A client that comes online announces itself to each of its neighbours, in their order, and waits
/// ten steps for each to answer.
pub proof fn law_announcement_goes_to_every_neighbour(
    me: Seq<char>,
    to: Seq<Seq<char>>,
    step: usize,
    i: int,
)
    requires
        0 <= i < to.len(),
        step + 10 <= usize::MAX,
    ensures
        ({
            let a = announcements(me, to, step);
            let p = awaited(me, to, step);
            &&& a.len() == to.len() && p.len() == to.len()
            &&& a[i].sender == me && a[i].recipient == to[i]
            &&& a[i].meta == MetaView::Online(me, step as u64)
            &&& p[i].sender == me && p[i].recipient == to[i]
            &&& p[i].sent_step == step && p[i].expires_at == step + 10
        }),
{
}

proof fn lemma_missed_seen(
    s: Sim,
    step: usize,
    hs: Seq<HistoricalMessage>,
    read: Map<Seq<char>, SimMessage>,
)
    ensures
        ({
            let t = missed_all(s, step, hs, read).0;
            &&& forall|i: int|
                0 <= i < hs.len() && read.contains_key(
                    (#[trigger] hs[i]).envelope.message_id@,
                ) ==> t.client.seen.contains_key(read[hs[i].envelope.message_id@].id@)
            &&& s.client.seen.dom().subset_of(t.client.seen.dom())
            &&& s.client.inbox.is_prefix_of(t.client.inbox)
        }),
    decreases hs.len(),
{
    if hs.len() > 0 {
        let rest = hs.drop_last();
        lemma_missed_seen(s, step, rest, read);
        let u = missed_all(s, step, rest, read).0;
        let t = missed_all(s, step, hs, read).0;
        assert(t == missed_one(u, step, hs.last(), read).0);
        assert(u.client.seen.dom().subset_of(t.client.seen.dom()));
        assert(u.client.inbox.is_prefix_of(t.client.inbox));
        assert forall|i: int|
            0 <= i < hs.len() && read.contains_key(
                (#[trigger] hs[i]).envelope.message_id@,
            ) implies t.client.seen.contains_key(read[hs[i].envelope.message_id@].id@) by {
            if i < rest.len() {
                assert(rest[i] == hs[i]);
                assert(u.client.seen.dom().contains(read[hs[i].envelope.message_id@].id@));
                assert(t.client.seen.dom().contains(read[hs[i].envelope.message_id@].id@));
            }
        }
    }
}

/// A client that asks another for what it missed catches up: of all that the other has sent to it
/// since it last knew of the other, it has seen whatever can be read; nothing that it had is lost.
pub proof fn law_missed_messages_are_caught_up(
    s: Sim,
    step: usize,
    requester: Seq<char>,
    responder: Seq<char>,
    read: Map<Seq<char>, SimMessage>,
    i: int,
)
    requires
        s.ctx.history.contains_key((responder, requester)),
        0 <= i < s.ctx.history[(responder, requester)].len(),
        s.ctx.history[(responder, requester)][i].send_step <= u64::MAX,
        !s.client.last_seen.contains_key(responder) || s.client.last_seen[responder]
            <= s.ctx.history[(responder, requester)][i].send_step,
    ensures
        ({
            let h = s.ctx.history[(responder, requester)][i];
            let t = requested(s, step, requester, responder, read).0;
            &&& read.contains_key(h.envelope.message_id@) ==> t.client.seen.contains_key(
                read[h.envelope.message_id@].id@,
            )
            &&& s.client.inbox.is_prefix_of(t.client.inbox)
        }),
{
    let all = s.ctx.history[(responder, requester)];
    let since = if s.client.last_seen.contains_key(responder) {
        s.client.last_seen[responder]
    } else {
        0
    };
    let hs = all.filter(sent_since(since));
    all.lemma_filter_contains(sent_since(since), i);
    let k = choose|k: int| 0 <= k < hs.len() && hs[k] == all[i];
    let s1 = Sim {
        ctx: ContextView {
            tracker: crate::simulation::tracker::TrackerView {
                missed_message_requests_sent: crate::simulation::metrics::sat_add(
                    s.ctx.tracker.missed_message_requests_sent,
                    1,
                ),
                ..s.ctx.tracker
            },
            ..s.ctx
        },
        ..s
    };
    lemma_missed_seen(s1, step, hs, read);
    assert(hs[k] == all[i]);
}

/// An announcement that waits is dropped once it has expired, answered as soon as its recipient is
/// online, and otherwise goes on waiting; those that go on waiting stay in order.
pub proof fn law_announcements_wait_until_answered(
    s: Sim,
    ps: Seq<PendingView>,
    step: usize,
    online: Map<Seq<char>, bool>,
    read: Map<Seq<char>, SimMessage>,
)
    ensures
        ({
            let r = processed(s, ps, step, online, read);
            let answered = ps.filter(
                |p: PendingView| step <= p.expires_at && online.contains_key(p.recipient),
            );
            &&& r.remaining == ps.filter(
                |p: PendingView| step <= p.expires_at && !online.contains_key(p.recipient),
            )
            &&& r.sends.len() == 2 * answered.len()
            &&& forall|i: int|
                #![trigger answered[i]]
                0 <= i < answered.len() ==> {
                    &&& r.sends[2 * i].sender == answered[i].recipient
                    &&& r.sends[2 * i].recipient == answered[i].sender
                    &&& r.sends[2 * i].meta == MetaView::Ack(
                        answered[i].recipient,
                        answered[i].sent_step as u64,
                    )
                    &&& r.sends[2 * i + 1].sender == answered[i].sender
                    &&& r.sends[2 * i + 1].recipient == answered[i].recipient
                    &&& r.sends[2 * i + 1].meta is MessageRequest
                    &&& r.sends[2 * i + 1].meta->MessageRequest_0 == answered[i].recipient
                }
        }),
    decreases ps.len(),
{
    reveal(Seq::filter);
    let waits = |p: PendingView| step <= p.expires_at && !online.contains_key(p.recipient);
    let hit = |p: PendingView| step <= p.expires_at && online.contains_key(p.recipient);
    let r = processed(s, ps, step, online, read);
    if ps.len() == 0 {
        assert(ps.filter(waits) =~= Seq::empty());
        assert(ps.filter(hit) =~= Seq::empty());
    } else {
        let rest = ps.drop_last();
        let p = ps.last();
        law_announcements_wait_until_answered(s, rest, step, online, read);
        let q = processed(s, rest, step, online, read);
        assert(r == processed_one(q, p, step, online, read));
        let a = rest.filter(hit);
        let b = ps.filter(hit);
        assert forall|i: int|
            #![trigger b[i]]
            0 <= i < b.len() implies {
            &&& r.sends[2 * i].sender == b[i].recipient
            &&& r.sends[2 * i].recipient == b[i].sender
            &&& r.sends[2 * i].meta == MetaView::Ack(b[i].recipient, b[i].sent_step as u64)
            &&& r.sends[2 * i + 1].sender == b[i].sender
            &&& r.sends[2 * i + 1].recipient == b[i].recipient
            &&& r.sends[2 * i + 1].meta is MessageRequest
            &&& r.sends[2 * i + 1].meta->MessageRequest_0 == b[i].recipient
        } by {
            if i < a.len() {
                assert(a[i] == b[i]);
                assert(r.sends[2 * i] == q.sends[2 * i]);
                assert(r.sends[2 * i + 1] == q.sends[2 * i + 1]);
            }
        }
    }
}

} // verus!
