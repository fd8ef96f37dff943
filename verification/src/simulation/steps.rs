//! What happens in a step of a simulation, between the messages that travel over the network.
use vstd::prelude::*;
use vstd::string::*;

use crate::keyed::KeyedMap;
use crate::simulation::client::announcements;
use crate::simulation::client::applied;
use crate::simulation::client::awaited;
use crate::simulation::client::handled;
use crate::simulation::client::handled_notes;
use crate::simulation::client::last_seen_of;
use crate::simulation::client::meta_views;
use crate::simulation::client::neighbors_of;
use crate::simulation::client::ClientView;
use crate::simulation::client::ContextView;
use crate::simulation::client::DeliveryKind;
use crate::simulation::client::IncomingEnvelopeAction;
use crate::simulation::client::MetaSend;
use crate::simulation::client::PendingView;
use crate::simulation::client::Sim;
use crate::simulation::client::StoredForPeerMessage;
use crate::simulation::harness::client_in_order;
use crate::simulation::harness::is_online;
use crate::simulation::harness::SimulationHarness;
use crate::simulation::message::HistoricalMessage;
use crate::simulation::message::SimEnvelope;
use crate::simulation::message::SimMessage;
use crate::simulation::metrics::rolled;
use crate::simulation::metrics::sat_add;
use crate::simulation::metrics::RollingLatencyTracker;
use crate::simulation::metrics::SimulationMetrics;
use crate::simulation::routing::can_store;
use crate::simulation::routing::forward_store_forwards;
use crate::simulation::routing::forwarded_all;
use crate::simulation::routing::history_of;
use crate::simulation::routing::missed_all;
use crate::simulation::routing::noted_send;
use crate::simulation::routing::process_pending_online_broadcasts;
use crate::simulation::routing::processed;
use crate::simulation::routing::record_message_send;
use crate::simulation::routing::select_storage_peer;
use crate::simulation::routing::sent_since;
use crate::simulation::routing::storage_peer;
use crate::simulation::routing::unwanted;
use crate::simulation::routing::wanted;
use crate::simulation::routing::PreparedSend;
use crate::simulation::tracker::sent_message;
use crate::simulation::tracker::DeliveryNote;
use crate::simulation::tracker::TrackerView;
use crate::text::texts;

verus! {

/// The clients and what they share.
pub struct World {
    pub clients: Map<Seq<char>, ClientView>,
    pub ctx: ContextView,
}

/// The world as one client sees it.
pub open spec fn seen_by(w: World, who: Seq<char>) -> Sim {
    Sim { client: w.clients[who], ctx: w.ctx }
}

/// The world once one client has done something.
pub open spec fn with_client(w: World, who: Seq<char>, s: Sim) -> World {
    World { clients: w.clients.insert(who, s.client), ctx: s.ctx }
}

// ---------------------------------------------------------------------------
// Routing
// ---------------------------------------------------------------------------

/// Whether a message is handed over on a direct link as it is routed.
pub open spec fn handed_over(w: World, step: usize, m: SimMessage, p: PreparedSend) -> bool {
    &&& w.ctx.direct_enabled
    &&& w.ctx.links.contains_key((m.sender@, m.recipient@))
    &&& is_online(w.clients, m.recipient@, step)
    &&& p.decoded is Some
}

/// What comes of handing a message over on a direct link: it counts as a direct delivery where
/// its latency is known.
pub open spec fn over_link(w: World, step: usize, m: SimMessage, p: PreparedSend) -> (
    World,
    Option<DeliveryNote>,
) {
    if handed_over(w, step, m, p) {
        let (s, note) = applied(
            seen_by(w, m.recipient@),
            step,
            p.decoded->0,
            DeliveryKind::Link,
        );
        let w1 = with_client(w, m.recipient@, s);
        if note is Some {
            (
                World {
                    ctx: ContextView {
                        metrics: SimulationMetrics {
                            direct_deliveries: sat_add(w1.ctx.metrics.direct_deliveries, 1),
                            ..w1.ctx.metrics
                        },
                        ..w1.ctx
                    },
                    ..w1
                },
                note,
            )
        } else {
            (w1, note)
        }
    } else {
        (w, None)
    }
}

/// The envelope that is posted for a message: by way of a storage peer where the recipient is
/// offline, there is such a peer and the envelope for it could be built.
pub open spec fn routed_envelope(w: World, step: usize, m: SimMessage, p: PreparedSend) -> SimEnvelope {
    if !is_online(w.clients, m.recipient@, step) && storage_peer(
        w.ctx.neighbors,
        m.sender@,
        m.recipient@,
    ) is Some && p.stored is Some {
        p.stored->0
    } else {
        p.envelope->0
    }
}

/// The world once a message has been routed, and what its delivery tells.
pub open spec fn routed(w: World, step: usize, m: SimMessage, p: PreparedSend) -> (
    World,
    Option<DeliveryNote>,
) {
    if p.envelope is None {
        (w, None)
    } else {
        let w1 = World { ctx: noted_send(w.ctx, m, step, p.envelope->0), ..w };
        let (w2, note) = over_link(w1, step, m, p);
        let e = routed_envelope(w, step, m, p);
        (
            World {
                ctx: ContextView {
                    tracker: sent_message(
                        w2.ctx.tracker,
                        m.id@,
                        m.sender@,
                        m.recipient@,
                        step,
                        e.message_kind,
                        e.payload_size,
                    ),
                    ..w2.ctx
                },
                ..w2
            },
            note,
        )
    }
}

/// What comes of routing a message.
pub struct RouteOutcome {
    /// The envelope to be posted.
    pub post: Option<SimEnvelope>,
    /// What the delivery over a direct link tells.
    pub note: Option<DeliveryNote>,
}

// ---------------------------------------------------------------------------
// Forwarding
// ---------------------------------------------------------------------------

/// The world once `who` has forwarded what it keeps for those that are online.
pub open spec fn forwarded_by(w: World, who: Seq<char>, online: Map<Seq<char>, bool>) -> World {
    if w.clients.contains_key(who) && online.contains_key(w.clients[who].id) {
        let c = w.clients[who];
        with_client(
            w,
            who,
            Sim {
                client: ClientView { stored: c.stored.filter(unwanted(online)), ..c },
                ctx: forwarded_all(w.ctx, c.id, c.stored.filter(wanted(online))),
            },
        )
    } else {
        w
    }
}

/// The envelopes that `who` forwards.
pub open spec fn envelopes_from(w: World, who: Seq<char>, online: Map<Seq<char>, bool>) -> Seq<
    SimEnvelope,
> {
    if w.clients.contains_key(who) && online.contains_key(w.clients[who].id) {
        w.clients[who].stored.filter(wanted(online)).map_values(
            |m: StoredForPeerMessage| m.envelope,
        )
    } else {
        Seq::empty()
    }
}

/// The world once the given peers have forwarded in turn, and the envelopes in order.
pub open spec fn forwarded_by_all(
    w: World,
    who: Seq<Seq<char>>,
    online: Map<Seq<char>, bool>,
) -> (World, Seq<SimEnvelope>)
    decreases who.len(),
{
    if who.len() == 0 {
        (w, Seq::empty())
    } else {
        let (w1, es) = forwarded_by_all(w, who.drop_last(), online);
        (forwarded_by(w1, who.last(), online), es + envelopes_from(w1, who.last(), online))
    }
}

// ---------------------------------------------------------------------------
// Inboxes and announcements
// ---------------------------------------------------------------------------

/// What comes of an inbox.
pub struct InboxOutcome {
    /// How many messages were new.
    pub received: usize,
    /// What the deliveries tell, in order.
    pub notes: Vec<DeliveryNote>,
}

/// What comes of looking after announcements.
pub struct PendingOutcome {
    /// Requests and acknowledgements to be sent.
    pub sends: Vec<MetaSend>,
    /// How many missed messages were new.
    pub received: usize,
    /// What the deliveries tell, in order.
    pub notes: Vec<DeliveryNote>,
}

impl SimulationHarness {
    pub open spec fn world(&self) -> World {
        World { clients: self.clients@, ctx: self.ctx@ }
    }

    /// Routes a message that is due: hands it over on a direct link where there is one and both
    /// ends are online, and says what is to be posted.
    pub fn route_message(&mut self, step: usize, message: &SimMessage, prepared: &PreparedSend)
        -> (r: RouteOutcome)
        requires
            old(self).wf(),
        ensures
            final(self).wf(),
            final(self).previous_online == old(self).previous_online,
            final(self).world() == routed(old(self).world(), step, *message, *prepared).0,
            r.note == routed(old(self).world(), step, *message, *prepared).1,
            r.post == (if prepared.envelope is Some {
                Some(routed_envelope(old(self).world(), step, *message, *prepared))
            } else {
                None
            }),
            prepared.envelope is Some && old(self).clients@.contains_key(message.recipient@)
                && step < old(self).clients@[message.recipient@].schedule.len() && old(
                self,
            ).clients@[message.recipient@].schedule[step as int] ==> r.post == prepared.envelope,
            prepared.envelope is Some && !(old(self).clients@.contains_key(message.recipient@)
                && step < old(self).clients@[message.recipient@].schedule.len() && old(
                self,
            ).clients@[message.recipient@].schedule[step as int]) && prepared.stored is Some
                ==> forall|c: Seq<char>|
                old(self).ctx@.neighbors.contains_key(message.sender@) && old(
                    self,
                ).ctx@.neighbors.contains_key(message.recipient@) && #[trigger] old(
                    self,
                ).ctx@.neighbors[message.sender@].contains(c) && old(
                    self,
                ).ctx@.neighbors[message.recipient@].contains(c) && c != message.sender@ && c
                    != message.recipient@ ==> r.post == prepared.stored,
    {
        let ghost w = self.world();
        let envelope = match &prepared.envelope {
            Some(e) => e,
            None => {
                return RouteOutcome { post: None, note: None };
            },
        };
        record_message_send(message, step, envelope, &mut self.ctx);
        let ghost w1 = self.world();
        let recipient_online = self.online_at(&message.recipient, step);
        let mut note: Option<DeliveryNote> = None;
        if self.ctx.direct_enabled && recipient_online && self.ctx.direct_links.contains_key(
            &(message.sender.clone(), message.recipient.clone()),
        ) {
            match &prepared.decoded {
                Some(decoded) => {
                    match self.clients.remove(&message.recipient) {
                        Some(client) => {
                            assert(self.clients.all(client_in_order()));
                            let mut client = client;
                            note =
                            client.apply_delivery(
                                step,
                                decoded.copied(),
                                &mut self.ctx,
                                DeliveryKind::Link,
                            );
                            self.clients.insert(message.recipient.clone(), client);
                            assert(self.clients.all(client_in_order()));
                            proof {
                                let s = applied(
                                    seen_by(w1, message.recipient@),
                                    step,
                                    prepared.decoded->0,
                                    DeliveryKind::Link,
                                ).0;
                                assert(self.clients@ =~= with_client(
                                    w1,
                                    message.recipient@,
                                    s,
                                ).clients);
                            }
                            if note.is_some() {
                                self.ctx.metrics.direct_deliveries =
                                    self.ctx.metrics.direct_deliveries.saturating_add(1);
                            }
                        },
                        None => {},
                    }
                },
                None => {},
            }
        }
        assert(self.world() == over_link(w1, step, *message, *prepared).0);
        proof {
            lemma_over_link_frame(w1, step, *message, *prepared);
        }
        if !recipient_online {
            let storage = select_storage_peer(
                message.sender.as_str(),
                message.recipient.as_str(),
                &self.ctx,
            );
            if storage.is_some() {
                match &prepared.stored {
                    Some(stored) => {
                        self.ctx.tracker.record_send(message, step, stored);
                        return RouteOutcome { post: Some(stored.copied()), note };
                    },
                    None => {},
                }
            } else {
                assert forall|c: Seq<char>| #[trigger]
                    old(self).ctx@.neighbors[message.sender@].contains(c) implies !can_store(
                    old(self).ctx@.neighbors,
                    message.sender@,
                    message.recipient@,
                    c,
                ) by {}
            }
        }
        self.ctx.tracker.record_send(message, step, envelope);
        RouteOutcome { post: Some(envelope.copied()), note }
    }

    /// Lets the given peers forward what they keep for those that are online, and hands back the
    /// envelopes to be posted.
    pub fn forward_stored(&mut self, peers: &Vec<String>, online: &KeyedMap<String, bool>) -> (r: Vec<
        SimEnvelope,
    >)
        requires
            old(self).wf(),
            online.wf(),
        ensures
            final(self).wf(),
            final(self).previous_online == old(self).previous_online,
            final(self).world() == forwarded_by_all(
                old(self).world(),
                texts(peers@),
                online@,
            ).0,
            r@ == forwarded_by_all(old(self).world(), texts(peers@), online@).1,
    {
        let ghost w = self.world();
        let ghost names = texts(peers@);
        let ghost prev = self.previous_online;
        let mut out: Vec<SimEnvelope> = Vec::new();
        let mut i: usize = 0;
        proof {
            assert(names.take(0) =~= Seq::empty());
        }
        while i < peers.len()
            invariant
                i <= peers@.len(),
                names == texts(peers@),
                self.wf(),
                online.wf(),
                self.previous_online == prev,
                self.world() == forwarded_by_all(w, names.take(i as int), online@).0,
                out@ == forwarded_by_all(w, names.take(i as int), online@).1,
            decreases peers@.len() - i,
        {
            let ghost w1 = self.world();
            let ghost es = out@;
            proof {
                assert(names.take(i + 1).drop_last() =~= names.take(i as int));
                assert(names.take(i + 1).last() == peers@[i as int]@);
            }
            match self.clients.remove(&peers[i]) {
                Some(client) => {
                    assert(self.clients.all(client_in_order()));
                    let mut client = client;
                    let mut more = forward_store_forwards(&mut client, online, &mut self.ctx);
                    self.clients.insert(peers[i].clone(), client);
                    assert(self.clients.all(client_in_order()));
                    let ghost m = more@;
                    out.append(&mut more);
                    proof {
                        let w2 = forwarded_by(w1, peers@[i as int]@, online@);
                        assert(self.clients@ =~= w2.clients);
                        assert(m =~= envelopes_from(w1, peers@[i as int]@, online@));
                    }
                },
                None => {
                    proof {
                        assert(self.clients@ =~= w1.clients);
                        assert(es + Seq::<SimEnvelope>::empty() =~= es);
                    }
                    assert(self.clients.all(client_in_order()));
                },
            }
            i = i + 1;
        }
        proof {
            assert(names.take(i as int) =~= names);
        }
        out
    }

    /// Lets a peer handle the envelopes of its inbox, given what was found in each; nothing
    /// happens where there is no such peer.
    pub fn handle_inbox(
        &mut self,
        step: usize,
        peer: &String,
        actions: &Vec<Option<IncomingEnvelopeAction>>,
    ) -> (r: InboxOutcome)
        requires
            old(self).wf(),
        ensures
            final(self).wf(),
            final(self).previous_online == old(self).previous_online,
            if old(self).clients@.contains_key(peer@) {
                let s = seen_by(old(self).world(), peer@);
                let t = handled(s, step, actions@);
                &&& final(self).world() == with_client(old(self).world(), peer@, t)
                &&& r.notes@ == handled_notes(s, step, actions@)
                &&& r.received == t.client.inbox.len() - s.client.inbox.len()
            } else {
                &&& final(self).world() == old(self).world()
                &&& r.notes@ == Seq::<DeliveryNote>::empty()
                &&& r.received == 0
            },
    {
        let ghost w = self.world();
        match self.clients.remove(peer) {
            Some(client) => {
                assert(self.clients.all(client_in_order()));
                let mut client = client;
                let before: usize = client.inbox.len();
                let notes = client.handle_inbox(step, actions, &mut self.ctx);
                let after: usize = client.inbox.len();
                self.clients.insert(peer.clone(), client);
                assert(self.clients.all(client_in_order()));
                proof {
                    let s = seen_by(w, peer@);
                    lemma_handled_grows(s, step, actions@);
                    assert(self.clients@ =~= with_client(
                        w,
                        peer@,
                        handled(s, step, actions@),
                    ).clients);
                }
                InboxOutcome { received: after - before, notes }
            },
            None => {
                assert(self.clients@ =~= w.clients);
                assert(self.clients.all(client_in_order()));
                InboxOutcome { received: 0, notes: Vec::new() }
            },
        }
    }

    /// Lets a peer that has come online announce itself to its neighbours.
    pub fn announce_online(&mut self, step: usize, peer: &String) -> (r: Vec<MetaSend>)
        requires
            old(self).wf(),
        ensures
            final(self).wf(),
            final(self).previous_online == old(self).previous_online,
            if old(self).clients@.contains_key(peer@) {
                let s = seen_by(old(self).world(), peer@);
                let to = neighbors_of(s.ctx.neighbors, s.client.id);
                &&& meta_views(r@) == announcements(s.client.id, to, step)
                &&& final(self).world() == with_client(
                    old(self).world(),
                    peer@,
                    Sim {
                        client: ClientView {
                            pending: s.client.pending + awaited(s.client.id, to, step),
                            ..s.client
                        },
                        ctx: ContextView {
                            tracker: TrackerView {
                                online_broadcasts_sent: sat_add(
                                    s.ctx.tracker.online_broadcasts_sent,
                                    to.len() as int,
                                ),
                                ..s.ctx.tracker
                            },
                            ..s.ctx
                        },
                    },
                )
            } else {
                r@.len() == 0 && final(self).world() == old(self).world()
            },
    {
        let ghost w = self.world();
        match self.clients.remove(peer) {
            Some(client) => {
                assert(self.clients.all(client_in_order()));
                let mut client = client;
                let sends = client.announce_online(step, &mut self.ctx);
                let ghost c = client@;
                self.clients.insert(peer.clone(), client);
                assert(self.clients.all(client_in_order()));
                assert(self.clients@ =~= w.clients.insert(peer@, c));
                sends
            },
            None => {
                assert(self.clients@ =~= w.clients);
                assert(self.clients.all(client_in_order()));
                Vec::new()
            },
        }
    }

    /// Lets a peer look after its announcements that wait to be acknowledged.
    pub fn process_pending(
        &mut self,
        step: usize,
        peer: &String,
        online: &KeyedMap<String, bool>,
        read: &KeyedMap<String, SimMessage>,
    ) -> (r: PendingOutcome)
        requires
            old(self).wf(),
            online.wf(),
            read.wf(),
        ensures
            final(self).wf(),
            final(self).previous_online == old(self).previous_online,
            if old(self).clients@.contains_key(peer@) {
                let s = seen_by(old(self).world(), peer@);
                let p = processed(
                    Sim { client: ClientView { pending: Seq::empty(), ..s.client }, ..s },
                    s.client.pending,
                    step,
                    online@,
                    read@,
                );
                &&& meta_views(r.sends@) == p.sends
                &&& r.notes@ == p.notes
                &&& r.received == p.sim.client.inbox.len() - s.client.inbox.len()
                &&& final(self).world() == with_client(
                    old(self).world(),
                    peer@,
                    Sim {
                        client: ClientView { pending: p.remaining, ..p.sim.client },
                        ctx: p.sim.ctx,
                    },
                )
            } else {
                &&& r.sends@.len() == 0
                &&& r.notes@.len() == 0
                &&& r.received == 0
                &&& final(self).world() == old(self).world()
            },
    {
        let ghost w = self.world();
        match self.clients.remove(peer) {
            Some(client) => {
                assert(self.clients.all(client_in_order()));
                let mut client = client;
                let before: usize = client.inbox.len();
                let outcome = process_pending_online_broadcasts(
                    &mut client,
                    step,
                    online,
                    &mut self.ctx,
                    read,
                );
                let after: usize = client.inbox.len();
                let ghost c = client@;
                self.clients.insert(peer.clone(), client);
                assert(self.clients.all(client_in_order()));
                assert(self.clients@ =~= w.clients.insert(peer@, c));
                proof {
                    let s = seen_by(w, peer@);
                    lemma_processed_grows(
                        Sim { client: ClientView { pending: Seq::empty(), ..s.client }, ..s },
                        s.client.pending,
                        step,
                        online@,
                        read@,
                    );
                }
                PendingOutcome {
                    sends: outcome.sends,
                    received: after - before,
                    notes: outcome.notes,
                }
            },
            None => {
                assert(self.clients@ =~= w.clients);
                assert(self.clients.all(client_in_order()));
                PendingOutcome { sends: Vec::new(), received: 0, notes: Vec::new() }
            },
        }
    }

    /// What a peer has received.
    pub fn inbox(&self, peer: &String) -> (r: Vec<SimMessage>)
        requires
            self.wf(),
        ensures
            r@ == (if self.clients@.contains_key(peer@) {
                self.clients@[peer@].inbox
            } else {
                Seq::empty()
            }),
    {
        let mut out: Vec<SimMessage> = Vec::new();
        match self.clients.get(peer) {
            Some(c) => {
                let mut i: usize = 0;
                proof {
                    assert(c.inbox@.take(0) =~= Seq::empty());
                }
                while i < c.inbox.len()
                    invariant
                        i <= c.inbox@.len(),
                        out@ == c.inbox@.take(i as int),
                    decreases c.inbox@.len() - i,
                {
                    out.push(c.inbox[i].copied());
                    i = i + 1;
                    assert(c.inbox@.take(i as int) =~= c.inbox@.take(i - 1).push(
                        c.inbox@[i - 1],
                    ));
                }
                assert(c.inbox@.take(i as int) =~= c.inbox@);
            },
            None => {},
        }
        out
    }
}

proof fn lemma_over_link_frame(w: World, step: usize, m: SimMessage, p: PreparedSend)
    ensures
        over_link(w, step, m, p).0.ctx.neighbors == w.ctx.neighbors,
{
}

proof fn lemma_handled_grows(s: Sim, step: usize, actions: Seq<Option<IncomingEnvelopeAction>>)
    ensures
        handled(s, step, actions).client.inbox.len() >= s.client.inbox.len(),
    decreases actions.len(),
{
    if actions.len() > 0 {
        lemma_handled_grows(s, step, actions.drop_last());
    }
}

proof fn lemma_missed_grows(
    s: Sim,
    step: usize,
    hs: Seq<HistoricalMessage>,
    read: Map<Seq<char>, SimMessage>,
)
    ensures
        missed_all(s, step, hs, read).0.client.inbox.len() >= s.client.inbox.len(),
    decreases hs.len(),
{
    if hs.len() > 0 {
        lemma_missed_grows(s, step, hs.drop_last(), read);
    }
}

proof fn lemma_processed_grows(
    s: Sim,
    ps: Seq<PendingView>,
    step: usize,
    online: Map<Seq<char>, bool>,
    read: Map<Seq<char>, SimMessage>,
)
    ensures
        processed(s, ps, step, online, read).sim.client.inbox.len() >= s.client.inbox.len(),
    decreases ps.len(),
{
    if ps.len() > 0 {
        lemma_processed_grows(s, ps.drop_last(), step, online, read);
        let r = processed(s, ps.drop_last(), step, online, read);
        let p = ps.last();
        let acked = Sim {
            ctx: ContextView {
                tracker: TrackerView {
                    acks_received: sat_add(r.sim.ctx.tracker.acks_received, 1),
                    ..r.sim.ctx.tracker
                },
                ..r.sim.ctx
            },
            ..r.sim
        };
        let asked = Sim {
            ctx: ContextView {
                tracker: TrackerView {
                    missed_message_requests_sent: sat_add(
                        acked.ctx.tracker.missed_message_requests_sent,
                        1,
                    ),
                    ..acked.ctx.tracker
                },
                ..acked.ctx
            },
            ..acked
        };
        let since = last_seen_of(acked.client.last_seen, p.recipient);
        lemma_missed_grows(
            asked,
            step,
            history_of(acked.ctx.history, (p.recipient, p.sender)).filter(sent_since(since)),
            read,
        );
    }
}

// ---------------------------------------------------------------------------
// Progress
// ---------------------------------------------------------------------------

/// A window of latencies once those of `notes` have come in.
pub open spec fn rolled_all(window: Seq<usize>, size: usize, notes: Seq<DeliveryNote>) -> Seq<usize>
    decreases notes.len(),
{
    if notes.len() == 0 {
        window
    } else {
        rolled(rolled_all(window, size, notes.drop_last()), size, notes.last().latency)
    }
}

/// What happened since the last report, and the latencies of late.
pub struct Progress {
    pub sent_messages: usize,
    pub received_messages: usize,
    pub rolling_latency: RollingLatencyTracker,
}

impl Progress {
    /// A record that looks back on up to `window` latencies.
    pub fn new(window: usize) -> (r: Self)
        ensures
            r.sent_messages == 0,
            r.received_messages == 0,
            r.rolling_latency@ == Seq::<usize>::empty(),
            r.rolling_latency.size() == window,
    {
        Progress {
            sent_messages: 0,
            received_messages: 0,
            rolling_latency: RollingLatencyTracker::new(window),
        }
    }

    /// Starts the next report; the latencies stay.
    pub fn restart(&mut self)
        ensures
            final(self).sent_messages == 0,
            final(self).received_messages == 0,
            final(self).rolling_latency == old(self).rolling_latency,
    {
        self.sent_messages = 0;
        self.received_messages = 0;
    }

    /// Takes in that a message was sent, and its delivery where it was handed over.
    pub fn note_route(&mut self, outcome: &RouteOutcome)
        ensures
            final(self).sent_messages == sat_add(old(self).sent_messages, 1),
            final(self).received_messages == sat_add(
                old(self).received_messages,
                if outcome.note is Some {
                    1
                } else {
                    0
                },
            ),
            final(self).rolling_latency.size() == old(self).rolling_latency.size(),
            final(self).rolling_latency@ == (match outcome.note {
                Some(n) => rolled(
                    old(self).rolling_latency@,
                    old(self).rolling_latency.size(),
                    n.latency,
                ),
                None => old(self).rolling_latency@,
            }),
    {
        self.sent_messages = self.sent_messages.saturating_add(1);
        match &outcome.note {
            Some(n) => {
                self.received_messages = self.received_messages.saturating_add(1);
                self.rolling_latency.record(n.latency);
            },
            None => {},
        }
    }

    /// Takes in what came of an inbox.
    pub fn note_inbox(&mut self, outcome: &InboxOutcome)
        ensures
            final(self).sent_messages == old(self).sent_messages,
            final(self).received_messages == sat_add(
                old(self).received_messages,
                outcome.received as int,
            ),
            final(self).rolling_latency.size() == old(self).rolling_latency.size(),
            final(self).rolling_latency@ == rolled_all(
                old(self).rolling_latency@,
                old(self).rolling_latency.size(),
                outcome.notes@,
            ),
    {
        let ghost window = self.rolling_latency@;
        let ghost size = self.rolling_latency.size();
        let ghost notes = outcome.notes@;
        let sent: usize = self.sent_messages;
        self.received_messages = self.received_messages.saturating_add(outcome.received);
        let received: usize = self.received_messages;
        let mut i: usize = 0;
        proof {
            assert(notes.take(0) =~= Seq::empty());
        }
        while i < outcome.notes.len()
            invariant
                i <= notes.len(),
                notes == outcome.notes@,
                self.sent_messages == sent,
                self.received_messages == received,
                self.rolling_latency.size() == size,
                self.rolling_latency@ == rolled_all(window, size, notes.take(i as int)),
            decreases notes.len() - i,
        {
            proof {
                assert(notes.take(i + 1).drop_last() =~= notes.take(i as int));
                assert(notes.take(i + 1).last() == notes[i as int]);
            }
            self.rolling_latency.record(outcome.notes[i].latency);
            i = i + 1;
        }
        proof {
            assert(notes.take(i as int) =~= notes);
        }
    }

    /// Takes in what came of announcements; missed messages do not count for the latencies.
    pub fn note_pending(&mut self, outcome: &PendingOutcome)
        ensures
            final(self).sent_messages == old(self).sent_messages,
            final(self).received_messages == sat_add(
                old(self).received_messages,
                outcome.received as int,
            ),
            final(self).rolling_latency == old(self).rolling_latency,
    {
        self.received_messages = self.received_messages.saturating_add(outcome.received);
    }
}

// ---------------------------------------------------------------------------
// Laws
// ---------------------------------------------------------------------------

/// Whatever comes to a client, by whatever way, its inbox holds no message twice, and what it
/// has seen is what is there.
pub proof fn law_delivery_keeps_inbox(s: Sim, step: usize, m: SimMessage, kind: DeliveryKind)
    requires
        s.client.inbox_matches_seen(),
    ensures
        applied(s, step, m, kind).0.client.inbox_matches_seen(),
{
    crate::simulation::client::law_inbox_holds_what_was_seen(s.client, m);
}

/// Handling an inbox keeps inbox and seen messages in step.
pub proof fn law_inbox_handling_keeps_inbox(
    s: Sim,
    step: usize,
    actions: Seq<Option<IncomingEnvelopeAction>>,
)
    requires
        s.client.inbox_matches_seen(),
    ensures
        handled(s, step, actions).client.inbox_matches_seen(),
    decreases actions.len(),
{
    if actions.len() > 0 {
        law_inbox_handling_keeps_inbox(s, step, actions.drop_last());
        let t = handled(s, step, actions.drop_last());
        match actions.last() {
            Some(IncomingEnvelopeAction::DirectMessage(m)) => {
                law_delivery_keeps_inbox(t, step, m, DeliveryKind::Inbox);
            },
            _ => {},
        }
    }
}

/// Nothing that is kept for somebody is lost: what is not forwarded stays.
pub proof fn law_forwarding_loses_nothing(w: World, who: Seq<char>, online: Map<Seq<char>, bool>)
    requires
        w.clients.contains_key(who),
    ensures
        ({
            let before = w.clients[who].stored;
            let after = forwarded_by(w, who, online).clients[who].stored;
            let out = envelopes_from(w, who, online);
            &&& before.len() == after.len() + out.len()
            &&& forall|m: StoredForPeerMessage| #[trigger]
                before.contains(m) ==> after.contains(m) || out.contains(m.envelope)
        }),
{
    let before = w.clients[who].stored;
    let after = forwarded_by(w, who, online).clients[who].stored;
    let out = envelopes_from(w, who, online);
    if online.contains_key(w.clients[who].id) {
        lemma_split(before, online);
        let f = before.filter(wanted(online));
        assert forall|m: StoredForPeerMessage| #[trigger] before.contains(m) implies after.contains(
            m,
        ) || out.contains(m.envelope) by {
            let k = choose|k: int| 0 <= k < before.len() && before[k] == m;
            if online.contains_key(m.store_for_id@) {
                before.lemma_filter_contains(wanted(online), k);
                let i = choose|i: int| 0 <= i < f.len() && f[i] == m;
                assert(out[i] == m.envelope);
            } else {
                before.lemma_filter_contains(unwanted(online), k);
            }
        }
    }
}

proof fn lemma_split(s: Seq<StoredForPeerMessage>, online: Map<Seq<char>, bool>)
    ensures
        s.len() == s.filter(wanted(online)).len() + s.filter(unwanted(online)).len(),
    decreases s.len(),
{
    reveal(Seq::filter);
    if s.len() > 0 {
        lemma_split(s.drop_last(), online);
    }
}

} // verus!
