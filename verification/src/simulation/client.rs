//! A simulated client: its inbox, what it has seen, and what it keeps for others.
use vstd::prelude::*;
use vstd::string::*;

use crate::keyed::KeyedMap;
use crate::simulation::message::HistoricalMessage;
use crate::simulation::message::SimEnvelope;
use crate::simulation::message::SimMessage;
use crate::simulation::metrics::sat_add;
use crate::simulation::metrics::SimulationMetrics;
use crate::simulation::tracker::counts_as_delivery;
use crate::simulation::tracker::delivered_message;
use crate::simulation::tracker::delivery_note;
use crate::simulation::tracker::DeliveryNote;
use crate::simulation::tracker::MetricsTracker;
use crate::simulation::tracker::TrackerView;
use crate::text::copy_all;
use crate::text::texts;

verus! {

/// How many steps an announcement waits to be acknowledged.
pub const SIMULATION_ACK_WINDOW_STEPS: usize = 10;

/// A list of names.
pub struct Names {
    pub list: Vec<String>,
}

impl View for Names {
    type V = Seq<Seq<char>>;

    open spec fn view(&self) -> Seq<Seq<char>> {
        texts(self.list@)
    }
}

/// An envelope that a storage peer keeps for somebody.
pub struct StoredForPeerMessage {
    pub store_for_id: String,
    pub envelope: SimEnvelope,
}

impl StoredForPeerMessage {
    /// A second record with the same contents.
    pub fn copied(&self) -> (r: Self)
        ensures
            r == *self,
    {
        StoredForPeerMessage {
            store_for_id: self.store_for_id.clone(),
            envelope: self.envelope.copied(),
        }
    }
}

/// An announcement that has not been acknowledged yet.
pub struct PendingOnlineBroadcast {
    pub sender_id: String,
    pub recipient_id: String,
    pub sent_step: usize,
    pub expires_at: usize,
}

/// An announcement that has not been acknowledged yet, by name.
pub struct PendingView {
    pub sender: Seq<char>,
    pub recipient: Seq<char>,
    pub sent_step: usize,
    pub expires_at: usize,
}

impl View for PendingOnlineBroadcast {
    type V = PendingView;

    open spec fn view(&self) -> PendingView {
        PendingView {
            sender: self.sender_id@,
            recipient: self.recipient_id@,
            sent_step: self.sent_step,
            expires_at: self.expires_at,
        }
    }
}

pub open spec fn pending_views(s: Seq<PendingOnlineBroadcast>) -> Seq<PendingView> {
    s.map_values(|p: PendingOnlineBroadcast| p@)
}

/// What the clients of a simulation share.
pub struct SimContext {
    pub direct_enabled: bool,
    pub direct_links: KeyedMap<(String, String), bool>,
    pub neighbors: KeyedMap<String, Names>,
    pub message_history: KeyedMap<(String, String), Vec<HistoricalMessage>>,
    pub message_send_steps: KeyedMap<String, usize>,
    pub pending_forwarded_messages: KeyedMap<String, bool>,
    pub metrics: SimulationMetrics,
    pub tracker: MetricsTracker,
}

/// What the clients of a simulation share, as mathematical maps.
pub struct ContextView {
    pub direct_enabled: bool,
    pub links: Map<(Seq<char>, Seq<char>), bool>,
    pub neighbors: Map<Seq<char>, Seq<Seq<char>>>,
    pub history: Map<(Seq<char>, Seq<char>), Seq<HistoricalMessage>>,
    pub send_steps: Map<Seq<char>, usize>,
    pub forwarded: Map<Seq<char>, bool>,
    pub metrics: SimulationMetrics,
    pub tracker: TrackerView,
}

impl View for SimContext {
    type V = ContextView;

    open spec fn view(&self) -> ContextView {
        ContextView {
            direct_enabled: self.direct_enabled,
            links: self.direct_links@,
            neighbors: self.neighbors@,
            history: self.message_history@,
            send_steps: self.message_send_steps@,
            forwarded: self.pending_forwarded_messages@,
            metrics: self.metrics,
            tracker: self.tracker@,
        }
    }
}

impl SimContext {
    pub open spec fn wf(&self) -> bool {
        &&& self.direct_links.wf()
        &&& self.neighbors.wf()
        &&& self.message_history.wf()
        &&& self.message_send_steps.wf()
        &&& self.pending_forwarded_messages.wf()
        &&& self.tracker.wf()
    }
}

/// A simulated client.
pub struct SimulationClient {
    pub id: String,
    pub schedule: Vec<bool>,
    pub inbox: Vec<SimMessage>,
    pub seen: KeyedMap<String, bool>,
    pub last_seen_by_peer: KeyedMap<String, u64>,
    pub pending_online_broadcasts: Vec<PendingOnlineBroadcast>,
    pub stored_forwards: Vec<StoredForPeerMessage>,
}

/// What a client holds.
pub struct ClientView {
    pub id: Seq<char>,
    pub schedule: Seq<bool>,
    pub inbox: Seq<SimMessage>,
    pub seen: Map<Seq<char>, bool>,
    pub last_seen: Map<Seq<char>, u64>,
    pub pending: Seq<PendingView>,
    pub stored: Seq<StoredForPeerMessage>,
}

impl View for SimulationClient {
    type V = ClientView;

    open spec fn view(&self) -> ClientView {
        ClientView {
            id: self.id@,
            schedule: self.schedule@,
            inbox: self.inbox@,
            seen: self.seen@,
            last_seen: self.last_seen_by_peer@,
            pending: pending_views(self.pending_online_broadcasts@),
            stored: self.stored_forwards@,
        }
    }
}

impl ClientView {
    /// The client has seen exactly what is in its inbox, and nothing is there twice.
    pub open spec fn inbox_matches_seen(&self) -> bool {
        &&& forall|id: Seq<char>| #[trigger]
            self.seen.contains_key(id) <==> exists|i: int|
                0 <= i < self.inbox.len() && (#[trigger] self.inbox[i]).id@ == id
        &&& forall|i: int, j: int|
            0 <= i < j < self.inbox.len() ==> (#[trigger] self.inbox[i]).id@ != (
            #[trigger] self.inbox[j]).id@
    }
}

// ---------------------------------------------------------------------------
// Receiving
// ---------------------------------------------------------------------------

/// A client once it has been handed a message: it keeps what it has not seen.
pub open spec fn received(c: ClientView, m: SimMessage) -> ClientView {
    if c.seen.contains_key(m.id@) {
        c
    } else {
        ClientView { seen: c.seen.insert(m.id@, true), inbox: c.inbox.push(m), ..c }
    }
}

/// How a message comes to a client.
#[derive(Clone, Copy, Debug, PartialEq, Eq, Structural)]
pub enum DeliveryKind {
    Direct,
    Inbox,
    Missed,
    /// Over a direct link, while the message is still being routed; the total is left to the
    /// router.
    Link,
}

/// A client and what it shares with the others.
pub struct Sim {
    pub client: ClientView,
    pub ctx: ContextView,
}

/// The totals once a message has come in a given way.
pub open spec fn counted_delivery(m: SimulationMetrics, kind: DeliveryKind) -> SimulationMetrics {
    match kind {
        DeliveryKind::Direct => SimulationMetrics {
            direct_deliveries: sat_add(m.direct_deliveries, 1),
            ..m
        },
        DeliveryKind::Inbox => SimulationMetrics {
            inbox_deliveries: sat_add(m.inbox_deliveries, 1),
            ..m
        },
        DeliveryKind::Missed => m,
        DeliveryKind::Link => m,
    }
}

/// The last step at which the client has seen something of `peer`.
pub open spec fn last_seen_of(m: Map<Seq<char>, u64>, peer: Seq<char>) -> u64 {
    if m.contains_key(peer) {
        m[peer]
    } else {
        0
    }
}

/// What the client knows of the sender of a message once it has it.
pub open spec fn seen_from(
    last_seen: Map<Seq<char>, u64>,
    send_steps: Map<Seq<char>, usize>,
    sender: Seq<char>,
    id: Seq<char>,
) -> Map<Seq<char>, u64> {
    if send_steps.contains_key(id) {
        let known = last_seen_of(last_seen, sender);
        let sent = send_steps[id] as u64;
        last_seen.insert(
            sender,
            if known >= sent {
                known
            } else {
                sent
            },
        )
    } else {
        last_seen
    }
}

/// What becomes of a message that the client has not seen.
pub open spec fn accepted(s: Sim, step: usize, m: SimMessage, kind: DeliveryKind) -> (
    Sim,
    Option<DeliveryNote>,
) {
    let id = m.id@;
    let me = s.client.id;
    let t0 = if kind == DeliveryKind::Missed {
        TrackerView {
            missed_message_deliveries: sat_add(s.ctx.tracker.missed_message_deliveries, 1),
            ..s.ctx.tracker
        }
    } else {
        s.ctx.tracker
    };
    let was_forwarded = s.ctx.forwarded.contains_key(id);
    let m0 = counted_delivery(s.ctx.metrics, kind);
    let m1 = if was_forwarded {
        SimulationMetrics {
            store_forwards_delivered: sat_add(m0.store_forwards_delivered, 1),
            ..m0
        }
    } else {
        m0
    };
    let t1 = if was_forwarded {
        TrackerView {
            store_forwards_delivered: sat_add(t0.store_forwards_delivered, 1),
            ..t0
        }
    } else {
        t0
    };
    let counts = counts_as_delivery(t1, id, me);
    let t2 = if counts {
        delivered_message(t1, id, me, step)
    } else {
        t1
    };
    let c1 = received(s.client, m);
    (
        Sim {
            client: ClientView {
                last_seen: seen_from(c1.last_seen, s.ctx.send_steps, m.sender@, id),
                ..c1
            },
            ctx: ContextView {
                forwarded: s.ctx.forwarded.remove(id),
                metrics: m1,
                tracker: t2,
                ..s.ctx
            },
        },
        if counts {
            Some(delivery_note(t1, id, me, step))
        } else {
            None
        },
    )
}

/// What becomes of a message that comes to a client: nothing where it has seen it already.
pub open spec fn applied(s: Sim, step: usize, m: SimMessage, kind: DeliveryKind) -> (
    Sim,
    Option<DeliveryNote>,
) {
    if s.client.seen.contains_key(m.id@) {
        (s, None)
    } else {
        accepted(s, step, m, kind)
    }
}

/// What a client finds in an envelope.
pub enum IncomingEnvelopeAction {
    DirectMessage(SimMessage),
    StoredForPeer(StoredForPeerMessage),
}

/// What becomes of one envelope of an inbox.
pub open spec fn handled_one(s: Sim, step: usize, a: Option<IncomingEnvelopeAction>) -> (
    Sim,
    Option<DeliveryNote>,
) {
    match a {
        Some(IncomingEnvelopeAction::DirectMessage(m)) => applied(s, step, m, DeliveryKind::Inbox),
        Some(IncomingEnvelopeAction::StoredForPeer(e)) => (
            Sim {
                client: ClientView { stored: s.client.stored.push(e), ..s.client },
                ctx: ContextView {
                    metrics: SimulationMetrics {
                        store_forwards_stored: sat_add(s.ctx.metrics.store_forwards_stored, 1),
                        ..s.ctx.metrics
                    },
                    tracker: TrackerView {
                        store_forwards_stored: sat_add(s.ctx.tracker.store_forwards_stored, 1),
                        ..s.ctx.tracker
                    },
                    ..s.ctx
                },
            },
            None,
        ),
        None => (s, None),
    }
}

/// What becomes of the envelopes of an inbox, one after the other.
pub open spec fn handled(s: Sim, step: usize, actions: Seq<Option<IncomingEnvelopeAction>>) -> Sim
    decreases actions.len(),
{
    if actions.len() == 0 {
        s
    } else {
        handled_one(handled(s, step, actions.drop_last()), step, actions.last()).0
    }
}

/// What the deliveries among the envelopes of an inbox tell, in order.
pub open spec fn handled_notes(
    s: Sim,
    step: usize,
    actions: Seq<Option<IncomingEnvelopeAction>>,
) -> Seq<DeliveryNote>
    decreases actions.len(),
{
    if actions.len() == 0 {
        Seq::empty()
    } else {
        let before = handled_notes(s, step, actions.drop_last());
        match handled_one(handled(s, step, actions.drop_last()), step, actions.last()).1 {
            Some(n) => before.push(n),
            None => before,
        }
    }
}

// ---------------------------------------------------------------------------
// Meta messages
// ---------------------------------------------------------------------------

/// What clients tell each other about themselves.
pub enum MetaMessage {
    Online { peer_id: String, timestamp: u64 },
    Ack { peer_id: String, online_timestamp: u64 },
    MessageRequest { peer_id: String, since_timestamp: u64 },
}

/// A meta message to be sent.
pub struct MetaSend {
    pub sender_id: String,
    pub recipient_id: String,
    pub meta: MetaMessage,
}

/// What a meta message says, by name.
pub enum MetaView {
    Online(Seq<char>, u64),
    Ack(Seq<char>, u64),
    MessageRequest(Seq<char>, u64),
}

/// A meta message to be sent, by name.
pub struct MetaSendView {
    pub sender: Seq<char>,
    pub recipient: Seq<char>,
    pub meta: MetaView,
}

impl View for MetaSend {
    type V = MetaSendView;

    open spec fn view(&self) -> MetaSendView {
        MetaSendView {
            sender: self.sender_id@,
            recipient: self.recipient_id@,
            meta: match self.meta {
                MetaMessage::Online { peer_id, timestamp } => MetaView::Online(peer_id@, timestamp),
                MetaMessage::Ack { peer_id, online_timestamp } => MetaView::Ack(
                    peer_id@,
                    online_timestamp,
                ),
                MetaMessage::MessageRequest { peer_id, since_timestamp } => MetaView::MessageRequest(
                    peer_id@,
                    since_timestamp,
                ),
            },
        }
    }
}

pub open spec fn meta_views(s: Seq<MetaSend>) -> Seq<MetaSendView> {
    s.map_values(|m: MetaSend| m@)
}

/// The neighbours of `peer`; none where it has no entry.
pub open spec fn neighbors_of(m: Map<Seq<char>, Seq<Seq<char>>>, peer: Seq<char>) -> Seq<Seq<char>> {
    if m.contains_key(peer) {
        m[peer]
    } else {
        Seq::empty()
    }
}

/// The announcements of a client to its neighbours at `step`.
pub open spec fn announcements(me: Seq<char>, to: Seq<Seq<char>>, step: usize) -> Seq<MetaSendView> {
    to.map_values(
        |p: Seq<char>|
            MetaSendView { sender: me, recipient: p, meta: MetaView::Online(me, step as u64) },
    )
}

/// The announcements of a client that wait to be acknowledged.
pub open spec fn awaited(me: Seq<char>, to: Seq<Seq<char>>, step: usize) -> Seq<PendingView> {
    to.map_values(
        |p: Seq<char>|
            PendingView {
                sender: me,
                recipient: p,
                sent_step: step,
                expires_at: sat_add(step, SIMULATION_ACK_WINDOW_STEPS as int),
            },
    )
}

// ---------------------------------------------------------------------------
// The code
// ---------------------------------------------------------------------------

impl SimulationClient {
    pub open spec fn wf(&self) -> bool {
        &&& self.seen.wf()
        &&& self.last_seen_by_peer.wf()
    }

    pub fn new(id: &str, schedule: Vec<bool>) -> (r: Self)
        ensures
            r.wf(),
            r@ == (ClientView {
                id: id@,
                schedule: schedule@,
                inbox: Seq::empty(),
                seen: Map::empty(),
                last_seen: Map::empty(),
                pending: Seq::empty(),
                stored: Seq::empty(),
            }),
            r@.inbox_matches_seen(),
    {
        let r = SimulationClient {
            id: id.to_owned(),
            schedule,
            inbox: Vec::new(),
            seen: KeyedMap::new(),
            last_seen_by_peer: KeyedMap::new(),
            pending_online_broadcasts: Vec::new(),
            stored_forwards: Vec::new(),
        };
        proof {
            assert(r@.pending =~= Seq::empty());
        }
        r
    }

    /// Whether the client is online at a step; never beyond its schedule.
    pub fn online_at(&self, step: usize) -> (r: bool)
        ensures
            r == (step < self@.schedule.len() && self@.schedule[step as int]),
    {
        step < self.schedule.len() && self.schedule[step]
    }

    /// Keeps a message that has not been seen, and says whether it was new.
    pub fn receive_message(&mut self, message: SimMessage) -> (r: bool)
        requires
            old(self).wf(),
        ensures
            final(self).wf(),
            r == !old(self)@.seen.contains_key(message.id@),
            final(self)@ == received(old(self)@, message),
    {
        if self.seen.contains_key(&message.id) {
            return false;
        }
        self.seen.insert(message.id.clone(), true);
        self.inbox.push(message);
        true
    }

    /// The last step at which the client has seen something of a peer.
    pub fn last_seen_for(&self, sender_id: &str) -> (r: u64)
        requires
            self.wf(),
        ensures
            r == last_seen_of(self@.last_seen, sender_id@),
    {
        match self.last_seen_by_peer.get(&sender_id.to_owned()) {
            Some(t) => *t,
            None => 0,
        }
    }

    fn update_last_seen(&mut self, sender_id: &str, message_id: &String, ctx: &SimContext)
        requires
            old(self).wf(),
            ctx.wf(),
        ensures
            final(self).wf(),
            final(self)@ == (ClientView {
                last_seen: seen_from(
                    old(self)@.last_seen,
                    ctx@.send_steps,
                    sender_id@,
                    message_id@,
                ),
                ..old(self)@
            }),
    {
        match ctx.message_send_steps.get(message_id) {
            None => {},
            Some(step) => {
                let sent: u64 = *step as u64;
                let known: u64 = self.last_seen_for(sender_id);
                self.last_seen_by_peer.insert(
                    sender_id.to_owned(),
                    if known >= sent {
                        known
                    } else {
                        sent
                    },
                );
            },
        }
    }

    /// Takes in a message, and says what its delivery tells.
    pub fn apply_delivery(
        &mut self,
        step: usize,
        message: SimMessage,
        ctx: &mut SimContext,
        kind: DeliveryKind,
    ) -> (r: Option<DeliveryNote>)
        requires
            old(self).wf(),
            old(ctx).wf(),
        ensures
            final(self).wf(),
            final(ctx).wf(),
            ({
                let s = Sim { client: old(self)@, ctx: old(ctx)@ };
                let (t, n) = applied(s, step, message, kind);
                final(self)@ == t.client && final(ctx)@ == t.ctx && r == n
            }),
    {
        let ghost c0 = ctx@;
        let id = message.id.clone();
        let sender = message.sender.clone();
        if !self.receive_message(message) {
            return None;
        }
        match kind {
            DeliveryKind::Direct => {
                ctx.metrics.direct_deliveries = ctx.metrics.direct_deliveries.saturating_add(1);
            },
            DeliveryKind::Inbox => {
                ctx.metrics.inbox_deliveries = ctx.metrics.inbox_deliveries.saturating_add(1);
            },
            DeliveryKind::Missed => {
                ctx.tracker.record_missed_message_delivery();
            },
            DeliveryKind::Link => {},
        }
        let forwarded = ctx.pending_forwarded_messages.remove(&id).is_some();
        if forwarded {
            ctx.metrics.store_forwards_delivered =
                ctx.metrics.store_forwards_delivered.saturating_add(1);
            ctx.tracker.record_store_forward_delivery();
        }
        let note = ctx.tracker.record_delivery(id.as_str(), self.id.as_str(), step);
        self.update_last_seen(sender.as_str(), &id, ctx);
        note
    }

    /// Takes in a message that came directly.
    pub fn handle_direct_delivery(&mut self, step: usize, message: SimMessage, ctx: &mut SimContext)
        -> (r: Option<DeliveryNote>)
        requires
            old(self).wf(),
            old(ctx).wf(),
        ensures
            final(self).wf(),
            final(ctx).wf(),
            ({
                let s = Sim { client: old(self)@, ctx: old(ctx)@ };
                let (t, n) = applied(s, step, message, DeliveryKind::Direct);
                final(self)@ == t.client && final(ctx)@ == t.ctx && r == n
            }),
    {
        self.apply_delivery(step, message, ctx, DeliveryKind::Direct)
    }

    /// Keeps an envelope for somebody else.
    pub fn store_forward_message(&mut self, message: StoredForPeerMessage, ctx: &mut SimContext)
        requires
            old(self).wf(),
            old(ctx).wf(),
        ensures
            final(self).wf(),
            final(ctx).wf(),
            ({
                let s = Sim { client: old(self)@, ctx: old(ctx)@ };
                let t = handled_one(
                    s,
                    0,
                    Some(IncomingEnvelopeAction::StoredForPeer(message)),
                ).0;
                final(self)@ == t.client && final(ctx)@ == t.ctx
            }),
    {
        self.stored_forwards.push(message);
        ctx.metrics.store_forwards_stored = ctx.metrics.store_forwards_stored.saturating_add(1);
        ctx.tracker.record_store_forward_stored();
    }

    /// Handles the envelopes of an inbox, given what was found in each, and says what the
    /// deliveries among them tell.
    pub fn handle_inbox(
        &mut self,
        step: usize,
        actions: &Vec<Option<IncomingEnvelopeAction>>,
        ctx: &mut SimContext,
    ) -> (r: Vec<DeliveryNote>)
        requires
            old(self).wf(),
            old(ctx).wf(),
        ensures
            final(self).wf(),
            final(ctx).wf(),
            ({
                let s = Sim { client: old(self)@, ctx: old(ctx)@ };
                let t = handled(s, step, actions@);
                final(self)@ == t.client && final(ctx)@ == t.ctx && r@ == handled_notes(
                    s,
                    step,
                    actions@,
                )
            }),
    {
        let ghost s = Sim { client: self@, ctx: ctx@ };
        let mut notes: Vec<DeliveryNote> = Vec::new();
        let mut i: usize = 0;
        proof {
            assert(actions@.take(0) =~= Seq::empty());
        }
        while i < actions.len()
            invariant
                i <= actions@.len(),
                self.wf(),
                ctx.wf(),
                self@ == handled(s, step, actions@.take(i as int)).client,
                ctx@ == handled(s, step, actions@.take(i as int)).ctx,
                notes@ == handled_notes(s, step, actions@.take(i as int)),
            decreases actions@.len() - i,
        {
            proof {
                assert(actions@.take(i + 1).drop_last() =~= actions@.take(i as int));
                assert(actions@.take(i + 1).last() == actions@[i as int]);
                let t = handled(s, step, actions@.take(i as int));
                assert(t == (Sim { client: self@, ctx: ctx@ }));
            }
            match &actions[i] {
                Some(IncomingEnvelopeAction::DirectMessage(m)) => {
                    match self.apply_delivery(step, m.copied(), ctx, DeliveryKind::Inbox) {
                        Some(note) => {
                            notes.push(note);
                        },
                        None => {},
                    }
                },
                Some(IncomingEnvelopeAction::StoredForPeer(e)) => {
                    self.store_forward_message(e.copied(), ctx);
                },
                None => {},
            }
            i = i + 1;
        }
        proof {
            assert(actions@.take(i as int) =~= actions@);
        }
        notes
    }

    /// Announces to all neighbours that the client is online.
    pub fn announce_online(&mut self, step: usize, ctx: &mut SimContext) -> (r: Vec<MetaSend>)
        requires
            old(self).wf(),
            old(ctx).wf(),
        ensures
            final(self).wf(),
            final(ctx).wf(),
            ({
                let to = neighbors_of(old(ctx)@.neighbors, old(self)@.id);
                &&& meta_views(r@) == announcements(old(self)@.id, to, step)
                &&& final(self)@ == (ClientView {
                    pending: old(self)@.pending + awaited(old(self)@.id, to, step),
                    ..old(self)@
                })
                &&& final(ctx)@ == (ContextView {
                    tracker: TrackerView {
                        online_broadcasts_sent: sat_add(
                            old(ctx)@.tracker.online_broadcasts_sent,
                            to.len() as int,
                        ),
                        ..old(ctx)@.tracker
                    },
                    ..old(ctx)@
                })
            }),
    {
        let ghost c0 = self@;
        let ghost x0 = ctx@;
        let ghost me = self@.id;
        let ghost to = neighbors_of(ctx@.neighbors, me);
        let neighbors: Vec<String> = match ctx.neighbors.get(&self.id) {
            Some(n) => copy_all(&n.list),
            None => Vec::new(),
        };
        proof {
            assert(texts(neighbors@) =~= to);
            assert(announcements(me, to, step).take(0) =~= Seq::empty());
            assert(awaited(me, to, step).take(0) =~= Seq::empty());
            assert(c0.pending + Seq::<PendingView>::empty() =~= c0.pending);
        }
        let mut sends: Vec<MetaSend> = Vec::new();
        let mut i: usize = 0;
        proof {
            assert(meta_views(sends@) =~= Seq::empty());
        }
        while i < neighbors.len()
            invariant
                i <= neighbors@.len(),
                texts(neighbors@) == to,
                self.wf(),
                ctx.wf(),
                c0.id == me,
                meta_views(sends@) == announcements(me, to, step).take(i as int),
                self@ == (ClientView {
                    pending: c0.pending + awaited(me, to, step).take(i as int),
                    ..c0
                }),
                ctx@ == (ContextView {
                    tracker: TrackerView {
                        online_broadcasts_sent: sat_add(x0.tracker.online_broadcasts_sent, i as int),
                        ..x0.tracker
                    },
                    ..x0
                }),
            decreases neighbors@.len() - i,
        {
            let ghost prior = meta_views(sends@);
            let ghost waiting = self@.pending;
            assert(to[i as int] == neighbors@[i as int]@);
            sends.push(
                MetaSend {
                    sender_id: self.id.clone(),
                    recipient_id: neighbors[i].clone(),
                    meta: MetaMessage::Online { peer_id: self.id.clone(), timestamp: step as u64 },
                },
            );
            self.pending_online_broadcasts.push(
                PendingOnlineBroadcast {
                    sender_id: self.id.clone(),
                    recipient_id: neighbors[i].clone(),
                    sent_step: step,
                    expires_at: step.saturating_add(SIMULATION_ACK_WINDOW_STEPS),
                },
            );
            ctx.tracker.record_online_broadcast();
            proof {
                let a = announcements(me, to, step);
                let w = awaited(me, to, step);
                assert(a.take(i + 1) =~= a.take(i as int).push(a[i as int]));
                assert(meta_views(sends@) =~= prior.push(a[i as int]));
                assert(w.take(i + 1) =~= w.take(i as int).push(w[i as int]));
                assert(self@.pending =~= waiting.push(w[i as int]));
                assert(c0.pending + w.take(i + 1) =~= (c0.pending + w.take(i as int)).push(
                    w[i as int],
                ));
            }
            i = i + 1;
        }
        proof {
            assert(announcements(me, to, step).take(i as int) =~= announcements(me, to, step));
            assert(awaited(me, to, step).take(i as int) =~= awaited(me, to, step));
        }
        sends
    }
}

/// A client that is handed the same message twice keeps it once.
pub proof fn law_receiving_twice_is_receiving_once(c: ClientView, m: SimMessage)
    ensures
        received(received(c, m), m) == received(c, m),
        received(c, m).seen.contains_key(m.id@),
{
}

/// What a client has seen is what is in its inbox, each once; receiving keeps it so.
pub proof fn law_inbox_holds_what_was_seen(c: ClientView, m: SimMessage)
    requires
        c.inbox_matches_seen(),
    ensures
        received(c, m).inbox_matches_seen(),
{
    let d = received(c, m);
    if !c.seen.contains_key(m.id@) {
        assert forall|id: Seq<char>| #[trigger] d.seen.contains_key(id) <==> exists|i: int|
            0 <= i < d.inbox.len() && (#[trigger] d.inbox[i]).id@ == id by {
            if d.seen.contains_key(id) {
                if id == m.id@ {
                    assert(d.inbox[c.inbox.len() as int].id@ == id);
                } else {
                    assert(c.seen.contains_key(id));
                    let i = choose|i: int|
                        0 <= i < c.inbox.len() && (#[trigger] c.inbox[i]).id@ == id;
                    assert(d.inbox[i].id@ == id);
                }
            }
            if exists|i: int| 0 <= i < d.inbox.len() && (#[trigger] d.inbox[i]).id@ == id {
                let i = choose|i: int| 0 <= i < d.inbox.len() && (#[trigger] d.inbox[i]).id@ == id;
                if i < c.inbox.len() {
                    assert(c.inbox[i].id@ == id);
                    assert(c.seen.contains_key(id));
                }
            }
        }
        assert forall|i: int, j: int| 0 <= i < j < d.inbox.len() implies (
        #[trigger] d.inbox[i]).id@ != (#[trigger] d.inbox[j]).id@ by {
            assert(c.inbox[i].id@ == d.inbox[i].id@);
            if j < c.inbox.len() {
                assert(c.inbox[i].id@ != c.inbox[j].id@);
            } else {
                assert(c.seen.contains_key(c.inbox[i].id@));
            }
        }
    }
}

} // verus!
