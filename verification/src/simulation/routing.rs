//! How simulated clients route messages: directly, by the relay, or by a storage peer.
use vstd::prelude::*;
use vstd::string::*;

use crate::keyed::KeyedMap;
use crate::protocol::MessageKind;
use crate::simulation::client::applied;
use crate::simulation::client::last_seen_of;
use crate::simulation::client::meta_views;
use crate::simulation::client::pending_views;
use crate::simulation::client::ClientView;
use crate::simulation::client::ContextView;
use crate::simulation::client::DeliveryKind;
use crate::simulation::client::IncomingEnvelopeAction;
use crate::simulation::client::MetaMessage;
use crate::simulation::client::MetaSend;
use crate::simulation::client::MetaSendView;
use crate::simulation::client::MetaView;
use crate::simulation::client::PendingOnlineBroadcast;
use crate::simulation::client::PendingView;
use crate::simulation::client::Sim;
use crate::simulation::client::SimContext;
use crate::simulation::client::SimulationClient;
use crate::simulation::client::StoredForPeerMessage;
use crate::simulation::message::HistoricalMessage;
use crate::simulation::message::SimEnvelope;
use crate::simulation::message::SimMessage;
use crate::simulation::metrics::sat_add;
use crate::simulation::metrics::SimulationMetrics;
use crate::simulation::tracker::forwarded_one;
use crate::simulation::tracker::sent_message;
use crate::simulation::tracker::DeliveryNote;
use crate::simulation::tracker::TrackerView;
use crate::text::contains;
use crate::text::copy_opt;
use crate::text::lemma_text_le_order;
use crate::text::not_after;
use crate::text::opt_text;
use crate::text::same;
use crate::text::text_le;

verus! {

// ---------------------------------------------------------------------------
// Storage peers
// ---------------------------------------------------------------------------

/// Whether `c` can keep messages of `sender` for `recipient`: a neighbour of both, and neither of
/// them.
pub open spec fn can_store(
    neighbors: Map<Seq<char>, Seq<Seq<char>>>,
    sender: Seq<char>,
    recipient: Seq<char>,
    c: Seq<char>,
) -> bool {
    &&& neighbors.contains_key(sender)
    &&& neighbors.contains_key(recipient)
    &&& neighbors[sender].contains(c)
    &&& neighbors[recipient].contains(c)
    &&& c != sender
    &&& c != recipient
}

/// Whether `c` is the first, by name, that can keep messages of `sender` for `recipient`.
pub open spec fn is_storage_peer(
    neighbors: Map<Seq<char>, Seq<Seq<char>>>,
    sender: Seq<char>,
    recipient: Seq<char>,
    c: Seq<char>,
) -> bool {
    &&& can_store(neighbors, sender, recipient, c)
    &&& forall|d: Seq<char>| #[trigger]
        can_store(neighbors, sender, recipient, d) ==> text_le(c, d)
}

/// The peer that keeps messages of `sender` for `recipient`, if there is one.
pub open spec fn storage_peer(
    neighbors: Map<Seq<char>, Seq<Seq<char>>>,
    sender: Seq<char>,
    recipient: Seq<char>,
) -> Option<Seq<char>> {
    if exists|c: Seq<char>| is_storage_peer(neighbors, sender, recipient, c) {
        Some(choose|c: Seq<char>| is_storage_peer(neighbors, sender, recipient, c))
    } else {
        None
    }
}

/// There is at most one storage peer.
pub proof fn lemma_storage_peer(
    neighbors: Map<Seq<char>, Seq<Seq<char>>>,
    sender: Seq<char>,
    recipient: Seq<char>,
    c: Seq<char>,
)
    requires
        is_storage_peer(neighbors, sender, recipient, c),
    ensures
        storage_peer(neighbors, sender, recipient) == Some(c),
{
    let d = choose|d: Seq<char>| is_storage_peer(neighbors, sender, recipient, d);
    assert(is_storage_peer(neighbors, sender, recipient, d));
    assert(text_le(c, d) && text_le(d, c));
    lemma_text_le_order(c, d, d);
}

/// Selects the peer that keeps messages of `sender` for `recipient`: the first by name of those
/// that neighbour both.
pub fn select_storage_peer(sender: &str, recipient: &str, ctx: &SimContext) -> (r: Option<String>)
    requires
        ctx.wf(),
    ensures
        opt_text(r) == storage_peer(ctx@.neighbors, sender@, recipient@),
        r is None ==> forall|d: Seq<char>| !#[trigger]
            can_store(ctx@.neighbors, sender@, recipient@, d),
{
    let ghost n = ctx@.neighbors;
    let ours = match ctx.neighbors.get(&sender.to_owned()) {
        Some(x) => x,
        None => {
            return None;
        },
    };
    let theirs = match ctx.neighbors.get(&recipient.to_owned()) {
        Some(x) => x,
        None => {
            return None;
        },
    };
    let mut best: Option<String> = None;
    let mut i: usize = 0;
    while i < theirs.list.len()
        invariant
            i <= theirs.list@.len(),
            n.contains_key(sender@),
            n.contains_key(recipient@),
            ours@ == n[sender@],
            theirs@ == n[recipient@],
            match best {
                Some(b) => {
                    &&& can_store(n, sender@, recipient@, b@)
                    &&& forall|j: int|
                        0 <= j < i && can_store(n, sender@, recipient@, #[trigger] theirs@[j])
                            ==> text_le(b@, theirs@[j])
                },
                None => forall|j: int|
                    0 <= j < i ==> !can_store(n, sender@, recipient@, #[trigger] theirs@[j]),
            },
        decreases theirs.list@.len() - i,
    {
        let c = &theirs.list[i];
        assert(theirs@[i as int] == c@);
        if contains(&ours.list, c.as_str()) && !same(c.as_str(), sender) && !same(
            c.as_str(),
            recipient,
        ) {
            assert(theirs@.contains(c@));
            let better = match &best {
                Some(b) => !not_after(b.as_str(), c.as_str()),
                None => true,
            };
            if better {
                proof {
                    match opt_text(best) {
                        Some(b) => {
                            lemma_text_le_order(b, c@, c@);
                            assert forall|j: int|
                                0 <= j < i && can_store(
                                    n,
                                    sender@,
                                    recipient@,
                                    #[trigger] theirs@[j],
                                ) implies text_le(c@, theirs@[j]) by {
                                lemma_text_le_order(c@, b, theirs@[j]);
                            }
                        },
                        None => {},
                    }
                    lemma_text_le_order(c@, c@, c@);
                }
                best = Some(c.clone());
            }
        }
        i = i + 1;
    }
    proof {
        match opt_text(best) {
            Some(b) => {
                assert forall|d: Seq<char>| #[trigger]
                    can_store(n, sender@, recipient@, d) implies text_le(b, d) by {
                    let j = choose|j: int| 0 <= j < theirs@.len() && theirs@[j] == d;
                    assert(can_store(n, sender@, recipient@, theirs@[j]));
                }
                lemma_storage_peer(n, sender@, recipient@, b);
            },
            None => {
                assert forall|d: Seq<char>| !#[trigger] can_store(n, sender@, recipient@, d) by {
                    if can_store(n, sender@, recipient@, d) {
                        let j = choose|j: int| 0 <= j < theirs@.len() && theirs@[j] == d;
                        assert(!can_store(n, sender@, recipient@, theirs@[j]));
                    }
                }
            },
        }
    }
    best
}

// ---------------------------------------------------------------------------
// Sending
// ---------------------------------------------------------------------------

/// What was prepared for a message to be sent: the envelope, what the recipient makes of it, and
/// the envelope by which a storage peer would keep it. Each is absent where preparing it failed
/// or was not needed.
pub struct PreparedSend {
    pub envelope: Option<SimEnvelope>,
    pub decoded: Option<SimMessage>,
    pub stored: Option<SimEnvelope>,
}

/// What has been sent from one peer to another.
pub open spec fn history_of(
    m: Map<(Seq<char>, Seq<char>), Seq<HistoricalMessage>>,
    key: (Seq<char>, Seq<char>),
) -> Seq<HistoricalMessage> {
    if m.contains_key(key) {
        m[key]
    } else {
        Seq::empty()
    }
}

/// The shared state once the sending of a message has been noted.
pub open spec fn noted_send(c: ContextView, m: SimMessage, step: usize, e: SimEnvelope) -> ContextView {
    let key = (m.sender@, m.recipient@);
    ContextView {
        send_steps: c.send_steps.insert(m.id@, step),
        history: c.history.insert(
            key,
            history_of(c.history, key).push(HistoricalMessage { send_step: step, envelope: e }),
        ),
        ..c
    }
}

/// Whether a message goes by a storage peer: its recipient is offline, there is a storage peer,
/// and the envelope for it could be prepared.
pub open spec fn goes_by_storage(
    c: ContextView,
    m: SimMessage,
    p: PreparedSend,
    online: Map<Seq<char>, bool>,
) -> bool {
    !online.contains_key(m.recipient@) && storage_peer(c.neighbors, m.sender@, m.recipient@) is Some
        && p.stored is Some
}

/// Whether a message goes directly: direct links are in use, there is one, and the recipient is
/// online.
pub open spec fn goes_directly(c: ContextView, m: SimMessage, online: Map<Seq<char>, bool>) -> bool {
    c.direct_enabled && c.links.contains_key((m.sender@, m.recipient@)) && online.contains_key(
        m.recipient@,
    )
}

/// The envelope that is posted for a message.
pub open spec fn posted(
    c: ContextView,
    m: SimMessage,
    p: PreparedSend,
    online: Map<Seq<char>, bool>,
) -> SimEnvelope {
    if goes_by_storage(c, m, p, online) {
        p.stored->0
    } else {
        p.envelope->0
    }
}

/// The shared state once one message has been sent.
pub open spec fn sent_one(
    c: ContextView,
    step: usize,
    m: SimMessage,
    p: PreparedSend,
    online: Map<Seq<char>, bool>,
) -> ContextView {
    if p.envelope is None {
        c
    } else {
        let e = posted(c, m, p, online);
        let c1 = noted_send(c, m, step, p.envelope->0);
        ContextView {
            tracker: sent_message(
                c1.tracker,
                m.id@,
                m.sender@,
                m.recipient@,
                step,
                e.message_kind,
                e.payload_size,
            ),
            ..c1
        }
    }
}

/// The shared state once the messages `ms` have been sent in turn.
pub open spec fn all_sent(
    c: ContextView,
    step: usize,
    ms: Seq<SimMessage>,
    ps: Seq<PreparedSend>,
    online: Map<Seq<char>, bool>,
) -> ContextView
    decreases ms.len(),
{
    if ms.len() == 0 {
        c
    } else {
        let n = ms.len() - 1;
        sent_one(all_sent(c, step, ms.drop_last(), ps, online), step, ms[n], ps[n], online)
    }
}

/// The envelopes posted for the messages `ms`. Neighbours and links do not change on the way.
pub open spec fn all_posted(
    c: ContextView,
    ms: Seq<SimMessage>,
    ps: Seq<PreparedSend>,
    online: Map<Seq<char>, bool>,
) -> Seq<SimEnvelope>
    decreases ms.len(),
{
    if ms.len() == 0 {
        Seq::empty()
    } else {
        let n = ms.len() - 1;
        let before = all_posted(c, ms.drop_last(), ps, online);
        if ps[n].envelope is Some {
            before.push(posted(c, ms[n], ps[n], online))
        } else {
            before
        }
    }
}

/// The messages that go directly.
pub open spec fn all_direct(
    c: ContextView,
    ms: Seq<SimMessage>,
    ps: Seq<PreparedSend>,
    online: Map<Seq<char>, bool>,
) -> Seq<SimMessage>
    decreases ms.len(),
{
    if ms.len() == 0 {
        Seq::empty()
    } else {
        let n = ms.len() - 1;
        let before = all_direct(c, ms.drop_last(), ps, online);
        if ps[n].envelope is Some && goes_directly(c, ms[n], online) && ps[n].decoded is Some {
            before.push(ps[n].decoded->0)
        } else {
            before
        }
    }
}

proof fn lemma_all_sent_frame(
    c: ContextView,
    step: usize,
    ms: Seq<SimMessage>,
    ps: Seq<PreparedSend>,
    online: Map<Seq<char>, bool>,
)
    ensures
        ({
            let d = all_sent(c, step, ms, ps, online);
            d.neighbors == c.neighbors && d.links == c.links && d.direct_enabled
                == c.direct_enabled
        }),
    decreases ms.len(),
{
    if ms.len() > 0 {
        lemma_all_sent_frame(c, step, ms.drop_last(), ps, online);
    }
}

/// Notes the sending of a message.
pub fn record_message_send(
    message: &SimMessage,
    step: usize,
    envelope: &SimEnvelope,
    ctx: &mut SimContext,
)
    requires
        old(ctx).wf(),
    ensures
        final(ctx).wf(),
        final(ctx)@ == noted_send(old(ctx)@, *message, step, *envelope),
{
    let ghost before = ctx@;
    ctx.message_send_steps.insert(message.id.clone(), step);
    let key = (message.sender.clone(), message.recipient.clone());
    let mut history: Vec<HistoricalMessage> = match ctx.message_history.remove(&key) {
        Some(h) => h,
        None => Vec::new(),
    };
    history.push(HistoricalMessage { send_step: step, envelope: envelope.copied() });
    ctx.message_history.insert(key, history);
    proof {
        assert(ctx@.history =~= noted_send(before, *message, step, *envelope).history);
    }
}

/// What comes of sending messages.
pub struct ClientSendOutcome {
    pub envelopes: Vec<SimEnvelope>,
    pub direct_deliveries: Vec<SimMessage>,
}

/// Sends messages, given what was prepared for each: posts them to the relay or to a storage
/// peer, and hands over those that go directly.
pub fn enqueue_sends(
    step: usize,
    messages: &Vec<SimMessage>,
    prepared: &Vec<PreparedSend>,
    online: &KeyedMap<String, bool>,
    ctx: &mut SimContext,
) -> (r: ClientSendOutcome)
    requires
        old(ctx).wf(),
        online.wf(),
        messages@.len() == prepared@.len(),
    ensures
        final(ctx).wf(),
        final(ctx)@ == all_sent(old(ctx)@, step, messages@, prepared@, online@),
        r.envelopes@ == all_posted(old(ctx)@, messages@, prepared@, online@),
        r.direct_deliveries@ == all_direct(old(ctx)@, messages@, prepared@, online@),
{
    let ghost c = ctx@;
    let ghost ms = messages@;
    let ghost ps = prepared@;
    let mut envelopes: Vec<SimEnvelope> = Vec::new();
    let mut direct_deliveries: Vec<SimMessage> = Vec::new();
    let mut i: usize = 0;
    proof {
        assert(ms.take(0) =~= Seq::empty());
    }
    while i < messages.len()
        invariant
            i <= ms.len(),
            ms == messages@,
            ps == prepared@,
            ms.len() == ps.len(),
            online.wf(),
            ctx.wf(),
            ctx@ == all_sent(c, step, ms.take(i as int), ps, online@),
            envelopes@ == all_posted(c, ms.take(i as int), ps, online@),
            direct_deliveries@ == all_direct(c, ms.take(i as int), ps, online@),
        decreases ms.len() - i,
    {
        let message = &messages[i];
        let p = &prepared[i];
        proof {
            assert(ms.take(i + 1).drop_last() =~= ms.take(i as int));
            assert(ms.take(i + 1)[i as int] == ms[i as int]);
            lemma_all_sent_frame(c, step, ms.take(i as int), ps, online@);
        }
        match &p.envelope {
            None => {},
            Some(envelope) => {
                record_message_send(message, step, envelope, ctx);
                let recipient_online = online.contains_key(&message.recipient);
                if ctx.direct_enabled && recipient_online && ctx.direct_links.contains_key(
                    &(message.sender.clone(), message.recipient.clone()),
                ) {
                    match &p.decoded {
                        Some(m) => {
                            direct_deliveries.push(m.copied());
                        },
                        None => {},
                    }
                }
                let mut by_storage = false;
                if !recipient_online {
                    let storage = select_storage_peer(
                        message.sender.as_str(),
                        message.recipient.as_str(),
                        ctx,
                    );
                    by_storage = storage.is_some() && p.stored.is_some();
                }
                if by_storage {
                    match &p.stored {
                        Some(e) => {
                            ctx.tracker.record_send(message, step, e);
                            envelopes.push(e.copied());
                        },
                        None => {},
                    }
                } else {
                    ctx.tracker.record_send(message, step, envelope);
                    envelopes.push(envelope.copied());
                }
            },
        }
        i = i + 1;
    }
    proof {
        assert(ms.take(i as int) =~= ms);
    }
    ClientSendOutcome { envelopes, direct_deliveries }
}

// ---------------------------------------------------------------------------
// Incoming envelopes
// ---------------------------------------------------------------------------

/// Decides what an envelope is to the client `me`. `body` is what the payload of a direct message
/// reads, `inner` the envelope inside one that is to be stored; both are absent where they could
/// not be read.
pub fn decode_envelope_action(
    me: &str,
    envelope: &SimEnvelope,
    signature_valid: bool,
    body: Option<String>,
    inner: Option<SimEnvelope>,
) -> (r: Option<IncomingEnvelopeAction>)
    ensures
        match r {
            Some(IncomingEnvelopeAction::DirectMessage(m)) => {
                &&& signature_valid && envelope.message_kind == MessageKind::Direct && body is Some
                &&& m == (SimMessage {
                    id: envelope.message_id,
                    sender: envelope.sender_id,
                    recipient: envelope.recipient_id,
                    body: body->0,
                    payload: envelope.payload,
                    message_kind: MessageKind::Direct,
                    group_id: envelope.group_id,
                })
            },
            Some(IncomingEnvelopeAction::StoredForPeer(s)) => {
                &&& signature_valid && envelope.message_kind == MessageKind::StoreForPeer
                &&& envelope.store_for == Some(s.store_for_id)
                &&& opt_text(envelope.storage_peer_id) == Some(me@)
                &&& inner == Some(s.envelope)
            },
            None => !signature_valid || (match envelope.message_kind {
                MessageKind::Direct => body is None,
                MessageKind::StoreForPeer => envelope.store_for is None || opt_text(
                    envelope.storage_peer_id,
                ) != Some(me@) || inner is None,
                _ => true,
            }),
        },
{
    if !signature_valid {
        return None;
    }
    match envelope.message_kind {
        MessageKind::Direct => match body {
            Some(b) => Some(
                IncomingEnvelopeAction::DirectMessage(
                    SimMessage {
                        id: envelope.message_id.clone(),
                        sender: envelope.sender_id.clone(),
                        recipient: envelope.recipient_id.clone(),
                        body: b,
                        payload: envelope.payload.clone(),
                        message_kind: MessageKind::Direct,
                        group_id: copy_opt(&envelope.group_id),
                    },
                ),
            ),
            None => None,
        },
        MessageKind::StoreForPeer => {
            let mine = match &envelope.storage_peer_id {
                Some(p) => same(p.as_str(), me),
                None => false,
            };
            if !mine {
                return None;
            }
            match (&envelope.store_for, inner) {
                (Some(id), Some(e)) => Some(
                    IncomingEnvelopeAction::StoredForPeer(
                        StoredForPeerMessage { store_for_id: id.clone(), envelope: e },
                    ),
                ),
                _ => None,
            }
        },
        _ => None,
    }
}

// ---------------------------------------------------------------------------
// Missed messages
// ---------------------------------------------------------------------------

pub open spec fn sent_since(last_seen: u64) -> spec_fn(HistoricalMessage) -> bool {
    |h: HistoricalMessage| h.send_step as u64 >= last_seen
}

/// What becomes of a missed message: it is taken in if it could be read.
pub open spec fn missed_one(
    s: Sim,
    step: usize,
    h: HistoricalMessage,
    read: Map<Seq<char>, SimMessage>,
) -> (Sim, Option<DeliveryNote>) {
    if read.contains_key(h.envelope.message_id@) {
        applied(s, step, read[h.envelope.message_id@], DeliveryKind::Missed)
    } else {
        (s, None)
    }
}

/// What becomes of missed messages, one after the other.
pub open spec fn missed_all(
    s: Sim,
    step: usize,
    hs: Seq<HistoricalMessage>,
    read: Map<Seq<char>, SimMessage>,
) -> (Sim, Seq<DeliveryNote>)
    decreases hs.len(),
{
    if hs.len() == 0 {
        (s, Seq::empty())
    } else {
        let (t, notes) = missed_all(s, step, hs.drop_last(), read);
        let (u, note) = missed_one(t, step, hs.last(), read);
        (
            u,
            match note {
                Some(n) => notes.push(n),
                None => notes,
            },
        )
    }
}

/// What becomes of the client `requester` when it asks `responder` for what it missed.
pub open spec fn requested(
    s: Sim,
    step: usize,
    requester: Seq<char>,
    responder: Seq<char>,
    read: Map<Seq<char>, SimMessage>,
) -> (Sim, Seq<DeliveryNote>) {
    let since = last_seen_of(s.client.last_seen, responder);
    let s1 = Sim {
        ctx: ContextView {
            tracker: TrackerView {
                missed_message_requests_sent: sat_add(
                    s.ctx.tracker.missed_message_requests_sent,
                    1,
                ),
                ..s.ctx.tracker
            },
            ..s.ctx
        },
        ..s
    };
    missed_all(
        s1,
        step,
        history_of(s.ctx.history, (responder, requester)).filter(sent_since(since)),
        read,
    )
}

/// The requests and acknowledgements that an announcement brings about once its recipient is
/// online.
pub open spec fn exchange(p: PendingView, last_seen: u64) -> Seq<MetaSendView> {
    seq![
        MetaSendView {
            sender: p.recipient,
            recipient: p.sender,
            meta: MetaView::Ack(p.recipient, p.sent_step as u64),
        },
        MetaSendView {
            sender: p.sender,
            recipient: p.recipient,
            meta: MetaView::MessageRequest(p.recipient, last_seen),
        },
    ]
}

/// What comes of announcements that wait to be acknowledged.
pub struct Processed {
    pub sim: Sim,
    pub remaining: Seq<PendingView>,
    pub sends: Seq<MetaSendView>,
    pub notes: Seq<DeliveryNote>,
}

/// What comes of one more announcement: it is dropped once it has expired, answered if its
/// recipient is online, and kept otherwise.
pub open spec fn processed_one(
    r: Processed,
    p: PendingView,
    step: usize,
    online: Map<Seq<char>, bool>,
    read: Map<Seq<char>, SimMessage>,
) -> Processed {
    if step > p.expires_at {
        r
    } else if online.contains_key(p.recipient) {
        let acked = Sim {
            ctx: ContextView {
                tracker: TrackerView {
                    acks_received: sat_add(r.sim.ctx.tracker.acks_received, 1),
                    ..r.sim.ctx.tracker
                },
                ..r.sim.ctx
            },
            ..r.sim
        };
        let (sim, notes) = requested(acked, step, p.sender, p.recipient, read);
        Processed {
            sim,
            sends: r.sends + exchange(p, last_seen_of(r.sim.client.last_seen, p.recipient)),
            notes: r.notes + notes,
            ..r
        }
    } else {
        Processed { remaining: r.remaining.push(p), ..r }
    }
}

/// What comes of the announcements `ps`, one after the other.
pub open spec fn processed(
    s: Sim,
    ps: Seq<PendingView>,
    step: usize,
    online: Map<Seq<char>, bool>,
    read: Map<Seq<char>, SimMessage>,
) -> Processed
    decreases ps.len(),
{
    if ps.len() == 0 {
        Processed { sim: s, remaining: Seq::empty(), sends: Seq::empty(), notes: Seq::empty() }
    } else {
        processed_one(processed(s, ps.drop_last(), step, online, read), ps.last(), step, online, read)
    }
}

/// What comes of processing announcements.
pub struct ClientBroadcastOutcome {
    pub sends: Vec<MetaSend>,
    /// What the deliveries of missed messages tell.
    pub notes: Vec<DeliveryNote>,
}

/// Asks `responder` for what the client missed, and takes in what could be read.
fn handle_message_request(
    client: &mut SimulationClient,
    requester: &String,
    responder: &String,
    step: usize,
    ctx: &mut SimContext,
    read: &KeyedMap<String, SimMessage>,
) -> (r: Vec<DeliveryNote>)
    requires
        old(client).wf(),
        old(ctx).wf(),
        read.wf(),
    ensures
        final(client).wf(),
        final(ctx).wf(),
        ({
            let s = Sim { client: old(client)@, ctx: old(ctx)@ };
            let (t, n) = requested(s, step, requester@, responder@, read@);
            final(client)@ == t.client && final(ctx)@ == t.ctx && r@ == n
        }),
{
    let last_seen: u64 = client.last_seen_for(responder.as_str());
    ctx.tracker.record_missed_message_request();
    let ghost s1 = Sim { client: client@, ctx: ctx@ };
    let ghost all = history_of(ctx@.history, (responder@, requester@));
    let mut entries: Vec<HistoricalMessage> = Vec::new();
    match ctx.message_history.get(&(responder.clone(), requester.clone())) {
        None => {
            proof {
                reveal(Seq::filter);
                assert(all.filter(sent_since(last_seen)) =~= Seq::empty());
            }
        },
        Some(history) => {
            let mut i: usize = 0;
            proof {
                reveal(Seq::filter);
                assert(all.take(0) =~= Seq::empty());
            }
            while i < history.len()
                invariant
                    i <= history@.len(),
                    history@ == all,
                    entries@ == all.take(i as int).filter(sent_since(last_seen)),
                decreases history@.len() - i,
            {
                proof {
                    reveal(Seq::filter);
                    assert(all.take(i + 1).drop_last() =~= all.take(i as int));
                    assert(all.take(i + 1).last() == all[i as int]);
                }
                if history[i].send_step as u64 >= last_seen {
                    entries.push(history[i].copied());
                }
                i = i + 1;
            }
            proof {
                assert(all.take(i as int) =~= all);
            }
        },
    }
    let ghost hs = entries@;
    assert(hs == all.filter(sent_since(last_seen)));
    let mut notes: Vec<DeliveryNote> = Vec::new();
    let mut k: usize = 0;
    proof {
        assert(hs.take(0) =~= Seq::empty());
    }
    while k < entries.len()
        invariant
            k <= entries@.len(),
            hs == entries@,
            client.wf(),
            ctx.wf(),
            read.wf(),
            missed_all(s1, step, hs.take(k as int), read@).0 == (Sim {
                client: client@,
                ctx: ctx@,
            }),
            notes@ == missed_all(s1, step, hs.take(k as int), read@).1,
        decreases entries@.len() - k,
    {
        proof {
            assert(hs.take(k + 1).drop_last() =~= hs.take(k as int));
            assert(hs.take(k + 1).last() == hs[k as int]);
        }
        match read.get(&entries[k].envelope.message_id) {
            Some(m) => {
                match client.apply_delivery(step, m.copied(), ctx, DeliveryKind::Missed) {
                    Some(note) => {
                        notes.push(note);
                    },
                    None => {},
                }
            },
            None => {},
        }
        k = k + 1;
    }
    proof {
        assert(hs.take(k as int) =~= hs);
    }
    notes
}

/// Processes the client's announcements that wait to be acknowledged. `read` holds, by message
/// id, what the messages sent to the client read, where they could be read.
pub fn process_pending_online_broadcasts(
    client: &mut SimulationClient,
    step: usize,
    online: &KeyedMap<String, bool>,
    ctx: &mut SimContext,
    read: &KeyedMap<String, SimMessage>,
) -> (r: ClientBroadcastOutcome)
    requires
        old(client).wf(),
        old(ctx).wf(),
        online.wf(),
        read.wf(),
    ensures
        final(client).wf(),
        final(ctx).wf(),
        ({
            let s = Sim {
                client: ClientView { pending: Seq::empty(), ..old(client)@ },
                ctx: old(ctx)@,
            };
            let p = processed(s, old(client)@.pending, step, online@, read@);
            &&& final(client)@ == (ClientView { pending: p.remaining, ..p.sim.client })
            &&& final(ctx)@ == p.sim.ctx
            &&& meta_views(r.sends@) == p.sends
            &&& r.notes@ == p.notes
        }),
{
    let ghost ps = client@.pending;
    let mut pending: Vec<PendingOnlineBroadcast> = Vec::new();
    pending.append(&mut client.pending_online_broadcasts);
    let ghost s = Sim { client: ClientView { pending: Seq::empty(), ..client@ }, ctx: ctx@ };
    proof {
        assert(pending_views(pending@) =~= ps);
        assert(client@.pending =~= Seq::empty());
        assert(ps.take(0) =~= Seq::empty());
    }
    let mut remaining: Vec<PendingOnlineBroadcast> = Vec::new();
    let mut sends: Vec<MetaSend> = Vec::new();
    let mut notes: Vec<DeliveryNote> = Vec::new();
    let mut i: usize = 0;
    proof {
        assert(pending_views(remaining@) =~= Seq::empty());
        assert(meta_views(sends@) =~= Seq::empty());
    }
    while i < pending.len()
        invariant
            i <= pending@.len(),
            pending_views(pending@) == ps,
            online.wf(),
            read.wf(),
            client.wf(),
            ctx.wf(),
            ({
                let p = processed(s, ps.take(i as int), step, online@, read@);
                &&& p.sim == (Sim { client: client@, ctx: ctx@ })
                &&& p.remaining == pending_views(remaining@)
                &&& p.sends == meta_views(sends@)
                &&& p.notes == notes@
            }),
        decreases pending@.len() - i,
    {
        let b = &pending[i];
        proof {
            assert(ps.take(i + 1).drop_last() =~= ps.take(i as int));
            assert(ps.take(i + 1).last() == ps[i as int]);
            assert(ps[i as int] == b@);
        }
        if step > b.expires_at {
        } else if online.contains_key(&b.recipient_id) {
            let ghost prior = meta_views(sends@);
            let last_seen: u64 = client.last_seen_for(b.recipient_id.as_str());
            ctx.tracker.record_ack();
            let mut more = handle_message_request(
                client,
                &b.sender_id,
                &b.recipient_id,
                step,
                ctx,
                read,
            );
            notes.append(&mut more);
            sends.push(
                MetaSend {
                    sender_id: b.recipient_id.clone(),
                    recipient_id: b.sender_id.clone(),
                    meta: MetaMessage::Ack {
                        peer_id: b.recipient_id.clone(),
                        online_timestamp: b.sent_step as u64,
                    },
                },
            );
            sends.push(
                MetaSend {
                    sender_id: b.sender_id.clone(),
                    recipient_id: b.recipient_id.clone(),
                    meta: MetaMessage::MessageRequest {
                        peer_id: b.recipient_id.clone(),
                        since_timestamp: last_seen,
                    },
                },
            );
            proof {
                assert(meta_views(sends@) =~= prior + exchange(b@, last_seen));
            }
        } else {
            let ghost prior = pending_views(remaining@);
            remaining.push(
                PendingOnlineBroadcast {
                    sender_id: b.sender_id.clone(),
                    recipient_id: b.recipient_id.clone(),
                    sent_step: b.sent_step,
                    expires_at: b.expires_at,
                },
            );
            proof {
                assert(pending_views(remaining@) =~= prior.push(b@));
            }
        }
        i = i + 1;
    }
    proof {
        assert(ps.take(i as int) =~= ps);
    }
    client.pending_online_broadcasts = remaining;
    ClientBroadcastOutcome { sends, notes }
}

// ---------------------------------------------------------------------------
// Forwarding
// ---------------------------------------------------------------------------

pub open spec fn wanted(online: Map<Seq<char>, bool>) -> spec_fn(StoredForPeerMessage) -> bool {
    |m: StoredForPeerMessage| online.contains_key(m.store_for_id@)
}

pub open spec fn unwanted(online: Map<Seq<char>, bool>) -> spec_fn(StoredForPeerMessage) -> bool {
    |m: StoredForPeerMessage| !online.contains_key(m.store_for_id@)
}

/// The shared state once `me` has forwarded `n` stored envelopes.
pub open spec fn forwarded_all(c: ContextView, me: Seq<char>, es: Seq<StoredForPeerMessage>) -> ContextView
    decreases es.len(),
{
    if es.len() == 0 {
        c
    } else {
        let d = forwarded_all(c, me, es.drop_last());
        ContextView {
            forwarded: d.forwarded.insert(es.last().envelope.message_id@, true),
            metrics: SimulationMetrics {
                store_forwards_forwarded: sat_add(d.metrics.store_forwards_forwarded, 1),
                ..d.metrics
            },
            tracker: forwarded_one(d.tracker, me),
            ..d
        }
    }
}

/// Forwards the envelopes that the client keeps for peers that are online now. A client that is
/// itself offline forwards nothing.
pub fn forward_store_forwards(
    client: &mut SimulationClient,
    online: &KeyedMap<String, bool>,
    ctx: &mut SimContext,
) -> (r: Vec<SimEnvelope>)
    requires
        old(client).wf(),
        old(ctx).wf(),
        online.wf(),
    ensures
        final(client).wf(),
        final(ctx).wf(),
        if online@.contains_key(old(client)@.id) {
            let out = old(client)@.stored.filter(wanted(online@));
            &&& r@ == out.map_values(|m: StoredForPeerMessage| m.envelope)
            &&& final(client)@ == (ClientView {
                stored: old(client)@.stored.filter(unwanted(online@)),
                ..old(client)@
            })
            &&& final(ctx)@ == forwarded_all(old(ctx)@, old(client)@.id, out)
        } else {
            r@ == Seq::<SimEnvelope>::empty() && final(client)@ == old(client)@ && final(ctx)@
                == old(ctx)@
        },
{
    if !online.contains_key(&client.id) {
        return Vec::new();
    }
    let ghost c0 = client@;
    let ghost x0 = ctx@;
    let ghost all = client@.stored;
    let ghost pick = |m: StoredForPeerMessage| m.envelope;
    let mut stored: Vec<StoredForPeerMessage> = Vec::new();
    stored.append(&mut client.stored_forwards);
    let mut forwarded: Vec<SimEnvelope> = Vec::new();
    let mut remaining: Vec<StoredForPeerMessage> = Vec::new();
    let mut i: usize = 0;
    proof {
        assert(stored@ =~= all);
        reveal(Seq::filter);
        assert(all.take(0) =~= Seq::empty());
        assert(all.take(0).filter(wanted(online@)).map_values(pick) =~= Seq::empty());
    }
    while i < stored.len()
        invariant
            i <= stored@.len(),
            stored@ == all,
            online.wf(),
            client.wf(),
            ctx.wf(),
            client@.id == c0.id,
            client@ == (ClientView { stored: Seq::empty(), ..c0 }),
            pick == (|m: StoredForPeerMessage| m.envelope),
            forwarded@ == all.take(i as int).filter(wanted(online@)).map_values(pick),
            remaining@ == all.take(i as int).filter(unwanted(online@)),
            ctx@ == forwarded_all(x0, c0.id, all.take(i as int).filter(wanted(online@))),
        decreases stored@.len() - i,
    {
        let entry = &stored[i];
        proof {
            reveal(Seq::filter);
            assert(all.take(i + 1).drop_last() =~= all.take(i as int));
            assert(all.take(i + 1).last() == *entry);
        }
        if online.contains_key(&entry.store_for_id) {
            ctx.pending_forwarded_messages.insert(entry.envelope.message_id.clone(), true);
            ctx.metrics.store_forwards_forwarded =
                ctx.metrics.store_forwards_forwarded.saturating_add(1);
            ctx.tracker.record_store_forward_forwarded(client.id.as_str());
            forwarded.push(entry.envelope.copied());
            proof {
                let f = all.take(i as int).filter(wanted(online@));
                assert(f.push(*entry).drop_last() =~= f);
                assert(f.push(*entry).map_values(pick) =~= f.map_values(pick).push(
                    entry.envelope,
                ));
            }
        } else {
            remaining.push(entry.copied());
        }
        i = i + 1;
    }
    proof {
        assert(all.take(i as int) =~= all);
    }
    client.stored_forwards = remaining;
    forwarded
}

} // verus!
