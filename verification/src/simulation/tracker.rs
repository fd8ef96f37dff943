//! The tracker of sends and deliveries.
use vstd::prelude::*;
use vstd::string::*;

use crate::keyed::KeyedMap;
use crate::protocol::MessageKind;
use crate::simulation::message::SimEnvelope;
use crate::simulation::message::SimMessage;
use crate::simulation::metrics::count_at;
use crate::simulation::metrics::lagged;
use crate::simulation::metrics::no_kind_sizes;
use crate::simulation::metrics::no_kinds;
use crate::simulation::metrics::no_latencies;
use crate::simulation::metrics::sat_add;
use crate::simulation::metrics::sized;
use crate::simulation::metrics::summary_of;
use crate::simulation::metrics::CountSummary;
use crate::simulation::metrics::KindCounts;
use crate::simulation::metrics::KindSizes;
use crate::simulation::metrics::LatencyStats;
use crate::simulation::metrics::LatencyView;
use crate::simulation::metrics::SenderRecipientCount;
use crate::simulation::metrics::SizeStats;
use crate::sorting::lemma_rearranged;
use crate::sorting::lemma_rearranged_distinct;
use crate::sorting::sort;
use crate::sorting::sorted;
use crate::text::contains;
use crate::text::texts;

verus! {

/// How far a message has come.
pub struct MessageTracking {
    pub send_step: usize,
    pub recipients: Vec<String>,
    pub delivered_recipients: Vec<String>,
    pub first_delivery_recorded: bool,
    pub all_delivery_recorded: bool,
}

/// How far a message has come, by name.
pub struct TrackingView {
    pub send_step: usize,
    pub recipients: Seq<Seq<char>>,
    pub delivered: Seq<Seq<char>>,
    pub first: bool,
    pub all: bool,
}

impl View for MessageTracking {
    type V = TrackingView;

    open spec fn view(&self) -> TrackingView {
        TrackingView {
            send_step: self.send_step,
            recipients: texts(self.recipients@),
            delivered: texts(self.delivered_recipients@),
            first: self.first_delivery_recorded,
            all: self.all_delivery_recorded,
        }
    }
}

/// The tracker of sends and deliveries. Counts stop at the largest number that fits.
pub struct MetricsTracker {
    pub per_sender_recipient_counts: KeyedMap<(String, String), usize>,
    pub first_delivery_latency: LatencyStats,
    pub all_recipients_delivery_latency: LatencyStats,
    pub first_delivery_latency_seconds: LatencyStats,
    pub all_recipients_delivery_latency_seconds: LatencyStats,
    pub messages: KeyedMap<String, MessageTracking>,
    pub per_peer_sent_by_kind: KeyedMap<String, KindCounts>,
    pub per_peer_store_forwarded: KeyedMap<String, usize>,
    pub message_sizes_by_kind: KindSizes,
    pub online_broadcasts_sent: usize,
    pub acks_received: usize,
    pub missed_message_requests_sent: usize,
    pub missed_message_deliveries: usize,
    pub store_forwards_stored: usize,
    pub store_forwards_forwarded: usize,
    pub store_forwards_delivered: usize,
}

/// What a tracker holds.
pub struct TrackerView {
    pub counts: Map<(Seq<char>, Seq<char>), usize>,
    pub first_latency: LatencyView,
    pub all_latency: LatencyView,
    pub first_latency_seconds: LatencyView,
    pub all_latency_seconds: LatencyView,
    pub messages: Map<Seq<char>, TrackingView>,
    pub sent_by_kind: Map<Seq<char>, KindCounts>,
    pub forwarded: Map<Seq<char>, usize>,
    pub sizes: KindSizes,
    pub online_broadcasts_sent: usize,
    pub acks_received: usize,
    pub missed_message_requests_sent: usize,
    pub missed_message_deliveries: usize,
    pub store_forwards_stored: usize,
    pub store_forwards_forwarded: usize,
    pub store_forwards_delivered: usize,
}

impl View for MetricsTracker {
    type V = TrackerView;

    open spec fn view(&self) -> TrackerView {
        TrackerView {
            counts: self.per_sender_recipient_counts@,
            first_latency: self.first_delivery_latency@,
            all_latency: self.all_recipients_delivery_latency@,
            first_latency_seconds: self.first_delivery_latency_seconds@,
            all_latency_seconds: self.all_recipients_delivery_latency_seconds@,
            messages: self.messages@,
            sent_by_kind: self.per_peer_sent_by_kind@,
            forwarded: self.per_peer_store_forwarded@,
            sizes: self.message_sizes_by_kind,
            online_broadcasts_sent: self.online_broadcasts_sent,
            acks_received: self.acks_received,
            missed_message_requests_sent: self.missed_message_requests_sent,
            missed_message_deliveries: self.missed_message_deliveries,
            store_forwards_stored: self.store_forwards_stored,
            store_forwards_forwarded: self.store_forwards_forwarded,
            store_forwards_delivered: self.store_forwards_delivered,
        }
    }
}

/// A tracker of nothing.
pub open spec fn fresh_tracker() -> TrackerView {
    TrackerView {
        counts: Map::empty(),
        first_latency: no_latencies(),
        all_latency: no_latencies(),
        first_latency_seconds: no_latencies(),
        all_latency_seconds: no_latencies(),
        messages: Map::empty(),
        sent_by_kind: Map::empty(),
        forwarded: Map::empty(),
        sizes: no_kind_sizes(),
        online_broadcasts_sent: 0,
        acks_received: 0,
        missed_message_requests_sent: 0,
        missed_message_deliveries: 0,
        store_forwards_stored: 0,
        store_forwards_forwarded: 0,
        store_forwards_delivered: 0,
    }
}

/// The kinds counted for `peer`.
pub open spec fn kinds_of(m: Map<Seq<char>, KindCounts>, peer: Seq<char>) -> KindCounts {
    if m.contains_key(peer) {
        m[peer]
    } else {
        no_kinds()
    }
}

/// The tracker once `sender` has sent an envelope of a kind and size.
pub open spec fn counted_send(
    t: TrackerView,
    sender: Seq<char>,
    kind: MessageKind,
    size: u64,
) -> TrackerView {
    let k = kinds_of(t.sent_by_kind, sender);
    TrackerView {
        sent_by_kind: t.sent_by_kind.insert(sender, k.with(kind, sat_add(k.of(kind), 1))),
        sizes: t.sizes.with(kind, sized(t.sizes.of(kind), size)),
        ..t
    }
}

/// The tracker once a message has been sent at `step` in an envelope of a kind and size. A
/// message that was sent before keeps its first step.
pub open spec fn sent_message(
    t: TrackerView,
    id: Seq<char>,
    sender: Seq<char>,
    recipient: Seq<char>,
    step: usize,
    kind: MessageKind,
    size: u64,
) -> TrackerView {
    let pair = (sender, recipient);
    counted_send(
        TrackerView {
            counts: t.counts.insert(pair, sat_add(count_at(t.counts, pair), 1)),
            messages: if t.messages.contains_key(id) {
                t.messages
            } else {
                t.messages.insert(
                    id,
                    TrackingView {
                        send_step: step,
                        recipients: seq![recipient],
                        delivered: Seq::empty(),
                        first: false,
                        all: false,
                    },
                )
            },
            ..t
        },
        sender,
        kind,
        size,
    )
}

/// What a delivery tells.
#[derive(Clone, Copy, Debug, PartialEq, Eq, Structural)]
pub struct DeliveryNote {
    /// Steps since the message was sent.
    pub latency: usize,
    /// Whether this was the first delivery of the message.
    pub first: bool,
    /// Whether with this delivery the message has reached all its recipients.
    pub all: bool,
}

/// Whether a delivery of message `id` to `recipient` counts: the message is known, meant for the
/// recipient, and has not reached it before.
pub open spec fn counts_as_delivery(t: TrackerView, id: Seq<char>, recipient: Seq<char>) -> bool {
    t.messages.contains_key(id) && t.messages[id].recipients.contains(recipient)
        && !t.messages[id].delivered.contains(recipient)
}

/// What a delivery at `step` tells.
pub open spec fn delivery_note(
    t: TrackerView,
    id: Seq<char>,
    recipient: Seq<char>,
    step: usize,
) -> DeliveryNote {
    let m = t.messages[id];
    DeliveryNote {
        latency: if step >= m.send_step {
            (step - m.send_step) as usize
        } else {
            0
        },
        first: !m.first,
        all: m.delivered.len() + 1 == m.recipients.len() && !m.all,
    }
}

/// The tracker once a delivery at `step` has been entered.
pub open spec fn delivered_message(
    t: TrackerView,
    id: Seq<char>,
    recipient: Seq<char>,
    step: usize,
) -> TrackerView {
    let m = t.messages[id];
    let note = delivery_note(t, id, recipient, step);
    TrackerView {
        messages: t.messages.insert(
            id,
            TrackingView {
                delivered: m.delivered.push(recipient),
                first: true,
                all: m.all || note.all,
                ..m
            },
        ),
        first_latency: if note.first {
            lagged(t.first_latency, note.latency)
        } else {
            t.first_latency
        },
        all_latency: if note.all {
            lagged(t.all_latency, note.latency)
        } else {
            t.all_latency
        },
        ..t
    }
}

impl MetricsTracker {
    pub open spec fn wf(&self) -> bool {
        &&& self.per_sender_recipient_counts.wf()
        &&& self.first_delivery_latency.counts.wf()
        &&& self.all_recipients_delivery_latency.counts.wf()
        &&& self.first_delivery_latency_seconds.counts.wf()
        &&& self.all_recipients_delivery_latency_seconds.counts.wf()
        &&& self.messages.wf()
        &&& self.per_peer_sent_by_kind.wf()
        &&& self.per_peer_store_forwarded.wf()
    }

    pub fn new() -> (r: Self)
        ensures
            r.wf(),
            r@ == fresh_tracker(),
    {
        MetricsTracker {
            per_sender_recipient_counts: KeyedMap::new(),
            first_delivery_latency: LatencyStats::empty(),
            all_recipients_delivery_latency: LatencyStats::empty(),
            first_delivery_latency_seconds: LatencyStats::empty(),
            all_recipients_delivery_latency_seconds: LatencyStats::empty(),
            messages: KeyedMap::new(),
            per_peer_sent_by_kind: KeyedMap::new(),
            per_peer_store_forwarded: KeyedMap::new(),
            message_sizes_by_kind: KindSizes {
                public: SizeStats::empty(),
                meta: SizeStats::empty(),
                direct: SizeStats::empty(),
                friend_group: SizeStats::empty(),
                store_for_peer: SizeStats::empty(),
            },
            online_broadcasts_sent: 0,
            acks_received: 0,
            missed_message_requests_sent: 0,
            missed_message_deliveries: 0,
            store_forwards_stored: 0,
            store_forwards_forwarded: 0,
            store_forwards_delivered: 0,
        }
    }

    /// Enters an envelope of the simulator's own traffic.
    pub fn record_meta_send(&mut self, sender_id: &str, envelope: &SimEnvelope)
        requires
            old(self).wf(),
        ensures
            final(self).wf(),
            final(self)@ == counted_send(
                old(self)@,
                sender_id@,
                envelope.message_kind,
                envelope.payload_size,
            ),
    {
        let key = sender_id.to_owned();
        let mut kinds: KindCounts = match self.per_peer_sent_by_kind.get(&key) {
            Some(k) => *k,
            None => KindCounts {
                public: 0,
                meta: 0,
                direct: 0,
                friend_group: 0,
                store_for_peer: 0,
            },
        };
        kinds.bump(envelope.message_kind);
        self.per_peer_sent_by_kind.insert(key, kinds);
        self.message_sizes_by_kind.record(envelope.message_kind, envelope.payload_size);
    }

    /// Enters the sending of a message.
    pub fn record_send(&mut self, message: &SimMessage, step: usize, envelope: &SimEnvelope)
        requires
            old(self).wf(),
        ensures
            final(self).wf(),
            final(self)@ == sent_message(
                old(self)@,
                message.id@,
                message.sender@,
                message.recipient@,
                step,
                envelope.message_kind,
                envelope.payload_size,
            ),
    {
        let pair = (message.sender.clone(), message.recipient.clone());
        let n: usize = match self.per_sender_recipient_counts.get(&pair) {
            Some(n) => *n,
            None => 0,
        };
        self.per_sender_recipient_counts.insert(pair, n.saturating_add(1));
        if !self.messages.contains_key(&message.id) {
            let mut recipients: Vec<String> = Vec::new();
            recipients.push(message.recipient.clone());
            let none: Vec<String> = Vec::new();
            proof {
                assert(texts(recipients@) =~= seq![message.recipient@]);
                assert(texts(none@) =~= Seq::empty());
            }
            self.messages.insert(
                message.id.clone(),
                MessageTracking {
                    send_step: step,
                    recipients,
                    delivered_recipients: none,
                    first_delivery_recorded: false,
                    all_delivery_recorded: false,
                },
            );
        }
        self.record_meta_send(message.sender.as_str(), envelope);
    }

    /// Enters a delivery, and says what it tells; nothing where it does not count.
    pub fn record_delivery(&mut self, message_id: &str, recipient_id: &str, step: usize) -> (r:
        Option<DeliveryNote>)
        requires
            old(self).wf(),
        ensures
            final(self).wf(),
            if counts_as_delivery(old(self)@, message_id@, recipient_id@) {
                &&& r == Some(delivery_note(old(self)@, message_id@, recipient_id@, step))
                &&& final(self)@ == delivered_message(
                    old(self)@,
                    message_id@,
                    recipient_id@,
                    step,
                )
            } else {
                r is None && final(self)@ == old(self)@
            },
    {
        let ghost t = self@;
        let key = message_id.to_owned();
        match self.messages.get(&key) {
            None => {
                return None;
            },
            Some(m) => {
                if !contains(&m.recipients, recipient_id) || contains(
                    &m.delivered_recipients,
                    recipient_id,
                ) {
                    return None;
                }
            },
        }
        match self.messages.remove(&key) {
            None => None,
            Some(m) => {
                let mut m: MessageTracking = m;
                let ghost before = m@;
                let latency: usize = step.saturating_sub(m.send_step);
                let first = !m.first_delivery_recorded;
                m.delivered_recipients.push(recipient_id.to_owned());
                let all = m.delivered_recipients.len() == m.recipients.len()
                    && !m.all_delivery_recorded;
                m.first_delivery_recorded = true;
                m.all_delivery_recorded = m.all_delivery_recorded || all;
                proof {
                    assert(m@.delivered =~= before.delivered.push(recipient_id@));
                }
                self.messages.insert(key, m);
                if first {
                    self.first_delivery_latency.record(latency);
                }
                if all {
                    self.all_recipients_delivery_latency.record(latency);
                }
                proof {
                    assert(self@.messages =~= delivered_message(
                        t,
                        message_id@,
                        recipient_id@,
                        step,
                    ).messages);
                }
                Some(DeliveryNote { latency, first, all })
            },
        }
    }

    /// Enters the simulated seconds that the latency of a delivery amounts to.
    pub fn record_delivery_seconds(&mut self, note: DeliveryNote, seconds: usize)
        requires
            old(self).wf(),
        ensures
            final(self).wf(),
            final(self)@ == (TrackerView {
                first_latency_seconds: if note.first {
                    lagged(old(self)@.first_latency_seconds, seconds)
                } else {
                    old(self)@.first_latency_seconds
                },
                all_latency_seconds: if note.all {
                    lagged(old(self)@.all_latency_seconds, seconds)
                } else {
                    old(self)@.all_latency_seconds
                },
                ..old(self)@
            }),
    {
        if note.first {
            self.first_delivery_latency_seconds.record(seconds);
        }
        if note.all {
            self.all_recipients_delivery_latency_seconds.record(seconds);
        }
    }

    pub fn record_online_broadcast(&mut self)
        requires
            old(self).wf(),
        ensures
            final(self).wf(),
            final(self)@ == (TrackerView {
                online_broadcasts_sent: sat_add(old(self)@.online_broadcasts_sent, 1),
                ..old(self)@
            }),
    {
        self.online_broadcasts_sent = self.online_broadcasts_sent.saturating_add(1);
    }

    pub fn record_ack(&mut self)
        requires
            old(self).wf(),
        ensures
            final(self).wf(),
            final(self)@ == (TrackerView {
                acks_received: sat_add(old(self)@.acks_received, 1),
                ..old(self)@
            }),
    {
        self.acks_received = self.acks_received.saturating_add(1);
    }

    pub fn record_missed_message_request(&mut self)
        requires
            old(self).wf(),
        ensures
            final(self).wf(),
            final(self)@ == (TrackerView {
                missed_message_requests_sent: sat_add(old(self)@.missed_message_requests_sent, 1),
                ..old(self)@
            }),
    {
        self.missed_message_requests_sent = self.missed_message_requests_sent.saturating_add(1);
    }

    pub fn record_missed_message_delivery(&mut self)
        requires
            old(self).wf(),
        ensures
            final(self).wf(),
            final(self)@ == (TrackerView {
                missed_message_deliveries: sat_add(old(self)@.missed_message_deliveries, 1),
                ..old(self)@
            }),
    {
        self.missed_message_deliveries = self.missed_message_deliveries.saturating_add(1);
    }

    pub fn record_store_forward_stored(&mut self)
        requires
            old(self).wf(),
        ensures
            final(self).wf(),
            final(self)@ == (TrackerView {
                store_forwards_stored: sat_add(old(self)@.store_forwards_stored, 1),
                ..old(self)@
            }),
    {
        self.store_forwards_stored = self.store_forwards_stored.saturating_add(1);
    }

    pub fn record_store_forward_forwarded(&mut self, storage_peer_id: &str)
        requires
            old(self).wf(),
        ensures
            final(self).wf(),
            final(self)@ == forwarded_one(old(self)@, storage_peer_id@),
    {
        self.store_forwards_forwarded = self.store_forwards_forwarded.saturating_add(1);
        let key = storage_peer_id.to_owned();
        let n: usize = match self.per_peer_store_forwarded.get(&key) {
            Some(n) => *n,
            None => 0,
        };
        self.per_peer_store_forwarded.insert(key, n.saturating_add(1));
    }

    pub fn record_store_forward_delivery(&mut self)
        requires
            old(self).wf(),
        ensures
            final(self).wf(),
            final(self)@ == (TrackerView {
                store_forwards_delivered: sat_add(old(self)@.store_forwards_delivered, 1),
                ..old(self)@
            }),
    {
        self.store_forwards_delivered = self.store_forwards_delivered.saturating_add(1);
    }

    // -----------------------------------------------------------------------
    // Reports
    // -----------------------------------------------------------------------

    /// Sums up, over the given peers, how many messages of a kind each has sent.
    pub fn sent_message_summary(&self, peer_ids: &Vec<String>, kind: MessageKind) -> (r:
        CountSummary)
        requires
            self.wf(),
        ensures
            r == summary_of(
                texts(peer_ids@).map_values(|p: Seq<char>| kinds_of(self@.sent_by_kind, p).of(kind)),
            ),
    {
        let mut counts: Vec<usize> = Vec::new();
        let mut i: usize = 0;
        let ghost f = |p: Seq<char>| kinds_of(self@.sent_by_kind, p).of(kind);
        while i < peer_ids.len()
            invariant
                self.wf(),
                i <= peer_ids@.len(),
                f == (|p: Seq<char>| kinds_of(self@.sent_by_kind, p).of(kind)),
                counts@ == texts(peer_ids@).take(i as int).map_values(f),
            decreases peer_ids@.len() - i,
        {
            let n: usize = match self.per_peer_sent_by_kind.get(&peer_ids[i]) {
                Some(k) => k.get(kind),
                None => 0,
            };
            proof {
                let t = texts(peer_ids@);
                assert(t.take(i + 1) =~= t.take(i as int).push(t[i as int]));
                assert(t.take(i + 1).map_values(f) =~= t.take(i as int).map_values(f).push(
                    f(t[i as int]),
                ));
            }
            counts.push(n);
            i = i + 1;
        }
        proof {
            assert(texts(peer_ids@).take(i as int) =~= texts(peer_ids@));
        }
        CountSummary::from_counts(&counts)
    }

    /// Sums up, over the given peers, how many stored messages each has forwarded.
    pub fn stored_forwarded_summary(&self, peer_ids: &Vec<String>) -> (r: CountSummary)
        requires
            self.wf(),
        ensures
            r == summary_of(
                texts(peer_ids@).map_values(|p: Seq<char>| count_at(self@.forwarded, p)),
            ),
    {
        let mut counts: Vec<usize> = Vec::new();
        let mut i: usize = 0;
        let ghost f = |p: Seq<char>| count_at(self@.forwarded, p);
        while i < peer_ids.len()
            invariant
                self.wf(),
                i <= peer_ids@.len(),
                f == (|p: Seq<char>| count_at(self@.forwarded, p)),
                counts@ == texts(peer_ids@).take(i as int).map_values(f),
            decreases peer_ids@.len() - i,
        {
            let n: usize = match self.per_peer_store_forwarded.get(&peer_ids[i]) {
                Some(k) => *k,
                None => 0,
            };
            proof {
                let t = texts(peer_ids@);
                assert(t.take(i + 1) =~= t.take(i as int).push(t[i as int]));
                assert(t.take(i + 1).map_values(f) =~= t.take(i as int).map_values(f).push(
                    f(t[i as int]),
                ));
            }
            counts.push(n);
            i = i + 1;
        }
        proof {
            assert(texts(peer_ids@).take(i as int) =~= texts(peer_ids@));
        }
        CountSummary::from_counts(&counts)
    }

    /// Lists how often each peer sent to each other, by sender and recipient.
    pub fn sender_recipient_counts(&self) -> (r: Vec<SenderRecipientCount>)
        requires
            self.wf(),
        ensures
            lists_counts(r@, self@.counts),
    {
        let counts = &self.per_sender_recipient_counts;
        let mut out: Vec<SenderRecipientCount> = Vec::new();
        let mut i: usize = 0;
        proof {
            counts.lemma_entries();
        }
        while i < counts.len()
            invariant
                counts.wf(),
                *counts == self.per_sender_recipient_counts,
                i <= counts.count(),
                out@.len() == i,
                forall|a: int|
                    0 <= a < i ==> pair_of(#[trigger] out@[a]) == counts.name_at(a)
                        && counts@.contains_key(pair_of(out@[a])) && counts@[pair_of(out@[a])]
                        == out@[a].count,
            decreases counts.count() - i,
        {
            let key = counts.key_at(i);
            let n: usize = *counts.value_at(i);
            out.push(
                SenderRecipientCount {
                    sender: key.0.clone(),
                    recipient: key.1.clone(),
                    count: n,
                },
            );
            i = i + 1;
        }
        let ghost list = out@;
        let ghost name = |x: SenderRecipientCount| pair_of(x);
        proof {
            let names = list.map_values(name);
            assert forall|a: int, b: int|
                0 <= a < names.len() && 0 <= b < names.len() && a != b implies names[a]
                != names[b] by {
                assert(names[a] == pair_of(list[a]));
                assert(names[b] == pair_of(list[b]));
                if a < b {
                    assert(counts.name_at(a) != counts.name_at(b));
                } else {
                    assert(counts.name_at(b) != counts.name_at(a));
                }
            }
        }
        let r = sort(out);
        proof {
            lemma_rearranged(r@, list);
            lemma_rearranged_distinct(r@, list, name);
            assert forall|j: int| 0 <= j < r@.len() implies counts@.contains_key(
                pair_of(#[trigger] r@[j]),
            ) && counts@[pair_of(r@[j])] == r@[j].count by {
                assert(r@.contains(r@[j]));
                assert(list.contains(r@[j]));
                let a = choose|a: int| 0 <= a < list.len() && list[a] == r@[j];
                assert(pair_of(list[a]) == counts.name_at(a));
            }
            assert forall|p: (Seq<char>, Seq<char>)| #[trigger]
                counts@.contains_key(p) implies exists|j: int|
                0 <= j < r@.len() && pair_of(#[trigger] r@[j]) == p by {
                let a = choose|a: int| 0 <= a < counts.count() && #[trigger] counts.name_at(a) == p;
                assert(pair_of(list[a]) == p);
                assert(list.contains(list[a]));
                assert(r@.contains(list[a]));
                let j = choose|j: int| 0 <= j < r@.len() && r@[j] == list[a];
                assert(pair_of(r@[j]) == p);
            }
            assert(r@.map_values(name) =~= r@.map_values(|x: SenderRecipientCount| pair_of(x)));
        }
        r
    }
}

/// The tracker once `peer` has forwarded a stored message.
pub open spec fn forwarded_one(t: TrackerView, peer: Seq<char>) -> TrackerView {
    TrackerView {
        store_forwards_forwarded: sat_add(t.store_forwards_forwarded, 1),
        forwarded: t.forwarded.insert(peer, sat_add(count_at(t.forwarded, peer), 1)),
        ..t
    }
}

pub open spec fn pair_of(c: SenderRecipientCount) -> (Seq<char>, Seq<char>) {
    (c.sender@, c.recipient@)
}

/// Whether `l` lists every count, each once and in order.
pub open spec fn lists_counts(
    l: Seq<SenderRecipientCount>,
    counts: Map<(Seq<char>, Seq<char>), usize>,
) -> bool {
    &&& sorted(l)
    &&& l.map_values(|x: SenderRecipientCount| pair_of(x)).no_duplicates()
    &&& forall|i: int|
        0 <= i < l.len() ==> counts.contains_key(pair_of(#[trigger] l[i])) && counts[pair_of(l[i])]
            == l[i].count
    &&& forall|p: (Seq<char>, Seq<char>)| #[trigger]
        counts.contains_key(p) ==> exists|i: int|
            0 <= i < l.len() && pair_of(#[trigger] l[i]) == p
}

/// A message counts once for each recipient: a second delivery to the same recipient tells
/// nothing and changes nothing.
pub proof fn law_delivery_counts_once(
    t: TrackerView,
    id: Seq<char>,
    recipient: Seq<char>,
    step: usize,
)
    requires
        counts_as_delivery(t, id, recipient),
    ensures
        !counts_as_delivery(delivered_message(t, id, recipient, step), id, recipient),
{
    let d = t.messages[id].delivered;
    assert(d.push(recipient)[d.len() as int] == recipient);
}

// ---------------------------------------------------------------------------
// Histories
// ---------------------------------------------------------------------------

/// Something that a tracker is told.
pub enum TrackerStep {
    Send {
        id: Seq<char>,
        sender: Seq<char>,
        recipient: Seq<char>,
        step: usize,
        kind: MessageKind,
        size: u64,
    },
    Delivery { id: Seq<char>, recipient: Seq<char>, step: usize },
}

/// The tracker once it has been told something.
pub open spec fn told(t: TrackerView, s: TrackerStep) -> TrackerView {
    match s {
        TrackerStep::Send { id, sender, recipient, step, kind, size } => sent_message(
            t,
            id,
            sender,
            recipient,
            step,
            kind,
            size,
        ),
        TrackerStep::Delivery { id, recipient, step } => if counts_as_delivery(t, id, recipient) {
            delivered_message(t, id, recipient, step)
        } else {
            t
        },
    }
}

/// The tracker once it has been told some things, one after the other.
pub open spec fn told_all(steps: Seq<TrackerStep>) -> TrackerView
    decreases steps.len(),
{
    if steps.len() == 0 {
        fresh_tracker()
    } else {
        told(told_all(steps.drop_last()), steps.last())
    }
}

/// When and to whom a message was sent the first time, if it was.
pub open spec fn first_send(steps: Seq<TrackerStep>, id: Seq<char>) -> Option<(usize, Seq<char>)>
    decreases steps.len(),
{
    if steps.len() == 0 {
        None
    } else {
        match first_send(steps.drop_last(), id) {
            Some(f) => Some(f),
            None => match steps.last() {
                TrackerStep::Send { id: x, recipient, step, .. } if x == id => Some(
                    (step, recipient),
                ),
                _ => None,
            },
        }
    }
}

/// How often a delivery of a message to a recipient has counted.
pub open spec fn times_counted(steps: Seq<TrackerStep>, id: Seq<char>, recipient: Seq<char>) -> nat
    decreases steps.len(),
{
    if steps.len() == 0 {
        0
    } else {
        let before = steps.drop_last();
        times_counted(before, id, recipient) + match steps.last() {
            TrackerStep::Delivery { id: x, recipient: p, .. } => if x == id && p == recipient
                && counts_as_delivery(told_all(before), id, recipient) {
                1nat
            } else {
                0nat
            },
            _ => 0nat,
        }
    }
}

/// What a tracker knows of a message is what its history says.
proof fn lemma_history(steps: Seq<TrackerStep>, id: Seq<char>, recipient: Seq<char>)
    ensures
        ({
            let t = told_all(steps);
            match first_send(steps, id) {
                None => !t.messages.contains_key(id) && times_counted(steps, id, recipient) == 0,
                Some(f) => {
                    let m = t.messages[id];
                    &&& t.messages.contains_key(id)
                    &&& m.send_step == f.0
                    &&& m.recipients == seq![f.1]
                    &&& m.delivered == Seq::<Seq<char>>::empty() || m.delivered == seq![f.1]
                    &&& m.first == (m.delivered.len() > 0)
                    &&& m.all == (m.delivered.len() > 0)
                    &&& times_counted(steps, id, recipient) == if recipient == f.1
                        && m.delivered.len() > 0 {
                        1nat
                    } else {
                        0nat
                    }
                },
            }
        }),
    decreases steps.len(),
{
    if steps.len() > 0 {
        let before = steps.drop_last();
        let t = told_all(before);
        lemma_history(before, id, recipient);
        match steps.last() {
            TrackerStep::Send { .. } => {},
            TrackerStep::Delivery { id: x, recipient: p, step } => {
                if x == id && counts_as_delivery(t, id, p) {
                    let m = t.messages[id];
                    let f = first_send(before, id)->0;
                    assert(m.recipients.contains(p));
                    assert(p == f.1);
                    if m.delivered.len() > 0 {
                        assert(m.delivered[0] == p);
                        assert(m.delivered.contains(p));
                    }
                    assert(m.delivered.push(p) =~= seq![f.1]);
                }
            },
        }
    }
}

/// Over any history a delivery counts if and only if its message was sent, to that recipient in
/// the first place, and no earlier delivery of it there has counted; its latency is the steps
/// since that first send, and it is entered once among the first deliveries and once among those
/// to all recipients.
pub proof fn law_delivery_over_a_history(
    steps: Seq<TrackerStep>,
    id: Seq<char>,
    recipient: Seq<char>,
    step: usize,
)
    ensures
        ({
            let t = told_all(steps);
            let first = first_send(steps, id);
            let counts = counts_as_delivery(t, id, recipient);
            let (sent, to) = first->0;
            let latency = if step >= sent {
                (step - sent) as usize
            } else {
                0
            };
            let u = told(t, TrackerStep::Delivery { id, recipient, step });
            &&& counts <==> first is Some && to == recipient && times_counted(
                steps,
                id,
                recipient,
            ) == 0
            &&& counts ==> delivery_note(t, id, recipient, step) == (DeliveryNote {
                latency,
                first: true,
                all: true,
            })
            &&& counts ==> u.first_latency == lagged(t.first_latency, latency) && u.all_latency
                == lagged(t.all_latency, latency)
            &&& !counts ==> u == t
        }),
{
    lemma_history(steps, id, recipient);
    let t = told_all(steps);
    if first_send(steps, id) is Some {
        let f = first_send(steps, id)->0;
        let m = t.messages[id];
        assert(seq![f.1][0] == f.1);
        assert(m.recipients.contains(f.1));
        if m.recipients.contains(recipient) {
            assert(recipient == f.1);
        }
        if m.delivered.len() > 0 {
            assert(m.delivered[0] == f.1);
            assert(m.delivered.contains(f.1));
        }
    }
}

/// Over any history a message is counted at most once as delivered to a recipient.
pub proof fn law_message_is_counted_once(
    steps: Seq<TrackerStep>,
    id: Seq<char>,
    recipient: Seq<char>,
)
    ensures
        times_counted(steps, id, recipient) <= 1,
{
    lemma_history(steps, id, recipient);
}

} // verus!
