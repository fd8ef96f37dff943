//! Clients, routing, metrics and the step-by-step run of the simulation.
use tenet::keyed::KeyedMap;
use tenet::protocol::MessageKind;
use tenet::simulation::client::IncomingEnvelopeAction;
use tenet::simulation::client::MetaMessage;
use tenet::simulation::client::SimulationClient;
use tenet::simulation::client::StoredForPeerMessage;
use tenet::simulation::client::SIMULATION_ACK_WINDOW_STEPS;
use tenet::simulation::driver::SIMULATED_SECOND;
use tenet::simulation::event::Event;
use tenet::simulation::harness::RunAction;
use tenet::simulation::harness::RunState;
use tenet::simulation::harness::SimulationControlCommand;
use tenet::simulation::harness::SimulationHarness;
use tenet::simulation::message::PlannedSend;
use tenet::simulation::message::SimEnvelope;
use tenet::simulation::message::SimMessage;
use tenet::simulation::metrics::CountSummary;
use tenet::simulation::metrics::LatencyStats;
use tenet::simulation::metrics::RollingLatencyTracker;
use tenet::simulation::metrics::SizeStats;
use tenet::simulation::node::Node;
use tenet::simulation::routing::decode_envelope_action;
use tenet::simulation::routing::enqueue_sends;
use tenet::simulation::routing::select_storage_peer;
use tenet::simulation::routing::PreparedSend;
use tenet::simulation::steps::Progress;
use tenet::simulation::tasks::step_tasks;
use tenet::simulation::tasks::Interval;
use tenet::simulation::tasks::StepTask;
use tenet::simulation::tracker::MetricsTracker;

fn name(s: &str) -> String {
    s.to_string()
}

fn message(id: &str, from: &str, to: &str) -> SimMessage {
    SimMessage {
        id: name(id),
        sender: name(from),
        recipient: name(to),
        body: name("body"),
        payload: name("payload"),
        message_kind: MessageKind::Direct,
        group_id: None,
    }
}

fn envelope(id: &str, from: &str, to: &str) -> SimEnvelope {
    SimEnvelope {
        message_id: name(id),
        sender_id: name(from),
        recipient_id: name(to),
        message_kind: MessageKind::Direct,
        group_id: None,
        store_for: None,
        storage_peer_id: None,
        payload_size: 7,
        payload: name("payload"),
    }
}

fn prepared(id: &str, from: &str, to: &str) -> PreparedSend {
    PreparedSend {
        envelope: Some(envelope(id, from, to)),
        decoded: Some(message(id, from, to)),
        stored: None,
    }
}

fn both_ways(pairs: &[(&str, &str)]) -> Vec<(String, String)> {
    let mut out = Vec::new();
    for (a, b) in pairs {
        out.push((name(a), name(b)));
        out.push((name(b), name(a)));
    }
    out
}

fn harness(schedules: &[(&str, Vec<bool>)], links: &[(&str, &str)]) -> SimulationHarness {
    let clients = schedules.iter().map(|(id, s)| SimulationClient::new(id, s.clone())).collect();
    SimulationHarness::new(clients, &both_ways(links), true)
}

fn online(names: &[&str]) -> KeyedMap<String, bool> {
    let mut m = KeyedMap::new();
    for n in names {
        m.insert(name(n), true);
    }
    m
}

#[test]
fn nodes_receive_once() {
    let mut n = Node::new("a", vec![true, false]);
    assert!(n.online_at(0));
    assert!(!n.online_at(1));
    assert!(!n.online_at(2));
    assert!(n.receive(message("m", "b", "a")));
    assert!(!n.receive(message("m", "b", "a")));
}

#[test]
fn clients_receive_once() {
    let mut c = SimulationClient::new("a", vec![true]);
    assert!(c.receive_message(message("m", "b", "a")));
    assert!(!c.receive_message(message("m", "b", "a")));
    assert_eq!(c.inbox.len(), 1);
    assert_eq!(c.last_seen_for("b"), 0);
}

#[test]
fn direct_messages_arrive_at_once() {
    let mut h = harness(&[("a", vec![true]), ("b", vec![true])], &[("a", "b")]);
    let out = h.route_message(0, &message("m", "a", "b"), &prepared("m", "a", "b"));
    assert_eq!(h.inbox(&name("b")).len(), 1);
    // The latency of a message is known only once its sending has been recorded.
    assert!(out.note.is_none());
    assert_eq!(h.ctx.metrics.direct_deliveries, 0);
    let mut p = Progress::new(10);
    p.note_route(&out);
    assert_eq!(p.sent_messages, 1);
}

#[test]
fn offline_recipients_get_nothing_directly() {
    let mut h = harness(&[("a", vec![true]), ("b", vec![false])], &[("a", "b")]);
    let out = h.route_message(0, &message("m", "a", "b"), &prepared("m", "a", "b"));
    assert!(out.post.is_some());
    assert!(h.inbox(&name("b")).is_empty());
    assert_eq!(h.ctx.metrics.direct_deliveries, 0);
}

#[test]
fn inbox_messages_are_counted_once() {
    let mut h = harness(&[("a", vec![true]), ("b", vec![true])], &[]);
    h.route_message(0, &message("m", "a", "b"), &prepared("m", "a", "b"));
    let actions = vec![
        Some(IncomingEnvelopeAction::DirectMessage(message("m", "a", "b"))),
        None,
        Some(IncomingEnvelopeAction::DirectMessage(message("m", "a", "b"))),
    ];
    let out = h.handle_inbox(2, &name("b"), &actions);
    assert_eq!(out.received, 1);
    assert_eq!(h.inbox(&name("b")).len(), 1);
    assert_eq!(h.ctx.metrics.inbox_deliveries, 1);
    assert_eq!(out.notes.len(), 1);
    assert_eq!(out.notes[0].latency, 2);
    assert!(out.notes[0].first);
    let mut p = Progress::new(10);
    p.note_inbox(&out);
    assert_eq!(p.received_messages, 1);
    assert_eq!(p.rolling_latency.snapshot().max, Some(2));
    p.restart();
    assert_eq!(p.received_messages, 0);
}

#[test]
fn stored_messages_are_forwarded_when_their_owner_is_online() {
    let mut h = harness(
        &[("a", vec![true]), ("b", vec![true]), ("c", vec![true])],
        &[("a", "b"), ("b", "c")],
    );
    let actions = vec![Some(IncomingEnvelopeAction::StoredForPeer(StoredForPeerMessage {
        store_for_id: name("c"),
        envelope: envelope("m", "a", "c"),
    }))];
    h.handle_inbox(0, &name("b"), &actions);
    assert_eq!(h.ctx.metrics.store_forwards_stored, 1);
    let peers = vec![name("a"), name("b"), name("c")];
    assert!(h.forward_stored(&peers, &online(&["a", "b"])).is_empty());
    let out = h.forward_stored(&peers, &online(&["a", "b", "c"]));
    assert_eq!(out.len(), 1);
    assert_eq!(out[0].message_id, "m");
    assert_eq!(h.ctx.metrics.store_forwards_forwarded, 1);
    assert!(h.forward_stored(&peers, &online(&["a", "b", "c"])).is_empty());
}

#[test]
fn storage_peers_are_shared_friends() {
    let h = harness(
        &[("a", vec![]), ("b", vec![]), ("c", vec![])],
        &[("a", "b"), ("b", "c")],
    );
    let found = select_storage_peer("a", "c", &h.ctx);
    assert_eq!(found.as_deref(), Some("b"));
    assert_eq!(select_storage_peer("a", "z", &h.ctx), None);
}

#[test]
fn sends_are_posted_and_delivered() {
    let mut h = harness(&[("a", vec![true]), ("b", vec![true])], &[("a", "b")]);
    let messages = vec![message("m", "a", "b")];
    let ready = vec![prepared("m", "a", "b")];
    let out = enqueue_sends(0, &messages, &ready, &online(&["a", "b"]), &mut h.ctx);
    assert_eq!(out.envelopes.len(), 1);
    assert_eq!(out.direct_deliveries.len(), 1);
    let nothing = vec![PreparedSend { envelope: None, decoded: None, stored: None }];
    let out = enqueue_sends(0, &messages, &nothing, &online(&["a", "b"]), &mut h.ctx);
    assert!(out.envelopes.is_empty());
}

#[test]
fn envelopes_are_decoded() {
    let e = envelope("m", "a", "b");
    assert!(matches!(
        decode_envelope_action("b", &e, true, Some(name("text")), None),
        Some(IncomingEnvelopeAction::DirectMessage(m)) if m.body == "text" && m.id == "m"
    ));
    assert!(decode_envelope_action("b", &e, false, Some(name("text")), None).is_none());
    assert!(decode_envelope_action("b", &e, true, None, None).is_none());
    let mut kept = envelope("k", "a", "b");
    kept.message_kind = MessageKind::StoreForPeer;
    kept.store_for = Some(name("c"));
    kept.storage_peer_id = Some(name("b"));
    assert!(matches!(
        decode_envelope_action("b", &kept, true, None, Some(envelope("m", "a", "c"))),
        Some(IncomingEnvelopeAction::StoredForPeer(s)) if s.store_for_id == "c"
    ));
}

#[test]
fn announcements_are_answered() {
    let mut h = harness(&[("a", vec![true]), ("b", vec![true])], &[("a", "b")]);
    let sends = h.announce_online(3, &name("a"));
    assert_eq!(sends.len(), 1);
    assert_eq!(sends[0].recipient_id, "b");
    assert!(matches!(&sends[0].meta, MetaMessage::Online { peer_id, timestamp: 3 } if peer_id == "a"));
    let out = h.process_pending(4, &name("a"), &online(&["a", "b"]), &KeyedMap::new());
    assert!(!out.sends.is_empty());
    assert_eq!(h.ctx.tracker.acks_received, 1);
    let mut p = Progress::new(4);
    p.note_pending(&out);
    assert_eq!(p.received_messages, out.received);
}

#[test]
fn announcements_expire() {
    let mut h = harness(&[("a", vec![true]), ("b", vec![false])], &[("a", "b")]);
    h.announce_online(0, &name("a"));
    let later = SIMULATION_ACK_WINDOW_STEPS + 5;
    let out = h.process_pending(later, &name("a"), &online(&["a", "b"]), &KeyedMap::new());
    assert!(out.sends.is_empty());
    assert_eq!(h.ctx.tracker.acks_received, 0);
}

#[test]
fn steps_are_planned() {
    let h = harness(&[("a", vec![true, true]), ("b", vec![false, true])], &[("a", "b")]);
    let plan = vec![
        PlannedSend { step: 0, message: message("m", "a", "b") },
        PlannedSend { step: 0, message: message("n", "b", "a") },
        PlannedSend { step: 1, message: message("o", "b", "a") },
    ];
    let step = h.plan_step(&plan, 0);
    assert_eq!(step.due.len(), 1);
    assert_eq!(step.due[0].id, "m");
    assert_eq!(step.online, vec![name("a")]);
    assert_eq!(step.newly_online, vec![name("a")]);
    assert!(step.gone_offline.is_empty());
    assert_eq!(h.online_ids(1).len(), 2);
    assert_eq!(h.sends_due(&plan, 1).len(), 1);
    assert_eq!(h.total_nodes(), 2);
}

#[test]
fn steps_remember_who_was_online() {
    let mut h = harness(&[("a", vec![true, false])], &[]);
    h.plan(5);
    assert_eq!(h.ctx.metrics.planned_messages, 5);
    h.finish_step(0, 0);
    let step = h.plan_step(&Vec::new(), 1);
    assert_eq!(step.gone_offline, vec![name("a")]);
    assert!(step.newly_online.is_empty());
}

#[test]
fn newcomers_poll_before_they_announce() {
    let mut h = harness(
        &[("a", vec![true, true]), ("b", vec![false, true])],
        &[("a", "b")],
    );
    h.finish_step(0, 0);
    let plan = vec![PlannedSend { step: 1, message: message("m", "a", "b") }];
    let tasks: Vec<String> = step_tasks(&h.plan_step(&plan, 1))
        .into_iter()
        .map(|t| match t {
            StepTask::Send(i) => format!("send {i}"),
            StepTask::Forward => name("forward"),
            StepTask::Poll(p) => format!("poll {p}"),
            StepTask::Announce(p) => format!("announce {p}"),
            StepTask::AnswerPending => name("answer"),
            StepTask::Finish => name("finish"),
        })
        .collect();
    assert_eq!(
        tasks,
        vec!["send 0", "forward", "poll b", "announce b", "answer", "poll a", "finish"]
    );
}

#[test]
fn intervals_count_messages() {
    let mut i = Interval::new(100);
    i.note(&Event::MessageSend { sender_id: name("a"), message: message("m", "a", "b") }, 5);
    i.note(
        &Event::MessageDeliver {
            recipient_id: name("b"),
            envelope: envelope("m", "a", "b"),
            send_time: SIMULATED_SECOND,
        },
        4 * SIMULATED_SECOND,
    );
    i.note(&Event::InboxPoll { client_id: name("a") }, 5);
    assert_eq!((i.sent_messages, i.received_messages), (1, 1));
    assert_eq!(i.rolling_latency.snapshot().max, Some(3));
    assert!(!i.is_due(SIMULATED_SECOND - 1));
    assert!(i.is_due(SIMULATED_SECOND));
    i.restart(SIMULATED_SECOND);
    assert_eq!((i.sent_messages, i.last_report), (0, SIMULATED_SECOND));
    assert_eq!(i.rolling_latency.snapshot().samples, 1);
}

#[test]
fn friendship_is_mutual() {
    let mut h = harness(&[("a", vec![true]), ("b", vec![true])], &[]);
    h.add_friendship(&name("a"), &name("b"));
    assert!(h.ctx.direct_links.contains_key(&(name("a"), name("b"))));
    assert!(h.ctx.direct_links.contains_key(&(name("b"), name("a"))));
    h.add_peer(SimulationClient::new("c", vec![true]));
    assert_eq!(h.total_nodes(), 3);
    assert_eq!(h.feed_summary(&vec![name("a"), name("b")]).samples, 2);
    assert_eq!(h.stored_summary(&vec![name("a")]).total, 0);
}

#[test]
fn runs_can_be_controlled() {
    let mut h = harness(&[("a", vec![true])], &[]);
    let mut run = RunState::new(2);
    assert!(matches!(run.next_action(), RunAction::Step));
    run.obey(SimulationControlCommand::SetPaused { paused: true }, &mut h);
    assert!(matches!(run.next_action(), RunAction::Wait));
    run.obey(SimulationControlCommand::SetPaused { paused: false }, &mut h);
    run.advance();
    run.advance();
    assert!(matches!(run.next_action(), RunAction::Finish));
    let mut run = RunState::new(2);
    let before = h.total_nodes();
    let joins = || SimulationControlCommand::AddPeer {
        client: SimulationClient::new("zoe", vec![true]),
    };
    run.obey(joins(), &mut h);
    run.obey(joins(), &mut h);
    assert_eq!(h.total_nodes(), before + 1);
    assert!(h.online_at(&name("zoe"), 0));
    assert_eq!(h.previous_online.get(&name("zoe")), Some(&false));
    run.obey(SimulationControlCommand::Stop, &mut h);
    assert!(matches!(run.next_action(), RunAction::Finish));
}

#[test]
fn counts_are_summed_up() {
    let s = CountSummary::from_counts(&vec![3, 1, 2]);
    assert_eq!((s.min, s.max, s.total, s.samples), (Some(1), Some(3), 6, 3));
    let s = CountSummary::from_counts(&Vec::new());
    assert_eq!((s.min, s.max, s.total, s.samples), (None, None, 0, 0));
    let mut sizes = SizeStats::empty();
    sizes.record(10);
    sizes.record(4);
    assert_eq!((sizes.min, sizes.max, sizes.total, sizes.samples), (Some(4), Some(10), 14, 2));
    let mut l = LatencyStats::empty();
    l.record(2);
    l.record(2);
    l.record(5);
    assert_eq!(l.counts.get(&2).copied(), Some(2));
    assert_eq!(l.counts.get(&5).copied(), Some(1));
    assert_eq!(l.summary.total, 9);
    assert_eq!((l.summary.min, l.summary.max, l.summary.samples), (Some(2), Some(5), 3));
}

#[test]
fn rolling_latency_forgets() {
    let mut r = RollingLatencyTracker::new(2);
    r.record(9);
    r.record(1);
    r.record(2);
    let s = r.snapshot();
    assert_eq!((s.min, s.max, s.total, s.samples), (Some(1), Some(2), 3, 2));
}

#[test]
fn deliveries_are_tracked() {
    let mut t = MetricsTracker::new();
    t.record_send(&message("m", "a", "b"), 1, &envelope("m", "a", "b"));
    let note = t.record_delivery("m", "b", 4).expect("a known message");
    assert_eq!(note.latency, 3);
    assert!(note.first && note.all);
    assert!(t.record_delivery("m", "b", 5).is_none());
    assert!(t.record_delivery("x", "b", 5).is_none());
    t.record_delivery_seconds(note, 30);
    assert_eq!(t.first_delivery_latency_seconds.summary.max, Some(30));
    let counts = t.sender_recipient_counts();
    assert_eq!(counts.len(), 1);
    assert_eq!((counts[0].sender.as_str(), counts[0].recipient.as_str(), counts[0].count), ("a", "b", 1));
    assert_eq!(t.sent_message_summary(&vec![name("a")], MessageKind::Direct).total, 1);
    t.record_store_forward_forwarded("s");
    assert_eq!(t.stored_forwarded_summary(&vec![name("s")]).total, 1);
}

#[test]
fn messages_count_by_their_first_send() {
    let mut t = MetricsTracker::new();
    assert!(t.record_delivery("m", "b", 0).is_none());
    t.record_send(&message("m", "a", "b"), 2, &envelope("m", "a", "b"));
    t.record_send(&message("m", "a", "c"), 3, &envelope("m", "a", "c"));
    assert!(t.record_delivery("m", "c", 4).is_none());
    let note = t.record_delivery("m", "b", 7).expect("the first delivery");
    assert_eq!((note.latency, note.first, note.all), (5, true, true));
    assert!(t.record_delivery("m", "b", 8).is_none());
    assert_eq!(t.first_delivery_latency.summary.samples, 1);
    assert_eq!(t.all_recipients_delivery_latency.summary.samples, 1);
}

#[test]
fn sends_add_up() {
    let mut h = harness(&[("a", vec![true, true]), ("b", vec![false, true])], &[]);
    let plan = vec![
        PlannedSend { step: 0, message: message("m", "a", "b") },
        PlannedSend { step: 0, message: message("n", "b", "a") },
        PlannedSend { step: 1, message: message("o", "b", "a") },
    ];
    h.plan(plan.len());
    let mut reported = Vec::new();
    for step in 0..2 {
        let due = h.plan_step(&plan, step).due.len();
        reported.push(due);
        h.finish_step(step, due);
    }
    assert_eq!(reported, vec![1, 1]);
    assert_eq!(h.ctx.metrics.sent_messages, 2);
    assert_eq!(h.ctx.metrics.planned_messages, 3);
}
