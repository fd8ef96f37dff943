//! The event queue, the log, the clock and the event loop of the simulation.
use tenet::protocol::MessageKind;
use tenet::relay::config::RelayControl;
use tenet::relay::config::MILLISECOND;
use tenet::simulation::client::SimulationClient;
use tenet::simulation::driver::latency_steps;
use tenet::simulation::driver::planned_sends_to_events;
use tenet::simulation::driver::relay_pause;
use tenet::simulation::driver::step_of;
use tenet::simulation::driver::EventBasedHarness;
use tenet::simulation::driver::EventControl;
use tenet::simulation::driver::EventLoopAction;
use tenet::simulation::driver::POLL_INTERVAL;
use tenet::simulation::driver::SIMULATED_SECOND;
use tenet::simulation::event::Event;
use tenet::simulation::event::EventLog;
use tenet::simulation::event::EventOutcome;
use tenet::simulation::event::EventQueue;
use tenet::simulation::event::SimulationClock;
use tenet::simulation::event::TimeControlMode;
use tenet::simulation::harness::SimulationHarness;
use tenet::simulation::message::PlannedSend;
use tenet::simulation::message::SimEnvelope;
use tenet::simulation::message::SimMessage;
use tenet::simulation::routing::PreparedSend;

use std::sync::atomic::AtomicBool;
use std::sync::atomic::Ordering;
use std::sync::Arc;

const SECOND: u64 = SIMULATED_SECOND;

fn poll(client: &str) -> Event {
    Event::InboxPoll { client_id: client.to_string() }
}

fn message(id: &str, from: &str, to: &str) -> SimMessage {
    SimMessage {
        id: id.to_string(),
        sender: from.to_string(),
        recipient: to.to_string(),
        body: "body".to_string(),
        payload: "payload".to_string(),
        message_kind: MessageKind::Direct,
        group_id: None,
    }
}

fn envelope(id: &str, from: &str, to: &str) -> SimEnvelope {
    SimEnvelope {
        message_id: id.to_string(),
        sender_id: from.to_string(),
        recipient_id: to.to_string(),
        message_kind: MessageKind::Direct,
        group_id: None,
        store_for: None,
        storage_peer_id: None,
        payload_size: 7,
        payload: "payload".to_string(),
    }
}

fn driver() -> EventBasedHarness {
    let clients = vec![
        SimulationClient::new("a", vec![true; 100]),
        SimulationClient::new("b", vec![true; 100]),
    ];
    let links = vec![("a".to_string(), "b".to_string()), ("b".to_string(), "a".to_string())];
    EventBasedHarness::new(
        SimulationHarness::new(clients, &links, true),
        SimulationClock::new(TimeControlMode::FastForward, 0),
        EventLog::new(0),
        Some(RelayControl::new(Arc::new(AtomicBool::new(false)))),
    )
}

#[test]
fn test_event_queue_ordering() {
    let mut queue = EventQueue::new();

    queue.push(10 * SECOND, poll("a"));
    queue.push(5 * SECOND, poll("b"));
    queue.push(15 * SECOND, poll("c"));
    queue.push(5 * SECOND, poll("d"));

    assert_eq!(queue.len(), 4);

    let e1 = queue.pop().unwrap();
    assert_eq!(e1.time, 5 * SECOND);

    let e2 = queue.pop().unwrap();
    assert_eq!(e2.time, 5 * SECOND);

    let e3 = queue.pop().unwrap();
    assert_eq!(e3.time, 10 * SECOND);

    let e4 = queue.pop().unwrap();
    assert_eq!(e4.time, 15 * SECOND);

    assert!(queue.is_empty());
}

#[test]
fn events_of_one_time_keep_their_order() {
    let mut queue = EventQueue::new();
    queue.push(5, poll("first"));
    queue.push(5, poll("second"));
    let a = queue.pop().unwrap();
    let b = queue.pop().unwrap();
    assert!(matches!(a.event, Event::InboxPoll { client_id } if client_id == "first"));
    assert!(matches!(b.event, Event::InboxPoll { client_id } if client_id == "second"));
    assert!(a.event_id < b.event_id);
    assert!(queue.pop().is_none());
}

#[test]
fn test_event_queue_peek_time() {
    let mut queue = EventQueue::new();
    assert_eq!(queue.peek_time(), None);

    queue.push(10 * SECOND, poll("a"));
    assert_eq!(queue.peek_time(), Some(10 * SECOND));

    queue.push(5 * SECOND, poll("b"));
    assert_eq!(queue.peek_time(), Some(5 * SECOND));

    queue.pop();
    assert_eq!(queue.peek_time(), Some(10 * SECOND));

    queue.pop();
    assert_eq!(queue.peek_time(), None);
}

#[test]
fn test_simulation_clock_fast_forward() {
    let mut clock = SimulationClock::new(TimeControlMode::FastForward, 0);
    assert_eq!(clock.simulated_time, 0);

    clock.jump_to(10 * SECOND, 1);
    assert_eq!(clock.simulated_time, 10 * SECOND);

    clock.jump_to(15 * SECOND + SECOND / 2, 2);
    assert_eq!(clock.simulated_time, 15 * SECOND + SECOND / 2);
    assert_eq!(clock.update(3, SECOND), 15 * SECOND + SECOND / 2);
}

#[test]
fn clock_follows_real_time() {
    let mut clock = SimulationClock::new(TimeControlMode::RealTime, 0);
    assert_eq!(clock.simulated_time, 0);
    assert_eq!(clock.update(100 * MILLISECOND, SECOND / 5), SECOND / 5);
    assert_eq!(clock.last_update, 100 * MILLISECOND);
}

#[test]
fn test_simulation_clock_paused() {
    let mut clock = SimulationClock::new(TimeControlMode::Paused, 0);
    assert_eq!(clock.simulated_time, 0);

    let time = clock.update(50 * MILLISECOND, SECOND);
    assert_eq!(time, 0);

    clock.jump_to(100 * SECOND, 60 * MILLISECOND);
    assert_eq!(clock.simulated_time, 100 * SECOND);
}

#[test]
fn test_event_log_recording() {
    let mut log = EventLog::new(0);
    assert!(log.is_empty());

    log.record(
        0,
        SECOND,
        5 * MILLISECOND,
        EventOutcome::MessageSent { envelope_id: "msg1".to_string(), posted_to_relay: true },
    );

    assert_eq!(log.len(), 1);
    assert!(!log.is_empty());
    assert_eq!(log.events()[0].wall_time_millis, 5);

    log.record(1, 2 * SECOND, 0, EventOutcome::MessageDelivered { accepted: true });

    assert_eq!(log.len(), 2);
}

#[test]
fn test_event_log_time_range_query() {
    let mut log = EventLog::new(0);

    log.record(
        0,
        SECOND,
        0,
        EventOutcome::MessageSent { envelope_id: "msg1".to_string(), posted_to_relay: true },
    );
    log.record(1, 5 * SECOND, 0, EventOutcome::MessageDelivered { accepted: true });
    log.record(2, 10 * SECOND, 0, EventOutcome::InboxPolled { messages_fetched: 3 });

    let events = log.events_in_time_range(0, 6 * SECOND);
    assert_eq!(events.len(), 2);

    let events = log.events_in_time_range(5 * SECOND, 10 * SECOND);
    assert_eq!(events.len(), 2);

    let events = log.events_in_time_range(11 * SECOND, 20 * SECOND);
    assert_eq!(events.len(), 0);
}

#[test]
fn loop_jumps_from_event_to_event() {
    let mut d = driver();
    assert!(matches!(d.next_action(100 * SECOND), EventLoopAction::Finish));
    d.schedule_event(7 * SECOND, poll("a"));
    assert!(matches!(d.next_action(100 * SECOND), EventLoopAction::JumpTo(t) if t == 7 * SECOND));
    assert!(matches!(d.next_action(5 * SECOND), EventLoopAction::Finish));
    d.clock.jump_to(7 * SECOND, 0);
    assert!(d.pop_due().is_some());
    d.obey(EventControl::Stop, 0);
    assert!(matches!(d.next_action(100 * SECOND), EventLoopAction::Finish));
}

#[test]
fn pausing_reaches_the_relay() {
    let mut d = driver();
    d.schedule_event(SECOND, poll("a"));
    let flag = Arc::new(AtomicBool::new(false));
    d.relay_control = Some(RelayControl::new(Arc::clone(&flag)));
    d.obey(EventControl::SetPaused { paused: true }, 0);
    assert_eq!(d.clock.mode, TimeControlMode::Paused);
    assert!(flag.load(Ordering::SeqCst));
    assert_eq!(relay_pause(&EventControl::SetPaused { paused: false }), Some(false));
    assert_eq!(relay_pause(&EventControl::Stop), None);
    assert!(matches!(d.next_action(100 * SECOND), EventLoopAction::Wait));
    d.obey(EventControl::JumpToTime { time: 3 * SECOND }, 0);
    assert_eq!(d.clock.simulated_time, 3 * SECOND);
    d.obey(EventControl::SetTimeControlMode { mode: TimeControlMode::FastForward }, 0);
    assert_eq!(d.clock.mode, TimeControlMode::FastForward);
}

#[test]
fn sending_schedules_a_delivery() {
    let mut d = driver();
    let sent = d.handle_message_send(
        &"a".to_string(),
        message("m", "a", "b"),
        PreparedSend {
            envelope: Some(envelope("m", "a", "b")),
            decoded: Some(message("m", "a", "b")),
            stored: None,
        },
        SECOND,
    );
    assert!(matches!(sent.outcome, EventOutcome::MessageSent { .. }));
    assert_eq!(d.base.ctx.metrics.sent_messages, 1);
    let accepted = d.handle_message_deliver(&"b".to_string(), &envelope("m", "a", "b"), "hello");
    assert!(matches!(accepted, EventOutcome::MessageDelivered { accepted: true }));
    let again = d.handle_message_deliver(&"b".to_string(), &envelope("m", "a", "b"), "hello");
    assert!(matches!(again, EventOutcome::MessageDelivered { accepted: false }));
}

#[test]
fn coming_online_schedules_a_poll_and_an_announcement() {
    let mut d = driver();
    let who = "a".to_string();
    d.handle_online_transition(&who, false);
    assert!(!d.is_online(&who));
    assert_eq!(d.event_queue.len(), 0);
    let (outcome, _) = d.handle_online_transition(&who, true);
    assert!(matches!(outcome, EventOutcome::OnlineTransitioned { new_state: true }));
    assert!(d.is_online(&who));
    assert_eq!(d.event_queue.len(), 2);
    assert_eq!(d.event_queue.peek_time(), Some(SECOND / 20));
    let outcome = d.handle_inbox_poll(&who, &Vec::new());
    assert!(matches!(outcome, EventOutcome::InboxPolled { messages_fetched: 0 }));
    assert_eq!(d.event_queue.len(), 3);
    d.clock.jump_to(POLL_INTERVAL, 0);
    d.log_outcome(1, POLL_INTERVAL, 7_900_000, EventOutcome::OnlineAnnounced);
    assert_eq!(d.event_log.len(), 1);
    assert_eq!(d.event_log.events()[0].wall_time_millis, 7);
}

#[test]
fn steps_are_seconds() {
    assert_eq!(step_of(3 * SECOND + 5), 3);
    assert_eq!(latency_steps(5 * SECOND, 2 * SECOND), 3);
    assert_eq!(latency_steps(2 * SECOND, 5 * SECOND), 0);
    let plan = vec![PlannedSend { step: 2, message: message("m", "a", "b") }];
    let events = planned_sends_to_events(&plan, 60 * SECOND);
    assert_eq!(events.len(), 1);
    assert_eq!(events[0].time, 120 * SECOND);
    assert!(matches!(
        &events[0].event,
        Event::MessageSend { sender_id, message } if sender_id == "a" && message.id == "m"
    ));
}

#[test]
fn clock_knows_how_long_it_runs() {
    let mut c = SimulationClock::new(TimeControlMode::FastForward, 100);
    c.jump_to(7, 150);
    c.set_mode(TimeControlMode::Paused, 160);
    assert_eq!(c.wall_time_elapsed(175), 75);
    assert_eq!(c.wall_time_elapsed(50), 0);
}

#[test]
fn accepted_friend_requests_make_friends() {
    let clients = vec![
        SimulationClient::new("a", vec![true; 100]),
        SimulationClient::new("b", vec![true; 100]),
    ];
    let mut d = EventBasedHarness::new(
        SimulationHarness::new(clients, &Vec::new(), true),
        SimulationClock::new(TimeControlMode::FastForward, 0),
        EventLog::new(0),
        None,
    );
    let (a, b) = ("a".to_string(), "b".to_string());
    let link = (a.clone(), b.clone());
    d.handle_friend_request(&a, &b, 3 * SECOND);
    assert!(!d.base.ctx.direct_links.contains_key(&link));
    let e = d.event_queue.pop().expect("an acceptance");
    assert_eq!(e.time, 3 * SECOND);
    assert!(matches!(
        e.event,
        Event::FriendAccept { sender_id, recipient_id } if sender_id == "a" && recipient_id == "b"
    ));
    d.handle_friend_accept(&a, &b);
    assert!(d.base.ctx.direct_links.contains_key(&link));
    assert!(d.base.ctx.direct_links.contains_key(&(b, a)));
}
