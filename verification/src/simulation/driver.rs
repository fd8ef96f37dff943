//! A simulation that runs event by event.
use vstd::prelude::*;
use vstd::string::*;

use crate::keyed::KeyedMap;
use crate::relay::config::RelayControl;
use crate::simulation::client::applied;
use crate::simulation::client::handled;
use crate::simulation::client::ClientView;
use crate::simulation::client::ContextView;
use crate::simulation::client::DeliveryKind;
use crate::simulation::client::IncomingEnvelopeAction;
use crate::simulation::event::is_next;
use crate::simulation::event::millis_since;
use crate::simulation::event::Event;
use crate::simulation::event::EventLog;
use crate::simulation::event::EventOutcome;
use crate::simulation::event::EventQueue;
use crate::simulation::event::ProcessedEvent;
use crate::simulation::event::ScheduledEvent;
use crate::simulation::event::SimulationClock;
use crate::simulation::event::TimeControlMode;
use crate::simulation::harness::befriended;
use crate::simulation::harness::client_in_order;
use crate::simulation::harness::online_in;
use crate::simulation::harness::SimulationHarness;
use crate::simulation::message::PlannedSend;
use crate::simulation::message::SimEnvelope;
use crate::simulation::message::SimMessage;
use crate::simulation::metrics::sat_add;
use crate::simulation::metrics::SimulationMetrics;
use crate::simulation::routing::all_direct;
use crate::simulation::routing::all_posted;
use crate::simulation::routing::all_sent;
use crate::simulation::routing::enqueue_sends;
use crate::simulation::routing::goes_directly;
use crate::simulation::routing::posted;
use crate::simulation::routing::sent_one;
use crate::simulation::routing::PreparedSend;
use crate::simulation::steps::envelopes_from;
use crate::simulation::steps::forwarded_by;
use crate::simulation::steps::forwarded_by_all;
use crate::simulation::steps::seen_by;
use crate::simulation::steps::with_client;
use crate::simulation::steps::World;
use crate::text::copy_opt;
use crate::text::texts;

verus! {

/// Nanoseconds of simulated time in a second.
pub const SIMULATED_SECOND: u64 = 1_000_000_000;

/// How long after coming online a client polls its inbox.
pub const POLL_AFTER_ONLINE: u64 = 100_000_000;

/// How long after coming online a client announces itself.
pub const ANNOUNCE_AFTER_ONLINE: u64 = 50_000_000;

/// How long a client waits between two polls.
pub const POLL_INTERVAL: u64 = 60_000_000_000;

/// A simulated time later by `delay`; simulated time ends at the largest number of nanoseconds.
pub open spec fn later(time: u64, delay: u64) -> u64 {
    if time + delay > u64::MAX {
        u64::MAX
    } else {
        (time + delay) as u64
    }
}

/// The step that a simulated time falls in: the seconds that have gone by.
pub open spec fn step_at(time: u64) -> usize {
    if time / SIMULATED_SECOND > usize::MAX {
        usize::MAX
    } else {
        (time / SIMULATED_SECOND) as usize
    }
}

/// The step that a simulated time falls in.
pub fn step_of(time: u64) -> (r: usize)
    ensures
        r == step_at(time),
{
    let seconds: u64 = time / SIMULATED_SECOND;
    if seconds > usize::MAX as u64 {
        usize::MAX
    } else {
        seconds as usize
    }
}

/// What a run does next.
#[derive(Clone, Copy, Debug, PartialEq, Eq, Structural)]
pub enum EventLoopAction {
    /// Jump to the time of the next event at once.
    JumpTo(u64),
    /// Let real time catch up with the time of the next event.
    CatchUp(u64),
    /// Wait a moment and look for commands again.
    Wait,
    /// The run is over.
    Finish,
}

/// A command for a run.
pub enum EventControl {
    SetTimeControlMode { mode: TimeControlMode },
    JumpToTime { time: u64 },
    SetPaused { paused: bool },
    /// Run in real time, at a given speed.
    SetSpeedFactor,
    /// Change the speed, if the run is in real time.
    AdjustSpeedFactor,
    Stop,
}

/// Whether the relay's log output is to be held back or let through on a command, if it says so.
pub fn relay_pause(command: &EventControl) -> (r: Option<bool>)
    ensures
        r == (match command {
            EventControl::SetPaused { paused } => Some(*paused),
            _ => None,
        }),
{
    match command {
        EventControl::SetPaused { paused } => Some(*paused),
        _ => None,
    }
}

/// What comes of sending a message.
pub struct SendResult {
    pub outcome: EventOutcome,
    /// Envelopes to be posted.
    pub post: Vec<SimEnvelope>,
}

/// Everybody, as a set of those that can be reached.
pub open spec fn everyone(clients: Map<Seq<char>, ClientView>) -> Map<Seq<char>, bool> {
    Map::new(|p: Seq<char>| clients.contains_key(p), |p: Seq<char>| true)
}

/// One peer alone, as a set of those that can be reached.
pub open spec fn only(who: Seq<char>) -> Map<Seq<char>, bool> {
    Map::<Seq<char>, bool>::empty().insert(who, true)
}

/// The world in which one more message has been sent.
pub open spec fn one_sent(w: World) -> World {
    World {
        ctx: ContextView {
            metrics: SimulationMetrics {
                sent_messages: sat_add(w.ctx.metrics.sent_messages, 1),
                ..w.ctx.metrics
            },
            ..w.ctx
        },
        ..w
    }
}

/// Clients, their events, and a clock.
pub struct EventBasedHarness {
    pub base: SimulationHarness,
    /// Who went online or offline last.
    pub transitions: KeyedMap<String, bool>,
    pub event_queue: EventQueue,
    pub event_log: EventLog,
    pub clock: SimulationClock,
    pub relay_control: Option<RelayControl>,
    pub stop_requested: bool,
}

/// Whether `who` is online at a time: as its last transition says, and by its schedule before it
/// had one.
pub open spec fn online_now(
    w: World,
    transitions: Map<Seq<char>, bool>,
    who: Seq<char>,
    time: u64,
) -> bool {
    w.clients.contains_key(who) && if transitions.contains_key(who) {
        transitions[who]
    } else {
        online_in(w.clients[who], step_at(time))
    }
}

/// The message that an envelope brings to `recipient`.
pub open spec fn carries(
    e: SimEnvelope,
    recipient: Seq<char>,
    body: Seq<char>,
    m: SimMessage,
) -> bool {
    &&& m.id == e.message_id
    &&& m.sender == e.sender_id
    &&& m.recipient@ == recipient
    &&& m.body@ == body
    &&& m.payload == e.payload
    &&& m.message_kind == e.message_kind
    &&& m.group_id == e.group_id
}

impl EventBasedHarness {
    pub open spec fn wf(&self) -> bool {
        &&& self.base.wf()
        &&& self.transitions.wf()
        &&& self.event_queue.wf()
    }

    /// Everything but clients, shared state and queue is as in `other`.
    pub open spec fn keeps_rest(&self, other: &EventBasedHarness) -> bool {
        &&& self.event_log == other.event_log
        &&& self.clock == other.clock
        &&& self.relay_control == other.relay_control
        &&& self.stop_requested == other.stop_requested
        &&& self.base.previous_online == other.base.previous_online
    }

    pub fn new(base: SimulationHarness, clock: SimulationClock, event_log: EventLog, relay_control: Option<RelayControl>) -> (r:
        Self)
        requires
            base.wf(),
        ensures
            r.wf(),
            r.base == base,
            r.clock == clock,
            r.event_log == event_log,
            r.relay_control == relay_control,
            !r.stop_requested,
            r.event_queue@ == Seq::<ScheduledEvent>::empty(),
            r.event_queue.counter() == 0,
            r.transitions@ == Map::<Seq<char>, bool>::empty(),
    {
        EventBasedHarness {
            base,
            transitions: KeyedMap::new(),
            event_queue: EventQueue::new(),
            event_log,
            clock,
            relay_control,
            stop_requested: false,
        }
    }

    /// Schedules an event.
    pub fn schedule_event(&mut self, time: u64, event: Event)
        requires
            old(self).wf(),
            old(self).event_queue.counter() < u64::MAX,
        ensures
            final(self).wf(),
            final(self).keeps_rest(old(self)),
            final(self).base == old(self).base,
            final(self).transitions == old(self).transitions,
            final(self).event_queue.counter() == old(self).event_queue.counter() + 1,
            final(self).event_queue@ == old(self).event_queue@.push(
                ScheduledEvent { time, event, event_id: old(self).event_queue.counter() },
            ),
    {
        self.event_queue.push(time, event);
    }

    /// What to do next: nothing once a stop was requested or no event is left within the
    /// duration; otherwise move on to the next event as the mode says.
    pub fn next_action(&self, duration: u64) -> (r: EventLoopAction)
        requires
            self.wf(),
        ensures
            (r == EventLoopAction::Finish) == (self.stop_requested || forall|i: int|
                0 <= i < self.event_queue@.len() ==> (#[trigger] self.event_queue@[i]).time
                    > duration),
            r != EventLoopAction::Finish ==> exists|i: int| #[trigger]
                is_next(self.event_queue@, i) && r == (match self.clock.mode {
                    TimeControlMode::FastForward => EventLoopAction::JumpTo(
                        self.event_queue@[i].time,
                    ),
                    TimeControlMode::RealTime => EventLoopAction::CatchUp(
                        self.event_queue@[i].time,
                    ),
                    TimeControlMode::Paused => EventLoopAction::Wait,
                }),
    {
        if self.stop_requested {
            return EventLoopAction::Finish;
        }
        match self.event_queue.peek_time() {
            None => EventLoopAction::Finish,
            Some(time) => {
                let ghost k = choose|k: int| #[trigger]
                    is_next(self.event_queue@, k) && time == self.event_queue@[k].time;
                if time > duration {
                    proof {
                        assert forall|i: int| 0 <= i < self.event_queue@.len() implies (
                        #[trigger] self.event_queue@[i]).time > duration by {
                            if i != k {
                                assert(crate::simulation::event::precedes(
                                    self.event_queue@[k],
                                    self.event_queue@[i],
                                ));
                            }
                        }
                    }
                    EventLoopAction::Finish
                } else {
                    assert(self.event_queue@[k].time <= duration);
                    match self.clock.mode {
                        TimeControlMode::FastForward => EventLoopAction::JumpTo(time),
                        TimeControlMode::RealTime => EventLoopAction::CatchUp(time),
                        TimeControlMode::Paused => EventLoopAction::Wait,
                    }
                }
            },
        }
    }

    /// Obeys a command at the wall time `now`. What `relay_pause` says of it is set on the switch
    /// of the relay, where there is one.
    pub fn obey(&mut self, command: EventControl, now: u128)
        requires
            old(self).wf(),
        ensures
            final(self).wf(),
            final(self).base == old(self).base,
            final(self).transitions == old(self).transitions,
            final(self).event_queue == old(self).event_queue,
            final(self).event_log == old(self).event_log,
            final(self).stop_requested == (old(self).stop_requested || command is Stop),
            final(self).clock == (match command {
                EventControl::SetTimeControlMode { mode } => SimulationClock {
                    mode,
                    last_update: now,
                    ..old(self).clock
                },
                EventControl::JumpToTime { time } => SimulationClock {
                    simulated_time: time,
                    last_update: now,
                    ..old(self).clock
                },
                EventControl::SetPaused { paused } => SimulationClock {
                    mode: if paused {
                        TimeControlMode::Paused
                    } else {
                        TimeControlMode::RealTime
                    },
                    last_update: now,
                    ..old(self).clock
                },
                EventControl::SetSpeedFactor => SimulationClock {
                    mode: TimeControlMode::RealTime,
                    last_update: now,
                    ..old(self).clock
                },
                EventControl::AdjustSpeedFactor => if old(self).clock.mode
                    == TimeControlMode::RealTime {
                    SimulationClock { last_update: now, ..old(self).clock }
                } else {
                    old(self).clock
                },
                EventControl::Stop => old(self).clock,
            }),
            final(self).relay_control == old(self).relay_control,
    {
        match (relay_pause(&command), &self.relay_control) {
            (Some(paused), Some(control)) => {
                control.set_paused(paused);
            },
            _ => {},
        }
        match command {
            EventControl::SetTimeControlMode { mode } => {
                self.clock.set_mode(mode, now);
            },
            EventControl::JumpToTime { time } => {
                self.clock.jump_to(time, now);
            },
            EventControl::SetPaused { paused } => {
                self.clock.set_mode(
                    if paused {
                        TimeControlMode::Paused
                    } else {
                        TimeControlMode::RealTime
                    },
                    now,
                );
            },
            EventControl::SetSpeedFactor => {
                self.clock.set_mode(TimeControlMode::RealTime, now);
            },
            EventControl::AdjustSpeedFactor => {
                if self.clock.mode == TimeControlMode::RealTime {
                    self.clock.set_mode(TimeControlMode::RealTime, now);
                }
            },
            EventControl::Stop => {
                self.stop_requested = true;
            },
        }
    }

    /// Takes out the next event if its time has come. One whose time has not come is put back,
    /// behind others of the same time.
    pub fn pop_due(&mut self) -> (r: Option<ScheduledEvent>)
        requires
            old(self).wf(),
            old(self).event_queue.counter() < u64::MAX,
        ensures
            final(self).wf(),
            final(self).keeps_rest(old(self)),
            final(self).base == old(self).base,
            final(self).transitions == old(self).transitions,
            old(self).event_queue@.len() == 0 ==> r is None && final(self).event_queue@ == old(
                self,
            ).event_queue@,
            old(self).event_queue@.len() > 0 ==> exists|i: int| #[trigger]
                is_next(old(self).event_queue@, i) && {
                    let e = old(self).event_queue@[i];
                    let rest = old(self).event_queue@.remove(i);
                    if e.time <= old(self).clock.simulated_time {
                        &&& r == Some(e)
                        &&& final(self).event_queue@ == rest
                        &&& final(self).event_queue.counter() == old(self).event_queue.counter()
                    } else {
                        &&& r is None
                        &&& final(self).event_queue@ == rest.push(
                            ScheduledEvent { event_id: old(self).event_queue.counter(), ..e },
                        )
                        &&& final(self).event_queue.counter() == old(self).event_queue.counter() + 1
                    }
                },
    {
        match self.event_queue.pop() {
            None => None,
            Some(scheduled) => {
                if scheduled.time > self.clock.simulated_time {
                    self.event_queue.push(scheduled.time, scheduled.event);
                    None
                } else {
                    Some(scheduled)
                }
            },
        }
    }

    /// Records an event that has been processed, at the wall time `now`.
    pub fn log_outcome(&mut self, event_id: u64, time: u64, now: u128, outcome: EventOutcome)
        requires
            old(self).wf(),
        ensures
            final(self).wf(),
            final(self).base == old(self).base,
            final(self).transitions == old(self).transitions,
            final(self).event_queue == old(self).event_queue,
            final(self).clock == old(self).clock,
            final(self).relay_control == old(self).relay_control,
            final(self).stop_requested == old(self).stop_requested,
            final(self).event_log.opened() == old(self).event_log.opened(),
            final(self).event_log@ == old(self).event_log@.push(
                ProcessedEvent {
                    event_id,
                    simulated_time: time,
                    wall_time_millis: millis_since(now, old(self).event_log.opened()),
                    outcome,
                },
            ),
    {
        self.event_log.record(event_id, time, now, outcome);
    }

    /// Everybody, as a set of those that can be reached.
    fn reachable(&self) -> (r: KeyedMap<String, bool>)
        requires
            self.wf(),
        ensures
            r.wf(),
            r@ == everyone(self.base.clients@),
    {
        let clients = &self.base.clients;
        let mut r: KeyedMap<String, bool> = KeyedMap::new();
        let mut i: usize = 0;
        proof {
            clients.lemma_entries();
        }
        while i < clients.len()
            invariant
                clients.wf(),
                i <= clients.count(),
                r.wf(),
                forall|p: Seq<char>| #[trigger]
                    r@.contains_key(p) <==> exists|j: int|
                        0 <= j < i && #[trigger] clients.name_at(j) == p,
                forall|p: Seq<char>| #[trigger] r@.contains_key(p) ==> r@[p],
            decreases clients.count() - i,
        {
            let ghost before = r@;
            let key = clients.key_at(i);
            r.insert(key.clone(), true);
            proof {
                let n = clients.name_at(i as int);
                assert(r@ == before.insert(n, true));
                assert forall|p: Seq<char>| #[trigger]
                    r@.contains_key(p) <==> exists|j: int|
                        0 <= j < i + 1 && #[trigger] clients.name_at(j) == p by {
                    if r@.contains_key(p) && p != n {
                        assert(before.contains_key(p));
                        let j = choose|j: int| 0 <= j < i && #[trigger] clients.name_at(j) == p;
                        assert(clients.name_at(j) == p && j < i + 1);
                    }
                    if exists|j: int| 0 <= j < i + 1 && #[trigger] clients.name_at(j) == p {
                        let j = choose|j: int| 0 <= j < i + 1 && #[trigger] clients.name_at(j) == p;
                        if j < i {
                            assert(before.contains_key(p));
                        }
                    }
                }
            }
            i = i + 1;
        }
        proof {
            assert(r@ =~= everyone(clients@)) by {
                assert forall|p: Seq<char>| r@.contains_key(p) == everyone(
                    clients@,
                ).contains_key(p) by {
                    if r@.contains_key(p) {
                        let j = choose|j: int| 0 <= j < i && #[trigger] clients.name_at(j) == p;
                        assert(clients@.contains_key(clients.name_at(j)));
                    }
                }
            }
        }
        r
    }

    /// Sends a message that is due, given what was prepared for it. One that goes over a direct
    /// link arrives after `latency`. A sender that does not exist sends nothing.
    pub fn handle_message_send(
        &mut self,
        sender_id: &String,
        message: SimMessage,
        prepared: PreparedSend,
        latency: u64,
    ) -> (r: SendResult)
        requires
            old(self).wf(),
            old(self).event_queue.counter() < u64::MAX,
        ensures
            final(self).wf(),
            final(self).keeps_rest(old(self)),
            final(self).transitions == old(self).transitions,
            final(self).base.clients == old(self).base.clients,
            ({
                let w = old(self).base.world();
                let now = old(self).clock.simulated_time;
                let all = everyone(w.clients);
                let c = one_sent(w).ctx;
                if !w.clients.contains_key(sender_id@) {
                    &&& final(self).base == old(self).base
                    &&& final(self).event_queue == old(self).event_queue
                    &&& r.post@.len() == 0
                    &&& r.outcome == (EventOutcome::MessageSent {
                        envelope_id: message.id,
                        posted_to_relay: false,
                    })
                } else {
                    &&& final(self).base.ctx@ == sent_one(
                        c,
                        step_at(now),
                        message,
                        prepared,
                        all,
                    )
                    &&& match prepared.envelope {
                        None => {
                            &&& r.post@.len() == 0
                            &&& r.outcome == (EventOutcome::MessageSent {
                                envelope_id: message.id,
                                posted_to_relay: false,
                            })
                        },
                        Some(_) => {
                            &&& r.post@ == seq![posted(c, message, prepared, all)]
                            &&& r.outcome == (EventOutcome::MessageSent {
                                envelope_id: posted(c, message, prepared, all).message_id,
                                posted_to_relay: true,
                            })
                        },
                    }
                    &&& if prepared.envelope is Some && prepared.decoded is Some && goes_directly(
                        c,
                        message,
                        all,
                    ) {
                        &&& final(self).event_queue.counter() == old(self).event_queue.counter()
                            + 1
                        &&& final(self).event_queue@ == old(self).event_queue@.push(
                            ScheduledEvent {
                                time: later(now, latency),
                                event: Event::MessageDeliver {
                                    recipient_id: prepared.decoded->0.recipient,
                                    envelope: posted(c, message, prepared, all),
                                    send_time: now,
                                },
                                event_id: old(self).event_queue.counter(),
                            },
                        )
                    } else {
                        final(self).event_queue == old(self).event_queue
                    }
                }
            }),
    {
        if !self.base.clients.contains_key(sender_id) {
            return SendResult {
                outcome: EventOutcome::MessageSent {
                    envelope_id: message.id,
                    posted_to_relay: false,
                },
                post: Vec::new(),
            };
        }
        let ghost w = self.base.world();
        let ghost all = everyone(w.clients);
        let ghost c = one_sent(w).ctx;
        let ghost m = message;
        let ghost p = prepared;
        let now: u64 = self.clock.simulated_time;
        let online = self.reachable();
        self.base.ctx.metrics.sent_messages =
            self.base.ctx.metrics.sent_messages.saturating_add(1);
        let id = message.id.clone();
        let mut messages: Vec<SimMessage> = Vec::new();
        messages.push(message);
        let mut ready: Vec<PreparedSend> = Vec::new();
        ready.push(prepared);
        let step: usize = step_of(now);
        let outcome = enqueue_sends(step, &messages, &ready, &online, &mut self.base.ctx);
        proof {
            assert(messages@.drop_last() =~= Seq::empty());
            assert(all_sent(c, step, messages@.drop_last(), ready@, all) == c);
            assert(all_posted(c, messages@.drop_last(), ready@, all) == Seq::<SimEnvelope>::empty());
            assert(all_direct(c, messages@.drop_last(), ready@, all) == Seq::<SimMessage>::empty());
            assert(messages@[0] == m && ready@[0] == p);
            if p.envelope is Some {
                assert(outcome.envelopes@ =~= seq![posted(c, m, p, all)]);
            }
        }
        if outcome.envelopes.len() == 0 {
            return SendResult {
                outcome: EventOutcome::MessageSent { envelope_id: id, posted_to_relay: false },
                post: outcome.envelopes,
            };
        }
        if outcome.direct_deliveries.len() > 0 {
            let time: u64 = now.saturating_add(latency);
            self.event_queue.push(
                time,
                Event::MessageDeliver {
                    recipient_id: outcome.direct_deliveries[0].recipient.clone(),
                    envelope: outcome.envelopes[0].copied(),
                    send_time: now,
                },
            );
        }
        SendResult {
            outcome: EventOutcome::MessageSent {
                envelope_id: outcome.envelopes[0].message_id.clone(),
                posted_to_relay: true,
            },
            post: outcome.envelopes,
        }
    }

    /// Delivers an envelope whose payload reads `body`. One for somebody that does not exist is
    /// not accepted, nor is one whose latency is not known.
    pub fn handle_message_deliver(
        &mut self,
        recipient_id: &String,
        envelope: &SimEnvelope,
        body: &str,
    ) -> (r: EventOutcome)
        requires
            old(self).wf(),
        ensures
            final(self).wf(),
            final(self).keeps_rest(old(self)),
            final(self).transitions == old(self).transitions,
            final(self).event_queue == old(self).event_queue,
            if old(self).base.clients@.contains_key(recipient_id@) {
                exists|m: SimMessage| #[trigger]
                    carries(*envelope, recipient_id@, body@, m) && {
                        let (s, note) = applied(
                            seen_by(old(self).base.world(), recipient_id@),
                            step_at(old(self).clock.simulated_time),
                            m,
                            DeliveryKind::Direct,
                        );
                        &&& final(self).base.world() == with_client(
                            old(self).base.world(),
                            recipient_id@,
                            s,
                        )
                        &&& r == (EventOutcome::MessageDelivered { accepted: note is Some })
                    }
            } else {
                &&& final(self).base.world() == old(self).base.world()
                &&& r == (EventOutcome::MessageDelivered { accepted: false })
            },
    {
        let ghost w = self.base.world();
        let step: usize = step_of(self.clock.simulated_time);
        match self.base.clients.remove(recipient_id) {
            None => {
                assert(self.base.clients@ =~= w.clients);
                assert(self.base.clients.all(client_in_order()));
                EventOutcome::MessageDelivered { accepted: false }
            },
            Some(client) => {
                assert(self.base.clients.all(client_in_order()));
                let mut client = client;
                let message = SimMessage {
                    id: envelope.message_id.clone(),
                    sender: envelope.sender_id.clone(),
                    recipient: recipient_id.clone(),
                    body: body.to_owned(),
                    payload: envelope.payload.clone(),
                    message_kind: envelope.message_kind,
                    group_id: copy_opt(&envelope.group_id),
                };
                let ghost m = message;
                assert(carries(*envelope, recipient_id@, body@, m));
                let note = client.handle_direct_delivery(step, message, &mut self.base.ctx);
                let ghost c = client@;
                self.base.clients.insert(recipient_id.clone(), client);
                assert(self.base.clients.all(client_in_order()));
                assert(self.base.clients@ =~= w.clients.insert(recipient_id@, c));
                EventOutcome::MessageDelivered { accepted: note.is_some() }
            },
        }
    }

    /// Whether a client is online now.
    pub fn is_online(&self, client_id: &String) -> (r: bool)
        requires
            self.wf(),
        ensures
            r == online_now(
                self.base.world(),
                self.transitions@,
                client_id@,
                self.clock.simulated_time,
            ),
    {
        match self.base.clients.get(client_id) {
            None => false,
            Some(c) => match self.transitions.get(client_id) {
                Some(state) => *state,
                None => c.online_at(step_of(self.clock.simulated_time)),
            },
        }
    }

    /// A friend request goes out: it is accepted after `delay`.
    pub fn handle_friend_request(
        &mut self,
        sender_id: &String,
        recipient_id: &String,
        delay: u64,
    ) -> (r: EventOutcome)
        requires
            old(self).wf(),
            old(self).event_queue.counter() < u64::MAX,
        ensures
            final(self).wf(),
            final(self).keeps_rest(old(self)),
            r == (EventOutcome::CustomActionExecuted { success: true }),
            final(self).base == old(self).base,
            final(self).transitions == old(self).transitions,
            final(self).event_queue.counter() == old(self).event_queue.counter() + 1,
            final(self).event_queue@ == old(self).event_queue@.push(
                ScheduledEvent {
                    time: later(old(self).clock.simulated_time, delay),
                    event: Event::FriendAccept {
                        sender_id: *sender_id,
                        recipient_id: *recipient_id,
                    },
                    event_id: old(self).event_queue.counter(),
                },
            ),
    {
        let time: u64 = self.clock.simulated_time.saturating_add(delay);
        self.event_queue.push(
            time,
            Event::FriendAccept {
                sender_id: sender_id.clone(),
                recipient_id: recipient_id.clone(),
            },
        );
        EventOutcome::CustomActionExecuted { success: true }
    }

    /// A friend request was accepted: the two are friends from now on, where both exist.
    pub fn handle_friend_accept(&mut self, sender_id: &String, recipient_id: &String) -> (r:
        EventOutcome)
        requires
            old(self).wf(),
        ensures
            final(self).wf(),
            final(self).keeps_rest(old(self)),
            r == (EventOutcome::CustomActionExecuted { success: true }),
            final(self).transitions == old(self).transitions,
            final(self).event_queue == old(self).event_queue,
            final(self).base.clients == old(self).base.clients,
            final(self).base.ctx@ == (if old(self).base.clients@.contains_key(sender_id@) && old(
                self,
            ).base.clients@.contains_key(recipient_id@) {
                befriended(old(self).base.ctx@, sender_id@, recipient_id@)
            } else {
                old(self).base.ctx@
            }),
    {
        self.base.add_friendship(sender_id, recipient_id);
        EventOutcome::CustomActionExecuted { success: true }
    }

    /// Lets a client go online or offline. One that comes online polls its inbox and announces
    /// itself shortly after, and forwards what it keeps. Hands back the envelopes to be posted.
    pub fn handle_online_transition(&mut self, client_id: &String, going_online: bool) -> (r: (
        EventOutcome,
        Vec<SimEnvelope>,
    ))
        requires
            old(self).wf(),
            old(self).event_queue.counter() < u64::MAX - 1,
        ensures
            final(self).wf(),
            final(self).keeps_rest(old(self)),
            r.0 == (EventOutcome::OnlineTransitioned { new_state: going_online }),
            final(self).transitions@ == (if old(self).base.clients@.contains_key(client_id@) {
                old(self).transitions@.insert(client_id@, going_online)
            } else {
                old(self).transitions@
            }),
            ({
                let w = old(self).base.world();
                let now = old(self).clock.simulated_time;
                let n = old(self).event_queue.counter();
                if going_online {
                    &&& final(self).event_queue.counter() == n + 2
                    &&& final(self).event_queue@ == old(self).event_queue@.push(
                        ScheduledEvent {
                            time: later(now, POLL_AFTER_ONLINE),
                            event: Event::InboxPoll { client_id: *client_id },
                            event_id: n,
                        },
                    ).push(
                        ScheduledEvent {
                            time: later(now, ANNOUNCE_AFTER_ONLINE),
                            event: Event::OnlineAnnounce { client_id: *client_id },
                            event_id: (n + 1) as u64,
                        },
                    )
                    &&& final(self).base.world() == forwarded_by(w, client_id@, only(client_id@))
                    &&& r.1@ == envelopes_from(w, client_id@, only(client_id@))
                } else {
                    &&& final(self).event_queue == old(self).event_queue
                    &&& final(self).base == old(self).base
                    &&& r.1@ == Seq::<SimEnvelope>::empty()
                }
            }),
    {
        if self.base.clients.contains_key(client_id) {
            self.transitions.insert(client_id.clone(), going_online);
        }
        let outcome = EventOutcome::OnlineTransitioned { new_state: going_online };
        if !going_online {
            return (outcome, Vec::new());
        }
        let now: u64 = self.clock.simulated_time;
        self.event_queue.push(
            now.saturating_add(POLL_AFTER_ONLINE),
            Event::InboxPoll { client_id: client_id.clone() },
        );
        self.event_queue.push(
            now.saturating_add(ANNOUNCE_AFTER_ONLINE),
            Event::OnlineAnnounce { client_id: client_id.clone() },
        );
        let ghost w = self.base.world();
        let mut online: KeyedMap<String, bool> = KeyedMap::new();
        online.insert(client_id.clone(), true);
        let mut peers: Vec<String> = Vec::new();
        peers.push(client_id.clone());
        let envelopes = self.base.forward_stored(&peers, &online);
        proof {
            let names = texts(peers@);
            assert(names =~= seq![client_id@]);
            assert(names.drop_last() =~= Seq::empty());
            assert(forwarded_by_all(w, names.drop_last(), online@) == (
                w,
                Seq::<SimEnvelope>::empty(),
            ));
            assert(Seq::<SimEnvelope>::empty() + envelopes_from(w, client_id@, online@)
                =~= envelopes_from(w, client_id@, online@));
        }
        (outcome, envelopes)
    }

    /// Lets a client handle what it fetched from its inbox, given what was found in each
    /// envelope, and schedules its next poll. A client that is offline does nothing.
    pub fn handle_inbox_poll(
        &mut self,
        client_id: &String,
        actions: &Vec<Option<IncomingEnvelopeAction>>,
    ) -> (r: EventOutcome)
        requires
            old(self).wf(),
            old(self).event_queue.counter() < u64::MAX,
        ensures
            final(self).wf(),
            final(self).keeps_rest(old(self)),
            final(self).transitions == old(self).transitions,
            ({
                let w = old(self).base.world();
                let now = old(self).clock.simulated_time;
                if online_now(w, old(self).transitions@, client_id@, now) {
                    &&& r == (EventOutcome::InboxPolled { messages_fetched: actions.len() })
                    &&& final(self).base.world() == with_client(
                        w,
                        client_id@,
                        handled(seen_by(w, client_id@), step_at(now), actions@),
                    )
                    &&& final(self).event_queue.counter() == old(self).event_queue.counter() + 1
                    &&& final(self).event_queue@ == old(self).event_queue@.push(
                        ScheduledEvent {
                            time: later(now, POLL_INTERVAL),
                            event: Event::InboxPoll { client_id: *client_id },
                            event_id: old(self).event_queue.counter(),
                        },
                    )
                } else {
                    &&& r == (EventOutcome::InboxPolled { messages_fetched: 0 })
                    &&& final(self).base == old(self).base
                    &&& final(self).event_queue == old(self).event_queue
                }
            }),
    {
        if !self.is_online(client_id) {
            return EventOutcome::InboxPolled { messages_fetched: 0 };
        }
        let now: u64 = self.clock.simulated_time;
        let _outcome = self.base.handle_inbox(step_of(now), client_id, actions);
        self.event_queue.push(
            now.saturating_add(POLL_INTERVAL),
            Event::InboxPoll { client_id: client_id.clone() },
        );
        EventOutcome::InboxPolled { messages_fetched: actions.len() }
    }
}

/// How long a message has been under way, in steps.
pub fn latency_steps(now: u64, send_time: u64) -> (r: usize)
    ensures
        r == (if now >= send_time {
            step_at((now - send_time) as u64)
        } else {
            0
        }),
{
    if now >= send_time {
        step_of(now - send_time)
    } else {
        0
    }
}

/// The event by which a planned message is sent.
pub open spec fn sends_at(p: PlannedSend, nanos_per_step: u64, e: ScheduledEvent) -> bool {
    &&& e.time == p.step * nanos_per_step
    &&& e.event == (Event::MessageSend { sender_id: p.message.sender, message: p.message })
    &&& e.event_id == 0
}

/// Turns planned messages into events, each at the time of its step. The queue numbers them.
pub fn planned_sends_to_events(plan: &Vec<PlannedSend>, nanos_per_step: u64) -> (r: Vec<
    ScheduledEvent,
>)
    requires
        forall|i: int|
            0 <= i < plan@.len() ==> (#[trigger] plan@[i]).step * nanos_per_step <= u64::MAX,
    ensures
        r@.len() == plan@.len(),
        forall|i: int| 0 <= i < plan@.len() ==> sends_at(plan@[i], nanos_per_step, #[trigger] r@[i]),
{
    let mut out: Vec<ScheduledEvent> = Vec::new();
    let mut i: usize = 0;
    while i < plan.len()
        invariant
            i <= plan@.len(),
            out@.len() == i,
            forall|j: int|
                0 <= j < plan@.len() ==> (#[trigger] plan@[j]).step * nanos_per_step <= u64::MAX,
            forall|j: int| 0 <= j < i ==> sends_at(plan@[j], nanos_per_step, #[trigger] out@[j]),
        decreases plan@.len() - i,
    {
        let p = &plan[i];
        let step: u64 = p.step as u64;
        proof {
            assert(plan@[i as int].step * nanos_per_step <= u64::MAX);
        }
        let time: u64 = step * nanos_per_step;
        out.push(
            ScheduledEvent {
                time,
                event: Event::MessageSend {
                    sender_id: p.message.sender.clone(),
                    message: p.message.copied(),
                },
                event_id: 0,
            },
        );
        i = i + 1;
    }
    out
}

} // verus!
