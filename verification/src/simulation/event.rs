//! Events in simulated time. Simulated time is counted in nanoseconds since the start.
use vstd::prelude::*;
use vstd::string::*;

use crate::relay::config::MILLISECOND;
use crate::relay::queue::elapsed;
use crate::relay::queue::time_since;
use crate::simulation::message::SimEnvelope;
use crate::simulation::message::SimMessage;

verus! {

/// Event types that can occur during simulation.
pub enum Event {
    /// A client sends a message (creates an envelope, posts it to the relay or directly).
    MessageSend { sender_id: String, message: SimMessage },
    /// A message is delivered to its recipient.
    MessageDeliver { recipient_id: String, envelope: SimEnvelope, send_time: u64 },
    /// A client goes online or offline.
    OnlineTransition { client_id: String, going_online: bool },
    /// A client polls its relay inbox.
    InboxPoll { client_id: String },
    /// A client announces to its peers that it is online.
    OnlineAnnounce { client_id: String },
    /// One peer asks another for friendship.
    FriendRequestSend { sender_id: String, recipient_id: String },
    /// The acceptance of a friend request comes back to the one who asked.
    FriendAccept { sender_id: String, recipient_id: String },
    /// An action with data of its own.
    CustomAction { action_id: String, data: Vec<(String, String)> },
}

/// An event scheduled to occur at a simulated time.
pub struct ScheduledEvent {
    pub time: u64,
    pub event: Event,
    /// Distinguishes the event from all others of its queue.
    pub event_id: u64,
}

/// Whether `a` comes before `b`: earlier, or scheduled first for the same time.
pub open spec fn precedes(a: ScheduledEvent, b: ScheduledEvent) -> bool {
    a.time < b.time || (a.time == b.time && a.event_id < b.event_id)
}

/// Whether event `i` of `s` comes before all others.
pub open spec fn is_next(s: Seq<ScheduledEvent>, i: int) -> bool {
    &&& 0 <= i < s.len()
    &&& forall|j: int| 0 <= j < s.len() && j != i ==> precedes(s[i], #[trigger] s[j])
}

/// Pending events.
pub struct EventQueue {
    pending: Vec<ScheduledEvent>,
    event_counter: u64,
}

impl View for EventQueue {
    type V = Seq<ScheduledEvent>;

    /// The pending events in the order in which they were scheduled.
    closed spec fn view(&self) -> Seq<ScheduledEvent> {
        self.pending@
    }
}

impl EventQueue {
    /// The number that the next event will get.
    pub closed spec fn counter(&self) -> u64 {
        self.event_counter
    }

    /// Events are numbered in the order in which they were scheduled.
    pub open spec fn wf(&self) -> bool {
        &&& forall|i: int, j: int|
            0 <= i < j < self@.len() ==> (#[trigger] self@[i]).event_id < (
            #[trigger] self@[j]).event_id
        &&& forall|i: int|
            0 <= i < self@.len() ==> (#[trigger] self@[i]).event_id < self.counter()
    }

    pub fn new() -> (r: Self)
        ensures
            r.wf(),
            r@ == Seq::<ScheduledEvent>::empty(),
            r.counter() == 0,
    {
        EventQueue { pending: Vec::new(), event_counter: 0 }
    }

    /// Adds an event to the queue at the specified time.
    pub fn push(&mut self, time: u64, event: Event)
        requires
            old(self).wf(),
            old(self).counter() < u64::MAX,
        ensures
            final(self).wf(),
            final(self).counter() == old(self).counter() + 1,
            final(self)@ == old(self)@.push(
                ScheduledEvent { time, event, event_id: old(self).counter() },
            ),
    {
        let event_id: u64 = self.event_counter;
        self.event_counter = event_id + 1;
        self.pending.push(ScheduledEvent { time, event, event_id });
    }

    /// Where the next event stands.
    fn find_next(&self) -> (r: Option<usize>)
        requires
            self.wf(),
        ensures
            match r {
                Some(i) => is_next(self@, i as int),
                None => self@.len() == 0,
            },
    {
        if self.pending.len() == 0 {
            return None;
        }
        let mut best: usize = 0;
        let mut i: usize = 1;
        while i < self.pending.len()
            invariant
                self.wf(),
                1 <= i <= self@.len(),
                best < i,
                forall|j: int|
                    0 <= j < i && j != best ==> precedes(self@[best as int], #[trigger] self@[j]),
            decreases self@.len() - i,
        {
            if self.pending[i].time < self.pending[best].time {
                best = i;
            }
            i = i + 1;
        }
        Some(best)
    }

    /// Removes and returns the next event: the earliest, and of several at one time the one
    /// that was scheduled first.
    pub fn pop(&mut self) -> (r: Option<ScheduledEvent>)
        requires
            old(self).wf(),
        ensures
            final(self).wf(),
            final(self).counter() == old(self).counter(),
            match r {
                Some(e) => exists|i: int| #[trigger]
                    is_next(old(self)@, i) && e == old(self)@[i] && final(self)@ == old(
                        self,
                    )@.remove(i),
                None => old(self)@.len() == 0 && final(self)@ == old(self)@,
            },
    {
        let ghost before = self@;
        match self.find_next() {
            Some(i) => {
                let e = self.pending.remove(i);
                proof {
                    assert(is_next(before, i as int));
                    assert(self@ =~= before.remove(i as int));
                    assert forall|a: int, b: int| 0 <= a < b < self@.len() implies (
                    #[trigger] self@[a]).event_id < (#[trigger] self@[b]).event_id by {
                        let a2 = if a < i {
                            a
                        } else {
                            a + 1
                        };
                        let b2 = if b < i {
                            b
                        } else {
                            b + 1
                        };
                        assert(before[a2].event_id < before[b2].event_id);
                    }
                    assert forall|a: int| 0 <= a < self@.len() implies (
                    #[trigger] self@[a]).event_id < self.counter() by {
                        let a2 = if a < i {
                            a
                        } else {
                            a + 1
                        };
                        assert(before[a2].event_id < self.counter());
                    }
                }
                Some(e)
            },
            None => None,
        }
    }

    /// The time of the next event.
    pub fn peek_time(&self) -> (r: Option<u64>)
        requires
            self.wf(),
        ensures
            match r {
                Some(t) => exists|i: int| #[trigger] is_next(self@, i) && t == self@[i].time,
                None => self@.len() == 0,
            },
    {
        match self.find_next() {
            Some(i) => {
                assert(is_next(self@, i as int));
                Some(self.pending[i].time)
            },
            None => None,
        }
    }

    pub fn is_empty(&self) -> (r: bool)
        ensures
            r == (self@.len() == 0),
    {
        self.pending.len() == 0
    }

    /// The number of pending events.
    pub fn len(&self) -> (r: usize)
        ensures
            r == self@.len(),
    {
        self.pending.len()
    }
}

impl Default for EventQueue {
    fn default() -> (r: Self)
        ensures
            r.wf(),
            r@ == Seq::<ScheduledEvent>::empty(),
            r.counter() == 0,
    {
        EventQueue::new()
    }
}

/// A queue with pending events has exactly one next event.
pub proof fn law_next_event_is_unique(q: &EventQueue)
    requires
        q.wf(),
        q@.len() > 0,
    ensures
        exists|i: int| is_next(q@, i),
        forall|i: int, j: int| #[trigger] is_next(q@, i) && #[trigger] is_next(q@, j) ==> i == j,
{
    let i = lemma_earliest(q, q@.len() as int);
    assert(is_next(q@, i));
    assert forall|i: int, j: int| #[trigger] is_next(q@, i) && #[trigger] is_next(q@, j) implies i
        == j by {
        if i != j {
            assert(precedes(q@[i], q@[j]));
            assert(precedes(q@[j], q@[i]));
        }
    }
}

proof fn lemma_earliest(q: &EventQueue, n: int) -> (b: int)
    requires
        q.wf(),
        0 < n <= q@.len(),
    ensures
        0 <= b < n,
        forall|j: int| 0 <= j < n && j != b ==> precedes(q@[b], #[trigger] q@[j]),
    decreases n,
{
    if n == 1 {
        0
    } else {
        let b = lemma_earliest(q, n - 1);
        if q@[n - 1].time < q@[b].time {
            n - 1
        } else {
            b
        }
    }
}

/// Events come out in order: whatever is still pending after an event has been taken out comes
/// after it.
pub proof fn law_events_come_out_in_order(s: Seq<ScheduledEvent>, i: int)
    requires
        is_next(s, i),
    ensures
        forall|j: int|
            0 <= j < s.remove(i).len() ==> precedes(s[i], #[trigger] s.remove(i)[j]),
{
    assert forall|j: int| 0 <= j < s.remove(i).len() implies precedes(
        s[i],
        #[trigger] s.remove(i)[j],
    ) by {
        let k = if j < i {
            j
        } else {
            j + 1
        };
        assert(s.remove(i)[j] == s[k]);
    }
}

// ---------------------------------------------------------------------------
// The log
// ---------------------------------------------------------------------------

/// Outcome of processing an event.
pub enum EventOutcome {
    MessageSent { envelope_id: String, posted_to_relay: bool },
    MessageDelivered { accepted: bool },
    OnlineTransitioned { new_state: bool },
    InboxPolled { messages_fetched: usize },
    OnlineAnnounced,
    CustomActionExecuted { success: bool },
}

/// Record of an event that has been processed.
pub struct ProcessedEvent {
    pub event_id: u64,
    pub simulated_time: u64,
    /// Milliseconds of wall time since the log was opened.
    pub wall_time_millis: u64,
    pub outcome: EventOutcome,
}

/// Log of processed events.
pub struct EventLog {
    events: Vec<ProcessedEvent>,
    start_instant: u128,
}

impl View for EventLog {
    type V = Seq<ProcessedEvent>;

    closed spec fn view(&self) -> Seq<ProcessedEvent> {
        self.events@
    }
}

/// Milliseconds from `since` to `now`, as many as 64 bits hold.
pub open spec fn millis_since(now: u128, since: u128) -> u64 {
    (elapsed(now, since) / MILLISECOND as int) as u64
}

impl EventLog {
    /// The wall time at which the log was opened, in nanoseconds.
    pub closed spec fn opened(&self) -> u128 {
        self.start_instant
    }

    /// Opens a log at the given wall time.
    pub fn new(start_instant: u128) -> (r: Self)
        ensures
            r@ == Seq::<ProcessedEvent>::empty(),
            r.opened() == start_instant,
    {
        EventLog { events: Vec::new(), start_instant }
    }

    /// Records a processed event.
    pub fn record(
        &mut self,
        event_id: u64,
        simulated_time: u64,
        wall_time: u128,
        outcome: EventOutcome,
    )
        ensures
            final(self).opened() == old(self).opened(),
            final(self)@ == old(self)@.push(
                ProcessedEvent {
                    event_id,
                    simulated_time,
                    wall_time_millis: millis_since(wall_time, old(self).opened()),
                    outcome,
                },
            ),
    {
        let millis: u128 = time_since(wall_time, self.start_instant) / MILLISECOND;
        let wall_time_millis: u64 = #[verifier::truncate] (millis as u64);
        self.events.push(ProcessedEvent { event_id, simulated_time, wall_time_millis, outcome });
    }

    /// All recorded events.
    pub fn events(&self) -> (r: &Vec<ProcessedEvent>)
        ensures
            r@ == self@,
    {
        &self.events
    }

    /// The number of recorded events.
    pub fn len(&self) -> (r: usize)
        ensures
            r == self@.len(),
    {
        self.events.len()
    }

    pub fn is_empty(&self) -> (r: bool)
        ensures
            r == (self@.len() == 0),
    {
        self.events.len() == 0
    }

    /// The events that happened between `start` and `end`, both included, in the order of the
    /// log.
    pub fn events_in_time_range(&self, start: u64, end: u64) -> (r: Vec<&ProcessedEvent>)
        ensures
            r@.unref() == self@.filter(happened_within(start, end)),
    {
        let mut out: Vec<&ProcessedEvent> = Vec::new();
        let mut i: usize = 0;
        proof {
            reveal(Seq::filter);
            assert(self@.take(0) =~= Seq::empty());
            assert(out@.unref() =~= Seq::empty());
        }
        while i < self.events.len()
            invariant
                i <= self@.len(),
                out@.unref() == self@.take(i as int).filter(happened_within(start, end)),
            decreases self@.len() - i,
        {
            let e = &self.events[i];
            let ghost before = out@.unref();
            proof {
                reveal(Seq::filter);
                assert(self@.take(i + 1).drop_last() =~= self@.take(i as int));
                assert(self@.take(i + 1).last() == *e);
            }
            if e.simulated_time >= start && e.simulated_time <= end {
                out.push(e);
                assert(out@.unref() =~= before.push(*e));
            }
            i = i + 1;
        }
        proof {
            assert(self@.take(i as int) =~= self@);
        }
        out
    }
}

/// The events that happened between `start` and `end`, both included.
pub open spec fn happened_within(start: u64, end: u64) -> spec_fn(ProcessedEvent) -> bool {
    |e: ProcessedEvent| start <= e.simulated_time <= end
}

// ---------------------------------------------------------------------------
// The clock
// ---------------------------------------------------------------------------

/// Time control modes for the simulation.
#[derive(Clone, Copy, Debug, PartialEq, Eq, Structural)]
pub enum TimeControlMode {
    /// Process events as fast as possible, jumping simulated time to the next event.
    FastForward,
    /// Advance simulated time with real time.
    RealTime,
    Paused,
}

impl Default for TimeControlMode {
    fn default() -> (r: Self)
        ensures
            r == TimeControlMode::FastForward,
    {
        TimeControlMode::FastForward
    }
}

/// Clock for managing simulated time.
pub struct SimulationClock {
    /// Current simulated time.
    pub simulated_time: u64,
    /// When the clock was started, by the wall clock.
    pub start_instant: u128,
    /// Last look at the wall clock.
    pub last_update: u128,
    /// Current time control mode.
    pub mode: TimeControlMode,
}

impl SimulationClock {
    pub fn new(mode: TimeControlMode, now: u128) -> (r: Self)
        ensures
            r == (SimulationClock {
                simulated_time: 0,
                start_instant: now,
                last_update: now,
                mode,
            }),
    {
        SimulationClock { simulated_time: 0, start_instant: now, last_update: now, mode }
    }

    /// Looks at the wall clock. `advance` is the simulated time that has passed in real-time mode
    /// since the last look. Returns the simulated time.
    pub fn update(&mut self, now: u128, advance: u64) -> (r: u64)
        requires
            old(self).mode == TimeControlMode::RealTime ==> old(self).simulated_time + advance
                <= u64::MAX,
        ensures
            r == final(self).simulated_time,
            *final(self) == (match old(self).mode {
                TimeControlMode::FastForward => *old(self),
                TimeControlMode::RealTime => SimulationClock {
                    simulated_time: (old(self).simulated_time + advance) as u64,
                    last_update: now,
                    ..*old(self)
                },
                TimeControlMode::Paused => SimulationClock { last_update: now, ..*old(self) },
            }),
    {
        match self.mode {
            TimeControlMode::FastForward => {},
            TimeControlMode::RealTime => {
                self.last_update = now;
                self.simulated_time = self.simulated_time + advance;
            },
            TimeControlMode::Paused => {
                self.last_update = now;
            },
        }
        self.simulated_time
    }

    /// Jumps to a simulated time.
    pub fn jump_to(&mut self, time: u64, now: u128)
        ensures
            *final(self) == (SimulationClock {
                simulated_time: time,
                last_update: now,
                ..*old(self)
            }),
    {
        self.simulated_time = time;
        self.last_update = now;
    }

    /// Sets the time control mode.
    pub fn set_mode(&mut self, mode: TimeControlMode, now: u128)
        ensures
            *final(self) == (SimulationClock { mode, last_update: now, ..*old(self) }),
    {
        self.mode = mode;
        self.last_update = now;
    }

    /// The wall time that has gone by since the clock was started.
    pub fn wall_time_elapsed(&self, now: u128) -> (r: u128)
        ensures
            r == (if now >= self.start_instant {
                now - self.start_instant
            } else {
                0
            }),
    {
        if now >= self.start_instant {
            now - self.start_instant
        } else {
            0
        }
    }
}

} // verus!
