//! What a call on a simulation does and answers, in terms of what it is handed.
use rand_chacha::ChaCha8Rng;
use vstd::prelude::*;

use crate::keyed::KeyedMap;
use crate::protocol::MessageKind;
use crate::simulation::config::MessageType;
use crate::simulation::config::MessageEncryption;
use crate::simulation::client::awaited;
use crate::simulation::client::meta_views;
use crate::simulation::client::applied;
use crate::simulation::client::DeliveryKind;
use crate::simulation::client::IncomingEnvelopeAction;
use crate::simulation::client::MetaMessage;
use crate::simulation::client::MetaSend;
use crate::simulation::client::SimContext;
use crate::simulation::client::SimulationClient;
use crate::simulation::client::StoredForPeerMessage;
use crate::simulation::driver::carries;
use crate::simulation::driver::everyone;
use crate::simulation::driver::one_sent;
use crate::simulation::driver::only;
use crate::simulation::driver::step_at;
use crate::simulation::driver::EventBasedHarness;
use crate::simulation::driver::EventControl;
use crate::simulation::driver::SendResult;
use crate::simulation::event::happened_within;
use crate::simulation::event::is_next;
use crate::simulation::event::Event;
use crate::simulation::event::EventLog;
use crate::simulation::event::EventOutcome;
use crate::simulation::event::EventQueue;
use crate::simulation::event::ProcessedEvent;
use crate::simulation::event::ScheduledEvent;
use crate::simulation::event::SimulationClock;
use crate::simulation::event::TimeControlMode;
use crate::simulation::harness::is_due;
use crate::simulation::harness::RunState;
use crate::simulation::harness::SimulationControlCommand;
use crate::simulation::harness::SimulationHarness;
use crate::simulation::laws::law_offline_recipients_get_messages_by_a_storage_peer;
use crate::simulation::laws::law_routing_hands_over_on_a_direct_link;
use crate::simulation::laws::law_storage_peer_is_a_common_neighbour;
use crate::simulation::message::PlannedSend;
use crate::simulation::message::SimEnvelope;
use crate::simulation::message::SimMessage;
use crate::simulation::metrics::CountSummary;
use crate::simulation::metrics::KindCounts;
use crate::simulation::metrics::KindSizes;
use crate::simulation::metrics::LatencyStats;
use crate::simulation::metrics::RollingLatencyTracker;
use crate::simulation::metrics::SimulationMetrics;
use crate::simulation::metrics::SizeStats;
use crate::simulation::node::Node;
use crate::simulation::planning::all_follow;
use crate::simulation::planning::build_online_events;
use crate::simulation::planning::cohort_of;
use crate::simulation::planning::cohorts_of;
use crate::simulation::planning::follows_plan;
use crate::simulation::planning::node_plan;
use crate::simulation::planning::NodeDraws;
use crate::simulation::random::distinct;
use crate::simulation::random::draw_names;
use crate::simulation::routing::forward_store_forwards;
use crate::simulation::routing::goes_directly;
use crate::simulation::routing::select_storage_peer;
use crate::simulation::routing::unwanted;
use crate::simulation::routing::wanted;
use crate::simulation::routing::PreparedSend;
use crate::simulation::scenario::build_planned_message;
use crate::simulation::scenario::cohort_plan;
use crate::simulation::scenario::generate_online_schedule_events;
use crate::simulation::scenario::is_transition;
use crate::simulation::scenario::is_written;
use crate::simulation::scenario::CohortDraws;
use crate::simulation::scenario::MessagePlan;
use crate::simulation::scenario::Transition;
use crate::simulation::steps::seen_by;
use crate::simulation::steps::with_client;
use crate::simulation::steps::InboxOutcome;
use crate::simulation::steps::PendingOutcome;
use crate::simulation::steps::Progress;
use crate::simulation::steps::RouteOutcome;
use crate::simulation::tasks::Interval;
use crate::simulation::tracker::DeliveryNote;
use crate::simulation::tracker::MetricsTracker;
use crate::simulation::tracker::TrackingView;
use crate::sorting::is_sorted_form;
use crate::sorting::Ranked;
use crate::text::text_le;
use crate::text::texts;

verus! {

// ---------------------------------------------------------------------------
// Routing
// ---------------------------------------------------------------------------

/// A message for somebody who is online, by the schedule, is posted as it is. One for somebody who
/// is not is posted for a peer that keeps it, where the sender and the recipient have a neighbour in
/// common and such an envelope was prepared. Without an envelope nothing is posted.
pub proof fn law_route_posts_by_schedule_and_neighbours(
    h: &mut SimulationHarness,
    step: usize,
    m: SimMessage,
    p: PreparedSend,
    r: RouteOutcome,
    neighbour: Seq<char>,
)
    requires
        call_ensures(SimulationHarness::route_message, (h, step, &m, &p), r),
    ensures
        ({
            let to = m.recipient@;
            let clients = old(h).clients@;
            let online = clients.contains_key(to) && step < clients[to].schedule.len()
                && clients[to].schedule[step as int];
            let n = old(h).ctx.neighbors@;
            let common = n.contains_key(m.sender@) && n.contains_key(to)
                && n[m.sender@].contains(neighbour) && n[to].contains(neighbour) && neighbour
                != m.sender@ && neighbour != to;
            &&& p.envelope is None ==> r.post is None && final(h).clients@ == clients
            &&& p.envelope is Some && online ==> r.post == p.envelope
            &&& p.envelope is Some && !online && common && p.stored is Some ==> r.post == p.stored
            &&& p.envelope is Some && p.stored is None ==> r.post == p.envelope
            &&& p.envelope is Some && (!n.contains_key(m.sender@) || !n.contains_key(to)
                || n[m.sender@].len() == 0 || n[to].len() == 0) ==> r.post == p.envelope
            &&& p.envelope is Some ==> final(h).ctx.message_send_steps@
                == old(h).ctx.message_send_steps@.insert(m.id@, step)
        }),
{
    let w = old(h).world();
    let n = w.ctx.neighbors;
    law_storage_peer_is_a_common_neighbour(n, m.sender@, m.recipient@, neighbour);
    law_routing_hands_over_on_a_direct_link(w, step, m, p, m.recipient@);
    if p.envelope is Some {
        law_offline_recipients_get_messages_by_a_storage_peer(w, step, m, p, neighbour);
    }
    assert(final(h).world().ctx.send_steps == final(h).ctx.message_send_steps@);
    assert(final(h).world().clients == final(h).clients@);
}

/// The peer that keeps a message is a neighbour of both sides that is neither of them, the first by
/// name; there is one wherever there is such a neighbour.
pub proof fn law_storage_peer_is_found(
    sender: &str,
    recipient: &str,
    ctx: SimContext,
    r: Option<String>,
    c: Seq<char>,
)
    requires
        call_ensures(select_storage_peer, (sender, recipient, &ctx), r),
    ensures
        ({
            let n = ctx.neighbors@;
            let (a, b) = (sender@, recipient@);
            &&& n.contains_key(a) && n.contains_key(b) && n[a].contains(c) && n[b].contains(c) && c
                != a && c != b ==> r is Some && text_le(r->0@, c)
            &&& r is Some ==> n.contains_key(a) && n[a].contains(r->0@) && n.contains_key(b)
                && n[b].contains(r->0@) && r->0@ != a && r->0@ != b
        }),
{
    law_storage_peer_is_a_common_neighbour(ctx@.neighbors, sender@, recipient@, c);
    assert(ctx@.neighbors == ctx.neighbors@);
}

/// Who is online itself hands on what it keeps for those who are online, and goes on keeping the
/// rest.
pub proof fn law_kept_envelopes_are_handed_on(
    client: &mut SimulationClient,
    online: KeyedMap<String, bool>,
    ctx: &mut SimContext,
    r: Vec<SimEnvelope>,
)
    requires
        call_ensures(forward_store_forwards, (client, &online, ctx), r),
    ensures
        ({
            let kept = old(client).stored_forwards@;
            let out = kept.filter(|m: StoredForPeerMessage| online@.contains_key(m.store_for_id@));
            &&& online@.contains_key(old(client).id@) ==> {
                &&& r@ == out.map_values(|m: StoredForPeerMessage| m.envelope)
                &&& final(client).stored_forwards@ == kept.filter(
                    |m: StoredForPeerMessage| !online@.contains_key(m.store_for_id@),
                )
            }
            &&& !online@.contains_key(old(client).id@) ==> r@.len() == 0
                && final(client).stored_forwards@ == kept
            &&& final(client).inbox@ == old(client).inbox@
        }),
{
    assert(wanted(online@) =~= |m: StoredForPeerMessage|
        online@.contains_key(m.store_for_id@));
    assert(unwanted(online@) =~= |m: StoredForPeerMessage|
        !online@.contains_key(m.store_for_id@));
    let c = final(client)@;
    assert(c.inbox == final(client).inbox@ && c.stored == final(client).stored_forwards@);
    assert(old(client)@.stored == old(client).stored_forwards@);
}

// ---------------------------------------------------------------------------
// Clients
// ---------------------------------------------------------------------------

/// A message is taken in once: last in the inbox the first time, and not again.
pub proof fn law_message_is_taken_in_once(
    c: &mut SimulationClient,
    node: &mut Node,
    m: SimMessage,
    r: bool,
    s: bool,
)
    requires
        call_ensures(SimulationClient::receive_message, (c, m), r),
        call_ensures(Node::receive, (node, m), s),
    ensures
        r <==> !old(c).seen@.contains_key(m.id@),
        r ==> final(c).inbox@ == old(c).inbox@.push(m) && final(c).seen@.contains_key(m.id@),
        !r ==> final(c).inbox@ == old(c).inbox@ && final(c).seen@ == old(c).seen@,
        final(c).stored_forwards@ == old(c).stored_forwards@,
        s <==> !old(node)@.seen.contains(m.id@),
        s ==> final(node)@.inbox == old(node)@.inbox.push(m),
        !s ==> final(node)@.inbox == old(node)@.inbox,
        final(node)@.seen.contains(m.id@),
{
    let d = final(c)@;
    assert(d.inbox == final(c).inbox@ && d.seen == final(c).seen@ && d.stored
        == final(c).stored_forwards@);
}

/// A delivery puts a new message last in the inbox and counts under the way it came; a message that
/// is known changes nothing. Where the message was tracked for this client, the note says how many
/// steps it took.
pub proof fn law_delivery_is_counted_by_the_way_it_came(
    c: &mut SimulationClient,
    step: usize,
    m: SimMessage,
    ctx: &mut SimContext,
    kind: DeliveryKind,
    r: Option<DeliveryNote>,
)
    requires
        call_ensures(SimulationClient::apply_delivery, (c, step, m, ctx, kind), r),
        old(ctx).metrics.direct_deliveries < usize::MAX,
        old(ctx).metrics.inbox_deliveries < usize::MAX,
        old(ctx).metrics.store_forwards_delivered < usize::MAX,
    ensures
        ({
            let new = !old(c).seen@.contains_key(m.id@);
            let before = old(ctx).metrics;
            let after = final(ctx).metrics;
            let t = old(ctx).tracker.messages@;
            &&& new ==> final(c).inbox@ == old(c).inbox@.push(m)
            &&& !new ==> final(c).inbox@ == old(c).inbox@ && after == before && r is None
            &&& new && kind == DeliveryKind::Direct ==> after.direct_deliveries
                == before.direct_deliveries + 1 && after.inbox_deliveries == before.inbox_deliveries
            &&& new && kind == DeliveryKind::Inbox ==> after.inbox_deliveries
                == before.inbox_deliveries + 1 && after.direct_deliveries
                == before.direct_deliveries
            &&& new && (kind == DeliveryKind::Missed || kind == DeliveryKind::Link)
                ==> after.direct_deliveries == before.direct_deliveries && after.inbox_deliveries
                == before.inbox_deliveries
            &&& new ==> after.store_forwards_delivered
                == before.store_forwards_delivered + (if old(ctx).pending_forwarded_messages@.contains_key(m.id@) {
                1int
            } else {
                0
            })
            &&& new ==> !final(ctx).pending_forwarded_messages@.contains_key(m.id@)
            &&& r is Some <==> new && t.contains_key(m.id@) && t[m.id@].recipients.contains(
                old(c).id@,
            ) && !t[m.id@].delivered.contains(old(c).id@)
            &&& r is Some && step >= t[m.id@].send_step ==> r->0.latency == step
                - t[m.id@].send_step
            &&& r is Some ==> r->0.first == !t[m.id@].first
            &&& r is Some ==> final(ctx).tracker.messages@[m.id@].delivered
                == t[m.id@].delivered.push(old(c).id@)
            &&& new && old(ctx).message_send_steps@.contains_key(m.id@)
                && old(ctx).message_send_steps@[m.id@] <= u64::MAX
                ==> final(c).last_seen_by_peer@.contains_key(m.sender@)
                && final(c).last_seen_by_peer@[m.sender@] >= old(ctx).message_send_steps@[m.id@]
        }),
{
    let d = final(c)@;
    let x = final(ctx)@;
    assert(d.inbox == final(c).inbox@ && d.last_seen == final(c).last_seen_by_peer@);
    assert(x.metrics == final(ctx).metrics && x.forwarded
        == final(ctx).pending_forwarded_messages@);
    assert(x.tracker.messages == final(ctx).tracker.messages@);
    let y = old(ctx)@;
    assert(y.tracker.messages == old(ctx).tracker.messages@);
}

/// What is to be kept for a peer is kept last, and counted.
pub proof fn law_envelope_is_kept(
    c: &mut SimulationClient,
    m: StoredForPeerMessage,
    ctx: &mut SimContext,
)
    requires
        call_ensures(SimulationClient::store_forward_message, (c, m, ctx), ()),
        old(ctx).metrics.store_forwards_stored < usize::MAX,
        old(ctx).tracker.store_forwards_stored < usize::MAX,
    ensures
        final(c).stored_forwards@ == old(c).stored_forwards@.push(m),
        final(c).inbox@ == old(c).inbox@,
        final(ctx).metrics.store_forwards_stored == old(ctx).metrics.store_forwards_stored + 1,
        final(ctx).tracker.store_forwards_stored == old(ctx).tracker.store_forwards_stored + 1,
{
    let d = final(c)@;
    let x = final(ctx)@;
    assert(d.stored == final(c).stored_forwards@ && d.inbox == final(c).inbox@);
    assert(x.metrics == final(ctx).metrics);
    assert(x.tracker.store_forwards_stored == final(ctx).tracker.store_forwards_stored);
}

/// Who comes online says so to every neighbour, in order, and waits ten steps for their answers.
pub proof fn law_coming_online_is_announced(
    c: &mut SimulationClient,
    step: usize,
    ctx: &mut SimContext,
    r: Vec<MetaSend>,
    i: int,
)
    requires
        call_ensures(SimulationClient::announce_online, (c, step, ctx), r),
        old(ctx).neighbors@.contains_key(old(c).id@),
        0 <= i < old(ctx).neighbors@[old(c).id@].len(),
        step + 10 <= usize::MAX,
    ensures
        ({
            let me = old(c).id@;
            let to = old(ctx).neighbors@[me];
            let n = old(c).pending_online_broadcasts@.len();
            let w = final(c).pending_online_broadcasts@[n + i];
            &&& r@.len() == to.len()
            &&& r@[i].sender_id@ == me && r@[i].recipient_id@ == to[i]
            &&& r@[i].meta matches MetaMessage::Online { peer_id, timestamp } && peer_id@ == me
                && timestamp == step as u64
            &&& final(c).pending_online_broadcasts@.len() == n + to.len()
            &&& w.sender_id@ == me && w.recipient_id@ == to[i] && w.sent_step == step
                && w.expires_at == step + 10
        }),
{
    let me = old(c).id@;
    let to = old(ctx)@.neighbors[me];
    let sends = meta_views(r@);
    assert(sends.len() == r@.len());
    assert(sends[i] == r@[i]@);
    let before = old(c)@.pending;
    let after = final(c)@.pending;
    assert(after == before + awaited(me, to, step));
    assert(after.len() == final(c).pending_online_broadcasts@.len());
    assert(before.len() == old(c).pending_online_broadcasts@.len());
    assert(after[before.len() + i] == final(c).pending_online_broadcasts@[before.len() + i]@);
    assert(awaited(me, to, step)[i].recipient == to[i]);
}

// ---------------------------------------------------------------------------
// Events
// ---------------------------------------------------------------------------

/// The clock of a run: a jump goes to the time it names, real time adds what has gone by, a run
/// that is fast or paused does not move with the wall clock, and the wall time is counted from the
/// start.
pub proof fn law_clock_runs_as_it_is_set(
    a: &mut SimulationClock,
    b: &mut SimulationClock,
    c: &mut SimulationClock,
    time: u64,
    mode: TimeControlMode,
    now: u128,
    advance: u64,
    shown: u64,
    fresh: SimulationClock,
    wall: u128,
)
    requires
        call_ensures(SimulationClock::jump_to, (a, time, now), ()),
        call_ensures(SimulationClock::set_mode, (b, mode, now), ()),
        call_ensures(SimulationClock::update, (c, now, advance), shown),
        call_ensures(SimulationClock::new, (mode, now), fresh),
        call_ensures(SimulationClock::wall_time_elapsed, (&fresh, now), wall),
        old(c).simulated_time + advance <= u64::MAX,
    ensures
        final(a).simulated_time == time && final(a).mode == old(a).mode,
        final(b).mode == mode && final(b).simulated_time == old(b).simulated_time,
        shown == final(c).simulated_time && final(c).mode == old(c).mode,
        old(c).mode == TimeControlMode::RealTime ==> final(c).simulated_time
            == old(c).simulated_time + advance,
        old(c).mode != TimeControlMode::RealTime ==> final(c).simulated_time
            == old(c).simulated_time,
        fresh.simulated_time == 0 && fresh.mode == mode,
        wall == 0,
{
}

/// Events leave a queue by time, and those of one time in the order in which they came.
pub proof fn law_queue_gives_the_next_event(
    a: &mut EventQueue,
    b: &mut EventQueue,
    time: u64,
    event: Event,
    r: Option<ScheduledEvent>,
    seen: Option<u64>,
    i: int,
)
    requires
        call_ensures(EventQueue::push, (a, time, event), ()),
        old(a).counter() < u64::MAX,
        call_ensures(EventQueue::pop, (b,), r),
        0 <= i < old(b)@.len(),
    ensures
        final(a)@.len() == old(a)@.len() + 1,
        final(a)@.drop_last() == old(a)@,
        final(a)@.last().time == time && final(a)@.last().event == event,
        final(a)@.last().event_id == old(a).counter(),
        final(a).counter() == old(a).counter() + 1,
        r is Some,
        r->0.time <= old(b)@[i].time,
        r->0.time == old(b)@[i].time ==> r->0.event_id <= old(b)@[i].event_id,
        old(b)@.contains(r->0),
        final(b)@.len() + 1 == old(b)@.len(),
        old(b)@[i] != r->0 ==> final(b)@.contains(old(b)@[i]),
{
    let s = old(b)@;
    assert(final(a)@.drop_last() =~= old(a)@);
    let e = r->0;
    let k = choose|k: int| #[trigger]
        is_next(s, k) && e == s[k] && final(b)@ == s.remove(k);
    assert(s[k] == e);
    if s[i] != e {
        if i < k {
            assert(final(b)@[i] == s[i]);
        } else {
            assert(final(b)@[i - 1] == s[i]);
        }
    }
}

/// The log keeps what happened, in order, with the time of the run and the milliseconds since it
/// was opened; what happened between two times is what has a time from the one to the other.
pub proof fn law_log_keeps_what_happened(
    log: &mut EventLog,
    id: u64,
    time: u64,
    wall: u128,
    outcome: EventOutcome,
    whole: EventLog,
    start: u64,
    end: u64,
    r: Vec<&ProcessedEvent>,
)
    requires
        call_ensures(EventLog::record, (log, id, time, wall, outcome), ()),
        call_ensures(EventLog::events_in_time_range, (&whole, start, end), r),
        old(log).opened() <= wall,
        wall - old(log).opened() <= u64::MAX,
    ensures
        final(log)@.len() == old(log)@.len() + 1,
        final(log)@.drop_last() == old(log)@,
        final(log)@.last().event_id == id,
        final(log)@.last().simulated_time == time,
        final(log)@.last().outcome == outcome,
        final(log)@.last().wall_time_millis == (wall - old(log).opened()) / 1_000_000,
        r@.unref() == whole@.filter(
            |e: ProcessedEvent| start <= e.simulated_time && e.simulated_time <= end,
        ),
{
    assert(final(log)@.drop_last() =~= old(log)@);
    assert(happened_within(start, end) =~= |e: ProcessedEvent|
        start <= e.simulated_time && e.simulated_time <= end);
}

/// An event that is scheduled stands last in the queue with its time; the event that is due leaves
/// it, and nothing leaves before its time.
pub proof fn law_events_are_scheduled_and_due(
    a: &mut EventBasedHarness,
    b: &mut EventBasedHarness,
    time: u64,
    event: Event,
    r: Option<ScheduledEvent>,
    i: int,
)
    requires
        call_ensures(EventBasedHarness::schedule_event, (a, time, event), ()),
        call_ensures(EventBasedHarness::pop_due, (b,), r),
        old(a).event_queue.counter() < u64::MAX,
        old(b).event_queue.counter() < u64::MAX,
        0 <= i < old(b).event_queue@.len(),
    ensures
        final(a).event_queue@.len() == old(a).event_queue@.len() + 1,
        final(a).event_queue@.drop_last() == old(a).event_queue@,
        final(a).event_queue@.last().time == time,
        final(a).event_queue@.last().event == event,
        final(a).base == old(a).base && final(a).clock == old(a).clock,
        r is Some ==> r->0.time <= old(b).clock.simulated_time,
        r is Some ==> r->0.time <= old(b).event_queue@[i].time,
        r is Some ==> old(b).event_queue@.contains(r->0),
        r is Some ==> final(b).event_queue@.len() + 1 == old(b).event_queue@.len(),
        r is None ==> old(b).event_queue@[i].time > old(b).clock.simulated_time,
        r is None ==> final(b).event_queue@.len() == old(b).event_queue@.len(),
{
    assert(final(a).event_queue@.drop_last() =~= old(a).event_queue@);
    let s = old(b).event_queue@;
    let k = choose|k: int| #[trigger]
        is_next(s, k) && {
            let e = s[k];
            let rest = s.remove(k);
            if e.time <= old(b).clock.simulated_time {
                r == Some(e) && final(b).event_queue@ == rest
            } else {
                r is None && final(b).event_queue@ == rest.push(
                    ScheduledEvent { event_id: old(b).event_queue.counter(), ..e },
                )
            }
        };
    assert(s[k].time <= s[i].time);
    if r is Some {
        assert(s[k] == r->0);
    }
}

/// Commands set the clock, pause and go on, or stop the run.
pub proof fn law_commands_are_obeyed(
    h: &mut EventBasedHarness,
    command: EventControl,
    now: u128,
)
    requires
        call_ensures(EventBasedHarness::obey, (h, command, now), ()),
    ensures
        match command {
            EventControl::SetTimeControlMode { mode } => final(h).clock.mode == mode,
            EventControl::JumpToTime { time } => final(h).clock.simulated_time == time
                && final(h).clock.mode == old(h).clock.mode,
            EventControl::SetPaused { paused } => final(h).clock.mode == (if paused {
                TimeControlMode::Paused
            } else {
                TimeControlMode::RealTime
            }),
            EventControl::SetSpeedFactor => final(h).clock.mode == TimeControlMode::RealTime,
            EventControl::AdjustSpeedFactor => final(h).clock.mode == old(h).clock.mode,
            EventControl::Stop => final(h).stop_requested,
        },
        !(command is Stop) ==> final(h).stop_requested == old(h).stop_requested,
        !(command is JumpToTime) ==> final(h).clock.simulated_time == old(h).clock.simulated_time,
        final(h).event_queue == old(h).event_queue && final(h).base == old(h).base,
{
}

/// What an event came to is logged under its id and time.
pub proof fn law_outcome_is_logged(
    h: &mut EventBasedHarness,
    id: u64,
    time: u64,
    now: u128,
    outcome: EventOutcome,
)
    requires
        call_ensures(EventBasedHarness::log_outcome, (h, id, time, now, outcome), ()),
    ensures
        final(h).event_log@.len() == old(h).event_log@.len() + 1,
        final(h).event_log@.drop_last() == old(h).event_log@,
        final(h).event_log@.last().event_id == id,
        final(h).event_log@.last().simulated_time == time,
        final(h).event_log@.last().outcome == outcome,
        final(h).event_queue == old(h).event_queue && final(h).base == old(h).base,
{
    assert(final(h).event_log@.drop_last() =~= old(h).event_log@);
}

/// A message of a client that is known is posted as it was prepared, whoever is online; where both
/// sides have a direct link it is delivered after the latency. A message of nobody known is not
/// sent.
pub proof fn law_event_sends_a_message(
    h: &mut EventBasedHarness,
    sender: String,
    m: SimMessage,
    p: PreparedSend,
    latency: u64,
    r: SendResult,
)
    requires
        call_ensures(EventBasedHarness::handle_message_send, (h, &sender, m, p, latency), r),
        old(h).base.clients@.contains_key(m.recipient@),
        old(h).clock.simulated_time + latency <= u64::MAX,
    ensures
        ({
            let known = old(h).base.clients@.contains_key(sender@);
            let sent = known && p.envelope is Some;
            let direct = sent && p.decoded is Some && old(h).base.ctx.direct_enabled
                && old(h).base.ctx.direct_links@.contains_key((m.sender@, m.recipient@));
            let q = final(h).event_queue@;
            &&& sent ==> r.post@ == seq![p.envelope->0]
            &&& sent ==> r.outcome == (EventOutcome::MessageSent {
                envelope_id: p.envelope->0.message_id,
                posted_to_relay: true,
            })
            &&& !sent ==> r.post@.len() == 0
            &&& !sent ==> r.outcome == (EventOutcome::MessageSent {
                envelope_id: m.id,
                posted_to_relay: false,
            })
            &&& !direct ==> final(h).event_queue == old(h).event_queue
            &&& direct ==> {
                &&& q.len() == old(h).event_queue@.len() + 1
                &&& q.drop_last() == old(h).event_queue@
                &&& q.last().time == old(h).clock.simulated_time + latency
                &&& q.last().event == (Event::MessageDeliver {
                    recipient_id: p.decoded->0.recipient,
                    envelope: p.envelope->0,
                    send_time: old(h).clock.simulated_time,
                })
            }
            &&& known && old(h).base.ctx.metrics.sent_messages < usize::MAX
                ==> final(h).base.ctx.metrics.sent_messages
                == old(h).base.ctx.metrics.sent_messages + 1
        }),
{
    let w = old(h).base.world();
    assert(w.clients == old(h).base.clients@);
    assert(w.ctx == old(h).base.ctx@);
    assert(w.ctx.links == old(h).base.ctx.direct_links@);
    assert(everyone(w.clients).contains_key(m.recipient@));
    let c = one_sent(w).ctx;
    assert(c.direct_enabled == old(h).base.ctx.direct_enabled && c.links == w.ctx.links);
    if w.clients.contains_key(sender@) {
        let x = final(h).base.ctx@;
        assert(x.metrics == final(h).base.ctx.metrics);
        if p.envelope is Some && p.decoded is Some && goes_directly(c, m, everyone(w.clients)) {
            assert(final(h).event_queue@.drop_last() =~= old(h).event_queue@);
        }
    }
}

/// A request for friendship is accepted after the delay, and the friends then have a link each way.
pub proof fn law_event_makes_friends(
    a: &mut EventBasedHarness,
    b: &mut EventBasedHarness,
    from: String,
    to: String,
    delay: u64,
    r: EventOutcome,
    s: EventOutcome,
)
    requires
        call_ensures(EventBasedHarness::handle_friend_request, (a, &from, &to, delay), r),
        call_ensures(EventBasedHarness::handle_friend_accept, (b, &from, &to), s),
        old(a).clock.simulated_time + delay <= u64::MAX,
    ensures
        r == (EventOutcome::CustomActionExecuted { success: true }),
        s == (EventOutcome::CustomActionExecuted { success: true }),
        final(a).event_queue@.drop_last() == old(a).event_queue@,
        final(a).event_queue@.last().time == old(a).clock.simulated_time + delay,
        final(a).event_queue@.last().event == (Event::FriendAccept {
            sender_id: from,
            recipient_id: to,
        }),
        final(a).base == old(a).base,
        ({
            let known = old(b).base.clients@.contains_key(from@)
                && old(b).base.clients@.contains_key(to@);
            let links = final(b).base.ctx.direct_links@;
            &&& known ==> links.contains_key((from@, to@)) && links.contains_key((to@, from@))
            &&& !known ==> links == old(b).base.ctx.direct_links@
            &&& known && from@ != to@ && !old(b).base.ctx.direct_links@.contains_key((from@, to@))
                ==> final(b).base.ctx.neighbors@.contains_key(from@)
                    && final(b).base.ctx.neighbors@[from@].contains(to@)
        }),
{
    assert(final(a).event_queue@.drop_last() =~= old(a).event_queue@);
    let c = old(b).base.ctx@;
    let d = final(b).base.ctx@;
    assert(c.links == old(b).base.ctx.direct_links@ && d.links == final(b).base.ctx.direct_links@);
    assert(d.neighbors == final(b).base.ctx.neighbors@);
    let l = (if c.neighbors.contains_key(from@) {
        c.neighbors[from@]
    } else {
        Seq::empty()
    }).push(to@);
    assert(l.last() == to@);
    assert(l.contains(to@));
}

/// Who goes online says so a twentieth of a second later and polls after a tenth; who goes offline
/// does nothing more. Either is remembered of a client that is known.
pub proof fn law_event_goes_online(
    h: &mut EventBasedHarness,
    who: String,
    up: bool,
    r: (EventOutcome, Vec<SimEnvelope>),
)
    requires
        call_ensures(EventBasedHarness::handle_online_transition, (h, &who, up), r),
        old(h).clock.simulated_time + 100_000_000 <= u64::MAX,
        old(h).event_queue.counter() < u64::MAX - 1,
    ensures
        r.0 == (EventOutcome::OnlineTransitioned { new_state: up }),
        old(h).base.clients@.contains_key(who@) ==> final(h).transitions@
            == old(h).transitions@.insert(who@, up),
        !old(h).base.clients@.contains_key(who@) ==> final(h).transitions@ == old(h).transitions@,
        !up ==> r.1@.len() == 0 && final(h).event_queue == old(h).event_queue && final(h).base
            == old(h).base,
        up ==> {
            let n = old(h).event_queue@.len() as int;
            let q = final(h).event_queue@;
            let now = old(h).clock.simulated_time;
            &&& q.len() == n + 2
            &&& q.take(n) == old(h).event_queue@
            &&& q[n].time == now + 100_000_000
            &&& q[n].event == (Event::InboxPoll { client_id: who })
            &&& q[n + 1].time == now + 50_000_000
            &&& q[n + 1].event == (Event::OnlineAnnounce { client_id: who })
        },
        up && old(h).base.clients@.contains_key(who@) && old(h).base.clients@[who@].id == who@
            ==> r.1@ == old(h).base.clients@[who@].stored.filter(
            |m: StoredForPeerMessage| m.store_for_id@ == who@,
        ).map_values(|m: StoredForPeerMessage| m.envelope),
{
    let w = old(h).base.world();
    if up {
        let n = old(h).event_queue@.len();
        assert(final(h).event_queue@.take(n as int) =~= old(h).event_queue@);
        let me = only(who@);
        assert(wanted(me) =~= |m: StoredForPeerMessage| m.store_for_id@ == who@);
    }
}

/// Who is online and polls has fetched what came in, and polls again a minute later; who is not has
/// fetched nothing.
pub proof fn law_event_polls(
    h: &mut EventBasedHarness,
    who: String,
    actions: Vec<Option<IncomingEnvelopeAction>>,
    r: EventOutcome,
    online: bool,
)
    requires
        call_ensures(EventBasedHarness::handle_inbox_poll, (h, &who, &actions), r),
        call_ensures(EventBasedHarness::is_online, (&*old(h), &who), online),
        old(h).clock.simulated_time + 60_000_000_000 <= u64::MAX,
    ensures
        online ==> {
            let q = final(h).event_queue@;
            &&& r == (EventOutcome::InboxPolled { messages_fetched: actions@.len() as usize })
            &&& q.drop_last() == old(h).event_queue@
            &&& q.last().time == old(h).clock.simulated_time + 60_000_000_000
            &&& q.last().event == (Event::InboxPoll { client_id: who })
        },
        !online ==> r == (EventOutcome::InboxPolled { messages_fetched: 0 }) && final(h).base
            == old(h).base && final(h).event_queue == old(h).event_queue,
{
    if online {
        assert(final(h).event_queue@.drop_last() =~= old(h).event_queue@);
    }
}

/// A delivery that falls due brings the message of the envelope to its recipient, with its body,
/// unless it is known there; to nobody known nothing is brought.
pub proof fn law_event_delivers(
    h: &mut EventBasedHarness,
    to: String,
    e: SimEnvelope,
    body: &str,
    r: EventOutcome,
)
    requires
        call_ensures(EventBasedHarness::handle_message_deliver, (h, &to, &e, body), r),
    ensures
        ({
            let clients = old(h).base.clients@;
            let new = clients.contains_key(to@) && !clients[to@].seen.contains_key(e.message_id@);
            let inbox = final(h).base.clients@[to@].inbox;
            &&& new ==> {
                &&& final(h).base.clients@.contains_key(to@)
                &&& inbox.len() == clients[to@].inbox.len() + 1
                &&& inbox.drop_last() == clients[to@].inbox
                &&& inbox.last().id == e.message_id && inbox.last().sender == e.sender_id
                &&& inbox.last().recipient@ == to@ && inbox.last().body@ == body@
                &&& inbox.last().message_kind == e.message_kind
            }
            &&& clients.contains_key(to@) && !new ==> inbox == clients[to@].inbox
            &&& !new ==> r == (EventOutcome::MessageDelivered { accepted: false })
            &&& !clients.contains_key(to@) ==> final(h).base.clients@ == clients
        }),
{
    let w = old(h).base.world();
    let v = final(h).base.world();
    assert(v.clients == final(h).base.clients@ && w.clients == old(h).base.clients@);
    if w.clients.contains_key(to@) {
        let m = choose|m: SimMessage| #[trigger]
            carries(e, to@, body@, m) && {
                let (s, note) = applied(
                    seen_by(w, to@),
                    step_at(old(h).clock.simulated_time),
                    m,
                    DeliveryKind::Direct,
                );
                v == with_client(w, to@, s) && r == (EventOutcome::MessageDelivered {
                    accepted: note is Some,
                })
            };
        assert(w.clients[to@].inbox.push(m).drop_last() =~= w.clients[to@].inbox);
    }
}

// ---------------------------------------------------------------------------
// Counting
// ---------------------------------------------------------------------------

/// A summary grows by one sample: it is in the total, and lies between the least and the greatest.
pub proof fn law_summaries_grow_by_a_sample(
    c: &mut CountSummary,
    s: &mut SizeStats,
    l: &mut LatencyStats,
    n: usize,
    size: u64,
)
    requires
        call_ensures(CountSummary::record, (c, n), ()),
        call_ensures(SizeStats::record, (s, size), ()),
        call_ensures(LatencyStats::record, (l, n), ()),
        old(c).total + n <= usize::MAX,
        old(c).samples < usize::MAX,
        old(s).total + size <= u64::MAX,
        old(s).samples < usize::MAX,
        old(l).summary.samples < usize::MAX,
    ensures
        final(c).total == old(c).total + n,
        final(c).samples == old(c).samples + 1,
        final(c).min is Some && final(c).min->0 <= n,
        final(c).max is Some && final(c).max->0 >= n,
        final(c).min == Some(n) || final(c).min == old(c).min,
        final(c).max == Some(n) || final(c).max == old(c).max,
        old(c).min is Some ==> final(c).min->0 <= old(c).min->0,
        old(c).max is Some ==> final(c).max->0 >= old(c).max->0,
        final(s).total == old(s).total + size,
        final(s).samples == old(s).samples + 1,
        final(s).min is Some && final(s).min->0 <= size,
        final(s).max is Some && final(s).max->0 >= size,
        final(s).min == Some(size) || final(s).min == old(s).min,
        final(s).max == Some(size) || final(s).max == old(s).max,
        old(s).min is Some ==> final(s).min->0 <= old(s).min->0,
        old(s).max is Some ==> final(s).max->0 >= old(s).max->0,
        final(l).counts@.contains_key(n as u64),
        old(l).counts@.contains_key(n as u64) && old(l).counts@[n as u64] < usize::MAX
            ==> final(l).counts@[n as u64] == old(l).counts@[n as u64] + 1,
        !old(l).counts@.contains_key(n as u64) ==> final(l).counts@[n as u64] == 1,
        final(l).summary.samples == old(l).summary.samples + 1,
{
    let v = final(l)@;
    assert(v.counts == final(l).counts@ && v.summary == final(l).summary);
}

/// A window of latencies holds the last so many; what is counted by kind is counted under its kind
/// and no other.
pub proof fn law_kinds_and_windows_are_counted(
    w: &mut RollingLatencyTracker,
    k: &mut KindCounts,
    z: &mut KindSizes,
    latency: usize,
    kind: MessageKind,
    other: MessageKind,
    size: u64,
    n: usize,
    m: usize,
    before: usize,
)
    requires
        call_ensures(RollingLatencyTracker::record, (w, latency), ()),
        call_ensures(KindCounts::bump, (k, kind), ()),
        call_ensures(KindSizes::record, (z, kind, size), ()),
        call_ensures(KindCounts::get, (&*final(k), kind), n),
        call_ensures(KindCounts::get, (&*final(k), other), m),
        call_ensures(KindCounts::get, (&*old(k), kind), before),
        before < usize::MAX,
        other != kind,
        old(w)@.len() <= old(w).size(),
        old(w).size() > 0,
    ensures
        final(w)@.len() > 0 && final(w)@.last() == latency,
        old(w)@.len() < old(w).size() ==> final(w)@.drop_last() == old(w)@,
        old(w)@.len() == old(w).size() ==> final(w)@.drop_last() == old(w)@.drop_first(),
        n == before + 1,
        kind == MessageKind::Public ==> final(k).public == old(k).public + 1,
        kind == MessageKind::Meta ==> final(k).meta == old(k).meta + 1,
        kind == MessageKind::Direct ==> final(k).direct == old(k).direct + 1,
        kind == MessageKind::FriendGroup ==> final(k).friend_group == old(k).friend_group + 1,
        kind == MessageKind::StoreForPeer ==> final(k).store_for_peer == old(k).store_for_peer + 1,
        kind != MessageKind::Public ==> final(k).public == old(k).public && final(z).public
            == old(z).public,
        kind != MessageKind::Meta ==> final(k).meta == old(k).meta && final(z).meta == old(z).meta,
        kind != MessageKind::Direct ==> final(k).direct == old(k).direct && final(z).direct
            == old(z).direct,
        kind != MessageKind::FriendGroup ==> final(k).friend_group == old(k).friend_group
            && final(z).friend_group == old(z).friend_group,
        kind != MessageKind::StoreForPeer ==> final(k).store_for_peer == old(k).store_for_peer
            && final(z).store_for_peer == old(z).store_for_peer,
{
    assert(final(w)@.drop_last() =~= if old(w)@.len() == old(w).size() {
        old(w)@.drop_first()
    } else {
        old(w)@
    });
}

/// A send is counted for its pair and kept with its step; a delivery is counted once for a
/// recipient, with the steps since the send.
pub proof fn law_sends_and_deliveries_are_tracked(
    a: &mut MetricsTracker,
    b: &mut MetricsTracker,
    m: SimMessage,
    step: usize,
    e: SimEnvelope,
    id: &str,
    to: &str,
    r: Option<DeliveryNote>,
)
    requires
        call_ensures(MetricsTracker::record_send, (a, &m, step, &e), ()),
        call_ensures(MetricsTracker::record_delivery, (b, id, to, step), r),
    ensures
        ({
            let pair = (m.sender@, m.recipient@);
            let counts = old(a).per_sender_recipient_counts@;
            let after = final(a).per_sender_recipient_counts@;
            &&& after.contains_key(pair)
            &&& !counts.contains_key(pair) ==> after[pair] == 1
            &&& counts.contains_key(pair) && counts[pair] < usize::MAX ==> after[pair]
                == counts[pair] + 1
            &&& final(a).messages@.contains_key(m.id@)
            &&& !old(a).messages@.contains_key(m.id@) ==> {
                let t = final(a).messages@[m.id@];
                &&& t.send_step == step
                &&& t.recipients == seq![m.recipient@]
                &&& t.delivered.len() == 0
            }
            &&& old(a).messages@.contains_key(m.id@) ==> final(a).messages@ == old(a).messages@
        }),
        ({
            let known = old(b).messages@;
            let t = known[id@];
            let u = final(b).messages@[id@];
            &&& r is Some <==> known.contains_key(id@) && t.recipients.contains(to@)
                && !t.delivered.contains(to@)
            &&& r is None ==> final(b).messages@ == known
            &&& r is Some ==> u.delivered == t.delivered.push(to@) && u.send_step == t.send_step
            &&& r is Some && step >= t.send_step ==> r->0.latency == step - t.send_step
            &&& r is Some ==> r->0.first == !t.first
            &&& r is Some ==> (r->0.all <==> t.delivered.len() + 1 == t.recipients.len() && !t.all)
            &&& r is Some && r->0.first && old(b).first_delivery_latency.summary.samples
                < usize::MAX ==> final(b).first_delivery_latency.summary.samples
                    == old(b).first_delivery_latency.summary.samples + 1
            &&& r is Some && !r->0.first ==> final(b).first_delivery_latency@
                == old(b).first_delivery_latency@
        }),
{
    let v = final(a)@;
    assert(v.counts == final(a).per_sender_recipient_counts@ && v.messages == final(a).messages@);
    assert(old(a)@.counts == old(a).per_sender_recipient_counts@);
    let w = final(b)@;
    assert(w.messages == final(b).messages@ && w.first_latency == final(b).first_delivery_latency@);
    assert(old(b)@.messages == old(b).messages@);
    assert(w.first_latency.summary == final(b).first_delivery_latency.summary);
    assert(old(b)@.first_latency.summary == old(b).first_delivery_latency.summary);
}

/// Each thing that is counted has a counter of its own.
pub proof fn law_counters_are_their_own(
    a: &mut MetricsTracker,
    b: &mut MetricsTracker,
    c: &mut MetricsTracker,
    d: &mut MetricsTracker,
    e: &mut MetricsTracker,
    f: &mut MetricsTracker,
    g: &mut MetricsTracker,
    peer: &str,
)
    requires
        call_ensures(MetricsTracker::record_online_broadcast, (a,), ()),
        call_ensures(MetricsTracker::record_ack, (b,), ()),
        call_ensures(MetricsTracker::record_missed_message_request, (c,), ()),
        call_ensures(MetricsTracker::record_missed_message_delivery, (d,), ()),
        call_ensures(MetricsTracker::record_store_forward_stored, (e,), ()),
        call_ensures(MetricsTracker::record_store_forward_forwarded, (f, peer), ()),
        call_ensures(MetricsTracker::record_store_forward_delivery, (g,), ()),
        old(a).online_broadcasts_sent < usize::MAX,
        old(b).acks_received < usize::MAX,
        old(c).missed_message_requests_sent < usize::MAX,
        old(d).missed_message_deliveries < usize::MAX,
        old(e).store_forwards_stored < usize::MAX,
        old(f).store_forwards_forwarded < usize::MAX,
        old(g).store_forwards_delivered < usize::MAX,
    ensures
        final(a).online_broadcasts_sent == old(a).online_broadcasts_sent + 1,
        final(a).acks_received == old(a).acks_received,
        final(b).acks_received == old(b).acks_received + 1,
        final(b).online_broadcasts_sent == old(b).online_broadcasts_sent,
        final(c).missed_message_requests_sent == old(c).missed_message_requests_sent + 1,
        final(c).missed_message_deliveries == old(c).missed_message_deliveries,
        final(d).missed_message_deliveries == old(d).missed_message_deliveries + 1,
        final(d).missed_message_requests_sent == old(d).missed_message_requests_sent,
        final(e).store_forwards_stored == old(e).store_forwards_stored + 1,
        final(e).store_forwards_forwarded == old(e).store_forwards_forwarded,
        final(e).store_forwards_delivered == old(e).store_forwards_delivered,
        final(f).store_forwards_forwarded == old(f).store_forwards_forwarded + 1,
        final(f).store_forwards_stored == old(f).store_forwards_stored,
        final(f).per_peer_store_forwarded@.contains_key(peer@),
        !old(f).per_peer_store_forwarded@.contains_key(peer@)
            ==> final(f).per_peer_store_forwarded@[peer@] == 1,
        final(g).store_forwards_delivered == old(g).store_forwards_delivered + 1,
        final(g).store_forwards_stored == old(g).store_forwards_stored,
{
    assert(final(a)@.online_broadcasts_sent == final(a).online_broadcasts_sent
        && final(a)@.acks_received == final(a).acks_received);
    assert(final(b)@.online_broadcasts_sent == final(b).online_broadcasts_sent
        && final(b)@.acks_received == final(b).acks_received);
    assert(final(c)@.missed_message_requests_sent == final(c).missed_message_requests_sent
        && final(c)@.missed_message_deliveries == final(c).missed_message_deliveries);
    assert(final(d)@.missed_message_requests_sent == final(d).missed_message_requests_sent
        && final(d)@.missed_message_deliveries == final(d).missed_message_deliveries);
    let x = final(e)@;
    assert(x.store_forwards_stored == final(e).store_forwards_stored && x.store_forwards_forwarded
        == final(e).store_forwards_forwarded && x.store_forwards_delivered
            == final(e).store_forwards_delivered);
    let y = final(f)@;
    assert(y.store_forwards_stored == final(f).store_forwards_stored && y.store_forwards_forwarded
        == final(f).store_forwards_forwarded && y.forwarded == final(f).per_peer_store_forwarded@);
    assert(old(f)@.forwarded == old(f).per_peer_store_forwarded@);
    let z = final(g)@;
    assert(z.store_forwards_stored == final(g).store_forwards_stored && z.store_forwards_delivered
        == final(g).store_forwards_delivered);
}

/// What a report says: a routed message counts as sent, and as received where it was handed over;
/// what an inbox or an answer brought counts as received.
pub proof fn law_progress_is_reported(
    a: &mut Progress,
    b: &mut Progress,
    c: &mut Progress,
    d: &mut Progress,
    route: RouteOutcome,
    inbox: InboxOutcome,
    pending: PendingOutcome,
)
    requires
        call_ensures(Progress::note_route, (a, &route), ()),
        call_ensures(Progress::note_inbox, (b, &inbox), ()),
        call_ensures(Progress::note_pending, (c, &pending), ()),
        call_ensures(Progress::restart, (d,), ()),
        old(a).sent_messages < usize::MAX,
        old(a).received_messages < usize::MAX,
        old(b).received_messages + inbox.received <= usize::MAX,
        old(c).received_messages + pending.received <= usize::MAX,
    ensures
        final(a).sent_messages == old(a).sent_messages + 1,
        route.note is Some ==> final(a).received_messages == old(a).received_messages + 1,
        route.note is None ==> final(a).received_messages == old(a).received_messages,
        final(b).sent_messages == old(b).sent_messages,
        final(b).received_messages == old(b).received_messages + inbox.received,
        final(c).sent_messages == old(c).sent_messages,
        final(c).received_messages == old(c).received_messages + pending.received,
        final(d).sent_messages == 0 && final(d).received_messages == 0,
        final(d).rolling_latency == old(d).rolling_latency,
{
}

/// What happens between two reports of an event-based run, which are a second apart.
pub proof fn law_intervals_are_reported(
    a: &mut Interval,
    b: &mut Interval,
    c: &mut Interval,
    sender: String,
    m: SimMessage,
    to: String,
    e: SimEnvelope,
    sent: u64,
    now: u64,
    due: bool,
)
    requires
        call_ensures(
            Interval::note,
            (a, &Event::MessageSend { sender_id: sender, message: m }, now),
            (),
        ),
        call_ensures(
            Interval::note,
            (b, &Event::MessageDeliver { recipient_id: to, envelope: e, send_time: sent }, now),
            (),
        ),
        call_ensures(Interval::restart, (c, now), ()),
        call_ensures(Interval::is_due, (&*old(c), now), due),
        old(a).sent_messages < usize::MAX,
        old(b).received_messages < usize::MAX,
        old(b).rolling_latency.size() > 0,
        sent <= now,
        now / 1_000_000_000 <= usize::MAX,
    ensures
        final(a).sent_messages == old(a).sent_messages + 1,
        final(a).received_messages == old(a).received_messages,
        final(b).received_messages == old(b).received_messages + 1,
        final(b).sent_messages == old(b).sent_messages,
        final(b).rolling_latency@.last() == (now - sent) / 1_000_000_000,
        final(c).sent_messages == 0 && final(c).received_messages == 0,
        final(c).last_report == now,
        due <==> now - old(c).last_report >= 1_000_000_000,
{
    let d = (now - sent) as u64;
    assert(d / 1_000_000_000 <= now / 1_000_000_000) by (nonlinear_arith)
        requires
            d <= now,
    ;
}

// ---------------------------------------------------------------------------
// Steps
// ---------------------------------------------------------------------------

/// A run goes on step by step, pauses and stops as it is told, and makes friends of those that are
/// named.
pub proof fn law_run_obeys(
    s: &mut RunState,
    t: &mut RunState,
    command: SimulationControlCommand,
    h: &mut SimulationHarness,
    fresh: RunState,
    steps: usize,
)
    requires
        call_ensures(RunState::advance, (s,), ()),
        old(s).step < old(s).steps,
        call_ensures(RunState::obey, (t, command, h), ()),
        call_ensures(RunState::new, (steps,), fresh),
    ensures
        final(s).step == old(s).step + 1 && final(s).steps == old(s).steps,
        fresh.step == 0 && fresh.steps == steps && !fresh.paused && !fresh.stop_requested,
        final(t).step == old(t).step && final(t).steps == old(t).steps,
        match command {
            SimulationControlCommand::SetPaused { paused } => final(t).paused == paused,
            SimulationControlCommand::Stop => final(t).stop_requested,
            SimulationControlCommand::AddPeer { client } => final(h).clients@.contains_key(
                client.id@,
            ) && (!old(h).clients@.contains_key(client.id@) ==> final(h).clients@[client.id@]
                == client@),
            SimulationControlCommand::AddFriendship { peer_a, peer_b } => {
                let clients = old(h).clients@;
                let links = final(h).ctx.direct_links@;
                clients.contains_key(peer_a@) && clients.contains_key(peer_b@)
                    ==> links.contains_key((peer_a@, peer_b@)) && links.contains_key(
                    (peer_b@, peer_a@),
                )
            },
        },
{
    assert(final(h).ctx@.links == final(h).ctx.direct_links@);
}

/// A step is over: who was online in it is remembered, and what was sent is counted.
pub proof fn law_step_is_over(
    h: &mut SimulationHarness,
    p: &mut SimulationHarness,
    step: usize,
    sent: usize,
    planned: usize,
    who: Seq<char>,
)
    requires
        call_ensures(SimulationHarness::finish_step, (h, step, sent), ()),
        call_ensures(SimulationHarness::plan, (p, planned), ()),
        old(h).ctx.metrics.sent_messages + sent <= usize::MAX,
    ensures
        final(h).clients == old(h).clients,
        final(h).ctx.metrics.sent_messages == old(h).ctx.metrics.sent_messages + sent,
        final(h).previous_online@.contains_key(who) && final(h).previous_online@[who]
            <==> old(h).clients@.contains_key(who) && step < old(h).clients@[who].schedule.len()
            && old(h).clients@[who].schedule[step as int],
        final(p).ctx.metrics.planned_messages == planned,
        final(p).ctx.metrics.sent_messages == old(p).ctx.metrics.sent_messages,
{
    assert(final(h).ctx@.metrics == final(h).ctx.metrics);
    assert(final(p).ctx@.metrics == final(p).ctx.metrics);
}

/// What is due in a step is what was planned for it by those who are online in it, in order.
pub proof fn law_due_are_those_of_the_online(
    h: SimulationHarness,
    plan: Vec<PlannedSend>,
    step: usize,
    r: Vec<SimMessage>,
)
    requires
        call_ensures(SimulationHarness::sends_due, (&h, &plan, step), r),
    ensures
        r@ == plan@.filter(
            |p: PlannedSend|
                p.step == step && h.clients@.contains_key(p.message.sender@) && step
                    < h.clients@[p.message.sender@].schedule.len()
                    && h.clients@[p.message.sender@].schedule[step as int],
        ).map_values(|p: PlannedSend| p.message),
{
    assert(is_due(h.clients@, step) =~= |p: PlannedSend|
        p.step == step && h.clients@.contains_key(p.message.sender@) && step
            < h.clients@[p.message.sender@].schedule.len()
            && h.clients@[p.message.sender@].schedule[step as int]);
}

// ---------------------------------------------------------------------------
// Plans
// ---------------------------------------------------------------------------

/// A message that is planned goes to everybody, to a group of its sender or to a friend, as its type
/// says; a sender without groups writes to a friend, and one without either not at all. Each message
/// has a number of its own.
pub proof fn law_planned_message_goes_to_friends_or_groups(
    node: &str,
    friends: Vec<String>,
    groups: Vec<String>,
    kind: MessageType,
    encryption: MessageEncryption,
    counter: &mut usize,
    rng: &mut ChaCha8Rng,
    r: Option<MessagePlan>,
)
    requires
        call_ensures(
            build_planned_message,
            (node, &friends, &groups, kind, encryption, counter, rng),
            r,
        ),
        *old(counter) < usize::MAX,
    ensures
        r is Some <==> kind == MessageType::Public || (kind == MessageType::Group && groups@.len()
            > 0) || friends@.len() > 0,
        *final(counter) == *old(counter) + (if r is Some {
            1int
        } else {
            0
        }),
        r is Some && kind == MessageType::Public ==> r->0@.kind == MessageKind::Public
            && r->0@.recipient == "*"@ && r->0@.group is None,
        r is Some && kind == MessageType::Group && groups@.len() > 0 ==> r->0@.kind
            == MessageKind::FriendGroup && texts(groups@).contains(r->0@.recipient) && r->0@.group
            == Some(r->0@.recipient),
        r is Some && (kind == MessageType::Direct || (kind == MessageType::Group && groups@.len()
            == 0)) ==> r->0@.kind == MessageKind::Direct && texts(friends@).contains(
            r->0@.recipient,
        ) && r->0@.group is None && (r->0@.salt is None <==> encryption
            == MessageEncryption::Encrypted),
{
    assert(texts(groups@).len() == groups@.len() && texts(friends@).len() == friends@.len());
    if r is Some {
        assert(is_written(
            r->0@,
            node@,
            texts(friends@),
            texts(groups@),
            kind,
            encryption,
            *old(counter) as nat,
        ));
    }
}

/// The events of a client come in the order of their times, and are its own.
pub proof fn law_client_comes_and_goes_in_order(
    client: &str,
    draws: CohortDraws,
    start: u64,
    end: u64,
    r: Vec<ScheduledEvent>,
    i: int,
    j: int,
)
    requires
        call_ensures(generate_online_schedule_events, (client, &draws, start, end), r),
        0 <= i < j < r@.len(),
    ensures
        r@[i].time <= r@[j].time,
        r@[i].event matches Event::OnlineTransition { client_id, going_online } && client_id@
            == client@,
        r@[j].event matches Event::OnlineTransition { client_id, going_online } && client_id@
            == client@,
{
    let s = choose|s: Seq<Transition>| #[trigger]
        is_sorted_form(s, cohort_plan(draws, start, end)) && r@.len() == s.len() && forall|i: int|
            0 <= i < r@.len() ==> is_transition(#[trigger] r@[i], client@, s[i]);
    assert(is_transition(r@[i], client@, s[i]) && is_transition(r@[j], client@, s[j]));
    assert(s[i].ranks(&s[j]));
}

/// The events of a simulation are those of its nodes, and every node is in a cohort: the one that it
/// is said to be in, or the one of all where there are none.
pub proof fn law_nodes_come_and_go(
    nodes: Vec<NodeDraws>,
    start: u64,
    end: u64,
    r: (Vec<ScheduledEvent>, KeyedMap<String, String>),
    e: int,
    n: int,
)
    requires
        call_ensures(build_online_events, (&nodes, start, end), r),
        0 <= e < r.0@.len(),
        0 <= n < nodes@.len(),
        forall|k: int|
            0 <= k < nodes@.len() && k != n ==> (#[trigger] nodes@[k]).node_id@
                != nodes@[n].node_id@,
    ensures
        exists|k: int|
            0 <= k < nodes@.len() && (r.0@[e].event matches Event::OnlineTransition {
                client_id,
                going_online,
            } && client_id@ == (#[trigger] nodes@[k]).node_id@),
        r.1@.contains_key(nodes@[n].node_id@),
        nodes@[n].cohort is Some ==> r.1@[nodes@[n].node_id@] == nodes@[n].cohort->0@,
        nodes@[n].cohort is None ==> r.1@[nodes@[n].node_id@] == "legacy"@,
{
    let ends = choose|ends: Seq<int>| #[trigger] all_follow(r.0@, ends, nodes@, start, end);
    let k = lemma_stretch(ends, e, nodes@.len() as int);
    assert(0 <= ends[k] <= ends[k + 1] <= r.0@.len());
    let part = r.0@.subrange(ends[k], ends[k + 1]);
    let plan = node_plan(nodes@[k], start, end);
    assert(follows_plan(part, nodes@[k].node_id@, plan));
    let s = choose|s: Seq<Transition>| #[trigger]
        is_sorted_form(s, plan) && part.len() == s.len() && forall|i: int|
            0 <= i < part.len() ==> is_transition(#[trigger] part[i], nodes@[k].node_id@, s[i]);
    assert(is_transition(part[e - ends[k]], nodes@[k].node_id@, s[e - ends[k]]));
    assert(part[e - ends[k]] == r.0@[e]);
    lemma_cohort(nodes@, n);
}

proof fn lemma_stretch(ends: Seq<int>, e: int, n: int) -> (k: int)
    requires
        0 <= n < ends.len(),
        ends[0] <= e < ends[n],
    ensures
        0 <= k < n,
        ends[k] <= e < ends[k + 1],
    decreases n,
{
    if e >= ends[n - 1] {
        n - 1
    } else {
        lemma_stretch(ends, e, n - 1)
    }
}

proof fn lemma_cohort(nodes: Seq<NodeDraws>, n: int)
    requires
        0 <= n < nodes.len(),
        forall|k: int|
            0 <= k < nodes.len() && k != n ==> (#[trigger] nodes[k]).node_id@ != nodes[n].node_id@,
    ensures
        cohorts_of(nodes).contains_key(nodes[n].node_id@),
        cohorts_of(nodes)[nodes[n].node_id@] == cohort_of(nodes[n]),
    decreases nodes.len(),
{
    if n < nodes.len() - 1 {
        let rest = nodes.drop_last();
        assert forall|k: int| 0 <= k < rest.len() && k != n implies (#[trigger] rest[k]).node_id@
            != rest[n].node_id@ by {
            assert(rest[k] == nodes[k]);
        }
        lemma_cohort(rest, n);
        assert(nodes[nodes.len() - 1].node_id@ != nodes[n].node_id@);
    }
}

/// Names are drawn from a list without the one that is left out, none twice, and no more than are
/// asked for; the distinct names of a list are its names.
pub proof fn law_names_are_drawn(
    candidates: Vec<String>,
    except: &str,
    target: usize,
    rng: &mut ChaCha8Rng,
    r: Vec<String>,
    list: Vec<String>,
    d: Vec<String>,
    name: Seq<char>,
)
    requires
        call_ensures(draw_names, (&candidates, Some(except), target, rng), r),
        call_ensures(distinct, (&list,), d),
    ensures
        texts(r@).no_duplicates(),
        r@.len() <= target,
        texts(r@).contains(name) ==> texts(candidates@).contains(name) && name != except@,
        texts(d@).no_duplicates(),
        texts(d@).contains(name) <==> texts(list@).contains(name),
{
}

/// A simulation begins with nothing counted, nothing received and nobody known.
pub proof fn law_nothing_has_happened_at_first(
    id: &str,
    schedule: Vec<bool>,
    c: SimulationClient,
    n: Node,
    t: MetricsTracker,
    m: SimulationMetrics,
    sizes: SizeStats,
    lags: LatencyStats,
    counts: CountSummary,
)
    requires
        call_ensures(SimulationClient::new, (id, schedule), c),
        call_ensures(Node::new, (id, schedule), n),
        call_ensures(MetricsTracker::new, (), t),
        call_ensures(SimulationMetrics::zero, (), m),
        call_ensures(SizeStats::empty, (), sizes),
        call_ensures(LatencyStats::empty, (), lags),
        call_ensures(CountSummary::empty, (), counts),
    ensures
        c.id@ == id@ && c.schedule@ == schedule@,
        c.inbox@.len() == 0 && c.stored_forwards@.len() == 0,
        c.pending_online_broadcasts@.len() == 0,
        c.seen@ == Map::<Seq<char>, bool>::empty(),
        n@.id == id@ && n@.schedule == schedule@ && n@.inbox.len() == 0,
        t.messages@ == Map::<Seq<char>, TrackingView>::empty(),
        t.per_sender_recipient_counts@ == Map::<(Seq<char>, Seq<char>), usize>::empty(),
        t.online_broadcasts_sent == 0 && t.acks_received == 0,
        t.store_forwards_stored == 0 && t.store_forwards_forwarded == 0
            && t.store_forwards_delivered == 0,
        t.message_sizes_by_kind.direct.samples == 0 && t.message_sizes_by_kind.direct.total == 0,
        m.planned_messages == 0 && m.sent_messages == 0 && m.direct_deliveries == 0
            && m.inbox_deliveries == 0,
        m.store_forwards_stored == 0 && m.store_forwards_forwarded == 0
            && m.store_forwards_delivered == 0,
        sizes.total == 0 && sizes.samples == 0 && sizes.min is None && sizes.max is None,
        lags.counts@ == Map::<u64, usize>::empty() && lags.summary == counts,
        counts.total == 0 && counts.samples == 0 && counts.min is None && counts.max is None,
{
    let v = c@;
    assert(v.inbox == c.inbox@ && v.stored == c.stored_forwards@ && v.seen == c.seen@);
    assert(v.pending.len() == c.pending_online_broadcasts@.len());
    let w = t@;
    assert(w.messages == t.messages@ && w.counts == t.per_sender_recipient_counts@);
    assert(w.sizes == t.message_sizes_by_kind);
    assert(w.online_broadcasts_sent == t.online_broadcasts_sent && w.acks_received
        == t.acks_received && w.store_forwards_stored == t.store_forwards_stored
        && w.store_forwards_forwarded == t.store_forwards_forwarded && w.store_forwards_delivered
        == t.store_forwards_delivered);
    let l = lags@;
    assert(l.counts == lags.counts@ && l.summary == lags.summary);
}

} // verus!
