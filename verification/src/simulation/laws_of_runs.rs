//! What holds of a run: who takes part in a step, in which order things happen, and what is counted.
use vstd::prelude::*;

use crate::protocol::MessageKind;
use crate::simulation::client::ClientView;
use crate::simulation::client::ContextView;
use crate::simulation::client::SimulationClient;
use crate::simulation::driver::carries;
use crate::simulation::driver::everyone;
use crate::simulation::driver::later;
use crate::simulation::driver::latency_steps;
use crate::simulation::driver::one_sent;
use crate::simulation::driver::online_now;
use crate::simulation::driver::only;
use crate::simulation::driver::planned_sends_to_events;
use crate::simulation::driver::relay_pause;
use crate::simulation::driver::sends_at;
use crate::simulation::driver::step_of;
use crate::simulation::driver::EventControl;
use crate::simulation::driver::ANNOUNCE_AFTER_ONLINE;
use crate::simulation::driver::POLL_AFTER_ONLINE;
use crate::simulation::driver::POLL_INTERVAL;
use crate::simulation::event::happened_within;
use crate::simulation::event::is_next;
use crate::simulation::event::millis_since;
use crate::simulation::event::ProcessedEvent;
use crate::simulation::event::ScheduledEvent;
use crate::simulation::harness::all_linked;
use crate::simulation::harness::befriended;
use crate::simulation::harness::clients_by_id;
use crate::simulation::harness::feed_of;
use crate::simulation::harness::fresh_context;
use crate::simulation::harness::is_due;
use crate::simulation::harness::is_online;
use crate::simulation::harness::kept_by;
use crate::simulation::harness::linked;
use crate::simulation::harness::next_previous;
use crate::simulation::harness::was_online;
use crate::simulation::harness::RunAction;
use crate::simulation::harness::RunState;
use crate::simulation::message::PlannedSend;
use crate::simulation::message::SimEnvelope;
use crate::simulation::message::SimMessage;
use crate::simulation::metrics::count_at;
use crate::simulation::metrics::rolled;
use crate::simulation::metrics::sat_add;
use crate::simulation::metrics::sized;
use crate::simulation::metrics::summary_of;
use crate::simulation::metrics::KindCounts;
use crate::simulation::metrics::KindSizes;
use crate::simulation::metrics::SenderRecipientCount;
use crate::simulation::metrics::SizeStats;
use crate::simulation::steps::rolled_all;
use crate::simulation::steps::World;
use crate::simulation::tasks::step_order;
use crate::simulation::tasks::TaskView;
use crate::simulation::tracker::delivered_message;
use crate::simulation::tracker::delivery_note;
use crate::simulation::tracker::forwarded_one;
use crate::simulation::tracker::lists_counts;
use crate::simulation::tracker::sent_message;
use crate::simulation::tracker::DeliveryNote;
use crate::simulation::tracker::TrackerView;
use crate::sorting::Ranked;
use crate::sums::sum;
use crate::text::text_le;

verus! {

// ---------------------------------------------------------------------------
// Steps
// ---------------------------------------------------------------------------

/// A message of a plan is sent at its step, and only where its sender is a client whose schedule
/// says that it is online then; messages that are due keep the order of the plan.
pub proof fn law_messages_are_sent_at_their_step(
    clients: Map<Seq<char>, ClientView>,
    plan: Seq<PlannedSend>,
    step: usize,
    i: int,
)
    requires
        0 <= i < plan.len(),
    ensures
        plan.filter(is_due(clients, step)).contains(plan[i]) <==> plan[i].step == step
            && clients.contains_key(plan[i].message.sender@) && step
            < clients[plan[i].message.sender@].schedule.len()
            && clients[plan[i].message.sender@].schedule[step as int],
        plan.filter(is_due(clients, step)) == plan.filter(
            |p: PlannedSend|
                p.step == step && clients.contains_key(p.message.sender@) && step
                    < clients[p.message.sender@].schedule.len()
                    && clients[p.message.sender@].schedule[step as int],
        ),
{
    let due = is_due(clients, step);
    let raw = |p: PlannedSend|
        p.step == step && clients.contains_key(p.message.sender@) && step
            < clients[p.message.sender@].schedule.len()
            && clients[p.message.sender@].schedule[step as int];
    assert(due =~= raw);
    if due(plan[i]) {
        plan.lemma_filter_contains(due, i);
    }
    let f = plan.filter(due);
    if f.contains(plan[i]) {
        let k = choose|k: int| 0 <= k < f.len() && f[k] == plan[i];
        plan.lemma_filter_pred(due, k);
    }
}

/// Who comes and goes between two steps: once a step is over, those are new at the next who are
/// online then but were not, and those have gone who were online but are not any more.
pub proof fn law_newcomers_were_offline_before(
    clients: Map<Seq<char>, ClientView>,
    previous: Map<Seq<char>, bool>,
    step: usize,
    who: Seq<char>,
)
    requires
        step < usize::MAX,
        clients.contains_key(who),
    ensures
        ({
            let s = clients[who].schedule;
            let now = step < s.len() && s[step as int];
            let next = step + 1 < s.len() && s[step + 1];
            let after = next_previous(clients, previous, step);
            let later = (step + 1) as usize;
            &&& is_online(clients, who, step) == now
            &&& was_online(after, who) == now
            &&& (is_online(clients, who, later) && !was_online(after, who)) == (next && !now)
            &&& (was_online(after, who) && !is_online(clients, who, later)) == (now && !next)
        }),
{
}

/// A step goes in order: first every message that is due, then what is kept for others, then the
/// newcomers with their inboxes and their announcements, then what was announced, then everybody
/// else's inbox; and then it is over.
pub proof fn law_step_goes_in_order(
    due: nat,
    newcomers: Seq<Seq<char>>,
    online: Seq<Seq<char>>,
    i: int,
    j: int,
)
    requires
        0 <= i < j < step_order(due, newcomers, online).len(),
    ensures
        ({
            let t = step_order(due, newcomers, online);
            &&& t[j] is Send ==> t[i] is Send && t[i]->Send_0 < t[j]->Send_0
            &&& t[i] is Forward ==> !(t[j] is Send) && !(t[j] is Forward)
            &&& t[i] is Announce ==> t[j] is Announce || t[j] is AnswerPending || t[j] is Poll
                || t[j] is Finish
            &&& t[i] is AnswerPending ==> t[j] is Poll || t[j] is Finish
            &&& t[i] is AnswerPending && t[j] is Poll ==> !newcomers.contains(t[j]->Poll_0)
            &&& t[j] is Announce && t[i] is Poll ==> newcomers.contains(t[i]->Poll_0)
            &&& t[i] is Finish ==> false
            &&& t.last() is Finish
            &&& i < due ==> t[i] == TaskView::Send(i as nat)
            &&& t[due as int] is Forward
        }),
{
    let t = step_order(due, newcomers, online);
    let rest = online.filter(|p: Seq<char>| !newcomers.contains(p));
    let n = newcomers.len();
    let d = due as int;
    assert(t.len() == d + 1 + n + n + 1 + rest.len() + 1);
    assert forall|k: int| 0 <= k < t.len() implies {
        &&& k < d ==> #[trigger] t[k] == TaskView::Send(k as nat)
        &&& k == d ==> t[k] is Forward
        &&& d < k <= d + n ==> t[k] == TaskView::Poll(newcomers[k - d - 1])
        &&& d + n < k <= d + 2 * n ==> t[k] == TaskView::Announce(newcomers[k - d - n - 1])
        &&& k == d + 2 * n + 1 ==> t[k] is AnswerPending
        &&& d + 2 * n + 1 < k < t.len() - 1 ==> t[k] == TaskView::Poll(
            rest[k - d - 2 * n - 2],
        )
        &&& k == t.len() - 1 ==> t[k] is Finish
    } by {}
    let a = t[i];
    let b = t[j];
    if d + 2 * n + 1 < j < t.len() - 1 {
        online.lemma_filter_pred(|p: Seq<char>| !newcomers.contains(p), j - d - 2 * n - 2);
    }
    if d < i <= d + n {
        assert(newcomers.contains(newcomers[i - d - 1]));
    }
    let c = t[d];
    let e = t[t.len() - 1];
}

/// A run goes on step by step until it has taken all steps or is told to stop, and waits while it
/// is paused.
pub proof fn law_run_goes_on_until_it_is_over(s: RunState, r: RunAction)
    requires
        call_ensures(RunState::next_action, (&s,), r),
    ensures
        r == RunAction::Finish <==> s.step >= s.steps || s.stop_requested,
        r == RunAction::Wait <==> s.step < s.steps && !s.stop_requested && s.paused,
        r == RunAction::Step <==> s.step < s.steps && !s.stop_requested && !s.paused,
{
}

// ---------------------------------------------------------------------------
// Friendship
// ---------------------------------------------------------------------------

/// Two clients that become friends are neighbours of each other from then on, each behind the
/// neighbours that the other had; nobody else's neighbours change.
pub proof fn law_friends_are_neighbours(
    c: ContextView,
    a: Seq<char>,
    b: Seq<char>,
    other: Seq<char>,
)
    requires
        a != b,
        forall|x: Seq<char>, y: Seq<char>| #[trigger]
            c.links.contains_key((x, y)) ==> c.neighbors.contains_key(x) && c.neighbors[x].contains(
                y,
            ),
    ensures
        ({
            let d = befriended(c, a, b);
            &&& d.links.contains_key((a, b)) && d.links.contains_key((b, a))
            &&& d.neighbors.contains_key(a) && d.neighbors[a].contains(b)
            &&& d.neighbors.contains_key(b) && d.neighbors[b].contains(a)
            &&& c.neighbors.contains_key(a) && !c.links.contains_key((a, b)) ==> d.neighbors[a]
                == c.neighbors[a].push(b)
            &&& other != a && other != b ==> d.neighbors.contains_key(other)
                == c.neighbors.contains_key(other) && d.neighbors[other] == c.neighbors[other]
            &&& d.history == c.history && d.metrics == c.metrics && d.tracker == c.tracker
                && d.send_steps == c.send_steps && d.direct_enabled == c.direct_enabled
        }),
{
    let l = linked(c, a, b);
    let d = linked(l, b, a);
    if !c.links.contains_key((a, b)) {
        assert(l.neighbors[a].last() == b);
    }
    if !l.links.contains_key((b, a)) {
        assert(d.neighbors[b].last() == a);
    }
}

/// A run that begins has a link for every pair that is given and no other, and nothing else has
/// happened yet.
pub proof fn law_run_begins_with_its_links(
    direct_enabled: bool,
    links: Seq<(String, String)>,
    a: Seq<char>,
    b: Seq<char>,
)
    ensures
        ({
            let c = all_linked(fresh_context(direct_enabled), links);
            &&& c.links.contains_key((a, b)) <==> exists|i: int|
                0 <= i < links.len() && (#[trigger] links[i]).0@ == a && links[i].1@ == b
            &&& c.direct_enabled == direct_enabled
            &&& c.history.dom().is_empty() && c.send_steps.dom().is_empty()
                && c.forwarded.dom().is_empty()
            &&& c.metrics.planned_messages == 0 && c.metrics.sent_messages == 0
            &&& c.metrics.direct_deliveries == 0 && c.metrics.inbox_deliveries == 0
            &&& c.metrics.store_forwards_stored == 0 && c.metrics.store_forwards_forwarded == 0
                && c.metrics.store_forwards_delivered == 0
            &&& c.tracker.messages.dom().is_empty() && c.tracker.counts.dom().is_empty()
        }),
    decreases links.len(),
{
    if links.len() > 0 {
        let rest = links.drop_last();
        law_run_begins_with_its_links(direct_enabled, rest, a, b);
        let c = all_linked(fresh_context(direct_enabled), links);
        if c.links.contains_key((a, b)) {
            if all_linked(fresh_context(direct_enabled), rest).links.contains_key((a, b)) {
                let i = choose|i: int|
                    0 <= i < rest.len() && (#[trigger] rest[i]).0@ == a && rest[i].1@ == b;
                assert(links[i].0@ == a && links[i].1@ == b);
            } else {
                assert(links[links.len() - 1].0@ == a);
            }
        }
        if exists|i: int| 0 <= i < links.len() && (#[trigger] links[i]).0@ == a && links[i].1@ == b {
            let i = choose|i: int|
                0 <= i < links.len() && (#[trigger] links[i]).0@ == a && links[i].1@ == b;
            if i < rest.len() {
                assert(rest[i].0@ == a && rest[i].1@ == b);
            }
        }
    }
}

/// Clients are known by their ids; of several with one id the last counts.
pub proof fn law_clients_are_known_by_id(clients: Seq<SimulationClient>, i: int)
    requires
        0 <= i < clients.len(),
        forall|j: int| i < j < clients.len() ==> (#[trigger] clients[j]).id@ != clients[i].id@,
    ensures
        clients_by_id(clients).contains_key(clients[i].id@),
        clients_by_id(clients)[clients[i].id@] == clients[i]@,
    decreases clients.len(),
{
    if i < clients.len() - 1 {
        let rest = clients.drop_last();
        assert forall|j: int| i < j < rest.len() implies (#[trigger] rest[j]).id@ != rest[i].id@ by {
            assert(rest[j] == clients[j]);
        }
        law_clients_are_known_by_id(rest, i);
        assert(clients[clients.len() - 1].id@ != clients[i].id@);
    }
}

// ---------------------------------------------------------------------------
// Counting
// ---------------------------------------------------------------------------

/// A message that is sent is counted for its pair and for its kind and size, and nothing else is
/// counted; it is known from then on by the step and the recipient of its first sending.
pub proof fn law_sends_are_counted(
    t: TrackerView,
    id: Seq<char>,
    sender: Seq<char>,
    recipient: Seq<char>,
    step: usize,
    kind: MessageKind,
    size: u64,
    other: MessageKind,
)
    requires
        count_of(t.counts, (sender, recipient)) < usize::MAX,
        t.sent_by_kind.contains_key(sender) ==> kind_count(t.sent_by_kind[sender], kind)
            < usize::MAX,
        other != kind,
    ensures
        ({
            let u = sent_message(t, id, sender, recipient, step, kind, size);
            &&& u.counts == t.counts.insert(
                (sender, recipient),
                (count_of(t.counts, (sender, recipient)) + 1) as usize,
            )
            &&& u.messages.contains_key(id)
            &&& t.messages.contains_key(id) ==> u.messages == t.messages
            &&& !t.messages.contains_key(id) ==> {
                &&& u.messages.dom() == t.messages.dom().insert(id)
                &&& u.messages[id].send_step == step
                &&& u.messages[id].recipients == seq![recipient]
                &&& u.messages[id].delivered.len() == 0
                &&& !u.messages[id].first && !u.messages[id].all
            }
            &&& u.sent_by_kind.contains_key(sender)
            &&& kind_count(u.sent_by_kind[sender], kind) == 1 + (if t.sent_by_kind.contains_key(
                sender,
            ) {
                kind_count(t.sent_by_kind[sender], kind) as int
            } else {
                0
            })
            &&& t.sent_by_kind.contains_key(sender) ==> kind_count(u.sent_by_kind[sender], other)
                == kind_count(t.sent_by_kind[sender], other)
            &&& kind_sizes(u.sizes, kind) == sized(kind_sizes(t.sizes, kind), size)
            &&& kind_sizes(u.sizes, other) == kind_sizes(t.sizes, other)
            &&& u.first_latency == t.first_latency && u.all_latency == t.all_latency
            &&& u.store_forwards_stored == t.store_forwards_stored
        }),
{
    let u = sent_message(t, id, sender, recipient, step, kind, size);
    if !t.messages.contains_key(id) {
        assert(u.messages.dom() =~= t.messages.dom().insert(id));
    }
}

/// How often a pair was counted.
pub open spec fn count_of(m: Map<(Seq<char>, Seq<char>), usize>, k: (Seq<char>, Seq<char>)) -> int {
    if m.contains_key(k) {
        m[k] as int
    } else {
        0
    }
}

/// How many messages of a kind were counted.
pub open spec fn kind_count(k: KindCounts, kind: MessageKind) -> usize {
    match kind {
        MessageKind::Direct => k.direct,
        MessageKind::Public => k.public,
        MessageKind::FriendGroup => k.friend_group,
        MessageKind::Meta => k.meta,
        MessageKind::StoreForPeer => k.store_for_peer,
    }
}

/// The sizes of the messages of a kind.
pub open spec fn kind_sizes(k: KindSizes, kind: MessageKind) -> SizeStats {
    match kind {
        MessageKind::Direct => k.direct,
        MessageKind::Public => k.public,
        MessageKind::FriendGroup => k.friend_group,
        MessageKind::Meta => k.meta,
        MessageKind::StoreForPeer => k.store_for_peer,
    }
}

/// A size that is taken in is one more, adds to the total, and widens the bounds as far as it takes.
pub proof fn law_sizes_are_taken_in(s: SizeStats, n: u64)
    requires
        s.total + n <= u64::MAX,
        s.samples < usize::MAX,
    ensures
        ({
            let t = sized(s, n);
            &&& t.total == s.total + n
            &&& t.samples == s.samples + 1
            &&& t.min is Some && t.min->0 <= n && (t.min->0 == n || t.min == s.min)
            &&& t.max is Some && t.max->0 >= n && (t.max->0 == n || t.max == s.max)
            &&& s.min is Some ==> t.min->0 <= s.min->0
            &&& s.max is Some ==> t.max->0 >= s.max->0
        }),
{
}

/// The total of a summary is the sum of the counts, and it has as many samples as there are counts.
pub proof fn law_summary_adds_up(counts: Seq<usize>)
    requires
        sum(counts, |n: usize| n as nat) <= usize::MAX,
        counts.len() <= usize::MAX,
    ensures
        summary_of(counts).total == sum(counts, |n: usize| n as nat),
        summary_of(counts).samples == counts.len(),
        counts.len() == 0 ==> summary_of(counts).min is None && summary_of(counts).max is None,
    decreases counts.len(),
{
    let f = |n: usize| n as nat;
    if counts.len() > 0 {
        law_summary_adds_up(counts.drop_last());
    }
}

/// A delivery is entered with the steps since the message was first sent: among the first
/// deliveries where there was none before, and among those to all where nobody is left.
pub proof fn law_delivery_is_entered(
    t: TrackerView,
    id: Seq<char>,
    recipient: Seq<char>,
    step: usize,
)
    requires
        t.messages.contains_key(id),
        t.messages[id].send_step <= step,
        count_at(t.first_latency.counts, (step - t.messages[id].send_step) as u64) < usize::MAX,
        step <= u64::MAX,
    ensures
        ({
            let m = t.messages[id];
            let n = delivery_note(t, id, recipient, step);
            let u = delivered_message(t, id, recipient, step);
            &&& n.latency == step - m.send_step
            &&& n.first == !m.first
            &&& n.all == (m.delivered.len() + 1 == m.recipients.len() && !m.all)
            &&& u.messages[id].delivered == m.delivered.push(recipient)
            &&& u.messages[id].first
            &&& u.messages[id].recipients == m.recipients && u.messages[id].send_step
                == m.send_step
            &&& !m.first ==> u.first_latency.counts.contains_key(n.latency as u64)
                && u.first_latency.counts[n.latency as u64] == (
            if t.first_latency.counts.contains_key(n.latency as u64) {
                t.first_latency.counts[n.latency as u64] as int
            } else {
                0
            }) + 1
            &&& m.first ==> u.first_latency == t.first_latency
            &&& !n.all ==> u.all_latency == t.all_latency
            &&& u.counts == t.counts && u.sizes == t.sizes && u.sent_by_kind == t.sent_by_kind
        }),
{
}

/// A stored message that a peer forwards is counted for that peer and in all.
pub proof fn law_forwards_are_counted(t: TrackerView, peer: Seq<char>, other: Seq<char>)
    requires
        t.store_forwards_forwarded < usize::MAX,
        t.forwarded.contains_key(peer) ==> t.forwarded[peer] < usize::MAX,
        other != peer,
    ensures
        ({
            let u = forwarded_one(t, peer);
            &&& u.store_forwards_forwarded == t.store_forwards_forwarded + 1
            &&& u.forwarded.contains_key(peer)
            &&& u.forwarded[peer] == 1 + (if t.forwarded.contains_key(peer) {
                t.forwarded[peer] as int
            } else {
                0
            })
            &&& u.forwarded.contains_key(other) == t.forwarded.contains_key(other)
            &&& t.forwarded.contains_key(other) ==> u.forwarded[other] == t.forwarded[other]
        }),
{
}

/// Pairs are listed by sender, and those of one sender by recipient, each once with its count.
pub proof fn law_counts_are_listed_by_name(
    l: Seq<SenderRecipientCount>,
    counts: Map<(Seq<char>, Seq<char>), usize>,
    i: int,
    j: int,
)
    requires
        lists_counts(l, counts),
        0 <= i < j < l.len(),
    ensures
        text_le(l[i].sender@, l[j].sender@) || l[i].sender@ == l[j].sender@,
        l[i].sender@ == l[j].sender@ ==> text_le(l[i].recipient@, l[j].recipient@)
            && l[i].recipient@ != l[j].recipient@,
        counts.contains_key((l[i].sender@, l[i].recipient@)),
        counts[(l[i].sender@, l[i].recipient@)] == l[i].count,
{
    assert(l[i].ranks(&l[j]));
    let names = l.map_values(
        |x: SenderRecipientCount| crate::simulation::tracker::pair_of(x),
    );
    assert(names[i] == (l[i].sender@, l[i].recipient@));
    assert(names[j] == (l[j].sender@, l[j].recipient@));
}

/// A window holds the last latencies, newest last, and no more of them than it has room for.
pub proof fn law_window_holds_the_last(window: Seq<usize>, size: usize, latency: usize)
    requires
        size > 0,
        window.len() <= size,
    ensures
        ({
            let w = rolled(window, size, latency);
            &&& w.len() > 0 && w.last() == latency
            &&& w.len() <= size
            &&& window.len() < size ==> w == window.push(latency)
            &&& window.len() == size ==> w == window.skip(1).push(latency)
        }),
{
    assert(window.drop_first() =~= window.skip(1));
}

/// Latencies that come in one after the other go through a window one after the other.
pub proof fn law_window_takes_notes_in_order(
    window: Seq<usize>,
    size: usize,
    notes: Seq<DeliveryNote>,
    n: DeliveryNote,
)
    ensures
        rolled_all(window, size, notes.push(n)) == rolled(
            rolled_all(window, size, notes),
            size,
            n.latency,
        ),
        rolled_all(window, size, Seq::empty()) == window,
{
    assert(notes.push(n).drop_last() =~= notes);
}

/// Counts never wrap: they add up as long as they fit, and stay at the most otherwise.
pub proof fn law_counts_do_not_wrap(a: usize, b: nat)
    ensures
        a + b <= usize::MAX ==> sat_add(a, b as int) == a + b,
        a + b > usize::MAX ==> sat_add(a, b as int) == usize::MAX,
{
}

/// What a client has received, and what it keeps for others, is as much as there is.
pub proof fn law_feeds_are_counted(clients: Map<Seq<char>, ClientView>, who: Seq<char>)
    requires
        clients.contains_key(who),
        clients[who].inbox.len() <= usize::MAX,
        clients[who].stored.len() <= usize::MAX,
    ensures
        feed_of(clients, who) == clients[who].inbox.len(),
        kept_by(clients, who) == clients[who].stored.len(),
{
}

// ---------------------------------------------------------------------------
// Events
// ---------------------------------------------------------------------------

/// The next event is the earliest, and of several at one time the one that was scheduled first.
pub proof fn law_next_event_is_the_earliest(s: Seq<ScheduledEvent>, i: int, j: int)
    requires
        is_next(s, i),
        0 <= j < s.len(),
    ensures
        s[i].time <= s[j].time,
        s[i].time == s[j].time ==> s[i].event_id <= s[j].event_id,
{
    if i != j {
        let e = s[j];
    }
}

/// An event is in a range of time where it lies between its ends or at one of them, and the log
/// gives whole milliseconds since it was opened.
pub proof fn law_log_goes_by_time(e: ProcessedEvent, start: u64, end: u64, now: u128, opened: u128)
    ensures
        happened_within(start, end)(e) <==> start <= e.simulated_time && e.simulated_time <= end,
        opened <= now && now - opened <= u64::MAX ==> millis_since(now, opened) == (now - opened)
            / 1_000_000,
        now < opened ==> millis_since(now, opened) == 0,
{
}

/// Simulated time is in nanoseconds, and a step is a second of it. What comes a while later comes
/// that much later.
pub proof fn law_simulated_time(
    time: u64,
    delay: u64,
    now: u64,
    sent: u64,
    step: usize,
    lag: usize,
)
    requires
        call_ensures(step_of, (time,), step),
        call_ensures(latency_steps, (now, sent), lag),
        time / 1_000_000_000 <= usize::MAX,
        now / 1_000_000_000 <= usize::MAX,
    ensures
        step == time / 1_000_000_000,
        sent <= now ==> lag == (now - sent) / 1_000_000_000,
        now < sent ==> lag == 0,
        time + delay <= u64::MAX ==> later(time, delay) == time + delay,
        POLL_AFTER_ONLINE == 100_000_000,
        ANNOUNCE_AFTER_ONLINE == 50_000_000,
        POLL_INTERVAL == 60_000_000_000,
{
    if sent <= now {
        let d = (now - sent) as u64;
        assert(d / 1_000_000_000 <= now / 1_000_000_000) by (nonlinear_arith)
            requires
                d <= now,
        ;
    }
}

/// A client is online as its last coming or going says; before it had one, as its schedule says for
/// the second that it is. Whoever is no client is not online.
pub proof fn law_online_is_what_the_last_transition_says(
    w: World,
    transitions: Map<Seq<char>, bool>,
    who: Seq<char>,
    time: u64,
)
    requires
        time / 1_000_000_000 <= usize::MAX,
    ensures
        ({
            let s = w.clients[who].schedule;
            let t = time / 1_000_000_000;
            &&& !w.clients.contains_key(who) ==> !online_now(w, transitions, who, time)
            &&& w.clients.contains_key(who) && transitions.contains_key(who) ==> online_now(
                w,
                transitions,
                who,
                time,
            ) == transitions[who]
            &&& w.clients.contains_key(who) && !transitions.contains_key(who) ==> online_now(
                w,
                transitions,
                who,
                time,
            ) == (t < s.len() && s[t as int])
        }),
{
}

/// Everybody who is a client can be reached, and nobody else; one peer alone is that peer.
pub proof fn law_who_can_be_reached(
    clients: Map<Seq<char>, ClientView>,
    who: Seq<char>,
    p: Seq<char>,
)
    ensures
        everyone(clients).contains_key(p) <==> clients.contains_key(p),
        only(who).contains_key(p) <==> p == who,
{
}

/// Sending a message counts one, and changes nothing else.
pub proof fn law_one_more_is_sent(w: World)
    requires
        w.ctx.metrics.sent_messages < usize::MAX,
    ensures
        ({
            let v = one_sent(w);
            &&& v.ctx.metrics.sent_messages == w.ctx.metrics.sent_messages + 1
            &&& v.ctx.metrics.direct_deliveries == w.ctx.metrics.direct_deliveries
            &&& v.ctx.metrics.inbox_deliveries == w.ctx.metrics.inbox_deliveries
            &&& v.ctx.metrics.planned_messages == w.ctx.metrics.planned_messages
            &&& v.clients == w.clients && v.ctx.tracker == w.ctx.tracker && v.ctx.history
                == w.ctx.history && v.ctx.neighbors == w.ctx.neighbors && v.ctx.links
                == w.ctx.links
        }),
{
}

/// An envelope brings the message that was put into it, from its sender and under its id, to the
/// one it is delivered to.
pub proof fn law_envelope_brings_its_message(
    e: SimEnvelope,
    recipient: Seq<char>,
    body: Seq<char>,
    m: SimMessage,
)
    requires
        carries(e, recipient, body, m),
    ensures
        m.id@ == e.message_id@,
        m.sender@ == e.sender_id@,
        m.recipient@ == recipient,
        m.body@ == body,
        m.payload@ == e.payload@,
        m.message_kind == e.message_kind,
        m.group_id == e.group_id,
{
}

/// A message of a plan becomes the event by which its sender sends it, at the time of its step.
pub proof fn law_planned_messages_become_events(
    plan: Vec<PlannedSend>,
    nanos_per_step: u64,
    r: Vec<ScheduledEvent>,
    i: int,
)
    requires
        call_ensures(planned_sends_to_events, (&plan, nanos_per_step), r),
        0 <= i < plan@.len(),
    ensures
        r@.len() == plan@.len(),
        r@[i].time == plan@[i].step * nanos_per_step,
        r@[i].event is MessageSend,
        r@[i].event->MessageSend_sender_id@ == plan@[i].message.sender@,
        r@[i].event->message == plan@[i].message,
{
    assert(sends_at(plan@[i], nanos_per_step, r@[i]));
}

/// The relay's log output follows what a command says about pausing, and nothing else.
pub proof fn law_relay_pauses_with_the_run(command: EventControl, r: Option<bool>)
    requires
        call_ensures(relay_pause, (&command,), r),
    ensures
        r is Some <==> command is SetPaused,
        command is SetPaused ==> r->0 == command->paused,
{
}

} // verus!
