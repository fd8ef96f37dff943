//! What a run does in a step, and what it counts between reports.
use vstd::prelude::*;

use crate::simulation::driver::latency_steps;
use crate::simulation::driver::step_at;
use crate::simulation::driver::SIMULATED_SECOND;
use crate::simulation::event::Event;
use crate::simulation::harness::StepPlan;
use crate::simulation::metrics::rolled;
use crate::simulation::metrics::sat_add;
use crate::simulation::metrics::RollingLatencyTracker;
use crate::text::contains;
use crate::text::texts;

verus! {

// ---------------------------------------------------------------------------
// Steps
// ---------------------------------------------------------------------------

/// One thing to do in a step.
pub enum StepTask {
    /// Route the planned message with this number.
    Send(usize),
    /// Forward what is kept for peers that are online.
    Forward,
    /// Fetch the inbox of a peer.
    Poll(String),
    /// Let a peer announce that it is online.
    Announce(String),
    /// Answer the announcements that are still open.
    AnswerPending,
    /// Close the step.
    Finish,
}

/// A thing to do, by name.
pub enum TaskView {
    Send(nat),
    Forward,
    Poll(Seq<char>),
    Announce(Seq<char>),
    AnswerPending,
    Finish,
}

impl View for StepTask {
    type V = TaskView;

    open spec fn view(&self) -> TaskView {
        match self {
            StepTask::Send(i) => TaskView::Send(*i as nat),
            StepTask::Forward => TaskView::Forward,
            StepTask::Poll(p) => TaskView::Poll(p@),
            StepTask::Announce(p) => TaskView::Announce(p@),
            StepTask::AnswerPending => TaskView::AnswerPending,
            StepTask::Finish => TaskView::Finish,
        }
    }
}

/// Things to do, by name.
pub open spec fn tasks(v: Seq<StepTask>) -> Seq<TaskView> {
    v.map_values(|t: StepTask| t@)
}

/// All planned messages are routed.
pub open spec fn send_all(due: nat) -> Seq<TaskView> {
    Seq::new(due, |i: int| TaskView::Send(i as nat))
}

/// Everybody's inbox is fetched.
pub open spec fn poll_all(peers: Seq<Seq<char>>) -> Seq<TaskView> {
    peers.map_values(|p: Seq<char>| TaskView::Poll(p))
}

/// Everybody announces that they are online.
pub open spec fn announce_all(peers: Seq<Seq<char>>) -> Seq<TaskView> {
    peers.map_values(|p: Seq<char>| TaskView::Announce(p))
}

/// Those who are not among the newcomers.
pub open spec fn regulars(online: Seq<Seq<char>>, newcomers: Seq<Seq<char>>) -> Seq<Seq<char>> {
    online.filter(|p: Seq<char>| !newcomers.contains(p))
}

/// What happens in a step, in this order: messages are routed; what is kept for others is
/// forwarded; newcomers fetch their inbox and announce themselves; announcements are answered;
/// everybody else who is online fetches their inbox.
pub open spec fn step_order(due: nat, newcomers: Seq<Seq<char>>, online: Seq<Seq<char>>) -> Seq<
    TaskView,
> {
    send_all(due) + seq![TaskView::Forward] + poll_all(newcomers) + announce_all(newcomers)
        + seq![TaskView::AnswerPending] + poll_all(regulars(online, newcomers))
        + seq![TaskView::Finish]
}

fn push_task(v: &mut Vec<StepTask>, t: StepTask)
    ensures
        tasks(final(v)@) == tasks(old(v)@).push(t@),
{
    let ghost before = v@;
    v.push(t);
    assert(tasks(v@) =~= tasks(before).push(t@));
}

/// Works out what to do in a step.
pub fn step_tasks(plan: &StepPlan) -> (r: Vec<StepTask>)
    ensures
        tasks(r@) == step_order(
            plan.due@.len(),
            texts(plan.newly_online@),
            texts(plan.online@),
        ),
{
    let ghost newcomers = texts(plan.newly_online@);
    let ghost online = texts(plan.online@);
    let mut out: Vec<StepTask> = Vec::new();
    let mut i: usize = 0;
    assert(tasks(out@) =~= send_all(0));
    while i < plan.due.len()
        invariant
            i <= plan.due@.len(),
            tasks(out@) == send_all(i as nat),
        decreases plan.due@.len() - i,
    {
        push_task(&mut out, StepTask::Send(i));
        assert(send_all(i as nat).push(TaskView::Send(i as nat)) =~= send_all((i + 1) as nat));
        i = i + 1;
    }
    push_task(&mut out, StepTask::Forward);
    let ghost base = tasks(out@);
    assert(base =~= send_all(plan.due@.len()) + seq![TaskView::Forward]);
    i = 0;
    assert(base + poll_all(newcomers.take(0)) =~= base);
    while i < plan.newly_online.len()
        invariant
            i <= plan.newly_online@.len(),
            newcomers == texts(plan.newly_online@),
            tasks(out@) == base + poll_all(newcomers.take(i as int)),
        decreases plan.newly_online@.len() - i,
    {
        push_task(&mut out, StepTask::Poll(plan.newly_online[i].clone()));
        assert(base + poll_all(newcomers.take(i + 1)) =~= (base + poll_all(
            newcomers.take(i as int),
        )).push(TaskView::Poll(newcomers[i as int])));
        i = i + 1;
    }
    assert(newcomers.take(i as int) =~= newcomers);
    let ghost base = tasks(out@);
    i = 0;
    assert(base + announce_all(newcomers.take(0)) =~= base);
    while i < plan.newly_online.len()
        invariant
            i <= plan.newly_online@.len(),
            newcomers == texts(plan.newly_online@),
            tasks(out@) == base + announce_all(newcomers.take(i as int)),
        decreases plan.newly_online@.len() - i,
    {
        push_task(&mut out, StepTask::Announce(plan.newly_online[i].clone()));
        assert(base + announce_all(newcomers.take(i + 1)) =~= (base + announce_all(
            newcomers.take(i as int),
        )).push(TaskView::Announce(newcomers[i as int])));
        i = i + 1;
    }
    assert(newcomers.take(i as int) =~= newcomers);
    push_task(&mut out, StepTask::AnswerPending);
    let ghost base = tasks(out@);
    i = 0;
    proof {
        reveal(Seq::filter);
        assert(online.take(0) =~= Seq::empty());
        assert(base + poll_all(regulars(online.take(0), newcomers)) =~= base);
    }
    while i < plan.online.len()
        invariant
            i <= plan.online@.len(),
            newcomers == texts(plan.newly_online@),
            online == texts(plan.online@),
            tasks(out@) == base + poll_all(regulars(online.take(i as int), newcomers)),
        decreases plan.online@.len() - i,
    {
        let peer = &plan.online[i];
        let ghost before = regulars(online.take(i as int), newcomers);
        proof {
            reveal(Seq::filter);
            assert(online.take(i + 1).drop_last() =~= online.take(i as int));
            assert(online.take(i + 1).last() == peer@);
        }
        if !contains(&plan.newly_online, peer.as_str()) {
            push_task(&mut out, StepTask::Poll(peer.clone()));
            assert(poll_all(before.push(peer@)) =~= poll_all(before).push(TaskView::Poll(peer@)));
            assert(tasks(out@) =~= base + poll_all(before.push(peer@)));
        }
        i = i + 1;
    }
    assert(online.take(i as int) =~= online);
    push_task(&mut out, StepTask::Finish);
    assert(tasks(out@) =~= step_order(plan.due@.len(), newcomers, online));
    out
}

proof fn lemma_filter_keeps_distinct(s: Seq<Seq<char>>, keep: spec_fn(Seq<char>) -> bool)
    requires
        s.no_duplicates(),
    ensures
        s.filter(keep).no_duplicates(),
    decreases s.len(),
{
    reveal(Seq::filter);
    if s.len() > 0 {
        let t = s.drop_last();
        lemma_filter_keeps_distinct(t, keep);
        let f = t.filter(keep);
        assert forall|i: int| 0 <= i < f.len() implies #[trigger] f[i] != s.last() by {
            t.lemma_filter_contains_rev(keep, f[i]);
            let k = t.index_of(f[i]);
            assert(s[k] == f[i]);
        }
    }
}

/// Everybody who is online, and nobody else, fetches their inbox in a step, and only once.
pub proof fn law_everybody_polls_once(due: nat, newcomers: Seq<Seq<char>>, online: Seq<Seq<char>>)
    requires
        online.no_duplicates(),
        newcomers.no_duplicates(),
        forall|p: Seq<char>| #[trigger] newcomers.contains(p) ==> online.contains(p),
    ensures
        forall|p: Seq<char>| #[trigger]
            step_order(due, newcomers, online).contains(TaskView::Poll(p)) <==> online.contains(p),
        forall|i: int, j: int|
            0 <= i < j < step_order(due, newcomers, online).len() && (#[trigger] step_order(
                due,
                newcomers,
                online,
            )[i]) is Poll ==> step_order(due, newcomers, online)[i] != #[trigger] step_order(
                due,
                newcomers,
                online,
            )[j],
{
    let all = step_order(due, newcomers, online);
    let others = regulars(online, newcomers);
    let keep = |p: Seq<char>| !newcomers.contains(p);
    let n = newcomers.len() as int;
    let first = due as int + 1;
    let second = first + 2 * n + 1;
    assert(all.len() == second + others.len() + 1);
    assert forall|i: int| 0 <= i < n implies #[trigger] all[first + i] == TaskView::Poll(
        newcomers[i],
    ) by {}
    assert forall|i: int| 0 <= i < others.len() implies #[trigger] all[second + i]
        == TaskView::Poll(others[i]) by {}
    assert forall|i: int| 0 <= i < all.len() && (#[trigger] all[i]) is Poll implies (first <= i
        < first + n && all[i] == TaskView::Poll(newcomers[i - first])) || (second <= i < second
        + others.len() && all[i] == TaskView::Poll(others[i - second])) by {}
    lemma_filter_keeps_distinct(online, keep);
    assert forall|p: Seq<char>| #[trigger] all.contains(TaskView::Poll(p)) <==> online.contains(
        p,
    ) by {
        if online.contains(p) {
            if newcomers.contains(p) {
                let i = newcomers.index_of(p);
                assert(all[first + i] == TaskView::Poll(p));
            } else {
                let k = online.index_of(p);
                online.lemma_filter_contains(keep, k);
                let i = others.index_of(p);
                assert(all[second + i] == TaskView::Poll(p));
            }
        }
        if all.contains(TaskView::Poll(p)) {
            let i = choose|i: int| 0 <= i < all.len() && all[i] == TaskView::Poll(p);
            if first <= i < first + n {
                assert(newcomers[i - first] == p);
                assert(newcomers.contains(p));
            } else {
                assert(others[i - second] == p);
                online.lemma_filter_contains_rev(keep, p);
            }
        }
    }
    assert forall|i: int, j: int|
        0 <= i < j < all.len() && (#[trigger] all[i]) is Poll implies all[i]
        != #[trigger] all[j] by {
        if all[i] == all[j] {
            if i < first + n && j >= second {
                let k = j - second;
                online.lemma_filter_pred(keep, k);
                assert(newcomers.contains(newcomers[i - first]));
            }
        }
    }
}

// ---------------------------------------------------------------------------
// Reports
// ---------------------------------------------------------------------------

/// What has happened since the last report of a run that goes from event to event.
pub struct Interval {
    pub sent_messages: usize,
    pub received_messages: usize,
    pub rolling_latency: RollingLatencyTracker,
    pub last_report: u64,
}

impl Interval {
    pub fn new(window: usize) -> (r: Self)
        ensures
            r.sent_messages == 0,
            r.received_messages == 0,
            r.rolling_latency@ == Seq::<usize>::empty(),
            r.rolling_latency.size() == window,
            r.last_report == 0,
    {
        Interval {
            sent_messages: 0,
            received_messages: 0,
            rolling_latency: RollingLatencyTracker::new(window),
            last_report: 0,
        }
    }

    /// Takes note of an event that is about to be processed: messages that are sent, and those
    /// that are delivered with the time they have been under way.
    pub fn note(&mut self, event: &Event, now: u64)
        ensures
            final(self).last_report == old(self).last_report,
            match event {
                Event::MessageSend { .. } => {
                    &&& final(self).sent_messages == sat_add(old(self).sent_messages, 1)
                    &&& final(self).received_messages == old(self).received_messages
                    &&& final(self).rolling_latency == old(self).rolling_latency
                },
                Event::MessageDeliver { send_time, .. } => {
                    &&& final(self).sent_messages == old(self).sent_messages
                    &&& final(self).received_messages == sat_add(old(self).received_messages, 1)
                    &&& final(self).rolling_latency.size() == old(self).rolling_latency.size()
                    &&& final(self).rolling_latency@ == rolled(
                        old(self).rolling_latency@,
                        old(self).rolling_latency.size(),
                        if now >= *send_time {
                            step_at((now - *send_time) as u64)
                        } else {
                            0
                        },
                    )
                },
                _ => *final(self) == *old(self),
            },
    {
        match event {
            Event::MessageSend { .. } => {
                self.sent_messages = self.sent_messages.saturating_add(1);
            },
            Event::MessageDeliver { send_time, .. } => {
                self.received_messages = self.received_messages.saturating_add(1);
                self.rolling_latency.record(latency_steps(now, *send_time));
            },
            _ => {},
        }
    }

    /// Whether a report is due: a simulated second has gone by since the last.
    pub fn is_due(&self, now: u64) -> (r: bool)
        ensures
            r == (now - self.last_report >= SIMULATED_SECOND),
    {
        now >= self.last_report && now - self.last_report >= SIMULATED_SECOND
    }

    /// Starts counting afresh after a report.
    pub fn restart(&mut self, now: u64)
        ensures
            final(self).sent_messages == 0,
            final(self).received_messages == 0,
            final(self).rolling_latency == old(self).rolling_latency,
            final(self).last_report == now,
    {
        self.sent_messages = 0;
        self.received_messages = 0;
        self.last_report = now;
    }
}

} // verus!
