//! What the totals of a run that goes step by step add up to.
use vstd::prelude::*;

use crate::simulation::client::handled;
use crate::simulation::client::last_seen_of;
use crate::simulation::client::ClientView;
use crate::simulation::client::ContextView;
use crate::simulation::client::IncomingEnvelopeAction;
use crate::simulation::client::PendingView;
use crate::simulation::client::Sim;
use crate::simulation::client::StoredForPeerMessage;
use crate::simulation::harness::is_due;
use crate::simulation::message::HistoricalMessage;
use crate::simulation::message::PlannedSend;
use crate::simulation::message::SimMessage;
use crate::simulation::metrics::sat_add;
use crate::simulation::routing::forwarded_all;
use crate::simulation::routing::history_of;
use crate::simulation::routing::missed_all;
use crate::simulation::routing::processed;
use crate::simulation::routing::sent_since;
use crate::simulation::routing::wanted;
use crate::simulation::routing::PreparedSend;
use crate::simulation::steps::forwarded_by_all;
use crate::simulation::steps::routed;
use crate::simulation::steps::World;
use crate::simulation::tracker::TrackerView;

verus! {

/// The clients of a run at one of its steps.
pub type Clients = Map<Seq<char>, ClientView>;

/// How many messages of a plan are sent at a step.
pub open spec fn sent_at(plan: Seq<PlannedSend>, clients: Clients, step: usize) -> nat {
    plan.filter(is_due(clients, step)).len()
}

/// How many messages are sent in all, where `at` holds the clients at each step from the first on.
pub open spec fn sent_in_all(plan: Seq<PlannedSend>, at: Seq<Clients>) -> nat
    decreases at.len(),
{
    if at.len() == 0 {
        0
    } else {
        sent_in_all(plan, at.drop_last()) + sent_at(plan, at.last(), (at.len() - 1) as usize)
    }
}

/// The total that a run arrives at when it adds up, step by step, what each step has sent.
pub open spec fn total_sent(plan: Seq<PlannedSend>, at: Seq<Clients>) -> usize
    decreases at.len(),
{
    if at.len() == 0 {
        0
    } else {
        sat_add(
            total_sent(plan, at.drop_last()),
            sent_at(plan, at.last(), (at.len() - 1) as usize) as int,
        )
    }
}

/// How often one message of a plan is sent.
spec fn times_sent(p: PlannedSend, at: Seq<Clients>) -> nat
    decreases at.len(),
{
    if at.len() == 0 {
        0
    } else {
        times_sent(p, at.drop_last()) + if is_due(at.last(), (at.len() - 1) as usize)(p) {
            1nat
        } else {
            0nat
        }
    }
}

proof fn lemma_sent_once(p: PlannedSend, at: Seq<Clients>)
    requires
        at.len() <= usize::MAX,
    ensures
        times_sent(p, at) <= 1,
        p.step >= at.len() ==> times_sent(p, at) == 0,
    decreases at.len(),
{
    if at.len() > 0 {
        lemma_sent_once(p, at.drop_last());
    }
}

proof fn lemma_one_more(plan: Seq<PlannedSend>, p: PlannedSend, at: Seq<Clients>)
    ensures
        sent_in_all(plan.push(p), at) == sent_in_all(plan, at) + times_sent(p, at),
    decreases at.len(),
{
    if at.len() > 0 {
        lemma_one_more(plan, p, at.drop_last());
        reveal(Seq::filter);
        assert(plan.push(p).drop_last() =~= plan);
    }
}

proof fn lemma_none(at: Seq<Clients>)
    ensures
        sent_in_all(Seq::empty(), at) == 0,
    decreases at.len(),
{
    if at.len() > 0 {
        lemma_none(at.drop_last());
        reveal(Seq::filter);
    }
}

proof fn lemma_at_most_planned(plan: Seq<PlannedSend>, at: Seq<Clients>)
    requires
        at.len() <= usize::MAX,
    ensures
        sent_in_all(plan, at) <= plan.len(),
    decreases plan.len(),
{
    if plan.len() == 0 {
        assert(plan =~= Seq::empty());
        lemma_none(at);
    } else {
        let rest = plan.drop_last();
        lemma_at_most_planned(rest, at);
        lemma_one_more(rest, plan.last(), at);
        lemma_sent_once(plan.last(), at);
        assert(rest.push(plan.last()) =~= plan);
    }
}

/// The messages that are reported as sent step by step add up to the total, which is at most the
/// number of messages planned; each is sent at most once, whoever comes or goes between steps.
pub proof fn law_sends_add_up(plan: Seq<PlannedSend>, at: Seq<Clients>)
    requires
        plan.len() <= usize::MAX,
        at.len() <= usize::MAX,
    ensures
        total_sent(plan, at) == sent_in_all(plan, at),
        total_sent(plan, at) <= plan.len(),
    decreases at.len(),
{
    lemma_at_most_planned(plan, at);
    if at.len() > 0 {
        law_sends_add_up(plan, at.drop_last());
    }
}

// ---------------------------------------------------------------------------
// What does not count
// ---------------------------------------------------------------------------

/// Whether the numbers of messages planned and sent are the same.
pub open spec fn same_sends(a: ContextView, b: ContextView) -> bool {
    a.metrics.planned_messages == b.metrics.planned_messages && a.metrics.sent_messages
        == b.metrics.sent_messages
}

/// Routing a message does not itself add to the messages sent: that is done once a step is over.
pub proof fn law_routing_leaves_sends(w: World, step: usize, m: SimMessage, p: PreparedSend)
    ensures
        same_sends(routed(w, step, m, p).0.ctx, w.ctx),
{
}

/// Handling an inbox does not add to the messages sent.
pub proof fn law_inbox_leaves_sends(
    s: Sim,
    step: usize,
    actions: Seq<Option<IncomingEnvelopeAction>>,
)
    ensures
        same_sends(handled(s, step, actions).ctx, s.ctx),
    decreases actions.len(),
{
    if actions.len() > 0 {
        law_inbox_leaves_sends(s, step, actions.drop_last());
    }
}

proof fn lemma_forwarded_all(c: ContextView, me: Seq<char>, es: Seq<StoredForPeerMessage>)
    ensures
        same_sends(forwarded_all(c, me, es), c),
    decreases es.len(),
{
    if es.len() > 0 {
        lemma_forwarded_all(c, me, es.drop_last());
    }
}

/// Forwarding does not add to the messages sent.
pub proof fn law_forwarding_leaves_sends(
    w: World,
    who: Seq<Seq<char>>,
    online: Map<Seq<char>, bool>,
)
    ensures
        same_sends(forwarded_by_all(w, who, online).0.ctx, w.ctx),
    decreases who.len(),
{
    if who.len() > 0 {
        law_forwarding_leaves_sends(w, who.drop_last(), online);
        let w1 = forwarded_by_all(w, who.drop_last(), online).0;
        let c = w1.clients[who.last()];
        lemma_forwarded_all(w1.ctx, c.id, c.stored.filter(wanted(online)));
    }
}

proof fn lemma_missed_all(
    s: Sim,
    step: usize,
    hs: Seq<HistoricalMessage>,
    read: Map<Seq<char>, SimMessage>,
)
    ensures
        same_sends(missed_all(s, step, hs, read).0.ctx, s.ctx),
    decreases hs.len(),
{
    if hs.len() > 0 {
        lemma_missed_all(s, step, hs.drop_last(), read);
    }
}

/// Answering announcements does not add to the messages sent.
pub proof fn law_answering_leaves_sends(
    s: Sim,
    ps: Seq<PendingView>,
    step: usize,
    online: Map<Seq<char>, bool>,
    read: Map<Seq<char>, SimMessage>,
)
    ensures
        same_sends(processed(s, ps, step, online, read).sim.ctx, s.ctx),
    decreases ps.len(),
{
    if ps.len() > 0 {
        law_answering_leaves_sends(s, ps.drop_last(), step, online, read);
        let r = processed(s, ps.drop_last(), step, online, read);
        let p = ps.last();
        let t = r.sim.ctx.tracker;
        let acked = Sim {
            ctx: ContextView {
                tracker: TrackerView {
                    acks_received: sat_add(t.acks_received, 1),
                    ..t
                },
                ..r.sim.ctx
            },
            ..r.sim
        };
        let asked = Sim {
            ctx: ContextView {
                tracker: TrackerView {
                    missed_message_requests_sent: sat_add(t.missed_message_requests_sent, 1),
                    ..acked.ctx.tracker
                },
                ..acked.ctx
            },
            ..acked
        };
        let since = last_seen_of(acked.client.last_seen, p.recipient);
        lemma_missed_all(
            asked,
            step,
            history_of(acked.ctx.history, (p.recipient, p.sender)).filter(sent_since(since)),
            read,
        );
    }
}

} // verus!
