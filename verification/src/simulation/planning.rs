//! What a simulation works out from what was drawn: who writes when, and who comes and goes when.
use vstd::prelude::*;

use rand_chacha::ChaCha8Rng;

use crate::keyed::KeyedMap;
use crate::simulation::client::Names;
use crate::simulation::config::MessageEncryption;
use crate::simulation::config::MessageType;
use crate::simulation::event::ScheduledEvent;
use crate::simulation::groups::groups_of;
use crate::simulation::groups::ids_of_groups;
use crate::simulation::groups::SimGroup;
use crate::simulation::scenario::build_planned_message;
use crate::simulation::scenario::can_write;
use crate::simulation::scenario::cohort_plan;
use crate::simulation::scenario::generate_online_schedule_events;
use crate::simulation::scenario::is_transition;
use crate::simulation::scenario::is_written;
use crate::simulation::scenario::CohortDraws;
use crate::simulation::scenario::MessagePlan;
use crate::simulation::scenario::PlanView;
use crate::simulation::scenario::Transition;
use crate::simulation::scenario::SAMPLE_INTERVAL;
use crate::sorting::is_sorted_form;
use crate::text::copy_all;
use crate::text::decimal;
use crate::text::lemma_decimal_injective;
use crate::text::texts;

verus! {

// ---------------------------------------------------------------------------
// Messages
// ---------------------------------------------------------------------------

/// A message that was drawn: when it is sent, as a step or as a time, and its type.
#[derive(Clone, Copy, Debug, PartialEq, Eq, Structural)]
pub struct Slot {
    pub at: u64,
    pub message_type: MessageType,
}

/// The messages that were drawn for a node.
pub struct NodeSlots {
    pub node_id: String,
    pub slots: Vec<Slot>,
}

/// A message that is to be written, and when it is sent.
pub struct PlannedMessage {
    pub at: u64,
    pub sender: String,
    pub plan: MessagePlan,
}

/// A message that can be written.
pub struct Due {
    pub sender: Seq<char>,
    pub friends: Seq<Seq<char>>,
    pub groups: Seq<Seq<char>>,
    pub slot: Slot,
}

/// Those of a sender's messages that can be written.
pub open spec fn due(
    sender: Seq<char>,
    friends: Seq<Seq<char>>,
    groups: Seq<Seq<char>>,
    slots: Seq<Slot>,
) -> Seq<Due>
    decreases slots.len(),
{
    if slots.len() == 0 {
        Seq::empty()
    } else {
        let before = due(sender, friends, groups, slots.drop_last());
        if can_write(slots.last().message_type, friends.len(), groups.len()) {
            before.push(Due { sender, friends, groups, slot: slots.last() })
        } else {
            before
        }
    }
}

/// The friends of a node.
pub open spec fn friends_in(graph: Map<Seq<char>, Seq<Seq<char>>>, node: Seq<char>) -> Seq<Seq<char>> {
    if graph.contains_key(node) {
        graph[node]
    } else {
        Seq::empty()
    }
}

/// Those of all nodes' messages that can be written, node by node.
pub open spec fn all_due(
    nodes: Seq<NodeSlots>,
    graph: Map<Seq<char>, Seq<Seq<char>>>,
    groups: Seq<SimGroup>,
) -> Seq<Due>
    decreases nodes.len(),
{
    if nodes.len() == 0 {
        Seq::empty()
    } else {
        let node = nodes.last();
        all_due(nodes.drop_last(), graph, groups) + due(
            node.node_id@,
            friends_in(graph, node.node_id@),
            ids_of_groups(groups, node.node_id@),
            node.slots@,
        )
    }
}

/// How many messages were drawn for the first `n` nodes.
pub open spec fn slot_count(nodes: Seq<NodeSlots>) -> nat
    decreases nodes.len(),
{
    if nodes.len() == 0 {
        0
    } else {
        slot_count(nodes.drop_last()) + nodes.last().slots@.len()
    }
}

/// Whether a message is the one with a given number among those that can be written.
pub open spec fn is_planned(m: PlannedMessage, d: Due, encryption: MessageEncryption, n: nat) -> bool {
    &&& m.at == d.slot.at
    &&& m.sender@ == d.sender
    &&& is_written(m.plan@, d.sender, d.friends, d.groups, d.slot.message_type, encryption, n)
}

proof fn lemma_due_len(
    sender: Seq<char>,
    friends: Seq<Seq<char>>,
    groups: Seq<Seq<char>>,
    slots: Seq<Slot>,
)
    ensures
        due(sender, friends, groups, slots).len() <= slots.len(),
    decreases slots.len(),
{
    if slots.len() > 0 {
        lemma_due_len(sender, friends, groups, slots.drop_last());
    }
}

proof fn lemma_slot_count_take(nodes: Seq<NodeSlots>, n: int)
    requires
        0 <= n <= nodes.len(),
    ensures
        slot_count(nodes.take(n)) <= slot_count(nodes),
    decreases nodes.len(),
{
    if n < nodes.len() {
        lemma_slot_count_take(nodes.drop_last(), n);
        assert(nodes.drop_last().take(n) =~= nodes.take(n));
    } else {
        assert(nodes.take(n) =~= nodes);
    }
}

/// Plans the messages that were drawn for a sender; those that cannot be written are left out.
/// The counter numbers the others.
pub fn generate_message_events(
    sender_id: &str,
    friends: &Vec<String>,
    groups: &Vec<String>,
    slots: &Vec<Slot>,
    encryption: MessageEncryption,
    counter: &mut usize,
    rng: &mut ChaCha8Rng,
) -> (r: Vec<PlannedMessage>)
    requires
        *old(counter) + slots@.len() <= usize::MAX,
    ensures
        ({
            let d = due(sender_id@, texts(friends@), texts(groups@), slots@);
            &&& r@.len() == d.len()
            &&& *final(counter) == *old(counter) + d.len()
            &&& forall|i: int|
                0 <= i < r@.len() ==> is_planned(
                    #[trigger] r@[i],
                    d[i],
                    encryption,
                    (*old(counter) + i) as nat,
                )
        }),
{
    let ghost start = *counter;
    let ghost fs = texts(friends@);
    let ghost gs = texts(groups@);
    let mut out: Vec<PlannedMessage> = Vec::new();
    let mut i: usize = 0;
    proof {
        assert(slots@.take(0) =~= Seq::empty());
    }
    while i < slots.len()
        invariant
            i <= slots@.len(),
            start + slots@.len() <= usize::MAX,
            fs == texts(friends@),
            gs == texts(groups@),
            out@.len() <= i,
            *counter == start + out@.len(),
            out@.len() == due(sender_id@, fs, gs, slots@.take(i as int)).len(),
            forall|k: int|
                0 <= k < out@.len() ==> is_planned(
                    #[trigger] out@[k],
                    due(sender_id@, fs, gs, slots@.take(i as int))[k],
                    encryption,
                    (start + k) as nat,
                ),
        decreases slots@.len() - i,
    {
        let slot: Slot = slots[i];
        let ghost before = due(sender_id@, fs, gs, slots@.take(i as int));
        proof {
            assert(slots@.take(i + 1).drop_last() =~= slots@.take(i as int));
            assert(slots@.take(i + 1).last() == slot);
        }
        let planned = build_planned_message(
            sender_id,
            friends,
            groups,
            slot.message_type,
            encryption,
            counter,
            rng,
        );
        match planned {
            Some(plan) => {
                let ghost l = out@;
                out.push(PlannedMessage { at: slot.at, sender: sender_id.to_owned(), plan });
                proof {
                    let after = due(sender_id@, fs, gs, slots@.take(i + 1));
                    assert forall|k: int| 0 <= k < out@.len() implies is_planned(
                        #[trigger] out@[k],
                        after[k],
                        encryption,
                        (start + k) as nat,
                    ) by {
                        if k < l.len() {
                            assert(out@[k] == l[k]);
                            assert(after[k] == before[k]);
                        }
                    }
                }
            },
            None => {},
        }
        i = i + 1;
    }
    proof {
        assert(slots@.take(i as int) =~= slots@);
    }
    out
}

/// Plans the messages that were drawn for all nodes, numbered from zero.
pub fn build_planned_sends(
    nodes: &Vec<NodeSlots>,
    graph: &KeyedMap<String, Names>,
    groups: &Vec<SimGroup>,
    encryption: MessageEncryption,
    rng: &mut ChaCha8Rng,
) -> (r: Vec<PlannedMessage>)
    requires
        graph.wf(),
        slot_count(nodes@) <= usize::MAX,
    ensures
        r@.len() == all_due(nodes@, graph@, groups@).len(),
        forall|i: int|
            0 <= i < r@.len() ==> is_planned(
                #[trigger] r@[i],
                all_due(nodes@, graph@, groups@)[i],
                encryption,
                i as nat,
            ),
{
    let mut out: Vec<PlannedMessage> = Vec::new();
    let mut counter: usize = 0;
    let mut i: usize = 0;
    proof {
        assert(nodes@.take(0) =~= Seq::empty());
    }
    while i < nodes.len()
        invariant
            i <= nodes@.len(),
            graph.wf(),
            slot_count(nodes@) <= usize::MAX,
            counter == out@.len(),
            counter <= slot_count(nodes@.take(i as int)),
            out@.len() == all_due(nodes@.take(i as int), graph@, groups@).len(),
            forall|k: int|
                0 <= k < out@.len() ==> is_planned(
                    #[trigger] out@[k],
                    all_due(nodes@.take(i as int), graph@, groups@)[k],
                    encryption,
                    k as nat,
                ),
        decreases nodes@.len() - i,
    {
        let node = &nodes[i];
        let ghost before = all_due(nodes@.take(i as int), graph@, groups@);
        let friends: Vec<String> = match graph.get(&node.node_id) {
            Some(names) => copy_all(&names.list),
            None => Vec::new(),
        };
        let mine = groups_of(groups, node.node_id.as_str());
        let ghost d = due(node.node_id@, texts(friends@), texts(mine@), node.slots@);
        proof {
            assert(nodes@.take(i + 1).drop_last() =~= nodes@.take(i as int));
            assert(nodes@.take(i + 1).last() == *node);
            assert(texts(friends@) =~= friends_in(graph@, node.node_id@));
            lemma_slot_count_take(nodes@, i + 1);
            lemma_due_len(node.node_id@, texts(friends@), texts(mine@), node.slots@);
        }
        let mut more = generate_message_events(
            node.node_id.as_str(),
            &friends,
            &mine,
            &node.slots,
            encryption,
            &mut counter,
            rng,
        );
        let ghost l = out@;
        let ghost m = more@;
        out.append(&mut more);
        proof {
            let after = all_due(nodes@.take(i + 1), graph@, groups@);
            assert(after == before + d);
            assert forall|k: int| 0 <= k < out@.len() implies is_planned(
                #[trigger] out@[k],
                after[k],
                encryption,
                k as nat,
            ) by {
                if k < l.len() {
                    assert(out@[k] == l[k]);
                } else {
                    assert(out@[k] == m[k - l.len()]);
                }
            }
        }
        i = i + 1;
    }
    proof {
        assert(nodes@.take(i as int) =~= nodes@);
    }
    out
}

/// Whether a text ends in `-` and a number.
spec fn ends_in(s: Seq<char>, n: nat) -> bool {
    exists|head: Seq<char>| s == #[trigger] (head + "-"@ + decimal(n))
}

proof fn lemma_no_dash(n: nat)
    ensures
        forall|i: int| 0 <= i < decimal(n).len() ==> #[trigger] decimal(n)[i] != '-',
    decreases n,
{
    if n >= 10 {
        lemma_no_dash(n / 10);
        assert forall|i: int| 0 <= i < decimal(n).len() implies #[trigger] decimal(n)[i]
            != '-' by {
            if i < decimal(n / 10).len() {
                assert(decimal(n)[i] == decimal(n / 10)[i]);
            }
        }
    }
}

proof fn lemma_ends_apart(s: Seq<char>, m: nat, n: nat)
    requires
        ends_in(s, m),
        ends_in(s, n),
    ensures
        m == n,
{
    reveal_strlit("-");
    let h = choose|h: Seq<char>| s == #[trigger] (h + "-"@ + decimal(m));
    let k = choose|k: Seq<char>| s == #[trigger] (k + "-"@ + decimal(n));
    lemma_no_dash(m);
    lemma_no_dash(n);
    assert(s.len() == h.len() + 1 + decimal(m).len());
    assert(s.len() == k.len() + 1 + decimal(n).len());
    assert(s[h.len() as int] == '-');
    assert(s[k.len() as int] == '-');
    if h.len() < k.len() {
        assert(s[k.len() as int] == decimal(m)[k.len() - h.len() - 1]);
    } else if k.len() < h.len() {
        assert(s[h.len() as int] == decimal(n)[h.len() - k.len() - 1]);
    }
    assert(s.skip(h.len() as int + 1) =~= decimal(m));
    assert(s.skip(h.len() as int + 1) =~= decimal(n));
    if m != n {
        lemma_decimal_injective(m, n);
    }
}

proof fn lemma_salt_ends(plan: PlanView, d: Due, encryption: MessageEncryption, n: nat)
    requires
        is_written(plan, d.sender, d.friends, d.groups, d.slot.message_type, encryption, n),
        plan.salt is Some,
    ensures
        ends_in(plan.salt->0, n),
{
    let s = plan.salt->0;
    if plan.group is Some {
        let g = plan.group->0;
        assert(s == (d.sender + "-"@ + g) + "-"@ + decimal(n));
    } else {
        assert(s == d.sender + "-"@ + decimal(n));
    }
}

/// No two planned messages that travel in the clear have the same salt.
pub proof fn law_salts_differ(
    a: PlannedMessage,
    b: PlannedMessage,
    da: Due,
    db: Due,
    encryption: MessageEncryption,
    m: nat,
    n: nat,
)
    requires
        m != n,
        is_planned(a, da, encryption, m),
        is_planned(b, db, encryption, n),
        a.plan@.salt is Some,
    ensures
        a.plan@.salt != b.plan@.salt,
{
    lemma_salt_ends(a.plan@, da, encryption, m);
    if b.plan@.salt is Some {
        lemma_salt_ends(b.plan@, db, encryption, n);
        if a.plan@.salt == b.plan@.salt {
            lemma_ends_apart(a.plan@.salt->0, m, n);
        }
    }
}

// ---------------------------------------------------------------------------
// Schedules
// ---------------------------------------------------------------------------

/// A schedule in which every step depends on the one before. For every step `draws` says whether
/// the node is online in the next one: if it is now, and if it is not.
pub fn markov_schedule(start: bool, draws: &Vec<(bool, bool)>) -> (r: Vec<bool>)
    ensures
        r@.len() == draws@.len(),
        r@.len() > 0 ==> r@[0] == start,
        forall|i: int|
            0 <= i < r@.len() - 1 ==> r@[i + 1] == (if #[trigger] r@[i] {
                draws@[i].0
            } else {
                draws@[i].1
            }),
{
    let mut out: Vec<bool> = Vec::new();
    let mut online = start;
    let mut i: usize = 0;
    while i < draws.len()
        invariant
            i <= draws@.len(),
            out@.len() == i,
            i == 0 ==> online == start,
            i > 0 ==> out@[0] == start,
            i > 0 ==> online == (if out@[i - 1] {
                draws@[i - 1].0
            } else {
                draws@[i - 1].1
            }),
            forall|k: int|
                0 <= k < i - 1 ==> out@[k + 1] == (if #[trigger] out@[k] {
                    draws@[k].0
                } else {
                    draws@[k].1
                }),
        decreases draws@.len() - i,
    {
        let ghost before = out@;
        out.push(online);
        proof {
            assert forall|k: int| 0 <= k < i implies out@[k + 1] == (if #[trigger] out@[k] {
                draws@[k].0
            } else {
                draws@[k].1
            }) by {
                assert(out@[k] == before[k]);
                if k < i - 1 {
                    assert(out@[k + 1] == before[k + 1]);
                }
            }
        }
        online = if online {
            draws[i].0
        } else {
            draws[i].1
        };
        i = i + 1;
    }
    out
}

/// What was drawn for a node: its cohort, unless there are none, and when it comes and goes.
pub struct NodeDraws {
    pub node_id: String,
    pub cohort: Option<String>,
    pub draws: CohortDraws,
}

/// The cohort of a node; without cohorts everybody is in the same.
pub open spec fn cohort_of(node: NodeDraws) -> Seq<char> {
    match node.cohort {
        Some(name) => name@,
        None => "legacy"@,
    }
}

/// When a node comes and goes, in the order in which it is worked out; without cohorts everybody
/// is always online.
pub open spec fn node_plan(node: NodeDraws, start: u64, end: u64) -> Seq<Transition> {
    match node.cohort {
        Some(_) => cohort_plan(node.draws, start, end),
        None => seq![Transition { time: start, going_online: true }],
    }
}

/// Whether events let a node come and go as planned, in the order of their times.
pub open spec fn follows_plan(
    events: Seq<ScheduledEvent>,
    node: Seq<char>,
    plan: Seq<Transition>,
) -> bool {
    exists|s: Seq<Transition>| #[trigger]
        is_sorted_form(s, plan) && events.len() == s.len() && forall|i: int|
            0 <= i < events.len() ==> is_transition(#[trigger] events[i], node, s[i])
}

/// Which node is in which cohort.
pub open spec fn cohorts_of(nodes: Seq<NodeDraws>) -> Map<Seq<char>, Seq<char>>
    decreases nodes.len(),
{
    if nodes.len() == 0 {
        Map::empty()
    } else {
        cohorts_of(nodes.drop_last()).insert(nodes.last().node_id@, cohort_of(nodes.last()))
    }
}

/// Whether the first `n` nodes come and go as planned, one after another: `ends[i]` events belong
/// to those before node `i`.
pub open spec fn all_follow(
    events: Seq<ScheduledEvent>,
    ends: Seq<int>,
    nodes: Seq<NodeDraws>,
    start: u64,
    end: u64,
) -> bool {
    &&& ends.len() == nodes.len() + 1
    &&& ends[0] == 0
    &&& ends.last() == events.len()
    &&& forall|i: int|
        0 <= i < nodes.len() ==> 0 <= #[trigger] ends[i] <= ends[i + 1] <= events.len()
            && follows_plan(
            events.subrange(ends[i], ends[i + 1]),
            nodes[i].node_id@,
            node_plan(nodes[i], start, end),
        )
}

/// When all nodes come and go, node by node, and which node is in which cohort.
pub fn build_online_events(nodes: &Vec<NodeDraws>, start: u64, end: u64) -> (r: (
    Vec<ScheduledEvent>,
    KeyedMap<String, String>,
))
    requires
        forall|i: int|
            0 <= i < nodes@.len() ==> ((#[trigger] nodes@[i]).draws matches CohortDraws::Diurnal {
                states,
            } ==> start + states@.len() * SAMPLE_INTERVAL <= u64::MAX),
    ensures
        r.1.wf(),
        r.1@ == cohorts_of(nodes@),
        exists|ends: Seq<int>| #[trigger] all_follow(r.0@, ends, nodes@, start, end),
{
    let mut events: Vec<ScheduledEvent> = Vec::new();
    let mut cohorts: KeyedMap<String, String> = KeyedMap::new();
    let ghost mut ends: Seq<int> = seq![0int];
    let mut i: usize = 0;
    proof {
        assert(nodes@.take(0) =~= Seq::empty());
    }
    while i < nodes.len()
        invariant
            i <= nodes@.len(),
            forall|i: int|
                0 <= i < nodes@.len() ==> ((#[trigger] nodes@[i]).draws matches CohortDraws::Diurnal {
                    states,
                } ==> start + states@.len() * SAMPLE_INTERVAL <= u64::MAX),
            cohorts.wf(),
            cohorts@ == cohorts_of(nodes@.take(i as int)),
            all_follow(events@, ends, nodes@.take(i as int), start, end),
        decreases nodes@.len() - i,
    {
        let node = &nodes[i];
        let (name, mut more) = match &node.cohort {
            Some(c) => (
                c.clone(),
                generate_online_schedule_events(node.node_id.as_str(), &node.draws, start, end),
            ),
            None => (
                "legacy".to_owned(),
                generate_online_schedule_events(
                    node.node_id.as_str(),
                    &CohortDraws::AlwaysOnline,
                    start,
                    end,
                ),
            ),
        };
        let ghost before = events@;
        let ghost added = more@;
        let ghost old_ends = ends;
        events.append(&mut more);
        cohorts.insert(node.node_id.clone(), name);
        proof {
            let these = nodes@.take(i + 1);
            assert(these.drop_last() =~= nodes@.take(i as int));
            assert(these.last() == *node);
            assert(cohorts@ == cohorts_of(these));
            ends = ends.push(events@.len() as int);
            assert(follows_plan(added, node.node_id@, node_plan(*node, start, end)));
            assert forall|k: int| 0 <= k < these.len() implies 0 <= #[trigger] ends[k] <= ends[k
                + 1] <= events@.len() && follows_plan(
                events@.subrange(ends[k], ends[k + 1]),
                these[k].node_id@,
                node_plan(these[k], start, end),
            ) by {
                assert(ends[k] == old_ends[k]);
                if k < i {
                    assert(ends[k + 1] == old_ends[k + 1]);
                    assert(these[k] == nodes@.take(i as int)[k]);
                    assert(events@.subrange(ends[k], ends[k + 1]) =~= before.subrange(
                        ends[k],
                        ends[k + 1],
                    ));
                } else {
                    assert(events@.subrange(ends[k], ends[k + 1]) =~= added);
                }
            }
        }
        i = i + 1;
    }
    proof {
        assert(nodes@.take(i as int) =~= nodes@);
    }
    let all = (events, cohorts);
    assert(all_follow(all.0@, ends, nodes@, start, end));
    all
}

} // verus!
