//! What holds of the plans of a simulation: who writes what to whom, who comes and goes when, who
//! is friends with whom, and who is in which group.
use vstd::prelude::*;

use crate::keyed::KeyedMap;
use crate::protocol::MessageKind;
use crate::relay::config::RelayConfig;
use crate::simulation::client::Names;
use crate::simulation::config::effective_encryption;
use crate::simulation::config::effective_steps;
use crate::simulation::config::hour_of_day;
use crate::simulation::config::pieces;
use crate::simulation::config::GeoLocation;
use crate::simulation::config::GeoPrecision;
use crate::simulation::config::GeoQuery;
use crate::simulation::config::GroupMembershipsPerNode;
use crate::simulation::config::MessageEncryption;
use crate::simulation::config::MessageType;
use crate::simulation::config::RelayConfigToml;
use crate::simulation::config::SimGeoConfig;
use crate::simulation::event::ScheduledEvent;
use crate::simulation::graph::clusters_of;
use crate::simulation::graph::cut;
use crate::simulation::graph::friends_drawn;
use crate::simulation::graph::home;
use crate::simulation::graph::in_order;
use crate::simulation::graph::may_link_across;
use crate::simulation::graph::pair_names;
use crate::simulation::graph::with_friend;
use crate::simulation::groups::filled_as;
use crate::simulation::groups::founded_as;
use crate::simulation::groups::groups_of;
use crate::simulation::groups::member_lists;
use crate::simulation::groups::memberships;
use crate::simulation::groups::uniform_group_bounds;
use crate::simulation::groups::GroupSettings;
use crate::simulation::groups::SimGroup;
use crate::simulation::planning::cohorts_of;
use crate::simulation::planning::due;
use crate::simulation::planning::friends_in;
use crate::simulation::planning::is_planned;
use crate::simulation::planning::markov_schedule;
use crate::simulation::planning::node_plan;
use crate::simulation::planning::Due;
use crate::simulation::planning::NodeDraws;
use crate::simulation::planning::PlannedMessage;
use crate::simulation::planning::Slot;
use crate::simulation::random::message_body;
use crate::simulation::random::normalize_bounds;
use crate::simulation::scenario::build_friend_request_events;
use crate::simulation::scenario::build_reply_sim_message;
use crate::simulation::scenario::changes;
use crate::simulation::scenario::clamp_step;
use crate::simulation::scenario::cohort_plan;
use crate::simulation::scenario::counted;
use crate::simulation::scenario::direct_links;
use crate::simulation::scenario::generate_online_schedule_events;
use crate::simulation::scenario::is_request;
use crate::simulation::scenario::is_transition;
use crate::simulation::scenario::online_steps;
use crate::simulation::scenario::plan_direct;
use crate::simulation::scenario::requests_in_time;
use crate::simulation::scenario::sample_count;
use crate::simulation::scenario::schedule_weights;
use crate::simulation::scenario::sessions_plan;
use crate::simulation::scenario::state_after;
use crate::simulation::scenario::CohortDraws;
use crate::simulation::scenario::MessagePlan;
use crate::simulation::scenario::ScheduleWeights;
use crate::simulation::scenario::Transition;
use crate::sorting::is_sorted_form;
use crate::sorting::Ranked;
use crate::text::decimal;
use crate::text::text_le;
use crate::text::texts;

verus! {

// ---------------------------------------------------------------------------
// Messages
// ---------------------------------------------------------------------------

/// A direct message goes to the one it is for, and has a salt of its sender and number exactly where
/// it travels in the clear.
pub proof fn law_direct_message_goes_to_its_recipient(
    sender: &str,
    recipient: &str,
    encryption: MessageEncryption,
    counter: usize,
    r: MessagePlan,
)
    requires
        call_ensures(plan_direct, (sender, recipient, encryption, counter), r),
    ensures
        r.recipient@ == recipient@,
        r.message_kind == MessageKind::Direct,
        r.group_id is None,
        r.salt is Some <==> encryption == MessageEncryption::Plaintext,
        r.salt is Some ==> r.salt->0@ == sender@ + "-"@ + decimal(counter as nat),
{
}

/// A reply is of the kind of the message that it answers and goes where that takes it: back to the
/// sender of a direct message, to everybody, or to the group. Nothing else is answered.
pub proof fn law_reply_is_of_the_same_kind(
    replier: &str,
    kind: MessageKind,
    sender: &str,
    group: Option<String>,
    encryption: MessageEncryption,
    counter: usize,
    r: Option<MessagePlan>,
)
    requires
        call_ensures(
            build_reply_sim_message,
            (replier, kind, sender, &group, encryption, counter),
            r,
        ),
    ensures
        r is Some <==> kind == MessageKind::Direct || kind == MessageKind::Public || (kind
            == MessageKind::FriendGroup && group is Some),
        r is Some ==> r->0.message_kind == kind,
        kind == MessageKind::Direct ==> r->0.recipient@ == sender@ && r->0.group_id is None,
        kind == MessageKind::Public ==> r->0.recipient@ == "*"@ && r->0.group_id is None
            && r->0.salt is Some,
        kind == MessageKind::FriendGroup && group is Some ==> r->0.recipient@ == group->0@
            && r->0.group_id is Some && r->0.group_id->0@ == group->0@ && r->0.salt is Some,
        kind == MessageKind::Direct ==> (r->0.salt is Some <==> encryption
            == MessageEncryption::Plaintext),
{
}

/// A message that is planned is sent when it was drawn, by the one for whom it was drawn: to
/// everybody where it is public, to a group of the sender where it is for a group and there is one,
/// and otherwise to a friend of the sender.
pub proof fn law_planned_message_goes_to_friends_or_groups(
    m: PlannedMessage,
    d: Due,
    encryption: MessageEncryption,
    n: nat,
)
    requires
        is_planned(m, d, encryption, n),
    ensures
        m.at == d.slot.at,
        m.sender@ == d.sender,
        d.slot.message_type == MessageType::Public ==> m.plan.recipient@ == "*"@
            && m.plan.message_kind == MessageKind::Public && m.plan.group_id is None,
        d.slot.message_type == MessageType::Group && d.groups.len() > 0 ==> d.groups.contains(
            m.plan.recipient@,
        ) && m.plan.message_kind == MessageKind::FriendGroup && m.plan.group_id is Some
            && m.plan.group_id->0@ == m.plan.recipient@,
        d.slot.message_type == MessageType::Direct || (d.slot.message_type == MessageType::Group
            && d.groups.len() == 0) ==> d.friends.contains(m.plan.recipient@)
            && m.plan.message_kind == MessageKind::Direct && m.plan.group_id is None,
{
}

/// Every message that was drawn for a sender is written, in order, but for those that have nobody
/// to go to: a public one always has, a group message a group or a friend, a direct one a friend.
pub proof fn law_messages_with_somebody_to_go_to_are_written(
    sender: Seq<char>,
    friends: Seq<Seq<char>>,
    groups: Seq<Seq<char>>,
    slots: Seq<Slot>,
)
    ensures
        ({
            let d = due(sender, friends, groups, slots);
            let able = slots.filter(
                |s: Slot|
                    s.message_type == MessageType::Public || friends.len() > 0 || (s.message_type
                        == MessageType::Group && groups.len() > 0),
            );
            &&& d.len() == able.len()
            &&& forall|i: int|
                0 <= i < d.len() ==> (#[trigger] d[i]).slot == able[i] && d[i].sender == sender
                    && d[i].friends == friends && d[i].groups == groups
        }),
    decreases slots.len(),
{
    reveal(Seq::filter);
    if slots.len() > 0 {
        law_messages_with_somebody_to_go_to_are_written(
            sender,
            friends,
            groups,
            slots.drop_last(),
        );
    }
}

/// The friends of a node are those of the graph; a node that is not in it has none.
pub proof fn law_friends_are_those_of_the_graph(
    graph: Map<Seq<char>, Seq<Seq<char>>>,
    node: Seq<char>,
)
    ensures
        graph.contains_key(node) ==> friends_in(graph, node) == graph[node],
        !graph.contains_key(node) ==> friends_in(graph, node).len() == 0,
{
}

/// Weights are taken for the hours of a day where there are 24 of them, and for the steps where
/// there are as many as steps; a step beyond the last is the last.
pub proof fn law_weights_and_steps(
    weights: usize,
    steps: usize,
    step: usize,
    w: ScheduleWeights,
    s: usize,
)
    requires
        call_ensures(schedule_weights, (weights, steps), w),
        call_ensures(clamp_step, (step, steps), s),
    ensures
        w == ScheduleWeights::Hourly <==> weights == 24,
        w == ScheduleWeights::PerStep <==> weights != 24 && weights == steps,
        steps > 0 ==> s < steps,
        step < steps ==> s == step,
        step >= steps > 0 ==> s == steps - 1,
        steps == 0 ==> s == 0,
{
}

// ---------------------------------------------------------------------------
// Coming and going
// ---------------------------------------------------------------------------

/// A client that is sampled every quarter of an hour changes exactly where a sample differs from
/// the one before, or the first from being offline, and at the time of that sample.
pub proof fn law_changes_are_where_samples_differ(states: Seq<bool>, start: u64, i: int)
    requires
        0 <= i < states.len(),
        start + states.len() * 900_000_000_000 <= u64::MAX,
    ensures
        ({
            let before = i > 0 && states[i - 1];
            let t = Transition {
                time: (start + i * 900_000_000_000) as u64,
                going_online: states[i],
            };
            &&& changes(states, start).contains(t) <==> states[i] != before
            &&& forall|k: int|
                0 <= k < changes(states, start).len() ==> (#[trigger] changes(states, start)[k]).time
                    < start + states.len() * 900_000_000_000
        }),
    decreases states.len(),
{
    let rest = states.drop_last();
    let c = changes(states, start);
    let b = changes(rest, start);
    let t = Transition { time: (start + i * 900_000_000_000) as u64, going_online: states[i] };
    lemma_changes_before(rest, start);
    if i < rest.len() {
        law_changes_are_where_samples_differ(rest, start, i);
        assert(rest[i] == states[i]);
        if b.contains(t) {
            let k = choose|k: int| 0 <= k < b.len() && b[k] == t;
            assert(c[k] == t);
        }
        if c.contains(t) {
            let k = choose|k: int| 0 <= k < c.len() && c[k] == t;
            if k < b.len() {
                assert(b[k] == t);
            }
        }
    } else {
        if c.len() > b.len() {
            assert(c.last() == t);
        }
        if c.contains(t) && states[i] == state_after(rest) {
            let k = choose|k: int| 0 <= k < c.len() && c[k] == t;
            assert(b[k].time < start + rest.len() * 900_000_000_000);
        }
    }
    lemma_changes_before(states, start);
}

proof fn lemma_changes_before(states: Seq<bool>, start: u64)
    requires
        start + states.len() * 900_000_000_000 <= u64::MAX,
    ensures
        forall|k: int|
            0 <= k < changes(states, start).len() ==> (#[trigger] changes(states, start)[k]).time
                < start + states.len() * 900_000_000_000,
    decreases states.len(),
{
    if states.len() > 0 {
        lemma_changes_before(states.drop_last(), start);
        let b = changes(states.drop_last(), start);
        let c = changes(states, start);
        assert forall|k: int| 0 <= k < c.len() implies (#[trigger] c[k]).time < start + states.len()
            * 900_000_000_000 by {
            if k < b.len() {
                assert(c[k] == b[k]);
            }
        }
    }
}

/// Every session brings its client online when it starts, and offline when it ends, unless the
/// simulation ends first; nothing else brings it online or offline.
pub proof fn law_sessions_are_kept(sessions: Seq<(u64, u64)>, end: u64)
    ensures
        forall|i: int|
            #![trigger sessions[i]]
            0 <= i < sessions.len() ==> {
                let (start, length) = sessions[i];
                &&& sessions_plan(sessions, end).contains(
                    Transition { time: start, going_online: true },
                )
                &&& start + length < end ==> sessions_plan(sessions, end).contains(
                    Transition { time: (start + length) as u64, going_online: false },
                )
            },
        forall|k: int|
            0 <= k < sessions_plan(sessions, end).len() ==> ended_or_started(
                sessions,
                end,
                #[trigger] sessions_plan(sessions, end)[k],
            ),
    decreases sessions.len(),
{
    let plan = sessions_plan(sessions, end);
    if sessions.len() > 0 {
        let rest = sessions.drop_last();
        let b = sessions_plan(rest, end);
        let n = sessions.len() - 1;
        law_sessions_are_kept(rest, end);
        let (start, length) = sessions[n];
        assert(plan[b.len() as int] == (Transition { time: start, going_online: true }));
        if start + length < end {
            assert(plan[b.len() as int + 1] == (Transition {
                time: (start + length) as u64,
                going_online: false,
            }));
        }
        assert forall|t: Transition| #[trigger] b.contains(t) implies plan.contains(t) by {
            let k = choose|k: int| 0 <= k < b.len() && b[k] == t;
            assert(plan[k] == t);
        }
        assert forall|i: int|
            #![trigger sessions[i]]
            0 <= i < sessions.len() implies {
            let (start, length) = sessions[i];
            &&& plan.contains(Transition { time: start, going_online: true })
            &&& start + length < end ==> plan.contains(
                Transition { time: (start + length) as u64, going_online: false },
            )
        } by {
            if i < n {
                assert(rest[i] == sessions[i]);
            }
        }
        assert forall|k: int| 0 <= k < plan.len() implies ended_or_started(
            sessions,
            end,
            #[trigger] plan[k],
        ) by {
            if k < b.len() {
                assert(b[k] == plan[k]);
                let i = choose|i: int|
                    #![trigger rest[i]]
                    0 <= i < rest.len() && (plan[k] == (Transition {
                        time: rest[i].0,
                        going_online: true,
                    }) || (rest[i].0 + rest[i].1 < end && plan[k] == (Transition {
                        time: (rest[i].0 + rest[i].1) as u64,
                        going_online: false,
                    })));
                assert(rest[i] == sessions[i]);
            } else {
                assert(sessions[n] == (start, length));
            }
        }
    }
}

/// Whether a coming or going is the start of a session or its end.
pub open spec fn ended_or_started(sessions: Seq<(u64, u64)>, end: u64, t: Transition) -> bool {
    exists|i: int|
        #![trigger sessions[i]]
        0 <= i < sessions.len() && (t == (Transition { time: sessions[i].0, going_online: true })
            || (sessions[i].0 + sessions[i].1 < end && t == (Transition {
            time: (sessions[i].0 + sessions[i].1) as u64,
            going_online: false,
        })))
}

/// The events by which a client comes and goes are its own, and in the order of their times. One
/// that is always online comes once, at the start; one that is sampled and still online goes a
/// second before the end.
pub proof fn law_comings_and_goings_are_in_order(
    client: &str,
    draws: CohortDraws,
    start: u64,
    end: u64,
    r: Vec<ScheduledEvent>,
    i: int,
    j: int,
)
    requires
        call_ensures(generate_online_schedule_events, (client, &draws, start, end), r),
        0 <= i <= j < r@.len(),
    ensures
        r@[i].time <= r@[j].time,
        r@[i].event is OnlineTransition,
        r@[i].event->OnlineTransition_client_id@ == client@,
        draws is AlwaysOnline ==> r@.len() == 1 && r@[0].time == start
            && r@[0].event->going_online,
{
    let s = choose|s: Seq<Transition>| #[trigger]
        is_sorted_form(s, cohort_plan(draws, start, end)) && r@.len() == s.len() && forall|i: int|
            0 <= i < r@.len() ==> is_transition(#[trigger] r@[i], client@, s[i]);
    assert(is_transition(r@[i], client@, s[i]));
    assert(is_transition(r@[j], client@, s[j]));
    if i < j {
        assert(s[i].ranks(&s[j]));
    }
    let plan = cohort_plan(draws, start, end);
    let from = choose|from: Seq<int>| #[trigger]
        crate::sorting::arranged(s, plan, from) && crate::sorting::in_turn(s, from);
    if draws is AlwaysOnline {
        assert(plan.len() == 1);
        assert(s[0] == plan[from[0]]);
        assert(is_transition(r@[0], client@, s[0]));
    }
}

/// Whoever is sampled and online at the end goes a second before it.
pub proof fn law_sampled_clients_go_before_the_end(states: Vec<bool>, start: u64, end: u64)
    requires
        states@.len() > 0,
        start < end,
        end >= 1_000_000_000,
    ensures
        ({
            let p = cohort_plan(CohortDraws::Diurnal { states }, start, end);
            let c = changes(states@, start);
            &&& states@.last() ==> p == c.push(
                Transition { time: (end - 1_000_000_000) as u64, going_online: false },
            )
            &&& !states@.last() ==> p == c
        }),
{
}

/// A simulation is sampled often enough: once for every quarter of an hour that it takes, begun or
/// whole.
pub proof fn law_samples_cover_the_time(start: u64, end: u64, r: u64)
    requires
        call_ensures(sample_count, (start, end), r),
        start <= end,
    ensures
        r * 900_000_000_000 >= end - start,
        start < end ==> (r - 1) * 900_000_000_000 < end - start,
{
}

/// A schedule in which every step depends on the one before begins as it is to begin, and goes on as
/// was drawn for being online or for being offline.
pub proof fn law_schedule_follows_its_draws(
    start: bool,
    draws: Vec<(bool, bool)>,
    r: Vec<bool>,
    i: int,
)
    requires
        call_ensures(markov_schedule, (start, &draws), r),
        0 <= i < draws@.len(),
    ensures
        r@.len() == draws@.len(),
        r@[0] == start,
        i + 1 < draws@.len() && r@[i] ==> r@[i + 1] == draws@[i].0,
        i + 1 < draws@.len() && !r@[i] ==> r@[i + 1] == draws@[i].1,
{
    let now = r@[i];
    assert(now == r@[i]);
}

/// A node comes and goes as its cohort does; without cohorts it is always online. Of several
/// entries for one node the last says in which cohort it is.
pub proof fn law_nodes_follow_their_cohort(
    nodes: Seq<NodeDraws>,
    start: u64,
    end: u64,
    i: int,
)
    requires
        0 <= i < nodes.len(),
        forall|j: int| i < j < nodes.len() ==> (#[trigger] nodes[j]).node_id@ != nodes[i].node_id@,
    ensures
        nodes[i].cohort is Some ==> node_plan(nodes[i], start, end) == cohort_plan(
            nodes[i].draws,
            start,
            end,
        ),
        nodes[i].cohort is None ==> node_plan(nodes[i], start, end) == seq![
            Transition { time: start, going_online: true },
        ],
        cohorts_of(nodes).contains_key(nodes[i].node_id@),
        nodes[i].cohort is Some ==> cohorts_of(nodes)[nodes[i].node_id@] == nodes[i].cohort->0@,
        nodes[i].cohort is None ==> cohorts_of(nodes)[nodes[i].node_id@] == "legacy"@,
    decreases nodes.len(),
{
    if i < nodes.len() - 1 {
        let rest = nodes.drop_last();
        assert forall|j: int| i < j < rest.len() implies (#[trigger] rest[j]).node_id@
            != rest[i].node_id@ by {
            assert(rest[j] == nodes[j]);
        }
        law_nodes_follow_their_cohort(rest, start, end, i);
        assert(nodes[nodes.len() - 1].node_id@ != nodes[i].node_id@);
    }
}

/// The steps at which a schedule is online are as many as its entries say, and counts add up under
/// their names.
pub proof fn law_online_steps_are_counted(
    schedule: Seq<bool>,
    m: Map<Seq<char>, usize>,
    name: Seq<char>,
    n: nat,
)
    requires
        m.contains_key(name) ==> m[name] + n <= usize::MAX,
        n <= usize::MAX,
    ensures
        online_steps(schedule) == schedule.filter(|b: bool| b).len(),
        counted(m, name, n).contains_key(name),
        counted(m, name, n)[name] == n + (if m.contains_key(name) {
            m[name] as int
        } else {
            0
        }),
        counted(m, name, n).remove(name) == m.remove(name),
    decreases schedule.len(),
{
    reveal(Seq::filter);
    assert(counted(m, name, n).remove(name) =~= m.remove(name));
    if schedule.len() > 0 {
        law_online_steps_are_counted(schedule.drop_last(), m, name, n);
    }
}

// ---------------------------------------------------------------------------
// Friendship
// ---------------------------------------------------------------------------

/// Every pending friendship whose time comes before the end is asked for once, at that time, by the
/// first of the pair; no other is.
pub proof fn law_pending_friendships_are_asked_for(
    pending: Vec<(String, String)>,
    times: Vec<Option<u64>>,
    end: u64,
    r: Vec<ScheduledEvent>,
    i: int,
)
    requires
        call_ensures(build_friend_request_events, (&pending, &times, end), r),
        times@.len() == pending@.len(),
        0 <= i < pending@.len(),
    ensures
        r@.len() == times@.filter(|t: Option<u64>| t is Some && t->0 < end).len(),
        times@[i] is Some && times@[i]->0 < end ==> exists|k: int|
            0 <= k < r@.len() && asks(
                #[trigger] r@[k],
                pending@[i].0@,
                pending@[i].1@,
                times@[i]->0,
            ),
{
    lemma_requests_in_time(times@, end, times@.len());
    assert(times@.take(times@.len() as int) =~= times@);
    if times@[i] is Some && times@[i]->0 < end {
        let t = times@[i];
        let n = requests_in_time(times@, end, i as nat);
        assert(pair_names(pending@)[i] == (pending@[i].0@, pending@[i].1@));
        assert(is_request(r@[n as int], pair_names(pending@)[i], times@[i], n));
        assert(asks(r@[n as int], pending@[i].0@, pending@[i].1@, times@[i]->0));
    }
}

/// Whether an event is a request of one peer for the friendship of another.
pub open spec fn asks(e: ScheduledEvent, from: Seq<char>, to: Seq<char>, time: u64) -> bool {
    &&& e.time == time
    &&& e.event is FriendRequestSend
    &&& e.event->FriendRequestSend_sender_id@ == from
    &&& e.event->FriendRequestSend_recipient_id@ == to
}

proof fn lemma_requests_in_time(times: Seq<Option<u64>>, end: u64, n: nat)
    requires
        n <= times.len(),
    ensures
        requests_in_time(times, end, n) == times.take(n as int).filter(
            |t: Option<u64>| t is Some && t->0 < end,
        ).len(),
    decreases n,
{
    reveal(Seq::filter);
    if n > 0 {
        lemma_requests_in_time(times, end, (n - 1) as nat);
        assert(times.take(n as int).drop_last() =~= times.take(n - 1));
    }
}

/// There is a direct link from every node to each of its friends, and no other.
pub proof fn law_links_go_to_friends(
    nodes: Vec<String>,
    graph: KeyedMap<String, Names>,
    r: Vec<(String, String)>,
    a: Seq<char>,
    b: Seq<char>,
)
    requires
        call_ensures(direct_links, (&nodes, &graph), r),
    ensures
        r@.map_values(|p: (String, String)| (p.0@, p.1@)).contains((a, b)) <==> nodes@.map_values(
            |s: String| s@,
        ).contains(a) && graph@.contains_key(a) && graph@[a].contains(b),
{
    assert(pair_names(r@) =~= r@.map_values(|p: (String, String)| (p.0@, p.1@)));
    assert(texts(nodes@) =~= nodes@.map_values(|s: String| s@));
    assert(pair_names(r@).contains((a, b)) <==> texts(nodes@).contains(a) && graph@.contains_key(a)
        && graph@[a].contains(b));
}

/// The friends that are drawn for a node are others of those it may choose from, no more of them
/// than it is to have, each once; and all of them where there are fewer.
pub proof fn law_friends_are_drawn_from_others(
    list: Seq<Seq<char>>,
    me: Seq<char>,
    from: Seq<Seq<char>>,
    target: int,
    p: Seq<char>,
)
    requires
        friends_drawn(list, me, from, target),
    ensures
        list.contains(p) ==> from.contains(p) && p != me,
        list.len() <= target,
        list.len() < target && from.contains(p) && p != me ==> list.contains(p),
        forall|i: int, j: int| 0 <= i < j < list.len() ==> list[i] != list[j],
{
}

/// The first cluster has as many nodes as it is to have, or all where there are fewer; the others
/// are cut from the rest in the same way.
pub proof fn law_clusters_have_their_sizes<T>(list: Seq<T>, sizes: Seq<usize>)
    requires
        list.len() > 0,
        sizes.len() > 0,
    ensures
        ({
            let c = clusters_of(list, sizes);
            let n = if sizes[0] <= list.len() {
                sizes[0] as int
            } else {
                list.len() as int
            };
            &&& c.len() > 0 && c[0] == list.take(n)
            &&& n < list.len() ==> c.skip(1) == clusters_of(list.skip(n), sizes.skip(1))
            &&& n == list.len() ==> c.len() == 1
        }),
{
    let n = if sizes[0] <= list.len() {
        sizes[0] as int
    } else {
        list.len() as int
    };
    let tail = cut(list.skip(n), sizes.skip(1));
    let c = clusters_of(list, sizes);
    assert(c == seq![list.take(n)] + tail);
    assert(c.skip(1) =~= tail);
    if n < list.len() {
        assert(list.skip(n).len() > 0);
        assert(tail.len() > 0);
    }
}

/// Two nodes may become friends across clusters exactly where they are different nodes of different
/// clusters, as long as every node is in one cluster.
pub proof fn law_links_across_are_between_clusters(
    clusters: Vec<Vec<String>>,
    a: &str,
    b: &str,
    i: int,
    j: int,
    r: bool,
)
    requires
        call_ensures(may_link_across, (&clusters, a, b), r),
        0 <= i < clusters@.len(),
        0 <= j < clusters@.len(),
        texts(clusters@[i]@).contains(a@),
        texts(clusters@[j]@).contains(b@),
        forall|k: int|
            0 <= k < clusters@.len() && k != i ==> !texts((#[trigger] clusters@[k])@).contains(a@),
        forall|k: int|
            0 <= k < clusters@.len() && k != j ==> !texts((#[trigger] clusters@[k])@).contains(b@),
    ensures
        r <==> a@ != b@ && i != j,
{
    lemma_home(clusters@, clusters@.len(), a@, i);
    lemma_home(clusters@, clusters@.len(), b@, j);
}

proof fn lemma_home(clusters: Seq<Vec<String>>, n: nat, who: Seq<char>, i: int)
    requires
        n <= clusters.len(),
        0 <= i < n,
        texts(clusters[i]@).contains(who),
        forall|k: int|
            0 <= k < clusters.len() && k != i ==> !texts((#[trigger] clusters[k])@).contains(who),
    ensures
        home(clusters, n, who) == Some(i),
    decreases n,
{
    let last = clusters[n - 1];
    if i < n - 1 {
        lemma_home(clusters, (n - 1) as nat, who, i);
    }
}

/// A friend that is added stands among the friends of a node once, behind those it had; the friends
/// of others are as they were. Two names come in order whichever comes first.
pub proof fn law_friend_is_added_once(
    g: Map<Seq<char>, Seq<Seq<char>>>,
    a: Seq<char>,
    b: Seq<char>,
    other: Seq<char>,
)
    ensures
        with_friend(g, a, b).contains_key(a) && with_friend(g, a, b)[a].contains(b),
        g.contains_key(a) && g[a].contains(b) ==> with_friend(g, a, b)[a] == g[a],
        g.contains_key(a) && !g[a].contains(b) ==> with_friend(g, a, b)[a] == g[a].push(b),
        !g.contains_key(a) ==> with_friend(g, a, b)[a] == seq![b],
        other != a ==> with_friend(g, a, b).contains_key(other) == g.contains_key(other)
            && with_friend(g, a, b)[other] == g[other],
        in_order(a, b) == in_order(b, a),
        in_order(a, b) == (a, b) || in_order(a, b) == (b, a),
        text_le(in_order(a, b).0, in_order(a, b).1),
{
    crate::text::lemma_text_le_order(a, b, a);
    let list = if g.contains_key(a) {
        g[a]
    } else {
        Seq::empty()
    };
    if !list.contains(b) {
        assert(list.push(b).last() == b);
    }
    assert(Seq::<Seq<char>>::empty().push(b) =~= seq![b]);
}

// ---------------------------------------------------------------------------
// Groups
// ---------------------------------------------------------------------------

proof fn lemma_memberships(gs: Seq<SimGroup>, node: Seq<char>)
    ensures
        memberships(member_lists(gs), node) == gs.filter(
            |g: SimGroup| texts(g.members@).contains(node),
        ).len(),
    decreases gs.len(),
{
    reveal(Seq::filter);
    if gs.len() > 0 {
        lemma_memberships(gs.drop_last(), node);
        assert(member_lists(gs).drop_last() =~= member_lists(gs.drop_last()));
        assert(member_lists(gs).last() == texts(gs.last().members@));
    }
}

/// Every node is in as many groups as it is to be, or in all where there are fewer; where a number is
/// given it is in no more, unless it was when the groups were founded. Nobody has left a group.
pub proof fn law_nodes_are_in_their_groups(
    founded: Seq<SimGroup>,
    gs: Seq<SimGroup>,
    nodes: Seq<Seq<char>>,
    m: GroupMembershipsPerNode,
    node: Seq<char>,
    i: int,
)
    requires
        filled_as(founded, gs, nodes, m),
        nodes.contains(node),
        0 <= i < gs.len(),
    ensures
        ({
            let before = founded.filter(|g: SimGroup| texts(g.members@).contains(node)).len();
            let after = gs.filter(|g: SimGroup| texts(g.members@).contains(node)).len();
            &&& gs.len() == founded.len()
            &&& gs[i].group_id@ == founded[i].group_id@
            &&& gs[i].creator_id@ == founded[i].creator_id@
            &&& texts(founded[i].members@).contains(node) ==> texts(gs[i].members@).contains(node)
            &&& match m {
                GroupMembershipsPerNode::Fixed { count } => {
                    &&& after >= count || after == gs.len() || after == before
                    &&& after >= before
                    &&& after > before ==> after <= count && after <= gs.len()
                    &&& after < count ==> after >= gs.len() || after >= before && before >= gs.len()
                },
                GroupMembershipsPerNode::Uniform { min, max } => {
                    &&& after >= before
                    &&& after < min ==> after >= gs.len()
                    &&& after > before ==> after <= gs.len() && (after <= max || after <= min)
                },
            }
        }),
{
    lemma_memberships(founded, node);
    lemma_memberships(gs, node);
    let g = gs[i];
    assert(memberships(member_lists(gs), node) == memberships(member_lists(gs), node));
}

/// Groups are founded with numbers from one on, as many as are wanted, with members of the
/// simulation, each once; whoever is drawn first is the creator.
pub proof fn law_groups_are_founded_as_wanted(
    gs: Seq<SimGroup>,
    nodes: Seq<Seq<char>>,
    s: GroupSettings,
    i: int,
)
    requires
        founded_as(gs, nodes, s),
        0 <= i < gs.len(),
    ensures
        gs.len() == s.count,
        gs[i].group_id@ == "group-"@ + decimal((i + 1) as nat),
        gs[i].members@.len() <= s.max_size,
        gs[i].members@.len() <= nodes.to_set().len(),
        gs[i].members@.len() >= s.min_size || gs[i].members@.len() >= nodes.to_set().len(),
        gs[i].members@.len() > 0 ==> gs[i].creator_id@ == gs[i].members@[0]@,
        texts(gs[i].members@).no_duplicates(),
        forall|k: int|
            0 <= k < gs[i].members@.len() ==> nodes.contains((#[trigger] gs[i].members@[k])@),
{
    let g = gs[i];
    assert forall|k: int| 0 <= k < g.members@.len() implies nodes.contains(
        (#[trigger] g.members@[k])@,
    ) by {
        assert(texts(g.members@)[k] == g.members@[k]@);
        assert(texts(g.members@).contains(g.members@[k]@));
    }
}

/// The groups of a node are those that it is a member of, in order; and a group is not larger than
/// there are nodes.
pub proof fn law_groups_of_a_node(
    gs: Vec<SimGroup>,
    node: &str,
    r: Vec<String>,
    min: usize,
    max: usize,
    nodes: usize,
    bounds: (usize, usize),
)
    requires
        call_ensures(groups_of, (&gs, node), r),
        call_ensures(uniform_group_bounds, (min, max, nodes), bounds),
    ensures
        r@.map_values(|s: String| s@) == gs@.filter(
            |g: SimGroup| g.members@.map_values(|s: String| s@).contains(node@),
        ).map_values(|g: SimGroup| g.group_id@),
        bounds.0 == min,
        bounds.1 <= max && bounds.1 <= nodes && (bounds.1 == max || bounds.1 == nodes),
{
    assert(texts(r@) =~= r@.map_values(|s: String| s@));
    let p = |g: SimGroup| texts(g.members@).contains(node@);
    let q = |g: SimGroup| g.members@.map_values(|s: String| s@).contains(node@);
    assert forall|g: SimGroup| #[trigger] p(g) == q(g) by {
        assert(texts(g.members@) =~= g.members@.map_values(|s: String| s@));
    }
    assert(p =~= q);
    assert(gs@.filter(p).map_values(|g: SimGroup| g.group_id@) =~= gs@.filter(q).map_values(
        |g: SimGroup| g.group_id@,
    ));
}

// ---------------------------------------------------------------------------
// Settings
// ---------------------------------------------------------------------------

/// A simulation takes as many steps as its duration needs and no more, at least one; without a
/// duration as many as are given. Messages are sealed unless they are to travel in the clear.
pub proof fn law_steps_and_encryption(
    steps: usize,
    duration: Option<u64>,
    seconds_per_step: u64,
    r: usize,
    e: Option<MessageEncryption>,
    x: MessageEncryption,
)
    requires
        call_ensures(effective_steps, (steps, duration, seconds_per_step), r),
        call_ensures(effective_encryption, (e,), x),
    ensures
        r >= 1,
        duration is None && steps > 0 ==> r == steps,
        duration is Some && seconds_per_step > 0 && r < usize::MAX ==> r * seconds_per_step
            >= duration->0,
        duration is Some && seconds_per_step > 0 && duration->0 > 0 ==> (r - 1) * seconds_per_step
            < duration->0,
        x == MessageEncryption::Plaintext <==> e == Some(MessageEncryption::Plaintext),
{
    if duration is Some && seconds_per_step > 0 {
        let d = duration->0 as int;
        let s = seconds_per_step as int;
        let n = pieces(d, s);
        crate::simulation::config::law_steps_cover_duration(d as nat, s as nat);
        if d == 0 {
            assert(n == 0) by (nonlinear_arith)
                requires
                    n == (d + s - 1) / s,
                    d == 0,
                    s > 0,
            ;
        } else {
            assert(n >= 1) by (nonlinear_arith)
                requires
                    n == (d + s - 1) / s,
                    d >= 1,
                    s > 0,
            ;
        }
        if n > usize::MAX {
            assert((usize::MAX - 1) * s <= (n - 1) * s) by (nonlinear_arith)
                requires
                    usize::MAX <= n,
                    s > 0,
            ;
        }
    }
}

/// The relay of a simulation keeps envelopes for the seconds that are given, and holds as many and
/// as many bytes as are given; peers are logged every 30 seconds over a window of 60 unless other
/// times are given.
pub proof fn law_relay_of_a_simulation(t: RelayConfigToml, r: RelayConfig)
    requires
        call_ensures(RelayConfigToml::into_relay_config, (t,), r),
    ensures
        r.ttl == t.ttl_seconds * 1_000_000_000,
        r.max_messages == t.max_messages,
        r.max_bytes == t.max_bytes,
        r.retry_backoff@.len() == t.retry_backoff_seconds@.len(),
        forall|i: int|
            0 <= i < r.retry_backoff@.len() ==> #[trigger] r.retry_backoff@[i]
                == t.retry_backoff_seconds@[i] * 1_000_000_000,
        r.peer_log_window == (match t.peer_log_window_seconds {
            Some(s) => s * 1_000_000_000,
            None => 60_000_000_000,
        }),
        r.peer_log_interval == (match t.peer_log_interval_seconds {
            Some(s) => s * 1_000_000_000,
            None => 30_000_000_000,
        }),
        r.qos.tier1.max_envelopes == 20 && r.qos.tier2.max_envelopes == 100
            && r.qos.tier3.max_envelopes == 500,
        r.blob_max_chunk_bytes == 512 * 1024,
        r.blob_daily_quota_bytes == 500 * 1024 * 1024,
{
    assert forall|i: int| 0 <= i < r.retry_backoff@.len() implies #[trigger] r.retry_backoff@[i]
        == t.retry_backoff_seconds@[i] * 1_000_000_000 by {
        let s = t.retry_backoff_seconds@[i];
        assert(s * 1_000_000_000 <= u128::MAX);
    }
}

/// The hour of the day in a time zone comes around every 24 hours.
pub proof fn law_hours_come_around(hours: i64, offset: i32, r: usize, s: usize)
    requires
        -1_000_000_000_000 <= hours <= 1_000_000_000_000,
        call_ensures(hour_of_day, (hours, offset), r),
        call_ensures(hour_of_day, ((hours + 24) as i64, offset), s),
    ensures
        r < 24,
        r == s,
        0 <= hours + offset < 24 ==> r == hours + offset,
{
}

/// Posts come from where their precision allows, and from nowhere without one; they are wanted from
/// a country, a region or a city as far as the precision goes, and beyond that by the first five
/// characters of the geohash.
pub proof fn law_places_are_as_precise_as_wanted(
    g: SimGeoConfig,
    post: Option<GeoLocation>,
    query: Option<GeoQuery>,
)
    requires
        call_ensures(SimGeoConfig::post_geo_location, (&g,), post),
        call_ensures(SimGeoConfig::query_geo, (&g,), query),
    ensures
        g.post_precision@ == "none"@ ==> post is None,
        g.post_precision@ == "city"@ ==> post is Some && post->0.precision == GeoPrecision::City,
        g.post_precision@ == "country"@ ==> post is Some && post->0.precision
            == GeoPrecision::Country,
        g.post_precision@ == "region"@ ==> post is Some && post->0.precision
            == GeoPrecision::Region,
        g.post_precision@ == "neighborhood"@ ==> post is Some && post->0.precision
            == GeoPrecision::Neighborhood,
        g.post_precision@ == "exact"@ ==> post is Some && post->0.precision == GeoPrecision::Exact,
        post is Some ==> post->0.country_code is Some && post->0.country_code->0@
            == g.country_code@ && post->0.region == g.region && post->0.city == g.city
            && post->0.geohash == g.geohash,
        g.query_precision@ == "none"@ ==> query is None,
        g.query_precision@ == "country"@ ==> query is Some && query->0.country_code is Some
            && query->0.country_code->0@ == g.country_code@ && query->0.region is None
            && query->0.city is None && query->0.geohash_prefix is None,
        g.query_precision@ == "region"@ ==> query is Some && query->0.region == g.region
            && query->0.city is None && query->0.geohash_prefix is None,
        g.query_precision@ == "city"@ ==> query is Some && query->0.city == g.city
            && query->0.region == g.region && query->0.geohash_prefix is None,
        g.query_precision@ == "exact"@ || g.query_precision@ == "neighborhood"@ ==> query is Some
            && query->0.country_code is None && query->0.city is None && (g.geohash is Some
            ==> query->0.geohash_prefix is Some && query->0.geohash_prefix->0@.is_prefix_of(
            g.geohash->0@,
        ) && query->0.geohash_prefix->0@.len() == (if g.geohash->0@.len() < 5 {
            g.geohash->0@.len()
        } else {
            5
        })),
{
    reveal_strlit("none");
    reveal_strlit("country");
    reveal_strlit("region");
    reveal_strlit("city");
    reveal_strlit("neighborhood");
    reveal_strlit("exact");
    assert("none"@.len() == 4 && "city"@.len() == 4 && "none"@[0] == 'n' && "city"@[0] == 'c');
    assert("country"@.len() == 7 && "region"@.len() == 6);
    assert("neighborhood"@.len() == 12 && "exact"@.len() == 5);
}

/// A message body is as long as is wanted, and filler text over and over; bounds come in order.
pub proof fn law_bodies_have_their_size(
    size: usize,
    body: String,
    i: int,
    min: usize,
    max: usize,
    bounds: (usize, usize),
)
    requires
        call_ensures(message_body, (size,), body),
        call_ensures(normalize_bounds, (min, max), bounds),
        0 <= i < size,
    ensures
        body@.len() == size,
        i < 57 ==> body@[i]
            == "Lorem ipsum dolor sit amet, consectetur adipiscing elit. "@[i],
        i + 57 < size ==> body@[i + 57] == body@[i],
        bounds.0 <= bounds.1,
        min <= max ==> bounds == (min, max),
        max < min ==> bounds == (max, min),
{
}

} // verus!
