//! What a simulation plans: messages, replies, and when clients come and go.
use vstd::prelude::*;
use vstd::string::*;

use rand_chacha::ChaCha8Rng;

use crate::keyed::KeyedMap;
use crate::protocol::MessageKind;
use crate::simulation::client::Names;
use crate::simulation::config::pieces;
use crate::simulation::config::MessageEncryption;
use crate::simulation::config::MessageType;
use crate::simulation::config::SIMULATION_HOURS_PER_DAY;
use crate::simulation::event::Event;
use crate::simulation::event::ScheduledEvent;
use crate::simulation::graph::pair_names;
use crate::simulation::metrics::sat_add;
use crate::simulation::random::draw;
use crate::sorting::arranged;
use crate::sorting::in_turn;
use crate::sorting::is_sorted_form;
use crate::sorting::sort;
use crate::sorting::sorted;
use crate::sorting::Ranked;
use crate::text::decimal;
use crate::text::opt_text;
use crate::text::texts;
use crate::text::to_decimal;

verus! {

// ---------------------------------------------------------------------------
// Messages
// ---------------------------------------------------------------------------

/// A message that is to be written.
pub struct MessagePlan {
    pub recipient: String,
    pub message_kind: MessageKind,
    pub group_id: Option<String>,
    /// What makes the payload unlike any other, where it travels in the clear.
    pub salt: Option<String>,
}

/// A planned message, by name.
pub struct PlanView {
    pub recipient: Seq<char>,
    pub kind: MessageKind,
    pub group: Option<Seq<char>>,
    pub salt: Option<Seq<char>>,
}

impl View for MessagePlan {
    type V = PlanView;

    open spec fn view(&self) -> PlanView {
        PlanView {
            recipient: self.recipient@,
            kind: self.message_kind,
            group: opt_text(self.group_id),
            salt: opt_text(self.salt),
        }
    }
}

/// A message to one recipient. It has a salt only where it travels in the clear.
pub open spec fn direct_plan(
    sender: Seq<char>,
    recipient: Seq<char>,
    encryption: MessageEncryption,
    counter: nat,
) -> PlanView {
    PlanView {
        recipient,
        kind: MessageKind::Direct,
        group: None,
        salt: match encryption {
            MessageEncryption::Plaintext => Some(sender + "-"@ + decimal(counter)),
            MessageEncryption::Encrypted => None,
        },
    }
}

/// A message to everybody; it always travels in the clear.
pub open spec fn public_plan(sender: Seq<char>, mark: Seq<char>, counter: nat) -> PlanView {
    PlanView {
        recipient: "*"@,
        kind: MessageKind::Public,
        group: None,
        salt: Some(sender + mark + decimal(counter)),
    }
}

/// A message to a group; what seals it is added when it is sent.
pub open spec fn group_plan(
    sender: Seq<char>,
    group: Seq<char>,
    mark: Seq<char>,
    counter: nat,
) -> PlanView {
    PlanView {
        recipient: group,
        kind: MessageKind::FriendGroup,
        group: Some(group),
        salt: Some(sender + "-"@ + group + mark + decimal(counter)),
    }
}

/// Plans a message to one recipient.
pub fn plan_direct(sender: &str, recipient: &str, encryption: MessageEncryption, counter: usize)
    -> (r: MessagePlan)
    ensures
        r@ == direct_plan(sender@, recipient@, encryption, counter as nat),
{
    let salt = match encryption {
        MessageEncryption::Plaintext => {
            let mut s = sender.to_owned();
            s.append("-");
            s.append(to_decimal(counter as u64).as_str());
            Some(s)
        },
        MessageEncryption::Encrypted => None,
    };
    MessagePlan {
        recipient: recipient.to_owned(),
        message_kind: MessageKind::Direct,
        group_id: None,
        salt,
    }
}

fn plan_public(sender: &str, mark: &str, counter: usize) -> (r: MessagePlan)
    ensures
        r@ == public_plan(sender@, mark@, counter as nat),
{
    let mut salt = sender.to_owned();
    salt.append(mark);
    salt.append(to_decimal(counter as u64).as_str());
    MessagePlan {
        recipient: "*".to_owned(),
        message_kind: MessageKind::Public,
        group_id: None,
        salt: Some(salt),
    }
}

fn plan_group(sender: &str, group: &str, mark: &str, counter: usize) -> (r: MessagePlan)
    ensures
        r@ == group_plan(sender@, group@, mark@, counter as nat),
{
    let mut salt = sender.to_owned();
    salt.append("-");
    salt.append(group);
    salt.append(mark);
    salt.append(to_decimal(counter as u64).as_str());
    MessagePlan {
        recipient: group.to_owned(),
        message_kind: MessageKind::FriendGroup,
        group_id: Some(group.to_owned()),
        salt: Some(salt),
    }
}

/// Whether a sender can write a message of a given type: it takes somebody to write to.
pub open spec fn can_write(message_type: MessageType, friends: nat, groups: nat) -> bool {
    ||| message_type == MessageType::Public
    ||| message_type == MessageType::Group && groups > 0
    ||| friends > 0
}

/// Whether a message is one that a sender may write: of the given type where that can be, to one
/// of the sender's groups or friends.
pub open spec fn is_written(
    plan: PlanView,
    sender: Seq<char>,
    friends: Seq<Seq<char>>,
    groups: Seq<Seq<char>>,
    message_type: MessageType,
    encryption: MessageEncryption,
    counter: nat,
) -> bool {
    match message_type {
        MessageType::Public => plan == public_plan(sender, "-"@, counter),
        MessageType::Group if groups.len() > 0 => exists|k: int|
            0 <= k < groups.len() && plan == group_plan(
                sender,
                #[trigger] groups[k],
                "-"@,
                counter,
            ),
        _ => exists|k: int|
            0 <= k < friends.len() && plan == direct_plan(
                sender,
                #[trigger] friends[k],
                encryption,
                counter,
            ),
    }
}

/// Plans a message of a given type. A direct message goes to a friend, and a group message to a
/// group of the sender, drawn at random; a sender without groups writes to a friend instead, and
/// one without friends not at all. The counter goes up with every message.
pub fn build_planned_message(
    node_id: &str,
    friends: &Vec<String>,
    groups: &Vec<String>,
    message_type: MessageType,
    encryption: MessageEncryption,
    counter: &mut usize,
    rng: &mut ChaCha8Rng,
) -> (r: Option<MessagePlan>)
    requires
        *old(counter) < usize::MAX,
    ensures
        r is Some <==> can_write(message_type, friends@.len(), groups@.len()),
        *final(counter) == *old(counter) + (if r is Some {
            1int
        } else {
            0int
        }),
        r matches Some(p) ==> is_written(
            p@,
            node_id@,
            texts(friends@),
            texts(groups@),
            message_type,
            encryption,
            *old(counter) as nat,
        ),
{
    let n: usize = *counter;
    match message_type {
        MessageType::Public => {
            *counter = n + 1;
            return Some(plan_public(node_id, "-", n));
        },
        MessageType::Group => {
            if groups.len() > 0 {
                let k: usize = draw(rng, 0, groups.len() - 1);
                *counter = n + 1;
                let plan = plan_group(node_id, groups[k].as_str(), "-", n);
                assert(plan@ == group_plan(node_id@, texts(groups@)[k as int], "-"@, n as nat));
                return Some(plan);
            }
        },
        MessageType::Direct => {},
    }
    if friends.len() == 0 {
        return None;
    }
    let k: usize = draw(rng, 0, friends.len() - 1);
    *counter = n + 1;
    let plan = plan_direct(node_id, friends[k].as_str(), encryption, n);
    assert(plan@ == direct_plan(node_id@, texts(friends@)[k as int], encryption, n as nat));
    Some(plan)
}

/// Plans a reply of the same kind as the message that it answers. Messages about the network and
/// those kept for others get none, nor does a group message that names no group.
pub fn build_reply_sim_message(
    replier_id: &str,
    original_kind: MessageKind,
    original_sender: &str,
    original_group_id: &Option<String>,
    encryption: MessageEncryption,
    counter: usize,
) -> (r: Option<MessagePlan>)
    ensures
        match (original_kind, *original_group_id) {
            (MessageKind::Direct, _) => r is Some && r->0@ == direct_plan(
                replier_id@,
                original_sender@,
                encryption,
                counter as nat,
            ),
            (MessageKind::Public, _) => r is Some && r->0@ == public_plan(
                replier_id@,
                "-reply-"@,
                counter as nat,
            ),
            (MessageKind::FriendGroup, Some(g)) => r is Some && r->0@ == group_plan(
                replier_id@,
                g@,
                "-reply-"@,
                counter as nat,
            ),
            _ => r is None,
        },
{
    match original_kind {
        MessageKind::Direct => Some(plan_direct(replier_id, original_sender, encryption, counter)),
        MessageKind::Public => Some(plan_public(replier_id, "-reply-", counter)),
        MessageKind::FriendGroup => match original_group_id {
            Some(g) => Some(plan_group(replier_id, g.as_str(), "-reply-", counter)),
            None => None,
        },
        MessageKind::Meta => None,
        MessageKind::StoreForPeer => None,
    }
}

/// Which weights a weighted schedule goes by.
#[derive(Clone, Copy, Debug, PartialEq, Eq, Structural)]
pub enum ScheduleWeights {
    /// One weight for each hour of the day.
    Hourly,
    /// One weight for each step.
    PerStep,
    /// The same weight for every step.
    Even,
}

/// Which weights a weighted schedule goes by, given how many there are.
pub fn schedule_weights(weights: usize, steps: usize) -> (r: ScheduleWeights)
    ensures
        r == (if weights == SIMULATION_HOURS_PER_DAY {
            ScheduleWeights::Hourly
        } else if weights == steps {
            ScheduleWeights::PerStep
        } else {
            ScheduleWeights::Even
        }),
{
    if weights == SIMULATION_HOURS_PER_DAY {
        ScheduleWeights::Hourly
    } else if weights == steps {
        ScheduleWeights::PerStep
    } else {
        ScheduleWeights::Even
    }
}

/// A step, or the last one where it lies beyond.
pub fn clamp_step(step: usize, steps: usize) -> (r: usize)
    ensures
        r == (if steps == 0 {
            0
        } else if step < steps {
            step as int
        } else {
            steps - 1
        }),
{
    if steps == 0 {
        0
    } else if step < steps {
        step
    } else {
        steps - 1
    }
}

// ---------------------------------------------------------------------------
// Coming and going
// ---------------------------------------------------------------------------

/// How often a client of the day-and-night kind may change its mind: every 15 minutes.
pub const SAMPLE_INTERVAL: u64 = 900_000_000_000;

/// How long before the end a client that is still online goes offline.
pub const CLOSING: u64 = 1_000_000_000;

/// A client comes or goes.
#[derive(Clone, Copy, Debug, PartialEq, Eq, Structural)]
pub struct Transition {
    pub time: u64,
    pub going_online: bool,
}

impl Ranked for Transition {
    open spec fn ranks(&self, other: &Self) -> bool {
        self.time <= other.time
    }

    proof fn lemma_total(a: &Self, b: &Self) {
    }

    proof fn lemma_transitive(a: &Self, b: &Self, c: &Self) {
    }

    fn may_precede(&self, other: &Self) -> (r: bool) {
        self.time <= other.time
    }
}

/// Whether a client is online after the given samples; it starts offline.
pub open spec fn state_after(states: Seq<bool>) -> bool {
    states.len() > 0 && states.last()
}

/// The changes among samples that are taken every interval from `start` on.
pub open spec fn changes(states: Seq<bool>, start: u64) -> Seq<Transition>
    decreases states.len(),
{
    if states.len() == 0 {
        Seq::empty()
    } else {
        let before = changes(states.drop_last(), start);
        if states.last() != state_after(states.drop_last()) {
            before.push(
                Transition {
                    time: (start + (states.len() - 1) * SAMPLE_INTERVAL) as u64,
                    going_online: states.last(),
                },
            )
        } else {
            before
        }
    }
}

/// What sessions add up to: a client comes when one starts and goes when it ends, unless the
/// simulation ends first.
pub open spec fn sessions_plan(sessions: Seq<(u64, u64)>, end: u64) -> Seq<Transition>
    decreases sessions.len(),
{
    if sessions.len() == 0 {
        Seq::empty()
    } else {
        let before = sessions_plan(sessions.drop_last(), end);
        let (start, length) = sessions.last();
        let come = before.push(Transition { time: start, going_online: true });
        if start + length < end {
            come.push(Transition { time: (start + length) as u64, going_online: false })
        } else {
            come
        }
    }
}

/// What was drawn for a client of a cohort.
pub enum CohortDraws {
    AlwaysOnline,
    /// Sessions, each with its start and its length.
    RarelyOnline { sessions: Vec<(u64, u64)> },
    /// Whether the client is online, at every sample.
    Diurnal { states: Vec<bool> },
}

/// When a client of a cohort comes and goes, in the order in which it is worked out.
pub open spec fn cohort_plan(draws: CohortDraws, start: u64, end: u64) -> Seq<Transition> {
    match draws {
        CohortDraws::AlwaysOnline => seq![Transition { time: start, going_online: true }],
        CohortDraws::RarelyOnline { sessions } => sessions_plan(sessions@, end),
        CohortDraws::Diurnal { states } => if state_after(states@) && end > start {
            changes(states@, start).push(
                Transition {
                    time: if end >= CLOSING {
                        (end - CLOSING) as u64
                    } else {
                        0
                    },
                    going_online: false,
                },
            )
        } else {
            changes(states@, start)
        },
    }
}

/// Whether an event lets a client come or go.
pub open spec fn is_transition(e: ScheduledEvent, client: Seq<char>, t: Transition) -> bool {
    &&& e.time == t.time
    &&& e.event_id == 0
    &&& e.event matches Event::OnlineTransition { client_id, going_online } && client_id@ == client
        && going_online == t.going_online
}

/// How many samples a simulation takes.
pub fn sample_count(start: u64, end: u64) -> (r: u64)
    requires
        start <= end,
        end <= u64::MAX - SAMPLE_INTERVAL,
    ensures
        r == pieces(end - start, SAMPLE_INTERVAL as int),
{
    (end - start + (SAMPLE_INTERVAL - 1)) / SAMPLE_INTERVAL
}

fn changes_of(states: &Vec<bool>, start: u64) -> (r: Vec<Transition>)
    requires
        start + states@.len() * SAMPLE_INTERVAL <= u64::MAX,
    ensures
        r@ == changes(states@, start),
{
    let mut out: Vec<Transition> = Vec::new();
    let mut online = false;
    let mut i: usize = 0;
    let ghost ss = states@;
    proof {
        assert(ss.take(0) =~= Seq::empty());
    }
    while i < states.len()
        invariant
            i <= ss.len(),
            ss == states@,
            start + ss.len() * SAMPLE_INTERVAL <= u64::MAX,
            online == state_after(ss.take(i as int)),
            out@ == changes(ss.take(i as int), start),
        decreases ss.len() - i,
    {
        proof {
            assert(ss.take(i + 1).drop_last() =~= ss.take(i as int));
            assert(ss.take(i + 1).last() == ss[i as int]);
            assert(i * SAMPLE_INTERVAL <= ss.len() * SAMPLE_INTERVAL) by (nonlinear_arith)
                requires
                    i <= ss.len(),
            ;
        }
        if states[i] != online {
            let offset: u64 = i as u64 * SAMPLE_INTERVAL;
            out.push(Transition { time: start + offset, going_online: states[i] });
            online = states[i];
        }
        i = i + 1;
    }
    proof {
        assert(ss.take(i as int) =~= ss);
    }
    out
}

fn sessions_of(sessions: &Vec<(u64, u64)>, end: u64) -> (r: Vec<Transition>)
    ensures
        r@ == sessions_plan(sessions@, end),
{
    let mut out: Vec<Transition> = Vec::new();
    let mut i: usize = 0;
    let ghost ss = sessions@;
    proof {
        assert(ss.take(0) =~= Seq::empty());
    }
    while i < sessions.len()
        invariant
            i <= ss.len(),
            ss == sessions@,
            out@ == sessions_plan(ss.take(i as int), end),
        decreases ss.len() - i,
    {
        proof {
            assert(ss.take(i + 1).drop_last() =~= ss.take(i as int));
            assert(ss.take(i + 1).last() == ss[i as int]);
        }
        let (start, length) = sessions[i];
        out.push(Transition { time: start, going_online: true });
        if start < end && length < end - start {
            out.push(Transition { time: start + length, going_online: false });
        }
        i = i + 1;
    }
    proof {
        assert(ss.take(i as int) =~= ss);
    }
    out
}

/// When a client comes and goes, as events in the order of their times.
pub fn generate_online_schedule_events(
    client_id: &str,
    draws: &CohortDraws,
    start: u64,
    end: u64,
) -> (r: Vec<ScheduledEvent>)
    requires
        draws matches CohortDraws::Diurnal { states } ==> start + states@.len() * SAMPLE_INTERVAL
            <= u64::MAX,
    ensures
        exists|s: Seq<Transition>| #[trigger]
            is_sorted_form(s, cohort_plan(*draws, start, end)) && r@.len() == s.len()
                && forall|i: int|
                0 <= i < r@.len() ==> is_transition(#[trigger] r@[i], client_id@, s[i]),
{
    let plan: Vec<Transition> = match draws {
        CohortDraws::AlwaysOnline => {
            let mut v: Vec<Transition> = Vec::new();
            v.push(Transition { time: start, going_online: true });
            assert(v@ =~= cohort_plan(*draws, start, end));
            v
        },
        CohortDraws::RarelyOnline { sessions } => sessions_of(sessions, end),
        CohortDraws::Diurnal { states } => {
            let mut v = changes_of(states, start);
            if states.len() > 0 && states[states.len() - 1] && end > start {
                v.push(Transition { time: end.saturating_sub(CLOSING), going_online: false });
            }
            v
        },
    };
    assert(plan@ == cohort_plan(*draws, start, end));
    let ordered = sort(plan);
    let mut out: Vec<ScheduledEvent> = Vec::new();
    let mut i: usize = 0;
    while i < ordered.len()
        invariant
            i <= ordered@.len(),
            out@.len() == i,
            forall|j: int|
                0 <= j < i ==> is_transition(#[trigger] out@[j], client_id@, ordered@[j]),
        decreases ordered@.len() - i,
    {
        let t = ordered[i];
        out.push(
            ScheduledEvent {
                time: t.time,
                event: Event::OnlineTransition {
                    client_id: client_id.to_owned(),
                    going_online: t.going_online,
                },
                event_id: 0,
            },
        );
        i = i + 1;
    }
    assert(is_sorted_form(ordered@, cohort_plan(*draws, start, end)));
    out
}

/// A client of the day-and-night kind comes and goes in turn, and comes first.
pub proof fn law_changes_alternate(states: Seq<bool>, start: u64)
    ensures
        ({
            let c = changes(states, start);
            &&& forall|i: int| 0 <= i < c.len() ==> (#[trigger] c[i]).going_online == (i % 2 == 0)
            &&& state_after(states) == (c.len() % 2 == 1)
        }),
    decreases states.len(),
{
    if states.len() > 0 {
        law_changes_alternate(states.drop_last(), start);
    }
}

/// Whether of any two sessions one is over, before the end of the simulation too, when the other
/// begins. They may be listed in any order; it counts only where one begins as the other ends.
pub open spec fn apart(sessions: Seq<(u64, u64)>, end: u64) -> bool {
    forall|i: int, j: int|
        #![trigger sessions[i], sessions[j]]
        0 <= i < j < sessions.len() ==> {
            ||| sessions[i].0 + sessions[i].1 <= sessions[j].0 && sessions[i].0 + sessions[i].1 < end
            ||| sessions[j].0 + sessions[j].1 < sessions[i].0 && sessions[j].0 + sessions[j].1 < end
        }
}

/// Where the start of session `i` stands in the plan. Its end, where there is one, comes next.
spec fn come_at(sessions: Seq<(u64, u64)>, end: u64, i: int) -> int {
    sessions_plan(sessions.take(i), end).len() as int
}

/// Whether session `i` ends before the simulation does.
spec fn has_end(sessions: Seq<(u64, u64)>, end: u64, i: int) -> bool {
    sessions[i].0 + sessions[i].1 < end
}

/// What of session `i` stands in the plan.
spec fn session_stands(sessions: Seq<(u64, u64)>, end: u64, i: int) -> bool {
    let plan = sessions_plan(sessions, end);
    let a = come_at(sessions, end, i);
    &&& 0 <= a < plan.len()
    &&& plan[a] == (Transition { time: sessions[i].0, going_online: true })
    &&& has_end(sessions, end, i) ==> a + 1 < plan.len() && plan[a + 1] == (Transition {
        time: (sessions[i].0 + sessions[i].1) as u64,
        going_online: false,
    })
}

/// Whether the plan has something of session `i` at `a`.
spec fn is_of(sessions: Seq<(u64, u64)>, end: u64, i: int, a: int) -> bool {
    &&& 0 <= i < sessions.len()
    &&& a == come_at(sessions, end, i) || (has_end(sessions, end, i) && a == come_at(
        sessions,
        end,
        i,
    ) + 1)
}

/// Whether the plan has something of a session at `a`.
spec fn is_of_some(sessions: Seq<(u64, u64)>, end: u64, a: int) -> bool {
    exists|i: int| #[trigger] is_of(sessions, end, i, a)
}

/// The plan holds every session, and nothing else.
proof fn lemma_sessions_plan(sessions: Seq<(u64, u64)>, end: u64)
    ensures
        forall|i: int| 0 <= i < sessions.len() ==> #[trigger] session_stands(sessions, end, i),
        forall|a: int|
            0 <= a < sessions_plan(sessions, end).len() ==> #[trigger] is_of_some(sessions, end, a),
    decreases sessions.len(),
{
    let plan = sessions_plan(sessions, end);
    if sessions.len() > 0 {
        let n = sessions.len() - 1;
        let rest = sessions.drop_last();
        let before = sessions_plan(rest, end);
        lemma_sessions_plan(rest, end);
        assert(sessions.take(n) =~= rest);
        assert(come_at(sessions, end, n) == before.len());
        assert forall|i: int| 0 <= i < sessions.len() implies #[trigger] session_stands(
            sessions,
            end,
            i,
        ) by {
            if i < n {
                assert(session_stands(rest, end, i));
                assert(rest.take(i) =~= sessions.take(i));
            }
        }
        assert forall|a: int| 0 <= a < plan.len() implies #[trigger] is_of_some(
            sessions,
            end,
            a,
        ) by {
            if a < before.len() {
                assert(is_of_some(rest, end, a));
                let i = choose|i: int| #[trigger] is_of(rest, end, i, a);
                assert(rest.take(i) =~= sessions.take(i));
                assert(is_of(sessions, end, i, a));
            } else {
                assert(is_of(sessions, end, n, a));
            }
        }
    }
}

/// The session of which the plan has something at `a`, and what.
proof fn lemma_session_at(sessions: Seq<(u64, u64)>, end: u64, a: int) -> (i: int)
    requires
        0 <= a < sessions_plan(sessions, end).len(),
    ensures
        0 <= i < sessions.len(),
        session_stands(sessions, end, i),
        sessions_plan(sessions, end)[a].going_online ==> a == come_at(sessions, end, i),
        !sessions_plan(sessions, end)[a].going_online ==> has_end(sessions, end, i) && a == come_at(
            sessions,
            end,
            i,
        ) + 1,
{
    lemma_sessions_plan(sessions, end);
    assert(is_of_some(sessions, end, a));
    let i = choose|i: int| #[trigger] is_of(sessions, end, i, a);
    assert(session_stands(sessions, end, i));
    i
}

/// What is listed first stands first in the plan.
proof fn lemma_come_in_turn(sessions: Seq<(u64, u64)>, end: u64, i: int, j: int)
    requires
        0 <= i < j < sessions.len(),
    ensures
        come_at(sessions, end, i) + (if has_end(sessions, end, i) {
            2int
        } else {
            1
        }) <= come_at(sessions, end, j),
    decreases j,
{
    assert(sessions.take(j).drop_last() =~= sessions.take(j - 1));
    if i < j - 1 {
        lemma_come_in_turn(sessions, end, i, j - 1);
    }
}

/// Two events of sorted sessions that stand next to each other.
proof fn lemma_neighbours_differ(
    sessions: Seq<(u64, u64)>,
    end: u64,
    s: Seq<Transition>,
    from: Seq<int>,
    k: int,
)
    requires
        apart(sessions, end),
        sorted(s),
        arranged(s, sessions_plan(sessions, end), from),
        in_turn(s, from),
        0 <= k < s.len() - 1,
    ensures
        s[k].going_online != s[k + 1].going_online,
{
    let plan = sessions_plan(sessions, end);
    let (a, b) = (from[k], from[k + 1]);
    assert(s[k] == plan[a] && s[k + 1] == plan[b]);
    assert(a != b);
    assert(s[k].ranks(&s[k + 1]));
    let i = lemma_session_at(sessions, end, a);
    let j = lemma_session_at(sessions, end, b);
    if s[k].going_online == s[k + 1].going_online {
        assert(i != j);
        if i < j {
            lemma_come_in_turn(sessions, end, i, j);
        } else {
            lemma_come_in_turn(sessions, end, j, i);
        }
        let c = if s[k].going_online {
            a + 1
        } else {
            b - 1
        };
        assert(from.contains(c));
        let m = choose|m: int| 0 <= m < from.len() && from[m] == c;
        assert(s[m] == plan[c]);
        if m < k {
            assert(s[m].ranks(&s[k]));
        } else if m > k + 1 {
            assert(s[k + 1].ranks(&s[m]));
        }
    }
}

/// The first event of sorted sessions.
proof fn lemma_first_comes(
    sessions: Seq<(u64, u64)>,
    end: u64,
    s: Seq<Transition>,
    from: Seq<int>,
)
    requires
        sorted(s),
        arranged(s, sessions_plan(sessions, end), from),
        in_turn(s, from),
        s.len() > 0,
    ensures
        s[0].going_online,
{
    let plan = sessions_plan(sessions, end);
    let a = from[0];
    assert(s[0] == plan[a]);
    let i = lemma_session_at(sessions, end, a);
    if !s[0].going_online {
        assert(from.contains(a - 1));
        let m = choose|m: int| 0 <= m < from.len() && from[m] == a - 1;
        assert(s[m] == plan[a - 1]);
        assert(s[0].ranks(&s[m]));
    }
}

proof fn lemma_alternate(s: Seq<Transition>, k: int)
    requires
        0 <= k < s.len(),
        s[0].going_online,
        forall|i: int|
            0 <= i < s.len() - 1 ==> (#[trigger] s[i]).going_online != s[i + 1].going_online,
    ensures
        s[k].going_online == (k % 2 == 0),
    decreases k,
{
    if k > 0 {
        lemma_alternate(s, k - 1);
        assert(s[k - 1].going_online != s[k - 1 + 1].going_online);
    }
}

/// A client that is rarely online comes and goes in turn, and comes first, as long as its sessions
/// do not overlap. They may have been drawn in any order: `s` is what they add up to, by time.
pub proof fn law_sessions_alternate(sessions: Seq<(u64, u64)>, end: u64, s: Seq<Transition>)
    requires
        apart(sessions, end),
        is_sorted_form(s, sessions_plan(sessions, end)),
    ensures
        forall|k: int| 0 <= k < s.len() ==> (#[trigger] s[k]).going_online == (k % 2 == 0),
{
    let plan = sessions_plan(sessions, end);
    let from = choose|from: Seq<int>| #[trigger] arranged(s, plan, from) && in_turn(s, from);
    if s.len() > 0 {
        lemma_first_comes(sessions, end, s, from);
        assert forall|i: int| 0 <= i < s.len() - 1 implies (#[trigger] s[i]).going_online != s[i
            + 1].going_online by {
            lemma_neighbours_differ(sessions, end, s, from, i);
        }
        assert forall|k: int| 0 <= k < s.len() implies (#[trigger] s[k]).going_online == (k % 2
            == 0) by {
            lemma_alternate(s, k);
        }
    }
}

/// Whoever has come online of the day-and-night kind is offline when the simulation is over.
pub proof fn law_diurnal_ends_offline(states: Vec<bool>, start: u64, end: u64)
    requires
        start < end,
    ensures
        ({
            let c = cohort_plan(CohortDraws::Diurnal { states }, start, end);
            c.len() % 2 == 0 && (c.len() > 0 ==> !c.last().going_online)
        }),
{
    law_changes_alternate(states@, start);
}

// ---------------------------------------------------------------------------
// Friendships
// ---------------------------------------------------------------------------

/// Whether a request goes out in time.
pub open spec fn in_time(time: Option<u64>, end: u64) -> bool {
    time matches Some(t) && t < end
}

/// How many of the first `n` requests go out in time.
pub open spec fn requests_in_time(times: Seq<Option<u64>>, end: u64, n: nat) -> nat
    decreases n,
{
    if n == 0 {
        0
    } else {
        requests_in_time(times, end, (n - 1) as nat) + if in_time(times[n - 1], end) {
            1nat
        } else {
            0nat
        }
    }
}

/// Whether an event is the request of one peer for the friendship of another.
pub open spec fn is_request(
    e: ScheduledEvent,
    pair: (Seq<char>, Seq<char>),
    time: Option<u64>,
    number: nat,
) -> bool {
    &&& time == Some(e.time)
    &&& e.event_id == number
    &&& e.event matches Event::FriendRequestSend { sender_id, recipient_id } && sender_id@ == pair.0
        && recipient_id@ == pair.1
}

/// The requests that make pending friendships come about, at the times drawn for them; those
/// that would come after the end are left out.
pub fn build_friend_request_events(
    pending: &Vec<(String, String)>,
    times: &Vec<Option<u64>>,
    end: u64,
) -> (r: Vec<ScheduledEvent>)
    requires
        times@.len() == pending@.len(),
    ensures
        r@.len() == requests_in_time(times@, end, times@.len()),
        forall|i: int|
            0 <= i < pending@.len() && in_time(#[trigger] times@[i], end) ==> {
                let n = requests_in_time(times@, end, i as nat);
                n < r@.len() && is_request(r@[n as int], pair_names(pending@)[i], times@[i], n)
            },
{
    let mut out: Vec<ScheduledEvent> = Vec::new();
    let mut i: usize = 0;
    while i < pending.len()
        invariant
            i <= pending@.len(),
            times@.len() == pending@.len(),
            out@.len() <= i,
            out@.len() == requests_in_time(times@, end, i as nat),
            forall|j: int|
                0 <= j < i && in_time(#[trigger] times@[j], end) ==> {
                    let n = requests_in_time(times@, end, j as nat);
                    n < out@.len() && is_request(
                        out@[n as int],
                        pair_names(pending@)[j],
                        times@[j],
                        n,
                    )
                },
        decreases pending@.len() - i,
    {
        let ghost before = out@;
        match times[i] {
            Some(t) => {
                if t < end {
                    let number: u64 = out.len() as u64;
                    out.push(
                        ScheduledEvent {
                            time: t,
                            event: Event::FriendRequestSend {
                                sender_id: pending[i].0.clone(),
                                recipient_id: pending[i].1.clone(),
                            },
                            event_id: number,
                        },
                    );
                }
            },
            None => {},
        }
        proof {
            assert(requests_in_time(times@, end, (i + 1) as nat) == requests_in_time(
                times@,
                end,
                i as nat,
            ) + if in_time(times@[i as int], end) {
                1nat
            } else {
                0nat
            });
            assert forall|j: int| 0 <= j < i + 1 && in_time(#[trigger] times@[j], end) implies {
                let n = requests_in_time(times@, end, j as nat);
                n < out@.len() && is_request(out@[n as int], pair_names(pending@)[j], times@[j], n)
            } by {
                if j < i {
                    let n = requests_in_time(times@, end, j as nat);
                    assert(out@[n as int] == before[n as int]);
                }
            }
        }
        i = i + 1;
    }
    out
}

/// The direct links of a simulation: from every node to each of its friends.
pub fn direct_links(node_ids: &Vec<String>, graph: &KeyedMap<String, Names>) -> (r: Vec<
    (String, String),
>)
    requires
        graph.wf(),
    ensures
        forall|a: Seq<char>, b: Seq<char>| #[trigger]
            pair_names(r@).contains((a, b)) <==> texts(node_ids@).contains(a) && graph@.contains_key(
                a,
            ) && graph@[a].contains(b),
{
    let mut out: Vec<(String, String)> = Vec::new();
    let mut i: usize = 0;
    let ghost names = texts(node_ids@);
    proof {
        assert(pair_names(out@) =~= Seq::empty());
        assert(names.take(0) =~= Seq::empty());
    }
    while i < node_ids.len()
        invariant
            i <= node_ids@.len(),
            names == texts(node_ids@),
            graph.wf(),
            forall|a: Seq<char>, b: Seq<char>| #[trigger]
                pair_names(out@).contains((a, b)) <==> names.take(i as int).contains(a)
                    && graph@.contains_key(a) && graph@[a].contains(b),
        decreases node_ids@.len() - i,
    {
        let ghost me = names[i as int];
        let ghost t = names.take(i as int);
        let ghost before = pair_names(out@);
        assert(me == node_ids@[i as int]@);
        proof {
            assert(names.take(i + 1) =~= t.push(me));
            assert forall|p: Seq<char>| #[trigger] t.push(me).contains(p) <==> t.contains(p) || p == me by {
                if t.contains(p) {
                    let j = choose|j: int| 0 <= j < t.len() && t[j] == p;
                    assert(t.push(me)[j] == p);
                }
                if p == me {
                    assert(t.push(me)[t.len() as int] == p);
                }
            }
        }
        match graph.get(&node_ids[i]) {
            Some(friends) => {
                let ghost fs = graph@[me];
                let mut k: usize = 0;
                proof {
                    assert(fs.take(0) =~= Seq::empty());
                }
                while k < friends.list.len()
                    invariant
                        k <= friends.list@.len(),
                        i < node_ids@.len(),
                        me == node_ids@[i as int]@,
                        texts(friends.list@) == fs,
                        forall|a: Seq<char>, b: Seq<char>| #[trigger]
                            pair_names(out@).contains((a, b)) <==> before.contains((a, b)) || (a
                                == me && fs.take(k as int).contains(b)),
                    decreases friends.list@.len() - k,
                {
                    let ghost o0 = pair_names(out@);
                    let ghost x = friends.list@[k as int]@;
                    let ghost ft = fs.take(k as int);
                    out.push((node_ids[i].clone(), friends.list[k].clone()));
                    proof {
                        let o1 = pair_names(out@);
                        assert(o1 =~= o0.push((me, x)));
                        assert(fs.take(k + 1) =~= ft.push(x));
                        assert forall|a: Seq<char>, b: Seq<char>| #[trigger] o1.contains((a, b)) <==> before.contains(
                            (a, b),
                        ) || (a == me && ft.push(x).contains(b)) by {
                            if o0.contains((a, b)) {
                                let j = choose|j: int| 0 <= j < o0.len() && o0[j] == (a, b);
                                assert(o1[j] == (a, b));
                            }
                            if a == me && b == x {
                                assert(o1[o0.len() as int] == (a, b));
                                assert(ft.push(x)[ft.len() as int] == b);
                            }
                            if ft.contains(b) {
                                let j = choose|j: int| 0 <= j < ft.len() && ft[j] == b;
                                assert(ft.push(x)[j] == b);
                            }
                        }
                    }
                    k = k + 1;
                }
                proof {
                    assert(fs.take(k as int) =~= fs);
                }
            },
            None => {},
        }
        i = i + 1;
    }
    proof {
        assert(names.take(i as int) =~= names);
    }
    out
}

// ---------------------------------------------------------------------------
// Cohorts
// ---------------------------------------------------------------------------

/// How many steps the clients of each cohort are online, and of how many.
pub struct CohortTally {
    pub online: KeyedMap<String, usize>,
    pub total: KeyedMap<String, usize>,
}

/// How many entries of a schedule are online.
pub open spec fn online_steps(schedule: Seq<bool>) -> nat
    decreases schedule.len(),
{
    if schedule.len() == 0 {
        0
    } else {
        online_steps(schedule.drop_last()) + if schedule.last() {
            1nat
        } else {
            0nat
        }
    }
}

/// A count once `n` has been added under a name.
pub open spec fn counted(m: Map<Seq<char>, usize>, name: Seq<char>, n: nat) -> Map<Seq<char>, usize> {
    m.insert(
        name,
        sat_add(
            if m.contains_key(name) {
                m[name]
            } else {
                0
            },
            n as int,
        ),
    )
}

fn count_up(m: &mut KeyedMap<String, usize>, name: &String, n: usize)
    requires
        old(m).wf(),
    ensures
        final(m).wf(),
        final(m)@ == counted(old(m)@, name@, n as nat),
{
    let before: usize = match m.get(name) {
        Some(c) => *c,
        None => 0,
    };
    m.insert(name.clone(), before.saturating_add(n));
}

impl CohortTally {
    pub open spec fn wf(&self) -> bool {
        self.online.wf() && self.total.wf()
    }

    pub fn new() -> (r: Self)
        ensures
            r.wf(),
            r.online@ == Map::<Seq<char>, usize>::empty(),
            r.total@ == Map::<Seq<char>, usize>::empty(),
    {
        CohortTally { online: KeyedMap::new(), total: KeyedMap::new() }
    }

    /// Takes in the schedule of a client of a cohort.
    pub fn count(&mut self, cohort: &String, schedule: &Vec<bool>)
        requires
            old(self).wf(),
        ensures
            final(self).wf(),
            final(self).online@ == counted(old(self).online@, cohort@, online_steps(schedule@)),
            final(self).total@ == counted(old(self).total@, cohort@, schedule@.len()),
    {
        let mut n: usize = 0;
        let mut i: usize = 0;
        proof {
            assert(schedule@.take(0) =~= Seq::empty());
        }
        while i < schedule.len()
            invariant
                i <= schedule@.len(),
                n <= i,
                n == online_steps(schedule@.take(i as int)),
            decreases schedule@.len() - i,
        {
            proof {
                assert(schedule@.take(i + 1).drop_last() =~= schedule@.take(i as int));
                assert(schedule@.take(i + 1).last() == schedule@[i as int]);
            }
            if schedule[i] {
                n = n + 1;
            }
            i = i + 1;
        }
        proof {
            assert(schedule@.take(i as int) =~= schedule@);
        }
        count_up(&mut self.online, cohort, n);
        count_up(&mut self.total, cohort, schedule.len());
    }
}

} // verus!
