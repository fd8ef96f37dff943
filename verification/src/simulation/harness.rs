//! The clients of a simulation that runs in steps: who is online, what is due, and what commands
//! change.
use vstd::prelude::*;
use vstd::string::*;

use crate::keyed::KeyedMap;
use crate::simulation::client::ClientView;
use crate::simulation::client::ContextView;
use crate::simulation::client::Names;
use crate::simulation::client::SimContext;
use crate::simulation::client::SimulationClient;
use crate::simulation::message::PlannedSend;
use crate::simulation::message::SimMessage;
use crate::simulation::metrics::no_metrics;
use crate::simulation::metrics::sat_add;
use crate::simulation::metrics::summary_of;
use crate::simulation::metrics::CountSummary;
use crate::simulation::metrics::SimulationMetrics;
use crate::simulation::tracker::fresh_tracker;
use crate::simulation::tracker::MetricsTracker;
use crate::text::texts;

verus! {

/// Whether a client is online at a step.
pub open spec fn online_in(c: ClientView, step: usize) -> bool {
    step < c.schedule.len() && c.schedule[step as int]
}

/// Whether `who` is a client that is online at a step.
pub open spec fn is_online(clients: Map<Seq<char>, ClientView>, who: Seq<char>, step: usize) -> bool {
    clients.contains_key(who) && online_in(clients[who], step)
}

/// Whether `who` was online at the step before.
pub open spec fn was_online(previous: Map<Seq<char>, bool>, who: Seq<char>) -> bool {
    previous.contains_key(who) && previous[who]
}

/// The sends of a plan that fall on a step and whose sender is online then.
pub open spec fn is_due(clients: Map<Seq<char>, ClientView>, step: usize) -> spec_fn(
    PlannedSend,
) -> bool {
    |p: PlannedSend| p.step == step && is_online(clients, p.message.sender@, step)
}

/// Who was online, once a step is over.
pub open spec fn next_previous(
    clients: Map<Seq<char>, ClientView>,
    previous: Map<Seq<char>, bool>,
    step: usize,
) -> Map<Seq<char>, bool> {
    Map::new(
        |p: Seq<char>| previous.contains_key(p) || is_online(clients, p, step),
        |p: Seq<char>| is_online(clients, p, step),
    )
}

/// What happens in a step.
pub struct StepPlan {
    /// Messages to be sent.
    pub due: Vec<SimMessage>,
    /// Who is online.
    pub online: Vec<String>,
    /// Who has come online.
    pub newly_online: Vec<String>,
    /// Who has gone offline.
    pub gone_offline: Vec<String>,
}

/// The clients of a step-based simulation and what they share.
pub struct SimulationHarness {
    pub clients: KeyedMap<String, SimulationClient>,
    pub ctx: SimContext,
    pub previous_online: KeyedMap<String, bool>,
}

/// A change to a running simulation.
pub enum SimulationControlCommand {
    AddPeer { client: SimulationClient },
    AddFriendship { peer_a: String, peer_b: String },
    SetPaused { paused: bool },
    Stop,
}

/// Whether the neighbours of each peer are those to whom it has a direct link.
pub open spec fn neighbors_match_links(c: ContextView) -> bool {
    forall|a: Seq<char>, b: Seq<char>| #[trigger]
        c.links.contains_key((a, b)) <==> c.neighbors.contains_key(a) && c.neighbors[a].contains(b)
}

/// The shared state once a direct link has been added.
pub open spec fn linked(c: ContextView, a: Seq<char>, b: Seq<char>) -> ContextView {
    if c.links.contains_key((a, b)) {
        c
    } else {
        ContextView {
            links: c.links.insert((a, b), true),
            neighbors: c.neighbors.insert(
                a,
                (if c.neighbors.contains_key(a) {
                    c.neighbors[a]
                } else {
                    Seq::empty()
                }).push(b),
            ),
            ..c
        }
    }
}

/// The shared state once two peers have become friends: a link each way.
pub open spec fn befriended(c: ContextView, a: Seq<char>, b: Seq<char>) -> ContextView {
    linked(linked(c, a, b), b, a)
}

/// Adds a direct link.
fn add_link(ctx: &mut SimContext, a: &String, b: &String)
    requires
        old(ctx).wf(),
    ensures
        final(ctx).wf(),
        final(ctx)@ == linked(old(ctx)@, a@, b@),
{
    let ghost before = ctx@;
    let key = (a.clone(), b.clone());
    if ctx.direct_links.contains_key(&key) {
        return;
    }
    ctx.direct_links.insert(key, true);
    let mut list: Vec<String> = match ctx.neighbors.remove(a) {
        Some(n) => n.list,
        None => Vec::new(),
    };
    let ghost l0 = texts(list@);
    list.push(b.clone());
    proof {
        assert(texts(list@) =~= l0.push(b@));
        if !before.neighbors.contains_key(a@) {
            assert(l0 =~= Seq::empty());
        }
    }
    ctx.neighbors.insert(a.clone(), Names { list });
    proof {
        assert(ctx@.neighbors =~= linked(before, a@, b@).neighbors);
    }
}

/// Two peers that have become friends are linked both ways.
pub proof fn law_friendship_is_mutual(c: ContextView, a: Seq<char>, b: Seq<char>)
    ensures
        befriended(c, a, b).links.contains_key((a, b)),
        befriended(c, a, b).links.contains_key((b, a)),
        befriended(befriended(c, a, b), a, b) == befriended(c, a, b),
        forall|k: (Seq<char>, Seq<char>)|
            k != (a, b) && k != (b, a) ==> (#[trigger] befriended(c, a, b).links.contains_key(k)
                == c.links.contains_key(k)),
{
}

/// Adding a link keeps neighbours and links in step.
pub proof fn law_links_keep_neighbors(c: ContextView, a: Seq<char>, b: Seq<char>)
    requires
        neighbors_match_links(c),
    ensures
        neighbors_match_links(linked(c, a, b)),
        neighbors_match_links(befriended(c, a, b)),
{
    lemma_linked_matches(c, a, b);
    lemma_linked_matches(linked(c, a, b), b, a);
}

proof fn lemma_linked_matches(c: ContextView, a: Seq<char>, b: Seq<char>)
    requires
        neighbors_match_links(c),
    ensures
        neighbors_match_links(linked(c, a, b)),
{
    let d = linked(c, a, b);
    if !c.links.contains_key((a, b)) {
        let old_list = if c.neighbors.contains_key(a) {
            c.neighbors[a]
        } else {
            Seq::empty()
        };
        assert forall|x: Seq<char>, y: Seq<char>| #[trigger]
            d.links.contains_key((x, y)) <==> d.neighbors.contains_key(x)
                && d.neighbors[x].contains(y) by {
            assert(c.links.contains_key((x, y)) <==> c.neighbors.contains_key(x)
                && c.neighbors[x].contains(y));
            if x == a {
                let new_list = old_list.push(b);
                assert(new_list[old_list.len() as int] == b);
                if old_list.contains(y) {
                    let i = choose|i: int| 0 <= i < old_list.len() && old_list[i] == y;
                    assert(new_list[i] == y);
                }
                if new_list.contains(y) {
                    let i = choose|i: int| 0 <= i < new_list.len() && new_list[i] == y;
                    if i < old_list.len() {
                        assert(old_list[i] == y);
                        assert(old_list.contains(y));
                    }
                }
            }
        }
    }
}

/// What clients share when nothing has happened.
pub open spec fn fresh_context(direct_enabled: bool) -> ContextView {
    ContextView {
        direct_enabled,
        links: Map::empty(),
        neighbors: Map::empty(),
        history: Map::empty(),
        send_steps: Map::empty(),
        forwarded: Map::empty(),
        metrics: no_metrics(),
        tracker: fresh_tracker(),
    }
}

/// Clients by id; of several with one id the last counts.
pub open spec fn clients_by_id(clients: Seq<SimulationClient>) -> Map<Seq<char>, ClientView>
    decreases clients.len(),
{
    if clients.len() == 0 {
        Map::empty()
    } else {
        clients_by_id(clients.drop_last()).insert(clients.last()@.id, clients.last()@)
    }
}

/// The shared state once direct links have been added in turn.
pub open spec fn all_linked(c: ContextView, links: Seq<(String, String)>) -> ContextView
    decreases links.len(),
{
    if links.len() == 0 {
        c
    } else {
        linked(all_linked(c, links.drop_last()), links.last().0@, links.last().1@)
    }
}

/// A harness's neighbours are those to whom there is a direct link, from the start.
pub proof fn law_new_links_match_neighbors(direct_enabled: bool, links: Seq<(String, String)>)
    ensures
        neighbors_match_links(all_linked(fresh_context(direct_enabled), links)),
    decreases links.len(),
{
    if links.len() > 0 {
        law_new_links_match_neighbors(direct_enabled, links.drop_last());
        law_links_keep_neighbors(
            all_linked(fresh_context(direct_enabled), links.drop_last()),
            links.last().0@,
            links.last().1@,
        );
    }
}

/// A client whose maps are in order.
pub open spec fn client_in_order() -> spec_fn(SimulationClient) -> bool {
    |c: SimulationClient| c.wf()
}

impl SimulationHarness {
    pub open spec fn wf(&self) -> bool {
        &&& self.clients.wf()
        &&& self.clients.all(client_in_order())
        &&& self.ctx.wf()
        &&& self.previous_online.wf()
    }

    /// Whether `after` is what this harness becomes when a client joins: one that has not been
    /// there before starts offline and without friends, and any other changes nothing.
    pub open spec fn admits(&self, client: SimulationClient, after: &SimulationHarness) -> bool {
        let id = client@.id;
        if self.clients@.contains_key(id) {
            *after == *self
        } else {
            &&& after.clients@ == self.clients@.insert(id, client@)
            &&& after.previous_online@ == (if self.previous_online@.contains_key(id) {
                self.previous_online@
            } else {
                self.previous_online@.insert(id, false)
            })
            &&& after.ctx@ == (ContextView {
                neighbors: if self.ctx@.neighbors.contains_key(id) {
                    self.ctx@.neighbors
                } else {
                    self.ctx@.neighbors.insert(id, Seq::empty())
                },
                ..self.ctx@
            })
        }
    }

    /// A harness of the given clients and direct links; nobody has been online yet.
    pub fn new(
        clients: Vec<SimulationClient>,
        direct_links: &Vec<(String, String)>,
        direct_enabled: bool,
    ) -> (r: Self)
        requires
            forall|i: int| 0 <= i < clients@.len() ==> (#[trigger] clients@[i]).wf(),
        ensures
            r.wf(),
            r.clients@ == clients_by_id(clients@),
            r.ctx@ == all_linked(fresh_context(direct_enabled), direct_links@),
            r.previous_online@ == Map::new(
                |p: Seq<char>| clients_by_id(clients@).contains_key(p),
                |p: Seq<char>| false,
            ),
    {
        let ghost all = clients@;
        let ghost fresh = fresh_context(direct_enabled);
        let mut ctx = SimContext {
            direct_enabled,
            direct_links: KeyedMap::new(),
            neighbors: KeyedMap::new(),
            message_history: KeyedMap::new(),
            message_send_steps: KeyedMap::new(),
            pending_forwarded_messages: KeyedMap::new(),
            metrics: SimulationMetrics::zero(),
            tracker: MetricsTracker::new(),
        };
        let mut i: usize = 0;
        proof {
            assert(direct_links@.take(0) =~= Seq::empty());
        }
        while i < direct_links.len()
            invariant
                i <= direct_links@.len(),
                ctx.wf(),
                ctx@ == all_linked(fresh, direct_links@.take(i as int)),
            decreases direct_links@.len() - i,
        {
            proof {
                assert(direct_links@.take(i + 1).drop_last() =~= direct_links@.take(i as int));
                assert(direct_links@.take(i + 1).last() == direct_links@[i as int]);
            }
            let link = &direct_links[i];
            add_link(&mut ctx, &link.0, &link.1);
            i = i + 1;
        }
        proof {
            assert(direct_links@.take(i as int) =~= direct_links@);
            assert(all.take(0) =~= Seq::empty());
        }
        let mut by_id: KeyedMap<String, SimulationClient> = KeyedMap::new();
        let mut previous_online: KeyedMap<String, bool> = KeyedMap::new();
        let mut rest = clients;
        let mut done: usize = 0;
        let total: usize = rest.len();
        proof {
            assert(all.skip(0) =~= all);
            assert(previous_online@ =~= Map::new(
                |p: Seq<char>| clients_by_id(all.take(0)).contains_key(p),
                |p: Seq<char>| false,
            ));
            assert(by_id.all(client_in_order()));
        }
        while done < total
            invariant
                done <= total,
                total == all.len(),
                rest@ == all.skip(done as int),
                forall|i: int| 0 <= i < all.len() ==> (#[trigger] all[i]).wf(),
                by_id.wf(),
                by_id.all(client_in_order()),
                by_id@ == clients_by_id(all.take(done as int)),
                previous_online.wf(),
                previous_online@ == Map::new(
                    |p: Seq<char>| clients_by_id(all.take(done as int)).contains_key(p),
                    |p: Seq<char>| false,
                ),
            decreases total - done,
        {
            let c = rest.remove(0);
            proof {
                assert(c == all[done as int]);
                assert(rest@ =~= all.skip(done + 1));
                assert(all.take(done + 1).drop_last() =~= all.take(done as int));
                assert(all.take(done + 1).last() == c);
            }
            let id = c.id.clone();
            by_id.insert(id.clone(), c);
            assert(by_id.all(client_in_order()));
            previous_online.insert(id, false);
            proof {
                assert(previous_online@ =~= Map::new(
                    |p: Seq<char>| clients_by_id(all.take(done + 1)).contains_key(p),
                    |p: Seq<char>| false,
                ));
            }
            done = done + 1;
        }
        proof {
            assert(all.take(done as int) =~= all);
        }
        SimulationHarness { clients: by_id, ctx, previous_online }
    }

    /// Notes how many messages a run is to send.
    pub fn plan(&mut self, planned: usize)
        requires
            old(self).wf(),
        ensures
            final(self).wf(),
            final(self).clients == old(self).clients,
            final(self).previous_online == old(self).previous_online,
            final(self).ctx@ == (ContextView {
                metrics: SimulationMetrics {
                    planned_messages: planned,
                    ..old(self).ctx@.metrics
                },
                ..old(self).ctx@
            }),
    {
        self.ctx.metrics.planned_messages = planned;
    }

    /// How many clients there are.
    pub fn total_nodes(&self) -> (r: usize)
        ensures
            r == self.clients.count(),
    {
        self.clients.len()
    }

    /// Whether a peer is a client that is online at a step.
    pub fn online_at(&self, who: &String, step: usize) -> (r: bool)
        requires
            self.wf(),
        ensures
            r == is_online(self.clients@, who@, step),
    {
        match self.clients.get(who) {
            Some(c) => c.online_at(step),
            None => false,
        }
    }

    /// Who is online at a step.
    pub fn online_ids(&self, step: usize) -> (r: Vec<String>)
        requires
            self.wf(),
        ensures
            texts(r@).no_duplicates(),
            forall|p: Seq<char>| #[trigger]
                texts(r@).contains(p) <==> is_online(self.clients@, p, step),
    {
        let mut keep: Vec<bool> = Vec::new();
        let mut i: usize = 0;
        proof {
            self.clients.lemma_entries();
        }
        while i < self.clients.len()
            invariant
                self.wf(),
                i <= self.clients.count(),
                keep@.len() == i,
                forall|j: int|
                    0 <= j < i ==> #[trigger] keep@[j] == online_in(
                        self.clients@[self.clients.name_at(j)],
                        step,
                    ),
            decreases self.clients.count() - i,
        {
            let c = self.clients.value_at(i);
            keep.push(c.online_at(step));
            i = i + 1;
        }
        let r = self.clients.names_marked(&keep);
        proof {
            assert forall|p: Seq<char>| #[trigger]
                texts(r@).contains(p) <==> is_online(self.clients@, p, step) by {
                if is_online(self.clients@, p, step) {
                    let j = choose|j: int|
                        0 <= j < self.clients.count() && #[trigger] self.clients.name_at(j) == p;
                    assert(keep@[j]);
                    assert(self.clients.marked(keep@, p));
                }
                if self.clients.marked(keep@, p) {
                    let j = choose|j: int|
                        0 <= j < self.clients.count() && keep@[j]
                            && #[trigger] self.clients.name_at(j) == p;
                    assert(self.clients@.contains_key(self.clients.name_at(j)));
                }
            }
        }
        r
    }

    /// Who is online at a step but was not at the step before.
    fn newly_online(&self, step: usize) -> (r: Vec<String>)
        requires
            self.wf(),
        ensures
            texts(r@).no_duplicates(),
            forall|p: Seq<char>| #[trigger]
                texts(r@).contains(p) <==> is_online(self.clients@, p, step) && !was_online(
                    self.previous_online@,
                    p,
                ),
    {
        let mut keep: Vec<bool> = Vec::new();
        let mut i: usize = 0;
        proof {
            self.clients.lemma_entries();
        }
        while i < self.clients.len()
            invariant
                self.wf(),
                i <= self.clients.count(),
                keep@.len() == i,
                forall|j: int|
                    0 <= j < i ==> #[trigger] keep@[j] == (online_in(
                        self.clients@[self.clients.name_at(j)],
                        step,
                    ) && !was_online(self.previous_online@, self.clients.name_at(j))),
            decreases self.clients.count() - i,
        {
            let key = self.clients.key_at(i);
            let c = self.clients.value_at(i);
            let before = match self.previous_online.get(key) {
                Some(b) => *b,
                None => false,
            };
            keep.push(c.online_at(step) && !before);
            i = i + 1;
        }
        let r = self.clients.names_marked(&keep);
        proof {
            assert forall|p: Seq<char>| #[trigger]
                texts(r@).contains(p) <==> is_online(self.clients@, p, step) && !was_online(
                    self.previous_online@,
                    p,
                ) by {
                if is_online(self.clients@, p, step) && !was_online(self.previous_online@, p) {
                    let j = choose|j: int|
                        0 <= j < self.clients.count() && #[trigger] self.clients.name_at(j) == p;
                    assert(keep@[j]);
                    assert(self.clients.marked(keep@, p));
                }
                if self.clients.marked(keep@, p) {
                    let j = choose|j: int|
                        0 <= j < self.clients.count() && keep@[j]
                            && #[trigger] self.clients.name_at(j) == p;
                    assert(self.clients@.contains_key(self.clients.name_at(j)));
                }
            }
        }
        r
    }

    /// Who was online at the step before but is not at this one.
    fn gone_offline(&self, step: usize) -> (r: Vec<String>)
        requires
            self.wf(),
        ensures
            texts(r@).no_duplicates(),
            forall|p: Seq<char>| #[trigger]
                texts(r@).contains(p) <==> was_online(self.previous_online@, p) && !is_online(
                    self.clients@,
                    p,
                    step,
                ),
    {
        let prev = &self.previous_online;
        let mut keep: Vec<bool> = Vec::new();
        let mut i: usize = 0;
        proof {
            prev.lemma_entries();
        }
        while i < prev.len()
            invariant
                self.wf(),
                *prev == self.previous_online,
                i <= prev.count(),
                keep@.len() == i,
                forall|j: int|
                    0 <= j < i ==> #[trigger] keep@[j] == (prev@[prev.name_at(j)] && !is_online(
                        self.clients@,
                        prev.name_at(j),
                        step,
                    )),
            decreases prev.count() - i,
        {
            let key = prev.key_at(i);
            let before: bool = *prev.value_at(i);
            keep.push(before && !self.online_at(key, step));
            i = i + 1;
        }
        let r = prev.names_marked(&keep);
        proof {
            assert forall|p: Seq<char>| #[trigger]
                texts(r@).contains(p) <==> was_online(prev@, p) && !is_online(
                    self.clients@,
                    p,
                    step,
                ) by {
                if was_online(prev@, p) && !is_online(self.clients@, p, step) {
                    let j = choose|j: int| 0 <= j < prev.count() && #[trigger] prev.name_at(j) == p;
                    assert(keep@[j]);
                    assert(prev.marked(keep@, p));
                }
                if prev.marked(keep@, p) {
                    let j = choose|j: int|
                        0 <= j < prev.count() && keep@[j] && #[trigger] prev.name_at(j) == p;
                    assert(prev@.contains_key(prev.name_at(j)));
                }
            }
        }
        r
    }

    /// The messages of a plan that are to be sent at a step.
    pub fn sends_due(&self, plan: &Vec<PlannedSend>, step: usize) -> (r: Vec<SimMessage>)
        requires
            self.wf(),
        ensures
            r@ == plan@.filter(is_due(self.clients@, step)).map_values(
                |p: PlannedSend| p.message,
            ),
    {
        let mut out: Vec<SimMessage> = Vec::new();
        let mut i: usize = 0;
        let ghost f = is_due(self.clients@, step);
        let ghost pick = |p: PlannedSend| p.message;
        proof {
            reveal(Seq::filter);
            assert(plan@.take(0) =~= Seq::empty());
            assert(plan@.take(0).filter(f).map_values(pick) =~= Seq::empty());
        }
        while i < plan.len()
            invariant
                self.wf(),
                i <= plan@.len(),
                f == is_due(self.clients@, step),
                pick == (|p: PlannedSend| p.message),
                out@ == plan@.take(i as int).filter(f).map_values(pick),
            decreases plan@.len() - i,
        {
            let p = &plan[i];
            proof {
                reveal(Seq::filter);
                assert(plan@.take(i + 1).drop_last() =~= plan@.take(i as int));
                assert(plan@.take(i + 1).last() == *p);
            }
            if p.step == step && self.online_at(&p.message.sender, step) {
                out.push(p.message.copied());
                proof {
                    let t = plan@.take(i as int).filter(f);
                    assert(t.push(*p).map_values(pick) =~= t.map_values(pick).push(p.message));
                }
            }
            i = i + 1;
        }
        proof {
            assert(plan@.take(i as int) =~= plan@);
        }
        out
    }

    /// Works out what happens in a step.
    pub fn plan_step(&self, plan: &Vec<PlannedSend>, step: usize) -> (r: StepPlan)
        requires
            self.wf(),
        ensures
            r.due@ == plan@.filter(is_due(self.clients@, step)).map_values(
                |p: PlannedSend| p.message,
            ),
            texts(r.online@).no_duplicates(),
            texts(r.newly_online@).no_duplicates(),
            texts(r.gone_offline@).no_duplicates(),
            forall|p: Seq<char>| #[trigger]
                texts(r.online@).contains(p) <==> is_online(self.clients@, p, step),
            forall|p: Seq<char>| #[trigger]
                texts(r.newly_online@).contains(p) <==> is_online(self.clients@, p, step)
                    && !was_online(self.previous_online@, p),
            forall|p: Seq<char>| #[trigger]
                texts(r.gone_offline@).contains(p) <==> was_online(self.previous_online@, p)
                    && !is_online(self.clients@, p, step),
    {
        StepPlan {
            due: self.sends_due(plan, step),
            online: self.online_ids(step),
            newly_online: self.newly_online(step),
            gone_offline: self.gone_offline(step),
        }
    }

    /// Notes who was online, once a step is over, and counts the messages that were sent.
    pub fn finish_step(&mut self, step: usize, sent: usize)
        requires
            old(self).wf(),
        ensures
            final(self).wf(),
            final(self).clients == old(self).clients,
            final(self).previous_online@ == next_previous(
                old(self).clients@,
                old(self).previous_online@,
                step,
            ),
            final(self).ctx@ == (ContextView {
                metrics: SimulationMetrics {
                    sent_messages: sat_add(old(self).ctx@.metrics.sent_messages, sent as int),
                    ..old(self).ctx@.metrics
                },
                ..old(self).ctx@
            }),
    {
        let ghost before = self.previous_online@;
        let ghost clients = self.clients@;
        let online = self.online_ids(step);
        let gone = self.gone_offline(step);
        let mut i: usize = 0;
        while i < online.len()
            invariant
                i <= online@.len(),
                self.previous_online.wf(),
                forall|p: Seq<char>| #[trigger]
                    self.previous_online@.contains_key(p) <==> before.contains_key(p) || texts(
                        online@,
                    ).take(i as int).contains(p),
                forall|p: Seq<char>| #[trigger]
                    self.previous_online@.contains_key(p) ==> self.previous_online@[p] == (texts(
                        online@,
                    ).take(i as int).contains(p) || before[p]),
                self.clients == old(self).clients,
                self.ctx == old(self).ctx,
            decreases online@.len() - i,
        {
            let ghost prior = self.previous_online@;
            let ghost t = texts(online@).take(i as int);
            let ghost t2 = texts(online@).take(i + 1);
            self.previous_online.insert(online[i].clone(), true);
            proof {
                assert(t2 =~= t.push(online@[i as int]@));
                assert forall|p: Seq<char>| t2.contains(p) == (t.contains(p) || p
                    == online@[i as int]@) by {
                    if t.contains(p) {
                        let j = choose|j: int| 0 <= j < t.len() && t[j] == p;
                        assert(t2[j] == p);
                    }
                    if p == online@[i as int]@ {
                        assert(t2[t.len() as int] == p);
                    }
                }
            }
            i = i + 1;
        }
        proof {
            assert(texts(online@).take(i as int) =~= texts(online@));
        }
        let ghost mid = self.previous_online@;
        let mut k: usize = 0;
        while k < gone.len()
            invariant
                k <= gone@.len(),
                self.previous_online.wf(),
                forall|p: Seq<char>| #[trigger]
                    texts(gone@).contains(p) <==> was_online(before, p) && !is_online(
                        clients,
                        p,
                        step,
                    ),
                forall|p: Seq<char>| #[trigger]
                    mid.contains_key(p) <==> before.contains_key(p) || is_online(clients, p, step),
                forall|p: Seq<char>| #[trigger]
                    self.previous_online@.contains_key(p) <==> mid.contains_key(p),
                forall|p: Seq<char>| #[trigger]
                    self.previous_online@.contains_key(p) ==> self.previous_online@[p] == (mid[p]
                        && !texts(gone@).take(k as int).contains(p)),
                self.clients == old(self).clients,
                self.ctx == old(self).ctx,
            decreases gone@.len() - k,
        {
            let ghost t = texts(gone@).take(k as int);
            let ghost t2 = texts(gone@).take(k + 1);
            let ghost g = gone@[k as int]@;
            proof {
                assert(texts(gone@)[k as int] == g);
                assert(texts(gone@).contains(g));
                assert(was_online(before, g));
                assert(mid.contains_key(g));
            }
            self.previous_online.insert(gone[k].clone(), false);
            proof {
                assert(t2 =~= t.push(g));
                assert forall|p: Seq<char>| t2.contains(p) == (t.contains(p) || p == g) by {
                    if t.contains(p) {
                        let j = choose|j: int| 0 <= j < t.len() && t[j] == p;
                        assert(t2[j] == p);
                    }
                    if p == g {
                        assert(t2[t.len() as int] == p);
                    }
                }
            }
            k = k + 1;
        }
        proof {
            assert(texts(gone@).take(k as int) =~= texts(gone@));
            assert(self.previous_online@ =~= next_previous(clients, before, step));
        }
        self.ctx.metrics.sent_messages = self.ctx.metrics.sent_messages.saturating_add(sent);
    }

    /// Adds a client that has not been there before; it starts offline and without friends.
    pub fn add_peer(&mut self, client: SimulationClient)
        requires
            old(self).wf(),
            client.wf(),
        ensures
            final(self).wf(),
            old(self).admits(client, final(self)),
    {
        if self.clients.contains_key(&client.id) {
            return;
        }
        let id = client.id.clone();
        if !self.ctx.neighbors.contains_key(&id) {
            let none: Vec<String> = Vec::new();
            proof {
                assert(texts(none@) =~= Seq::empty());
            }
            self.ctx.neighbors.insert(id.clone(), Names { list: none });
        }
        if !self.previous_online.contains_key(&id) {
            self.previous_online.insert(id.clone(), false);
        }
        self.clients.insert(id, client);
        assert(self.clients.all(client_in_order()));
    }

    /// Makes two clients friends; nothing happens where one of them does not exist.
    pub fn add_friendship(&mut self, peer_a: &String, peer_b: &String)
        requires
            old(self).wf(),
        ensures
            final(self).wf(),
            final(self).clients == old(self).clients,
            final(self).previous_online == old(self).previous_online,
            final(self).ctx@ == (if old(self).clients@.contains_key(peer_a@) && old(
                self,
            ).clients@.contains_key(peer_b@) {
                befriended(old(self).ctx@, peer_a@, peer_b@)
            } else {
                old(self).ctx@
            }),
    {
        if self.clients.contains_key(peer_a) && self.clients.contains_key(peer_b) {
            add_link(&mut self.ctx, peer_a, peer_b);
            add_link(&mut self.ctx, peer_b, peer_a);
        }
    }

    /// The messages in a client's inbox, counted.
    fn inbox_len(&self, who: &String) -> (r: usize)
        requires
            self.wf(),
        ensures
            r == feed_of(self.clients@, who@),
    {
        match self.clients.get(who) {
            Some(c) => c.inbox.len(),
            None => 0,
        }
    }

    /// The envelopes that a client keeps for others, counted.
    fn stored_len(&self, who: &String) -> (r: usize)
        requires
            self.wf(),
        ensures
            r == kept_by(self.clients@, who@),
    {
        match self.clients.get(who) {
            Some(c) => c.stored_forwards.len(),
            None => 0,
        }
    }

    /// Sums up, over the given peers, how many messages each has received.
    pub fn feed_summary(&self, peer_ids: &Vec<String>) -> (r: CountSummary)
        requires
            self.wf(),
        ensures
            r == summary_of(
                texts(peer_ids@).map_values(|p: Seq<char>| feed_of(self.clients@, p)),
            ),
    {
        let mut counts: Vec<usize> = Vec::new();
        let mut i: usize = 0;
        let ghost f = |p: Seq<char>| feed_of(self.clients@, p);
        while i < peer_ids.len()
            invariant
                self.wf(),
                i <= peer_ids@.len(),
                f == (|p: Seq<char>| feed_of(self.clients@, p)),
                counts@ == texts(peer_ids@).take(i as int).map_values(f),
            decreases peer_ids@.len() - i,
        {
            proof {
                let t = texts(peer_ids@);
                assert(t.take(i + 1) =~= t.take(i as int).push(t[i as int]));
                assert(t.take(i + 1).map_values(f) =~= t.take(i as int).map_values(f).push(
                    f(t[i as int]),
                ));
            }
            counts.push(self.inbox_len(&peer_ids[i]));
            i = i + 1;
        }
        proof {
            assert(texts(peer_ids@).take(i as int) =~= texts(peer_ids@));
        }
        CountSummary::from_counts(&counts)
    }

    /// Sums up, over the given peers, how many envelopes each keeps for others.
    pub fn stored_summary(&self, peer_ids: &Vec<String>) -> (r: CountSummary)
        requires
            self.wf(),
        ensures
            r == summary_of(
                texts(peer_ids@).map_values(|p: Seq<char>| kept_by(self.clients@, p)),
            ),
    {
        let mut counts: Vec<usize> = Vec::new();
        let mut i: usize = 0;
        let ghost f = |p: Seq<char>| kept_by(self.clients@, p);
        while i < peer_ids.len()
            invariant
                self.wf(),
                i <= peer_ids@.len(),
                f == (|p: Seq<char>| kept_by(self.clients@, p)),
                counts@ == texts(peer_ids@).take(i as int).map_values(f),
            decreases peer_ids@.len() - i,
        {
            proof {
                let t = texts(peer_ids@);
                assert(t.take(i + 1) =~= t.take(i as int).push(t[i as int]));
                assert(t.take(i + 1).map_values(f) =~= t.take(i as int).map_values(f).push(
                    f(t[i as int]),
                ));
            }
            counts.push(self.stored_len(&peer_ids[i]));
            i = i + 1;
        }
        proof {
            assert(texts(peer_ids@).take(i as int) =~= texts(peer_ids@));
        }
        CountSummary::from_counts(&counts)
    }
}

/// How many messages `who` has received.
pub open spec fn feed_of(clients: Map<Seq<char>, ClientView>, who: Seq<char>) -> usize {
    if clients.contains_key(who) {
        clients[who].inbox.len() as usize
    } else {
        0
    }
}

/// How many envelopes `who` keeps for others.
pub open spec fn kept_by(clients: Map<Seq<char>, ClientView>, who: Seq<char>) -> usize {
    if clients.contains_key(who) {
        clients[who].stored.len() as usize
    } else {
        0
    }
}

/// How far a step-based run has come.
#[derive(Clone, Copy, Debug, PartialEq, Eq, Structural)]
pub struct RunState {
    pub step: usize,
    pub steps: usize,
    pub paused: bool,
    pub stop_requested: bool,
}

/// What a run does next.
#[derive(Clone, Copy, Debug, PartialEq, Eq, Structural)]
pub enum RunAction {
    /// Simulate the current step.
    Step,
    /// Wait a moment and look for commands again.
    Wait,
    /// The run is over.
    Finish,
}

impl RunState {
    pub fn new(steps: usize) -> (r: Self)
        ensures
            r == (RunState { step: 0, steps, paused: false, stop_requested: false }),
    {
        RunState { step: 0, steps, paused: false, stop_requested: false }
    }

    /// What to do next: nothing after the last step or once a stop was requested, wait while
    /// paused, and simulate the step otherwise.
    pub fn next_action(&self) -> (r: RunAction)
        ensures
            r == (if self.step >= self.steps || self.stop_requested {
                RunAction::Finish
            } else if self.paused {
                RunAction::Wait
            } else {
                RunAction::Step
            }),
    {
        if self.step >= self.steps || self.stop_requested {
            RunAction::Finish
        } else if self.paused {
            RunAction::Wait
        } else {
            RunAction::Step
        }
    }

    /// Goes on to the next step.
    pub fn advance(&mut self)
        requires
            old(self).step < old(self).steps,
        ensures
            *final(self) == (RunState { step: (old(self).step + 1) as usize, ..*old(self) }),
    {
        self.step = self.step + 1;
    }

    /// Obeys a command.
    pub fn obey(&mut self, command: SimulationControlCommand, harness: &mut SimulationHarness)
        requires
            old(harness).wf(),
            command matches SimulationControlCommand::AddPeer { client } ==> client.wf(),
        ensures
            final(harness).wf(),
            match command {
                SimulationControlCommand::SetPaused { paused } => {
                    *final(self) == (RunState { paused, ..*old(self) }) && *final(harness) == *old(
                        harness,
                    )
                },
                SimulationControlCommand::Stop => {
                    *final(self) == (RunState { stop_requested: true, ..*old(self) })
                        && *final(harness) == *old(harness)
                },
                SimulationControlCommand::AddPeer { client } => {
                    *final(self) == *old(self) && old(harness).admits(client, final(harness))
                },
                SimulationControlCommand::AddFriendship { peer_a, peer_b } => {
                    &&& *final(self) == *old(self)
                    &&& final(harness).clients == old(harness).clients
                    &&& final(harness).previous_online == old(harness).previous_online
                    &&& final(harness).ctx@ == (if old(harness).clients@.contains_key(peer_a@)
                        && old(harness).clients@.contains_key(peer_b@) {
                        befriended(old(harness).ctx@, peer_a@, peer_b@)
                    } else {
                        old(harness).ctx@
                    })
                },
            },
    {
        match command {
            SimulationControlCommand::SetPaused { paused } => {
                self.paused = paused;
            },
            SimulationControlCommand::Stop => {
                self.stop_requested = true;
            },
            SimulationControlCommand::AddPeer { client } => {
                harness.add_peer(client);
            },
            SimulationControlCommand::AddFriendship { peer_a, peer_b } => {
                harness.add_friendship(&peer_a, &peer_b);
            },
        }
    }
}

} // verus!
