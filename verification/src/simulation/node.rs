//! A node of the simulated network: when it is online and what it has received.
use vstd::prelude::*;
use vstd::string::*;

use crate::keyed::KeyedMap;
use crate::simulation::message::SimMessage;

verus! {

/// A node of the simulated network.
pub struct Node {
    id: String,
    schedule: Vec<bool>,
    inbox: Vec<SimMessage>,
    seen: KeyedMap<String, bool>,
}

/// What a node holds.
pub struct NodeView {
    pub id: Seq<char>,
    pub schedule: Seq<bool>,
    pub inbox: Seq<SimMessage>,
    pub seen: Set<Seq<char>>,
}

impl View for Node {
    type V = NodeView;

    closed spec fn view(&self) -> NodeView {
        NodeView {
            id: self.id@,
            schedule: self.schedule@,
            inbox: self.inbox@,
            seen: self.seen@.dom(),
        }
    }
}

/// The ids of messages.
pub open spec fn ids_of(ms: Seq<SimMessage>) -> Seq<Seq<char>> {
    ms.map_values(|m: SimMessage| m.id@)
}

impl Node {
    /// What the node has seen is what its inbox holds, and nothing is there twice.
    pub closed spec fn wf(&self) -> bool {
        &&& self.seen.wf()
        &&& ids_of(self@.inbox).no_duplicates()
        &&& forall|id: Seq<char>| #[trigger]
            self@.seen.contains(id) <==> ids_of(self@.inbox).contains(id)
    }

    /// A node that has received nothing.
    pub fn new(id: &str, schedule: Vec<bool>) -> (r: Self)
        ensures
            r.wf(),
            r@.id == id@,
            r@.schedule == schedule@,
            r@.inbox == Seq::<SimMessage>::empty(),
            r@.seen == Set::<Seq<char>>::empty(),
    {
        let r = Node { id: id.to_owned(), schedule, inbox: Vec::new(), seen: KeyedMap::new() };
        proof {
            assert(ids_of(r@.inbox) =~= Seq::empty());
            assert(r@.seen =~= Set::empty());
        }
        r
    }

    /// Whether the node is online at a step; never beyond its schedule.
    pub fn online_at(&self, step: usize) -> (r: bool)
        ensures
            r == (step < self@.schedule.len() && self@.schedule[step as int]),
    {
        step < self.schedule.len() && self.schedule[step]
    }

    /// Keeps a message that has not been seen, and says whether it was new.
    pub fn receive(&mut self, message: SimMessage) -> (r: bool)
        requires
            old(self).wf(),
        ensures
            final(self).wf(),
            r == !old(self)@.seen.contains(message.id@),
            final(self)@ == (if old(self)@.seen.contains(message.id@) {
                old(self)@
            } else {
                NodeView {
                    inbox: old(self)@.inbox.push(message),
                    seen: old(self)@.seen.insert(message.id@),
                    ..old(self)@
                }
            }),
    {
        if self.seen.contains_key(&message.id) {
            return false;
        }
        let ghost before = self@;
        let ghost m = message;
        self.seen.insert(message.id.clone(), true);
        self.inbox.push(message);
        proof {
            let ids = ids_of(before.inbox);
            let after = ids_of(self@.inbox);
            assert(after =~= ids.push(m.id@));
            assert(self@.seen =~= before.seen.insert(m.id@));
            assert(!ids.contains(m.id@));
            assert forall|id: Seq<char>| #[trigger]
                self@.seen.contains(id) <==> after.contains(id) by {
                assert(before.seen.contains(id) <==> ids.contains(id));
                if ids.contains(id) {
                    let i = choose|i: int| 0 <= i < ids.len() && ids[i] == id;
                    assert(after[i] == id);
                }
                if id == m.id@ {
                    assert(after[ids.len() as int] == id);
                }
            }
        }
        true
    }
}

/// A node's inbox never holds two messages of the same id.
pub proof fn law_node_receives_once(n: &Node, i: int, j: int)
    requires
        n.wf(),
        0 <= i < j < n@.inbox.len(),
    ensures
        n@.inbox[i].id@ != n@.inbox[j].id@,
{
    let ids = ids_of(n@.inbox);
    assert(ids[i] != ids[j]);
}

} // verus!
