//! Groups of a simulation and who is in them.
use vstd::prelude::*;
use vstd::string::*;

use rand_chacha::ChaCha8Rng;

use crate::simulation::config::GroupMembershipsPerNode;
use crate::simulation::random::distinct;
use crate::simulation::random::draw;
use crate::simulation::random::draw_names;
use crate::simulation::random::left_out;
use crate::text::contains;
use crate::text::decimal;
use crate::text::texts;
use crate::text::to_decimal;

verus! {

/// A group of a simulation.
pub struct SimGroup {
    pub group_id: String,
    pub members: Vec<String>,
    pub creator_id: String,
}

/// The members of each group.
pub open spec fn member_lists(gs: Seq<SimGroup>) -> Seq<Seq<Seq<char>>> {
    gs.map_values(|g: SimGroup| texts(g.members@))
}

/// Of how many groups `node` is a member.
pub open spec fn memberships(gs: Seq<Seq<Seq<char>>>, node: Seq<char>) -> nat
    decreases gs.len(),
{
    if gs.len() == 0 {
        0
    } else {
        memberships(gs.drop_last(), node) + if gs.last().contains(node) {
            1nat
        } else {
            0nat
        }
    }
}

/// Whether `next` is `prev` with no group renamed, founded anew or left by anybody.
pub open spec fn grown(prev: Seq<SimGroup>, next: Seq<SimGroup>) -> bool {
    &&& next.len() == prev.len()
    &&& forall|i: int|
        #![trigger next[i]]
        0 <= i < next.len() ==> {
            &&& next[i].group_id == prev[i].group_id
            &&& next[i].creator_id == prev[i].creator_id
            &&& forall|p: Seq<char>| #[trigger]
                texts(prev[i].members@).contains(p) ==> texts(next[i].members@).contains(p)
        }
}

/// Whether nobody is in a group twice, and only those of `nodes` are in groups.
pub open spec fn proper(gs: Seq<SimGroup>, nodes: Seq<Seq<char>>) -> bool {
    forall|i: int|
        #![trigger gs[i]]
        0 <= i < gs.len() ==> {
            &&& texts(gs[i].members@).no_duplicates()
            &&& forall|p: Seq<char>| #[trigger]
                texts(gs[i].members@).contains(p) ==> nodes.contains(p)
        }
}

/// The id of the group that was founded as number `i`, counting from one.
pub open spec fn group_name(i: nat) -> Seq<char> {
    "group-"@ + decimal(i)
}

proof fn lemma_push_contains(s: Seq<Seq<char>>, x: Seq<char>)
    ensures
        forall|p: Seq<char>| #[trigger] s.push(x).contains(p) <==> s.contains(p) || p == x,
{
    assert forall|p: Seq<char>| #[trigger] s.push(x).contains(p) <==> s.contains(p) || p == x by {
        if s.contains(p) {
            let j = choose|j: int| 0 <= j < s.len() && s[j] == p;
            assert(s.push(x)[j] == p);
        }
        if p == x {
            assert(s.push(x)[s.len() as int] == p);
        }
    }
}

proof fn lemma_join(gs: Seq<Seq<Seq<char>>>, i: int, node: Seq<char>, p: Seq<char>)
    requires
        0 <= i < gs.len(),
        !gs[i].contains(node),
    ensures
        memberships(gs.update(i, gs[i].push(node)), p) == memberships(gs, p) + if p == node {
            1nat
        } else {
            0nat
        },
    decreases gs.len(),
{
    let after = gs.update(i, gs[i].push(node));
    lemma_push_contains(gs[i], node);
    if i == gs.len() - 1 {
        assert(after.drop_last() =~= gs.drop_last());
        assert(after.last().contains(p) <==> gs.last().contains(p) || p == node);
    } else {
        lemma_join(gs.drop_last(), i, node, p);
        assert(after.drop_last() =~= gs.drop_last().update(i, gs[i].push(node)));
        assert(after.last() == gs.last());
    }
}

proof fn lemma_memberships_bound(gs: Seq<Seq<Seq<char>>>, node: Seq<char>)
    ensures
        memberships(gs, node) <= gs.len(),
    decreases gs.len(),
{
    if gs.len() > 0 {
        lemma_memberships_bound(gs.drop_last(), node);
    }
}

/// How many groups a node is in once it has been topped up to `target`: as many as there are, at
/// most.
pub open spec fn topped_up(current: nat, target: nat, groups: nat) -> nat {
    let goal = if target <= groups {
        target
    } else {
        groups
    };
    if current >= goal {
        current
    } else {
        goal
    }
}

/// The groups that `node` is not in, and how many it is in.
fn groups_without(gs: &Vec<SimGroup>, node: &str) -> (r: Vec<usize>)
    ensures
        r@.no_duplicates(),
        forall|k: int|
            0 <= k < r@.len() ==> #[trigger] r@[k] < gs@.len() && !texts(
                gs@[r@[k] as int].members@,
            ).contains(node@),
        r@.len() + memberships(member_lists(gs@), node@) == gs@.len(),
{
    let mut out: Vec<usize> = Vec::new();
    let mut i: usize = 0;
    let ghost ls = member_lists(gs@);
    proof {
        assert(ls.take(0) =~= Seq::empty());
    }
    while i < gs.len()
        invariant
            i <= gs@.len(),
            ls == member_lists(gs@),
            out@.no_duplicates(),
            forall|k: int|
                0 <= k < out@.len() ==> #[trigger] out@[k] < i && !texts(
                    gs@[out@[k] as int].members@,
                ).contains(node@),
            out@.len() + memberships(ls.take(i as int), node@) == i,
        decreases gs@.len() - i,
    {
        proof {
            assert(ls.take(i + 1).drop_last() =~= ls.take(i as int));
            assert(ls.take(i + 1).last() == texts(gs@[i as int].members@));
        }
        if !contains(&gs[i].members, node) {
            out.push(i);
        }
        i = i + 1;
    }
    proof {
        assert(ls.take(i as int) =~= ls);
    }
    out
}

/// Puts a node into groups that it is not in, drawn at random, until it is in `target` of them or
/// in all.
fn top_up(
    gs: Vec<SimGroup>,
    node: &String,
    target: usize,
    nodes: &Vec<String>,
    rng: &mut ChaCha8Rng,
) -> (r: Vec<SimGroup>)
    requires
        proper(gs@, texts(nodes@)),
        texts(nodes@).contains(node@),
    ensures
        proper(r@, texts(nodes@)),
        grown(gs@, r@),
        memberships(member_lists(r@), node@) == topped_up(
            memberships(member_lists(gs@), node@),
            target as nat,
            gs@.len(),
        ),
        forall|p: Seq<char>|
            p != node@ ==> #[trigger] memberships(member_lists(r@), p) == memberships(
                member_lists(gs@),
                p,
            ),
{
    let ghost all = gs@;
    let ghost names = texts(nodes@);
    let mut gs = gs;
    let mut free = groups_without(&gs, node.as_str());
    let mut current: usize = gs.len() - free.len();
    while current < target && free.len() > 0
        invariant
            proper(gs@, names),
            names.contains(node@),
            grown(all, gs@),
            gs@.len() == all.len(),
            current == memberships(member_lists(gs@), node@),
            current >= memberships(member_lists(all), node@),
            current <= target || current == memberships(member_lists(all), node@),
            free@.no_duplicates(),
            forall|k: int|
                0 <= k < free@.len() ==> #[trigger] free@[k] < gs@.len() && !texts(
                    gs@[free@[k] as int].members@,
                ).contains(node@),
            free@.len() + current == gs@.len(),
            forall|p: Seq<char>|
                p != node@ ==> #[trigger] memberships(member_lists(gs@), p) == memberships(
                    member_lists(all),
                    p,
                ),
        decreases free@.len(),
    {
        let ghost before = gs@;
        let ghost f0 = free@;
        let ghost ls = member_lists(gs@);
        let k: usize = draw(rng, 0, free.len() - 1);
        let i: usize = free.remove(k);
        let ghost mem = texts(gs@[i as int].members@);
        assert(i == f0[k as int]);
        let old_members = &gs[i].members;
        let mut members: Vec<String> = crate::text::copy_all(old_members);
        members.push(node.clone());
        let group = SimGroup {
            group_id: gs[i].group_id.clone(),
            members,
            creator_id: gs[i].creator_id.clone(),
        };
        gs[i] = group;
        current = current + 1;
        proof {
            let after = gs@;
            assert(texts(members@) =~= mem.push(node@));
            assert(after =~= before.update(i as int, group));
            assert(member_lists(after) =~= ls.update(i as int, mem.push(node@)));
            assert(ls[i as int] == mem);
            lemma_join(ls, i as int, node@, node@);
            assert forall|p: Seq<char>| p != node@ implies #[trigger] memberships(
                member_lists(after),
                p,
            ) == memberships(member_lists(all), p) by {
                lemma_join(ls, i as int, node@, p);
                assert(memberships(ls, p) == memberships(member_lists(all), p));
            }
            lemma_push_contains(mem, node@);
            assert forall|j: int|
                #![trigger after[j]]
                0 <= j < after.len() implies {
                &&& texts(after[j].members@).no_duplicates()
                &&& forall|p: Seq<char>| #[trigger]
                    texts(after[j].members@).contains(p) ==> names.contains(p)
            } by {
                if j != i {
                    assert(after[j] == before[j]);
                } else {
                    assert(texts(before[j].members@).no_duplicates());
                    assert(mem.push(node@).no_duplicates());
                }
            }
            assert forall|j: int|
                #![trigger after[j]]
                0 <= j < after.len() implies {
                &&& after[j].group_id == all[j].group_id
                &&& after[j].creator_id == all[j].creator_id
                &&& forall|p: Seq<char>| #[trigger]
                    texts(all[j].members@).contains(p) ==> texts(after[j].members@).contains(p)
            } by {
                assert(before[j].group_id == all[j].group_id);
            }
            let f1 = free@;
            assert(f1 =~= f0.remove(k as int));
            assert forall|a: int, b: int|
                0 <= a < f1.len() && 0 <= b < f1.len() && a != b implies f1[a] != f1[b] by {
                let a2 = if a < k {
                    a
                } else {
                    a + 1
                };
                let b2 = if b < k {
                    b
                } else {
                    b + 1
                };
                assert(f0[a2] != f0[b2]);
            }
            assert forall|a: int| 0 <= a < f1.len() implies #[trigger] f1[a] < after.len()
                && !texts(after[f1[a] as int].members@).contains(node@) by {
                let a2 = if a < k {
                    a
                } else {
                    a + 1
                };
                assert(f0[a2] != f0[k as int]);
                assert(f1[a] == f0[a2]);
                assert(after[f1[a] as int] == before[f1[a] as int]);
            }
        }
    }
    gs
}

/// Puts every node into at least `min_count` groups, or into all where there are fewer.
pub fn ensure_minimum_memberships(
    gs: Vec<SimGroup>,
    nodes: &Vec<String>,
    min_count: usize,
    rng: &mut ChaCha8Rng,
) -> (r: Vec<SimGroup>)
    requires
        proper(gs@, texts(nodes@)),
    ensures
        proper(r@, texts(nodes@)),
        grown(gs@, r@),
        forall|p: Seq<char>|
            texts(nodes@).contains(p) ==> #[trigger] memberships(member_lists(r@), p) == topped_up(
                memberships(member_lists(gs@), p),
                min_count as nat,
                gs@.len(),
            ),
{
    let ghost all = gs@;
    let ghost names = texts(nodes@);
    let ghost n = gs@.len();
    let mut gs = gs;
    let mut i: usize = 0;
    proof {
        lemma_grown_refl(all);
    }
    while i < nodes.len()
        invariant
            i <= nodes@.len(),
            names == texts(nodes@),
            n == all.len(),
            proper(gs@, names),
            grown(all, gs@),
            forall|p: Seq<char>| #[trigger]
                memberships(member_lists(gs@), p) == (if names.take(i as int).contains(p) {
                    topped_up(memberships(member_lists(all), p), min_count as nat, n)
                } else {
                    memberships(member_lists(all), p)
                }),
        decreases nodes@.len() - i,
    {
        let ghost before = gs@;
        let ghost t = names.take(i as int);
        assert(names[i as int] == nodes@[i as int]@);
        gs = top_up(gs, &nodes[i], min_count, nodes, rng);
        proof {
            lemma_grown_trans(all, before, gs@);
            assert(names.take(i + 1) =~= t.push(names[i as int]));
            lemma_push_contains(t, names[i as int]);
            let x = names[i as int];
            assert(memberships(member_lists(before), x) == (if t.contains(x) {
                topped_up(memberships(member_lists(all), x), min_count as nat, n)
            } else {
                memberships(member_lists(all), x)
            }));
            lemma_memberships_bound(member_lists(before), x);
        }
        i = i + 1;
    }
    proof {
        assert(names.take(i as int) =~= names);
    }
    gs
}

proof fn lemma_grown_refl(a: Seq<SimGroup>)
    ensures
        grown(a, a),
{
}

proof fn lemma_grown_trans(a: Seq<SimGroup>, b: Seq<SimGroup>, c: Seq<SimGroup>)
    requires
        grown(a, b),
        grown(b, c),
    ensures
        grown(a, c),
{
    assert forall|i: int|
        #![trigger c[i]]
        0 <= i < c.len() implies {
        &&& c[i].group_id == a[i].group_id
        &&& c[i].creator_id == a[i].creator_id
        &&& forall|p: Seq<char>| #[trigger]
            texts(a[i].members@).contains(p) ==> texts(c[i].members@).contains(p)
    } by {
        assert(b[i].group_id == a[i].group_id);
        assert forall|p: Seq<char>| #[trigger]
            texts(a[i].members@).contains(p) implies texts(c[i].members@).contains(p) by {
            assert(texts(b[i].members@).contains(p));
        }
    }
}

/// Puts every node into a number of groups drawn between `min` and `max`, unless it is in more
/// already or there are fewer.
pub fn add_random_memberships(
    gs: Vec<SimGroup>,
    nodes: &Vec<String>,
    min: usize,
    max: usize,
    rng: &mut ChaCha8Rng,
) -> (r: Vec<SimGroup>)
    requires
        proper(gs@, texts(nodes@)),
    ensures
        proper(r@, texts(nodes@)),
        grown(gs@, r@),
        max <= min ==> r@ == gs@,
        max > min ==> forall|p: Seq<char>|
            texts(nodes@).contains(p) ==> {
                let before = memberships(member_lists(gs@), p);
                let after = #[trigger] memberships(member_lists(r@), p);
                topped_up(before, min as nat, gs@.len()) <= after <= topped_up(
                    before,
                    max as nat,
                    gs@.len(),
                )
            },
{
    let ghost all = gs@;
    let ghost names = texts(nodes@);
    let ghost n = gs@.len();
    proof {
        lemma_grown_refl(all);
    }
    if max <= min {
        return gs;
    }
    let mut gs = gs;
    let mut i: usize = 0;
    while i < nodes.len()
        invariant
            i <= nodes@.len(),
            min < max,
            names == texts(nodes@),
            n == all.len(),
            proper(gs@, names),
            grown(all, gs@),
            forall|p: Seq<char>| #[trigger]
                names.take(i as int).contains(p) ==> topped_up(
                    memberships(member_lists(all), p),
                    min as nat,
                    n,
                ) <= memberships(member_lists(gs@), p) <= topped_up(
                    memberships(member_lists(all), p),
                    max as nat,
                    n,
                ),
            forall|p: Seq<char>|
                !names.take(i as int).contains(p) ==> #[trigger] memberships(
                    member_lists(gs@),
                    p,
                ) == memberships(member_lists(all), p),
        decreases nodes@.len() - i,
    {
        let ghost before = gs@;
        let ghost t = names.take(i as int);
        let ghost x = names[i as int];
        assert(x == nodes@[i as int]@);
        let target: usize = draw(rng, min, max);
        gs = top_up(gs, &nodes[i], target, nodes, rng);
        proof {
            lemma_grown_trans(all, before, gs@);
            assert(names.take(i + 1) =~= t.push(x));
            lemma_push_contains(t, x);
            lemma_memberships_bound(member_lists(before), x);
            assert(t.contains(x) || memberships(member_lists(before), x) == memberships(
                member_lists(all),
                x,
            ));
            assert forall|p: Seq<char>| #[trigger]
                names.take(i + 1).contains(p) implies topped_up(
                memberships(member_lists(all), p),
                min as nat,
                n,
            ) <= memberships(member_lists(gs@), p) <= topped_up(
                memberships(member_lists(all), p),
                max as nat,
                n,
            ) by {
                if p != x {
                    assert(t.contains(p));
                    assert(memberships(member_lists(gs@), p) == memberships(
                        member_lists(before),
                        p,
                    ));
                }
            }
        }
        i = i + 1;
    }
    proof {
        assert(names.take(i as int) =~= names);
    }
    gs
}

/// Settings of the groups of a simulation.
pub struct GroupSettings {
    pub count: usize,
    /// Fewest members that a group is founded with.
    pub min_size: usize,
    /// Most members that a group is founded with.
    pub max_size: usize,
    pub memberships_per_node: GroupMembershipsPerNode,
}

/// How many groups a node is in, at least, where there are enough.
pub open spec fn fewest_memberships(m: GroupMembershipsPerNode) -> nat {
    match m {
        GroupMembershipsPerNode::Fixed { count } => count as nat,
        GroupMembershipsPerNode::Uniform { min, .. } => min as nat,
    }
}

/// The bounds on the size of a group where they are given as numbers of members: no group is
/// larger than there are nodes.
pub fn uniform_group_bounds(min: usize, max: usize, node_count: usize) -> (r: (usize, usize))
    ensures
        r.0 == min,
        r.1 == (if max <= node_count {
            max
        } else {
            node_count
        }),
{
    (
        min,
        if max <= node_count {
            max
        } else {
            node_count
        },
    )
}

/// Founds a group of members drawn at random. The first of them is its creator.
fn found_group(number: usize, nodes: &Vec<String>, size: usize, rng: &mut ChaCha8Rng) -> (r: SimGroup)
    requires
        texts(nodes@).no_duplicates(),
        number >= 1,
    ensures
        r.group_id@ == group_name(number as nat),
        texts(r.members@).no_duplicates(),
        forall|p: Seq<char>| #[trigger]
            texts(r.members@).contains(p) ==> texts(nodes@).contains(p),
        r.members@.len() == (if size <= nodes@.len() {
            size as int
        } else {
            nodes@.len() as int
        }),
        r.members@.len() == 0 ==> r.creator_id@ == Seq::<char>::empty(),
        r.members@.len() > 0 ==> r.creator_id == r.members@[0],
{
    let members = draw_names(nodes, None, size, rng);
    proof {
        let a = texts(members@);
        let b = texts(nodes@);
        a.unique_seq_to_set();
        b.unique_seq_to_set();
        assert(a.to_set().subset_of(b.to_set())) by {
            assert forall|p: Seq<char>| a.to_set().contains(p) implies b.to_set().contains(p) by {
                assert(a.contains(p));
            }
        }
        vstd::set_lib::lemma_len_subset(a.to_set(), b.to_set());
        if members@.len() < size {
            assert(b.to_set().subset_of(a.to_set())) by {
                assert forall|p: Seq<char>| b.to_set().contains(p) implies a.to_set().contains(
                    p,
                ) by {
                    assert(b.contains(p) && !left_out(None, p));
                }
            }
            vstd::set_lib::lemma_len_subset(b.to_set(), a.to_set());
        }
    }
    let creator_id = if members.len() > 0 {
        members[0].clone()
    } else {
        String::new()
    };
    let mut group_id = "group-".to_owned();
    group_id.append(to_decimal(number as u64).as_str());
    SimGroup { group_id, members, creator_id }
}

/// The smaller of two numbers.
pub open spec fn least(a: nat, b: nat) -> nat {
    if a <= b {
        a
    } else {
        b
    }
}

/// Whether groups are founded as the settings say: numbered from one, each with as many members as
/// the bounds allow and there are nodes, the first of them its creator.
pub open spec fn founded_as(gs: Seq<SimGroup>, nodes: Seq<Seq<char>>, s: GroupSettings) -> bool {
    let n = nodes.to_set().len();
    &&& gs.len() == s.count
    &&& proper(gs, nodes)
    &&& forall|i: int|
        #![trigger gs[i]]
        0 <= i < gs.len() ==> {
            let size = gs[i].members@.len();
            &&& gs[i].group_id@ == group_name((i + 1) as nat)
            &&& least(s.min_size as nat, n) <= size <= least(s.max_size as nat, n)
            &&& gs[i].creator_id@ == (if size == 0 {
                Seq::empty()
            } else {
                gs[i].members@[0]@
            })
        }
}

/// Whether `after` groups are what a node that was in `before` of `groups` may end up in.
pub open spec fn enough(m: GroupMembershipsPerNode, before: nat, after: nat, groups: nat) -> bool {
    match m {
        GroupMembershipsPerNode::Fixed { count } => after == topped_up(
            before,
            count as nat,
            groups,
        ),
        GroupMembershipsPerNode::Uniform { min, max } => {
            let base = topped_up(before, min as nat, groups);
            if max <= min {
                after == base
            } else {
                base <= after <= topped_up(base, max as nat, groups)
            }
        },
    }
}

/// Whether groups are what the founded ones become once every node is in as many as it should be:
/// nobody leaves one, and nobody joins more than that takes.
pub open spec fn filled_as(
    founded: Seq<SimGroup>,
    gs: Seq<SimGroup>,
    nodes: Seq<Seq<char>>,
    m: GroupMembershipsPerNode,
) -> bool {
    &&& proper(gs, nodes)
    &&& grown(founded, gs)
    &&& forall|p: Seq<char>|
        nodes.contains(p) ==> enough(
            m,
            memberships(member_lists(founded), p),
            #[trigger] memberships(member_lists(gs), p),
            gs.len(),
        )
}

/// Founds the groups of a simulation and puts every node into as many as it should be in.
/// Nothing is founded where there are no nodes.
pub fn build_groups(node_ids: &Vec<String>, settings: &Option<GroupSettings>, rng: &mut ChaCha8Rng)
    -> (r: Vec<SimGroup>)
    requires
        settings matches Some(s) ==> s.min_size <= s.max_size && s.count < usize::MAX,
    ensures
        match settings {
            Some(s) if node_ids@.len() > 0 => exists|founded: Seq<SimGroup>| #[trigger]
                founded_as(founded, texts(node_ids@), *s) && filled_as(
                    founded,
                    r@,
                    texts(node_ids@),
                    s.memberships_per_node,
                ),
            _ => r@.len() == 0,
        },
{
    let mut gs: Vec<SimGroup> = Vec::new();
    let settings = match settings {
        None => {
            return gs;
        },
        Some(s) => s,
    };
    if node_ids.len() == 0 {
        return gs;
    }
    let nodes = distinct(node_ids);
    let ghost names = texts(nodes@);
    let ghost all = texts(node_ids@);
    proof {
        names.unique_seq_to_set();
        assert(names.to_set() =~= all.to_set());
    }
    let mut i: usize = 0;
    while i < settings.count
        invariant
            i <= settings.count,
            settings.count < usize::MAX,
            settings.min_size <= settings.max_size,
            names == texts(nodes@),
            names.no_duplicates(),
            names.len() == all.to_set().len(),
            forall|p: Seq<char>| #[trigger] names.contains(p) <==> all.contains(p),
            gs@.len() == i,
            founded_as(gs@, all, (GroupSettings { count: i, ..*settings })),
        decreases settings.count - i,
    {
        let ghost before = gs@;
        let size: usize = draw(rng, settings.min_size, settings.max_size);
        let group = found_group(i + 1, &nodes, size, rng);
        gs.push(group);
        proof {
            assert(gs@ =~= before.push(group));
        }
        i = i + 1;
    }
    let ghost founded = gs@;
    proof {
        assert(founded_as(founded, all, *settings));
        assert(proper(founded, names));
    }
    match settings.memberships_per_node {
        GroupMembershipsPerNode::Fixed { count } => {
            gs = ensure_minimum_memberships(gs, &nodes, count, rng);
        },
        GroupMembershipsPerNode::Uniform { min, max } => {
            gs = ensure_minimum_memberships(gs, &nodes, min, rng);
            let ghost mid = gs@;
            gs = add_random_memberships(gs, &nodes, min, max, rng);
            proof {
                lemma_grown_trans(founded, mid, gs@);
                assert forall|p: Seq<char>| all.contains(p) implies enough(
                    settings.memberships_per_node,
                    memberships(member_lists(founded), p),
                    #[trigger] memberships(member_lists(gs@), p),
                    gs@.len(),
                ) by {
                    assert(names.contains(p));
                    lemma_memberships_bound(member_lists(mid), p);
                    assert(memberships(member_lists(mid), p) == topped_up(
                        memberships(member_lists(founded), p),
                        min as nat,
                        founded.len(),
                    ));
                }
            }
        },
    }
    proof {
        assert(proper(gs@, all));
        assert forall|p: Seq<char>| all.contains(p) implies enough(
            settings.memberships_per_node,
            memberships(member_lists(founded), p),
            #[trigger] memberships(member_lists(gs@), p),
            gs@.len(),
        ) by {
            assert(names.contains(p));
        }
        assert(filled_as(founded, gs@, all, settings.memberships_per_node));
    }
    gs
}

/// Every node is in as many groups as it should be, or in all where there are fewer.
pub proof fn law_everybody_is_in_enough_groups(
    founded: Seq<SimGroup>,
    gs: Seq<SimGroup>,
    nodes: Seq<Seq<char>>,
    m: GroupMembershipsPerNode,
    node: Seq<char>,
)
    requires
        filled_as(founded, gs, nodes, m),
        nodes.contains(node),
    ensures
        memberships(member_lists(gs), node) >= least(fewest_memberships(m), gs.len()),
{
    assert(enough(
        m,
        memberships(member_lists(founded), node),
        memberships(member_lists(gs), node),
        gs.len(),
    ));
}

/// The ids of the groups that a node is in, in the order in which they were founded.
pub open spec fn ids_of_groups(gs: Seq<SimGroup>, node: Seq<char>) -> Seq<Seq<char>> {
    gs.filter(|g: SimGroup| texts(g.members@).contains(node)).map_values(
        |g: SimGroup| g.group_id@,
    )
}

/// The ids of the groups that a node is in, in the order in which they were founded.
pub fn groups_of(gs: &Vec<SimGroup>, node: &str) -> (r: Vec<String>)
    ensures
        texts(r@) == ids_of_groups(gs@, node@),
{
    let mut out: Vec<String> = Vec::new();
    let mut i: usize = 0;
    let ghost f = |g: SimGroup| texts(g.members@).contains(node@);
    let ghost id = |g: SimGroup| g.group_id@;
    proof {
        reveal(Seq::filter);
        assert(gs@.take(0) =~= Seq::empty());
        assert(texts(out@) =~= gs@.take(0).filter(f).map_values(id));
    }
    while i < gs.len()
        invariant
            i <= gs@.len(),
            f == (|g: SimGroup| texts(g.members@).contains(node@)),
            id == (|g: SimGroup| g.group_id@),
            texts(out@) == gs@.take(i as int).filter(f).map_values(id),
        decreases gs@.len() - i,
    {
        let ghost before = texts(out@);
        proof {
            reveal(Seq::filter);
            assert(gs@.take(i + 1).drop_last() =~= gs@.take(i as int));
            assert(gs@.take(i + 1).last() == gs@[i as int]);
        }
        if contains(&gs[i].members, node) {
            out.push(gs[i].group_id.clone());
            proof {
                let t = gs@.take(i as int).filter(f);
                assert(texts(out@) =~= before.push(gs@[i as int].group_id@));
                assert(t.push(gs@[i as int]).map_values(id) =~= t.map_values(id).push(
                    gs@[i as int].group_id@,
                ));
            }
        }
        i = i + 1;
    }
    proof {
        assert(gs@.take(i as int) =~= gs@);
    }
    out
}

} // verus!
