//! Who is friends with whom in a simulation.
use vstd::prelude::*;
use vstd::string::*;

use rand_chacha::ChaCha8Rng;

use crate::keyed::KeyedMap;
use crate::simulation::client::Names;
use crate::simulation::random::draw;
use crate::simulation::random::draw_names;
use crate::simulation::random::left_out;
use crate::simulation::random::shuffle;
use crate::text::contains;
use crate::text::copy_all;
use crate::text::lemma_text_le_order;
use crate::text::not_after;
use crate::text::same;
use crate::text::text_le;
use crate::text::texts;

verus! {

/// How many friends a node is to have: between `min` and `max`, but no more than there are others.
pub fn uniform_friends_target(rng: &mut ChaCha8Rng, min: usize, max: usize, others: usize) -> (r:
    usize)
    requires
        min <= max,
        min <= others,
    ensures
        min <= r <= max,
        r <= others,
{
    let most: usize = if max <= others {
        max
    } else {
        others
    };
    draw(rng, min, most)
}

// ---------------------------------------------------------------------------
// Clusters
// ---------------------------------------------------------------------------

/// A list cut into pieces of the given sizes; what is left over is a piece of its own.
pub open spec fn cut<T>(list: Seq<T>, sizes: Seq<usize>) -> Seq<Seq<T>>
    decreases sizes.len(),
{
    if list.len() == 0 {
        Seq::empty()
    } else if sizes.len() == 0 {
        seq![list]
    } else {
        let n = if sizes[0] <= list.len() {
            sizes[0] as int
        } else {
            list.len() as int
        };
        seq![list.take(n)] + cut(list.skip(n), sizes.skip(1))
    }
}

/// The clusters of a simulation: at least one.
pub open spec fn clusters_of<T>(list: Seq<T>, sizes: Seq<usize>) -> Seq<Seq<T>> {
    if cut(list, sizes).len() == 0 {
        seq![list]
    } else {
        cut(list, sizes)
    }
}

/// The lists of names, as texts.
pub open spec fn name_lists(v: Seq<Vec<String>>) -> Seq<Seq<String>> {
    v.map_values(|c: Vec<String>| c@)
}

/// Copies the names from `start` up to, but without, `end`.
fn copy_range(list: &Vec<String>, start: usize, end: usize) -> (r: Vec<String>)
    requires
        start <= end <= list@.len(),
    ensures
        r@ == list@.subrange(start as int, end as int),
{
    let mut out: Vec<String> = Vec::new();
    let mut i: usize = start;
    proof {
        assert(list@.subrange(start as int, start as int) =~= Seq::empty());
    }
    while i < end
        invariant
            start <= i <= end <= list@.len(),
            out@ == list@.subrange(start as int, i as int),
        decreases end - i,
    {
        out.push(list[i].clone());
        proof {
            assert(list@.subrange(start as int, i + 1) =~= list@.subrange(
                start as int,
                i as int,
            ).push(list@[i as int]));
        }
        i = i + 1;
    }
    out
}

/// Cuts the nodes of a simulation into clusters.
pub fn split_clusters(node_ids: &Vec<String>, sizes: &Vec<usize>) -> (r: Vec<Vec<String>>)
    ensures
        name_lists(r@) == clusters_of(node_ids@, sizes@),
{
    let ghost ids = node_ids@;
    let total: usize = node_ids.len();
    let mut clusters: Vec<Vec<String>> = Vec::new();
    let mut start: usize = 0;
    let mut k: usize = 0;
    proof {
        assert(ids.skip(0) =~= ids);
        assert(sizes@.skip(0) =~= sizes@);
        assert(name_lists(clusters@) + cut(ids, sizes@) =~= cut(ids, sizes@));
    }
    while k < sizes.len() && start < total
        invariant
            k <= sizes@.len(),
            start <= total == ids.len(),
            ids == node_ids@,
            name_lists(clusters@) + cut(ids.skip(start as int), sizes@.skip(k as int)) == cut(
                ids,
                sizes@,
            ),
        decreases sizes@.len() - k,
    {
        let size: usize = sizes[k];
        let end: usize = if size <= total - start {
            start + size
        } else {
            total
        };
        let ghost before = name_lists(clusters@);
        let piece = copy_range(node_ids, start, end);
        let ghost p = piece@;
        clusters.push(piece);
        proof {
            let rest = ids.skip(start as int);
            let n = (end - start) as int;
            assert(sizes@.skip(k as int)[0] == size);
            assert(rest.take(n) =~= p);
            assert(rest.skip(n) =~= ids.skip(end as int));
            assert(sizes@.skip(k as int).skip(1) =~= sizes@.skip(k + 1));
            assert(name_lists(clusters@) =~= before.push(p));
            assert(before.push(p) + cut(ids.skip(end as int), sizes@.skip(k + 1)) =~= before + (
            seq![p] + cut(ids.skip(end as int), sizes@.skip(k + 1))));
        }
        start = end;
        k = k + 1;
    }
    if start < total {
        let ghost before = name_lists(clusters@);
        let piece = copy_range(node_ids, start, total);
        proof {
            assert(piece@ =~= ids.skip(start as int));
            assert(sizes@.skip(k as int).len() == 0);
        }
        clusters.push(piece);
        proof {
            assert(name_lists(clusters@) =~= before.push(ids.skip(start as int)));
            assert(before.push(ids.skip(start as int)) =~= before + seq![ids.skip(start as int)]);
        }
    } else {
        proof {
            assert(ids.skip(start as int).len() == 0);
            assert(name_lists(clusters@) + Seq::<Seq<String>>::empty() =~= name_lists(clusters@));
        }
    }
    assert(name_lists(clusters@) =~= cut(ids, sizes@));
    if clusters.len() == 0 {
        assert(cut(ids, sizes@).len() == 0);
        clusters.push(copy_all(node_ids));
        assert(name_lists(clusters@) =~= seq![ids]);
    }
    clusters
}

/// Cutting loses nothing: the clusters, one after the other, are the list.
pub proof fn law_clusters_cover<T>(list: Seq<T>, sizes: Seq<usize>)
    ensures
        clusters_of(list, sizes).flatten() == list,
{
    lemma_cut_covers(list, sizes);
    if cut(list, sizes).len() == 0 {
        lemma_flatten_one(list);
        assert(seq![list].flatten() =~= list);
    }
}

proof fn lemma_flatten_one<T>(list: Seq<T>)
    ensures
        seq![list].flatten() == list,
{
    let s = seq![list];
    assert(s.drop_first() =~= Seq::<Seq<T>>::empty());
    assert(s.flatten() == list + s.drop_first().flatten());
    assert(list + Seq::<T>::empty() =~= list);
}

proof fn lemma_cut_covers<T>(list: Seq<T>, sizes: Seq<usize>)
    ensures
        cut(list, sizes).flatten() == list,
    decreases sizes.len(),
{
    if list.len() == 0 {
        assert(list =~= Seq::empty());
    } else if sizes.len() == 0 {
        lemma_flatten_one(list);
    } else {
        let n = if sizes[0] <= list.len() {
            sizes[0] as int
        } else {
            list.len() as int
        };
        let rest = cut(list.skip(n), sizes.skip(1));
        lemma_cut_covers(list.skip(n), sizes.skip(1));
        let s = seq![list.take(n)] + rest;
        assert(s.drop_first() =~= rest);
        assert(s.first() == list.take(n));
        assert(list.take(n) + list.skip(n) =~= list);
    }
}

// ---------------------------------------------------------------------------
// Friends
// ---------------------------------------------------------------------------

/// Whether `list` holds up to `target` of those in `from` but for `me`, none of them twice, and
/// all of them where there are fewer.
pub open spec fn friends_drawn(
    list: Seq<Seq<char>>,
    me: Seq<char>,
    from: Seq<Seq<char>>,
    target: int,
) -> bool {
    &&& list.no_duplicates()
    &&& forall|p: Seq<char>| #[trigger] list.contains(p) ==> from.contains(p) && p != me
    &&& list.len() <= target
    &&& list.len() < target ==> forall|p: Seq<char>| #[trigger]
        from.contains(p) && p != me ==> list.contains(p)
}

/// Whether the friends of `me` were drawn from a cluster that it is in.
pub open spec fn drawn_within(
    friends: Seq<Seq<char>>,
    me: Seq<char>,
    clusters: Seq<Vec<String>>,
    targets: Seq<Vec<usize>>,
    c: int,
    k: int,
) -> bool {
    &&& 0 <= c < clusters.len()
    &&& 0 <= k < clusters[c]@.len()
    &&& clusters[c]@[k]@ == me
    &&& friends_drawn(friends, me, texts(clusters[c]@), targets[c]@[k] as int)
}

/// Whether `me` is in one of the first `c` clusters, or among the first `k` of cluster `c`.
pub open spec fn met(clusters: Seq<Vec<String>>, c: int, k: int, me: Seq<char>) -> bool {
    exists|i: int, j: int| #[trigger] in_cluster(clusters, i, j, me) && (i < c || (i == c && j < k))
}

/// Whether `me` stands at place `j` of cluster `i`.
pub open spec fn in_cluster(clusters: Seq<Vec<String>>, i: int, j: int, me: Seq<char>) -> bool {
    0 <= i < clusters.len() && 0 <= j < clusters[i]@.len() && clusters[i]@[j]@ == me
}

/// Draws for every node friends from its cluster, as many as `targets` says for it.
pub fn draw_friend_graph(
    clusters: &Vec<Vec<String>>,
    targets: &Vec<Vec<usize>>,
    rng: &mut ChaCha8Rng,
) -> (r: KeyedMap<String, Names>)
    requires
        targets@.len() == clusters@.len(),
        forall|c: int|
            0 <= c < clusters@.len() ==> (#[trigger] targets@[c])@.len() == clusters@[c]@.len(),
    ensures
        r.wf(),
        forall|p: Seq<char>| #[trigger]
            r@.contains_key(p) <==> exists|i: int, j: int| in_cluster(clusters@, i, j, p),
        forall|p: Seq<char>| #[trigger]
            r@.contains_key(p) ==> exists|c: int, k: int| #[trigger]
                drawn_within(r@[p], p, clusters@, targets@, c, k),
{
    let mut graph: KeyedMap<String, Names> = KeyedMap::new();
    let mut c: usize = 0;
    while c < clusters.len()
        invariant
            c <= clusters@.len(),
            targets@.len() == clusters@.len(),
            forall|c: int|
                0 <= c < clusters@.len() ==> (#[trigger] targets@[c])@.len()
                    == clusters@[c]@.len(),
            graph.wf(),
            forall|p: Seq<char>| #[trigger]
                graph@.contains_key(p) <==> met(clusters@, c as int, 0, p),
            forall|p: Seq<char>| #[trigger]
                graph@.contains_key(p) ==> exists|c: int, k: int| #[trigger]
                    drawn_within(graph@[p], p, clusters@, targets@, c, k),
        decreases clusters@.len() - c,
    {
        let cluster = &clusters[c];
        let mut k: usize = 0;
        assert(targets@[c as int]@.len() == cluster@.len());
        while k < cluster.len()
            invariant
                c < clusters@.len(),
                k <= cluster@.len(),
                *cluster == clusters@[c as int],
                targets@.len() == clusters@.len(),
                targets@[c as int]@.len() == cluster@.len(),
                graph.wf(),
                forall|p: Seq<char>| #[trigger]
                    graph@.contains_key(p) <==> met(clusters@, c as int, k as int, p),
                forall|p: Seq<char>| #[trigger]
                    graph@.contains_key(p) ==> exists|c: int, k: int| #[trigger]
                        drawn_within(graph@[p], p, clusters@, targets@, c, k),
            decreases cluster@.len() - k,
        {
            let ghost before = graph@;
            let me = &cluster[k];
            let target: usize = targets[c][k];
            let except = Some(me.as_str());
            let list = draw_names(cluster, except, target, rng);
            let ghost friends = texts(list@);
            graph.insert(me.clone(), Names { list });
            proof {
                assert(friends_drawn(friends, me@, texts(cluster@), target as int)) by {
                    assert forall|p: Seq<char>| #[trigger] friends.contains(p) implies texts(
                        cluster@,
                    ).contains(p) && p != me@ by {
                        assert(!left_out(except, p));
                    }
                    if friends.len() < target {
                        assert forall|p: Seq<char>| #[trigger]
                            texts(cluster@).contains(p) && p != me@ implies friends.contains(p) by {
                            assert(!left_out(except, p));
                        }
                    }
                }
                assert(in_cluster(clusters@, c as int, k as int, me@));
                assert(drawn_within(friends, me@, clusters@, targets@, c as int, k as int));
                assert forall|p: Seq<char>| #[trigger] graph@.contains_key(p) implies exists|
                    c: int,
                    k: int,
                | #[trigger]
                    drawn_within(graph@[p], p, clusters@, targets@, c, k) by {
                    if p == me@ {
                        assert(drawn_within(
                            graph@[p],
                            p,
                            clusters@,
                            targets@,
                            c as int,
                            k as int,
                        ));
                    } else {
                        assert(before.contains_key(p) && graph@[p] == before[p]);
                    }
                }
                assert forall|p: Seq<char>| #[trigger]
                    graph@.contains_key(p) <==> met(clusters@, c as int, k + 1, p) by {
                    if before.contains_key(p) {
                        let (i, j) = choose|i: int, j: int| #[trigger]
                            in_cluster(clusters@, i, j, p) && (i < c || (i == c && j < k));
                        assert(in_cluster(clusters@, i, j, p) && (i < c || (i == c && j < k + 1)));
                    }
                    if met(clusters@, c as int, k + 1, p) {
                        let (i, j) = choose|i: int, j: int| #[trigger]
                            in_cluster(clusters@, i, j, p) && (i < c || (i == c && j < k + 1));
                        if i < c || j < k {
                            assert(met(clusters@, c as int, k as int, p));
                        }
                    }
                }
            }
            k = k + 1;
        }
        proof {
            assert forall|p: Seq<char>| met(clusters@, c as int, k as int, p) <==> met(
                clusters@,
                c + 1,
                0,
                p,
            ) by {
                if met(clusters@, c as int, k as int, p) {
                    let (i, j) = choose|i: int, j: int| #[trigger]
                        in_cluster(clusters@, i, j, p) && (i < c || (i == c && j < k));
                    assert(in_cluster(clusters@, i, j, p) && i < c + 1);
                }
                if met(clusters@, c + 1, 0, p) {
                    let (i, j) = choose|i: int, j: int| #[trigger]
                        in_cluster(clusters@, i, j, p) && (i < c + 1 || (i == c + 1 && j < 0));
                    assert(in_cluster(clusters@, i, j, p) && (i < c || (i == c && j < k)));
                }
            }
        }
        c = c + 1;
    }
    proof {
        assert forall|p: Seq<char>| #[trigger] graph@.contains_key(p) <==> exists|i: int, j: int|
            in_cluster(clusters@, i, j, p) by {
            if exists|i: int, j: int| in_cluster(clusters@, i, j, p) {
                let (i, j) = choose|i: int, j: int| in_cluster(clusters@, i, j, p);
                assert(in_cluster(clusters@, i, j, p) && i < c);
            }
        }
    }
    graph
}

/// Draws friends for every node from all nodes, as many as `targets` says for it.
pub fn build_friend_graph(node_ids: &Vec<String>, targets: &Vec<usize>, rng: &mut ChaCha8Rng) -> (r:
    KeyedMap<String, Names>)
    requires
        targets@.len() == node_ids@.len(),
    ensures
        r.wf(),
        forall|p: Seq<char>| #[trigger] r@.contains_key(p) <==> texts(node_ids@).contains(p),
        forall|p: Seq<char>| #[trigger]
            r@.contains_key(p) ==> exists|k: int|
                0 <= k < node_ids@.len() && #[trigger] node_ids@[k]@ == p && friends_drawn(
                    r@[p],
                    p,
                    texts(node_ids@),
                    targets@[k] as int,
                ),
{
    let mut clusters: Vec<Vec<String>> = Vec::new();
    clusters.push(copy_all(node_ids));
    let mut goals: Vec<usize> = Vec::new();
    let mut i: usize = 0;
    while i < targets.len()
        invariant
            i <= targets@.len(),
            goals@ == targets@.take(i as int),
        decreases targets@.len() - i,
    {
        goals.push(targets[i]);
        i = i + 1;
        assert(targets@.take(i as int) =~= targets@.take(i - 1).push(targets@[i - 1]));
    }
    assert(goals@ =~= targets@);
    let mut all: Vec<Vec<usize>> = Vec::new();
    all.push(goals);
    let r = draw_friend_graph(&clusters, &all, rng);
    proof {
        assert(clusters@[0]@ == node_ids@);
        assert(all@[0]@ == targets@);
        assert forall|p: Seq<char>| #[trigger] r@.contains_key(p) <==> texts(node_ids@).contains(
            p,
        ) by {
            if r@.contains_key(p) {
                let (i, j) = choose|i: int, j: int| in_cluster(clusters@, i, j, p);
                assert(texts(node_ids@)[j] == p);
            }
            if texts(node_ids@).contains(p) {
                let j = choose|j: int| 0 <= j < texts(node_ids@).len() && texts(node_ids@)[j] == p;
                assert(in_cluster(clusters@, 0, j, p));
            }
        }
        assert forall|p: Seq<char>| #[trigger] r@.contains_key(p) implies exists|k: int|
            0 <= k < node_ids@.len() && #[trigger] node_ids@[k]@ == p && friends_drawn(
                r@[p],
                p,
                texts(node_ids@),
                targets@[k] as int,
            ) by {
            let (c, k) = choose|c: int, k: int| #[trigger]
                drawn_within(r@[p], p, clusters@, all@, c, k);
            assert(node_ids@[k]@ == p);
        }
    }
    r
}

/// Nobody is friends with themselves, and nobody's friend twice.
pub proof fn law_friends_are_others(
    friends: Seq<Seq<char>>,
    me: Seq<char>,
    from: Seq<Seq<char>>,
    target: int,
)
    requires
        friends_drawn(friends, me, from, target),
    ensures
        !friends.contains(me),
        friends.no_duplicates(),
{
}

// ---------------------------------------------------------------------------
// Links across clusters
// ---------------------------------------------------------------------------

/// The last of the first `n` clusters that `who` is in.
pub open spec fn home(clusters: Seq<Vec<String>>, n: nat, who: Seq<char>) -> Option<int>
    decreases n,
{
    if n == 0 {
        None
    } else if texts(clusters[n - 1]@).contains(who) {
        Some(n - 1)
    } else {
        home(clusters, (n - 1) as nat, who)
    }
}

/// Whether two nodes are in different clusters.
pub open spec fn apart(clusters: Seq<Vec<String>>, a: Seq<char>, b: Seq<char>) -> bool {
    home(clusters, clusters.len(), a) != home(clusters, clusters.len(), b)
}

fn find_home(clusters: &Vec<Vec<String>>, who: &str) -> (r: Option<usize>)
    ensures
        match r {
            Some(c) => home(clusters@, clusters@.len(), who@) == Some(c as int),
            None => home(clusters@, clusters@.len(), who@) is None,
        },
{
    let mut n: usize = clusters.len();
    while n > 0
        invariant
            n <= clusters@.len(),
            home(clusters@, clusters@.len(), who@) == home(clusters@, n as nat, who@),
        decreases n,
    {
        n = n - 1;
        if contains(&clusters[n], who) {
            return Some(n);
        }
    }
    None
}

/// Whether two nodes may become friends across clusters: they are not the same, and in different
/// clusters.
pub fn may_link_across(clusters: &Vec<Vec<String>>, a: &str, b: &str) -> (r: bool)
    ensures
        r == (a@ != b@ && apart(clusters@, a@, b@)),
{
    if same(a, b) {
        return false;
    }
    match (find_home(clusters, a), find_home(clusters, b)) {
        (Some(x), Some(y)) => x != y,
        (None, None) => false,
        _ => true,
    }
}

/// The friends of everybody once `a` has also befriended `b`.
pub open spec fn with_friend(
    g: Map<Seq<char>, Seq<Seq<char>>>,
    a: Seq<char>,
    b: Seq<char>,
) -> Map<Seq<char>, Seq<Seq<char>>> {
    let list = if g.contains_key(a) {
        g[a]
    } else {
        Seq::empty()
    };
    g.insert(
        a,
        if list.contains(b) {
            list
        } else {
            list.push(b)
        },
    )
}

/// Adds a friend, once.
pub fn link_across(graph: &mut KeyedMap<String, Names>, a: &String, b: &String)
    requires
        old(graph).wf(),
    ensures
        final(graph).wf(),
        final(graph)@ == with_friend(old(graph)@, a@, b@),
{
    let ghost before = graph@;
    let mut list: Vec<String> = match graph.remove(a) {
        Some(n) => n.list,
        None => Vec::new(),
    };
    let ghost l0 = texts(list@);
    proof {
        if !before.contains_key(a@) {
            assert(l0 =~= Seq::empty());
        }
    }
    if !contains(&list, b.as_str()) {
        list.push(b.clone());
        assert(texts(list@) =~= l0.push(b@));
    }
    graph.insert(a.clone(), Names { list });
    assert(graph@ =~= with_friend(before, a@, b@));
}

// ---------------------------------------------------------------------------
// Friendships that are still to come
// ---------------------------------------------------------------------------

/// Two names in order.
pub open spec fn in_order(a: Seq<char>, b: Seq<char>) -> (Seq<char>, Seq<char>) {
    if text_le(a, b) {
        (a, b)
    } else {
        (b, a)
    }
}

/// Pairs of names.
pub open spec fn pair_names(v: Seq<(String, String)>) -> Seq<(Seq<char>, Seq<char>)> {
    v.map_values(|p: (String, String)| (p.0@, p.1@))
}

/// Whether a pair is among the first `n`.
fn has_pair(v: &Vec<(String, String)>, a: &str, b: &str) -> (r: bool)
    ensures
        r == pair_names(v@).contains((a@, b@)),
{
    let mut i: usize = 0;
    while i < v.len()
        invariant
            i <= v@.len(),
            forall|j: int| 0 <= j < i ==> #[trigger] pair_names(v@)[j] != (a@, b@),
        decreases v@.len() - i,
    {
        let p = &v[i];
        assert(pair_names(v@)[i as int] == (p.0@, p.1@));
        if same(p.0.as_str(), a) && same(p.1.as_str(), b) {
            return true;
        }
        i = i + 1;
    }
    false
}

proof fn lemma_in_order(a: Seq<char>, b: Seq<char>)
    ensures
        in_order(a, b) == in_order(b, a),
        in_order(in_order(a, b).0, in_order(a, b).1) == in_order(a, b),
{
    lemma_text_le_order(a, b, a);
    lemma_text_le_order(b, a, b);
}

/// The pairs of a list of links, each once whatever its direction.
fn unordered_pairs(links: &Vec<(String, String)>) -> (r: Vec<(String, String)>)
    ensures
        pair_names(r@).no_duplicates(),
        forall|a: Seq<char>, b: Seq<char>| #[trigger]
            pair_names(r@).contains((a, b)) ==> in_order(a, b) == (a, b),
        forall|a: Seq<char>, b: Seq<char>| #[trigger]
            pair_names(links@).contains((a, b)) ==> pair_names(r@).contains(in_order(a, b)),
        forall|a: Seq<char>, b: Seq<char>| #[trigger]
            pair_names(r@).contains((a, b)) ==> pair_names(links@).contains((a, b)) || pair_names(
                links@,
            ).contains((b, a)),
{
    let mut out: Vec<(String, String)> = Vec::new();
    let mut i: usize = 0;
    let ghost ls = pair_names(links@);
    while i < links.len()
        invariant
            i <= links@.len(),
            ls == pair_names(links@),
            pair_names(out@).no_duplicates(),
            forall|a: Seq<char>, b: Seq<char>| #[trigger]
                pair_names(out@).contains((a, b)) ==> in_order(a, b) == (a, b),
            forall|j: int|
                0 <= j < i ==> pair_names(out@).contains(
                    in_order((#[trigger] ls[j]).0, ls[j].1),
                ),
            forall|a: Seq<char>, b: Seq<char>| #[trigger]
                pair_names(out@).contains((a, b)) ==> ls.contains((a, b)) || ls.contains((b, a)),
        decreases links@.len() - i,
    {
        let l = &links[i];
        let ghost before = pair_names(out@);
        assert(ls[i as int] == (l.0@, l.1@));
        proof {
            lemma_in_order(l.0@, l.1@);
        }
        let (a, b) = if not_after(l.0.as_str(), l.1.as_str()) {
            (l.0.clone(), l.1.clone())
        } else {
            (l.1.clone(), l.0.clone())
        };
        let ghost k = (a@, b@);
        assert(k == in_order(l.0@, l.1@));
        if !has_pair(&out, a.as_str(), b.as_str()) {
            out.push((a, b));
            proof {
                let after = pair_names(out@);
                assert(after =~= before.push(k));
                assert forall|p: (Seq<char>, Seq<char>)| #[trigger] after.contains(p) <==> before.contains(p) || p
                    == k by {
                    if before.contains(p) {
                        let j = choose|j: int| 0 <= j < before.len() && before[j] == p;
                        assert(after[j] == p);
                    }
                    if p == k {
                        assert(after[before.len() as int] == p);
                    }
                }
                assert(ls.contains(k) || ls.contains((k.1, k.0))) by {
                    assert(ls.contains(ls[i as int]));
                }
            }
        }
        i = i + 1;
    }
    proof {
        assert forall|a: Seq<char>, b: Seq<char>| #[trigger] ls.contains((a, b)) implies pair_names(
            out@,
        ).contains(in_order(a, b)) by {
            let j = choose|j: int| 0 <= j < ls.len() && ls[j] == (a, b);
            assert(pair_names(out@).contains(in_order(ls[j].0, ls[j].1)));
        }
    }
    out
}

/// The friendships of a simulation: those that hold from the start, in both directions, and those
/// that are still to come.
pub struct FriendSplit {
    pub active: Vec<(String, String)>,
    pub pending: Vec<(String, String)>,
}

/// The friendships in a list of links, each once whatever its direction.
pub open spec fn friendships(links: Seq<(String, String)>) -> Set<(Seq<char>, Seq<char>)> {
    pair_names(links).map_values(|p: (Seq<char>, Seq<char>)| in_order(p.0, p.1)).to_set()
}

proof fn lemma_friendships(links: Seq<(String, String)>, pairs: Seq<(Seq<char>, Seq<char>)>)
    requires
        pairs.no_duplicates(),
        forall|a: Seq<char>, b: Seq<char>| #[trigger]
            pairs.contains((a, b)) ==> in_order(a, b) == (a, b),
        forall|a: Seq<char>, b: Seq<char>| #[trigger]
            pair_names(links).contains((a, b)) ==> pairs.contains(in_order(a, b)),
        forall|a: Seq<char>, b: Seq<char>| #[trigger]
            pairs.contains((a, b)) ==> pair_names(links).contains((a, b)) || pair_names(
                links,
            ).contains((b, a)),
    ensures
        pairs.len() == friendships(links).len(),
{
    let ls = pair_names(links);
    let ordered = ls.map_values(|p: (Seq<char>, Seq<char>)| in_order(p.0, p.1));
    assert forall|k: (Seq<char>, Seq<char>)| pairs.to_set().contains(k) implies ordered.to_set().contains(
        k,
    ) by {
        let (a, b) = k;
        assert(pairs.contains((a, b)));
        lemma_in_order(a, b);
        let j = choose|j: int| 0 <= j < ls.len() && (ls[j] == (a, b) || ls[j] == (b, a));
        assert(ordered[j] == k);
    }
    assert forall|k: (Seq<char>, Seq<char>)| ordered.to_set().contains(k) implies pairs.to_set().contains(
        k,
    ) by {
        let j = choose|j: int| 0 <= j < ordered.len() && ordered[j] == k;
        assert(ls.contains((ls[j].0, ls[j].1)));
    }
    assert(pairs.to_set() =~= ordered.to_set());
    pairs.unique_seq_to_set();
}

/// Splits friendships: `n_active` of them, drawn at random, hold from the start, and the others
/// are still to come.
pub fn split_friend_graph(
    links: &Vec<(String, String)>,
    n_active: usize,
    rng: &mut ChaCha8Rng,
) -> (r: FriendSplit)
    ensures
        pair_names(r.pending@).no_duplicates(),
        forall|a: Seq<char>, b: Seq<char>| #[trigger]
            pair_names(r.active@).contains((a, b)) ==> pair_names(r.active@).contains((b, a)),
        forall|a: Seq<char>, b: Seq<char>| #[trigger]
            pair_names(links@).contains((a, b)) ==> (pair_names(r.active@).contains((a, b))
                != pair_names(r.pending@).contains(in_order(a, b))),
        forall|a: Seq<char>, b: Seq<char>| #[trigger]
            pair_names(r.active@).contains((a, b)) ==> pair_names(links@).contains((a, b))
                || pair_names(links@).contains((b, a)),
        forall|a: Seq<char>, b: Seq<char>| #[trigger]
            pair_names(r.pending@).contains((a, b)) ==> pair_names(links@).contains((a, b))
                || pair_names(links@).contains((b, a)),
        forall|a: Seq<char>, b: Seq<char>| #[trigger]
            pair_names(r.pending@).contains((a, b)) ==> in_order(a, b) == (a, b),
        ({
            let all = friendships(links@).len();
            let n = if n_active <= all {
                n_active as int
            } else {
                all as int
            };
            r.active@.len() == 2 * n && r.pending@.len() == all - n
        }),
{
    let mut pairs = unordered_pairs(links);
    let ghost unshuffled = pairs@;
    shuffle(&mut pairs, rng);
    proof {
        lemma_shuffled(unshuffled, pairs@);
    }
    let ghost ps = pair_names(pairs@);
    proof {
        lemma_friendships(links@, ps);
    }
    let mut active: Vec<(String, String)> = Vec::new();
    let mut pending: Vec<(String, String)> = Vec::new();
    let mut i: usize = 0;
    while i < pairs.len()
        invariant
            i <= pairs@.len(),
            ps == pair_names(pairs@),
            ps.no_duplicates(),
            pair_names(pending@) == (if i <= n_active {
                Seq::empty()
            } else {
                ps.subrange(n_active as int, i as int)
            }),
            active@.len() == (if i <= n_active {
                2 * i
            } else {
                2 * n_active
            }),
            forall|j: int|
                #![trigger ps[j]]
                0 <= j < i && j < n_active ==> pair_names(active@).contains(ps[j])
                    && pair_names(active@).contains((ps[j].1, ps[j].0)),
            forall|a: Seq<char>, b: Seq<char>| #[trigger]
                pair_names(active@).contains((a, b)) ==> exists|j: int|
                    0 <= j < i && j < n_active && (#[trigger] ps[j] == (a, b) || ps[j] == (b, a)),
        decreases pairs@.len() - i,
    {
        let p = &pairs[i];
        let ghost x = ps[i as int];
        assert(x == (p.0@, p.1@));
        let ghost a0 = pair_names(active@);
        let ghost p0 = pair_names(pending@);
        if i < n_active {
            active.push((p.0.clone(), p.1.clone()));
            active.push((p.1.clone(), p.0.clone()));
            proof {
                let a1 = pair_names(active@);
                let y = (x.1, x.0);
                assert(a1 =~= a0.push(x).push(y));
                assert forall|q: (Seq<char>, Seq<char>)| #[trigger] a1.contains(q) <==> a0.contains(q) || q == x
                    || q == y by {
                    if a0.contains(q) {
                        let j = choose|j: int| 0 <= j < a0.len() && a0[j] == q;
                        assert(a1[j] == q);
                    }
                    if q == x {
                        assert(a1[a0.len() as int] == q);
                    }
                    if q == y {
                        assert(a1[a0.len() as int + 1] == q);
                    }
                }
                assert forall|a: Seq<char>, b: Seq<char>| #[trigger] a1.contains((a, b)) implies exists|
                    j: int,
                |
                    0 <= j < i + 1 && j < n_active && (#[trigger] ps[j] == (a, b) || ps[j] == (
                        b,
                        a,
                    )) by {
                    if a0.contains((a, b)) {
                        let j = choose|j: int|
                            0 <= j < i && j < n_active && (#[trigger] ps[j] == (a, b) || ps[j] == (
                                b,
                                a,
                            ));
                        assert(ps[j] == (a, b) || ps[j] == (b, a));
                    } else {
                        assert(ps[i as int] == (a, b) || ps[i as int] == (b, a));
                    }
                }
            }
        } else {
            pending.push((p.0.clone(), p.1.clone()));
            proof {
                assert(pair_names(pending@) =~= p0.push(x));
                assert(ps.subrange(n_active as int, i + 1) =~= ps.subrange(
                    n_active as int,
                    i as int,
                ).push(x));
                assert(ps.subrange(n_active as int, n_active as int) =~= Seq::empty());
            }
        }
        i = i + 1;
    }
    proof {
        let act = pair_names(active@);
        let pen = pair_names(pending@);
        let ls = pair_names(links@);
        assert forall|j: int| 0 <= j < pen.len() implies #[trigger] pen[j] == ps[n_active + j] by {}
        assert(pen.no_duplicates());
        assert forall|a: Seq<char>, b: Seq<char>| #[trigger] act.contains((a, b)) implies act.contains(
            (b, a),
        ) by {
            let j = choose|j: int|
                0 <= j < i && j < n_active && (#[trigger] ps[j] == (a, b) || ps[j] == (b, a));
            assert(act.contains(ps[j]) && act.contains((ps[j].1, ps[j].0)));
        }
        assert forall|a: Seq<char>, b: Seq<char>| #[trigger] ls.contains((a, b)) implies act.contains(
            (a, b),
        ) != pen.contains(in_order(a, b)) by {
            let k = in_order(a, b);
            lemma_in_order(a, b);
            assert(ps.contains(k));
            let j = choose|j: int| 0 <= j < ps.len() && ps[j] == k;
            if j < n_active {
                assert(act.contains(ps[j]) && act.contains((ps[j].1, ps[j].0)));
                if pen.contains(k) {
                    let m = choose|m: int| 0 <= m < pen.len() && pen[m] == k;
                    assert(ps[n_active + m] == ps[j]);
                }
            } else {
                assert(pen[j - n_active] == k);
                if act.contains((a, b)) {
                    let m = choose|m: int|
                        0 <= m < i && m < n_active && (#[trigger] ps[m] == (a, b) || ps[m] == (
                            b,
                            a,
                        ));
                    assert(ps.contains(ps[m]));
                    assert(in_order(ps[m].0, ps[m].1) == ps[m]);
                    assert(ps[m] == k);
                    assert(ps[m] == ps[j]);
                }
            }
        }
        assert forall|a: Seq<char>, b: Seq<char>| #[trigger] act.contains((a, b)) implies ls.contains(
            (a, b),
        ) || ls.contains((b, a)) by {
            let j = choose|j: int|
                0 <= j < i && j < n_active && (#[trigger] ps[j] == (a, b) || ps[j] == (b, a));
            assert(ps.contains((ps[j].0, ps[j].1)));
        }
        assert forall|a: Seq<char>, b: Seq<char>| #[trigger] pen.contains((a, b)) implies ls.contains(
            (a, b),
        ) || ls.contains((b, a)) by {
            let m = choose|m: int| 0 <= m < pen.len() && pen[m] == (a, b);
            assert(ps[n_active + m] == (a, b));
            assert(ps.contains((a, b)));
        }
        assert forall|a: Seq<char>, b: Seq<char>| #[trigger] pen.contains((a, b)) implies in_order(
            a,
            b,
        ) == (a, b) by {
            let m = choose|m: int| 0 <= m < pen.len() && pen[m] == (a, b);
            assert(ps[n_active + m] == (a, b));
            assert(ps.contains((a, b)));
        }
    }
    FriendSplit { active, pending }
}

proof fn lemma_shuffled(before: Seq<(String, String)>, after: Seq<(String, String)>)
    requires
        after.to_multiset() == before.to_multiset(),
        pair_names(before).no_duplicates(),
    ensures
        after.len() == before.len(),
        pair_names(after).no_duplicates(),
        forall|p: (Seq<char>, Seq<char>)| #[trigger]
            pair_names(after).contains(p) <==> pair_names(before).contains(p),
{
    before.to_multiset_ensures();
    after.to_multiset_ensures();
    let b = pair_names(before);
    let a = pair_names(after);
    assert(before.no_duplicates()) by {
        assert forall|i: int, j: int|
            0 <= i < before.len() && 0 <= j < before.len() && i != j implies before[i]
            != before[j] by {
            assert(b[i] != b[j]);
        }
    }
    before.lemma_multiset_has_no_duplicates();
    after.lemma_multiset_has_no_duplicates_conv();
    assert forall|x: (String, String)| after.contains(x) <==> before.contains(x) by {
        vstd::seq_lib::to_multiset_contains(after, x);
        vstd::seq_lib::to_multiset_contains(before, x);
    }
    assert forall|i: int, j: int| 0 <= i < a.len() && 0 <= j < a.len() && i != j implies a[i]
        != a[j] by {
        assert(after.contains(after[i]) && after.contains(after[j]));
        let k = choose|k: int| 0 <= k < before.len() && before[k] == after[i];
        let l = choose|l: int| 0 <= l < before.len() && before[l] == after[j];
        assert(after[i] != after[j]);
        assert(b[k] != b[l]);
    }
    assert forall|p: (Seq<char>, Seq<char>)| #[trigger] a.contains(p) <==> b.contains(p) by {
        if a.contains(p) {
            let i = choose|i: int| 0 <= i < a.len() && a[i] == p;
            assert(after.contains(after[i]));
            let k = choose|k: int| 0 <= k < before.len() && before[k] == after[i];
            assert(b[k] == p);
        }
        if b.contains(p) {
            let k = choose|k: int| 0 <= k < b.len() && b[k] == p;
            assert(before.contains(before[k]));
            let i = choose|i: int| 0 <= i < after.len() && after[i] == before[k];
            assert(a[i] == p);
        }
    }
}

} // verus!
