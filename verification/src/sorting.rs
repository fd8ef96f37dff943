//! Sorting by a rank of one's own.
use vstd::prelude::*;

verus! {

/// Values with a total preorder.
pub trait Ranked: Sized {
    /// Whether `self` may stand before `other`.
    spec fn ranks(&self, other: &Self) -> bool;

    proof fn lemma_total(a: &Self, b: &Self)
        ensures
            a.ranks(b) || b.ranks(a),
    ;

    proof fn lemma_transitive(a: &Self, b: &Self, c: &Self)
        requires
            a.ranks(b),
            b.ranks(c),
        ensures
            a.ranks(c),
    ;

    /// Whether `self` may stand before `other`.
    fn may_precede(&self, other: &Self) -> (r: bool)
        ensures
            r == self.ranks(other),
    ;
}

/// Whether every element may stand before all that follow it.
pub open spec fn sorted<T: Ranked>(s: Seq<T>) -> bool {
    forall|i: int, j: int|
        #![trigger s[i], s[j]]
        0 <= i < j < s.len() ==> s[i].ranks(&s[j])
}

/// Whether `from` lists every index below `n` exactly once.
pub open spec fn is_arrangement(from: Seq<int>, n: int) -> bool {
    &&& from.len() == n
    &&& from.no_duplicates()
    &&& forall|i: int| 0 <= i < n ==> 0 <= #[trigger] from[i] < n
    &&& forall|k: int| 0 <= k < n ==> #[trigger] from.contains(k)
}

/// Whether `s` is `t` with its elements arranged as `from` says.
pub open spec fn arranged<T>(s: Seq<T>, t: Seq<T>, from: Seq<int>) -> bool {
    &&& is_arrangement(from, t.len() as int)
    &&& s.len() == t.len()
    &&& forall|i: int| 0 <= i < s.len() ==> #[trigger] s[i] == t[from[i]]
}

/// Whether `s` holds the elements of `t`, in some order.
pub open spec fn rearranged<T>(s: Seq<T>, t: Seq<T>) -> bool {
    exists|from: Seq<int>| #[trigger] arranged(s, t, from)
}

/// Rearranging keeps what is there: everything of `t` is found in `s`, and nothing else.
pub proof fn lemma_rearranged<T>(s: Seq<T>, t: Seq<T>)
    requires
        rearranged(s, t),
    ensures
        s.len() == t.len(),
        forall|x: T| s.contains(x) <==> t.contains(x),
{
    let from = choose|from: Seq<int>| #[trigger] arranged(s, t, from);
    assert forall|x: T| s.contains(x) <==> t.contains(x) by {
        if s.contains(x) {
            let i = choose|i: int| 0 <= i < s.len() && s[i] == x;
            assert(t[from[i]] == x);
        }
        if t.contains(x) {
            let k = choose|k: int| 0 <= k < t.len() && t[k] == x;
            assert(from.contains(k));
            let i = choose|i: int| 0 <= i < from.len() && from[i] == k;
            assert(s[i] == x);
        }
    }
}

/// Rearranging keeps distinct images distinct.
pub proof fn lemma_rearranged_distinct<T, N>(s: Seq<T>, t: Seq<T>, f: spec_fn(T) -> N)
    requires
        rearranged(s, t),
        t.map_values(f).no_duplicates(),
    ensures
        s.map_values(f).no_duplicates(),
{
    let from = choose|from: Seq<int>| #[trigger] arranged(s, t, from);
    let a = s.map_values(f);
    let b = t.map_values(f);
    assert forall|i: int, j: int| 0 <= i < a.len() && 0 <= j < a.len() && i != j implies a[i]
        != a[j] by {
        assert(s[i] == t[from[i]]);
        assert(s[j] == t[from[j]]);
        assert(from[i] != from[j]);
        assert(b[from[i]] != b[from[j]]);
    }
}

/// Whether elements of the same rank stand in the order from which `from` took them.
pub open spec fn in_turn<T: Ranked>(s: Seq<T>, from: Seq<int>) -> bool {
    forall|i: int, j: int|
        #![trigger s[i], s[j]]
        0 <= i < j < s.len() && s[j].ranks(&s[i]) ==> from[i] < from[j]
}

/// Whether `s` is `t` sorted by rank, elements of the same rank in the order of `t`.
pub open spec fn is_sorted_form<T: Ranked>(s: Seq<T>, t: Seq<T>) -> bool {
    &&& sorted(s)
    &&& exists|from: Seq<int>| #[trigger] arranged(s, t, from) && in_turn(s, from)
}

/// Arranges the elements of `v` by rank; those of the same rank keep their order.
pub fn sort<T: Ranked>(v: Vec<T>) -> (r: Vec<T>)
    ensures
        is_sorted_form(r@, v@),
        sorted(r@),
        rearranged(r@, v@),
{
    let ghost all = v@;
    let mut rest: Vec<T> = v;
    let mut out: Vec<T> = Vec::new();
    let ghost mut from: Seq<int> = Seq::empty();
    loop
        invariant
            rest@.len() + out@.len() == all.len(),
            rest@ == all.take(rest@.len() as int),
            sorted(out@),
            in_turn(out@, from),
            from.len() == out@.len(),
            from.no_duplicates(),
            forall|i: int|
                0 <= i < from.len() ==> rest@.len() <= #[trigger] from[i] < all.len() && out@[i]
                    == all[from[i]],
            forall|k: int| rest@.len() <= k < all.len() ==> #[trigger] from.contains(k),
        ensures
            rest@.len() == 0,
        decreases rest@.len(),
    {
        match rest.pop() {
            None => {
                break;
            },
            Some(item) => {
                let ghost n = rest@.len() as int;
                assert(rest@ =~= all.take(n));
                assert(item == all[n]);
                let mut p: usize = 0;
                while p < out.len() && !item.may_precede(&out[p])
                    invariant
                        p <= out@.len(),
                        forall|j: int| 0 <= j < p ==> !item.ranks(&(#[trigger] out@[j])),
                    decreases out@.len() - p,
                {
                    p = p + 1;
                }
                let ghost before = out@;
                let ghost old_from = from;
                proof {
                    assert forall|j: int|
                        #![trigger before[j]]
                        0 <= j < p implies before[j].ranks(&item) by {
                        T::lemma_total(&item, &before[j]);
                    }
                    assert forall|j: int|
                        #![trigger before[j]]
                        p <= j < before.len() implies item.ranks(&before[j]) by {
                        if j > p {
                            T::lemma_transitive(&item, &before[p as int], &before[j]);
                        }
                    }
                }
                out.insert(p, item);
                proof {
                    let after = out@;
                    from = old_from.insert(p as int, n);
                    assert(after =~= before.insert(p as int, item));
                    assert forall|i: int, j: int|
                        #![trigger after[i], after[j]]
                        0 <= i < j < after.len() implies after[i].ranks(&after[j]) by {
                        let i2 = if i < p {
                            i
                        } else {
                            i - 1
                        };
                        let j2 = if j < p {
                            j
                        } else {
                            j - 1
                        };
                        if i == p {
                            assert(item.ranks(&before[j2]));
                        } else if j == p {
                            assert(before[i2].ranks(&item));
                        } else {
                            assert(before[i2].ranks(&before[j2]));
                        }
                    }
                    assert forall|i: int, j: int|
                        #![trigger after[i], after[j]]
                        0 <= i < j < after.len() && after[j].ranks(&after[i]) implies from[i]
                        < from[j] by {
                        let i2 = if i < p {
                            i
                        } else {
                            i - 1
                        };
                        let j2 = if j < p {
                            j
                        } else {
                            j - 1
                        };
                        if i == p {
                            assert(old_from[j2] > n);
                        } else if j == p {
                            assert(!item.ranks(&before[i2]));
                        } else {
                            assert(before[j2].ranks(&before[i2]));
                        }
                    }
                    assert forall|i: int, j: int|
                        0 <= i < from.len() && 0 <= j < from.len() && i != j implies from[i]
                        != from[j] by {
                        let i2 = if i < p {
                            i
                        } else {
                            i - 1
                        };
                        let j2 = if j < p {
                            j
                        } else {
                            j - 1
                        };
                        if i != p && j != p {
                            assert(old_from[i2] != old_from[j2]);
                        } else if i != p {
                            assert(old_from[i2] > n);
                        } else {
                            assert(old_from[j2] > n);
                        }
                    }
                    assert forall|i: int| 0 <= i < from.len() implies n <= #[trigger] from[i]
                        < all.len() && after[i] == all[from[i]] by {
                        let i2 = if i < p {
                            i
                        } else {
                            i - 1
                        };
                        if i != p {
                            assert(old_from[i2] < all.len());
                        }
                    }
                    assert forall|k: int| n <= k < all.len() implies #[trigger] from.contains(
                        k,
                    ) by {
                        if k == n {
                            assert(from[p as int] == k);
                        } else {
                            assert(old_from.contains(k));
                            let w = choose|w: int| 0 <= w < old_from.len() && old_from[w] == k;
                            let w2 = if w < p {
                                w
                            } else {
                                w + 1
                            };
                            assert(from[w2] == k);
                        }
                    }
                }
            },
        }
    }
    proof {
        assert(arranged(out@, all, from));
    }
    out
}

} // verus!
