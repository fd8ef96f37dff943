//! Random choices of a simulation, and filler text for its messages.
use vstd::prelude::*;
use vstd::string::*;

use rand::seq::SliceRandom;
use rand::Rng;
use rand_chacha::ChaCha8Rng;

use crate::text::contains;
use crate::text::same;
use crate::text::texts;

verus! {

/// The generator from which a simulation draws.
#[verifier::external_type_specification]
#[verifier::external_body]
pub struct ExChaCha8Rng(ChaCha8Rng);

/// `rand::Rng::gen_range`: a number from `low` to `high`, both included. Nothing is said of
/// which.
#[verifier::external_body]
pub(crate) fn draw(rng: &mut ChaCha8Rng, low: usize, high: usize) -> (r: usize)
    requires
        low <= high,
    ensures
        low <= r <= high,
{
    rng.gen_range(low..=high)
}

/// `rand::seq::SliceRandom::shuffle`: the pairs in some order. Nothing is said of which.
#[verifier::external_body]
pub(crate) fn shuffle(pairs: &mut Vec<(String, String)>, rng: &mut ChaCha8Rng)
    ensures
        final(pairs)@.to_multiset() == old(pairs)@.to_multiset(),
{
    pairs.shuffle(rng);
}

/// Orders two bounds.
pub fn normalize_bounds(min: usize, max: usize) -> (r: (usize, usize))
    ensures
        r.0 <= r.1,
        r == (min, max) || r == (max, min),
{
    if min <= max {
        (min, max)
    } else {
        (max, min)
    }
}

/// A message size between two bounds, in whatever order they come.
pub fn uniform_message_size(rng: &mut ChaCha8Rng, min: usize, max: usize) -> (r: usize)
    ensures
        min <= r <= max || max <= r <= min,
{
    let (low, high) = normalize_bounds(min, max);
    draw(rng, low, high)
}

/// What message bodies are filled with.
pub const LOREM: &'static str = "Lorem ipsum dolor sit amet, consectetur adipiscing elit. ";

/// Filler text of a given length.
pub open spec fn filler(n: nat) -> Seq<char> {
    Seq::new(n, |i: int| LOREM@[i % 57])
}

/// A message body of a given size: filler text over and over, cut off at the size.
pub fn message_body(target_size: usize) -> (r: String)
    requires
        target_size <= isize::MAX,
    ensures
        r@ == filler(target_size as nat),
{
    proof {
        reveal_strlit("Lorem ipsum dolor sit amet, consectetur adipiscing elit. ");
        assert(LOREM@.len() == 57);
    }
    let rounds: usize = target_size / 57;
    let rest: usize = target_size % 57;
    let mut body = String::new();
    let mut i: usize = 0;
    proof {
        assert(body@ =~= filler(0));
    }
    while i < rounds
        invariant
            i <= rounds,
            LOREM@.len() == 57,
            body@ == filler((57 * i) as nat),
        decreases rounds - i,
    {
        let ghost before = body@;
        body.append(LOREM);
        proof {
            let after = filler((57 * i + 57) as nat);
            assert(body@ =~= after) by {
                assert forall|k: int| 0 <= k < 57 implies (#[trigger] (57 * i + k)) % 57 == k by {
                    vstd::arithmetic::div_mod::lemma_fundamental_div_mod_converse(
                        57 * i + k,
                        57,
                        i as int,
                        k,
                    );
                }
                assert forall|k: int| 0 <= k < after.len() implies body@[k] == after[k] by {
                    if k >= 57 * i {
                        let d = k - 57 * i;
                        assert((57 * i + d) % 57 == d);
                    }
                }
            }
        }
        i = i + 1;
    }
    let tail = LOREM.substring_char(0, rest);
    let ghost before = body@;
    body.append(tail);
    proof {
        let after = filler(target_size as nat);
        assert(body@ =~= after) by {
            assert forall|k: int| 0 <= k < after.len() implies body@[k] == after[k] by {
                if k >= 57 * rounds {
                    let d = k - 57 * rounds;
                    vstd::arithmetic::div_mod::lemma_fundamental_div_mod_converse(
                        k,
                        57,
                        rounds as int,
                        d,
                    );
                }
            }
        }
    }
    body
}

/// The names of a list, each once.
pub fn distinct(list: &Vec<String>) -> (r: Vec<String>)
    ensures
        texts(r@).no_duplicates(),
        forall|p: Seq<char>| #[trigger] texts(r@).contains(p) <==> texts(list@).contains(p),
        texts(list@).no_duplicates() ==> texts(r@) == texts(list@),
{
    let mut out: Vec<String> = Vec::new();
    let mut i: usize = 0;
    let ghost all = texts(list@);
    proof {
        assert(texts(out@) =~= Seq::empty());
        assert(all.take(0) =~= Seq::empty());
    }
    while i < list.len()
        invariant
            i <= list@.len(),
            all == texts(list@),
            texts(out@).no_duplicates(),
            forall|p: Seq<char>| #[trigger]
                texts(out@).contains(p) <==> all.take(i as int).contains(p),
            all.no_duplicates() ==> texts(out@) == all.take(i as int),
        decreases list@.len() - i,
    {
        let ghost before = texts(out@);
        let ghost x = all[i as int];
        let ghost t = all.take(i as int);
        proof {
            assert(all.take(i + 1) =~= t.push(x));
            assert forall|p: Seq<char>| t.push(x).contains(p) <==> t.contains(p) || p == x by {
                if t.contains(p) {
                    let j = choose|j: int| 0 <= j < t.len() && t[j] == p;
                    assert(t.push(x)[j] == p);
                }
                if p == x {
                    assert(t.push(x)[t.len() as int] == p);
                }
            }
        }
        if !contains(&out, list[i].as_str()) {
            out.push(list[i].clone());
            proof {
                let after = texts(out@);
                assert(after =~= before.push(x));
                assert forall|p: Seq<char>| after.contains(p) <==> before.contains(p) || p == x by {
                    if before.contains(p) {
                        let j = choose|j: int| 0 <= j < before.len() && before[j] == p;
                        assert(after[j] == p);
                    }
                    if p == x {
                        assert(after[before.len() as int] == p);
                    }
                }
            }
        } else {
            proof {
                assert(t.contains(x));
                let j = choose|j: int| 0 <= j < t.len() && t[j] == x;
                assert(all[j] == all[i as int]);
            }
        }
        i = i + 1;
    }
    proof {
        assert(all.take(i as int) =~= all);
    }
    out
}

/// Whether a name is the one that is left out.
pub open spec fn left_out(except: Option<&str>, name: Seq<char>) -> bool {
    match except {
        Some(e) => e@ == name,
        None => false,
    }
}

/// Draws up to `target` names from a list, none of them twice and `except` never: as many as
/// there are, where there are fewer.
pub fn draw_names(
    candidates: &Vec<String>,
    except: Option<&str>,
    target: usize,
    rng: &mut ChaCha8Rng,
) -> (r: Vec<String>)
    ensures
        texts(r@).no_duplicates(),
        forall|p: Seq<char>| #[trigger]
            texts(r@).contains(p) ==> texts(candidates@).contains(p) && !left_out(except, p),
        r@.len() <= target,
        r@.len() < target ==> forall|p: Seq<char>| #[trigger]
            texts(candidates@).contains(p) && !left_out(except, p) ==> texts(r@).contains(p),
{
    let mut rest = distinct(candidates);
    let ghost all = texts(rest@);
    let mut out: Vec<String> = Vec::new();
    proof {
        assert(texts(out@) =~= Seq::empty());
        assert(all.no_duplicates());
    }
    while out.len() < target && rest.len() > 0
        invariant
            texts(out@).no_duplicates(),
            texts(rest@).no_duplicates(),
            out@.len() <= target,
            forall|p: Seq<char>| #[trigger] texts(out@).contains(p) ==> all.contains(p) && !left_out(except, p),
            forall|p: Seq<char>| #[trigger] texts(rest@).contains(p) ==> all.contains(p),
            forall|p: Seq<char>| #[trigger]
                all.contains(p) && !left_out(except, p) ==> texts(out@).contains(p) || texts(
                    rest@,
                ).contains(p),
            forall|p: Seq<char>| #[trigger] texts(out@).contains(p) ==> !texts(rest@).contains(p),
        decreases rest@.len(),
    {
        let ghost r0 = texts(rest@);
        let ghost o0 = texts(out@);
        let k: usize = draw(rng, 0, rest.len() - 1);
        let name = rest.remove(k);
        let ghost x = name@;
        proof {
            let r1 = texts(rest@);
            assert(r1 =~= r0.remove(k as int));
            assert(r0[k as int] == x);
            assert(r0.contains(x));
            assert forall|p: Seq<char>| #[trigger] r1.contains(p) <==> r0.contains(p) && p != x by {
                if r1.contains(p) {
                    let j = choose|j: int| 0 <= j < r1.len() && r1[j] == p;
                    let j2 = if j < k {
                        j
                    } else {
                        j + 1
                    };
                    assert(r0[j2] == p);
                }
                if r0.contains(p) && p != x {
                    let j = choose|j: int| 0 <= j < r0.len() && r0[j] == p;
                    let j2 = if j < k {
                        j
                    } else {
                        j - 1
                    };
                    assert(r1[j2] == p);
                }
            }
            assert forall|i: int, j: int|
                0 <= i < r1.len() && 0 <= j < r1.len() && i != j implies r1[i] != r1[j] by {
                let i2 = if i < k {
                    i
                } else {
                    i + 1
                };
                let j2 = if j < k {
                    j
                } else {
                    j + 1
                };
                assert(r0[i2] != r0[j2]);
            }
        }
        let wanted = match except {
            Some(e) => !same(name.as_str(), e),
            None => true,
        };
        if wanted {
            out.push(name);
            proof {
                let o1 = texts(out@);
                assert(o1 =~= o0.push(x));
                assert(!o0.contains(x));
                assert forall|p: Seq<char>| #[trigger] o1.contains(p) <==> o0.contains(p) || p == x by {
                    if o0.contains(p) {
                        let j = choose|j: int| 0 <= j < o0.len() && o0[j] == p;
                        assert(o1[j] == p);
                    }
                    if p == x {
                        assert(o1[o0.len() as int] == p);
                    }
                }
            }
        }
    }
    proof {
        if out@.len() < target {
            assert forall|p: Seq<char>| #[trigger]
                texts(candidates@).contains(p) && !left_out(except, p) implies texts(out@).contains(p) by {
                assert(all.contains(p));
                assert(texts(rest@).len() == 0);
            }
        }
    }
    out
}

} // verus!
