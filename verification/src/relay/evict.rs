//! Making room in a full inbox.
use vstd::prelude::*;

use crate::relay::queue::bytes_weight;
use crate::relay::queue::Envelope;
use crate::relay::queue::Inbox;
use crate::relay::queue::charges;
use crate::relay::queue::lemma_ids_charges_push;
use crate::relay::queue::message_ids;
use crate::relay::queue::note_removal;
use crate::relay::queue::queue_bytes;
use crate::relay::queue::sent_bytes;
use crate::relay::queue::size_weight;
use crate::relay::queue::total_bytes;
use crate::relay::queue::named_charges;
use crate::sums::lemma_sum_add;
use crate::sums::lemma_sum_first;
use crate::sums::lemma_sum_monotone;
use crate::sums::lemma_sum_push;
use crate::sums::lemma_sum_remove;
use crate::sums::sum;
use crate::text::same;
use crate::text::texts;

verus! {

/// Whether `q` cannot take one more envelope of `size` bytes.
pub open spec fn overfull(
    q: Seq<Envelope>,
    size: nat,
    max_messages: usize,
    max_bytes: usize,
) -> bool {
    q.len() >= max_messages || total_bytes(q) + size > max_bytes
}

/// The bytes that the sender of envelope `i` has in `q`; nothing if it names no sender.
pub open spec fn holding(q: Seq<Envelope>, i: int) -> Option<nat> {
    match q[i].sender_id {
        Some(s) => Some(sent_bytes(q, s)),
        None => None,
    }
}

/// Whether sender weight `a` is below sender weight `b`.
pub open spec fn lighter(a: Option<nat>, b: Option<nat>) -> bool {
    match (a, b) {
        (Some(x), Some(y)) => x < y,
        (None, Some(_)) => true,
        _ => false,
    }
}

/// Whether envelope `i` is the one to go: no sender holds more bytes in `q` than its sender
/// does, and it is the oldest envelope of which that is true. Where no envelope names a sender,
/// that is the oldest of all.
pub open spec fn is_victim(q: Seq<Envelope>, i: int) -> bool {
    &&& 0 <= i < q.len()
    &&& forall|j: int| 0 <= j < q.len() ==> !lighter(holding(q, i), #[trigger] holding(q, j))
    &&& forall|j: int| 0 <= j < i ==> lighter(#[trigger] holding(q, j), holding(q, i))
}

/// The envelope that fair eviction removes from `q`.
pub open spec fn victim(q: Seq<Envelope>) -> int {
    choose|i: int| is_victim(q, i)
}

spec fn best_of(q: Seq<Envelope>, i: int, k: int) -> bool {
    &&& 0 <= i < k
    &&& forall|j: int| 0 <= j < k ==> !lighter(holding(q, i), #[trigger] holding(q, j))
    &&& forall|j: int| 0 <= j < i ==> lighter(#[trigger] holding(q, j), holding(q, i))
}

proof fn lemma_best_of(q: Seq<Envelope>, k: int) -> (i: int)
    requires
        0 < k <= q.len(),
    ensures
        best_of(q, i, k),
    decreases k,
{
    if k == 1 {
        0
    } else {
        let b = lemma_best_of(q, k - 1);
        if lighter(holding(q, b), holding(q, k - 1)) {
            k - 1
        } else {
            b
        }
    }
}

/// A queue that holds anything has exactly one victim.
pub proof fn lemma_victim(q: Seq<Envelope>)
    requires
        q.len() > 0,
    ensures
        is_victim(q, victim(q)),
        forall|i: int| #[trigger] is_victim(q, i) ==> i == victim(q),
{
    let b = lemma_best_of(q, q.len() as int);
    assert(is_victim(q, b));
    let v = victim(q);
    assert(is_victim(q, v));
    assert forall|i: int| #[trigger] is_victim(q, i) implies i == v by {
        if i < v {
            assert(lighter(holding(q, i), holding(q, v)));
        }
        if v < i {
            assert(lighter(holding(q, v), holding(q, i)));
        }
    }
}

/// What fair eviction keeps of `q` to make room for `size` more bytes.
pub open spec fn room(
    q: Seq<Envelope>,
    size: nat,
    max_messages: usize,
    max_bytes: usize,
) -> Seq<Envelope>
    decreases q.len(),
{
    if q.len() == 0 || !overfull(q, size, max_messages, max_bytes) {
        q
    } else {
        proof {
            lemma_victim(q);
        }
        room(q.remove(victim(q)), size, max_messages, max_bytes)
    }
}

/// What fair eviction removes from `q`, in the order of removal.
pub open spec fn evicted(
    q: Seq<Envelope>,
    size: nat,
    max_messages: usize,
    max_bytes: usize,
) -> Seq<Envelope>
    decreases q.len(),
{
    if q.len() == 0 || !overfull(q, size, max_messages, max_bytes) {
        Seq::empty()
    } else {
        proof {
            lemma_victim(q);
        }
        seq![q[victim(q)]] + evicted(q.remove(victim(q)), size, max_messages, max_bytes)
    }
}

/// What is kept of `q` when the oldest envelopes go first.
pub open spec fn room_oldest(
    q: Seq<Envelope>,
    size: nat,
    max_messages: usize,
    max_bytes: usize,
) -> Seq<Envelope>
    decreases q.len(),
{
    if q.len() == 0 || !overfull(q, size, max_messages, max_bytes) {
        q
    } else {
        room_oldest(q.drop_first(), size, max_messages, max_bytes)
    }
}

/// What goes when the oldest envelopes go first.
pub open spec fn evicted_oldest(
    q: Seq<Envelope>,
    size: nat,
    max_messages: usize,
    max_bytes: usize,
) -> Seq<Envelope>
    decreases q.len(),
{
    if q.len() == 0 || !overfull(q, size, max_messages, max_bytes) {
        Seq::empty()
    } else {
        seq![q[0]] + evicted_oldest(q.drop_first(), size, max_messages, max_bytes)
    }
}

/// Fair eviction leaves room, or nothing at all; what it keeps and what it removes share the
/// queue between them.
pub proof fn lemma_room(
    q: Seq<Envelope>,
    size: nat,
    max_messages: usize,
    max_bytes: usize,
    f: spec_fn(Envelope) -> nat,
)
    ensures
        ({
            let k = room(q, size, max_messages, max_bytes);
            let e = evicted(q, size, max_messages, max_bytes);
            &&& k.len() == 0 || !overfull(k, size, max_messages, max_bytes)
            &&& k.len() + e.len() == q.len()
            &&& sum(k, f) + sum(e, f) == sum(q, f)
        }),
    decreases q.len(),
{
    if q.len() == 0 || !overfull(q, size, max_messages, max_bytes) {
    } else {
        lemma_victim(q);
        let v = victim(q);
        lemma_room(q.remove(v), size, max_messages, max_bytes, f);
        lemma_sum_remove(q, v, f);
        let head = seq![q[v]];
        lemma_sum_add(head, evicted(q.remove(v), size, max_messages, max_bytes), f);
        lemma_sum_one(q[v], f);
    }
}

proof fn lemma_sum_one(e: Envelope, f: spec_fn(Envelope) -> nat)
    ensures
        sum(seq![e], f) == f(e),
{
    lemma_sum_push(Seq::empty(), e, f);
    assert(Seq::empty().push(e) =~= seq![e]);
}

/// Evicting the oldest first leaves room, or nothing at all; what it keeps and what it removes
/// share the queue between them.
pub proof fn lemma_room_oldest(
    q: Seq<Envelope>,
    size: nat,
    max_messages: usize,
    max_bytes: usize,
    f: spec_fn(Envelope) -> nat,
)
    ensures
        ({
            let k = room_oldest(q, size, max_messages, max_bytes);
            let e = evicted_oldest(q, size, max_messages, max_bytes);
            &&& k.len() == 0 || !overfull(k, size, max_messages, max_bytes)
            &&& k.len() + e.len() == q.len()
            &&& q == e + k
            &&& sum(k, f) + sum(e, f) == sum(q, f)
        }),
    decreases q.len(),
{
    if q.len() == 0 || !overfull(q, size, max_messages, max_bytes) {
        assert(Seq::<Envelope>::empty() + q =~= q);
    } else {
        let rest = q.drop_first();
        lemma_room_oldest(rest, size, max_messages, max_bytes, f);
        lemma_sum_first(q, f);
        let head = seq![q[0]];
        lemma_sum_add(head, evicted_oldest(rest, size, max_messages, max_bytes), f);
        lemma_sum_one(q[0], f);
        assert(q =~= head + rest);
        assert(head + (evicted_oldest(rest, size, max_messages, max_bytes) + room_oldest(
            rest,
            size,
            max_messages,
            max_bytes,
        )) =~= (head + evicted_oldest(rest, size, max_messages, max_bytes)) + room_oldest(
            rest,
            size,
            max_messages,
            max_bytes,
        ));
    }
}

/// No sender holds more than everything.
pub proof fn lemma_sent_bytes_total(q: Seq<Envelope>, who: Seq<char>)
    ensures
        sent_bytes(q, who) <= total_bytes(q),
{
    lemma_sum_monotone(q, bytes_weight(who), size_weight());
}

/// The bytes that `who` has in the queue.
fn bytes_from(queue: &Inbox, who: &str) -> (r: usize)
    requires
        total_bytes(queue@) <= usize::MAX,
    ensures
        r == sent_bytes(queue@, who@),
{
    let mut n: usize = 0;
    let mut i: usize = 0;
    while i < queue.len()
        invariant
            i <= queue@.len(),
            n == sent_bytes(queue@.take(i as int), who@),
            total_bytes(queue@) <= usize::MAX,
        decreases queue@.len() - i,
    {
        proof {
            let t = queue@.take(i as int);
            let t2 = queue@.take(i + 1);
            assert(t2 =~= t.push(queue@[i as int]));
            lemma_sum_push(t, queue@[i as int], bytes_weight(who@));
            assert(queue@ =~= t2 + queue@.skip(i + 1));
            lemma_sum_add(t2, queue@.skip(i + 1), bytes_weight(who@));
            lemma_sent_bytes_total(queue@, who@);
        }
        let from_who = match &queue.get(i).sender_id {
            Some(s) => same(s.as_str(), who),
            None => false,
        };
        if from_who {
            n = n + queue.get(i).size_bytes;
        }
        i = i + 1;
    }
    proof {
        assert(queue@.take(i as int) =~= queue@);
    }
    n
}

fn held(queue: &Inbox, i: usize) -> (r: Option<usize>)
    requires
        total_bytes(queue@) <= usize::MAX,
        i < queue@.len(),
    ensures
        match r {
            Some(n) => holding(queue@, i as int) == Some(n as nat),
            None => holding(queue@, i as int) is None,
        },
{
    match &queue.get(i).sender_id {
        Some(s) => Some(bytes_from(queue, s.as_str())),
        None => None,
    }
}

/// Finds the envelope that fair eviction removes.
pub fn find_victim(queue: &Inbox) -> (r: usize)
    requires
        total_bytes(queue@) <= usize::MAX,
        queue@.len() > 0,
    ensures
        r == victim(queue@),
        r < queue@.len(),
{
    let mut best: usize = 0;
    let mut best_held: Option<usize> = held(queue, 0);
    let mut i: usize = 1;
    while i < queue.len()
        invariant
            1 <= i <= queue@.len(),
            total_bytes(queue@) <= usize::MAX,
            best_of(queue@, best as int, i as int),
            match best_held {
                Some(n) => holding(queue@, best as int) == Some(n as nat),
                None => holding(queue@, best as int) is None,
            },
        decreases queue@.len() - i,
    {
        let here = held(queue, i);
        let heavier = match (best_held, here) {
            (Some(x), Some(y)) => x < y,
            (None, Some(_)) => true,
            _ => false,
        };
        if heavier {
            best = i;
            best_held = here;
        }
        i = i + 1;
    }
    proof {
        assert(is_victim(queue@, best as int));
        lemma_victim(queue@);
    }
    best
}

/// Whether the queue cannot take `size` more bytes.
fn is_overfull(
    queue: &Inbox,
    size: usize,
    max_messages: usize,
    max_bytes: usize,
) -> (r: bool)
    requires
        total_bytes(queue@) <= usize::MAX,
        size <= max_bytes,
    ensures
        r == overfull(queue@, size as nat, max_messages, max_bytes),
{
    queue.len() >= max_messages || queue_bytes(queue) > max_bytes - size
}

/// Removes envelopes until `size` more bytes fit or nothing is left, each time the oldest
/// envelope of a sender that holds the most bytes. Returns the message ids removed and what
/// their removal gives back to the senders' quotas.
///
/// Where several senders hold equally much, the one whose envelope is oldest loses it.
pub fn make_room(
    queue: &mut Inbox,
    size: usize,
    max_messages: usize,
    max_bytes: usize,
) -> (r: (Vec<String>, Vec<(Option<String>, usize)>))
    requires
        total_bytes(old(queue)@) <= usize::MAX,
        size <= max_bytes,
    ensures
        final(queue)@ == room(old(queue)@, size as nat, max_messages, max_bytes),
        texts(r.0@) == message_ids(evicted(old(queue)@, size as nat, max_messages, max_bytes)),
        named_charges(r.1@) == charges(evicted(old(queue)@, size as nat, max_messages, max_bytes)),
{
    let mut ids: Vec<String> = Vec::new();
    let mut back: Vec<(Option<String>, usize)> = Vec::new();
    let ghost q = queue@;
    let ghost all = evicted(q, size as nat, max_messages, max_bytes);
    let ghost mut out: Seq<Envelope> = Seq::empty();
    proof {
        assert(out + all =~= all);
        assert(message_ids(out) =~= Seq::empty());
        assert(charges(out) =~= Seq::empty());
    }
    while queue.len() > 0 && is_overfull(queue, size, max_messages, max_bytes)
        invariant
            size <= max_bytes,
            total_bytes(queue@) <= usize::MAX,
            room(queue@, size as nat, max_messages, max_bytes) == room(
                q,
                size as nat,
                max_messages,
                max_bytes,
            ),
            all == out + evicted(queue@, size as nat, max_messages, max_bytes),
            texts(ids@) == message_ids(out),
            named_charges(back@) == charges(out),
        decreases queue@.len(),
    {
        let ghost now_q = queue@;
        let v: usize = find_victim(queue);
        proof {
            lemma_victim(now_q);
            lemma_sum_remove(now_q, v as int, size_weight());
        }
        let item = queue.remove(v);
        note_removal(&item, &mut ids, &mut back);
        proof {
            let e = evicted(queue@, size as nat, max_messages, max_bytes);
            assert(out + (seq![item@] + e) =~= out.push(item@) + e);
            lemma_ids_charges_push(out, item@);
            out = out.push(item@);
        }
    }
    proof {
        assert(out + Seq::<Envelope>::empty() =~= out);
    }
    (ids, back)
}

/// Removes envelopes, oldest first, until `size` more bytes fit or nothing is left. Returns the
/// message ids removed and what their removal gives back to the senders' quotas.
pub fn make_room_oldest(
    queue: &mut Inbox,
    size: usize,
    max_messages: usize,
    max_bytes: usize,
) -> (r: (Vec<String>, Vec<(Option<String>, usize)>))
    requires
        total_bytes(old(queue)@) <= usize::MAX,
        size <= max_bytes,
    ensures
        final(queue)@ == room_oldest(old(queue)@, size as nat, max_messages, max_bytes),
        texts(r.0@) == message_ids(evicted_oldest(old(queue)@, size as nat, max_messages, max_bytes)),
        named_charges(r.1@) == charges(evicted_oldest(old(queue)@, size as nat, max_messages, max_bytes)),
{
    let mut ids: Vec<String> = Vec::new();
    let mut back: Vec<(Option<String>, usize)> = Vec::new();
    let ghost q = queue@;
    let ghost all = evicted_oldest(q, size as nat, max_messages, max_bytes);
    let ghost mut out: Seq<Envelope> = Seq::empty();
    proof {
        assert(out + all =~= all);
        assert(message_ids(out) =~= Seq::empty());
        assert(charges(out) =~= Seq::empty());
    }
    while queue.len() > 0 && is_overfull(queue, size, max_messages, max_bytes)
        invariant
            size <= max_bytes,
            total_bytes(queue@) <= usize::MAX,
            room_oldest(queue@, size as nat, max_messages, max_bytes) == room_oldest(
                q,
                size as nat,
                max_messages,
                max_bytes,
            ),
            all == out + evicted_oldest(queue@, size as nat, max_messages, max_bytes),
            texts(ids@) == message_ids(out),
            named_charges(back@) == charges(out),
        decreases queue@.len(),
    {
        let ghost now_q = queue@;
        proof {
            lemma_sum_first(now_q, size_weight());
        }
        match queue.pop_front() {
            Some(item) => {
                note_removal(&item, &mut ids, &mut back);
                proof {
                    let e = evicted_oldest(queue@, size as nat, max_messages, max_bytes);
                    assert(out + (seq![item@] + e) =~= out.push(item@) + e);
                    lemma_ids_charges_push(out, item@);
                    out = out.push(item@);
                }
            },
            None => {
                assert(false);
            },
        }
    }
    proof {
        assert(out + Seq::<Envelope>::empty() =~= out);
    }
    (ids, back)
}

} // verus!
