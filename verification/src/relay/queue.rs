//! An inbox as a queue of envelopes, oldest first.
use std::collections::VecDeque;

use vstd::prelude::*;

use crate::relay::config::MILLISECOND;
use crate::relay::config::SECOND;
use crate::sums::lemma_sum_add;
use crate::sums::lemma_sum_first;
use crate::sums::lemma_sum_push;
use crate::sums::sum;
use crate::text::copy_opt;
use crate::text::opt_text;
use crate::text::texts;

verus! {

/// An envelope waiting in an inbox.
pub struct StoredEnvelope {
    pub body: String,
    pub size_bytes: usize,
    pub expires_at: u128,
    pub message_id: String,
    pub stored_at: u128,
    /// Sender identity, used for quotas and fair eviction.
    pub sender_id: Option<String>,
}

/// What an envelope waiting in an inbox holds.
pub struct Envelope {
    pub body: Seq<char>,
    pub size_bytes: usize,
    pub expires_at: u128,
    pub message_id: Seq<char>,
    pub stored_at: u128,
    pub sender_id: Option<Seq<char>>,
}

impl View for StoredEnvelope {
    type V = Envelope;

    open spec fn view(&self) -> Envelope {
        Envelope {
            body: self.body@,
            size_bytes: self.size_bytes,
            expires_at: self.expires_at,
            message_id: self.message_id@,
            stored_at: self.stored_at,
            sender_id: opt_text(self.sender_id),
        }
    }
}

impl StoredEnvelope {
    /// A second envelope with the same contents.
    pub fn copied(&self) -> (r: Self)
        ensures
            r@ == self@,
    {
        StoredEnvelope {
            body: self.body.clone(),
            size_bytes: self.size_bytes,
            expires_at: self.expires_at,
            message_id: self.message_id.clone(),
            stored_at: self.stored_at,
            sender_id: copy_opt(&self.sender_id),
        }
    }
}

/// An inbox: envelopes in the order in which they were stored.
pub struct Inbox {
    items: VecDeque<StoredEnvelope>,
}

impl View for Inbox {
    type V = Seq<Envelope>;

    closed spec fn view(&self) -> Seq<Envelope> {
        self.items@.map_values(|e: StoredEnvelope| e@)
    }
}

impl Inbox {
    pub fn new() -> (r: Self)
        ensures
            r@ == Seq::<Envelope>::empty(),
    {
        let r = Inbox { items: VecDeque::new() };
        assert(r@ =~= Seq::empty());
        r
    }

    pub fn len(&self) -> (n: usize)
        ensures
            n == self@.len(),
    {
        self.items.len()
    }

    pub fn get(&self, i: usize) -> (e: &StoredEnvelope)
        requires
            i < self@.len(),
        ensures
            e@ == self@[i as int],
    {
        &self.items[i]
    }

    pub fn push_back(&mut self, e: StoredEnvelope)
        ensures
            final(self)@ == old(self)@.push(e@),
    {
        let ghost before = self@;
        self.items.push_back(e);
        assert(self@ =~= before.push(e@));
    }

    pub fn pop_front(&mut self) -> (r: Option<StoredEnvelope>)
        ensures
            match r {
                Some(e) => {
                    &&& old(self)@.len() > 0
                    &&& e@ == old(self)@[0]
                    &&& final(self)@ == old(self)@.drop_first()
                },
                None => old(self)@.len() == 0 && final(self)@ == old(self)@,
            },
    {
        let ghost before = self@;
        let r = self.items.pop_front();
        proof {
            if before.len() > 0 {
                assert(self@ =~= before.drop_first());
            } else {
                assert(self@ =~= before);
            }
        }
        r
    }

    pub fn remove(&mut self, i: usize) -> (r: StoredEnvelope)
        requires
            i < old(self)@.len(),
        ensures
            r@ == old(self)@[i as int],
            final(self)@ == old(self)@.remove(i as int),
    {
        let ghost before = self@;
        let r = self.items.remove(i);
        assert(self@ =~= before.remove(i as int));
        r.unwrap()
    }
}

/// Time from `since` to `now`; zero if `since` lies ahead.
pub open spec fn elapsed(now: u128, since: u128) -> int {
    if since <= now {
        now - since
    } else {
        0
    }
}

/// Time from `since` to `now`; zero if `since` lies ahead.
pub fn time_since(now: u128, since: u128) -> (r: u128)
    ensures
        r == elapsed(now, since),
{
    if since <= now {
        now - since
    } else {
        0
    }
}

// ---------------------------------------------------------------------------
// What a queue weighs
// ---------------------------------------------------------------------------

pub open spec fn size_weight() -> spec_fn(Envelope) -> nat {
    |e: Envelope| e.size_bytes as nat
}

/// Whether `e` was sent by `who`.
pub open spec fn sent_by(e: Envelope, who: Seq<char>) -> bool {
    e.sender_id == Some(who)
}

pub open spec fn count_weight(who: Seq<char>) -> spec_fn(Envelope) -> nat {
    |e: Envelope| if sent_by(e, who) { 1nat } else { 0nat }
}

pub open spec fn bytes_weight(who: Seq<char>) -> spec_fn(Envelope) -> nat {
    |e: Envelope| if sent_by(e, who) { e.size_bytes as nat } else { 0nat }
}

/// The bytes of all envelopes of `q`.
pub open spec fn total_bytes(q: Seq<Envelope>) -> nat {
    sum(q, size_weight())
}

/// How many envelopes of `q` came from `who`.
pub open spec fn sent_count(q: Seq<Envelope>, who: Seq<char>) -> nat {
    sum(q, count_weight(who))
}

/// The bytes of those envelopes of `q` that came from `who`.
pub open spec fn sent_bytes(q: Seq<Envelope>, who: Seq<char>) -> nat {
    sum(q, bytes_weight(who))
}

/// The bytes queued.
pub fn queue_bytes(queue: &Inbox) -> (r: usize)
    requires
        total_bytes(queue@) <= usize::MAX,
    ensures
        r == total_bytes(queue@),
{
    let mut n: usize = 0;
    let mut i: usize = 0;
    while i < queue.len()
        invariant
            i <= queue@.len(),
            n == total_bytes(queue@.take(i as int)),
            total_bytes(queue@) <= usize::MAX,
        decreases queue@.len() - i,
    {
        proof {
            assert(queue@.take(i + 1) =~= queue@.take(i as int).push(queue@[i as int]));
            lemma_sum_push(queue@.take(i as int), queue@[i as int], size_weight());
            assert(queue@ =~= queue@.take(i + 1) + queue@.skip(i + 1));
            lemma_sum_add(queue@.take(i + 1), queue@.skip(i + 1), size_weight());
        }
        n = n + queue.get(i).size_bytes;
        i = i + 1;
    }
    proof {
        assert(queue@.take(i as int) =~= queue@);
    }
    n
}

// ---------------------------------------------------------------------------
// Expiry
// ---------------------------------------------------------------------------

pub open spec fn is_live(now: u128) -> spec_fn(Envelope) -> bool {
    |e: Envelope| e.expires_at > now
}

pub open spec fn is_expired(now: u128) -> spec_fn(Envelope) -> bool {
    |e: Envelope| e.expires_at <= now
}

/// The envelopes of `q` that still stand at `now`.
pub open spec fn live(q: Seq<Envelope>, now: u128) -> Seq<Envelope> {
    q.filter(is_live(now))
}

/// The envelopes of `q` that have run out by `now`.
pub open spec fn expired(q: Seq<Envelope>, now: u128) -> Seq<Envelope> {
    q.filter(is_expired(now))
}

/// What taking `e` out of an inbox gives back to its sender's quota.
pub open spec fn charge(e: Envelope) -> (Option<Seq<char>>, usize) {
    (e.sender_id, e.size_bytes)
}

pub open spec fn charges(q: Seq<Envelope>) -> Seq<(Option<Seq<char>>, usize)> {
    q.map_values(|e: Envelope| charge(e))
}

/// A list of senders and sizes, by name.
pub open spec fn named_charges(c: Seq<(Option<String>, usize)>) -> Seq<
    (Option<Seq<char>>, usize),
> {
    c.map_values(|x: (Option<String>, usize)| (opt_text(x.0), x.1))
}

pub open spec fn message_ids(q: Seq<Envelope>) -> Seq<Seq<char>> {
    q.map_values(|e: Envelope| e.message_id)
}

pub open spec fn bodies(q: Seq<Envelope>) -> Seq<Seq<char>> {
    q.map_values(|e: Envelope| e.body)
}

/// How long `e` waited, in milliseconds.
pub open spec fn waited_ms(e: Envelope, now: u128) -> u128 {
    (elapsed(now, e.stored_at) / MILLISECOND as int) as u128
}

pub open spec fn latencies_ms(q: Seq<Envelope>, now: u128) -> Seq<u128> {
    q.map_values(|e: Envelope| waited_ms(e, now))
}

/// One more envelope contributes its id and its charge.
pub proof fn lemma_ids_charges_push(q: Seq<Envelope>, e: Envelope)
    ensures
        message_ids(q.push(e)) == message_ids(q).push(e.message_id),
        charges(q.push(e)) == charges(q).push(charge(e)),
{
    assert(message_ids(q.push(e)) =~= message_ids(q).push(e.message_id));
    assert(charges(q.push(e)) =~= charges(q).push(charge(e)));
}

/// Notes the id of an envelope that leaves a queue, and what its removal gives back.
pub fn note_removal(
    item: &StoredEnvelope,
    ids: &mut Vec<String>,
    back: &mut Vec<(Option<String>, usize)>,
)
    ensures
        texts(final(ids)@) == texts(old(ids)@).push(item@.message_id),
        named_charges(final(back)@) == named_charges(old(back)@).push(charge(item@)),
{
    let ghost ids0 = texts(ids@);
    let ghost back0 = named_charges(back@);
    ids.push(item.message_id.clone());
    back.push((copy_opt(&item.sender_id), item.size_bytes));
    assert(texts(ids@) =~= ids0.push(item@.message_id));
    assert(named_charges(back@) =~= back0.push(charge(item@)));
}

/// Removes expired envelopes and returns their message ids and what their removal gives back
/// to their senders' quotas.
pub fn prune_expired(queue: &mut Inbox, now: u128) -> (r: (
    Vec<String>,
    Vec<(Option<String>, usize)>,
))
    ensures
        final(queue)@ == live(old(queue)@, now),
        texts(r.0@) == message_ids(expired(old(queue)@, now)),
        named_charges(r.1@) == charges(expired(old(queue)@, now)),
{
    let ghost before = queue@;
    let mut kept: Inbox = Inbox::new();
    let mut ids: Vec<String> = Vec::new();
    let mut back: Vec<(Option<String>, usize)> = Vec::new();
    let ghost mut done: int = 0;
    proof {
        reveal(Seq::filter);
        assert(before.take(0) =~= Seq::empty());
        assert(before.skip(0) =~= before);
    }
    loop
        invariant
            0 <= done <= before.len(),
            queue@ == before.skip(done),
            kept@ == live(before.take(done), now),
            texts(ids@) == message_ids(expired(before.take(done), now)),
            named_charges(back@) == charges(expired(before.take(done), now)),
        ensures
            done == before.len(),
        decreases queue@.len(),
    {
        match queue.pop_front() {
            None => {
                break;
            },
            Some(item) => {
                proof {
                    assert(item@ == before[done]);
                    let t = before.take(done);
                    assert(before.take(done + 1) =~= t.push(item@));
                    assert(t.push(item@).drop_last() =~= t);
                    reveal(Seq::filter);
                    assert(before.skip(done).drop_first() =~= before.skip(done + 1));
                    done = done + 1;
                }
                if item.expires_at <= now {
                    proof {
                        lemma_ids_charges_push(expired(before.take(done - 1), now), item@);
                    }
                    note_removal(&item, &mut ids, &mut back);
                } else {
                    kept.push_back(item);
                }
            },
        }
    }
    proof {
        assert(before.take(done) =~= before);
    }
    *queue = kept;
    (ids, back)
}

// ---------------------------------------------------------------------------
// Delivery
// ---------------------------------------------------------------------------

/// Whether an envelope is small enough for a reader that set a threshold.
pub open spec fn fits(e: Envelope, max_size: Option<usize>) -> bool {
    match max_size {
        Some(m) => e.size_bytes <= m,
        None => true,
    }
}

/// The first `n` envelopes of `q` that fit, oldest first.
pub open spec fn taken(q: Seq<Envelope>, n: nat, max_size: Option<usize>) -> Seq<
    Envelope,
>
    decreases q.len(),
{
    if n == 0 || q.len() == 0 {
        Seq::empty()
    } else if fits(q[0], max_size) {
        seq![q[0]] + taken(q.drop_first(), (n - 1) as nat, max_size)
    } else {
        taken(q.drop_first(), n, max_size)
    }
}

/// What `taken` leaves, in its order.
pub open spec fn left(q: Seq<Envelope>, n: nat, max_size: Option<usize>) -> Seq<
    Envelope,
>
    decreases q.len(),
{
    if n == 0 || q.len() == 0 {
        q
    } else if fits(q[0], max_size) {
        left(q.drop_first(), (n - 1) as nat, max_size)
    } else {
        seq![q[0]] + left(q.drop_first(), n, max_size)
    }
}

/// How many envelopes a reader gets at most.
pub open spec fn fetch_limit(limit: Option<usize>, available: nat) -> nat {
    match limit {
        Some(n) => n as nat,
        None => available,
    }
}

/// Pops envelopes from the queue, optionally only those up to a serialised size.
///
/// Returns `(expired_ids, envelopes, latencies, usage_decrements)`. The last holds the sender
/// and size of every envelope removed, expired or delivered. Envelopes that exceed
/// `max_size_bytes` stay in the queue.
pub fn pop_envelopes(
    queue: &mut Inbox,
    limit: Option<usize>,
    max_size_bytes: Option<usize>,
    now: u128,
) -> (r: (Vec<String>, Vec<String>, Vec<u128>, Vec<(Option<String>, usize)>))
    ensures
        ({
            let q = live(old(queue)@, now);
            let gone = expired(old(queue)@, now);
            let n = fetch_limit(limit, q.len());
            let out = taken(q, n, max_size_bytes);
            &&& final(queue)@ == left(q, n, max_size_bytes)
            &&& texts(r.0@) == message_ids(gone)
            &&& texts(r.1@) == bodies(out)
            &&& r.2@ == latencies_ms(out, now)
            &&& named_charges(r.3@) == charges(gone + out)
        }),
{
    let ghost gone = expired(queue@, now);
    let ghost q = live(queue@, now);
    let (expired_ids, mut usage_decrements) = prune_expired(queue, now);
    let n: usize = match limit {
        Some(n) => n,
        None => queue.len(),
    };
    let mut kept: Inbox = Inbox::new();
    let mut envelopes: Vec<String> = Vec::new();
    let mut latencies: Vec<u128> = Vec::new();
    let ghost mut out: Seq<Envelope> = Seq::empty();
    proof {
        assert(out + taken(q, n as nat, max_size_bytes) =~= taken(q, n as nat, max_size_bytes));
        assert(kept@ + left(q, n as nat, max_size_bytes) =~= left(q, n as nat, max_size_bytes));
        assert(bodies(out) =~= Seq::empty());
        assert(latencies_ms(out, now) =~= Seq::empty());
        assert(gone + out =~= gone);
    }
    loop
        invariant
            texts(envelopes@) == bodies(out),
            latencies@ == latencies_ms(out, now),
            named_charges(usage_decrements@) == charges(gone + out),
            envelopes@.len() == out.len(),
            out.len() <= n,
            taken(q, n as nat, max_size_bytes) == out + taken(
                queue@,
                (n - out.len()) as nat,
                max_size_bytes,
            ),
            left(q, n as nat, max_size_bytes) == kept@ + left(
                queue@,
                (n - out.len()) as nat,
                max_size_bytes,
            ),
        ensures
            queue@.len() == 0,
        decreases queue@.len(),
    {
        let ghost rest = queue@;
        let ghost more = (n - out.len()) as nat;
        match queue.pop_front() {
            None => {
                break;
            },
            Some(item) => {
                let small = match max_size_bytes {
                    Some(m) => item.size_bytes <= m,
                    None => true,
                };
                if envelopes.len() < n && small {
                    latencies.push(time_since(now, item.stored_at) / MILLISECOND);
                    usage_decrements.push((copy_opt(&item.sender_id), item.size_bytes));
                    proof {
                        assert(seq![item@] + taken(rest.drop_first(), (more - 1) as nat, max_size_bytes)
                            == taken(rest, more, max_size_bytes));
                        assert(out + (seq![item@] + taken(
                            rest.drop_first(),
                            (more - 1) as nat,
                            max_size_bytes,
                        )) =~= out.push(item@) + taken(
                            rest.drop_first(),
                            (more - 1) as nat,
                            max_size_bytes,
                        ));
                        assert(bodies(out.push(item@)) =~= bodies(out).push(item.body@));
                        assert(latencies_ms(out.push(item@), now) =~= latencies_ms(out, now).push(
                            waited_ms(item@, now),
                        ));
                        assert(gone + out.push(item@) =~= (gone + out).push(item@));
                        assert(charges((gone + out).push(item@)) =~= charges(gone + out).push(
                            charge(item@),
                        ));
                        out = out.push(item@);
                    }
                    envelopes.push(item.body);
                } else {
                    proof {
                        if more == 0 {
                            assert(kept@ + rest =~= kept@.push(item@) + rest.drop_first());
                            assert(out + taken(rest, more, max_size_bytes) =~= out + taken(
                                rest.drop_first(),
                                more,
                                max_size_bytes,
                            ));
                        } else {
                            assert(kept@ + (seq![item@] + left(
                                rest.drop_first(),
                                more,
                                max_size_bytes,
                            )) =~= kept@.push(item@) + left(rest.drop_first(), more, max_size_bytes));
                        }
                    }
                    kept.push_back(item);
                }
            },
        }
    }
    proof {
        assert(out + Seq::<Envelope>::empty() =~= out);
        assert(kept@ + queue@ =~= kept@);
    }
    *queue = kept;
    (expired_ids, envelopes, latencies, usage_decrements)
}

/// What is taken and what is left share the queue between them.
pub proof fn lemma_sum_taken_left(
    q: Seq<Envelope>,
    n: nat,
    max_size: Option<usize>,
    f: spec_fn(Envelope) -> nat,
)
    ensures
        sum(taken(q, n, max_size), f) + sum(left(q, n, max_size), f) == sum(q, f),
    decreases q.len(),
{
    if n > 0 && q.len() > 0 {
        let rest = q.drop_first();
        lemma_sum_first(q, f);
        let head = seq![q[0]];
        assert(head.drop_last() =~= Seq::empty());
        assert(sum(head, f) == f(q[0])) by {
            reveal_with_fuel(sum, 2);
        }
        if fits(q[0], max_size) {
            lemma_sum_taken_left(rest, (n - 1) as nat, max_size, f);
            lemma_sum_add(head, taken(rest, (n - 1) as nat, max_size), f);
        } else {
            lemma_sum_taken_left(rest, n, max_size, f);
            lemma_sum_add(head, left(rest, n, max_size), f);
        }
    }
}

// ---------------------------------------------------------------------------
// Activity windows
// ---------------------------------------------------------------------------

/// `d` without the leading instants that are more than `max_age` old.
pub open spec fn recent(d: Seq<u128>, now: u128, max_age: u128) -> Seq<u128>
    decreases d.len(),
{
    if d.len() > 0 && elapsed(now, d[0]) > max_age {
        recent(d.drop_first(), now, max_age)
    } else {
        d
    }
}

/// The 24-hour window `d` once `now` has been recorded.
pub open spec fn stamped(d: Seq<u128>, now: u128) -> Seq<u128> {
    recent(d.push(now), now, (86_400 * SECOND) as u128)
}

/// Pushes `now` into a rolling 24-hour window of instants.
pub fn push_timestamped(deque: &mut VecDeque<u128>, now: u128)
    ensures
        final(deque)@ == stamped(old(deque)@, now),
{
    deque.push_back(now);
    let max_age: u128 = 86_400 * SECOND;
    while deque.len() > 0
        invariant_except_break
            recent(deque@, now, max_age) == stamped(old(deque)@, now),
        ensures
            deque@ == stamped(old(deque)@, now),
        decreases deque@.len(),
    {
        if time_since(now, deque[0]) > max_age {
            let ghost d = deque@;
            let _gone = deque.pop_front();
            proof {
                assert(deque@ =~= d.drop_first());
            }
        } else {
            break;
        }
    }
}

/// How many instants at the end of `d` lie within the last `window`.
pub open spec fn trailing_within(d: Seq<u128>, now: u128, window: u128) -> nat
    decreases d.len(),
{
    if d.len() > 0 && elapsed(now, d.last()) <= window {
        1 + trailing_within(d.drop_last(), now, window)
    } else {
        0
    }
}

/// Counts the instants that fall within the last `window_secs` seconds, newest first, up to
/// the first that does not.
pub fn count_in_window(deque: &VecDeque<u128>, now: u128, window_secs: u64) -> (r: usize)
    ensures
        r == trailing_within(deque@, now, (window_secs * SECOND) as u128),
{
    let window: u128 = (window_secs as u128) * SECOND;
    let n: usize = deque.len();
    let mut k: usize = n;
    proof {
        assert(deque@.take(n as int) =~= deque@);
    }
    while k > 0
        invariant_except_break
            k <= n,
            n == deque@.len(),
            trailing_within(deque@, now, window) == n - k + trailing_within(
                deque@.take(k as int),
                now,
                window,
            ),
        ensures
            k <= n,
            trailing_within(deque@, now, window) == n - k,
        decreases k,
    {
        proof {
            assert(deque@.take(k as int).last() == deque@[k - 1]);
            assert(deque@.take(k as int).drop_last() =~= deque@.take(k - 1));
        }
        if time_since(now, deque[k - 1]) <= window {
            k = k - 1;
        } else {
            break;
        }
    }
    n - k
}

} // verus!
