//! What the simulator measures.
use std::collections::VecDeque;

use vstd::prelude::*;
use vstd::string::*;

use crate::keyed::KeyedMap;
use crate::protocol::MessageKind;
use crate::sorting::Ranked;
use crate::text::lemma_text_le_order;
use crate::text::not_after;
use crate::text::text_le;

verus! {

/// `a` and `b`, but never more than `usize` holds.
pub open spec fn sat_add(a: usize, b: int) -> usize {
    if a + b > usize::MAX {
        usize::MAX
    } else {
        (a + b) as usize
    }
}

/// Totals of a simulation run.
#[derive(Clone, Copy, Debug, PartialEq, Eq, Structural)]
pub struct SimulationMetrics {
    pub planned_messages: usize,
    pub sent_messages: usize,
    pub direct_deliveries: usize,
    pub inbox_deliveries: usize,
    pub store_forwards_stored: usize,
    pub store_forwards_forwarded: usize,
    pub store_forwards_delivered: usize,
}

/// Totals of a simulation in which nothing has happened.
pub open spec fn no_metrics() -> SimulationMetrics {
    SimulationMetrics {
        planned_messages: 0,
        sent_messages: 0,
        direct_deliveries: 0,
        inbox_deliveries: 0,
        store_forwards_stored: 0,
        store_forwards_forwarded: 0,
        store_forwards_delivered: 0,
    }
}

impl SimulationMetrics {
    /// Totals of a run that has not started.
    pub fn zero() -> (r: Self)
        ensures
            r == no_metrics(),
    {
        SimulationMetrics {
            planned_messages: 0,
            sent_messages: 0,
            direct_deliveries: 0,
            inbox_deliveries: 0,
            store_forwards_stored: 0,
            store_forwards_forwarded: 0,
            store_forwards_delivered: 0,
        }
    }
}

/// Who sent to whom.
pub struct SenderRecipient {
    pub sender: String,
    pub recipient: String,
}

/// How often somebody sent to somebody.
pub struct SenderRecipientCount {
    pub sender: String,
    pub recipient: String,
    pub count: usize,
}

/// By sender, then by recipient.
impl Ranked for SenderRecipientCount {
    open spec fn ranks(&self, other: &Self) -> bool {
        if self.sender@ == other.sender@ {
            text_le(self.recipient@, other.recipient@)
        } else {
            text_le(self.sender@, other.sender@)
        }
    }

    proof fn lemma_total(a: &Self, b: &Self) {
        lemma_text_le_order(a.sender@, b.sender@, b.sender@);
        lemma_text_le_order(a.recipient@, b.recipient@, b.recipient@);
    }

    proof fn lemma_transitive(a: &Self, b: &Self, c: &Self) {
        lemma_text_le_order(a.sender@, b.sender@, c.sender@);
        lemma_text_le_order(b.sender@, a.sender@, c.sender@);
        lemma_text_le_order(c.sender@, b.sender@, a.sender@);
        lemma_text_le_order(a.recipient@, b.recipient@, c.recipient@);
    }

    fn may_precede(&self, other: &Self) -> (r: bool) {
        if self.sender == other.sender {
            not_after(self.recipient.as_str(), other.recipient.as_str())
        } else {
            not_after(self.sender.as_str(), other.sender.as_str())
        }
    }
}

// ---------------------------------------------------------------------------
// Summaries
// ---------------------------------------------------------------------------

/// Smallest, largest, total and number of some counts. The average is the total over the number.
#[derive(Clone, Copy, Debug, PartialEq, Eq, Structural)]
pub struct CountSummary {
    pub min: Option<usize>,
    pub max: Option<usize>,
    /// Stops at the largest number that fits.
    pub total: usize,
    pub samples: usize,
}

/// The summary of no counts.
pub open spec fn empty_summary() -> CountSummary {
    CountSummary { min: None, max: None, total: 0, samples: 0 }
}

/// The summary once one more count has been taken in.
pub open spec fn summed(s: CountSummary, n: usize) -> CountSummary {
    CountSummary {
        min: match s.min {
            Some(m) if m <= n => Some(m),
            _ => Some(n),
        },
        max: match s.max {
            Some(m) if m >= n => Some(m),
            _ => Some(n),
        },
        total: sat_add(s.total, n as int),
        samples: sat_add(s.samples, 1),
    }
}

/// The summary of some counts.
pub open spec fn summary_of(counts: Seq<usize>) -> CountSummary
    decreases counts.len(),
{
    if counts.len() == 0 {
        empty_summary()
    } else {
        summed(summary_of(counts.drop_last()), counts.last())
    }
}

impl CountSummary {
    pub fn empty() -> (r: Self)
        ensures
            r == empty_summary(),
    {
        CountSummary { min: None, max: None, total: 0, samples: 0 }
    }

    /// Takes in one more count.
    pub fn record(&mut self, n: usize)
        ensures
            *final(self) == summed(*old(self), n),
    {
        self.min = match self.min {
            Some(m) => if m <= n {
                Some(m)
            } else {
                Some(n)
            },
            None => Some(n),
        };
        self.max = match self.max {
            Some(m) => if m >= n {
                Some(m)
            } else {
                Some(n)
            },
            None => Some(n),
        };
        self.total = self.total.saturating_add(n);
        self.samples = self.samples.saturating_add(1);
    }

    /// Sums up some counts.
    pub fn from_counts(counts: &Vec<usize>) -> (r: Self)
        ensures
            r == summary_of(counts@),
    {
        let mut s = CountSummary::empty();
        let mut i: usize = 0;
        proof {
            assert(counts@.take(0) =~= Seq::empty());
        }
        while i < counts.len()
            invariant
                i <= counts@.len(),
                s == summary_of(counts@.take(i as int)),
            decreases counts@.len() - i,
        {
            proof {
                assert(counts@.take(i + 1).drop_last() =~= counts@.take(i as int));
                assert(counts@.take(i + 1).last() == counts@[i as int]);
            }
            s.record(counts[i]);
            i = i + 1;
        }
        proof {
            assert(counts@.take(i as int) =~= counts@);
        }
        s
    }
}

/// A summary's bounds are attained, and nothing lies outside them.
pub proof fn law_summary_bounds(counts: Seq<usize>)
    requires
        counts.len() > 0,
    ensures
        ({
            let s = summary_of(counts);
            &&& s.min is Some && s.max is Some
            &&& counts.contains(s.min->0) && counts.contains(s.max->0)
            &&& forall|i: int|
                0 <= i < counts.len() ==> s.min->0 <= #[trigger] counts[i] <= s.max->0
        }),
    decreases counts.len(),
{
    let rest = counts.drop_last();
    let last = counts.last();
    let s = summary_of(counts);
    assert(counts[counts.len() - 1] == last);
    if rest.len() > 0 {
        law_summary_bounds(rest);
        let t = summary_of(rest);
        let a = choose|a: int| 0 <= a < rest.len() && rest[a] == t.min->0;
        let b = choose|b: int| 0 <= b < rest.len() && rest[b] == t.max->0;
        assert(counts[a] == t.min->0);
        assert(counts[b] == t.max->0);
        assert forall|i: int| 0 <= i < counts.len() implies s.min->0 <= #[trigger] counts[i]
            <= s.max->0 by {
            if i < rest.len() {
                assert(rest[i] == counts[i]);
            }
        }
    } else {
        assert(summary_of(rest) == empty_summary());
    }
}

/// Smallest, largest, total and number of some sizes.
#[derive(Clone, Copy, Debug, PartialEq, Eq, Structural)]
pub struct SizeStats {
    pub total: u64,
    pub samples: usize,
    pub min: Option<u64>,
    pub max: Option<u64>,
}

impl View for SizeStats {
    type V = SizeStats;

    open spec fn view(&self) -> SizeStats {
        *self
    }
}

/// Statistics of no sizes.
pub open spec fn no_sizes() -> SizeStats {
    SizeStats { total: 0, samples: 0, min: None, max: None }
}

/// The statistics once one more size has been taken in.
pub open spec fn sized(s: SizeStats, n: u64) -> SizeStats {
    SizeStats {
        total: if s.total + n > u64::MAX {
            u64::MAX
        } else {
            (s.total + n) as u64
        },
        samples: sat_add(s.samples, 1),
        min: match s.min {
            Some(m) if m <= n => Some(m),
            _ => Some(n),
        },
        max: match s.max {
            Some(m) if m >= n => Some(m),
            _ => Some(n),
        },
    }
}

impl SizeStats {
    pub fn empty() -> (r: Self)
        ensures
            r == no_sizes(),
    {
        SizeStats { total: 0, samples: 0, min: None, max: None }
    }

    pub fn record(&mut self, size: u64)
        ensures
            *final(self) == sized(*old(self), size),
    {
        self.total = self.total.saturating_add(size);
        self.samples = self.samples.saturating_add(1);
        self.min = match self.min {
            Some(m) => if m <= size {
                Some(m)
            } else {
                Some(size)
            },
            None => Some(size),
        };
        self.max = match self.max {
            Some(m) => if m >= size {
                Some(m)
            } else {
                Some(size)
            },
            None => Some(size),
        };
    }
}

/// A histogram of latencies with its summary.
pub struct LatencyStats {
    pub counts: KeyedMap<u64, usize>,
    pub summary: CountSummary,
}

/// A histogram of latencies with its summary, as a mathematical map.
pub struct LatencyView {
    pub counts: Map<u64, usize>,
    pub summary: CountSummary,
}

impl View for LatencyStats {
    type V = LatencyView;

    open spec fn view(&self) -> LatencyView {
        LatencyView { counts: self.counts@, summary: self.summary }
    }
}

/// The count under `k`; zero where there is none.
pub open spec fn count_at<K>(m: Map<K, usize>, k: K) -> usize {
    if m.contains_key(k) {
        m[k]
    } else {
        0
    }
}

/// The statistics once one more latency has been taken in.
pub open spec fn lagged(s: LatencyView, latency: usize) -> LatencyView {
    LatencyView {
        counts: s.counts.insert(latency as u64, sat_add(count_at(s.counts, latency as u64), 1)),
        summary: summed(s.summary, latency),
    }
}

/// Statistics of no latencies.
pub open spec fn no_latencies() -> LatencyView {
    LatencyView { counts: Map::empty(), summary: empty_summary() }
}

impl LatencyStats {
    pub fn empty() -> (r: Self)
        ensures
            r.counts.wf(),
            r@ == no_latencies(),
    {
        LatencyStats { counts: KeyedMap::new(), summary: CountSummary::empty() }
    }

    pub fn record(&mut self, latency: usize)
        requires
            old(self).counts.wf(),
        ensures
            final(self).counts.wf(),
            final(self)@ == lagged(old(self)@, latency),
    {
        let key: u64 = latency as u64;
        let n: usize = match self.counts.get(&key) {
            Some(n) => *n,
            None => 0,
        };
        self.counts.insert(key, n.saturating_add(1));
        self.summary.record(latency);
    }
}

/// The sum of all counts of a finite map.
pub open spec fn sum_of_counts(m: Map<u64, usize>) -> nat
    decreases m.dom().len(),
    when m.dom().finite()
{
    if m.dom().len() == 0 {
        0
    } else {
        let k = m.dom().choose();
        m[k] as nat + sum_of_counts(m.remove(k))
    }
}

/// Any key can be taken out first.
proof fn lemma_sum_of_counts(m: Map<u64, usize>, k: u64)
    requires
        m.dom().finite(),
        m.contains_key(k),
    ensures
        sum_of_counts(m) == m[k] + sum_of_counts(m.remove(k)),
    decreases m.dom().len(),
{
    let c = m.dom().choose();
    assert(m.dom().contains(k));
    assert(m.dom().len() > 0) by {
        if m.dom().len() == 0 {
            assert(m.dom() =~= Set::empty());
        }
    }
    assert(m.dom().contains(c));
    assert(m.remove(c).dom() =~= m.dom().remove(c));
    if c != k {
        lemma_sum_of_counts(m.remove(c), k);
        assert(m.remove(k).dom() =~= m.dom().remove(k));
        lemma_sum_of_counts(m.remove(k), c);
        assert(m.remove(c).remove(k) =~= m.remove(k).remove(c));
    }
}

/// Whether a histogram and its summary tell the same: the summary has as many samples as there
/// are counts in all, and its bounds are the least and the greatest latency counted.
pub open spec fn consistent(s: LatencyView) -> bool {
    &&& s.counts.dom().finite()
    &&& s.summary.samples == sum_of_counts(s.counts)
    &&& s.summary.min is Some <==> s.summary.samples > 0
    &&& s.summary.max is Some <==> s.summary.samples > 0
    &&& forall|k: u64| #[trigger]
        s.counts.contains_key(k) ==> s.counts[k] > 0 && s.summary.min is Some && s.summary.min->0
            <= k <= s.summary.max->0
    &&& s.summary.min matches Some(m) ==> s.counts.contains_key(m as u64)
    &&& s.summary.max matches Some(m) ==> s.counts.contains_key(m as u64)
}

/// Taking in a latency counts it once more, changes no other count, and keeps histogram and
/// summary consistent, as long as there is room to count.
pub proof fn law_latency_is_counted(s: LatencyView, latency: usize)
    requires
        consistent(s),
        s.summary.samples < usize::MAX,
    ensures
        consistent(lagged(s, latency)),
        lagged(s, latency).counts == s.counts.insert(
            latency as u64,
            (count_at(s.counts, latency as u64) + 1) as usize,
        ),
        count_at(s.counts, latency as u64) < usize::MAX,
        lagged(s, latency).summary.samples == s.summary.samples + 1,
        lagged(s, latency).summary.total == sat_add(s.summary.total, latency as int),
{
    let k = latency as u64;
    let t = lagged(s, latency);
    let before = count_at(s.counts, k);
    assert(k == latency);
    if s.counts.contains_key(k) {
        lemma_sum_of_counts(s.counts, k);
        assert(t.counts.remove(k) =~= s.counts.remove(k));
    } else {
        assert(t.counts.remove(k) =~= s.counts);
    }
    assert(before <= s.summary.samples);
    assert(t.counts.dom() =~= s.counts.dom().insert(k));
    lemma_sum_of_counts(t.counts, k);
    assert forall|j: u64| #[trigger] t.counts.contains_key(j) implies t.counts[j] > 0
        && t.summary.min is Some && t.summary.min->0 <= j <= t.summary.max->0 by {
        if j != k {
            assert(s.counts.contains_key(j));
        }
    }
}

/// The statistics of some latencies, taken in one after the other.
pub open spec fn latencies_of(lats: Seq<usize>) -> LatencyView
    decreases lats.len(),
{
    if lats.len() == 0 {
        no_latencies()
    } else {
        lagged(latencies_of(lats.drop_last()), lats.last())
    }
}

/// The statistics of any latencies are consistent, with one sample for each of them.
pub proof fn law_latencies_are_consistent(lats: Seq<usize>)
    requires
        lats.len() <= usize::MAX,
    ensures
        consistent(latencies_of(lats)),
        latencies_of(lats).summary.samples == lats.len(),
        latencies_of(lats).summary == summary_of(lats),
    decreases lats.len(),
{
    if lats.len() > 0 {
        law_latencies_are_consistent(lats.drop_last());
        law_latency_is_counted(latencies_of(lats.drop_last()), lats.last());
    }
}

// ---------------------------------------------------------------------------
// The rolling window
// ---------------------------------------------------------------------------

/// A window of latencies once one more has come in; the oldest goes when the window is full.
pub open spec fn rolled(window: Seq<usize>, size: usize, latency: usize) -> Seq<usize> {
    (if window.len() == size && window.len() > 0 {
        window.drop_first()
    } else {
        window
    }).push(latency)
}

/// The last latencies, up to a number of them.
pub struct RollingLatencyTracker {
    window: usize,
    samples: VecDeque<usize>,
}

impl View for RollingLatencyTracker {
    type V = Seq<usize>;

    closed spec fn view(&self) -> Seq<usize> {
        self.samples@
    }
}

impl RollingLatencyTracker {
    pub closed spec fn size(&self) -> usize {
        self.window
    }

    pub fn new(window: usize) -> (r: Self)
        ensures
            r@ == Seq::<usize>::empty(),
            r.size() == window,
    {
        RollingLatencyTracker { window, samples: VecDeque::new() }
    }

    /// Takes in a latency; the oldest goes when the window is full.
    pub fn record(&mut self, latency: usize)
        ensures
            final(self).size() == old(self).size(),
            final(self)@ == rolled(old(self)@, old(self).size(), latency),
            old(self).size() > 0 && old(self)@.len() <= old(self).size() ==> final(self)@.len()
                <= final(self).size(),
    {
        let ghost before = self@;
        if self.samples.len() == self.window {
            let _gone = self.samples.pop_front();
            proof {
                if before.len() > 0 {
                    assert(self@ =~= before.drop_first());
                }
            }
        }
        self.samples.push_back(latency);
    }

    /// Sums up the window.
    pub fn snapshot(&self) -> (r: CountSummary)
        ensures
            r == summary_of(self@),
    {
        let mut s = CountSummary::empty();
        let mut i: usize = 0;
        proof {
            assert(self@.take(0) =~= Seq::empty());
        }
        while i < self.samples.len()
            invariant
                i <= self@.len(),
                s == summary_of(self@.take(i as int)),
            decreases self@.len() - i,
        {
            proof {
                assert(self@.take(i + 1).drop_last() =~= self@.take(i as int));
                assert(self@.take(i + 1).last() == self@[i as int]);
            }
            s.record(self.samples[i]);
            i = i + 1;
        }
        proof {
            assert(self@.take(i as int) =~= self@);
        }
        s
    }
}

// ---------------------------------------------------------------------------
// Counts by kind
// ---------------------------------------------------------------------------

/// A value for each kind of message.
#[derive(Clone, Copy, Debug, PartialEq, Eq, Structural)]
pub struct KindCounts {
    pub public: usize,
    pub meta: usize,
    pub direct: usize,
    pub friend_group: usize,
    pub store_for_peer: usize,
}

impl View for KindCounts {
    type V = KindCounts;

    open spec fn view(&self) -> KindCounts {
        *self
    }
}

pub open spec fn no_kinds() -> KindCounts {
    KindCounts { public: 0, meta: 0, direct: 0, friend_group: 0, store_for_peer: 0 }
}

impl KindCounts {
    pub open spec fn of(&self, kind: MessageKind) -> usize {
        match kind {
            MessageKind::Public => self.public,
            MessageKind::Meta => self.meta,
            MessageKind::Direct => self.direct,
            MessageKind::FriendGroup => self.friend_group,
            MessageKind::StoreForPeer => self.store_for_peer,
        }
    }

    pub open spec fn with(&self, kind: MessageKind, n: usize) -> KindCounts {
        match kind {
            MessageKind::Public => KindCounts { public: n, ..*self },
            MessageKind::Meta => KindCounts { meta: n, ..*self },
            MessageKind::Direct => KindCounts { direct: n, ..*self },
            MessageKind::FriendGroup => KindCounts { friend_group: n, ..*self },
            MessageKind::StoreForPeer => KindCounts { store_for_peer: n, ..*self },
        }
    }

    pub fn get(&self, kind: MessageKind) -> (r: usize)
        ensures
            r == self.of(kind),
    {
        match kind {
            MessageKind::Public => self.public,
            MessageKind::Meta => self.meta,
            MessageKind::Direct => self.direct,
            MessageKind::FriendGroup => self.friend_group,
            MessageKind::StoreForPeer => self.store_for_peer,
        }
    }

    /// Counts one more message of a kind; stops at the largest number that fits.
    pub fn bump(&mut self, kind: MessageKind)
        ensures
            *final(self) == old(self).with(kind, sat_add(old(self).of(kind), 1)),
    {
        match kind {
            MessageKind::Public => {
                self.public = self.public.saturating_add(1);
            },
            MessageKind::Meta => {
                self.meta = self.meta.saturating_add(1);
            },
            MessageKind::Direct => {
                self.direct = self.direct.saturating_add(1);
            },
            MessageKind::FriendGroup => {
                self.friend_group = self.friend_group.saturating_add(1);
            },
            MessageKind::StoreForPeer => {
                self.store_for_peer = self.store_for_peer.saturating_add(1);
            },
        }
    }
}

/// Statistics of sizes for each kind of message.
#[derive(Clone, Copy, Debug, PartialEq, Eq, Structural)]
pub struct KindSizes {
    pub public: SizeStats,
    pub meta: SizeStats,
    pub direct: SizeStats,
    pub friend_group: SizeStats,
    pub store_for_peer: SizeStats,
}

pub open spec fn no_kind_sizes() -> KindSizes {
    KindSizes {
        public: no_sizes(),
        meta: no_sizes(),
        direct: no_sizes(),
        friend_group: no_sizes(),
        store_for_peer: no_sizes(),
    }
}

impl KindSizes {
    pub open spec fn of(&self, kind: MessageKind) -> SizeStats {
        match kind {
            MessageKind::Public => self.public,
            MessageKind::Meta => self.meta,
            MessageKind::Direct => self.direct,
            MessageKind::FriendGroup => self.friend_group,
            MessageKind::StoreForPeer => self.store_for_peer,
        }
    }

    pub open spec fn with(&self, kind: MessageKind, s: SizeStats) -> KindSizes {
        match kind {
            MessageKind::Public => KindSizes { public: s, ..*self },
            MessageKind::Meta => KindSizes { meta: s, ..*self },
            MessageKind::Direct => KindSizes { direct: s, ..*self },
            MessageKind::FriendGroup => KindSizes { friend_group: s, ..*self },
            MessageKind::StoreForPeer => KindSizes { store_for_peer: s, ..*self },
        }
    }

    pub fn get(&self, kind: MessageKind) -> (r: SizeStats)
        ensures
            r == self.of(kind),
    {
        match kind {
            MessageKind::Public => self.public,
            MessageKind::Meta => self.meta,
            MessageKind::Direct => self.direct,
            MessageKind::FriendGroup => self.friend_group,
            MessageKind::StoreForPeer => self.store_for_peer,
        }
    }

    pub fn record(&mut self, kind: MessageKind, size: u64)
        ensures
            *final(self) == old(self).with(kind, sized(old(self).of(kind), size)),
    {
        let mut s: SizeStats = self.get(kind);
        s.record(size);
        match kind {
            MessageKind::Public => {
                self.public = s;
            },
            MessageKind::Meta => {
                self.meta = s;
            },
            MessageKind::Direct => {
                self.direct = s;
            },
            MessageKind::FriendGroup => {
                self.friend_group = s;
            },
            MessageKind::StoreForPeer => {
                self.store_for_peer = s;
            },
        }
    }
}

} // verus!
