//! Requests to store envelopes, and how they are answered.
use vstd::prelude::*;
use vstd::string::*;

use crate::codec::json_compact;
use crate::codec::json_compacted;
use crate::relay::accept::store_envelope_locked;
use crate::relay::config::RelayConfig;
use crate::relay::state::Peer;
use crate::relay::state::RelayStateInner;
use crate::relay::state::RelayView;
use crate::relay::store::outcome_of;
use crate::relay::store::payload_in;
use crate::relay::store::read_payload;
use crate::relay::store::store;
use crate::relay::store::Payload;
use crate::relay::store::PayloadView;
use crate::relay::store::StoreDecision;
use crate::relay::store::StoreError;
use crate::relay::store::StoreOutcome;
use crate::text::copy_all;
use crate::text::copy_opt;
use crate::text::opt_text;
use crate::text::texts;

verus! {

// ---------------------------------------------------------------------------
// One envelope
// ---------------------------------------------------------------------------

/// What becomes of the JSON text `raw` and of the relay that gets it.
pub open spec fn store_text(
    config: &RelayConfig,
    v: RelayView,
    raw: Seq<char>,
    now: u128,
    epoch: Option<u64>,
    pruned_at: u128,
) -> (RelayView, StoreOutcome) {
    match json_compacted(raw) {
        None => (v, StoreOutcome::Invalid("invalid json"@)),
        Some(text) => store(config, v, payload_in(text), now, epoch, pruned_at),
    }
}

/// Takes in an envelope given as JSON text.
pub fn store_envelope(
    config: &RelayConfig,
    inner: &mut RelayStateInner,
    raw: &str,
    now: u128,
    now_epoch: Option<u64>,
    pruned_at: u128,
) -> (r: Result<StoreDecision, StoreError>)
    requires
        old(inner).wf(config),
        now + config.ttl <= u128::MAX,
        old(inner).total_stored + old(inner)@.peer_last_seen.dom().len() + 2 <= u64::MAX,
    ensures
        final(inner).wf(config),
        ({
            let (v, o) = store_text(config, old(inner)@, raw@, now, now_epoch, pruned_at);
            final(inner)@ == v && outcome_of(r) == o
        }),
{
    match json_compact(raw) {
        None => Err(StoreError::InvalidPayload("invalid json".to_owned())),
        Some(text) => {
            let payload = read_payload(text.as_str());
            store_envelope_locked(config, inner, payload, now, now_epoch, pruned_at)
        },
    }
}

/// The body of an answer.
pub enum ReplyBody {
    /// The id of the envelope, as an object.
    Stored(String),
    /// Plain text.
    Text(String),
    /// An error, as an object.
    Error(String),
}

/// An answer to a request to store an envelope, and the peers to be notified of it.
pub struct StoreReply {
    pub status: u16,
    pub body: ReplyBody,
    pub notify: Vec<String>,
}

/// The HTTP status of an outcome.
pub open spec fn status_of(o: StoreOutcome) -> u16 {
    match o {
        StoreOutcome::Accepted(_) | StoreOutcome::Broadcast(_, _) | StoreOutcome::Duplicate(_)
            => 202,
        StoreOutcome::Expired(_) => 410,
        StoreOutcome::TooLarge(_) => 413,
        StoreOutcome::QuotaExceeded(_) => 429,
        StoreOutcome::MissingRecipient | StoreOutcome::Invalid(_) => 400,
    }
}

/// Whether `b` is the answer to an outcome.
pub open spec fn answers(b: ReplyBody, o: StoreOutcome) -> bool {
    match o {
        StoreOutcome::Accepted(id) | StoreOutcome::Broadcast(id, _) | StoreOutcome::Duplicate(id)
            => b matches ReplyBody::Stored(s) && s@ == id,
        StoreOutcome::Expired(_) => b matches ReplyBody::Text(s) && s@ == "envelope expired"@,
        StoreOutcome::TooLarge(_) => b matches ReplyBody::Text(s) && s@
            == "payload exceeds max size"@,
        StoreOutcome::QuotaExceeded(_) => b matches ReplyBody::Error(s) && s@
            == "sender quota exceeded for this inbox"@,
        StoreOutcome::MissingRecipient => b matches ReplyBody::Text(s) && s@
            == "missing recipient_id"@,
        StoreOutcome::Invalid(why) => b matches ReplyBody::Text(s) && s@ == why,
    }
}

/// Whether `to` are the peers to be notified of a stored envelope.
pub open spec fn notifies(to: Seq<Peer>, o: StoreOutcome, recipient: Option<Peer>) -> bool {
    match o {
        StoreOutcome::Accepted(_) => to == (match recipient {
            Some(r) => seq![r],
            None => Seq::empty(),
        }),
        StoreOutcome::Broadcast(_, set) => to.to_set() == set,
        _ => to == Seq::<Peer>::empty(),
    }
}

/// The peers to be notified of an envelope for `recipient`.
fn notify_list(r: &Result<StoreDecision, StoreError>, recipient: &Option<String>) -> (to: Vec<
    String,
>)
    ensures
        notifies(texts(to@), outcome_of(*r), opt_text(*recipient)),
{
    match r {
        Ok(StoreDecision::Accepted { .. }) => {
            let mut to: Vec<String> = Vec::new();
            match recipient {
                Some(rid) => {
                    to.push(rid.clone());
                    assert(texts(to@) =~= seq![rid@]);
                },
                None => {
                    assert(texts(to@) =~= Seq::empty());
                },
            }
            to
        },
        Ok(StoreDecision::Broadcast { recipients, .. }) => copy_all(recipients),
        _ => {
            let to: Vec<String> = Vec::new();
            assert(texts(to@) =~= Seq::empty());
            to
        },
    }
}

/// Answers a request to store an envelope for `recipient`.
pub fn store_reply(
    result: Result<StoreDecision, StoreError>,
    recipient: &Option<String>,
) -> (r: StoreReply)
    ensures
        r.status == status_of(outcome_of(result)),
        answers(r.body, outcome_of(result)),
        notifies(texts(r.notify@), outcome_of(result), opt_text(*recipient)),
{
    let notify = notify_list(&result, recipient);
    let (status, body): (u16, ReplyBody) = match result {
        Ok(StoreDecision::Accepted { message_id }) => (202, ReplyBody::Stored(message_id)),
        Ok(StoreDecision::Broadcast { message_id, .. }) => (202, ReplyBody::Stored(message_id)),
        Ok(StoreDecision::Duplicate { message_id }) => (202, ReplyBody::Stored(message_id)),
        Ok(StoreDecision::Expired { .. }) => (410, ReplyBody::Text("envelope expired".to_owned())),
        Ok(StoreDecision::TooLarge { .. }) => (
            413,
            ReplyBody::Text("payload exceeds max size".to_owned()),
        ),
        Ok(StoreDecision::QuotaExceeded { .. }) => (
            429,
            ReplyBody::Error("sender quota exceeded for this inbox".to_owned()),
        ),
        Err(StoreError::MissingRecipient) => (
            400,
            ReplyBody::Text("missing recipient_id".to_owned()),
        ),
        Err(StoreError::InvalidPayload(detail)) => (400, ReplyBody::Text(detail)),
    };
    StoreReply { status, body, notify }
}

// ---------------------------------------------------------------------------
// Several envelopes
// ---------------------------------------------------------------------------

/// What became of one envelope of several.
#[derive(Clone, Copy, Debug, PartialEq, Eq, Structural)]
pub enum BatchStoreStatus {
    Accepted,
    Duplicate,
    Expired,
    TooLarge,
    Invalid,
    QuotaExceeded,
}

/// What became of one envelope of several, with its id or what was wrong with it.
pub struct BatchStoreResult {
    pub message_id: Option<String>,
    pub status: BatchStoreStatus,
    pub detail: Option<String>,
}

/// Whether `b` reports the outcome `o`.
pub open spec fn reports(b: BatchStoreResult, o: StoreOutcome) -> bool {
    let (id, status, detail) = match o {
        StoreOutcome::Accepted(id) | StoreOutcome::Broadcast(id, _) => (
            Some(id),
            BatchStoreStatus::Accepted,
            None,
        ),
        StoreOutcome::Duplicate(id) => (Some(id), BatchStoreStatus::Duplicate, None),
        StoreOutcome::Expired(id) => (Some(id), BatchStoreStatus::Expired, None),
        StoreOutcome::TooLarge(id) => (Some(id), BatchStoreStatus::TooLarge, None),
        StoreOutcome::QuotaExceeded(id) => (Some(id), BatchStoreStatus::QuotaExceeded, None),
        StoreOutcome::MissingRecipient => (
            None,
            BatchStoreStatus::Invalid,
            Some("missing recipient_id"@),
        ),
        StoreOutcome::Invalid(why) => (None, BatchStoreStatus::Invalid, Some(why)),
    };
    opt_text(b.message_id) == id && b.status == status && opt_text(b.detail) == detail
}

/// Reports on one envelope of several.
pub fn batch_result(result: Result<StoreDecision, StoreError>) -> (r: BatchStoreResult)
    ensures
        reports(r, outcome_of(result)),
{
    match result {
        Ok(StoreDecision::Accepted { message_id }) => BatchStoreResult {
            message_id: Some(message_id),
            status: BatchStoreStatus::Accepted,
            detail: None,
        },
        Ok(StoreDecision::Broadcast { message_id, .. }) => BatchStoreResult {
            message_id: Some(message_id),
            status: BatchStoreStatus::Accepted,
            detail: None,
        },
        Ok(StoreDecision::Duplicate { message_id }) => BatchStoreResult {
            message_id: Some(message_id),
            status: BatchStoreStatus::Duplicate,
            detail: None,
        },
        Ok(StoreDecision::Expired { message_id }) => BatchStoreResult {
            message_id: Some(message_id),
            status: BatchStoreStatus::Expired,
            detail: None,
        },
        Ok(StoreDecision::TooLarge { message_id }) => BatchStoreResult {
            message_id: Some(message_id),
            status: BatchStoreStatus::TooLarge,
            detail: None,
        },
        Ok(StoreDecision::QuotaExceeded { message_id }) => BatchStoreResult {
            message_id: Some(message_id),
            status: BatchStoreStatus::QuotaExceeded,
            detail: None,
        },
        Err(StoreError::MissingRecipient) => BatchStoreResult {
            message_id: None,
            status: BatchStoreStatus::Invalid,
            detail: Some("missing recipient_id".to_owned()),
        },
        Err(StoreError::InvalidPayload(detail)) => BatchStoreResult {
            message_id: None,
            status: BatchStoreStatus::Invalid,
            detail: Some(detail),
        },
    }
}

/// What several payloads hold.
pub open spec fn payloads_of(s: Seq<Payload>) -> Seq<PayloadView> {
    s.map_values(|p: Payload| p@)
}

/// The relay once the envelopes `ps` have been taken in one after the other.
pub open spec fn batch_stored(
    config: &RelayConfig,
    v: RelayView,
    ps: Seq<PayloadView>,
    now: u128,
    epoch: Option<u64>,
    pruned_at: Seq<u128>,
) -> RelayView
    decreases ps.len(),
{
    if ps.len() == 0 {
        v
    } else {
        let w = batch_stored(config, v, ps.drop_last(), now, epoch, pruned_at);
        store(config, w, ps.last(), now, epoch, pruned_at[ps.len() - 1]).0
    }
}

/// What becomes of envelope `i` of `ps`.
pub open spec fn batch_outcome(
    config: &RelayConfig,
    v: RelayView,
    ps: Seq<PayloadView>,
    now: u128,
    epoch: Option<u64>,
    pruned_at: Seq<u128>,
    i: int,
) -> StoreOutcome {
    let w = batch_stored(config, v, ps.take(i), now, epoch, pruned_at);
    store(config, w, ps[i], now, epoch, pruned_at[i]).1
}

/// Storing an envelope adds at most two peers, and counts at most one envelope a peer.
pub proof fn lemma_store_growth(
    config: &RelayConfig,
    v: RelayView,
    p: PayloadView,
    now: u128,
    epoch: Option<u64>,
    pruned_at: u128,
)
    requires
        v.peer_last_seen.dom().finite(),
        v.total_stored + v.peer_last_seen.dom().len() + 2 <= u64::MAX,
    ensures
        ({
            let w = store(config, v, p, now, epoch, pruned_at).0;
            &&& w.peer_last_seen.dom().finite()
            &&& w.peer_last_seen.dom().len() <= v.peer_last_seen.dom().len() + 2
            &&& w.total_stored <= v.total_stored + v.peer_last_seen.dom().len() + 2
        }),
{
    let d = v.peer_last_seen.dom();
    let w = store(config, v, p, now, epoch, pruned_at).0;
    if p.recipient_id is Some {
        let r = if p.is_broadcast() {
            d
        } else {
            d.insert(p.recipient_id->0)
        };
        let s = match p.sender_id {
            Some(x) => r.insert(x),
            None => r,
        };
        let v1 = crate::relay::store::registered(v, p, now);
        assert(v1.peer_last_seen.dom() =~= s);
        assert(w.peer_last_seen == v1.peer_last_seen);
        let to = crate::relay::store::audience(v1.peer_last_seen, p.sender_id);
        assert(to.subset_of(s));
        vstd::set_lib::lemma_len_subset(to, s);
    }
}

/// Takes in several envelopes in order. `pruned_at` gives, for each, the instant at which known
/// message ids are looked through. Returns what became of each, and whom to notify of it.
pub fn store_envelopes_batch(
    config: &RelayConfig,
    inner: &mut RelayStateInner,
    payloads: Vec<Payload>,
    now: u128,
    now_epoch: Option<u64>,
    pruned_at: &Vec<u128>,
) -> (r: (Vec<BatchStoreResult>, Vec<Vec<String>>))
    requires
        old(inner).wf(config),
        now + config.ttl <= u128::MAX,
        pruned_at@.len() == payloads@.len(),
        old(inner).total_stored + (payloads@.len() + 1) * (old(inner)@.peer_last_seen.dom().len()
            + 2 * payloads@.len() + 2) <= u64::MAX,
    ensures
        final(inner).wf(config),
        final(inner)@ == batch_stored(
            config,
            old(inner)@,
            payloads_of(payloads@),
            now,
            now_epoch,
            pruned_at@,
        ),
        r.0@.len() == payloads@.len(),
        r.1@.len() == payloads@.len(),
        forall|i: int|
            0 <= i < payloads@.len() ==> {
                let o = batch_outcome(
                    config,
                    old(inner)@,
                    payloads_of(payloads@),
                    now,
                    now_epoch,
                    pruned_at@,
                    i,
                );
                &&& reports(#[trigger] r.0@[i], o)
                &&& notifies(texts(r.1@[i]@), o, payloads_of(payloads@)[i].recipient_id)
            },
{
    let ghost v0 = inner@;
    let ghost ps = payloads_of(payloads@);
    let ghost all = payloads@;
    let n: usize = payloads.len();
    let ghost step: int = v0.peer_last_seen.dom().len() + 2 * n + 2;
    let mut results: Vec<BatchStoreResult> = Vec::new();
    let mut notify: Vec<Vec<String>> = Vec::new();
    let mut rest: Vec<Payload> = payloads;
    let mut i: usize = 0;
    proof {
        inner.peer_last_seen.lemma_count();
        assert(ps.take(0) =~= Seq::empty());
        assert(all.skip(0) =~= all);
        assert(0 * step == 0);
    }
    while i < n
        invariant
            i <= n,
            n == all.len(),
            ps == payloads_of(all),
            rest@ == all.skip(i as int),
            pruned_at@.len() == n,
            inner.wf(config),
            now + config.ttl <= u128::MAX,
            step == v0.peer_last_seen.dom().len() + 2 * n + 2,
            v0.total_stored + (n + 1) * step <= u64::MAX,
            inner@ == batch_stored(config, v0, ps.take(i as int), now, now_epoch, pruned_at@),
            inner@.peer_last_seen.dom().finite(),
            inner@.peer_last_seen.dom().len() <= v0.peer_last_seen.dom().len() + 2 * i,
            inner@.total_stored <= v0.total_stored + i * step,
            results@.len() == i,
            notify@.len() == i,
            forall|j: int|
                0 <= j < i ==> {
                    let o = batch_outcome(config, v0, ps, now, now_epoch, pruned_at@, j);
                    &&& reports(#[trigger] results@[j], o)
                    &&& notifies(texts(notify@[j]@), o, ps[j].recipient_id)
                },
        decreases n - i,
    {
        let payload = rest.remove(0);
        let ghost before = inner@;
        proof {
            assert(payload == all[i as int]);
            assert(ps[i as int] == payload@);
            assert(rest@ =~= all.skip(i + 1));
            assert(ps.take(i + 1) =~= ps.take(i as int).push(payload@));
            assert(ps.take(i + 1).drop_last() =~= ps.take(i as int));
            assert((i + 1) * step == i * step + step) by (nonlinear_arith);
            assert((i + 1) * step <= (n + 1) * step) by (nonlinear_arith)
                requires
                    i <= n,
                    step >= 0,
            ;
            lemma_store_growth(
                config,
                before,
                payload@,
                now,
                now_epoch,
                pruned_at@[i as int],
            );
        }
        let recipient = copy_opt(&payload.recipient_id);
        let outcome = store_envelope_locked(config, inner, payload, now, now_epoch, pruned_at[i]);
        notify.push(notify_list(&outcome, &recipient));
        results.push(batch_result(outcome));
        i = i + 1;
    }
    proof {
        assert(ps.take(i as int) =~= ps);
    }
    (results, notify)
}

} // verus!
