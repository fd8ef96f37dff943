//! What a call on the relay does and answers, in terms of what it is handed.
use std::collections::VecDeque;
use vstd::prelude::*;
use vstd::utf8::encode_utf8;

use crate::codec::base64_bytes;
use crate::codec::hex_of;
use crate::codec::json_compacted;
use crate::codec::json_number_at;
use crate::codec::json_string_at;
use crate::codec::sha256_of;
use crate::keyed::above;
use crate::keyed::KeyedMap;
use crate::relay::accept::store_envelope_locked;
use crate::relay::blobs::check_upload;
use crate::relay::blobs::delete_blob;
use crate::relay::blobs::download_blob;
use crate::relay::blobs::is_chunk_name;
use crate::relay::blobs::store_chunk;
use crate::relay::blobs::upload_blob;
use crate::relay::blobs::upload_status;
use crate::relay::blobs::utc_day;
use crate::relay::blobs::UploadOutcome;
use crate::relay::config::retry_delay;
use crate::relay::config::RelayConfig;
use crate::relay::config::RelayQosConfig;
use crate::relay::config::TierLimits;
use crate::relay::evict::evicted;
use crate::relay::evict::evicted_oldest;
use crate::relay::fetch::extract_bearer_token;
use crate::relay::fetch::fetch_inbox;
use crate::relay::fetch::handed_out;
use crate::relay::fetch::held_back;
use crate::relay::fetch::InboxQuery;
use crate::relay::promises::law_fetch_hands_out_what_is_small_enough;
use crate::relay::promises::law_lifetime_is_what_was_asked_for;
use crate::relay::promises::law_outcome_says_why;
use crate::relay::promises::law_report_is_in_order;
use crate::relay::promises::law_upload_is_taken_in;
use crate::relay::promises::lemma_cut;
use crate::relay::promises::lemma_live_raw;
use crate::relay::queue::charge;
use crate::relay::queue::charges;
use crate::relay::queue::count_in_window;
use crate::relay::queue::elapsed;
use crate::relay::queue::expired;
use crate::relay::queue::fetch_limit;
use crate::relay::queue::is_expired;
use crate::relay::queue::latencies_ms;
use crate::relay::queue::live;
use crate::relay::queue::message_ids;
use crate::relay::queue::named_charges;
use crate::relay::queue::recent;
use crate::relay::queue::size_weight;
use crate::relay::queue::stamped;
use crate::relay::queue::taken;
use crate::relay::queue::trailing_within;
use crate::relay::queue::waited_ms;
use crate::relay::queue::note_removal;
use crate::relay::queue::pop_envelopes;
use crate::relay::queue::prune_expired;
use crate::relay::queue::push_timestamped;
use crate::relay::queue::queue_bytes;
use crate::relay::queue::time_since;
use crate::relay::queue::Envelope;
use crate::relay::queue::Inbox;
use crate::relay::queue::StoredEnvelope;
use crate::relay::requests::batch_result;
use crate::relay::requests::store_envelope;
use crate::relay::requests::store_reply;
use crate::relay::requests::BatchStoreResult;
use crate::relay::requests::BatchStoreStatus;
use crate::relay::requests::ReplyBody;
use crate::relay::requests::StoreReply;
use crate::relay::state::count_recent_peers;
use crate::relay::state::forget;
use crate::relay::state::forgotten;
use crate::relay::state::get_tier;
use crate::relay::state::lemma_delivered_elsewhere;
use crate::relay::state::queue_of;
use crate::relay::state::recent_peers;
use crate::relay::state::released;
use crate::relay::state::touched;
use crate::relay::state::window_of;
use crate::relay::state::RelayView;
use crate::relay::state::prune_dedup;
use crate::relay::state::record_direction;
use crate::relay::state::record_peer_connection;
use crate::relay::state::record_send;
use crate::relay::state::touch_peer;
use crate::relay::state::RelayState;
use crate::relay::state::RelayStateInner;
use crate::relay::stats::debug_stats;
use crate::relay::stats::describes_client;
use crate::relay::stats::describes_inbox;
use crate::relay::stats::inbox_bytes_weight;
use crate::relay::stats::len_weight;
use crate::relay::stats::lists_connections;
use crate::relay::stats::DebugStats;
use crate::relay::stats::InboxInfo;
use crate::relay::stats::InboxSenderInfo;
use crate::relay::store::audience;
use crate::relay::store::displaced;
use crate::relay::store::displaces;
use crate::relay::store::envelope_for;
use crate::relay::store::expires_at_from;
use crate::relay::store::limits_of;
use crate::relay::store::message_id_from;
use crate::relay::store::read_payload;
use crate::relay::store::recipient_id_from;
use crate::relay::store::registered;
use crate::relay::store::sender_id_from;
use crate::relay::store::ExpiresAt;
use crate::relay::store::Payload;
use crate::relay::store::StoreDecision;
use crate::relay::store::StoreError;
use crate::relay::ws::client_view;
use crate::relay::ws::connect;
use crate::relay::ws::disconnect;
use crate::relay::ws::greet;
use crate::relay::ws::greeted;
use crate::relay::ws::read_hello;
use crate::relay::ws::ws_step;
use crate::relay::ws::Hello;
use crate::relay::ws::WsAction;
use crate::relay::ws::WsInput;
use crate::sorting::Ranked;
use crate::sums::sum;
use crate::text::after_prefix;
use crate::text::decimal;
use crate::text::opt_text;
use crate::text::text_le;
use crate::text::texts;

verus! {

// ---------------------------------------------------------------------------
// What an envelope says
// ---------------------------------------------------------------------------

/// Who an envelope is for and from, its ids and its lifetime stand in its header, or beside it; its
/// body is the whole text.
pub proof fn law_envelope_says_who_and_when(
    text: &str,
    p: Payload,
    to: Option<String>,
    from: Option<String>,
)
    requires
        call_ensures(read_payload, (text,), p),
        call_ensures(recipient_id_from, (text,), to),
        call_ensures(sender_id_from, (text,), from),
    ensures
        opt_text(to) == json_string_at(text@, "/header/recipient_id"@),
        opt_text(from) == json_string_at(text@, "/header/sender_id"@),
        opt_text(p.recipient_id) == opt_text(to),
        opt_text(p.sender_id) == opt_text(from),
        opt_text(p.header_message_id) == json_string_at(text@, "/header/message_id"@),
        opt_text(p.message_id) == json_string_at(text@, "/message_id"@),
        p.ttl_seconds == json_number_at(text@, "/header/ttl_seconds"@),
        p.timestamp == json_number_at(text@, "/header/timestamp"@),
        p.body@ == text@,
{
    assert(p@.body == text@);
    assert(p@.recipient_id == json_string_at(text@, "/header/recipient_id"@));
    assert(p@.header_message_id == json_string_at(text@, "/header/message_id"@));
}

/// An envelope goes by the id in its header, else by the one beside it, else by the hash of its
/// text.
pub proof fn law_envelope_goes_by_an_id(p: Payload, id: String)
    requires
        call_ensures(message_id_from, (&p,), id),
    ensures
        p.header_message_id is Some ==> id@ == p.header_message_id->0@,
        p.header_message_id is None && p.message_id is Some ==> id@ == p.message_id->0@,
        p.header_message_id is None && p.message_id is None ==> id@ == hex_of(
            sha256_of(encode_utf8(p.body@)),
        ),
{
}

/// An envelope that asks to live for `t` seconds from its timestamp is kept from `now` for what is
/// left of them, or for as long as the relay keeps envelopes where that is less.
pub proof fn law_envelope_is_kept_for_its_lifetime(
    p: Payload,
    config: RelayConfig,
    now: u128,
    epoch: Option<u64>,
    r: Result<ExpiresAt, StoreError>,
)
    requires
        call_ensures(expires_at_from, (&p, &config, now, epoch), r),
        now + config.ttl <= u128::MAX,
    ensures
        match (p.ttl_seconds, p.timestamp, epoch) {
            (None, _, _) => r is Ok && r->Ok_0 is Valid && r->Ok_0->Valid_0 - now == config.ttl,
            (Some(_), None, _) => r is Err && r->Err_0 is InvalidPayload
                && r->Err_0->InvalidPayload_0@ == "missing timestamp"@,
            (Some(t), Some(ts), None) => if t == 0 {
                r is Ok && r->Ok_0 is Expired
            } else {
                r is Err && r->Err_0 is InvalidPayload
            },
            (Some(t), Some(ts), Some(e)) => {
                let asked = (ts + t - e) * 1_000_000_000;
                &&& r is Err <==> t > 0 && ts + t > u64::MAX
                &&& r is Err ==> r->Err_0 is InvalidPayload && r->Err_0->InvalidPayload_0@
                    == "ttl overflow"@
                &&& r is Ok && r->Ok_0 is Expired <==> t == 0 || (ts + t <= e && ts + t
                    <= u64::MAX)
                &&& r is Ok && r->Ok_0 is Valid ==> r->Ok_0->Valid_0 - now == if asked
                    < config.ttl {
                    asked
                } else {
                    config.ttl as int
                }
            },
        },
{
}

// ---------------------------------------------------------------------------
// Storing
// ---------------------------------------------------------------------------

/// What a storing call answers says why: an envelope for nobody is refused, one that is too large,
/// out of date or known already is named so, and any other is taken in unless its sender has used up
/// its quota.
pub proof fn law_answer_to_an_envelope_says_why(
    config: RelayConfig,
    inner: &mut RelayStateInner,
    p: Payload,
    now: u128,
    epoch: Option<u64>,
    pruned_at: u128,
    r: Result<StoreDecision, StoreError>,
    x: Result<ExpiresAt, StoreError>,
    id: String,
)
    requires
        call_ensures(
            store_envelope_locked,
            (&config, inner, p, now, epoch, pruned_at),
            r,
        ),
        call_ensures(expires_at_from, (&p, &config, now, epoch), x),
        call_ensures(message_id_from, (&p,), id),
        now + config.ttl <= u128::MAX,
    ensures
        ({
            let large = encode_utf8(p.body@).len() > config.max_bytes;
            let known = old(inner).dedup@.contains_key(id@) && old(inner).dedup@[id@] > now && old(
                inner,
            ).dedup@[id@] > pruned_at;
            let named = p.recipient_id is Some;
            let all = named && p.recipient_id->0@ == "*"@;
            let valid = x is Ok && x->Ok_0 is Valid;
            &&& r is Err && r->Err_0 is MissingRecipient <==> !named
            &&& r is Err && r->Err_0 is InvalidPayload <==> named && !large && x is Err
            &&& r is Err && r->Err_0 is InvalidPayload ==> r->Err_0->InvalidPayload_0@
                == x->Err_0->InvalidPayload_0@
            &&& r is Ok && r->Ok_0 is TooLarge <==> named && large
            &&& r is Ok && r->Ok_0 is Expired <==> named && !large && x is Ok && x->Ok_0 is Expired
            &&& r is Ok && r->Ok_0 is Duplicate <==> named && !large && valid && known
            &&& r is Ok && r->Ok_0 is Broadcast <==> all && !large && valid && !known
            &&& r is Ok && (r->Ok_0 is Accepted || r->Ok_0 is QuotaExceeded) <==> named && !all
                && !large && valid && !known
            &&& match r {
                Ok(StoreDecision::Accepted { message_id }) => message_id@ == id@,
                Ok(StoreDecision::Broadcast { message_id, recipients }) => {
                    &&& message_id@ == id@
                    &&& texts(recipients@).no_duplicates()
                    &&& forall|q: Seq<char>| #[trigger]
                        texts(recipients@).contains(q)
                            <==> old(inner).peer_last_seen@.contains_key(q)
                            && !(p.sender_id is Some && p.sender_id->0@ == q)
                },
                Ok(StoreDecision::Duplicate { message_id }) => message_id@ == id@,
                Ok(StoreDecision::Expired { message_id }) => message_id@ == id@,
                Ok(StoreDecision::TooLarge { message_id }) => message_id@ == id@,
                Ok(StoreDecision::QuotaExceeded { message_id }) => message_id@ == id@,
                Err(_) => true,
            }
        }),
{
    law_outcome_says_why(&config, old(inner)@, p@, now, epoch, pruned_at);
    law_lifetime_is_what_was_asked_for(p.ttl_seconds, p.timestamp, config.ttl, now, epoch);
    assert(p@.id() == id@);
    if r is Ok && r->Ok_0 is Broadcast {
        let recipients = r->Ok_0->recipients;
        assert forall|q: Seq<char>| #[trigger] texts(recipients@).contains(q) <==> old(
            inner,
        ).peer_last_seen@.contains_key(q) && !(p.sender_id is Some && p.sender_id->0@ == q) by {
            assert(texts(recipients@).contains(q) == texts(recipients@).to_set().contains(q));
        }
    }
}

/// After an envelope has been taken in for one recipient its id is known until it expires. Another
/// id is known that was, unless its time is up or its envelope had to make room.
pub proof fn law_ids_known_after_storing(
    config: RelayConfig,
    inner: &mut RelayStateInner,
    p: Payload,
    now: u128,
    epoch: Option<u64>,
    pruned_at: u128,
    r: Result<StoreDecision, StoreError>,
    x: Result<ExpiresAt, StoreError>,
    id: String,
    other: Seq<char>,
)
    requires
        call_ensures(store_envelope_locked, (&config, inner, p, now, epoch, pruned_at), r),
        call_ensures(expires_at_from, (&p, &config, now, epoch), x),
        call_ensures(message_id_from, (&p,), id),
        now + config.ttl <= u128::MAX,
        r is Ok,
        r->Ok_0 is Accepted,
        other != id@,
    ensures
        ({
            let before = old(inner).dedup@;
            let after = final(inner).dedup@;
            let to = p.recipient_id->0@;
            let alive = (if old(inner).queues@.contains_key(to) {
                old(inner).queues@[to]
            } else {
                Seq::empty()
            }).filter(|e: Envelope| e.expires_at > now);
            let out = evicted(
                alive,
                encode_utf8(p.body@).len(),
                config.max_messages,
                config.max_bytes,
            );
            &&& x is Ok && x->Ok_0 is Valid
            &&& after.contains_key(id@) && after[id@] == x->Ok_0->Valid_0
            &&& after.contains_key(other) <==> before.contains_key(other) && before[other]
                > pruned_at && !out.map_values(|e: Envelope| e.message_id).contains(other)
            &&& after.contains_key(other) ==> after[other] == before[other]
        }),
{
    let v = old(inner)@;
    law_outcome_says_why(&config, v, p@, now, epoch, pruned_at);
    law_lifetime_is_what_was_asked_for(p.ttl_seconds, p.timestamp, config.ttl, now, epoch);
    assert(p@.id() == id@);
    let to = p.recipient_id->0@;
    let q = queue_of(v.queues, to);
    lemma_live_raw(q, now);
    let out = evicted(
        live(q, now),
        encode_utf8(p.body@).len(),
        config.max_messages,
        config.max_bytes,
    );
    let w = final(inner)@;
    let size = p@.size() as usize;
    assert(size == encode_utf8(p.body@).len());
    assert(message_ids(out) == out.map_values(|e: Envelope| e.message_id));
    assert(message_ids(out).to_set().contains(other) == message_ids(out).contains(other));
    assert(w.dedup == final(inner).dedup@);
    let e = envelope_for(p@, x->Ok_0->Valid_0, now);
    let d = above(v.dedup, pruned_at);
    assert(w.dedup == forgotten(d, message_ids(out)).insert(id@, e.expires_at));
}

/// After a broadcast its id is known until it expires, and the id of an envelope that had to make
/// room for it in some inbox is free again.
pub proof fn law_ids_known_after_a_broadcast(
    config: RelayConfig,
    inner: &mut RelayStateInner,
    p: Payload,
    now: u128,
    epoch: Option<u64>,
    pruned_at: u128,
    r: Result<StoreDecision, StoreError>,
    x: Result<ExpiresAt, StoreError>,
    id: String,
    other: Seq<char>,
    peer: Seq<char>,
)
    requires
        call_ensures(store_envelope_locked, (&config, inner, p, now, epoch, pruned_at), r),
        call_ensures(expires_at_from, (&p, &config, now, epoch), x),
        call_ensures(message_id_from, (&p,), id),
        now + config.ttl <= u128::MAX,
        r is Ok,
        r->Ok_0 is Broadcast,
        other != id@,
        old(inner).peer_last_seen@.contains_key(peer),
        opt_text(p.sender_id) != Some(peer),
    ensures
        ({
            let before = old(inner).dedup@;
            let after = final(inner).dedup@;
            let alive = (if old(inner).queues@.contains_key(peer) {
                old(inner).queues@[peer]
            } else {
                Seq::empty()
            }).filter(|e: Envelope| e.expires_at > now);
            let out = evicted_oldest(
                alive,
                encode_utf8(p.body@).len(),
                config.max_messages,
                config.max_bytes,
            );
            &&& after.contains_key(id@) && after[id@] == x->Ok_0->Valid_0
            &&& out.map_values(|e: Envelope| e.message_id).contains(other)
                ==> !after.contains_key(other)
            &&& after.contains_key(other) ==> before.contains_key(other) && before[other]
                > pruned_at && after[other] == before[other]
        }),
{
    let v = old(inner)@;
    law_outcome_says_why(&config, v, p@, now, epoch, pruned_at);
    law_lifetime_is_what_was_asked_for(p.ttl_seconds, p.timestamp, config.ttl, now, epoch);
    assert(p@.id() == id@);
    let q = queue_of(v.queues, peer);
    lemma_live_raw(q, now);
    let size = p@.size() as usize;
    assert(size == encode_utf8(p.body@).len());
    let l = limits_of(&config);
    let out = displaced(q, size, l, now);
    assert(message_ids(out) == out.map_values(|e: Envelope| e.message_id));
    let w = final(inner)@;
    assert(w.dedup == final(inner).dedup@);
    let u = registered(RelayView { dedup: above(v.dedup, pruned_at), ..v }, p@, now);
    assert(u.queues == v.queues);
    let to = audience(u.peer_last_seen, p@.sender_id);
    assert(to.contains(peer));
    if message_ids(out).contains(other) {
        assert(displaces(u.queues, to, size, l, now, other));
    }
}

/// A text that is handed in is stored as the envelope that stands in it, and refused where it is
/// not JSON.
pub proof fn law_text_is_stored_as_the_envelope_in_it(
    config: RelayConfig,
    inner: &mut RelayStateInner,
    same: &mut RelayStateInner,
    raw: &str,
    text: &str,
    p: Payload,
    now: u128,
    epoch: Option<u64>,
    pruned_at: u128,
    r: Result<StoreDecision, StoreError>,
    s: Result<StoreDecision, StoreError>,
)
    requires
        call_ensures(store_envelope, (&config, inner, raw, now, epoch, pruned_at), r),
        call_ensures(read_payload, (text,), p),
        call_ensures(
            store_envelope_locked,
            (&config, same, p, now, epoch, pruned_at),
            s,
        ),
        old(same)@ == old(inner)@,
    ensures
        json_compacted(raw@) is None ==> {
            &&& r is Err && r->Err_0 is InvalidPayload
            &&& r->Err_0->InvalidPayload_0@ == "invalid json"@
            &&& final(inner)@ == old(inner)@
        },
        json_compacted(raw@) == Some(text@) ==> {
            &&& final(inner)@ == final(same)@
            &&& r is Err <==> s is Err
            &&& r is Ok && r->Ok_0 is Accepted <==> s is Ok && s->Ok_0 is Accepted
            &&& r is Ok && r->Ok_0 is Broadcast <==> s is Ok && s->Ok_0 is Broadcast
            &&& r is Ok && r->Ok_0 is Duplicate <==> s is Ok && s->Ok_0 is Duplicate
        },
{
}

/// A reply says what became of the envelope, and names those who are to hear of it: its recipient,
/// or everybody whom it was passed on to, and nobody where it was not taken in.
pub proof fn law_reply_says_what_became_of_it(
    result: Result<StoreDecision, StoreError>,
    to: Option<String>,
    r: StoreReply,
    b: BatchStoreResult,
)
    requires
        call_ensures(store_reply, (result, &to), r),
        call_ensures(batch_result, (result,), b),
    ensures
        match result {
            Ok(StoreDecision::Accepted { message_id }) => {
                &&& r.status == 202
                &&& r.body matches ReplyBody::Stored(s) && s@ == message_id@
                &&& to is Some ==> texts(r.notify@) == seq![to->0@]
                &&& b.status == BatchStoreStatus::Accepted
                &&& b.message_id is Some && b.message_id->0@ == message_id@
            },
            Ok(StoreDecision::Broadcast { message_id, recipients }) => {
                &&& r.status == 202
                &&& r.body matches ReplyBody::Stored(s) && s@ == message_id@
                &&& texts(r.notify@).to_set() == texts(recipients@).to_set()
                &&& b.status == BatchStoreStatus::Accepted
                &&& b.message_id is Some && b.message_id->0@ == message_id@
            },
            Ok(StoreDecision::Duplicate { message_id }) => {
                &&& r.status == 202 && r.notify@.len() == 0
                &&& r.body matches ReplyBody::Stored(s) && s@ == message_id@
                &&& b.status == BatchStoreStatus::Duplicate
                &&& b.message_id is Some && b.message_id->0@ == message_id@
            },
            Ok(StoreDecision::Expired { message_id }) => {
                &&& r.status == 410 && r.notify@.len() == 0
                &&& r.body matches ReplyBody::Text(s) && s@ == "envelope expired"@
                &&& b.status == BatchStoreStatus::Expired
                &&& b.message_id is Some && b.message_id->0@ == message_id@
            },
            Ok(StoreDecision::TooLarge { message_id }) => {
                &&& r.status == 413 && r.notify@.len() == 0
                &&& r.body matches ReplyBody::Text(s) && s@ == "payload exceeds max size"@
                &&& b.status == BatchStoreStatus::TooLarge
                &&& b.message_id is Some && b.message_id->0@ == message_id@
            },
            Ok(StoreDecision::QuotaExceeded { message_id }) => {
                &&& r.status == 429 && r.notify@.len() == 0
                &&& r.body matches ReplyBody::Error(s) && s@
                    == "sender quota exceeded for this inbox"@
                &&& b.status == BatchStoreStatus::QuotaExceeded
                &&& b.message_id is Some && b.message_id->0@ == message_id@
            },
            Err(StoreError::MissingRecipient) => {
                &&& r.status == 400 && r.notify@.len() == 0
                &&& r.body matches ReplyBody::Text(s) && s@ == "missing recipient_id"@
                &&& b.status == BatchStoreStatus::Invalid && b.message_id is None
                &&& b.detail is Some && b.detail->0@ == "missing recipient_id"@
            },
            Err(StoreError::InvalidPayload(why)) => {
                &&& r.status == 400 && r.notify@.len() == 0
                &&& r.body matches ReplyBody::Text(s) && s@ == why@
                &&& b.status == BatchStoreStatus::Invalid && b.message_id is None
                &&& b.detail is Some && b.detail->0@ == why@
            },
        },
{
    assert(texts(r.notify@).len() == r.notify@.len());
}

// ---------------------------------------------------------------------------
// Fetching
// ---------------------------------------------------------------------------

/// A fetching call hands out, oldest first, what has not expired and is no larger than the reader's
/// threshold, up to where the reader has as many as it asked for; larger ones up to there stay, and
/// so does everything beyond. It notes that the reader was seen.
pub proof fn law_fetch_answers_with_what_is_small_enough(
    config: RelayConfig,
    inner: &mut RelayStateInner,
    peer: &str,
    query: InboxQuery,
    now: u128,
    pruned_at: u128,
    r: (Vec<String>, bool),
) -> (k: int)
    requires
        call_ensures(fetch_inbox, (&config, inner, peer, query, now, pruned_at), r),
    ensures
        !old(inner).queues@.contains_key(peer@) ==> r.0@.len() == 0,
        old(inner).queues@.contains_key(peer@) ==> {
            let alive = old(inner).queues@[peer@].filter(|e: Envelope| e.expires_at > now);
            let m = query.max_size_bytes;
            &&& 0 <= k <= alive.len()
            &&& texts(r.0@) == alive.take(k).filter(
                |e: Envelope| m is None || e.size_bytes <= m->0,
            ).map_values(|e: Envelope| e.body)
            &&& final(inner).queues@ == old(inner).queues@.insert(
                peer@,
                alive.take(k).filter(|e: Envelope| m is Some && e.size_bytes > m->0) + alive.skip(
                    k,
                ),
            )
            &&& query.limit is None ==> k == alive.len()
            &&& query.limit is Some ==> r.0@.len() <= query.limit->0
            &&& query.limit is Some && r.0@.len() < query.limit->0 ==> k == alive.len()
        },
        final(inner).peer_last_seen@.contains_key(peer@),
        final(inner).peer_last_seen@[peer@] == now,
        r.1 <==> !old(inner).peer_last_seen@.contains_key(peer@) || (if old(
            inner,
        ).peer_last_seen@[peer@] <= now {
            now - old(inner).peer_last_seen@[peer@]
        } else {
            0
        }) >= config.peer_log_window,
{
    let v = old(inner)@;
    assert(texts(r.0@).len() == r.0@.len());
    if v.queues.contains_key(peer@) {
        let k = law_fetch_hands_out_what_is_small_enough(v, peer@, query, now, pruned_at);
        let q = v.queues[peer@];
        let out = handed_out(q, query, now);
        lemma_delivered_elsewhere(
            RelayView {
                queues: v.queues.insert(peer@, held_back(q, query, now)),
                usage: released(v.usage, peer@, charges(expired(q, now) + out)),
                ..touched(v, peer@, now)
            },
            peer@,
            latencies_ms(out, now),
            now,
        );
        k
    } else {
        0
    }
}

/// An inbox gives up, oldest first, what is no larger than the threshold, up to where as many as
/// were asked for are out; larger ones up to there stay, and so does everything beyond. What has
/// expired is thrown away. Every envelope that leaves gives its bytes back to its sender.
pub proof fn law_inbox_gives_up_what_is_small_enough(
    queue: &mut Inbox,
    limit: Option<usize>,
    m: Option<usize>,
    now: u128,
    r: (Vec<String>, Vec<String>, Vec<u128>, Vec<(Option<String>, usize)>),
) -> (k: int)
    requires
        call_ensures(pop_envelopes, (queue, limit, m, now), r),
    ensures
        ({
            let alive = old(queue)@.filter(|e: Envelope| e.expires_at > now);
            let gone = old(queue)@.filter(|e: Envelope| e.expires_at <= now);
            let out = alive.take(k).filter(|e: Envelope| m is None || e.size_bytes <= m->0);
            &&& 0 <= k <= alive.len()
            &&& final(queue)@ == alive.take(k).filter(
                |e: Envelope| m is Some && e.size_bytes > m->0,
            ) + alive.skip(k)
            &&& texts(r.0@) == gone.map_values(|e: Envelope| e.message_id)
            &&& texts(r.1@) == out.map_values(|e: Envelope| e.body)
            &&& limit is None ==> k == alive.len()
            &&& limit is Some ==> r.1@.len() <= limit->0
            &&& limit is Some && r.1@.len() < limit->0 ==> k == alive.len()
            &&& r.2@.len() == out.len()
            &&& forall|i: int|
                0 <= i < out.len() && (#[trigger] out[i]).stored_at <= now ==> r.2@[i] == (now
                    - out[i].stored_at) / 1_000_000
            &&& r.3@.len() == gone.len() + out.len()
            &&& forall|i: int|
                0 <= i < out.len() ==> opt_text(r.3@[gone.len() + i].0) == (
                #[trigger] out[i]).sender_id && r.3@[gone.len() + i].1 == out[i].size_bytes
            &&& forall|i: int|
                0 <= i < gone.len() ==> opt_text(r.3@[i].0) == (#[trigger] gone[i]).sender_id
                    && r.3@[i].1 == gone[i].size_bytes
        }),
{
    let q = old(queue)@;
    let alive = q.filter(|e: Envelope| e.expires_at > now);
    let gone = q.filter(|e: Envelope| e.expires_at <= now);
    lemma_live_raw(q, now);
    assert(is_expired(now) =~= |e: Envelope| e.expires_at <= now);
    assert(expired(q, now) == gone);
    let n = fetch_limit(limit, alive.len());
    let k = lemma_cut(alive, n, m);
    let small = |e: Envelope| m is None || e.size_bytes <= m->0;
    let out = alive.take(k).filter(small);
    alive.take(k).lemma_filter_len(small);
    assert(taken(alive, n, m) == out);
    assert(texts(r.1@).len() == r.1@.len());
    let back = named_charges(r.3@);
    assert(back == charges(gone + out));
    assert(back.len() == r.3@.len());
    assert forall|i: int| 0 <= i < out.len() implies opt_text(r.3@[gone.len() + i].0) == (
    #[trigger] out[i]).sender_id && r.3@[gone.len() + i].1 == out[i].size_bytes by {
        assert(back[gone.len() + i] == charge((gone + out)[gone.len() + i]));
        assert((gone + out)[gone.len() + i] == out[i]);
    }
    assert forall|i: int| 0 <= i < gone.len() implies opt_text(r.3@[i].0) == (
    #[trigger] gone[i]).sender_id && r.3@[i].1 == gone[i].size_bytes by {
        assert(back[i] == charge((gone + out)[i]));
    }
    assert forall|i: int| 0 <= i < out.len() && (#[trigger] out[i]).stored_at <= now implies r.2@[i]
        == (now - out[i].stored_at) / 1_000_000 by {
        assert(latencies_ms(out, now)[i] == waited_ms(out[i], now));
    }
    k
}

/// What has expired leaves an inbox, and nothing else does.
pub proof fn law_expired_envelopes_leave(
    queue: &mut Inbox,
    now: u128,
    r: (Vec<String>, Vec<(Option<String>, usize)>),
)
    requires
        call_ensures(prune_expired, (queue, now), r),
    ensures
        final(queue)@ == old(queue)@.filter(|e: Envelope| e.expires_at > now),
        texts(r.0@) == old(queue)@.filter(|e: Envelope| e.expires_at <= now).map_values(
            |e: Envelope| e.message_id,
        ),
        r.1@.len() == r.0@.len(),
        forall|i: int|
            0 <= i < r.1@.len() ==> {
                let e = old(queue)@.filter(|e: Envelope| e.expires_at <= now)[i];
                opt_text((#[trigger] r.1@[i]).0) == e.sender_id && r.1@[i].1 == e.size_bytes
            },
{
    let q = old(queue)@;
    let gone = q.filter(|e: Envelope| e.expires_at <= now);
    lemma_live_raw(q, now);
    assert(is_expired(now) =~= |e: Envelope| e.expires_at <= now);
    let back = named_charges(r.1@);
    assert(back.len() == r.1@.len());
    assert(texts(r.0@).len() == r.0@.len());
    assert forall|i: int| 0 <= i < r.1@.len() implies opt_text((#[trigger] r.1@[i]).0)
        == gone[i].sender_id && r.1@[i].1 == gone[i].size_bytes by {
        assert(back[i] == charge(gone[i]));
    }
}

/// Small things on queues: the bytes of a queue are those of its envelopes, time does not run
/// backwards, and an envelope that is removed is noted under its id and its sender.
pub proof fn law_small_things_on_queues(
    queue: Inbox,
    bytes: usize,
    now: u128,
    since: u128,
    t: u128,
    item: StoredEnvelope,
    ids: &mut Vec<String>,
    back: &mut Vec<(Option<String>, usize)>,
)
    requires
        call_ensures(queue_bytes, (&queue,), bytes),
        call_ensures(time_since, (now, since), t),
        call_ensures(note_removal, (&item, ids, back), ()),
    ensures
        bytes == sum(queue@, |e: Envelope| e.size_bytes as nat),
        since <= now ==> since + t == now,
        since > now ==> t == 0,
        texts(final(ids)@) == texts(old(ids)@).push(item.message_id@),
        final(back)@.len() == old(back)@.len() + 1,
        opt_text(final(back)@.last().0) == opt_text(item.sender_id),
        final(back)@.last().1 == item.size_bytes,
{
    assert(size_weight() =~= |e: Envelope| e.size_bytes as nat);
    let b = named_charges(final(back)@);
    assert(b.len() == final(back)@.len());
    assert(b.len() == named_charges(old(back)@).len() + 1);
    assert(b.last() == charge(item@));
}

/// What happened in a window of so many seconds is counted: a new instant is within it, and an
/// instant is counted only where it is no older than that.
pub proof fn law_windows_hold_what_is_recent(
    deque: &mut VecDeque<u128>,
    now: u128,
    secs: u64,
    n: usize,
    d: VecDeque<u128>,
)
    requires
        call_ensures(push_timestamped, (deque, now), ()),
        call_ensures(count_in_window, (&d, now, secs), n),
    ensures
        final(deque)@.len() > 0,
        final(deque)@.last() == now,
        final(deque)@.len() <= old(deque)@.len() + 1,
        forall|i: int|
            0 <= i < final(deque)@.len() ==> #[trigger] final(deque)@[i] == old(deque)@.push(
                now,
            )[i + old(deque)@.len() + 1 - final(deque)@.len()],
        final(deque)@[0] + 86_400_000_000_000 >= now,
        n <= d@.len(),
        forall|i: int|
            d@.len() - n <= i < d@.len() ==> #[trigger] d@[i] + secs * 1_000_000_000 >= now,
        n < d@.len() ==> d@[d@.len() - n - 1] + secs * 1_000_000_000 < now,
{
    let s = old(deque)@.push(now);
    lemma_recent(s, now, 86_400_000_000_000);
    lemma_trailing(d@, now, (secs * 1_000_000_000) as u128);
}

proof fn lemma_recent(d: Seq<u128>, now: u128, age: u128)
    requires
        d.len() > 0,
        d.last() == now,
    ensures
        ({
            let r = recent(d, now, age);
            &&& 0 < r.len() <= d.len()
            &&& r == d.skip(d.len() - r.len())
            &&& r[0] + age >= now
        }),
    decreases d.len(),
{
    if elapsed(now, d[0]) > age {
        assert(d.drop_first().last() == now);
        lemma_recent(d.drop_first(), now, age);
        let r = recent(d, now, age);
        assert(d.drop_first().skip(d.len() - 1 - r.len()) =~= d.skip(d.len() - r.len()));
    } else {
        assert(d.skip(0) =~= d);
    }
}

proof fn lemma_trailing(d: Seq<u128>, now: u128, window: u128)
    ensures
        ({
            let n = trailing_within(d, now, window);
            &&& n <= d.len()
            &&& forall|i: int| d.len() - n <= i < d.len() ==> #[trigger] d[i] + window >= now
            &&& n < d.len() ==> d[d.len() - n - 1] + window < now
        }),
    decreases d.len(),
{
    if d.len() > 0 && elapsed(now, d.last()) <= window {
        lemma_trailing(d.drop_last(), now, window);
        let n = trailing_within(d, now, window);
        assert forall|i: int| d.len() - n <= i < d.len() implies #[trigger] d[i] + window >= now by {
            if i < d.len() - 1 {
                assert(d.drop_last()[i] == d[i]);
            }
        }
    }
}

// ---------------------------------------------------------------------------
// Peers and quotas
// ---------------------------------------------------------------------------

/// A peer that shows up is seen now, and that is logged where it has not been seen for as long as
/// the window says; nothing else changes.
pub proof fn law_peer_is_seen(
    config: RelayConfig,
    inner: &mut RelayStateInner,
    again: &mut RelayStateInner,
    peer: &str,
    now: u128,
    log: bool,
)
    requires
        call_ensures(touch_peer, (inner, peer, now), ()),
        call_ensures(record_peer_connection, (&config, again, peer, now), log),
    ensures
        final(inner).peer_last_seen@ == old(inner).peer_last_seen@.insert(peer@, now),
        final(inner).queues@ == old(inner).queues@,
        final(inner).dedup@ == old(inner).dedup@,
        final(inner).sender_inbox_usage@ == old(inner).sender_inbox_usage@,
        final(again).peer_last_seen@ == old(again).peer_last_seen@.insert(peer@, now),
        final(again).queues@ == old(again).queues@,
        !old(again).peer_last_seen@.contains_key(peer@) ==> log,
        old(again).peer_last_seen@.contains_key(peer@) && old(again).peer_last_seen@[peer@] <= now
            ==> log == (now - old(again).peer_last_seen@[peer@] >= config.peer_log_window),
{
    let w = final(inner)@;
    assert(w.queues == old(inner)@.queues);
    assert(w.peer_last_seen == old(inner)@.peer_last_seen.insert(peer@, now));
}

/// Peers are recent that were seen no longer ago than the window.
pub proof fn law_recent_peers_are_counted(
    inner: RelayStateInner,
    now: u128,
    window: u128,
    r: usize,
)
    requires
        call_ensures(count_recent_peers, (&inner, now, window), r),
    ensures
        r == inner.peer_last_seen@.dom().filter(
            |p: Seq<char>| now - inner.peer_last_seen@[p] <= window,
        ).len(),
{
    assert(inner@.peer_last_seen == inner.peer_last_seen@);
    assert(recent_peers(inner@.peer_last_seen, now, window) =~= inner.peer_last_seen@.dom().filter(
        |p: Seq<char>| now - inner.peer_last_seen@[p] <= window,
    ));
}

/// A sender has the limits of a stranger until the recipient has written to it, then those of
/// somebody who was answered, and those of a correspondent while both have written within the
/// window and their exchange is on record.
pub proof fn law_limits_are_those_of_the_relation(
    qos: RelayQosConfig,
    inner: RelayStateInner,
    a: &str,
    b: &str,
    now: u128,
    r: TierLimits,
)
    requires
        call_ensures(get_tier, (&qos, &inner, a, b, now), r),
    ensures
        ({
            let seen = inner.directed_last_seen@;
            let w = qos.bidirectional_window;
            let both = inner.bidirectional_pairs@.contains_key((a@, b@)) && seen.contains_key(
                (a@, b@),
            ) && seen.contains_key((b@, a@)) && now - seen[(a@, b@)] <= w && now - seen[(b@, a@)]
                <= w;
            &&& both ==> r == qos.tier3
            &&& !both && seen.contains_key((b@, a@)) ==> r == qos.tier2
            &&& !both && !seen.contains_key((b@, a@)) ==> r == qos.tier1
        }),
{
    let v = inner@;
    assert(v.directed == inner.directed_last_seen@);
    assert(v.pairs == inner.bidirectional_pairs@);
}

/// That one peer writes to another is noted, and that they are in touch where the other has written
/// back within the window.
pub proof fn law_direction_is_noted(
    inner: &mut RelayStateInner,
    a: &str,
    b: &str,
    now: u128,
    window: u128,
)
    requires
        call_ensures(record_direction, (inner, a, b, now, window), ()),
        a@ != b@,
    ensures
        ({
            let seen = old(inner).directed_last_seen@;
            let pairs = old(inner).bidirectional_pairs@;
            let back = seen.contains_key((b@, a@)) && now - seen[(b@, a@)] <= window;
            &&& final(inner).directed_last_seen@ == seen.insert((a@, b@), now)
            &&& back ==> final(inner).bidirectional_pairs@ == pairs.insert(
                (a@, b@),
                true,
            ).insert((b@, a@), true)
            &&& !back ==> final(inner).bidirectional_pairs@ == pairs
            &&& final(inner).queues@ == old(inner).queues@
        }),
{
    let w = final(inner)@;
    let v = old(inner)@;
    let seen = v.directed.insert((a@, b@), now);
    assert(w.directed == seen);
    assert(seen.contains_key((b@, a@)) == v.directed.contains_key((b@, a@)));
    assert(seen[(b@, a@)] == v.directed[(b@, a@)]) by {
        assert((a@, b@) != (b@, a@));
    }
    assert(w.queues == v.queues);
    assert(w.pairs == if seen.contains_key((b@, a@)) && elapsed(now, seen[(b@, a@)]) <= window {
        v.pairs.insert((a@, b@), true).insert((b@, a@), true)
    } else {
        v.pairs
    });
}

/// A sender's window gets the instant of a sending, and only its window.
pub proof fn law_sending_is_noted(inner: &mut RelayStateInner, a: &str, now: u128, other: Seq<char>)
    requires
        call_ensures(record_send, (inner, a, now), ()),
        other != a@,
    ensures
        final(inner).peer_sends@.contains_key(a@),
        final(inner).peer_sends@[a@].len() > 0,
        final(inner).peer_sends@[a@].last() == now,
        final(inner).peer_sends@.contains_key(other) == old(inner).peer_sends@.contains_key(other),
        final(inner).peer_sends@[other] == old(inner).peer_sends@[other],
        final(inner).inbox_deliveries@ == old(inner).inbox_deliveries@,
{
    let v = old(inner)@;
    let w = final(inner)@;
    assert(w.peer_sends == v.peer_sends.insert(a@, stamped(window_of(v.peer_sends, a@), now)));
    assert(w.inbox_deliveries == v.inbox_deliveries);
    lemma_recent(window_of(v.peer_sends, a@).push(now), now, 86_400_000_000_000);
    let d = window_of(v.peer_sends, a@).push(now);
    let r = recent(d, now, 86_400_000_000_000);
    assert(r.last() == d.last());
}

/// Ids are known until their time is up, and free again when they are forgotten.
pub proof fn law_ids_are_known_for_a_while(
    dedup: &mut KeyedMap<String, u128>,
    other: &mut KeyedMap<String, u128>,
    now: u128,
    ids: Vec<String>,
    id: Seq<char>,
)
    requires
        call_ensures(prune_dedup, (dedup, now), ()),
        call_ensures(forget, (other, &ids), ()),
    ensures
        final(dedup)@.contains_key(id) <==> old(dedup)@.contains_key(id) && old(dedup)@[id] > now,
        final(dedup)@.contains_key(id) ==> final(dedup)@[id] == old(dedup)@[id],
        final(other)@.contains_key(id) <==> old(other)@.contains_key(id) && !texts(ids@).contains(
            id,
        ),
        final(other)@.contains_key(id) ==> final(other)@[id] == old(other)@[id],
{
    assert(texts(ids@).to_set().contains(id) == texts(ids@).contains(id));
}

/// Failed attempts are repeated after the delays of the list, one after the other, and given up
/// when it ends.
pub proof fn law_attempts_are_repeated(config: RelayConfig, failed: usize, r: Option<u128>)
    requires
        call_ensures(retry_delay, (&config, failed), r),
        failed >= 1,
    ensures
        failed <= config.retry_backoff@.len() ==> r == Some(config.retry_backoff@[failed - 1]),
        failed > config.retry_backoff@.len() ==> r is None,
{
}

/// A bearer token is what follows the word `Bearer` and a blank.
pub proof fn law_bearer_token(header: &str, token: Seq<char>, r: Option<String>, n: Option<String>)
    requires
        call_ensures(extract_bearer_token, (Some(header),), r),
        call_ensures(extract_bearer_token, (None::<&str>,), n),
    ensures
        header@ == "Bearer "@ + token ==> r is Some && r->0@ == token,
        r is Some ==> header@ == "Bearer "@ + r->0@,
        n is None,
{
    let p = "Bearer "@;
    if header@ == p + token {
        crate::relay::promises::law_bearer_token_is_found(token);
    }
    if r is Some {
        let t = r->0@;
        assert(after_prefix(header@, p) == Some(t));
        assert(header@ =~= header@.take(p.len() as int) + header@.skip(p.len() as int));
    }
}

// ---------------------------------------------------------------------------
// Chunks
// ---------------------------------------------------------------------------

/// A chunk is taken in under the hash of its bytes where it is no longer than allowed, is not there
/// yet and fits into what its sender may upload on the day; it is then there to be downloaded, and
/// what its sender has uploaded grows by its length.
pub proof fn law_chunk_is_taken_in(
    config: RelayConfig,
    inner: &mut RelayStateInner,
    name: &str,
    text: &str,
    sender: Option<String>,
    today: u64,
    r: UploadOutcome,
    status: u16,
)
    requires
        call_ensures(upload_blob, (&config, inner, name, text, sender, today), r),
        call_ensures(upload_status, (r,), status),
    ensures
        ({
            let blobs = old(inner).blobs@;
            let uploads = old(inner).blob_daily_upload@;
            let digits = encode_utf8(name@).len() == 64 && forall|i: int|
                0 <= i < name@.len() ==> {
                    ||| '0' <= #[trigger] name@[i] <= '9'
                    ||| 'a' <= name@[i] <= 'f'
                    ||| 'A' <= name@[i] <= 'F'
                };
            let data = base64_bytes(text@);
            let used = if sender is Some && uploads.contains_key(sender->0@)
                && uploads[sender->0@].0 == today {
                uploads[sender->0@].1 as int
            } else {
                0
            };
            let right = digits && data is Some && hex_of(sha256_of(data->0)) == name@;
            let short = encode_utf8(text@).len() <= config.blob_max_chunk_bytes;
            let paid = sender is Some ==> used + data->0.len() <= config.blob_daily_quota_bytes;
            &&& status == 201 <==> right && short && !blobs.contains_key(name@) && paid
            &&& status == 409 <==> right && short && blobs.contains_key(name@)
            &&& status == 429 <==> right && short && !blobs.contains_key(name@) && !paid
            &&& status == 413 <==> right && !short
            &&& status == 400 <==> !right
            &&& status == 201 ==> final(inner).blobs@ == blobs.insert(
                name@,
                (data->0, opt_text(sender)),
            )
            &&& status != 201 ==> final(inner).blobs@ == blobs
            &&& status == 201 && sender is Some ==> final(inner).blob_daily_upload@
                == uploads.insert(sender->0@, (today, (used + data->0.len()) as u64))
            &&& sender is None ==> final(inner).blob_daily_upload@ == uploads
            &&& final(inner).queues@ == old(inner).queues@
        }),
{
    let v = old(inner)@;
    let w = final(inner)@;
    law_upload_is_taken_in(
        &config,
        v,
        name@,
        encode_utf8(text@).len(),
        base64_bytes(text@),
        opt_text(sender),
        today,
    );
    assert(w.blobs == final(inner).blobs@ && w.uploads == final(inner).blob_daily_upload@);
    assert(w.queues == final(inner).queues@);
}

/// What is checked of a chunk is its name, that its text is base64, its hash and its length; what
/// is stored then counts towards the day.
pub proof fn law_chunk_is_checked(
    config: RelayConfig,
    name: &str,
    text: &str,
    r: Result<Vec<u8>, UploadOutcome>,
    named: bool,
)
    requires
        call_ensures(check_upload, (&config, name, text), r),
        call_ensures(is_chunk_name, (name,), named),
    ensures
        named <==> encode_utf8(name@).len() == 64 && forall|i: int|
            0 <= i < name@.len() ==> {
                ||| '0' <= #[trigger] name@[i] <= '9'
                ||| 'a' <= name@[i] <= 'f'
                ||| 'A' <= name@[i] <= 'F'
            },
        r is Ok <==> named && base64_bytes(text@) is Some && hex_of(
            sha256_of(base64_bytes(text@)->0),
        ) == name@ && encode_utf8(text@).len() <= config.blob_max_chunk_bytes,
        r is Ok ==> base64_bytes(text@) == Some(r->Ok_0@),
        r is Err && !named ==> r->Err_0 == UploadOutcome::InvalidHash,
        r is Err && named && base64_bytes(text@) is None ==> r->Err_0
            == UploadOutcome::InvalidBase64,
{
}

/// A chunk that is stored is there afterwards, unless one of its name was, or its sender has used
/// up its bytes for the day.
pub proof fn law_chunk_is_stored(
    config: RelayConfig,
    inner: &mut RelayStateInner,
    name: &str,
    data: Vec<u8>,
    sender: Option<String>,
    today: u64,
    r: UploadOutcome,
)
    requires
        call_ensures(store_chunk, (&config, inner, name, data, sender, today), r),
    ensures
        ({
            let uploads = old(inner).blob_daily_upload@;
            let used = if sender is Some && uploads.contains_key(sender->0@)
                && uploads[sender->0@].0 == today {
                uploads[sender->0@].1 as int
            } else {
                0
            };
            let there = old(inner).blobs@.contains_key(name@);
            let paid = sender is Some ==> used + data@.len() <= config.blob_daily_quota_bytes;
            &&& r == UploadOutcome::Exists <==> there
            &&& r == UploadOutcome::QuotaExceeded <==> !there && !paid
            &&& r == UploadOutcome::Created <==> !there && paid
            &&& r == UploadOutcome::Created ==> final(inner).blobs@ == old(inner).blobs@.insert(
                name@,
                (data@, opt_text(sender)),
            )
            &&& r != UploadOutcome::Created ==> final(inner).blobs@ == old(inner).blobs@
        }),
{
    let w = final(inner)@;
    assert(w.blobs == final(inner).blobs@);
    assert(old(inner)@.uploads == old(inner).blob_daily_upload@);
}

/// What is there can be downloaded, byte by byte, until it is deleted; deleting says whether it was
/// there.
pub proof fn law_chunk_is_there_until_it_is_deleted(
    state: RelayStateInner,
    inner: &mut RelayStateInner,
    name: &str,
    r: Option<Vec<u8>>,
    gone: bool,
)
    requires
        call_ensures(download_blob, (&state, name), r),
        call_ensures(delete_blob, (inner, name), gone),
    ensures
        r is Some <==> state.blobs@.contains_key(name@),
        r is Some ==> r->0@ == state.blobs@[name@].0,
        gone <==> old(inner).blobs@.contains_key(name@),
        final(inner).blobs@ == old(inner).blobs@.remove(name@),
        final(inner).blob_daily_upload@ == old(inner).blob_daily_upload@,
        final(inner).queues@ == old(inner).queues@,
{
    let w = final(inner)@;
    assert(w.blobs == old(inner)@.blobs.remove(name@));
    assert(w.uploads == old(inner)@.uploads && w.queues == old(inner)@.queues);
}

/// The days of quotas are those of UTC.
pub proof fn law_days_are_those_of_utc(e: u64, r: u64)
    requires
        call_ensures(utc_day, (Some(e),), r),
    ensures
        r * 24 * 3600 <= e < (r + 1) * 24 * 3600,
{
}

// ---------------------------------------------------------------------------
// Connections
// ---------------------------------------------------------------------------

/// A connection gets a number that no other has had, and is kept under it, with the peer, its
/// address and the instant, until it ends.
pub proof fn law_connections_are_kept(
    inner: &mut RelayStateInner,
    later: &mut RelayStateInner,
    peer: &str,
    ip: String,
    now: u128,
    id: u64,
    old_id: u64,
)
    requires
        call_ensures(connect, (inner, peer, ip, now), id),
        call_ensures(disconnect, (later, old_id), ()),
        old(inner).next_conn_id < u64::MAX,
    ensures
        id == old(inner).next_conn_id,
        final(inner).next_conn_id == id + 1,
        final(inner).ws_clients@.contains_key(id),
        final(inner).ws_clients@ == old(inner).ws_clients@.insert(id, final(inner).ws_clients@[id]),
        ({
            let c = final(inner).ws_clients@[id];
            &&& c.peer_id@ == peer@
            &&& c.ip is Some && c.ip->0@ == ip@
            &&& c.web_ui_url is None && c.version is None
            &&& c.connected_at == now
        }),
        final(inner).peer_last_seen@ == old(inner).peer_last_seen@.insert(peer@, now),
        final(inner).queues@ == old(inner).queues@,
        final(later).ws_clients@ == old(later).ws_clients@.remove(old_id),
        final(later).queues@ == old(later).queues@,
        final(later).peer_last_seen@ == old(later).peer_last_seen@,
{
    let v = old(inner)@;
    let w = final(inner)@;
    assert(w.ws_clients == final(inner).ws_clients@);
    assert(w.next_conn_id == (id + 1) as u64);
    assert(w.peer_last_seen == v.peer_last_seen.insert(peer@, now));
    assert(w.queues == v.queues);
    let c = w.ws_clients[id];
    let k = client_view(c);
    assert(k.peer_id == peer@ && k.ip == Some(ip@) && k.web_ui_url is None && k.version is None
        && k.connected_at == now);
    let x = final(later)@;
    assert(x.ws_clients == old(later)@.ws_clients.remove(old_id));
    assert(x.queues == old(later)@.queues && x.peer_last_seen == old(later)@.peer_last_seen);
}

/// What a client says of itself is kept with its connection, and with no other: its version, and
/// where its pages are.
pub proof fn law_client_says_who_it_is(
    inner: &mut RelayStateInner,
    id: u64,
    hello: Hello,
    other: u64,
)
    requires
        call_ensures(greet, (inner, id, hello), ()),
        old(inner).ws_clients@.contains_key(id),
        old(inner).ws_clients@.contains_key(other),
        other != id,
    ensures
        final(inner).ws_clients@.contains_key(id),
        final(inner).ws_clients@.contains_key(other),
        final(inner).ws_clients@[other] == old(inner).ws_clients@[other],
        ({
            let c = old(inner).ws_clients@[id];
            let d = final(inner).ws_clients@[id];
            &&& d.peer_id@ == c.peer_id@ && d.connected_at == c.connected_at
            &&& opt_text(d.ip) == opt_text(c.ip)
            &&& hello.version is Some ==> d.version is Some && d.version->0@ == hello.version->0@
            &&& hello.version is None ==> opt_text(d.version) == opt_text(c.version)
            &&& hello.web_ui_port is None ==> opt_text(d.web_ui_url) == opt_text(c.web_ui_url)
            &&& hello.web_ui_port is Some && c.ip is Some ==> d.web_ui_url is Some
                && d.web_ui_url->0@ == "http://"@ + c.ip->0@ + ":"@ + decimal(
                hello.web_ui_port->0 as nat,
            )
        }),
        final(inner).queues@ == old(inner).queues@,
{
    let v = old(inner)@;
    let w = final(inner)@;
    assert(w.ws_clients.dom().contains(id) && w.ws_clients.dom().contains(other));
    let c = client_view(v.ws_clients[id]);
    let d = client_view(w.ws_clients[id]);
    assert(d == greeted(c, opt_text(hello.version), hello.web_ui_port));
    assert(d.peer_id == c.peer_id && d.ip == c.ip && d.connected_at == c.connected_at);
    assert(w.queues == v.queues);
    assert(w.ws_clients[other] == v.ws_clients[other]);
}

/// A greeting is a text of type `hello`; a connection passes on what comes for its client, answers
/// pings and ends when either side does.
pub proof fn law_connection_answers(
    text: &str,
    h: Option<Hello>,
    said: String,
    on_text: WsAction,
    data: Vec<u8>,
    on_ping: WsAction,
    on_envelope: WsAction,
    missed: u64,
    on_lag: WsAction,
    on_close: WsAction,
    on_gone: WsAction,
    on_other: WsAction,
)
    requires
        call_ensures(read_hello, (text,), h),
        call_ensures(ws_step, (WsInput::Text(said),), on_text),
        call_ensures(ws_step, (WsInput::Ping(data),), on_ping),
        call_ensures(ws_step, (WsInput::Envelope(Some(said)),), on_envelope),
        call_ensures(ws_step, (WsInput::Lagged(missed),), on_lag),
        call_ensures(ws_step, (WsInput::Closed,), on_close),
        call_ensures(ws_step, (WsInput::Gone,), on_gone),
        call_ensures(ws_step, (WsInput::Other,), on_other),
    ensures
        h is Some <==> json_string_at(text@, "/type"@) == Some("hello"@),
        h is Some ==> opt_text(h->0.version) == json_string_at(text@, "/version"@)
            && h->0.web_ui_port == json_number_at(text@, "/web_ui_port"@),
        on_text is Greet || on_text is Nothing,
        on_text is Greet <==> json_string_at(said@, "/type"@) == Some("hello"@),
        on_text is Greet ==> opt_text(on_text->Greet_0.version) == json_string_at(
            said@,
            "/version"@,
        ) && on_text->Greet_0.web_ui_port == json_number_at(said@, "/web_ui_port"@),
        on_ping == WsAction::Pong(data),
        on_envelope == WsAction::Send(said),
        on_lag == WsAction::LogLag(missed),
        on_close is Stop && on_gone is Stop,
        on_other is Nothing,
{
}

/// A relay begins empty.
pub proof fn law_relay_begins_empty(config: RelayConfig, inner: RelayStateInner, r: RelayState)
    requires
        call_ensures(RelayStateInner::new, (), inner),
        call_ensures(RelayState::new, (config,), r),
    ensures
        r.config == config,
        r.inner@ == inner@,
        inner.queues@ == Map::<Seq<char>, Seq<Envelope>>::empty(),
        inner.dedup@ == Map::<Seq<char>, u128>::empty(),
        inner.peer_last_seen@ == Map::<Seq<char>, u128>::empty(),
        inner.blobs@.dom().len() == 0,
        inner.ws_clients@.dom().len() == 0,
        inner.total_stored == 0 && inner.total_delivered == 0,
        inner.latency_count == 0 && inner.latency_sum_ms == 0,
        inner.latency_min_ms == u64::MAX && inner.latency_max_ms == 0,
        inner.next_conn_id == 0,
{
    let v = inner@;
    assert(v.queues == inner.queues@ && v.dedup == inner.dedup@ && v.peer_last_seen
        == inner.peer_last_seen@ && v.blobs == inner.blobs@ && v.ws_clients == inner.ws_clients@);
    assert(v.total_stored == inner.total_stored && v.total_delivered == inner.total_delivered);
    assert(v.latency_count == inner.latency_count && v.latency_sum_ms == inner.latency_sum_ms
        && v.latency_min_ms == inner.latency_min_ms && v.latency_max_ms == inner.latency_max_ms);
    assert(v.next_conn_id == inner.next_conn_id);
}

// ---------------------------------------------------------------------------
// Reports
// ---------------------------------------------------------------------------

/// The report on a relay is complete: it counts the peers, lists every inbox and every connection
/// once, and adds up what the inboxes hold.
pub proof fn law_report_is_complete(
    inner: RelayStateInner,
    now: u128,
    r: DebugStats,
    peer: Seq<char>,
    i: int,
    j: int,
)
    requires
        call_ensures(debug_stats, (&inner, now), r),
        0 <= i < j < r.inboxes@.len(),
    ensures
        r.peer_count == inner.peer_last_seen@.dom().len(),
        r.total_stored == inner.total_stored,
        r.total_delivered == inner.total_delivered,
        r.total_queued == sum(r.inboxes@, |x: InboxInfo| x.queue_len as nat),
        r.total_queued_bytes == sum(r.inboxes@, |x: InboxInfo| x.queue_bytes as nat),
        inner.queues@.contains_key(peer) ==> exists|k: int|
            0 <= k < r.inboxes@.len() && (#[trigger] r.inboxes@[k]).peer_id@ == peer,
        inner.queues@.contains_key(r.inboxes@[i].peer_id@),
        r.inboxes@[i].queue_len == inner.queues@[r.inboxes@[i].peer_id@].len(),
        r.inboxes@[i].queue_depth == inner.queues@[r.inboxes@[i].peer_id@].filter(
            |e: Envelope| e.expires_at > now,
        ).len(),
        r.inboxes@[i].peer_id@ != r.inboxes@[j].peer_id@,
        r.inboxes@[i].queue_depth >= r.inboxes@[j].queue_depth,
        r.inboxes@[i].queue_depth == r.inboxes@[j].queue_depth ==> text_le(
            r.inboxes@[i].peer_id@,
            r.inboxes@[j].peer_id@,
        ),
        r.latency_ms is Some <==> inner.latency_count > 0,
        r.latency_ms is Some ==> r.latency_ms->0.min == inner.latency_min_ms
            && r.latency_ms->0.max == inner.latency_max_ms && r.latency_ms->0.count
            == inner.latency_count && r.latency_ms->0.avg == inner.latency_sum_ms
            / inner.latency_count,
        r.ws_clients@.len() == inner.ws_clients@.dom().len(),
{
    let v = inner@;
    assert(len_weight() =~= |x: InboxInfo| x.queue_len as nat);
    assert(inbox_bytes_weight() =~= |x: InboxInfo| x.queue_bytes as nat);
    law_report_is_in_order(r.inboxes@, v, now, i, j);
    lemma_live_raw(v.queues[r.inboxes@[i].peer_id@], now);
    assert(describes_inbox(r.inboxes@[i], v, r.inboxes@[i].peer_id@, now));
    let ids = choose|ids: Seq<u64>| #[trigger] lists_connections(r.ws_clients@, ids, v, now);
    ids.unique_seq_to_set();
    assert(ids.to_set() =~= v.ws_clients.dom()) by {
        assert forall|id: u64| ids.to_set().contains(id) <==> v.ws_clients.dom().contains(id) by {
            if ids.contains(id) {
                let k = choose|k: int| 0 <= k < ids.len() && ids[k] == id;
                assert(describes_client(r.ws_clients@[k], v, ids[k], now));
            }
            if v.ws_clients.contains_key(id) {
                assert(ids.contains(id));
            }
        }
    }
}

/// The senders of an inbox are listed by the bytes that they have there, most first, and by name
/// where they have as many; connections by name.
pub proof fn law_report_lists_in_order(
    inner: RelayStateInner,
    now: u128,
    r: DebugStats,
    k: int,
    i: int,
    j: int,
    who: Seq<char>,
)
    requires
        call_ensures(debug_stats, (&inner, now), r),
        0 <= k < r.inboxes@.len(),
        0 <= i < j,
    ensures
        ({
            let l = r.inboxes@[k].senders@;
            let peer = r.inboxes@[k].peer_id@;
            let usage = inner.sender_inbox_usage@;
            &&& j < l.len() ==> {
                &&& l[i].bytes >= l[j].bytes
                &&& l[i].bytes == l[j].bytes ==> text_le(l[i].sender_id@, l[j].sender_id@)
                &&& l[i].sender_id@ != l[j].sender_id@
            }
            &&& j < l.len() ==> usage.contains_key((l[i].sender_id@, peer)) && usage[(
                l[i].sender_id@,
                peer,
            )].count == l[i].count && usage[(l[i].sender_id@, peer)].bytes == l[i].bytes && (
            l[i].count > 0 || l[i].bytes > 0)
            &&& usage.contains_key((who, peer)) && (usage[(who, peer)].count > 0 || usage[(
                who,
                peer,
            )].bytes > 0) ==> exists|n: int|
                0 <= n < l.len() && (#[trigger] l[n]).sender_id@ == who
        }),
        j < r.ws_clients@.len() ==> text_le(
            r.ws_clients@[i].peer_id@,
            r.ws_clients@[j].peer_id@,
        ),
{
    let v = inner@;
    let info = r.inboxes@[k];
    assert(describes_inbox(info, v, info.peer_id@, now));
    let l = info.senders@;
    if j < l.len() {
        let names = l.map_values(|x: InboxSenderInfo| x.sender_id@);
        assert(names[i] != names[j]);
        assert(l[i].ranks(&l[j]));
    }
    if j < r.ws_clients@.len() {
        assert(r.ws_clients@[i].ranks(&r.ws_clients@[j]));
    }
}

} // verus!
