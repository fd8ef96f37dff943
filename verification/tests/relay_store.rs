//! Storing envelopes on the relay.
use tenet::relay::accept::store_envelope_locked;
use tenet::relay::config::retry_delay;
use tenet::relay::config::RelayConfig;
use tenet::relay::config::RelayControl;
use tenet::relay::config::RelayQosConfig;
use tenet::relay::config::TierLimits;
use tenet::relay::config::MILLISECOND;
use tenet::relay::config::SECOND;
use tenet::relay::evict::find_victim;
use tenet::relay::evict::make_room;
use tenet::relay::evict::make_room_oldest;
use tenet::relay::fetch::fetch_inbox;
use tenet::relay::fetch::InboxQuery;
use tenet::relay::queue::count_in_window;
use tenet::relay::queue::prune_expired;
use tenet::relay::queue::push_timestamped;
use tenet::relay::queue::queue_bytes;
use tenet::relay::queue::time_since;
use tenet::relay::queue::Inbox;
use tenet::relay::queue::StoredEnvelope;
use tenet::relay::requests::batch_result;
use tenet::relay::requests::store_envelope;
use tenet::relay::requests::store_envelopes_batch;
use tenet::relay::requests::store_reply;
use tenet::relay::requests::BatchStoreStatus;
use tenet::relay::requests::ReplyBody;
use tenet::relay::state::count_recent_peers;
use tenet::relay::state::get_tier;
use tenet::relay::state::record_direction;
use tenet::relay::state::record_peer_connection;
use tenet::relay::state::touch_peer;
use tenet::relay::state::RelayState;
use tenet::relay::state::RelayStateInner;
use tenet::relay::store::message_id_from;
use tenet::relay::store::read_payload;
use tenet::relay::store::recipient_id_from;
use tenet::relay::store::sender_id_from;
use tenet::relay::store::Payload;
use tenet::relay::store::StoreDecision;
use tenet::relay::store::StoreError;

use std::collections::VecDeque;
use std::sync::atomic::AtomicBool;
use std::sync::atomic::Ordering;
use std::sync::Arc;

const NOW: u128 = 1_000_000 * SECOND;

fn config() -> RelayConfig {
    RelayConfig {
        ttl: 60 * SECOND,
        max_messages: 3,
        max_bytes: 1000,
        retry_backoff: vec![50 * MILLISECOND, 100 * MILLISECOND],
        peer_log_window: 60 * SECOND,
        peer_log_interval: 30 * SECOND,
        pause_flag: Arc::new(AtomicBool::new(false)),
        qos: RelayQosConfig::default(),
        blob_max_chunk_bytes: 512 * 1024,
        blob_daily_quota_bytes: 500 * 1024 * 1024,
    }
}

fn payload(from: &str, to: &str, id: &str, body: &str) -> Payload {
    Payload {
        recipient_id: Some(to.to_string()),
        sender_id: if from.is_empty() { None } else { Some(from.to_string()) },
        header_message_id: Some(id.to_string()),
        message_id: None,
        ttl_seconds: Some(30),
        timestamp: Some(1000),
        body: body.to_string(),
    }
}

fn store(
    c: &RelayConfig,
    inner: &mut RelayStateInner,
    p: Payload,
    now: u128,
) -> Result<StoreDecision, StoreError> {
    store_envelope_locked(c, inner, p, now, Some(1000), now)
}

fn take(c: &RelayConfig, inner: &mut RelayStateInner, who: &str, now: u128) -> Vec<String> {
    fetch_inbox(c, inner, who, InboxQuery { limit: None, max_size_bytes: None }, now, now).0
}

fn envelope(id: &str, sender: Option<&str>, size: usize, expires_at: u128) -> StoredEnvelope {
    StoredEnvelope {
        body: "x".repeat(size),
        size_bytes: size,
        expires_at,
        message_id: id.to_string(),
        stored_at: 0,
        sender_id: sender.map(|s| s.to_string()),
    }
}

#[test]
fn stored_envelopes_are_fetched_in_order() {
    let c = config();
    let mut inner = RelayStateInner::new();
    assert!(matches!(
        store(&c, &mut inner, payload("a", "b", "1", "one"), NOW),
        Ok(StoreDecision::Accepted { message_id }) if message_id == "1"
    ));
    assert!(matches!(
        store(&c, &mut inner, payload("a", "b", "2", "two"), NOW),
        Ok(StoreDecision::Accepted { .. })
    ));
    assert_eq!(inner.total_stored, 2);
    assert_eq!(take(&c, &mut inner, "b", NOW + 1), vec!["one".to_string(), "two".to_string()]);
    assert!(take(&c, &mut inner, "b", NOW + 2).is_empty());
    assert_eq!(inner.total_delivered, 2);
}

#[test]
fn repeated_submission_is_dropped() {
    let c = config();
    let mut inner = RelayStateInner::new();
    store(&c, &mut inner, payload("a", "b", "1", "one"), NOW).ok();
    assert!(matches!(
        store(&c, &mut inner, payload("a", "b", "1", "one"), NOW),
        Ok(StoreDecision::Duplicate { message_id }) if message_id == "1"
    ));
    assert_eq!(take(&c, &mut inner, "b", NOW).len(), 1);
}

#[test]
fn expired_envelopes_are_refused_and_pruned() {
    let c = config();
    let mut inner = RelayStateInner::new();
    let mut p = payload("a", "b", "1", "one");
    p.timestamp = Some(900);
    assert!(matches!(
        store(&c, &mut inner, p, NOW),
        Ok(StoreDecision::Expired { message_id }) if message_id == "1"
    ));
    store(&c, &mut inner, payload("a", "b", "2", "two"), NOW).ok();
    assert!(take(&c, &mut inner, "b", NOW + 31 * SECOND).is_empty());
}

#[test]
fn lifetimes_are_capped_by_the_relay() {
    let c = config();
    let mut inner = RelayStateInner::new();
    let mut p = payload("a", "b", "1", "one");
    p.ttl_seconds = Some(10_000);
    store(&c, &mut inner, p, NOW).ok();
    let expires = inner.queues.get(&"b".to_string()).map(|q| q.get(0).expires_at);
    assert_eq!(expires, Some(NOW + 60 * SECOND));
}

#[test]
fn missing_recipient_is_an_error() {
    let c = config();
    let mut inner = RelayStateInner::new();
    let mut p = payload("a", "b", "1", "one");
    p.recipient_id = None;
    assert!(matches!(store(&c, &mut inner, p, NOW), Err(StoreError::MissingRecipient)));
}

#[test]
fn a_lifetime_needs_a_timestamp() {
    let c = config();
    let mut inner = RelayStateInner::new();
    let mut p = payload("a", "b", "1", "one");
    p.timestamp = None;
    assert!(matches!(
        store(&c, &mut inner, p, NOW),
        Err(StoreError::InvalidPayload(why)) if why == "missing timestamp"
    ));
    let mut p = payload("a", "b", "1", "one");
    p.timestamp = Some(u64::MAX);
    assert!(matches!(
        store(&c, &mut inner, p, NOW),
        Err(StoreError::InvalidPayload(why)) if why == "ttl overflow"
    ));
    let p = payload("a", "b", "1", "one");
    assert!(matches!(
        store_envelope_locked(&c, &mut inner, p, NOW, None, NOW),
        Err(StoreError::InvalidPayload(why)) if why == "clock error"
    ));
    let mut p = payload("a", "b", "1", "one");
    p.ttl_seconds = None;
    p.timestamp = None;
    assert!(matches!(store(&c, &mut inner, p, NOW), Ok(StoreDecision::Accepted { .. })));
}

#[test]
fn large_envelopes_are_refused() {
    let c = config();
    let mut inner = RelayStateInner::new();
    let body = "x".repeat(1001);
    assert!(matches!(
        store(&c, &mut inner, payload("a", "b", "1", &body), NOW),
        Ok(StoreDecision::TooLarge { message_id }) if message_id == "1"
    ));
    assert!(take(&c, &mut inner, "b", NOW).is_empty());
}

#[test]
fn inbox_never_holds_more_than_it_may() {
    let c = config();
    let mut inner = RelayStateInner::new();
    for i in 0..6 {
        let id = format!("{i}");
        store(&c, &mut inner, payload("a", "b", &id, &id), NOW + i).ok();
    }
    assert_eq!(take(&c, &mut inner, "b", NOW + 10).len(), 3);
}

#[test]
fn sender_quota_holds() {
    let mut c = config();
    c.max_messages = 100;
    c.qos.tier1 = TierLimits { max_envelopes: 1, max_bytes: 1000 };
    let mut inner = RelayStateInner::new();
    assert!(matches!(
        store(&c, &mut inner, payload("a", "b", "1", "one"), NOW),
        Ok(StoreDecision::Accepted { .. })
    ));
    assert!(matches!(
        store(&c, &mut inner, payload("a", "b", "2", "two"), NOW),
        Ok(StoreDecision::QuotaExceeded { message_id }) if message_id == "2"
    ));
    // Another sender has a quota of its own.
    assert!(matches!(
        store(&c, &mut inner, payload("c", "b", "3", "three"), NOW),
        Ok(StoreDecision::Accepted { .. })
    ));
    // Fetching gives the quota back.
    assert_eq!(take(&c, &mut inner, "b", NOW).len(), 2);
    assert!(matches!(
        store(&c, &mut inner, payload("a", "b", "4", "four"), NOW),
        Ok(StoreDecision::Accepted { .. })
    ));
}

#[test]
fn answering_raises_the_tier() {
    let c = config();
    let mut inner = RelayStateInner::new();
    assert_eq!(get_tier(&c.qos, &inner, "a", "b", NOW), c.qos.tier1);
    record_direction(&mut inner, "a", "b", NOW, c.qos.bidirectional_window);
    assert_eq!(get_tier(&c.qos, &inner, "a", "b", NOW), c.qos.tier1);
    record_direction(&mut inner, "b", "a", NOW + 1, c.qos.bidirectional_window);
    assert_eq!(get_tier(&c.qos, &inner, "a", "b", NOW + 2), c.qos.tier3);
    assert_eq!(
        get_tier(&c.qos, &inner, "a", "b", NOW + 2 + c.qos.bidirectional_window),
        c.qos.tier2
    );
}

#[test]
fn broadcasts_reach_everybody_else() {
    let c = config();
    let mut inner = RelayStateInner::new();
    touch_peer(&mut inner, "a", NOW);
    touch_peer(&mut inner, "b", NOW);
    touch_peer(&mut inner, "c", NOW);
    match store(&c, &mut inner, payload("a", "*", "1", "hello"), NOW) {
        Ok(StoreDecision::Broadcast { message_id, mut recipients }) => {
            assert_eq!(message_id, "1");
            recipients.sort();
            assert_eq!(recipients, vec!["b".to_string(), "c".to_string()]);
        }
        _ => panic!("a broadcast"),
    }
    assert!(take(&c, &mut inner, "a", NOW).is_empty());
    assert_eq!(take(&c, &mut inner, "b", NOW), vec!["hello".to_string()]);
    assert_eq!(take(&c, &mut inner, "c", NOW), vec!["hello".to_string()]);
}

#[test]
fn raw_json_is_read() {
    let text = r#"{"header":{"recipient_id":"b","sender_id":"a","message_id":"m","ttl_seconds":5,"timestamp":7}}"#;
    assert_eq!(recipient_id_from(text).as_deref(), Some("b"));
    assert_eq!(sender_id_from(text).as_deref(), Some("a"));
    let p = read_payload(text);
    assert_eq!(p.recipient_id.as_deref(), Some("b"));
    assert_eq!(p.sender_id.as_deref(), Some("a"));
    assert_eq!(p.ttl_seconds, Some(5));
    assert_eq!(p.timestamp, Some(7));
    assert_eq!(message_id_from(&p), "m");
    assert_eq!(recipient_id_from("not json"), None);
}

#[test]
fn stored_body_is_compact_json() {
    let c = config();
    let mut inner = RelayStateInner::new();
    let raw = "{ \"header\" : { \"recipient_id\" : \"b\", \"message_id\" : \"m\", \"ttl_seconds\" : 5, \"timestamp\" : 1000 } }";
    assert!(matches!(
        store_envelope(&c, &mut inner, raw, NOW, Some(1000), NOW),
        Ok(StoreDecision::Accepted { .. })
    ));
    assert_eq!(
        take(&c, &mut inner, "b", NOW),
        vec![r#"{"header":{"message_id":"m","recipient_id":"b","timestamp":1000,"ttl_seconds":5}}"#.to_string()]
    );
}

#[test]
fn message_without_id_gets_a_digest() {
    let mut p = payload("a", "b", "1", "abc");
    p.header_message_id = None;
    // SHA-256 of "abc".
    assert_eq!(
        message_id_from(&p),
        "ba7816bf8f01cfea414140de5dae2223b00361a396177a9cb410ff61f20015ad"
    );
}

#[test]
fn replies_to_store_requests() {
    let to = Some("b".to_string());
    let r = store_reply(Ok(StoreDecision::Accepted { message_id: "1".to_string() }), &to);
    assert_eq!(r.status, 202);
    assert!(matches!(r.body, ReplyBody::Stored(id) if id == "1"));
    assert_eq!(r.notify, vec!["b".to_string()]);
    let r = store_reply(Ok(StoreDecision::Duplicate { message_id: "1".to_string() }), &to);
    assert_eq!(r.status, 202);
    assert!(r.notify.is_empty());
    let r = store_reply(Ok(StoreDecision::Expired { message_id: "1".to_string() }), &to);
    assert_eq!(r.status, 410);
    assert!(matches!(r.body, ReplyBody::Text(t) if t == "envelope expired"));
    let r = store_reply(Ok(StoreDecision::TooLarge { message_id: "1".to_string() }), &to);
    assert_eq!(r.status, 413);
    let r = store_reply(Ok(StoreDecision::QuotaExceeded { message_id: "1".to_string() }), &to);
    assert_eq!(r.status, 429);
    assert!(matches!(r.body, ReplyBody::Error(t) if t == "sender quota exceeded for this inbox"));
    let r = store_reply(Err(StoreError::MissingRecipient), &None);
    assert_eq!(r.status, 400);
    assert!(matches!(r.body, ReplyBody::Text(t) if t == "missing recipient_id"));
    let r = store_reply(Err(StoreError::InvalidPayload("why".to_string())), &to);
    assert_eq!(r.status, 400);
    assert!(matches!(r.body, ReplyBody::Text(t) if t == "why"));
}

#[test]
fn batches_report_on_every_envelope() {
    let c = config();
    let mut inner = RelayStateInner::new();
    let mut nameless = payload("a", "b", "3", "three");
    nameless.recipient_id = None;
    let all = vec![
        payload("a", "b", "1", "one"),
        payload("a", "b", "1", "one"),
        nameless,
        payload("a", "c", "4", "four"),
    ];
    let (results, notify) =
        store_envelopes_batch(&c, &mut inner, all, NOW, Some(1000), &vec![NOW; 4]);
    assert_eq!(results[0].status, BatchStoreStatus::Accepted);
    assert_eq!(results[1].status, BatchStoreStatus::Duplicate);
    assert_eq!(results[2].status, BatchStoreStatus::Invalid);
    assert_eq!(results[2].detail.as_deref(), Some("missing recipient_id"));
    assert_eq!(results[3].message_id.as_deref(), Some("4"));
    assert_eq!(notify[0], vec!["b".to_string()]);
    assert!(notify[1].is_empty());
    assert_eq!(notify[3], vec!["c".to_string()]);
    let quota = batch_result(Ok(StoreDecision::QuotaExceeded { message_id: "9".to_string() }));
    assert_eq!(quota.status, BatchStoreStatus::QuotaExceeded);
    let large = batch_result(Ok(StoreDecision::TooLarge { message_id: "9".to_string() }));
    assert_eq!(large.status, BatchStoreStatus::TooLarge);
    let late = batch_result(Ok(StoreDecision::Expired { message_id: "9".to_string() }));
    assert_eq!(late.status, BatchStoreStatus::Expired);
}

#[test]
fn the_heaviest_sender_makes_room() {
    let mut q = Inbox::new();
    q.push_back(envelope("1", Some("light"), 10, 100));
    q.push_back(envelope("2", Some("heavy"), 50, 100));
    q.push_back(envelope("3", Some("heavy"), 50, 100));
    assert_eq!(queue_bytes(&q), 110);
    assert_eq!(find_victim(&q), 1);
    let (ids, back) = make_room(&mut q, 10, 3, 1000);
    assert_eq!(ids, vec!["2".to_string()]);
    assert_eq!(back, vec![(Some("heavy".to_string()), 50)]);
    assert_eq!(q.len(), 2);
}

#[test]
fn the_oldest_makes_room() {
    let mut q = Inbox::new();
    q.push_back(envelope("1", Some("light"), 10, 100));
    q.push_back(envelope("2", Some("heavy"), 50, 100));
    let (ids, _) = make_room_oldest(&mut q, 45, 10, 100);
    assert_eq!(ids, vec!["1".to_string()]);
    assert_eq!(q.len(), 1);
}

#[test]
fn pruning_drops_what_has_expired() {
    let mut q = Inbox::new();
    q.push_back(envelope("1", None, 1, 5));
    q.push_back(envelope("2", None, 1, 50));
    let (ids, _) = prune_expired(&mut q, 10);
    assert_eq!(ids, vec!["1".to_string()]);
    assert_eq!(q.len(), 1);
    assert_eq!(q.get(0).message_id, "2");
}

#[test]
fn windows_count_the_recent_past() {
    let mut d: VecDeque<u128> = VecDeque::new();
    push_timestamped(&mut d, 100 * SECOND);
    push_timestamped(&mut d, 150 * SECOND);
    push_timestamped(&mut d, 200 * SECOND);
    assert_eq!(count_in_window(&d, 200 * SECOND, 60), 2);
    assert_eq!(count_in_window(&d, 200 * SECOND, 3600), 3);
    assert_eq!(time_since(5, 7), 0);
    assert_eq!(time_since(7, 5), 2);
}

#[test]
fn connections_are_logged_now_and_then() {
    let c = config();
    let mut inner = RelayStateInner::new();
    assert!(record_peer_connection(&c, &mut inner, "a", NOW));
    assert!(!record_peer_connection(&c, &mut inner, "a", NOW + SECOND));
    assert!(record_peer_connection(&c, &mut inner, "a", NOW + 200 * SECOND));
    assert_eq!(count_recent_peers(&inner, NOW + 201 * SECOND, 60 * SECOND), 1);
    assert_eq!(count_recent_peers(&inner, NOW + 900 * SECOND, 60 * SECOND), 0);
}

#[test]
fn lock_is_tried_again_as_configured() {
    let c = config();
    assert_eq!(retry_delay(&c, 1), Some(50 * MILLISECOND));
    assert_eq!(retry_delay(&c, 2), Some(100 * MILLISECOND));
    assert_eq!(retry_delay(&c, 3), None);
}

#[test]
fn log_output_can_be_held_back() {
    let c = config();
    let control = c.control();
    let state = RelayState::new(c);
    let paused = || state.config.pause_flag.load(Ordering::SeqCst);
    assert!(!paused());
    control.set_paused(true);
    assert!(paused());
    control.clone().set_paused(false);
    assert!(!paused());
    RelayControl::new(Arc::clone(&state.config.pause_flag)).set_paused(true);
    assert!(paused());
    assert_eq!(state.inner.total_stored, 0);
}

#[test]
fn default_quality_of_service() {
    let q = RelayQosConfig::default();
    assert_eq!(q.tier1, TierLimits { max_envelopes: 20, max_bytes: 256 * 1024 });
    assert_eq!(q.tier2, TierLimits { max_envelopes: 100, max_bytes: 2 * 1024 * 1024 });
    assert_eq!(q.tier3, TierLimits { max_envelopes: 500, max_bytes: 10 * 1024 * 1024 });
    assert_eq!(q.bidirectional_window, 7 * 24 * 3600 * SECOND);
}

#[test]
fn third_submission_after_an_expired_namesake_is_dropped() {
    let mut c = config();
    c.ttl = 10 * SECOND;
    let mut inner = RelayStateInner::new();
    let again = || {
        let mut p = payload("", "r", "m", "body");
        p.ttl_seconds = None;
        p.timestamp = None;
        p
    };
    assert!(matches!(
        store(&c, &mut inner, again(), NOW),
        Ok(StoreDecision::Accepted { .. })
    ));
    assert!(matches!(
        store(&c, &mut inner, again(), NOW + 11 * SECOND),
        Ok(StoreDecision::Accepted { .. })
    ));
    assert!(matches!(
        store(&c, &mut inner, again(), NOW + 12 * SECOND),
        Ok(StoreDecision::Duplicate { message_id }) if message_id == "m"
    ));
    assert_eq!(inner.queues.get(&"r".to_string()).map(|q| q.len()), Some(1));
    let everybody = || {
        let mut p = again();
        p.recipient_id = Some("*".to_string());
        p.header_message_id = Some("all".to_string());
        p
    };
    assert!(matches!(
        store(&c, &mut inner, everybody(), NOW + 12 * SECOND),
        Ok(StoreDecision::Broadcast { .. })
    ));
    assert!(matches!(
        store(&c, &mut inner, everybody(), NOW + 23 * SECOND),
        Ok(StoreDecision::Broadcast { .. })
    ));
    assert!(matches!(
        store(&c, &mut inner, everybody(), NOW + 24 * SECOND),
        Ok(StoreDecision::Duplicate { .. })
    ));
}

#[test]
fn known_ids_stay_known_over_other_requests() {
    let c = config();
    let mut inner = RelayStateInner::new();
    store(&c, &mut inner, payload("a", "b", "1", "one"), NOW).ok();
    store(&c, &mut inner, payload("a", "c", "2", "two"), NOW + 1).ok();
    assert_eq!(take(&c, &mut inner, "b", NOW + 2).len(), 1);
    assert_eq!(take(&c, &mut inner, "c", NOW + 3).len(), 1);
    assert!(matches!(
        store(&c, &mut inner, payload("a", "b", "1", "one"), NOW + 4),
        Ok(StoreDecision::Duplicate { .. })
    ));
    assert!(take(&c, &mut inner, "b", NOW + 5).is_empty());
}

#[test]
fn usage_is_what_is_queued() {
    let c = config();
    let mut inner = RelayStateInner::new();
    let key = ("a".to_string(), "b".to_string());
    store(&c, &mut inner, payload("a", "b", "1", "one"), NOW).ok();
    store(&c, &mut inner, payload("a", "b", "2", "three"), NOW).ok();
    let u = inner.sender_inbox_usage.get(&key).copied();
    assert_eq!(u.map(|u| (u.count, u.bytes)), Some((2, 8)));
    take(&c, &mut inner, "b", NOW + 1);
    let u = inner.sender_inbox_usage.get(&key).copied();
    assert_eq!(u.map(|u| (u.count, u.bytes)), Some((0, 0)));
}

#[test]
fn an_expired_namesake_elsewhere_does_not_reopen_an_id() {
    let mut c = config();
    c.ttl = 10 * SECOND;
    let mut inner = RelayStateInner::new();
    let to = |who: &str| {
        let mut p = payload("", who, "m", "body");
        p.ttl_seconds = None;
        p.timestamp = None;
        p
    };
    store(&c, &mut inner, to("r"), NOW).ok();
    assert!(matches!(
        store(&c, &mut inner, to("s"), NOW + 11 * SECOND),
        Ok(StoreDecision::Accepted { .. })
    ));
    assert!(take(&c, &mut inner, "r", NOW + 12 * SECOND).is_empty());
    assert!(matches!(
        store(&c, &mut inner, to("s"), NOW + 13 * SECOND),
        Ok(StoreDecision::Duplicate { .. })
    ));
    assert_eq!(take(&c, &mut inner, "s", NOW + 14 * SECOND).len(), 1);
}
