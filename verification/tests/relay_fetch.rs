//! Fetching from the relay, its statistics, its blobs and its WebSocket clients.
use tenet::relay::accept::store_envelope_locked;
use tenet::relay::blobs::delete_blob;
use tenet::relay::blobs::download_blob;
use tenet::relay::blobs::is_chunk_name;
use tenet::relay::blobs::check_upload;
use tenet::relay::blobs::upload_blob;
use tenet::relay::blobs::upload_status;
use tenet::relay::blobs::utc_day;
use tenet::relay::blobs::UploadOutcome;
use tenet::relay::config::RelayConfig;
use tenet::relay::config::RelayQosConfig;
use tenet::relay::config::SECOND;
use tenet::relay::fetch::extract_bearer_token;
use tenet::relay::fetch::fetch_inbox;
use tenet::relay::fetch::fetch_inbox_batch;
use tenet::relay::fetch::InboxQuery;
use tenet::relay::state::RelayStateInner;
use tenet::relay::stats::debug_stats;
use tenet::relay::store::Payload;
use tenet::relay::ws::connect;
use tenet::relay::ws::disconnect;
use tenet::relay::ws::greet;
use tenet::relay::ws::read_hello;
use tenet::relay::ws::ws_step;
use tenet::relay::ws::WsAction;
use tenet::relay::ws::WsInput;
use tenet::relay_transport::envelopes_url;
use tenet::relay_transport::inbox_url;

use std::sync::atomic::AtomicBool;
use std::sync::Arc;

use base64::Engine;
use sha2::Digest;

const NOW: u128 = 1_000_000 * SECOND;

fn config() -> RelayConfig {
    RelayConfig {
        ttl: 60 * SECOND,
        max_messages: 10,
        max_bytes: 1000,
        retry_backoff: Vec::new(),
        peer_log_window: 60 * SECOND,
        peer_log_interval: 30 * SECOND,
        pause_flag: Arc::new(AtomicBool::new(false)),
        qos: RelayQosConfig::default(),
        blob_max_chunk_bytes: 24,
        blob_daily_quota_bytes: 20,
    }
}

fn put(c: &RelayConfig, inner: &mut RelayStateInner, from: &str, to: &str, id: &str, body: &str) {
    let p = Payload {
        recipient_id: Some(to.to_string()),
        sender_id: Some(from.to_string()),
        header_message_id: Some(id.to_string()),
        message_id: None,
        ttl_seconds: Some(30),
        timestamp: Some(1000),
        body: body.to_string(),
    };
    assert!(store_envelope_locked(c, inner, p, NOW, Some(1000), NOW).is_ok());
}

fn name_of(data: &[u8]) -> String {
    hex::encode(sha2::Sha256::digest(data))
}

fn text_of(data: &[u8]) -> String {
    base64::engine::general_purpose::URL_SAFE_NO_PAD.encode(data)
}

#[test]
fn fetching_stops_at_the_limit() {
    let c = config();
    let mut inner = RelayStateInner::new();
    for id in ["1", "2", "3"] {
        put(&c, &mut inner, "a", "b", id, id);
    }
    let q = InboxQuery { limit: Some(2), max_size_bytes: None };
    let (first, _) = fetch_inbox(&c, &mut inner, "b", q, NOW, NOW);
    assert_eq!(first, vec!["1".to_string(), "2".to_string()]);
    let q = InboxQuery { limit: None, max_size_bytes: None };
    let (rest, _) = fetch_inbox(&c, &mut inner, "b", q, NOW, NOW);
    assert_eq!(rest, vec!["3".to_string()]);
}

#[test]
fn fetching_skips_what_does_not_fit() {
    let c = config();
    let mut inner = RelayStateInner::new();
    put(&c, &mut inner, "a", "b", "1", "a long body");
    put(&c, &mut inner, "a", "b", "2", "hi");
    let q = InboxQuery { limit: None, max_size_bytes: Some(5) };
    let (out, _) = fetch_inbox(&c, &mut inner, "b", q, NOW, NOW);
    for body in &out {
        assert!(body.len() <= 5);
    }
}

#[test]
fn several_inboxes_at_once() {
    let c = config();
    let mut inner = RelayStateInner::new();
    put(&c, &mut inner, "a", "b", "1", "one");
    put(&c, &mut inner, "a", "c", "2", "two");
    let who = vec!["b".to_string(), "c".to_string(), "d".to_string()];
    let q = InboxQuery { limit: None, max_size_bytes: None };
    let r = fetch_inbox_batch(&c, &mut inner, &who, q, NOW, NOW);
    assert_eq!(
        r.get(&"b".to_string()).map(|b| b.envelopes.clone()),
        Some(vec!["one".to_string()])
    );
    assert_eq!(
        r.get(&"c".to_string()).map(|b| b.envelopes.clone()),
        Some(vec!["two".to_string()])
    );
    assert_eq!(r.get(&"d".to_string()).map(|b| b.envelopes.len()), Some(0));
}

#[test]
fn bearer_tokens() {
    assert_eq!(extract_bearer_token(Some("Bearer abc")).as_deref(), Some("abc"));
    assert_eq!(extract_bearer_token(Some("Basic abc")), None);
    assert_eq!(extract_bearer_token(None), None);
}

#[test]
fn statistics_add_up() {
    let c = config();
    let mut inner = RelayStateInner::new();
    put(&c, &mut inner, "a", "b", "1", "one");
    put(&c, &mut inner, "a", "b", "2", "three");
    put(&c, &mut inner, "c", "b", "3", "x");
    let s = debug_stats(&inner, NOW + SECOND);
    assert_eq!(s.total_queued, 3);
    assert_eq!(s.total_queued_bytes, 9);
    assert_eq!(s.total_stored, 3);
    assert_eq!(s.total_delivered, 0);
    assert!(s.latency_ms.is_none());
    let b = s.inboxes.iter().find(|i| i.peer_id == "b").expect("inbox of b");
    assert_eq!(b.queue_depth, 3);
    assert_eq!(b.queue_bytes, 9);
    assert_eq!(b.senders.len(), 2);
    let q = InboxQuery { limit: None, max_size_bytes: None };
    fetch_inbox(&c, &mut inner, "b", q, NOW + 2 * SECOND, NOW);
    let s = debug_stats(&inner, NOW + 3 * SECOND);
    assert_eq!(s.total_delivered, 3);
    let l = s.latency_ms.expect("latencies");
    assert_eq!((l.min, l.max, l.avg, l.count), (2000, 2000, 2000, 3));
}

#[test]
fn blobs_are_stored_once() {
    let c = config();
    let mut inner = RelayStateInner::new();
    let data = b"chunk";
    let name = name_of(data);
    let up = |inner: &mut RelayStateInner, name: &str, text: &str| {
        upload_blob(&c, inner, name, text, Some("a".to_string()), 1)
    };
    assert_eq!(up(&mut inner, &name, &text_of(data)), UploadOutcome::Created);
    assert_eq!(up(&mut inner, &name, &text_of(data)), UploadOutcome::Exists);
    assert_eq!(download_blob(&inner, &name), Some(data.to_vec()));
    assert!(delete_blob(&mut inner, &name));
    assert!(!delete_blob(&mut inner, &name));
    assert_eq!(download_blob(&inner, &name), None);
}

#[test]
fn bad_uploads_are_refused() {
    let c = config();
    let mut inner = RelayStateInner::new();
    let data = b"chunk";
    let name = name_of(data);
    assert_eq!(
        upload_blob(&c, &mut inner, "short", &text_of(data), None, 1),
        UploadOutcome::InvalidHash
    );
    assert_eq!(upload_blob(&c, &mut inner, &name, "***", None, 1), UploadOutcome::InvalidBase64);
    assert_eq!(
        upload_blob(&c, &mut inner, &name, &text_of(b"other"), None, 1),
        UploadOutcome::HashMismatch
    );
    let large = [7u8; 19];
    assert_eq!(text_of(&large).len(), 26);
    assert_eq!(
        upload_blob(&c, &mut inner, &name_of(&large), &text_of(&large), None, 1),
        UploadOutcome::TooLarge
    );
    assert_eq!(download_blob(&inner, &name_of(&large)), None);
    assert_eq!(check_upload(&c, &name, &text_of(data)), Ok(data.to_vec()));
    assert_eq!(check_upload(&c, &name, "***"), Err(UploadOutcome::InvalidBase64));
}

#[test]
fn upload_quota_is_daily() {
    let c = config();
    let mut inner = RelayStateInner::new();
    let one = [1u8; 16];
    let two = [2u8; 16];
    let who = Some("a".to_string());
    assert_eq!(
        upload_blob(&c, &mut inner, &name_of(&one), &text_of(&one), who.clone(), 1),
        UploadOutcome::Created
    );
    assert_eq!(
        upload_blob(&c, &mut inner, &name_of(&two), &text_of(&two), who.clone(), 1),
        UploadOutcome::QuotaExceeded
    );
    assert_eq!(
        upload_blob(&c, &mut inner, &name_of(&two), &text_of(&two), who, 2),
        UploadOutcome::Created
    );
}

#[test]
fn upload_statuses() {
    assert_eq!(upload_status(UploadOutcome::Created), 201);
    assert_eq!(upload_status(UploadOutcome::Exists), 409);
    assert_eq!(upload_status(UploadOutcome::QuotaExceeded), 429);
    assert_eq!(upload_status(UploadOutcome::TooLarge), 413);
    assert_eq!(upload_status(UploadOutcome::InvalidHash), 400);
    assert_eq!(utc_day(Some(86_400 * 3 + 5)), 3);
    assert!(is_chunk_name(&"ab".repeat(32)));
    assert!(!is_chunk_name(&"zz".repeat(32)));
}

#[test]
fn websocket_clients_come_and_go() {
    let mut inner = RelayStateInner::new();
    let id = connect(&mut inner, "a", "10.0.0.1".to_string(), NOW);
    assert_eq!(inner.ws_clients.get(&id).map(|c| c.peer_id.clone()), Some("a".to_string()));
    let hello = read_hello(r#"{"type":"hello","version":"1.2","web_ui_port":3000}"#);
    if let Some(h) = hello {
        greet(&mut inner, id, h);
        assert_eq!(
            inner.ws_clients.get(&id).and_then(|c| c.version.clone()),
            Some("1.2".to_string())
        );
    }
    disconnect(&mut inner, id);
    assert!(inner.ws_clients.get(&id).is_none());
}

#[test]
fn websocket_decisions() {
    assert!(matches!(
        ws_step(WsInput::Envelope(Some("e".to_string()))),
        WsAction::Send(s) if s == "e"
    ));
    assert!(matches!(ws_step(WsInput::Ping(vec![1])), WsAction::Pong(d) if d == vec![1]));
    assert!(matches!(ws_step(WsInput::Lagged(4)), WsAction::LogLag(4)));
    assert!(matches!(ws_step(WsInput::Closed), WsAction::Stop));
    assert!(matches!(ws_step(WsInput::Gone), WsAction::Stop));
    assert!(matches!(ws_step(WsInput::Other), WsAction::Nothing));
}

#[test]
fn relay_addresses() {
    assert_eq!(envelopes_url("http://relay:8080//"), "http://relay:8080/envelopes");
    assert_eq!(inbox_url("http://relay:8080", "me"), "http://relay:8080/inbox/me");
}
