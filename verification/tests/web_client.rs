//! What the web client decides: settings, messages, peers, friends, groups, profiles, status.
use tenet::simulation::config::GeoPrecision;
use tenet::storage::rows::FriendRequestRow;
use tenet::storage::rows::GroupInviteRow;
use tenet::storage::rows::GroupRow;
use tenet::storage::rows::MessageRow;
use tenet::storage::rows::PeerRow;
use tenet::storage::rows::ProfileRow;
use tenet::storage::rows::StoredKeypair;
use tenet::web_client::api::page_size;
use tenet::web_client::api::ApiError;
use tenet::web_client::config::effective_relay;
use tenet::web_client::config::Cli;
use tenet::web_client::config::Config;
use tenet::web_client::config::Environment;
use tenet::web_client::config::MAX_WS_CONNECTIONS;
use tenet::web_client::friends::accept_friend_request;
use tenet::web_client::friends::block_friend_request;
use tenet::web_client::friends::ignore_friend_request;
use tenet::web_client::friends::send_friend_request;
use tenet::web_client::friends::SendFriendRequestPayload;
use tenet::web_client::groups::accept_group_invite;
use tenet::web_client::groups::add_group_member;
use tenet::web_client::groups::create_group;
use tenet::web_client::groups::group_created;
use tenet::web_client::groups::group_left;
use tenet::web_client::groups::ignore_group_invite;
use tenet::web_client::groups::invite_meta;
use tenet::web_client::groups::member_removed;
use tenet::web_client::groups::pending_invitees;
use tenet::web_client::groups::plan_group;
use tenet::web_client::groups::AddGroupMemberRequest;
use tenet::web_client::groups::CreateGroupRequest;
use tenet::web_client::messages::attachment_links;
use tenet::web_client::messages::message_marked_read;
use tenet::web_client::messages::notification_marked_read;
use tenet::web_client::messages::react;
use tenet::web_client::messages::reaction_removed;
use tenet::web_client::messages::reaction_row;
use tenet::web_client::messages::reply;
use tenet::web_client::messages::reply_group;
use tenet::web_client::messages::send_direct;
use tenet::web_client::messages::send_group;
use tenet::web_client::messages::send_public;
use tenet::web_client::messages::sent_message;
use tenet::web_client::messages::ReactRequest;
use tenet::web_client::messages::ReplyRequest;
use tenet::web_client::messages::Sealing;
use tenet::web_client::messages::SendAttachmentRef;
use tenet::web_client::messages::SendDirectRequest;
use tenet::web_client::messages::SendGroupRequest;
use tenet::web_client::messages::SendPublicRequest;
use tenet::web_client::meta::PeerMeta;
use tenet::web_client::peers::add_peer;
use tenet::web_client::peers::backfills;
use tenet::web_client::peers::key_bytes;
use tenet::web_client::peers::create_placeholder_peer;
use tenet::web_client::peers::forget_peer;
use tenet::web_client::peers::peer_found;
use tenet::web_client::peers::peer_friend_request;
use tenet::web_client::peers::request_profile;
use tenet::web_client::peers::validate_hex_key;
use tenet::web_client::peers::visit_peer;
use tenet::web_client::peers::AddPeerRequest;
use tenet::web_client::profiles::friends_to_tell;
use tenet::web_client::profiles::get_own_profile;
use tenet::web_client::profiles::get_peer_profile;
use tenet::web_client::profiles::profile_fields;
use tenet::web_client::profiles::update_own_profile;
use tenet::web_client::profiles::UpdateProfileRequest;
use tenet::web_client::state::WsEvent;
use tenet::web_client::status::check_connections;
use tenet::web_client::status::health;
use tenet::web_client::status::peer_uri;
use tenet::web_client::status::qr_answer;
use tenet::web_client::status::qr_code;
use tenet::web_client::status::relay_status;
use tenet::web_client::status::socket_step;
use tenet::web_client::status::updated_geo_settings;
use tenet::web_client::status::SocketInput;
use tenet::web_client::status::SocketOutput;
use tenet::web_client::status::UpdateGeoSettingsRequest;

fn text(s: &str) -> String {
    s.to_string()
}

fn own() -> StoredKeypair {
    StoredKeypair {
        id: text("me"),
        public_key_hex: text("pub"),
        private_key_hex: text("priv"),
        signing_public_key_hex: text("spub"),
        signing_private_key_hex: text("spriv"),
    }
}

fn peer(id: &str, is_friend: bool, key: Option<&str>) -> PeerRow {
    let mut p = create_placeholder_peer(id, 1);
    p.is_friend = is_friend;
    p.encryption_public_key = key.map(text);
    p
}

fn message(kind: &str, group: Option<&str>) -> MessageRow {
    MessageRow {
        message_id: text("m"),
        sender_id: text("s"),
        recipient_id: text("r"),
        message_kind: text(kind),
        group_id: group.map(text),
        body: None,
        timestamp: 1,
        received_at: 1,
        ttl_seconds: 60,
        is_read: false,
        raw_envelope: None,
        reply_to: None,
    }
}

fn group(id: &str) -> GroupRow {
    GroupRow {
        group_id: text(id),
        group_key: vec![5; 32],
        creator_id: text("me"),
        created_at: 1,
        key_version: 1,
    }
}

fn request(direction: &str, status: &str) -> FriendRequestRow {
    FriendRequestRow {
        id: 4,
        from_peer_id: text("p"),
        to_peer_id: text("me"),
        status: text(status),
        message: None,
        from_signing_key: text("aa"),
        from_encryption_key: text("bb"),
        direction: text(direction),
        created_at: 1,
        updated_at: 1,
    }
}

fn invite(direction: &str, status: &str) -> GroupInviteRow {
    GroupInviteRow {
        id: 9,
        group_id: text("g"),
        from_peer_id: text("p"),
        to_peer_id: text("me"),
        status: text(status),
        message: None,
        direction: text(direction),
        created_at: 1,
        updated_at: 1,
    }
}

fn good<T>(r: Result<T, ApiError>) -> T {
    match r {
        Ok(v) => v,
        Err(e) => panic!("{} {}", e.status, e.message),
    }
}

fn status<T>(r: Result<T, ApiError>) -> u16 {
    match r {
        Ok(_) => 200,
        Err(e) => e.status,
    }
}

#[test]
fn settings_come_from_the_command_line_first() {
    let none = Cli { bind: None, data_dir: None, relay_url: None, identity: None };
    let empty =
        Environment { tenet_home: None, home: Some(text("/h")), bind: None, relay_url: None, identity: None };
    let c = Config::from_cli_and_env(&none, &empty);
    assert_eq!(c.bind_addr, "127.0.0.1:3000");
    assert_eq!(c.data_dir, "/h/.tenet");
    assert_eq!(c.relay_url, None);
    let set = Environment {
        tenet_home: Some(text("/t")),
        home: None,
        bind: Some(text("env:1")),
        relay_url: Some(text("http://env")),
        identity: None,
    };
    let cli = Cli { bind: Some(text("cli:2")), data_dir: None, relay_url: None, identity: Some(text("id")) };
    let c = Config::from_cli_and_env(&cli, &set);
    assert_eq!(c.bind_addr, "cli:2");
    assert_eq!(c.data_dir, "/t");
    assert_eq!(c.relay_url.as_deref(), Some("http://env"));
    assert_eq!(c.identity.as_deref(), Some("id"));
    assert_eq!(effective_relay(&Some(text("a")), &Some(text("b"))).as_deref(), Some("a"));
    assert_eq!(effective_relay(&None, &Some(text("b"))).as_deref(), Some("b"));
    assert_eq!(page_size(None, 50, 200), 50);
    assert_eq!(page_size(Some(500), 50, 200), 200);
}

#[test]
fn direct_messages_are_sealed_for_a_peer() {
    let req = SendDirectRequest { recipient_id: text("p"), body: text("hi"), attachments: Vec::new() };
    let d = good(send_direct(&req, &Some(peer("p", true, Some("aa")))));
    assert!(matches!(&d.sealing, Sealing::ForPeer { encryption_key } if encryption_key == "aa"));
    assert_eq!(status(send_direct(&req, &None)), 404);
    assert_ne!(status(send_direct(&req, &Some(peer("p", true, None)))), 200);
    let blank = SendDirectRequest { recipient_id: text("p"), body: text("  "), attachments: Vec::new() };
    assert_eq!(status(send_direct(&blank, &Some(peer("p", true, Some("aa"))))), 400);
}

#[test]
fn public_and_group_messages() {
    let req = SendPublicRequest { body: text("hi"), attachments: Vec::new() };
    let d = good(send_public(&req));
    assert_eq!(d.recipient_id, "*");
    assert!(matches!(d.sealing, Sealing::Plain));
    let req = SendGroupRequest { group_id: text("g"), body: text("hi"), attachments: Vec::new() };
    let d = good(send_group(&req, &Some(group("g"))));
    assert!(matches!(&d.sealing, Sealing::ForGroup { group_key, .. } if group_key.len() == 32));
    assert_eq!(status(send_group(&req, &None)), 404);
}

#[test]
fn replies_stay_in_their_thread() {
    let req = ReplyRequest { body: text("re"), attachments: Vec::new() };
    let parent = Some(message("friend_group", Some("g")));
    assert_eq!(reply_group(&parent).map(|s| s.as_str()), Some("g"));
    let d = good(reply(&req, &text("m"), &parent, &Some(group("g"))));
    assert_eq!(d.reply_to.as_deref(), Some("m"));
    assert_eq!(d.group_id.as_deref(), Some("g"));
    let d = good(reply(&req, &text("m"), &Some(message("public", None)), &None));
    assert_eq!(d.recipient_id, "*");
    assert_eq!(status(reply(&req, &text("m"), &None, &None)), 404);
}

#[test]
fn sent_messages_are_kept() {
    let d = good(send_public(&SendPublicRequest { body: text("hi"), attachments: Vec::new() }));
    let s = sent_message(&d, &text("me"), &text("id"), text("{}"), 9);
    assert_eq!(s.outbox.message_id, "id");
    assert_eq!(s.outbox.envelope, "{}");
    assert_eq!(s.message.body.as_deref(), Some("hi"));
    assert!(s.message.is_read);
    assert!(matches!(s.event, WsEvent::NewMessage { message_id, .. } if message_id == "id"));
    let links = attachment_links(
        &text("id"),
        &vec![
            SendAttachmentRef { content_hash: text("a"), filename: None },
            SendAttachmentRef { content_hash: text("b"), filename: Some(text("f")) },
        ],
    );
    assert_eq!((links[1].position, links[1].content_hash.as_str()), (1, "b"));
}

#[test]
fn reactions_are_checked() {
    let up = ReactRequest { reaction: text("upvote") };
    assert_eq!(status(react(&up, true)), 200);
    assert_eq!(status(react(&up, false)), 404);
    assert_eq!(status(react(&ReactRequest { reaction: text("shrug") }, true)), 400);
    let row = reaction_row(&up, &text("me"), &text("rid"), &text("t"), 3);
    assert_eq!((row.target_id.as_str(), row.reaction.as_str()), ("t", "upvote"));
    assert_eq!(status(reaction_removed(false)), 404);
    assert!(matches!(
        good(message_marked_read(true, &text("m"))),
        WsEvent::MessageRead { message_id } if message_id == "m"
    ));
    assert_eq!(status(message_marked_read(false, &text("m"))), 404);
    assert_eq!(status(notification_marked_read(false)), 404);
}

#[test]
fn peers_need_proper_keys() {
    let key = "ab".repeat(32);
    assert!(validate_hex_key(&key, 32, "key").is_ok());
    assert!(matches!(validate_hex_key("zz", 32, "key"), Err(e) if e == "key is not valid hex"));
    assert!(matches!(validate_hex_key("abcd", 32, "key"), Err(e) if e == "key must be 32 bytes"));
    let req = AddPeerRequest {
        peer_id: text("p"),
        display_name: Some(text("Pat")),
        signing_public_key: key,
        encryption_public_key: None,
    };
    let p = good(add_peer(&req, 7));
    assert!(p.is_friend);
    assert_eq!(p.added_at, 7);
    let bad = AddPeerRequest { peer_id: text(" "), ..req };
    assert_eq!(status(add_peer(&bad, 7)), 400);
}

#[test]
fn unknown_peers_get_a_placeholder() {
    let v = visit_peer("p", &None, false, 5);
    assert_eq!(v.placeholder.map(|p| p.peer_id), Some(text("p")));
    let v = visit_peer("p", &Some(peer("p", true, None)), true, 5);
    assert!(v.placeholder.is_none());
    let m = good(request_profile(&text("p"), &text("me"), &Some(text("http://r")), 5));
    assert_eq!(m.recipient_id, "p");
    assert!(matches!(m.message, PeerMeta::ProfileRequest { .. }));
    assert_ne!(status(request_profile(&text("p"), &text("me"), &None, 5)), 200);
    assert_eq!(status(peer_found(false)), 404);
    assert_eq!(status(forget_peer(&None)), 404);
}

#[test]
fn friend_requests_are_sent_once() {
    let req = SendFriendRequestPayload { peer_id: text("p"), message: None, force: false };
    let plan = good(send_friend_request(&req, &own(), false, &None, 5));
    assert_eq!(plan.row.to_peer_id, "p");
    assert_eq!(plan.row.status, "pending");
    assert_eq!(plan.meta.recipient_id, "p");
    assert_eq!(status(send_friend_request(&req, &own(), true, &None, 5)), 409);
    let to_self = SendFriendRequestPayload { peer_id: text("me"), message: None, force: false };
    assert_eq!(status(send_friend_request(&to_self, &own(), false, &None, 5)), 400);
    let plan = peer_friend_request(&text("p"), &own(), &Some(peer("p", false, None)), &None, 5);
    assert_eq!(status(plan), 200);
}

#[test]
fn friend_requests_are_answered_once() {
    let plan = good(accept_friend_request(&Some(request("incoming", "pending")), &own(), &None, 5));
    assert!(plan.peer.is_friend);
    assert_eq!(plan.peer.peer_id, "p");
    assert!(matches!(plan.meta.message, PeerMeta::FriendAccept { .. }));
    assert_ne!(status(accept_friend_request(&Some(request("incoming", "accepted")), &own(), &None, 5)), 200);
    assert_ne!(status(accept_friend_request(&Some(request("outgoing", "pending")), &own(), &None, 5)), 200);
    assert_eq!(status(accept_friend_request(&None, &own(), &None, 5)), 404);
    assert_eq!(status(ignore_friend_request(&Some(request("incoming", "pending")))), 200);
    assert_eq!(status(ignore_friend_request(&None)), 404);
    assert_eq!(status(block_friend_request(&Some(request("incoming", "pending")))), 200);
    assert_eq!(status(block_friend_request(&None)), 404);
}

#[test]
fn founders_are_not_invited() {
    let req = CreateGroupRequest {
        group_id: text("g"),
        member_ids: vec![text("p"), text("me"), text("q")],
        message: None,
    };
    let fixed = good(plan_group(&req, &text("me"), vec![9; 32], 5));
    assert_eq!(fixed.group.group_key, vec![9; 32]);
    assert_eq!((fixed.group.key_version, fixed.invites.len()), (1, 2));
    let plan = good(create_group(&req, &text("me"), 5));
    assert_eq!(plan.group.group_key.len(), 32);
    assert_eq!(plan.founder.peer_id, "me");
    let invited: Vec<&str> = plan.invites.iter().map(|i| i.to_peer_id.as_str()).collect();
    assert_eq!(invited, vec!["p", "q"]);
    let m = invite_meta(&plan.invites[0]);
    assert!(matches!(m.message, PeerMeta::GroupInvite { group_id, .. } if group_id == "g"));
    let other = good(create_group(&req, &text("me"), 5));
    assert_ne!(other.group.group_key, plan.group.group_key);
    let reply = group_created(&plan.group, &vec![text("p")], &vec![text("q")]);
    assert_eq!(reply.pending_invites, vec![text("p")]);
    assert_eq!(reply.invite_failed, Some(vec![text("q")]));
    assert_eq!(
        pending_invitees("g", &plan.invites),
        vec![text("p"), text("q")]
    );
    let nameless = CreateGroupRequest { group_id: text(" "), member_ids: Vec::new(), message: None };
    assert_eq!(status(create_group(&nameless, &text("me"), 5)), 400);
}

#[test]
fn group_invites_are_answered() {
    let req = AddGroupMemberRequest { peer_id: text("p"), message: None };
    let row = good(add_group_member(&req, &text("g"), &text("me"), true, true, 5));
    assert_eq!((row.to_peer_id.as_str(), row.direction.as_str()), ("p", "outgoing"));
    assert_eq!(status(add_group_member(&req, &text("g"), &text("me"), false, true, 5)), 404);
    assert_eq!(status(add_group_member(&req, &text("g"), &text("me"), true, false, 5)), 404);
    let m = good(accept_group_invite(&Some(invite("incoming", "pending")), &text("me"), 5));
    assert!(matches!(m.message, PeerMeta::GroupInviteAccept { group_id, .. } if group_id == "g"));
    assert_ne!(status(accept_group_invite(&Some(invite("incoming", "ignored")), &text("me"), 5)), 200);
    assert_eq!(status(accept_group_invite(&None, &text("me"), 5)), 404);
    assert_eq!(status(ignore_group_invite(&None)), 404);
    assert_eq!(status(member_removed(false)), 404);
    assert_eq!(status(group_left(false)), 404);
}

#[test]
fn profiles_show_more_to_friends() {
    let row = || {
        Some(ProfileRow {
            user_id: text("p"),
            display_name: Some(text("Pat")),
            bio: None,
            avatar_hash: None,
            public_fields: text("{ \"a\": 1 }"),
            friends_fields: text("{\"b\":2}"),
            updated_at: 3,
        })
    };
    let shown = get_peer_profile("p", &Some(peer("p", true, None)), &row());
    assert_eq!(shown.friends_fields.as_deref(), Some("{\"b\":2}"));
    assert_eq!(shown.public_fields, "{\"a\":1}");
    let shown = get_peer_profile("p", &Some(peer("p", false, None)), &row());
    assert_eq!(shown.friends_fields, None);
    assert_eq!(get_own_profile("me", &None).user_id, "me");
    assert_eq!(profile_fields("broken"), "{}");
}

#[test]
fn profiles_are_told_to_friends() {
    let peers = vec![
        peer("f", true, Some("aa")),
        peer("x", false, Some("bb")),
        peer("k", true, None),
    ];
    let told: Vec<String> = friends_to_tell(&peers).into_iter().map(|f| f.peer_id).collect();
    assert_eq!(told, vec![text("f")]);
    let req = UpdateProfileRequest {
        display_name: Some(text("Me")),
        bio: None,
        avatar_hash: None,
        public_fields: text("{}"),
        friends_fields: text("{\"b\":2}"),
    };
    let up = update_own_profile(&req, &text("me"), &None, &peers, 8);
    assert_eq!(up.row.updated_at, 8);
    assert_eq!(up.public.friends_fields, None);
    assert_eq!(up.friends.friends_fields.as_deref(), Some("{\"b\":2}"));
    assert_eq!(up.to.len(), 1);
    let other = UpdateProfileRequest {
        display_name: req.display_name.clone(),
        bio: req.bio.clone(),
        avatar_hash: req.avatar_hash.clone(),
        public_fields: text("{}"),
        friends_fields: text("{\"b\":3}"),
    };
    let again = update_own_profile(&other, &text("me"), &None, &peers, 8);
    assert_eq!(format!("{:?}", again.public), format!("{:?}", up.public));
    assert_ne!(again.friends.friends_fields, up.friends.friends_fields);
}

#[test]
fn status_is_told() {
    let h = health(&own(), &Some(text("http://r")), true, 3, 0);
    assert_eq!((h.peer_id.as_str(), h.peers, h.has_messages), ("me", 3, false));
    assert!(matches!(
        relay_status(true, false, &None),
        Some(WsEvent::RelayStatus { connected: true, .. })
    ));
    assert!(relay_status(true, true, &None).is_none());
    assert_eq!(status(check_connections(MAX_WS_CONNECTIONS - 1)), 200);
    assert_eq!(status(check_connections(MAX_WS_CONNECTIONS)), 503);
    assert!(matches!(socket_step(SocketInput::Event), SocketOutput::TellEvent));
    assert!(matches!(socket_step(SocketInput::Lagged(3)), SocketOutput::TellMissed(3)));
    assert!(matches!(socket_step(SocketInput::NoMoreEvents), SocketOutput::Close));
    assert!(matches!(socket_step(SocketInput::Gone), SocketOutput::Close));
    assert!(matches!(socket_step(SocketInput::Ping), SocketOutput::Pong));
    assert!(matches!(socket_step(SocketInput::Other), SocketOutput::Nothing));
}

#[test]
fn qr_codes_are_drawn() {
    assert_eq!(peer_uri("me", "pub"), "tenet://peer/me?key=pub");
    let svg = good(qr_code(&own()));
    assert!(svg.contains("<svg"));
    assert_eq!(status(qr_answer(Err(text("too long")))), 500);
    assert_eq!(good(qr_answer(Ok(text("x")))), "x");
}

#[test]
fn places_follow_their_precision() {
    let req = UpdateGeoSettingsRequest {
        default_precision: GeoPrecision::Country,
        country_code: Some(text("CH")),
        region: None,
        city: Some(text("Zurich")),
        geohash: None,
    };
    let s = updated_geo_settings(&req);
    assert_eq!(s.default_precision, GeoPrecision::Country);
    assert_eq!(s.country_code.as_deref(), Some("CH"));
}

#[test]
fn only_owners_of_their_id_are_backfilled() {
    assert_eq!(key_bytes("0aFf"), Some(vec![0x0a, 0xff]));
    assert_eq!(key_bytes("0g"), None);
    assert!(backfills("p", "p"));
    assert!(!backfills("p", "q"));
}
