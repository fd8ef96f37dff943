//! What a simulation plans: settings, groups, friends, messages, coming and going.
use rand::Rng;
use rand::SeedableRng;
use rand_chacha::ChaCha8Rng;

use tenet::keyed::KeyedMap;
use tenet::protocol::MessageKind;
use tenet::relay::config::SECOND as RELAY_SECOND;
use tenet::simulation::client::Names;
use tenet::simulation::config::default_geo_precision;
use tenet::simulation::config::default_group_count;
use tenet::simulation::config::default_seconds_per_step;
use tenet::simulation::config::effective_encryption;
use tenet::simulation::config::effective_steps;
use tenet::simulation::config::hour_of_day;
use tenet::simulation::config::GeoPrecision;
use tenet::simulation::config::GroupMembershipsPerNode;
use tenet::simulation::config::MessageEncryption;
use tenet::simulation::config::MessageType;
use tenet::simulation::config::RelayConfigToml;
use tenet::simulation::config::SimGeoConfig;
use tenet::simulation::driver::SIMULATED_SECOND;
use tenet::simulation::event::Event;
use tenet::simulation::graph::uniform_friends_target;
use tenet::simulation::graph::build_friend_graph;
use tenet::simulation::graph::draw_friend_graph;
use tenet::simulation::graph::link_across;
use tenet::simulation::graph::may_link_across;
use tenet::simulation::graph::split_clusters;
use tenet::simulation::graph::split_friend_graph;
use tenet::simulation::groups::add_random_memberships;
use tenet::simulation::groups::build_groups;
use tenet::simulation::groups::groups_of;
use tenet::simulation::groups::uniform_group_bounds;
use tenet::simulation::groups::GroupSettings;
use tenet::simulation::groups::SimGroup;
use tenet::simulation::planning::build_online_events;
use tenet::simulation::planning::build_planned_sends;
use tenet::simulation::planning::generate_message_events;
use tenet::simulation::planning::markov_schedule;
use tenet::simulation::planning::NodeDraws;
use tenet::simulation::planning::NodeSlots;
use tenet::simulation::planning::Slot;
use tenet::simulation::random::distinct;
use tenet::simulation::random::draw_names;
use tenet::simulation::random::message_body;
use tenet::simulation::random::normalize_bounds;
use tenet::simulation::random::uniform_message_size;
use tenet::simulation::scenario::build_friend_request_events;
use tenet::simulation::scenario::build_planned_message;
use tenet::simulation::scenario::build_reply_sim_message;
use tenet::simulation::scenario::clamp_step;
use tenet::simulation::scenario::direct_links;
use tenet::simulation::scenario::generate_online_schedule_events;
use tenet::simulation::scenario::plan_direct;
use tenet::simulation::scenario::sample_count;
use tenet::simulation::scenario::schedule_weights;
use tenet::simulation::scenario::CohortDraws;
use tenet::simulation::scenario::CohortTally;
use tenet::simulation::scenario::ScheduleWeights;
use tenet::simulation::scenario::SAMPLE_INTERVAL;

const SECOND: u64 = SIMULATED_SECOND;

fn names(list: &[&str]) -> Vec<String> {
    list.iter().map(|s| s.to_string()).collect()
}

fn rng() -> ChaCha8Rng {
    ChaCha8Rng::seed_from_u64(42)
}

#[test]
fn test_generate_online_schedule_events_always_online() {
    let events =
        generate_online_schedule_events("client1", &CohortDraws::AlwaysOnline, 0, 3600 * SECOND);

    assert_eq!(events.len(), 1);
    assert_eq!(events[0].time, 0);

    if let Event::OnlineTransition { client_id, going_online } = &events[0].event {
        assert_eq!(client_id, "client1");
        assert!(going_online);
    } else {
        panic!("Expected OnlineTransition event");
    }
}

#[test]
fn test_generate_online_schedule_events_rarely_online() {
    let mut rng = rng();
    let end = 86400 * SECOND;
    let mut sessions = Vec::new();
    let mut from = 0u64;
    while from < end {
        let start = from + rng.gen_range(1..3600) * SECOND;
        let length = rng.gen_range(1..1800) * SECOND;
        if start >= end {
            break;
        }
        sessions.push((start, length));
        from = start + length + SECOND;
    }
    let draws = CohortDraws::RarelyOnline { sessions };
    let events = generate_online_schedule_events("client1", &draws, 0, end);

    assert!(events.len() > 0, "Expected some online/offline events");

    for event in &events {
        assert!(matches!(event.event, Event::OnlineTransition { .. }));
    }

    for i in 1..events.len() {
        assert!(events[i].time >= events[i - 1].time);
    }

    if events.len() > 1 {
        let mut last_state = None;
        for event in &events {
            if let Event::OnlineTransition { going_online, .. } = &event.event {
                if let Some(last) = last_state {
                    assert_ne!(last, *going_online, "Events should alternate state");
                }
                last_state = Some(*going_online);
            }
        }
    }
}

#[test]
fn test_generate_online_schedule_events_diurnal() {
    let mut rng = rng();
    let end = 86400 * SECOND;
    let samples = sample_count(0, end);
    assert_eq!(samples, 96);
    let states = (0..samples).map(|_| rng.gen_bool(0.5)).collect();
    let events =
        generate_online_schedule_events("client1", &CohortDraws::Diurnal { states }, 0, end);

    for event in &events {
        assert!(matches!(event.event, Event::OnlineTransition { .. }));
    }

    for i in 1..events.len() {
        assert!(events[i].time >= events[i - 1].time);
    }
}

#[test]
fn diurnal_clients_change_at_samples_and_close() {
    let draws = CohortDraws::Diurnal { states: vec![false, true, true, false, true] };
    let end = 5 * SAMPLE_INTERVAL;
    let events = generate_online_schedule_events("c", &draws, 0, end);
    let seen: Vec<(u64, bool)> = events
        .iter()
        .map(|e| match &e.event {
            Event::OnlineTransition { going_online, .. } => (e.time, *going_online),
            _ => panic!("Expected OnlineTransition event"),
        })
        .collect();
    assert_eq!(
        seen,
        vec![
            (SAMPLE_INTERVAL, true),
            (3 * SAMPLE_INTERVAL, false),
            (4 * SAMPLE_INTERVAL, true),
            (end - SECOND, false),
        ]
    );
}

#[test]
fn test_build_online_events_multiple_clients() {
    let node = |id: &str| NodeDraws {
        node_id: id.to_string(),
        cohort: Some("always".to_string()),
        draws: CohortDraws::AlwaysOnline,
    };
    let nodes = vec![node("client1"), node("client2")];

    let (events, assignments) = build_online_events(&nodes, 0, 3600 * SECOND);

    assert_eq!(events.len(), 2);

    assert_eq!(assignments.len(), 2);
    assert!(assignments.contains_key(&"client1".to_string()));
    assert!(assignments.contains_key(&"client2".to_string()));

    assert_eq!(assignments.get(&"client1".to_string()).unwrap(), "always");
    assert_eq!(assignments.get(&"client2".to_string()).unwrap(), "always");
}

#[test]
fn without_cohorts_everybody_is_online() {
    let nodes = vec![NodeDraws {
        node_id: "a".to_string(),
        cohort: None,
        draws: CohortDraws::Diurnal { states: vec![false, true] },
    }];
    let (events, assignments) = build_online_events(&nodes, 7, 3600 * SECOND);
    assert_eq!(events.len(), 1);
    assert_eq!(events[0].time, 7);
    assert_eq!(assignments.get(&"a".to_string()).unwrap(), "legacy");
}

#[test]
fn schedules_may_depend_on_the_step_before() {
    let draws = vec![(true, false), (false, true), (true, true), (false, false)];
    assert_eq!(markov_schedule(true, &draws), vec![true, true, false, true]);
    assert_eq!(markov_schedule(false, &draws), vec![false, false, true, true]);
    assert!(markov_schedule(true, &Vec::new()).is_empty());
}

#[test]
fn planned_messages_are_numbered() {
    let slot = |at: u64, message_type: MessageType| Slot { at, message_type };
    let nodes = vec![
        NodeSlots {
            node_id: "lonely".to_string(),
            slots: vec![slot(1, MessageType::Direct), slot(2, MessageType::Public)],
        },
        NodeSlots {
            node_id: "a".to_string(),
            slots: vec![slot(5, MessageType::Direct), slot(3, MessageType::Public)],
        },
    ];
    let mut graph: KeyedMap<String, Names> = KeyedMap::new();
    graph.insert("a".to_string(), Names { list: names(&["b"]) });
    let plan = build_planned_sends(
        &nodes,
        &graph,
        &Vec::new(),
        MessageEncryption::Plaintext,
        &mut rng(),
    );
    let seen: Vec<(u64, &str, &str, Option<&str>)> = plan
        .iter()
        .map(|m| (m.at, m.sender.as_str(), m.plan.recipient.as_str(), m.plan.salt.as_deref()))
        .collect();
    assert_eq!(
        seen,
        vec![
            (2, "lonely", "*", Some("lonely-0")),
            (5, "a", "b", Some("a-1")),
            (3, "a", "*", Some("a-2")),
        ]
    );
    let mut counter = 10usize;
    let some = generate_message_events(
        "a",
        &names(&["b"]),
        &names(&["g"]),
        &vec![slot(9, MessageType::Group)],
        MessageEncryption::Encrypted,
        &mut counter,
        &mut rng(),
    );
    assert_eq!(some[0].plan.salt.as_deref(), Some("a-g-10"));
    assert_eq!(counter, 11);
}

#[test]
fn friend_requests_come_in_time() {
    let pending = vec![
        ("a".to_string(), "b".to_string()),
        ("a".to_string(), "c".to_string()),
        ("b".to_string(), "c".to_string()),
        ("c".to_string(), "d".to_string()),
    ];
    let times = vec![Some(5), None, Some(20), Some(9)];
    let events = build_friend_request_events(&pending, &times, 10);
    assert_eq!(events.len(), 2);
    assert_eq!((events[0].time, events[0].event_id), (5, 0));
    assert_eq!((events[1].time, events[1].event_id), (9, 1));
    assert!(matches!(
        &events[1].event,
        Event::FriendRequestSend { sender_id, recipient_id } if sender_id == "c" && recipient_id == "d"
    ));
}

#[test]
fn messages_are_planned() {
    let mut counter = 7usize;
    let friends = names(&["b"]);
    let groups = names(&["g"]);
    let plain = MessageEncryption::Plaintext;
    let m = build_planned_message("a", &friends, &groups, MessageType::Public, plain, &mut counter, &mut rng())
        .expect("a public message");
    assert_eq!((m.recipient.as_str(), m.salt.as_deref()), ("*", Some("a-7")));
    assert_eq!(counter, 8);
    let m = build_planned_message("a", &friends, &groups, MessageType::Group, plain, &mut counter, &mut rng())
        .expect("a group message");
    assert_eq!((m.recipient.as_str(), m.salt.as_deref()), ("g", Some("a-g-8")));
    assert_eq!(m.message_kind, MessageKind::FriendGroup);
    let m = build_planned_message("a", &friends, &Vec::new(), MessageType::Group, plain, &mut counter, &mut rng())
        .expect("a direct message");
    assert_eq!((m.recipient.as_str(), m.salt.as_deref()), ("b", Some("a-9")));
    let m = build_planned_message("a", &Vec::new(), &Vec::new(), MessageType::Direct, plain, &mut counter, &mut rng());
    assert!(m.is_none());
    assert_eq!(counter, 10);
    assert_eq!(plan_direct("a", "b", MessageEncryption::Encrypted, 1).salt, None);
}

#[test]
fn replies_keep_the_kind() {
    let plain = MessageEncryption::Plaintext;
    let r = build_reply_sim_message("b", MessageKind::Direct, "a", &None, plain, 3).expect("a reply");
    assert_eq!((r.recipient.as_str(), r.message_kind), ("a", MessageKind::Direct));
    let r = build_reply_sim_message("b", MessageKind::Public, "a", &None, plain, 3).expect("a reply");
    assert_eq!(r.salt.as_deref(), Some("b-reply-3"));
    let g = Some("g".to_string());
    let r = build_reply_sim_message("b", MessageKind::FriendGroup, "a", &g, plain, 3).expect("a reply");
    assert_eq!(r.group_id.as_deref(), Some("g"));
    assert!(build_reply_sim_message("b", MessageKind::FriendGroup, "a", &None, plain, 3).is_none());
    assert!(build_reply_sim_message("b", MessageKind::Meta, "a", &None, plain, 3).is_none());
}

#[test]
fn weights_are_told_apart() {
    assert_eq!(schedule_weights(24, 100), ScheduleWeights::Hourly);
    assert_eq!(schedule_weights(100, 100), ScheduleWeights::PerStep);
    assert_eq!(schedule_weights(3, 100), ScheduleWeights::Even);
    assert_eq!(clamp_step(5, 3), 2);
    assert_eq!(clamp_step(1, 3), 1);
    assert_eq!(clamp_step(1, 0), 0);
    assert_eq!(hour_of_day(25, 0), 1);
    assert_eq!(hour_of_day(1, -2), 23);
}

#[test]
fn steps_cover_the_duration() {
    assert_eq!(effective_steps(10, None, 60), 10);
    assert_eq!(effective_steps(10, Some(61), 60), 2);
    assert_eq!(effective_steps(10, Some(60), 60), 1);
    assert_eq!(default_seconds_per_step(), 60);
    assert!(default_group_count() > 0);
    assert!(!default_geo_precision().is_empty());
    assert_eq!(effective_encryption(None), MessageEncryption::Encrypted);
}

#[test]
fn relay_settings_are_read() {
    let toml = RelayConfigToml {
        ttl_seconds: 60,
        max_messages: 5,
        max_bytes: 6,
        retry_backoff_seconds: vec![1, 2],
        peer_log_window_seconds: None,
        peer_log_interval_seconds: Some(9),
    };
    let c = toml.into_relay_config();
    assert_eq!(c.ttl, 60 * RELAY_SECOND);
    assert_eq!(c.retry_backoff, vec![RELAY_SECOND, 2 * RELAY_SECOND]);
    assert_eq!(c.peer_log_window, 60 * RELAY_SECOND);
    assert_eq!(c.peer_log_interval, 9 * RELAY_SECOND);
    assert_eq!((c.max_messages, c.max_bytes), (5, 6));
}

#[test]
fn places_are_asked_for_as_precisely_as_set() {
    let geo = SimGeoConfig {
        country_code: "CH".to_string(),
        region: Some("ZH".to_string()),
        city: Some("Zurich".to_string()),
        geohash: Some("u0qj9".to_string()),
        post_precision: "country".to_string(),
        query_precision: "none".to_string(),
    };
    let at = geo.post_geo_location().expect("a place");
    assert_eq!(at.country_code.as_deref(), Some("CH"));
    assert_eq!(at.precision, GeoPrecision::Country);
    assert_eq!(at.city.as_deref(), Some("Zurich"));
    assert!(geo.query_geo().is_none());
    let near = SimGeoConfig { query_precision: "region".to_string(), ..geo };
    let query = near.query_geo().expect("a query");
    assert_eq!(query.region.as_deref(), Some("ZH"));
    assert_eq!((query.city, query.geohash_prefix), (None, None));
    assert_eq!(GeoPrecision::parse("city"), Some(GeoPrecision::City));
    assert_eq!(GeoPrecision::parse("street"), None);
}

#[test]
fn groups_hold_nodes() {
    let nodes = names(&["a", "b", "c", "d", "e"]);
    let settings = Some(GroupSettings {
        count: 3,
        min_size: 2,
        max_size: 3,
        memberships_per_node: GroupMembershipsPerNode::Fixed { count: 1 },
    });
    let groups = build_groups(&nodes, &settings, &mut rng());
    assert_eq!(groups.len(), 3);
    for g in &groups {
        assert!(g.members.contains(&g.creator_id));
        for m in &g.members {
            assert!(nodes.contains(m));
        }
    }
    for n in &nodes {
        assert!(!groups_of(&groups, n).is_empty());
    }
    assert_eq!(groups[0].group_id, "group-1");
    assert_eq!(groups[2].group_id, "group-3");
    let whole = Some(GroupSettings {
        count: 2,
        min_size: 9,
        max_size: 9,
        memberships_per_node: GroupMembershipsPerNode::Uniform { min: 0, max: 0 },
    });
    for g in build_groups(&nodes, &whole, &mut rng()) {
        assert_eq!(g.members.len(), 5);
        assert_eq!(g.members[0], g.creator_id);
    }
    let empty = Some(GroupSettings {
        count: 4,
        min_size: 0,
        max_size: 0,
        memberships_per_node: GroupMembershipsPerNode::Fixed { count: 3 },
    });
    let groups = build_groups(&nodes, &empty, &mut rng());
    for n in &nodes {
        assert_eq!(groups_of(&groups, n).len(), 3);
    }
    assert!(build_groups(&nodes, &None, &mut rng()).is_empty());
    assert_eq!(uniform_group_bounds(2, 5, 10), (2, 5));
    assert_eq!(uniform_group_bounds(2, 5, 3), (2, 3));
}

#[test]
fn friends_are_others() {
    let nodes = names(&["a", "b", "c", "d"]);
    let graph = build_friend_graph(&nodes, &vec![2, 1, 0, 9], &mut rng());
    for i in 0..graph.len() {
        assert!(!graph.value_at(i).list.contains(graph.key_at(i)));
    }
    assert!(graph.get(&"d".to_string()).expect("d").list.len() == 3);
    for (a, b) in direct_links(&nodes, &graph) {
        assert!(graph.get(&a).expect("a node").list.contains(&b));
    }
}

#[test]
fn clusters_are_kept_apart() {
    let nodes = names(&["a", "b", "c", "d", "e"]);
    let clusters = split_clusters(&nodes, &vec![2, 2]);
    assert_eq!(clusters[0], names(&["a", "b"]));
    assert_eq!(clusters[1], names(&["c", "d"]));
    let total: usize = clusters.iter().map(|c| c.len()).sum();
    assert_eq!(total, 5);
    assert!(may_link_across(&clusters, "a", "c"));
    assert!(!may_link_across(&clusters, "a", "b"));
    let targets: Vec<Vec<usize>> = clusters.iter().map(|c| vec![1; c.len()]).collect();
    let mut graph = draw_friend_graph(&clusters, &targets, &mut rng());
    assert_eq!(graph.get(&"a".to_string()).expect("a").list, names(&["b"]));
    link_across(&mut graph, &"a".to_string(), &"c".to_string());
    assert_eq!(graph.get(&"a".to_string()).expect("a").list, names(&["b", "c"]));
    assert_eq!(graph.get(&"c".to_string()).expect("c").list, names(&["d"]));
}

#[test]
fn friendships_are_split() {
    let links: Vec<(String, String)> = vec![
        ("a".to_string(), "b".to_string()),
        ("b".to_string(), "a".to_string()),
        ("a".to_string(), "c".to_string()),
        ("c".to_string(), "a".to_string()),
    ];
    let split = split_friend_graph(&links, 1, &mut rng());
    assert_eq!((split.active.len(), split.pending.len()), (2, 1));
    let (a, b) = (split.active[0].clone(), split.active[1].clone());
    assert_eq!((a.0, a.1), (b.1, b.0));
    assert_eq!(split.pending[0].0, "a");
    let all = split_friend_graph(&links, 9, &mut rng());
    assert_eq!((all.active.len(), all.pending.len()), (4, 0));
    let none = split_friend_graph(&links, 0, &mut rng());
    assert_eq!((none.active.len(), none.pending.len()), (0, 2));
}

#[test]
fn names_are_drawn_once() {
    let all = names(&["a", "b", "c", "d"]);
    let drawn = draw_names(&all, Some("a"), 2, &mut rng());
    assert_eq!(drawn.len(), 2);
    assert!(!drawn.contains(&"a".to_string()));
    assert_ne!(drawn[0], drawn[1]);
    assert_eq!(draw_names(&all, None, 9, &mut rng()).len(), 4);
    assert_eq!(distinct(&names(&["a", "b", "a"])), names(&["a", "b"]));
    // Ten draws from 0..=9 that all stayed put would be a wonder.
    let many: Vec<String> = (0..30).map(|i| format!("n{i}")).collect();
    assert_ne!(draw_names(&many, None, 30, &mut rng()), many);
}

#[test]
fn bodies_have_their_size() {
    assert_eq!(normalize_bounds(5, 2), (2, 5));
    let n = uniform_message_size(&mut rng(), 5, 8);
    assert!((5..=8).contains(&n));
    assert_eq!(uniform_message_size(&mut rng(), 100, 100), 100);
    assert_eq!(message_body(100).len(), 100);
    assert!(message_body(100).starts_with("Lorem ipsum"));
    assert!(message_body(0).is_empty());
}

#[test]
fn cohorts_are_tallied() {
    let mut tally = CohortTally::new();
    tally.count(&"x".to_string(), &vec![true, false, true]);
    tally.count(&"x".to_string(), &vec![true]);
    assert_eq!(tally.online.get(&"x".to_string()).copied(), Some(3));
    assert_eq!(tally.total.get(&"x".to_string()).copied(), Some(4));
    let empty: KeyedMap<String, Names> = KeyedMap::new();
    assert!(direct_links(&names(&["a"]), &empty).is_empty());
}

#[test]
fn repeated_nodes_join_groups() {
    let nodes = names(&["a", "b", "a"]);
    let founded = || -> Vec<SimGroup> {
        (1..=4)
            .map(|i| SimGroup {
                group_id: format!("group-{i}"),
                members: Vec::new(),
                creator_id: String::new(),
            })
            .collect()
    };
    let groups = add_random_memberships(founded(), &nodes, 2, 3, &mut rng());
    for n in ["a", "b"] {
        let count = groups_of(&groups, &n.to_string()).len();
        assert!((2..=3).contains(&count));
    }
    let same = add_random_memberships(founded(), &nodes, 2, 2, &mut rng());
    assert!(same.iter().all(|g| g.members.is_empty()));
}

#[test]
fn sessions_alternate_in_whatever_order_they_are_drawn() {
    let sessions = vec![
        (50 * SECOND, 20 * SECOND),
        (10 * SECOND, 5 * SECOND),
        (15 * SECOND, 3 * SECOND),
        (90 * SECOND, 30 * SECOND),
        (30 * SECOND, 0),
    ];
    let draws = CohortDraws::RarelyOnline { sessions };
    let events = generate_online_schedule_events("c", &draws, 0, 100 * SECOND);
    let told: Vec<(u64, bool)> = events
        .iter()
        .map(|e| match e.event {
            Event::OnlineTransition { going_online, .. } => (e.time / SECOND, going_online),
            _ => unreachable!(),
        })
        .collect();
    let expected = vec![
        (10, true),
        (15, false),
        (15, true),
        (18, false),
        (30, true),
        (30, false),
        (50, true),
        (70, false),
        (90, true),
    ];
    assert_eq!(told, expected);
}

#[test]
fn friends_are_no_more_than_there_are_others() {
    for _ in 0..50 {
        let n = uniform_friends_target(&mut rng(), 2, 9, 4);
        assert!((2..=4).contains(&n));
    }
    assert_eq!(uniform_friends_target(&mut rng(), 3, 3, 9), 3);
}
