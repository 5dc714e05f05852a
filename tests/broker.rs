use pubsub_broker::dispatcher::{track_cycles_used, Dispatcher, Message, CACHE_TTL_NS, MAX_CHUNK_SIZE};
use pubsub_broker::error::ErrorKind;
use pubsub_broker::ident::{create_uuid, timestamp_text};
use pubsub_broker::logging::LogSink;
use pubsub_broker::registry::Registry;
use pubsub_broker::types::{Canisters, Namespace, Subscribers, Topic};

fn s(x: &str) -> String {
    String::from(x)
}

fn namespace(name: &str, members: &[&str]) -> Namespace {
    Namespace {
        name: s(name),
        description: s(""),
        subscribers: members.iter().map(|m| s(m)).collect(),
        active: true,
    }
}

fn topic(name: &str, namespaces: Vec<String>) -> Topic {
    Topic { name: s(name), description: s(""), namespaces, active: true }
}

fn message(topic: &str, value: &str) -> Message {
    Message { topic: s(topic), value: s(value) }
}

/// A registry with topic "orders" over one namespace "ns-a", and a dispatcher
/// that whitelists "PROD-1" for it.
fn orders_setup() -> (Registry, Dispatcher, String, String) {
    let mut reg = Registry::new();
    let n1 = reg.namespace_register(namespace("ns-a", &[]), 2).unwrap();
    let t1 = reg.topic_register(topic("orders", vec![n1.clone()]), 1).unwrap();
    let mut d = Dispatcher::new();
    d.whitelist_register(s("orders"), s("PROD-1"));
    (reg, d, t1, n1)
}

fn refresh(reg: &Registry, d: &mut Dispatcher, now: u64) {
    d.cache_subscribers_fetch(&reg.topics(), &reg.subscribers(), now);
}

#[test]
fn happy_path_delivers_once() {
    let (mut reg, mut d, t1, n1) = orders_setup();
    refresh(&reg, &mut d, 3);
    let s1 = reg.agent_subscribe(&s("orders"), s("on_order"), s("SUB-1"), 4).unwrap();
    let sub = reg.subscriber(&s1).unwrap();
    assert_eq!(sub.topic, t1);
    assert_eq!(sub.namespace, n1);
    refresh(&reg, &mut d, 5);
    assert!(d.intake(message("orders", "v1"), &s("PROD-1")).is_ok());
    let batch = d.fifo_consumer();
    let mut calls = Vec::new();
    for m in batch.iter() {
        for c in d.route_message(m) {
            calls.push((c.canister_id, c.callback, c.value));
        }
    }
    assert_eq!(calls, vec![(s("SUB-1"), s("on_order"), s("v1"))]);
}

#[test]
fn not_whitelisted_leaves_fifo() {
    let (_reg, mut d, _t1, _n1) = orders_setup();
    let before = d.fifo_buffer_size();
    assert_eq!(d.intake(message("orders", "v1"), &s("PROD-X")), Err(ErrorKind::NotWhitelisted));
    assert_eq!(d.fifo_buffer_size(), before);
}

#[test]
fn placement_picks_least_loaded_first_on_ties() {
    let mut reg = Registry::new();
    let n1 = reg.namespace_register(namespace("n1", &["a", "b"]), 1).unwrap();
    let n2 = reg.namespace_register(namespace("n2", &[]), 2).unwrap();
    let n3 = reg.namespace_register(namespace("n3", &["c"]), 3).unwrap();
    reg.topic_register(topic("topic", vec![n1.clone(), n2.clone(), n3.clone()]), 4).unwrap();
    let first = reg.agent_subscribe(&s("topic"), s("cb"), s("AG"), 10).unwrap();
    let second = reg.agent_subscribe(&s("topic"), s("cb"), s("AG"), 11).unwrap();
    let third = reg.agent_subscribe(&s("topic"), s("cb"), s("AG"), 12).unwrap();
    assert_eq!(reg.subscriber(&first).unwrap().namespace, n2);
    assert_eq!(reg.subscriber(&second).unwrap().namespace, n2);
    assert_eq!(reg.subscriber(&third).unwrap().namespace, n3);
    assert_eq!(reg.namespace_subscriber_size(&n1), Ok(2));
    assert_eq!(reg.namespace_subscriber_size(&n2), Ok(2));
    assert_eq!(reg.namespace_subscriber_size(&n3), Ok(2));
}

#[test]
fn stale_cache_after_unsubscribe_still_delivers() {
    let (mut reg, mut d, _t1, _n1) = orders_setup();
    let s1 = reg.agent_subscribe(&s("orders"), s("on_order"), s("SUB-1"), 4).unwrap();
    refresh(&reg, &mut d, 5);
    assert_eq!(reg.agent_unsubscribe(&s1), Ok(s1.clone()));
    assert!(reg.subscriber(&s1).is_none());
    assert!(d.intake(message("orders", "v2"), &s("PROD-1")).is_ok());
    let batch = d.fifo_consumer();
    assert_eq!(batch.len(), 1);
    let calls = d.route_message(&batch[0]);
    assert_eq!(calls.len(), 1);
    assert_eq!(calls[0].canister_id, "SUB-1");
}

#[test]
fn chunking_drains_in_three_ticks() {
    let mut d = Dispatcher::new();
    d.whitelist_register(s("t"), s("P"));
    for i in 0..501 {
        assert!(d.intake(message("t", &format!("v{}", i)), &s("P")).is_ok());
    }
    let first = d.fifo_consumer();
    assert_eq!(first.len(), MAX_CHUNK_SIZE);
    assert_eq!(first[0].value, "v0");
    assert_eq!(d.fifo_buffer_size(), 251);
    let second = d.fifo_consumer();
    assert_eq!(second[0].value, "v250");
    let third = d.fifo_consumer();
    assert_eq!(third.len(), 1);
    assert_eq!(third[0].value, "v500");
    assert_eq!(d.fifo_buffer_size(), 0);
}

#[test]
fn log_paging() {
    let mut log = LogSink::new();
    for i in 0..10u64 {
        assert!(log.log(0, s("svc"), format!("m{}", i), s(""), s("CALLER"), 100 + i).is_ok());
    }
    let r = log.log_range(3, 4);
    let msgs: Vec<String> = r.iter().map(|e| e.log_message.clone()).collect();
    assert_eq!(msgs, vec![s("m3"), s("m4"), s("m5"), s("m6")]);
    assert!(log.log_range(100, 5).is_empty());
}

#[test]
fn log_range_past_tail_is_empty() {
    let mut log = LogSink::new();
    log.log(1, s("o"), s("m"), s("d"), s("c"), 7).unwrap();
    assert!(log.log_range(1, 3).is_empty());
    assert!(log.log_range(5, 0).is_empty());
}

#[test]
fn log_range_is_clamped_at_tail() {
    let mut log = LogSink::new();
    for i in 0..10u64 {
        log.log(2, s("o"), format!("m{}", i), s(""), s("c"), i).unwrap();
    }
    assert_eq!(log.log_range(8, 5).len(), 2);
    assert_eq!(log.log_range(0, usize::MAX).len(), 10);
    assert_eq!(log.log_size(), 10);
    log.log_empty();
    assert_eq!(log.log_size(), 0);
}

#[test]
fn log_entry_fields() {
    let mut log = LogSink::new();
    log.log(1, s("queue"), s("failed"), s("payload"), s("CALLER"), 1234).unwrap();
    let e = &log.log_range(0, 1)[0];
    assert_eq!(e.log_type, 1);
    assert_eq!(e.log_origin, "queue");
    assert_eq!(e.log_canister, "CALLER");
    assert_eq!(e.log_data, "payload");
    assert_eq!(e.log_timestamp, "1234");
    assert_eq!(e.log_id, create_uuid(1234));
}

#[test]
fn intake_rejects_empty_fields() {
    let (_reg, mut d, _t1, _n1) = orders_setup();
    assert_eq!(d.intake(message("", "v"), &s("PROD-1")), Err(ErrorKind::InvalidArgument));
    assert_eq!(d.intake(message("orders", ""), &s("PROD-1")), Err(ErrorKind::InvalidArgument));
    assert_eq!(d.fifo_producer(message("", "")), Err(ErrorKind::InvalidArgument));
    assert_eq!(d.fifo_buffer_size(), 0);
}

#[test]
fn consumer_on_empty_fifo_is_noop() {
    let mut d = Dispatcher::new();
    assert!(d.fifo_consumer().is_empty());
    assert_eq!(d.fifo_buffer_size(), 0);
}

#[test]
fn intake_enqueues_exactly_once() {
    let (_reg, mut d, _t1, _n1) = orders_setup();
    assert!(d.intake(message("orders", "v1"), &s("PROD-1")).is_ok());
    assert_eq!(d.fifo_buffer_size(), 1);
    d.fifo_buffer_empty();
    assert_eq!(d.fifo_buffer_size(), 0);
}

#[test]
fn whitelist_round_trip() {
    let mut d = Dispatcher::new();
    d.whitelist_register(s("t"), s("A"));
    let before = d.whitelist_lookup(&s("t"));
    d.whitelist_register(s("t"), s("X"));
    d.whitelist_register(s("t"), s("X"));
    assert_eq!(d.whitelist_lookup(&s("t")), vec![s("A"), s("X")]);
    assert!(d.whitelist_canister_check(&s("t"), &s("X")).is_ok());
    assert!(d.whitelist_unregister(&s("t"), &s("X")).is_ok());
    assert_eq!(d.whitelist_lookup(&s("t")), before);
    assert_eq!(d.whitelist_canister_check(&s("t"), &s("X")), Err(ErrorKind::NotWhitelisted));
    assert_eq!(d.whitelist_unregister(&s("u"), &s("X")), Err(ErrorKind::NotFound));
    assert!(d.whitelist_lookup(&s("u")).is_empty());
}

#[test]
fn subscribe_unsubscribe_restores_namespace() {
    let (mut reg, _d, _t1, n1) = orders_setup();
    let before = reg.namespace(&n1).unwrap().subscribers;
    let id = reg.agent_subscribe(&s("orders"), s("cb"), s("SUB-9"), 9).unwrap();
    assert_eq!(reg.namespace(&n1).unwrap().subscribers.len(), before.len() + 1);
    assert_eq!(reg.namespace_by_subscriber(&id).unwrap().id, n1);
    reg.agent_unsubscribe(&id).unwrap();
    assert_eq!(reg.namespace(&n1).unwrap().subscribers, before);
    assert_eq!(reg.agent_unsubscribe(&id), Err(ErrorKind::NotFound));
}

#[test]
fn subscribers_by_topic_is_exact() {
    let mut reg = Registry::new();
    let mk = |id: &str, t: &str| Subscribers {
        id: s(id),
        canister_id: s("C"),
        callback: s("cb"),
        name: s(""),
        description: s(""),
        topic: s(t),
        namespace: s(""),
        active: false,
    };
    reg.subscriber_register(mk("a", "T1"), 1).unwrap();
    reg.subscriber_register(mk("b", "T2"), 2).unwrap();
    reg.subscriber_register(mk("c", "T1"), 3).unwrap();
    let ids: Vec<String> = reg.subscribers_by_topic(&s("T1")).iter().map(|x| x.id.clone()).collect();
    assert_eq!(ids, vec![s("a"), s("c")]);
    assert!(reg.subscribers_by_topic(&s("T3")).is_empty());
    assert!(reg.subscriber(&s("b")).unwrap().active);
    assert_eq!(reg.subscriber_register(mk("a", "T9"), 4), Err(ErrorKind::Conflict));
    assert_eq!(reg.subscriber_unregister(&s("b")), Ok(s("b")));
    assert_eq!(reg.subscriber_unregister(&s("b")), Err(ErrorKind::NotFound));
    assert_eq!(reg.subscribers().len(), 2);
}

#[test]
fn subscriber_register_assigns_fresh_id() {
    let mut reg = Registry::new();
    let sub = Subscribers {
        id: s(""),
        canister_id: s("C"),
        callback: s("cb"),
        name: s(""),
        description: s(""),
        topic: s("T"),
        namespace: s("N"),
        active: true,
    };
    let id = reg.subscriber_register(sub, 42).unwrap();
    assert_eq!(id, create_uuid(42));
    assert_eq!(id.len(), 36);
}

#[test]
fn subscribers_by_topic_name_joins_on_id() {
    let (mut reg, _d, _t1, _n1) = orders_setup();
    reg.agent_subscribe(&s("orders"), s("cb"), s("SUB-1"), 5).unwrap();
    assert_eq!(reg.subscribers_by_topic_name(&s("orders")).len(), 1);
    assert!(reg.subscribers_by_topic_name(&s("missing")).is_empty());
    assert_eq!(reg.agent_subscriptions(&s("SUB-1")).result.len(), 1);
    assert!(reg.agent_subscriptions(&s("SUB-2")).result.is_empty());
}

#[test]
fn agent_subscribe_errors() {
    let mut reg = Registry::new();
    assert_eq!(reg.agent_subscribe(&s("none"), s("cb"), s("A"), 1), Err(ErrorKind::NotFound));
    reg.topic_register(topic("empty", vec![]), 2).unwrap();
    assert_eq!(reg.agent_subscribe(&s("empty"), s("cb"), s("A"), 3), Err(ErrorKind::NotFound));
    reg.topic_register(topic("dangling", vec![s("nope")]), 4).unwrap();
    assert_eq!(reg.agent_subscribe(&s("dangling"), s("cb"), s("A"), 5), Err(ErrorKind::NotFound));
    let n = reg.namespace_register(namespace("n", &[]), 6).unwrap();
    let mut t = topic("off", vec![n]);
    t.active = false;
    reg.topic_register(t, 7).unwrap();
    assert_eq!(reg.agent_subscribe(&s("off"), s("cb"), s("A"), 8), Err(ErrorKind::NotFound));
    assert_eq!(reg.subscribers().len(), 0);
}

#[test]
fn agent_subscription_reports_record() {
    let (mut reg, _d, t1, _n1) = orders_setup();
    let id = reg.agent_subscribe(&s("orders"), s("cb"), s("SUB-1"), 5).unwrap();
    let r = reg.agent_subscription(&id).unwrap().result;
    assert_eq!(r.id, id);
    assert_eq!(r.canister_id, "SUB-1");
    assert_eq!(r.topic, t1);
    assert!(r.active);
    assert!(reg.agent_subscription(&s("zzz")).is_err());
}

#[test]
fn topic_crud() {
    let mut reg = Registry::new();
    let t = reg.topic_register(topic("a", vec![]), 1).unwrap();
    assert_eq!(t, create_uuid(1));
    assert_eq!(reg.topic_register(topic("b", vec![]), 1), Err(ErrorKind::Conflict));
    assert_eq!(reg.topic(&t).unwrap().name, "a");
    assert_eq!(reg.topic_by_name(&s("a")).unwrap().id, t);
    assert!(reg.topic_by_name(&s("b")).is_none());
    assert_eq!(reg.topics().len(), 1);
    assert_eq!(reg.topic_unregister(&t), Ok(t.clone()));
    assert_eq!(reg.topic_unregister(&t), Err(ErrorKind::NotFound));
    assert!(reg.topic(&t).is_none());
}

#[test]
fn namespace_crud() {
    let mut reg = Registry::new();
    let n = reg.namespace_register(namespace("n", &[]), 1).unwrap();
    let other = reg.namespace_register(namespace("m", &[]), 2).unwrap();
    let t = reg.topic_register(topic("t", vec![n.clone()]), 3).unwrap();
    assert_eq!(reg.namespace_register_subscriber(&n, &s("S")), Ok(n.clone()));
    assert_eq!(reg.namespace(&n).unwrap().subscribers, vec![s("S")]);
    assert_eq!(reg.namespace_register_subscriber(&s("x"), &s("S")), Err(ErrorKind::NotFound));
    let by_topic = reg.namespaces_by_topic(&t).unwrap();
    assert_eq!(by_topic.len(), 1);
    assert_eq!(by_topic[0].id, n);
    assert!(reg.namespaces_by_topic(&s("x")).is_err());
    assert_eq!(reg.namespaces().len(), 2);
    assert_eq!(reg.namespace_unregister(&other), Ok(other.clone()));
    assert_eq!(reg.namespace_unregister(&other), Err(ErrorKind::NotFound));
    assert_eq!(reg.namespace_subscriber_size(&other), Err(ErrorKind::NotFound));
    assert!(matches!(reg.namespace_by_subscriber(&s("S")), Err(ErrorKind::NotFound)));
}

#[test]
fn canister_crud() {
    let mut reg = Registry::new();
    let peer = |name: &str, id: &str| Canisters {
        id: s(""),
        canister_id: s(id),
        canister_name: s(name),
        name: s(""),
        description: s(""),
        active: false,
    };
    let id = reg.canister_register(peer("registry_backend", "aaaaa-aa"), 1).unwrap();
    assert_eq!(id, create_uuid(1));
    assert_eq!(reg.canister_register(peer("registry_backend", "b"), 2), Err(ErrorKind::Conflict));
    let c = reg.canister(&s("registry_backend")).unwrap();
    assert_eq!(c.canister_id, "aaaaa-aa");
    assert!(c.active);
    assert_eq!(reg.canisters().len(), 1);
    assert_eq!(reg.canister_unregister(&s("registry_backend")), Ok(s("registry_backend")));
    assert_eq!(reg.canister_unregister(&s("registry_backend")), Err(ErrorKind::NotFound));
    assert!(reg.canister(&s("registry_backend")).is_none());
}

#[test]
fn cache_lists_only_fetched_ids() {
    let (mut reg, mut d, _t1, _n1) = orders_setup();
    let a = reg.agent_subscribe(&s("orders"), s("cb"), s("SUB-1"), 5).unwrap();
    refresh(&reg, &mut d, 6);
    assert_eq!(d.cache_subscribers(&s("orders")), vec![a.clone()]);
    let snap = d.cache_subscriber_data(&a).unwrap();
    assert_eq!(snap.topic_name, "orders");
    assert_eq!(snap.timestamp, 6);
    refresh(&reg, &mut d, 7);
    assert_eq!(d.cache_subscribers(&s("orders")), vec![a.clone()]);
    let b = reg.agent_subscribe(&s("orders"), s("cb"), s("SUB-2"), 8).unwrap();
    refresh(&reg, &mut d, 9);
    assert_eq!(d.cache_subscribers(&s("orders")), vec![a.clone(), b.clone()]);
    d.cache_subscribers_clear();
    assert!(d.cache_subscribers(&s("orders")).is_empty());
    assert!(d.cache_subscriber_data(&a).is_none());
}

#[test]
fn route_skips_ids_without_snapshot() {
    let d = Dispatcher::new();
    assert!(d.route_message(&message("orders", "v")).is_empty());
}

#[test]
fn settings_store_and_get() {
    let mut d = Dispatcher::new();
    assert!(d.canister_settings_get(&s("registry_backend")).is_none());
    d.canister_settings_store(s("registry_backend"), s("id-1"));
    d.canister_settings_store(s("registry_backend"), s("id-2"));
    assert_eq!(d.canister_settings_get(&s("registry_backend")).unwrap().canister_id, "id-2");
}

#[test]
fn identifiers_from_timestamps() {
    assert_eq!(timestamp_text(1234), "1234");
    assert_eq!(timestamp_text(0), "0");
    let a = create_uuid(1);
    assert_eq!(a.len(), 36);
    assert_ne!(a, "1");
    assert_eq!(a, create_uuid(1));
    assert_ne!(a, create_uuid(2));
}

#[test]
fn remote_set_skips_registry_as_target() {
    let mut reg = Registry::new();
    let peer = |name: &str, id: &str| Canisters {
        id: s(""),
        canister_id: s(id),
        canister_name: s(name),
        name: s(""),
        description: s(""),
        active: true,
    };
    reg.canister_register(peer("registry_backend", "R"), 1).unwrap();
    reg.canister_register(peer("queue_backend", "Q"), 2).unwrap();
    reg.canister_register(peer("logging_backend", "L"), 3).unwrap();
    let plan = reg.canisters_remote_set();
    assert_eq!(plan.targets, vec![s("Q"), s("L")]);
    assert_eq!(
        plan.entries,
        vec![(s("registry_backend"), s("R")), (s("queue_backend"), s("Q")), (s("logging_backend"), s("L"))]
    );
}

#[test]
fn placement_lists_match_records() {
    let (mut reg, _d, _t1, n1) = orders_setup();
    let a = reg.agent_subscribe(&s("orders"), s("cb"), s("A"), 5).unwrap();
    let b = reg.agent_subscribe(&s("orders"), s("cb"), s("B"), 6).unwrap();
    reg.agent_unsubscribe(&a).unwrap();
    assert_eq!(reg.namespace(&n1).unwrap().subscribers, vec![b.clone()]);
    let placed: Vec<String> =
        reg.subscribers().iter().filter(|x| x.namespace == n1).map(|x| x.id.clone()).collect();
    assert_eq!(placed, vec![b]);
}

#[test]
fn cycles_tracking_keeps_highest_reference() {
    assert_eq!(track_cycles_used(0, 100), (100, 0));
    assert_eq!(track_cycles_used(100, 70), (100, 30));
    assert_eq!(track_cycles_used(100, 150), (150, 0));
}

#[test]
fn cache_freshness_follows_ttl() {
    let (mut reg, mut d, _t1, _n1) = orders_setup();
    assert!(d.cache_needs_refresh(&s("orders"), 0));
    reg.agent_subscribe(&s("orders"), s("cb"), s("SUB-1"), 5).unwrap();
    refresh(&reg, &mut d, 1_000);
    assert!(!d.cache_needs_refresh(&s("orders"), 1_000 + CACHE_TTL_NS - 1));
    assert!(d.cache_needs_refresh(&s("orders"), 1_000 + CACHE_TTL_NS));
    assert!(!d.cache_needs_refresh(&s("orders"), 10));
}
