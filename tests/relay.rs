use mqtt_zenoh_relay::broker::{subscribe_requests, Qos, RELAY_QOS};
use mqtt_zenoh_relay::cache::PublisherTable;
use mqtt_zenoh_relay::configuration::{
    default_mqtt_host, default_mqtt_port, default_mqtt_subscription, ZenohConfig, ZenohTopic,
    DEFAULT_MQTT_PORT,
};
use mqtt_zenoh_relay::inbound::{inbound_publish, OverlaySample};
use mqtt_zenoh_relay::outbound::{BrokerEvent, OutboundAction, OutboundRelay, PayloadEncoding};
use mqtt_zenoh_relay::supervisor::{supervise, LoopExit, Supervision};
use mqtt_zenoh_relay::topic::{to_broker_topic, to_overlay_address};

fn s(v: &str) -> String {
    v.to_string()
}

#[test]
fn overlay_address_with_prefix() {
    assert_eq!(to_overlay_address("a/b", &Some(s("pfx"))), "pfx/a/b");
}

#[test]
fn overlay_address_without_prefix() {
    assert_eq!(to_overlay_address("a/b", &None), "a/b");
}

#[test]
fn overlay_address_is_deterministic() {
    let p = Some(s("pfx"));
    assert_eq!(to_overlay_address("x/y", &p), to_overlay_address("x/y", &p));
}

#[test]
fn overlay_address_empty_topic_and_prefix() {
    assert_eq!(to_overlay_address("", &Some(s(""))), "/");
    assert_eq!(to_overlay_address("", &None), "");
}

#[test]
fn broker_topic_is_key_expression() {
    assert_eq!(to_broker_topic("sensors/temp"), "sensors/temp");
}

#[test]
fn inbound_topic_is_not_prefix_stripped() {
    let relayed = ZenohTopic { name: s("house1/**"), retained: false };
    let sample = OverlaySample { key_expr: s("house1/sensors/temp"), payload: vec![7] };
    let p = inbound_publish(sample, &relayed);
    assert_eq!(p.topic, "house1/sensors/temp");
}

#[test]
fn inbound_sample_without_prefix() {
    let relayed = ZenohTopic { name: s("sensors/*"), retained: false };
    let sample = OverlaySample { key_expr: s("sensors/temp"), payload: b"x".to_vec() };
    let p = inbound_publish(sample, &relayed);
    assert_eq!(p.topic, "sensors/temp");
    assert!(!p.retain);
}

#[test]
fn inbound_retained_scenario() {
    let relayed = ZenohTopic { name: s("temp/#"), retained: true };
    let sample = OverlaySample { key_expr: s("temp/kitchen"), payload: b"21.5".to_vec() };
    let p = inbound_publish(sample, &relayed);
    assert_eq!(p.topic, "temp/kitchen");
    assert_eq!(p.qos, Qos::AtMostOnce);
    assert!(p.retain);
    assert_eq!(p.payload, b"21.5".to_vec());
}

#[test]
fn outbound_prefixed_scenario() {
    let relay = OutboundRelay::new(Some(s("house1")), vec![s("#")]);
    let a = relay.step(BrokerEvent::Publish { topic: s("lights/on"), payload: b"1".to_vec() });
    match a {
        OutboundAction::Forward(put) => {
            assert_eq!(put.address, "house1/lights/on");
            assert_eq!(put.payload, b"1".to_vec());
            assert_eq!(put.encoding, PayloadEncoding::TextPlain);
        }
        _ => panic!("expected a forward"),
    }
}

#[test]
fn outbound_without_prefix() {
    let relay = OutboundRelay::new(None, vec![]);
    match relay.step(BrokerEvent::Publish { topic: s("a/b"), payload: vec![1, 2] }) {
        OutboundAction::Forward(put) => {
            assert_eq!(put.address, "a/b");
            assert_eq!(put.payload, vec![1, 2]);
        }
        _ => panic!("expected a forward"),
    }
}

#[test]
fn connack_resubscribes_each_once() {
    let relay = OutboundRelay::new(None, vec![s("a/#"), s("b"), s("c/+")]);
    match relay.step(BrokerEvent::ConnAck) {
        OutboundAction::Resubscribe(v) => {
            let topics: Vec<String> = v.iter().map(|r| r.topic.clone()).collect();
            assert_eq!(topics, vec![s("a/#"), s("b"), s("c/+")]);
            assert!(v.iter().all(|r| r.qos == Qos::AtMostOnce));
        }
        _ => panic!("expected a resubscription"),
    }
}

#[test]
fn connack_without_subscriptions() {
    let relay = OutboundRelay::new(None, vec![]);
    match relay.step(BrokerEvent::ConnAck) {
        OutboundAction::Resubscribe(v) => assert!(v.is_empty()),
        _ => panic!("expected a resubscription"),
    }
}

#[test]
fn disconnect_shuts_down() {
    let relay = OutboundRelay::new(None, vec![s("#")]);
    assert!(matches!(relay.step(BrokerEvent::Disconnect), OutboundAction::Shutdown));
}

#[test]
fn transport_error_is_reported() {
    let relay = OutboundRelay::new(None, vec![]);
    match relay.step(BrokerEvent::TransportError { detail: s("io") }) {
        OutboundAction::Report(d) => assert_eq!(d, "io"),
        _ => panic!("expected a report"),
    }
}

#[test]
fn other_events_are_ignored() {
    let relay = OutboundRelay::new(None, vec![]);
    assert!(matches!(relay.step(BrokerEvent::Other), OutboundAction::Continue));
}

#[test]
fn forwarding_keeps_order() {
    let relay = OutboundRelay::new(Some(s("p")), vec![s("#")]);
    let events = vec![
        BrokerEvent::Publish { topic: s("t"), payload: vec![1] },
        BrokerEvent::ConnAck,
        BrokerEvent::Publish { topic: s("t"), payload: vec![2] },
        BrokerEvent::Other,
        BrokerEvent::Publish { topic: s("u"), payload: vec![3] },
    ];
    let mut puts = Vec::new();
    for e in events {
        if let OutboundAction::Forward(p) = relay.step(e) {
            puts.push((p.address, p.payload));
        }
    }
    assert_eq!(
        puts,
        vec![(s("p/t"), vec![1]), (s("p/t"), vec![2]), (s("p/u"), vec![3])]
    );
}

#[test]
fn table_creates_one_handle_per_address() {
    let mut table: PublisherTable<u32> = PublisherTable::new();
    let addr = s("house1/lights/on");
    let mut created = 0;
    for n in 0..5u32 {
        if table.get(&addr).is_none() {
            created += 1;
            assert!(table.insert(addr.clone(), n));
        }
    }
    assert_eq!(created, 1);
    assert_eq!(table.len(), 1);
    assert_eq!(table.get(&addr), Some(&0));
}

#[test]
fn table_keeps_first_handle() {
    let mut table: PublisherTable<u32> = PublisherTable::new();
    assert!(table.insert(s("a"), 1));
    assert!(!table.insert(s("a"), 2));
    assert!(table.insert(s("b"), 3));
    assert_eq!(table.len(), 2);
    assert_eq!(table.get(&s("a")), Some(&1));
    assert_eq!(table.get(&s("b")), Some(&3));
    assert_eq!(table.get(&s("c")), None);
    let i = table.find(&s("b")).unwrap();
    assert_eq!(*table.handle(i), 3);
}

#[test]
fn empty_table() {
    let table: PublisherTable<u32> = PublisherTable::new();
    assert_eq!(table.len(), 0);
    assert_eq!(table.find(&s("x")), None);
}

#[test]
fn supervisor_restarts_after_failure() {
    assert_eq!(supervise(&LoopExit::Failed(s("publish failed"))), Supervision::Restart);
}

#[test]
fn supervisor_stops_on_clean_exit() {
    assert_eq!(supervise(&LoopExit::Clean), Supervision::Stop);
}

#[test]
fn relay_goes_on_after_failure() {
    let relayed = ZenohTopic { name: s("k/*"), retained: false };
    let samples = vec![(s("k/1"), vec![1u8], true), (s("k/2"), vec![2u8], false)];
    let mut published = Vec::new();
    for (key, payload, fails) in samples {
        if fails {
            assert_eq!(supervise(&LoopExit::Failed(s("publish failed"))), Supervision::Restart);
            continue;
        }
        let p = inbound_publish(OverlaySample { key_expr: key, payload }, &relayed);
        published.push(p.topic);
    }
    assert_eq!(published, vec![s("k/2")]);
}

#[test]
fn subscribe_requests_in_order() {
    let r = subscribe_requests(&vec![s("x"), s("y")]);
    assert_eq!(r.len(), 2);
    assert_eq!(r[0].topic, "x");
    assert_eq!(r[1].topic, "y");
    assert_eq!(r[1].qos, RELAY_QOS);
}

#[test]
fn configuration_defaults() {
    assert_eq!(default_mqtt_port(), 1883);
    assert_eq!(DEFAULT_MQTT_PORT, 1883);
    assert_eq!(default_mqtt_host(), "localhost");
    assert_eq!(default_mqtt_subscription(), vec![s("#")]);
}

fn zenoh_config(connect: Vec<String>, listen: Vec<String>, disable: bool) -> ZenohConfig {
    ZenohConfig {
        connect,
        listen,
        config_file_path: None,
        disable_multicast_scouting: disable,
        relayed_topics: vec![],
    }
}

#[test]
fn overrides_leave_defaults_alone() {
    let o = zenoh_config(vec![], vec![], false).overrides();
    assert_eq!(o.connect, None);
    assert_eq!(o.listen, None);
    assert_eq!(o.multicast_scouting, None);
}

#[test]
fn overrides_replace_endpoints_and_disable_scouting() {
    let o = zenoh_config(vec![s("tcp/10.0.0.1:7447")], vec![s("tcp/0.0.0.0:7447"), s("udp/0.0.0.0:7447")], true)
        .overrides();
    assert_eq!(o.connect, Some(vec![s("tcp/10.0.0.1:7447")]));
    assert_eq!(o.listen, Some(vec![s("tcp/0.0.0.0:7447"), s("udp/0.0.0.0:7447")]));
    assert_eq!(o.multicast_scouting, Some(false));
}
