use std::sync::Arc;

use ros_rerun::config::{Api, Config, DBConfig, StreamConfig, TopicSource};
use ros_rerun::converter::{Converter, ConverterSettings, StdStringToTextDocument};
use ros_rerun::message::{Components, FieldValue, LogPacket, MessageField, MessageView};
use ros_rerun::registry::{registration_list, ConverterRegistry};
use ros_rerun::names::ROSTypeName;
use ros_rerun::runtime::{
    apply_outcome, deliver, flatten, source_converter, step, unit_for, ArchetypeSender, LogComponents, LogData, SinkAction, SinkEvent, SinkState,
};
use ros_rerun::topology::{parse_topology_config, ComponentID, TopologyConfigError};
use tokio::sync::mpsc::unbounded_channel;

fn fan_out_config() -> Config {
    Config {
        api: Api::default(),
        topics: vec![(
            "a".to_string(),
            TopicSource {
                topic: "t".into(),
                ros_type: None,
                archetype: "TextDocument".into(),
                converter: ConverterSettings::new(),
            },
        )],
        streams: vec![
            ("s1".to_string(), StreamConfig { inputs: vec!["a".into()], url: "u1".into() }),
            ("s2".to_string(), StreamConfig { inputs: vec!["a".into()], url: "u2".into() }),
        ],
        db: DBConfig::new(),
        config_paths: vec![],
    }
}

fn registry() -> ConverterRegistry {
    let mut r = ConverterRegistry::init();
    for proto in registration_list() {
        let outcome = r.lookup_needed(&proto).map(|t| Ok(ROSTypeName::new(t.package, t.name)));
        r.register(&proto, outcome);
    }
    r
}

fn message(text: &str) -> MessageView {
    MessageView { fields: vec![MessageField { name: "data".into(), value: FieldValue::Text(text.into()) }] }
}

fn text_of(d: LogData) -> String {
    match d {
        LogData::Archetype(c) => match &c.packet.components {
            Components::TextDocument(t) => t.clone(),
            other => panic!("unexpected {:?}", other),
        },
        other => panic!("unexpected {:?}", other),
    }
}

#[test]
fn one_message_reaches_each_sink_once() {
    let t = parse_topology_config(fan_out_config()).expect("compiles");
    let plan = t.subscription_plan();
    assert_eq!(plan, vec![vec![0usize, 1]]);
    let mut txs = Vec::new();
    let mut rxs = Vec::new();
    for _ in t.edges() {
        let (tx, rx) = unbounded_channel();
        txs.push(tx);
        rxs.push(rx);
    }
    let sender = ArchetypeSender { tx: plan[0].iter().map(|&j| txs[j].clone()).collect() };
    let registry = registry();
    let conv = source_converter(&registry, &t.topic_subscriptions()[0].1, None).expect("builds");
    let (packet, outcomes) = deliver(&conv, &Arc::new("t".to_string()), &message("hi"), &sender).expect("converts");
    assert!(matches!(&packet.components, Components::TextDocument(t) if t == "hi"));
    assert_eq!(outcomes.iter().map(|o| o.is_ok()).collect::<Vec<_>>(), vec![true, true]);
    for rx in rxs.iter_mut().take(2) {
        assert_eq!(text_of(rx.try_recv().expect("one packet")), "hi");
        assert!(rx.try_recv().is_err());
    }
    assert!(rxs[2].try_recv().is_err());
}

#[test]
fn dead_sink_does_not_stop_the_others() {
    let (tx1, rx1) = unbounded_channel();
    let (tx2, mut rx2) = unbounded_channel();
    drop(rx1);
    let sender = ArchetypeSender { tx: vec![tx1, tx2] };
    let conv = Converter::StdStringToTextDocument(StdStringToTextDocument {});
    let (_, outcomes) = deliver(&conv, &Arc::new("t".to_string()), &message("x"), &sender).expect("converts");
    assert_eq!(outcomes.len(), 2);
    match &outcomes[0] {
        Err(LogData::Archetype(unit)) => assert_eq!(unit.entity_path.as_str(), "t"),
        other => panic!("expected the unit back, got {:?}", other),
    }
    assert!(outcomes[1].is_ok());
    let received = rx2.try_recv().expect("delivered");
    if let LogData::Archetype(unit) = &received {
        assert_eq!(unit.entity_path.as_str(), "t");
    }
    assert_eq!(text_of(received), "x");
}

#[test]
fn failed_conversion_sends_nothing() {
    let (tx, mut rx) = unbounded_channel();
    let sender = ArchetypeSender { tx: vec![tx] };
    let conv = Converter::StdStringToTextDocument(StdStringToTextDocument {});
    let empty = MessageView { fields: vec![] };
    assert!(deliver(&conv, &Arc::new("t".to_string()), &empty, &sender).is_err());
    assert!(rx.try_recv().is_err());
}

fn unit(text: &str) -> LogComponents {
    LogComponents { entity_path: Arc::new("e".into()), packet: Arc::new(LogPacket::text(text.into())) }
}

#[test]
fn batches_are_taken_apart() {
    let v = flatten(LogData::ArchetypeArray(vec![unit("a"), unit("b")]));
    assert_eq!(v.len(), 2);
    assert_eq!(flatten(LogData::AnyComponents(unit("c"))).len(), 1);
    assert_eq!(flatten(LogData::AnyComponentsArray(vec![])).len(), 0);
}

#[test]
fn shutdown_stops_the_sink() {
    let (s, a) = step(SinkState::Starting, SinkEvent::Started);
    assert_eq!(s, SinkState::Running);
    assert!(matches!(a, SinkAction::Wait));
    let (s, a) = step(s, SinkEvent::Packet(LogData::Archetype(unit("before"))));
    assert_eq!(s, SinkState::Running);
    match a {
        SinkAction::Send(v) => assert_eq!(v.len(), 1),
        other => panic!("unexpected {:?}", other),
    }
    let (s, a) = step(s, SinkEvent::Shutdown);
    assert_eq!(s, SinkState::ShuttingDown);
    assert!(matches!(a, SinkAction::Flush));
    let (s, a) = step(s, SinkEvent::Packet(LogData::Archetype(unit("after"))));
    assert_eq!(s, SinkState::ShuttingDown);
    assert!(matches!(a, SinkAction::Wait));
    let (s, a) = step(s, SinkEvent::Flushed);
    assert_eq!(s, SinkState::Stopped);
    assert!(matches!(a, SinkAction::Exit));
}

#[test]
fn every_channel_shares_one_packet() {
    let (tx1, mut rx1) = unbounded_channel();
    let (tx2, mut rx2) = unbounded_channel();
    let sender = ArchetypeSender { tx: vec![tx1, tx2] };
    let packet = Arc::new(LogPacket::text("shared".into()));
    let outcomes = sender.fan_out(&Arc::new("/chatter".to_string()), &packet);
    assert!(outcomes.iter().all(|o| o.is_ok()));
    for rx in [&mut rx1, &mut rx2] {
        match rx.try_recv().expect("one unit") {
            LogData::Archetype(unit) => {
                assert!(Arc::ptr_eq(&unit.packet, &packet));
                assert_eq!(unit.entity_path.as_str(), "/chatter");
            }
            other => panic!("unexpected {:?}", other),
        }
    }
    match unit_for(&Arc::new("e".to_string()), &packet) {
        LogData::Archetype(unit) => assert!(Arc::ptr_eq(&unit.packet, &packet)),
        other => panic!("unexpected {:?}", other),
    }
}

#[test]
fn applying_is_all_or_nothing() {
    let t = parse_topology_config(fan_out_config()).expect("compiles");
    let order = t.startup_order();
    assert_eq!(order.len(), 4);
    assert!(matches!(&order[0], ComponentID::TopicSubscriber(n) if n == "a"));
    assert!(matches!(&order[1], ComponentID::GRPCSink(n) if n == "s1"));
    assert!(matches!(&order[2], ComponentID::GRPCSink(n) if n == "s2"));
    assert!(matches!(order[3], ComponentID::DBSink));
    assert!(apply_outcome(&order, &vec![true, true, true, true]).is_ok());
    match apply_outcome(&order, &vec![true, false]) {
        Err(TopologyConfigError::InitializationError(ComponentID::GRPCSink(n))) => assert_eq!(n, "s1"),
        other => panic!("unexpected {:?}", other),
    }
    match apply_outcome(&order, &vec![true, true, true]) {
        Err(TopologyConfigError::InitializationError(ComponentID::DBSink)) => {}
        other => panic!("unexpected {:?}", other),
    }
}
