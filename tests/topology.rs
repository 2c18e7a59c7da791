use ros_rerun::config::{Api, Config, DBConfig, StreamConfig, TopicSource};
use ros_rerun::converter::ConverterSettings;
use ros_rerun::topology::{parse_topology_config, ComponentID, TopologyConfigError};

fn topic(topic: &str, ros_type: Option<&str>, archetype: &str) -> TopicSource {
    TopicSource {
        topic: topic.to_string(),
        ros_type: ros_type.map(|t| t.to_string()),
        archetype: archetype.to_string(),
        converter: ConverterSettings::new(),
    }
}

fn stream(url: &str, inputs: &[&str]) -> StreamConfig {
    StreamConfig { inputs: inputs.iter().map(|s| s.to_string()).collect(), url: url.to_string() }
}

fn config(topics: Vec<(&str, TopicSource)>, streams: Vec<(&str, StreamConfig)>) -> Config {
    Config {
        api: Api::default(),
        topics: topics.into_iter().map(|(n, t)| (n.to_string(), t)).collect(),
        streams: streams.into_iter().map(|(n, s)| (n.to_string(), s)).collect(),
        db: DBConfig::new(),
        config_paths: vec![],
    }
}

#[test]
fn topology_default_topology() {
    let cfg = Config::new();
    let topology = parse_topology_config(cfg);
    assert!(topology.is_ok());
}

#[test]
fn valid_topology() {
    let cfg = config(
        vec![("comp1", topic("example_topic", Some("std_msgs/String"), "TextLog"))],
        vec![("stream1", stream("http://localhost:8080", &[]))],
    );
    let topology = parse_topology_config(cfg);
    assert!(topology.is_ok());
}

#[test]
fn topology_invalid_duplicates() {
    let cfg = config(
        vec![("comp1", topic("example_topic", Some("std_msgs/String"), "TextLog"))],
        vec![("comp1", stream("http://localhost:8080", &[]))],
    );
    let topology = parse_topology_config(cfg);
    assert!(topology.is_err());
}

#[test]
fn topology_invalid_self_referencing() {
    let cfg = config(
        vec![("comp1", topic("example_topic", Some("std_msgs/String"), "TextLog"))],
        vec![
            ("stream1", stream("http://localhost:8080", &["stream1", "comp1"])),
            ("stream2", stream("http://localhost:8080", &["stream1", "comp1"])),
        ],
    );
    let topology = parse_topology_config(cfg);
    assert!(topology.is_err());
}

#[test]
fn topic_and_stream_sharing_a_name_is_a_duplicate() {
    let cfg = config(
        vec![("a", topic("t", None, "TextDocument"))],
        vec![("a", stream("http://localhost:8080", &[]))],
    );
    match parse_topology_config(cfg) {
        Err(TopologyConfigError::DuplicateID(name)) => assert_eq!(name, "a"),
        other => panic!("expected a duplicate, got {:?}", other),
    }
}

#[test]
fn duplicate_is_reported_before_self_reference() {
    let cfg = config(
        vec![("a", topic("t", None, "TextDocument"))],
        vec![("a", stream("u", &[])), ("s1", stream("u", &["s1"]))],
    );
    match parse_topology_config(cfg) {
        Err(TopologyConfigError::DuplicateID(name)) => assert_eq!(name, "a"),
        other => panic!("expected a duplicate, got {:?}", other),
    }
}

#[test]
fn stream_naming_itself_is_a_self_reference() {
    let cfg = config(vec![("a", topic("t", None, "TextDocument"))], vec![("s1", stream("u", &["s1"]))]);
    match parse_topology_config(cfg) {
        Err(TopologyConfigError::SelfReference(ComponentID::GRPCSink(name))) => assert_eq!(name, "s1"),
        other => panic!("expected a self reference, got {:?}", other),
    }
}

#[test]
fn stream_naming_another_stream_is_rejected() {
    let cfg = config(
        vec![("a", topic("t", None, "TextDocument"))],
        vec![("s1", stream("u", &["a"])), ("s2", stream("u", &["a", "s1"]))],
    );
    match parse_topology_config(cfg) {
        Err(TopologyConfigError::SelfReference(ComponentID::GRPCSink(name))) => assert_eq!(name, "s1"),
        other => panic!("expected a self reference, got {:?}", other),
    }
}

#[test]
fn unknown_inputs_are_ignored() {
    let mut cfg = config(
        vec![("a", topic("t", None, "TextDocument"))],
        vec![("s1", stream("u", &["missing", "a", "also_missing"]))],
    );
    cfg.db.inputs = vec!["a".to_string(), "nowhere".to_string()];
    let t = parse_topology_config(cfg).expect("compiles");
    let edges = t.edges();
    assert_eq!(edges.len(), 2);
    match &edges[0].0 {
        ComponentID::GRPCSink(n) => assert_eq!(n, "s1"),
        other => panic!("unexpected sink {:?}", other),
    }
    assert_eq!(edges[0].1.len(), 1);
    match &edges[0].1[0] {
        ComponentID::TopicSubscriber(n) => assert_eq!(n, "a"),
        other => panic!("unexpected source {:?}", other),
    }
    assert!(matches!(edges[1].0, ComponentID::DBSink));
    assert_eq!(edges[1].1.len(), 1);
}

#[test]
fn compiled_names_match_declared_names() {
    let cfg = config(
        vec![("a", topic("t2", None, "TextDocument")), ("b", topic("t1", None, "TextDocument"))],
        vec![("s1", stream("u", &["b"])), ("s2", stream("u", &["a"]))],
    );
    let t = parse_topology_config(cfg).expect("compiles");
    let mut topics = t.topic_names();
    topics.sort();
    assert_eq!(topics, vec!["a".to_string(), "b".to_string()]);
    let mut streams = t.stream_names();
    streams.sort();
    assert_eq!(streams, vec!["s1".to_string(), "s2".to_string()]);
}

#[test]
fn compiled_topology_validates() {
    let cfg = config(vec![("a", topic("t", None, "TextDocument"))], vec![("s1", stream("u", &["a"]))]);
    let t = parse_topology_config(cfg).expect("compiles");
    assert!(t.validate().is_ok());
    assert_eq!(t.grpc_sinks()[0].1.url, "u");
    assert_eq!(t.topic_subscriptions()[0].1.topic, "t");
    assert!(t.db_sink().inputs.is_empty());
}

#[test]
fn component_descriptions() {
    assert_eq!(ComponentID::TopicSubscriber("a".into()).describe(), "topic a");
    assert_eq!(ComponentID::GRPCSink("s".into()).describe(), "stream s");
    assert_eq!(ComponentID::DBSink.describe(), "database");
}

#[test]
fn least_shared_name_is_reported() {
    let cfg = config(
        vec![("a", topic("t1", None, "TextDocument")), ("b", topic("t2", None, "TextDocument"))],
        vec![("a", stream("u", &[])), ("b", stream("u", &[]))],
    );
    match parse_topology_config(cfg) {
        Err(TopologyConfigError::DuplicateID(name)) => assert_eq!(name, "a"),
        other => panic!("expected a duplicate, got {:?}", other),
    }
    let cfg = config(
        vec![("a", topic("t1", None, "TextDocument")), ("c", topic("t2", None, "TextDocument"))],
        vec![("b", stream("u", &[])), ("c", stream("u", &[]))],
    );
    match parse_topology_config(cfg) {
        Err(TopologyConfigError::DuplicateID(name)) => assert_eq!(name, "c"),
        other => panic!("expected a duplicate, got {:?}", other),
    }
}

#[test]
fn validate_accepts_compiled_topologies() {
    let cfg = config(
        vec![("a", topic("t", None, "TextDocument"))],
        vec![("s1", stream("u", &["a"])), ("s2", stream("u", &["a", "missing"]))],
    );
    let t = parse_topology_config(cfg).expect("compiles");
    assert!(t.validate().is_ok());
}
