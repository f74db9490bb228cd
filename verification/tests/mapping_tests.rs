use mqtt_relay::config::{auto_load, Config, Mqtt};
use mqtt_relay::evaluate::FixedEvaluator;
use mqtt_relay::mappings::load::{DirScan, ScanEntry};
use mqtt_relay::mappings::mapping::{Mapping, MappingMessage};
use mqtt_relay::mappings::MappingConfig;
use mqtt_relay::yaml::{parse_yaml_document, YamlNode};

fn entry(rel_path: &str, content: &str) -> ScanEntry {
    ScanEntry {
        rel_path: rel_path.to_string(),
        content: Some(content.to_string()),
    }
}

fn unreadable(rel_path: &str) -> ScanEntry {
    ScanEntry {
        rel_path: rel_path.to_string(),
        content: None,
    }
}

const GOOD_RULE: &str = "conditions:\n  isHigh: expr\nmessages:\n  - topic: out\n    message: hi\n";

#[test]
fn load_counts_mixed_files() {
    let mut config = MappingConfig::create("./mappings".to_string());
    let skipped = config.reload(DirScan::Found(vec![
        entry("a.yaml", GOOD_RULE),
        entry("bad.yaml", "{ unclosed"),
        entry("b/c.yaml", GOOD_RULE),
        unreadable("d.yaml"),
        entry("ignored.txt", "not a rule"),
    ]));
    assert_eq!(skipped, 2);
    let topics = config.get_topics();
    assert_eq!(topics.len(), 2);
    assert_eq!(topics[0], "a");
    assert_eq!(topics[1], "b/c");
}

#[test]
fn load_order_does_not_change_counts() {
    let mut config = MappingConfig::create("./mappings".to_string());
    let skipped = config.reload(DirScan::Found(vec![
        entry("bad.yaml", "[ unclosed"),
        unreadable("worse.yaml"),
        entry("a.yaml", GOOD_RULE),
    ]));
    assert_eq!(skipped, 2);
    assert_eq!(config.get_topics().len(), 1);
}

#[test]
fn empty_document_is_skipped() {
    let mut config = MappingConfig::create("./mappings".to_string());
    let skipped = config.reload(DirScan::Found(vec![entry("empty.yaml", "")]));
    assert_eq!(skipped, 1);
    assert_eq!(config.get_topics().len(), 0);
}

#[test]
fn nested_path_yields_topic_key() {
    let mut config = MappingConfig::create("./mappings".to_string());
    let skipped = config.reload(DirScan::Found(vec![entry("a/b/c.yaml", GOOD_RULE)]));
    assert_eq!(skipped, 0);
    let rule = config.get_mapping(&"a/b/c".to_string());
    assert!(rule.is_some());
    assert!(config.get_mapping(&"a/b/c.yaml".to_string()).is_none());
}

#[test]
fn leading_separator_is_stripped() {
    let mut config = MappingConfig::create("./mappings".to_string());
    config.reload(DirScan::Found(vec![entry("/a/b.yaml", GOOD_RULE)]));
    assert!(config.get_mapping(&"a/b".to_string()).is_some());
}

#[test]
fn missing_root_yields_empty_table() {
    let mut config = MappingConfig::create("./mappings".to_string());
    config.reload(DirScan::Found(vec![entry("a.yaml", GOOD_RULE)]));
    let skipped = config.reload(DirScan::Missing);
    assert_eq!(skipped, 0);
    assert_eq!(config.get_topics().len(), 0);
    assert!(config.get_mapping(&"a".to_string()).is_none());
}

#[test]
fn rule_document_parses_fields() {
    let doc = parse_yaml_document(
        "conditions:\n  isHigh: .temp > 30\nmessages:\n  - condition: isHigh\n    topic: t1\n    message: m1\n  - topic: t2\n    message: m2\n",
    )
    .expect("document expected");
    let rule = Mapping::from_yaml(&doc).expect("rules never fail to build");
    assert_eq!(rule.conditions.len(), 1);
    assert_eq!(rule.conditions[0].0, "isHigh");
    assert_eq!(rule.conditions[0].1, ".temp > 30");
    assert_eq!(rule.messages.len(), 2);
    assert_eq!(rule.messages[0].condition.as_deref(), Some("isHigh"));
    assert_eq!(rule.messages[0].topic, "t1");
    assert_eq!(rule.messages[0].message, "m1");
    assert_eq!(rule.messages[1].condition, None);
    assert_eq!(rule.messages[1].topic, "t2");
    assert_eq!(rule.messages[1].message, "m2");
}

#[test]
fn parse_yaml_document_rejects_garbage() {
    assert!(parse_yaml_document("{ unclosed").is_none());
    assert!(parse_yaml_document("").is_none());
    match parse_yaml_document("a: b") {
        Some(YamlNode::Assoc(pairs)) => {
            assert_eq!(pairs.len(), 1);
            match &pairs[0] {
                (YamlNode::Text(k), YamlNode::Text(v)) => {
                    assert_eq!(k, "a");
                    assert_eq!(v, "b");
                }
                _ => panic!("expected text pair"),
            }
        }
        _ => panic!("expected a mapping document"),
    }
}

#[test]
fn message_without_topic_is_dropped() {
    let doc = parse_yaml_document("messages:\n  - message: m1\n  - topic: t2\n    message: m2\n")
        .expect("document expected");
    let rule = Mapping::from_yaml(&doc).expect("rules never fail to build");
    assert_eq!(rule.messages.len(), 1);
    assert_eq!(rule.messages[0].topic, "t2");
}

#[test]
fn message_from_yaml_requires_topic_and_message() {
    let doc = parse_yaml_document("topic: t\n").expect("document expected");
    assert!(MappingMessage::from_yaml(&doc).is_none());
    let doc = parse_yaml_document("topic: t\nmessage: m\n").expect("document expected");
    let msg = MappingMessage::from_yaml(&doc).expect("complete template");
    assert_eq!(msg.topic, "t");
    assert_eq!(msg.message, "m");
    assert_eq!(msg.condition, None);
}

#[test]
fn conditional_and_unconditional_order() {
    let rule = Mapping {
        conditions: vec![("isHigh".to_string(), "expr".to_string())],
        messages: vec![
            MappingMessage {
                condition: Some("isHigh".to_string()),
                topic: "t1".to_string(),
                message: "m1".to_string(),
            },
            MappingMessage {
                condition: None,
                topic: "t2".to_string(),
                message: "m2".to_string(),
            },
        ],
    };
    let matched = rule.matching_messages(b"payload", &FixedEvaluator { verdict: true });
    assert_eq!(matched.len(), 2);
    assert_eq!(matched[0].message, "m1");
    assert_eq!(matched[1].message, "m2");
    let matched = rule.matching_messages(b"payload", &FixedEvaluator { verdict: false });
    assert_eq!(matched.len(), 1);
    assert_eq!(matched[0].message, "m2");
}

#[test]
fn unknown_condition_reference_never_matches() {
    let rule = Mapping {
        conditions: vec![("present".to_string(), "expr".to_string())],
        messages: vec![MappingMessage {
            condition: Some("missing".to_string()),
            topic: "t".to_string(),
            message: "m".to_string(),
        }],
    };
    for payload in [&b"1"[..], b"", b"\xff\xfe", b"anything at all"] {
        assert!(rule.matching_messages(payload, &FixedEvaluator { verdict: true }).is_empty());
        assert!(rule.matching_messages(payload, &FixedEvaluator { verdict: false }).is_empty());
    }
}

#[test]
fn config_defaults() {
    let config = auto_load(None);
    assert_eq!(config.mappings_dir, "./mappings");
    assert_eq!(config.mqtt.id, "mqtt-relay");
    assert_eq!(config.mqtt.host, "localhost");
    assert_eq!(config.mqtt.port, 1883);
    assert_eq!(config.mqtt.keep_alive_intervall_seconds, 60);
    assert_eq!(config.mqtt.capacity, 10);
    assert!(config.mqtt.user.is_none());
    assert!(config.mqtt.password.is_none());
}

#[test]
fn config_auto_load_keeps_loaded_values() {
    let loaded = Config {
        mappings_dir: "/etc/relay/rules".to_string(),
        mqtt: Mqtt {
            id: "probe".to_string(),
            host: "broker.example".to_string(),
            port: 8883,
            keep_alive_intervall_seconds: 30,
            capacity: 4,
            user: Some("u".to_string()),
            password: Some("pw".to_string()),
        },
    };
    let config = Config::auto_load(Some(loaded));
    assert_eq!(config.mappings_dir, "/etc/relay/rules");
    assert_eq!(config.mqtt.host, "broker.example");
    assert_eq!(config.mqtt.port, 8883);
}
