use mqtt_relay::evaluate::{
    output_signals_match, payload_text, EngineEvaluator, Evaluator, ExpressionEngine,
    ThresholdEvaluator,
};
use mqtt_relay::mappings::load::{DirScan, ScanEntry};
use mqtt_relay::mappings::MappingConfig;
use mqtt_relay::relay::reload::{
    tick_is_stale, ReloadDecision, ReloadSupervisor, RetryPolicy,
};
use mqtt_relay::relay::{
    BrokerAction, EventOutcome, Relay, RelayEvent, TRANSPORT_BACKOFF_MILLIS,
};

fn over_thirty() -> ThresholdEvaluator {
    ThresholdEvaluator { threshold: 30 }
}

fn entry(rel_path: &str, content: &str) -> ScanEntry {
    ScanEntry {
        rel_path: rel_path.to_string(),
        content: Some(content.to_string()),
    }
}

const TEMP_RULE: &str = "conditions:\n  over: '. > 30'\nmessages:\n  - condition: over\n    topic: alerts/temp\n    message: HOT\n";

fn incoming(topic: &str, payload: &[u8]) -> RelayEvent {
    RelayEvent::IncomingPublish {
        topic: topic.to_string(),
        payload: payload.to_vec(),
    }
}

#[test]
fn end_to_end_hot_alert() {
    let mut relay = Relay::new(MappingConfig::create("./mappings".to_string()));
    let (actions, skipped) =
        relay.apply_reload(DirScan::Found(vec![entry("sensors/temp.yaml", TEMP_RULE)]));
    assert_eq!(skipped, 0);
    assert_eq!(actions.len(), 2);
    assert!(matches!(actions[0], BrokerAction::UnsubscribeAll));
    match &actions[1] {
        BrokerAction::Subscribe { topic } => assert_eq!(topic, "sensors/temp"),
        _ => panic!("expected a subscription"),
    }

    match relay.handle_event(&incoming("sensors/temp", b"35"), &over_thirty()) {
        EventOutcome::Publishes(cmds) => {
            assert_eq!(cmds.len(), 1);
            assert_eq!(cmds[0].topic, "alerts/temp");
            assert_eq!(cmds[0].payload, "HOT");
        }
        _ => panic!("expected a publish"),
    }

    match relay.handle_event(&incoming("sensors/temp", b"20"), &over_thirty()) {
        EventOutcome::Publishes(cmds) => assert!(cmds.is_empty()),
        _ => panic!("expected an empty publish set"),
    }
}

#[test]
fn round_trip_after_reload() {
    let mut relay = Relay::new(MappingConfig::create("./mappings".to_string()));
    relay.apply_reload(DirScan::Found(vec![entry(
        "a/b/c.yaml",
        "messages:\n  - topic: out\n    message: seen\n",
    )]));
    match relay.handle_event(&incoming("a/b/c", b"x"), &over_thirty()) {
        EventOutcome::Publishes(cmds) => {
            assert_eq!(cmds.len(), 1);
            assert_eq!(cmds[0].topic, "out");
            assert_eq!(cmds[0].payload, "seen");
        }
        _ => panic!("expected a publish"),
    }
}

#[test]
fn deleted_directory_empties_table() {
    let mut relay = Relay::new(MappingConfig::create("./mappings".to_string()));
    relay.apply_reload(DirScan::Found(vec![entry("sensors/temp.yaml", TEMP_RULE)]));
    let (actions, skipped) = relay.apply_reload(DirScan::Missing);
    assert_eq!(skipped, 0);
    assert_eq!(actions.len(), 1);
    assert!(matches!(actions[0], BrokerAction::UnsubscribeAll));
    match relay.handle_event(&incoming("sensors/temp", b"35"), &over_thirty()) {
        EventOutcome::NoMapping => {}
        _ => panic!("an emptied table must resolve nothing"),
    }
}

#[test]
fn unmapped_topic_is_dropped() {
    let relay = Relay::new(MappingConfig::create("./mappings".to_string()));
    match relay.handle_event(&incoming("nowhere", b"x"), &over_thirty()) {
        EventOutcome::NoMapping => {}
        _ => panic!("expected no mapping"),
    }
}

#[test]
fn transport_error_backs_off() {
    let relay = Relay::new(MappingConfig::create("./mappings".to_string()));
    match relay.handle_event(&RelayEvent::TransportError, &over_thirty()) {
        EventOutcome::Backoff { millis } => assert_eq!(millis, TRANSPORT_BACKOFF_MILLIS),
        _ => panic!("expected a backoff"),
    }
    match relay.handle_event(&RelayEvent::OtherIncoming, &over_thirty()) {
        EventOutcome::Ignored => {}
        _ => panic!("expected the event to be ignored"),
    }
}

#[test]
fn reload_contention_retries_up_to_bound() {
    let mut supervisor = ReloadSupervisor::new(RetryPolicy::default());
    let mut retries: u32 = 0;
    let mut gave_up = false;
    while supervisor.can_try() {
        match supervisor.on_contention() {
            ReloadDecision::RetryAfter { delay_millis } => {
                assert_eq!(delay_millis, 200);
                retries += 1;
            }
            ReloadDecision::GiveUp => {
                gave_up = true;
            }
        }
    }
    assert_eq!(retries, 9);
    assert!(gave_up);
    assert_eq!(supervisor.attempts_used, 10);
}

#[test]
fn stale_ticks_are_discarded() {
    assert!(tick_is_stale(5, 10));
    assert!(!tick_is_stale(10, 10));
    assert!(!tick_is_stale(11, 10));
}

#[test]
fn payload_text_decodes_utf8_only() {
    assert_eq!(payload_text(b"35").as_deref(), Some("35"));
    assert_eq!(payload_text("grad\u{00e9}".as_bytes()).as_deref(), Some("grad\u{00e9}"));
    assert!(payload_text(b"\xff\xfe").is_none());
    assert_eq!(payload_text(b"").as_deref(), Some(""));
}

/// An engine that echoes a canned output, whatever it is asked.
struct CannedEngine {
    output: Option<&'static str>,
}

impl ExpressionEngine for CannedEngine {
    fn run(&self, _expr: &str, _input: &str) -> Option<String> {
        self.output.map(|out| out.to_string())
    }
}

#[test]
fn engine_evaluator_is_fail_closed() {
    let affirms = EngineEvaluator { engine: CannedEngine { output: Some("true\n") } };
    assert!(affirms.evaluate(".", b"35"));
    // An undecodable payload never reaches the engine: false even though the
    // engine would affirm.
    assert!(!affirms.evaluate(".", b"\xff\xfe"));
    let denies = EngineEvaluator { engine: CannedEngine { output: Some("false\n") } };
    assert!(!denies.evaluate(".", b"35"));
    let fails = EngineEvaluator { engine: CannedEngine { output: None } };
    assert!(!fails.evaluate(".", b"35"));
}

#[test]
fn match_output_is_exact() {
    assert!(output_signals_match(&"true\n".to_string()));
    assert!(!output_signals_match(&"true".to_string()));
    assert!(!output_signals_match(&"false\n".to_string()));
    assert!(!output_signals_match(&"TRUE\n".to_string()));
}
