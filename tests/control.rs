use mqtt_playground::control::{control_payload, control_topic, parse_control, parse_decimal, Configuration, ControlMessage};
use mqtt_playground::coordinator::{Coordinator, CoordinatorStep};

fn text(v: Vec<char>) -> String {
    v.into_iter().collect()
}

#[test]
fn parse_decimal_values() {
    assert_eq!(parse_decimal("0"), Some(0));
    assert_eq!(parse_decimal("+42"), Some(42));
    assert_eq!(parse_decimal("18446744073709551615"), Some(u64::MAX));
    assert_eq!(parse_decimal("18446744073709551616"), None);
    assert_eq!(parse_decimal(""), None);
    assert_eq!(parse_decimal("+"), None);
    assert_eq!(parse_decimal("-1"), None);
    assert_eq!(parse_decimal("1a"), None);
}

#[test]
fn parse_control_topics() {
    assert_eq!(parse_control("request/qos", "2"), ControlMessage::Qos(2));
    assert_eq!(parse_control("request/qos", "3"), ControlMessage::Ignored);
    assert_eq!(parse_control("request/delay", "16"), ControlMessage::Delay(16));
    assert_eq!(parse_control("request/instancecount", "3"), ControlMessage::InstanceCount(3));
    assert_eq!(parse_control("request/instancecount", "x"), ControlMessage::Ignored);
    assert_eq!(parse_control("request/reset", ""), ControlMessage::Reset);
    assert_eq!(parse_control("request/killall", ""), ControlMessage::Killall);
    assert_eq!(parse_control("request/other", "1"), ControlMessage::Ignored);
}

#[test]
fn control_texts() {
    assert_eq!(text(control_topic(ControlMessage::InstanceCount(1))), "request/instancecount");
    assert_eq!(text(control_payload(ControlMessage::Delay(1024))), "1024");
    assert_eq!(text(control_payload(ControlMessage::Reset)), "");
}

const NONE: CoordinatorStep = CoordinatorStep { stop_swarm: false, start: None, terminate: false };

#[test]
fn coordinator_waits_for_all_parameters() {
    let mut c = Coordinator::new();
    assert_eq!(c.on_control(ControlMessage::Reset), NONE);
    assert_eq!(c.on_control(ControlMessage::Qos(1)), NONE);
    assert_eq!(c.on_control(ControlMessage::Delay(2)), NONE);
    let cfg = Configuration { qos: 1, delay_ms: 2, instance_count: 3 };
    assert_eq!(
        c.on_control(ControlMessage::InstanceCount(3)),
        CoordinatorStep { stop_swarm: false, start: Some(cfg), terminate: false }
    );
    assert!(c.swarm_alive);
}

#[test]
fn coordinator_open_and_close_edges() {
    let mut c = Coordinator::new();
    c.on_control(ControlMessage::Delay(0));
    c.on_control(ControlMessage::Qos(0));
    c.on_control(ControlMessage::InstanceCount(1));
    let cfg = Configuration { qos: 0, delay_ms: 0, instance_count: 1 };
    assert_eq!(
        c.on_control(ControlMessage::Reset),
        CoordinatorStep { stop_swarm: false, start: Some(cfg), terminate: false }
    );
    assert_eq!(
        c.on_control(ControlMessage::Reset),
        CoordinatorStep { stop_swarm: true, start: None, terminate: false }
    );
    assert!(!c.swarm_alive);
    assert!(!c.reset);
}

#[test]
fn coordinator_restarts_on_parameter_change() {
    let mut c = Coordinator::new();
    c.on_control(ControlMessage::Delay(0));
    c.on_control(ControlMessage::Qos(0));
    c.on_control(ControlMessage::InstanceCount(1));
    c.on_control(ControlMessage::Reset);
    let step = c.on_control(ControlMessage::Qos(2));
    assert!(step.stop_swarm);
    assert_eq!(step.start, Some(Configuration { qos: 2, delay_ms: 0, instance_count: 1 }));
}

#[test]
fn coordinator_failed_start_leaves_no_swarm() {
    let mut c = Coordinator::new();
    c.on_control(ControlMessage::Delay(0));
    c.on_control(ControlMessage::Qos(0));
    c.on_control(ControlMessage::InstanceCount(1));
    c.on_control(ControlMessage::Reset);
    c.record_start(false);
    assert_eq!(
        c.on_control(ControlMessage::Reset),
        CoordinatorStep { stop_swarm: false, start: None, terminate: false }
    );
}

#[test]
fn coordinator_ignores_bad_payload() {
    let mut c = Coordinator::new();
    c.on_control(ControlMessage::Qos(1));
    c.on_control(parse_control("request/qos", "abc"));
    assert_eq!(c.qos, Some(1));
}

#[test]
fn coordinator_killall_terminates() {
    let mut c = Coordinator::new();
    c.on_control(ControlMessage::Delay(0));
    c.on_control(ControlMessage::Qos(0));
    c.on_control(ControlMessage::InstanceCount(1));
    c.on_control(ControlMessage::Reset);
    assert_eq!(
        c.on_control(ControlMessage::Killall),
        CoordinatorStep { stop_swarm: true, start: None, terminate: true }
    );
    assert_eq!(c.on_control(ControlMessage::Reset), NONE);
}
