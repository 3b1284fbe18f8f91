use mqtt_playground::control::{Configuration, ControlMessage};
use mqtt_playground::orchestrator::{delay_for_level, plan, sweep, CliArgs, SweepStep};

#[test]
fn delay_levels() {
    assert_eq!(delay_for_level(0), 0);
    assert_eq!(delay_for_level(1), 1);
    assert_eq!(delay_for_level(5), 16);
    assert_eq!(delay_for_level(64), 1u64 << 63);
}

#[test]
fn sweep_order() {
    let cs = sweep(0, 1, 1, 2);
    assert_eq!(cs.len(), 12);
    assert_eq!(cs[0], Configuration { qos: 0, delay_ms: 0, instance_count: 1 });
    assert_eq!(cs[1], Configuration { qos: 0, delay_ms: 0, instance_count: 2 });
    assert_eq!(cs[2], Configuration { qos: 1, delay_ms: 0, instance_count: 1 });
    assert_eq!(cs[11], Configuration { qos: 2, delay_ms: 1, instance_count: 2 });
    assert!(sweep(2, 1, 1, 1).is_empty());
}

#[test]
fn small_sweep_plan() {
    let args = CliArgs {
        target_host_uri: "mqtt://localhost:1883".to_string(),
        delay_level_min: 0,
        delay_level_max: 1,
        instancecount_min: 1,
        instancecount_max: 1,
        mrt: 60,
        reset_buffer: 10,
    };
    let steps = plan(&args);
    let starts = steps.iter().filter(|s| matches!(s, SweepStep::StartObservers(_))).count();
    let resets = steps.iter().filter(|s| **s == SweepStep::Publish(ControlMessage::Reset)).count();
    let counts = steps
        .iter()
        .filter(|s| **s == SweepStep::Publish(ControlMessage::InstanceCount(1)))
        .count();
    assert_eq!(starts, 6);
    assert_eq!(resets, 12);
    assert_eq!(counts, 6);
    assert_eq!(steps.len(), 6 * 9 + 1);
    assert_eq!(steps[steps.len() - 1], SweepStep::Publish(ControlMessage::Killall));
    assert_eq!(steps[5], SweepStep::Hold(60));
    assert_eq!(steps[8], SweepStep::Hold(10));
}
