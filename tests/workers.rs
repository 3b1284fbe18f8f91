use mqtt_playground::generator::{Generator, GeneratorAction, GeneratorEvent, GeneratorPhase};
use mqtt_playground::log::{set_tag, wipe_log, LogSink};
use mqtt_playground::swarm::{session_ids, swarm_outcome, Role, SwarmError};
use mqtt_playground::text::{data_topic, decimal_chars};

fn text(v: Vec<char>) -> String {
    v.into_iter().collect()
}

#[test]
fn generator_counts_iterations_despite_drops() {
    let mut g = Generator::new(0, 1, 0);
    let mut iterations = 0u64;
    for k in 0..7u64 {
        assert_eq!(g.step(GeneratorEvent::Polled(false)), GeneratorAction::Send { sleep_ms: 0, counter: k });
        // every third message fails on all four attempts
        let fail = k % 3 == 0;
        let mut action = g.step(GeneratorEvent::Sent(!fail));
        while action != GeneratorAction::Poll {
            action = g.step(GeneratorEvent::Sent(!fail));
        }
        iterations += 1;
    }
    assert_eq!(g.step(GeneratorEvent::Polled(true)), GeneratorAction::Disconnect(iterations));
    assert_eq!(g.counter, 7);
    assert_eq!(g.phase, GeneratorPhase::Done);
}

#[test]
fn generator_retries_three_times() {
    let mut g = Generator::new(2, 0, 5);
    assert_eq!(g.step(GeneratorEvent::Polled(false)), GeneratorAction::Send { sleep_ms: 5, counter: 0 });
    for _ in 0..3 {
        assert_eq!(g.step(GeneratorEvent::Sent(false)), GeneratorAction::Send { sleep_ms: 0, counter: 0 });
    }
    assert_eq!(g.step(GeneratorEvent::Sent(false)), GeneratorAction::Poll);
    assert_eq!(g.counter, 1);
}

#[test]
fn empty_swarm_is_refused() {
    assert_eq!(session_ids(Role::Generator, 0), Err(SwarmError::EmptySwarm));
    assert_eq!(swarm_outcome(&vec![]), Err(SwarmError::EmptySwarm));
}

#[test]
fn session_ids_in_index_order() {
    let ids = session_ids(Role::Observer, 3).unwrap();
    let ids: Vec<String> = ids.into_iter().map(text).collect();
    assert_eq!(ids, vec!["subscriber_0", "subscriber_1", "subscriber_2"]);
    let ids = session_ids(Role::Generator, 1).unwrap();
    assert_eq!(text(ids[0].clone()), "publisher_0");
}

#[test]
fn connect_failure_is_fatal() {
    assert_eq!(swarm_outcome(&vec![true, false, false]), Err(SwarmError::ConnectFailed(1)));
    assert_eq!(swarm_outcome(&vec![true, true]), Ok(2));
}

#[test]
fn data_topic_text() {
    assert_eq!(text(data_topic(3, 2, 16)), "counter/3/2/16");
    assert_eq!(text(decimal_chars(0)), "0");
    assert_eq!(text(decimal_chars(u64::MAX)), "18446744073709551615");
}

#[test]
fn log_lines_and_file() {
    let mut sink = LogSink::new("./Logs/");
    sink.add_log("2024-01-01 00:00:00 UTC", "hello");
    assert_eq!(text(sink.buffer.clone()), "[2024-01-01 00:00:00 UTC] hello\n");
    set_tag(&mut sink, "A");
    assert_eq!(text(sink.log_file_name("20240101_000000")), "./Logs//20240101_000000-A.log");
    assert_eq!(text(sink.log_file_path("20240101_000000")), "Logs/20240101_000000-A.log");
    let pending = sink.take_pending();
    assert_eq!(pending.len(), 32);
    assert!(sink.buffer.is_empty());
    sink.add_log("t", "x");
    wipe_log(&mut sink);
    assert!(sink.buffer.is_empty());
    assert_eq!(sink.tag, Some("A".to_string()));
}

#[test]
fn generator_poll_during_send_uses_an_attempt() {
    let mut g = Generator::new(0, 2, 0);
    g.step(GeneratorEvent::Polled(false));
    for _ in 0..3 {
        assert_eq!(g.step(GeneratorEvent::Polled(false)), GeneratorAction::Send { sleep_ms: 0, counter: 0 });
    }
    assert_eq!(g.step(GeneratorEvent::Polled(false)), GeneratorAction::Poll);
    assert_eq!(g.counter, 1);
}

#[test]
fn session_ids_succeed_for_one_or_more() {
    assert!(session_ids(Role::Generator, 2).is_ok());
    assert_eq!(session_ids(Role::Generator, 2).unwrap().len(), 2);
}
