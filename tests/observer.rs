use mqtt_playground::observer::{sort_samples, Arrival, ObserverState};

fn feed(values: &[u64]) -> ObserverState {
    let mut s = ObserverState::new();
    let mut t: u64 = 1000;
    for v in values {
        s.on_receive(*v, t);
        t += 10;
    }
    s
}

#[test]
fn in_order_delivery_has_no_gaps() {
    let s = feed(&[0, 1, 2, 3, 4, 5]);
    assert_eq!(s.out_of_order_events, 0);
    assert!(s.missing.is_empty());
    assert_eq!(s.total_messages, 6);
    assert_eq!(s.expected_seq, 6);
    assert_eq!(s.delay_samples, vec![10, 10, 10, 10, 10]);
}

#[test]
fn single_gap_records_missing_range() {
    let mut s = feed(&[0, 1]);
    assert_eq!(s.on_receive(5, 2000), Arrival::Ahead);
    assert_eq!(s.out_of_order_events, 1);
    let mut m = s.missing.clone();
    m.sort();
    assert_eq!(m, vec![2, 3, 4]);
    assert_eq!(s.expected_seq, 6);
    assert_eq!(s.last_arrival, None);
}

#[test]
fn recovery_is_idempotent() {
    let mut s = feed(&[0, 3]);
    assert_eq!(s.on_receive(1, 2000), Arrival::Recovered);
    let missing_after = s.missing.clone();
    let total_after = s.total_messages;
    let expected_after = s.expected_seq;
    assert_eq!(missing_after, vec![2]);
    assert_eq!(s.on_receive(1, 2010), Arrival::Ignored);
    assert_eq!(s.missing, missing_after);
    assert_eq!(s.total_messages, total_after);
    assert_eq!(s.expected_seq, expected_after);
}

#[test]
fn duplicate_in_order_value_is_ignored() {
    let mut s = feed(&[0, 1]);
    assert_eq!(s.on_receive(1, 5000), Arrival::Ignored);
    assert_eq!(s.total_messages, 2);
}

#[test]
fn reordered_sequence_summary() {
    // 0, 1, 3, 2, 4: the late 2 is recovered and advances the expected value to 5,
    // so the following 4 counts as already seen.
    let s = feed(&[0, 1, 3, 2, 4]);
    let r = s.finish();
    assert_eq!(r.out_of_order_events, 1);
    assert_eq!(r.unrecovered_missing_count, 0);
    assert_eq!(r.total_messages, 4);
}

#[test]
fn empty_samples_give_zero_statistics() {
    let s = ObserverState::new();
    let r = s.finish();
    assert_eq!(r.mean_delay_ms, 0);
    assert_eq!(r.median_delay_ms, 0);
    assert_eq!(r.throughput_per_sec, 0);
    assert_eq!(r.total_messages, 0);
}

#[test]
fn median_uses_floor_half_index() {
    let mut s = ObserverState::new();
    s.delay_samples = vec![40, 10, 30, 20];
    let r = s.finish();
    // sorted: 10 20 30 40, index 4 / 2 = 2
    assert_eq!(r.median_delay_ms, 30);
    assert_eq!(r.mean_delay_ms, 25);
}

#[test]
fn mean_is_floored() {
    let mut s = ObserverState::new();
    s.delay_samples = vec![1, 2];
    let r = s.finish();
    assert_eq!(r.mean_delay_ms, 1);
    assert_eq!(r.median_delay_ms, 2);
}

#[test]
fn throughput_over_accrued_runtime() {
    let mut s = ObserverState::new();
    s.on_receive(0, 100);
    s.on_receive(1, 600);
    s.on_receive(2, 1100);
    assert_eq!(s.total_runtime_ms, 1000);
    let r = s.finish();
    assert_eq!(r.throughput_per_sec, 3);
}

#[test]
fn clock_stepping_back_counts_no_time() {
    let mut s = ObserverState::new();
    s.on_receive(0, 500);
    s.on_receive(1, 400);
    assert_eq!(s.delay_samples, vec![0]);
    assert_eq!(s.total_runtime_ms, 0);
}

#[test]
fn largest_value_overflows() {
    let mut s = ObserverState::new();
    assert_eq!(s.on_receive(u64::MAX, 1), Arrival::Overflow);
    assert_eq!(s.total_messages, 0);
    assert_eq!(s.expected_seq, 0);
}

#[test]
fn sort_samples_ascending() {
    assert_eq!(sort_samples(&vec![5, 1, 4, 1, 3]), vec![1, 1, 3, 4, 5]);
    assert_eq!(sort_samples(&vec![]), Vec::<u64>::new());
}

#[test]
fn one_gap_then_in_order() {
    let s = feed(&[0, 1, 4, 5, 6]);
    assert_eq!(s.out_of_order_events, 1);
    let mut m = s.missing.clone();
    m.sort();
    assert_eq!(m, vec![2, 3]);
    assert_eq!(s.expected_seq, 7);
    assert_eq!(s.total_messages, 5);
}

#[test]
fn second_recovery_after_other_arrivals_is_ignored() {
    let mut s = feed(&[0, 4]);
    assert_eq!(s.on_receive(2, 3000), Arrival::Recovered);
    s.on_receive(9, 3010);
    let total = s.total_messages;
    let expected = s.expected_seq;
    assert_eq!(s.on_receive(2, 3020), Arrival::Ignored);
    assert_eq!(s.total_messages, total);
    assert_eq!(s.expected_seq, expected);
}
