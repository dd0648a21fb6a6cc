use sysinfo::delta::{counter_delta, usage_between, CpuTimes, Usage};
use sysinfo::network::{counters_growth, NetworkCounters, NetworkData, NetworkSample, Networks};
use sysinfo::processor::Processor;

fn times(busy: u64, total: u64) -> CpuTimes {
    CpuTimes { busy, total }
}

fn counters(received: u64, transmitted: u64, packets_received: u64, packets_transmitted: u64) -> NetworkCounters {
    NetworkCounters { received, transmitted, packets_received, packets_transmitted }
}

fn reading(name: &str, c: NetworkCounters) -> NetworkSample {
    NetworkSample { name: name.to_string(), counters: c }
}

#[test]
fn counter_delta_is_floored_at_zero() {
    assert_eq!(counter_delta(10, 25), 15);
    assert_eq!(counter_delta(25, 25), 0);
    assert_eq!(counter_delta(25, 10), 0);
    assert_eq!(counter_delta(0, u64::MAX), u64::MAX);
    assert_eq!(counter_delta(u64::MAX, 0), 0);
}

#[test]
fn first_sample_is_the_zero_state() {
    let usage = usage_between(None, times(500, 1000), Usage { busy: 3, total: 4 });
    assert_eq!(usage, Usage { busy: 0, total: 0 });
    assert_eq!(usage.percent(), 0);
}

#[test]
fn usage_is_busy_growth_over_total_growth() {
    let usage = usage_between(Some(times(100, 1000)), times(175, 1300), Usage::zero());
    assert_eq!(usage, Usage { busy: 75, total: 300 });
    assert_eq!(usage.percent(), 25);
    assert_eq!(Usage { busy: 1, total: 3 }.percent(), 33);
    assert_eq!(Usage { busy: 2, total: 3 }.percent(), 66);
    assert_eq!(Usage { busy: 3, total: 3 }.percent(), 100);
}

#[test]
fn usage_stays_within_bounds() {
    // busy grew more than total: capped
    let usage = usage_between(Some(times(0, 0)), times(500, 100), Usage::zero());
    assert_eq!(usage, Usage { busy: 100, total: 100 });
    assert_eq!(usage.percent(), 100);
    // any value reads as at most 100
    assert_eq!(Usage { busy: u64::MAX, total: 1 }.percent(), 100);
    assert_eq!(Usage { busy: u64::MAX - 1, total: u64::MAX }.percent(), 99);
    assert_eq!(Usage { busy: 7, total: 0 }.percent(), 0);
}

#[test]
fn usage_without_elapsed_time_is_the_last_one() {
    let last = Usage { busy: 7, total: 10 };
    assert_eq!(usage_between(Some(times(5, 100)), times(9, 100), last), last);
}

#[test]
fn usage_after_a_reset_is_zero() {
    let last = Usage { busy: 7, total: 10 };
    assert_eq!(usage_between(Some(times(5, 100)), times(9, 50), last).percent(), 0);
    assert_eq!(
        usage_between(Some(times(50, 100)), times(9, 150), last),
        Usage { busy: 0, total: 50 }
    );
}

#[test]
fn processor_refresh_keeps_one_previous_sample() {
    let mut p = Processor::new_with_values("CPU 1".to_string(), "v".to_string(), "b".to_string(), 3000);
    assert_eq!(p.cpu_usage(), 0);
    assert_eq!(p.times, None);
    p.refresh(times(10, 100));
    assert_eq!(p.cpu_usage(), 0);
    assert_eq!(p.times, Some(times(10, 100)));
    p.refresh(times(60, 200));
    assert_eq!(p.cpu_usage(), 50);
    assert_eq!(p.times, Some(times(60, 200)));
    p.refresh(times(60, 200));
    assert_eq!(p.cpu_usage(), 50);
    p.refresh(times(60, 300));
    assert_eq!(p.cpu_usage(), 0);
    assert_eq!(p.usage, Usage { busy: 0, total: 100 });
}

#[test]
fn network_growth_is_memberwise() {
    assert_eq!(
        counters_growth(&counters(10, 20, 1, 2), &counters(15, 20, 0, 7)),
        counters(5, 0, 0, 5)
    );
}

#[test]
fn network_delta_without_traffic_is_zero() {
    let mut nets = Networks::new();
    nets.refresh(vec![reading("eth0", counters(1000, 2000, 10, 20))]);
    assert_eq!(nets.get("eth0").unwrap().delta, counters(0, 0, 0, 0));
    nets.refresh(vec![reading("eth0", counters(1000, 2000, 10, 20))]);
    let eth0 = nets.get("eth0").unwrap();
    assert_eq!(eth0.income(), 0);
    assert_eq!(eth0.outcome(), 0);
    assert_eq!(eth0.delta, counters(0, 0, 0, 0));
    assert_eq!(eth0.total_income(), 1000);
    assert_eq!(eth0.total_outcome(), 2000);
}

#[test]
fn network_delta_after_traffic_is_the_difference() {
    let mut nets = Networks::new();
    nets.refresh(vec![reading("eth0", counters(1000, 2000, 10, 20))]);
    nets.refresh(vec![reading("eth0", counters(1500, 2048, 13, 21))]);
    let eth0 = nets.get("eth0").unwrap();
    assert_eq!(eth0.name(), "eth0");
    assert_eq!(eth0.income(), 500);
    assert_eq!(eth0.outcome(), 48);
    assert_eq!(eth0.delta, counters(500, 48, 3, 1));
    assert_eq!(eth0.current, counters(1500, 2048, 13, 21));
}

#[test]
fn network_delta_after_a_counter_reset_is_zero() {
    let mut nets = Networks::new();
    nets.refresh(vec![reading("eth0", counters(1000, 2000, 10, 20))]);
    nets.refresh(vec![reading("eth0", counters(40, 2500, 1, 30))]);
    assert_eq!(nets.get("eth0").unwrap().delta, counters(0, 500, 0, 10));
}

#[test]
fn network_table_holds_what_was_observed() {
    let mut nets = Networks::new();
    assert_eq!(nets.len(), 0);
    nets.refresh(vec![
        reading("lo", counters(1, 1, 1, 1)),
        reading("eth0", counters(5, 5, 5, 5)),
        reading("lo", counters(3, 3, 3, 3)),
    ]);
    assert_eq!(nets.len(), 2);
    let names: Vec<&str> = nets.interfaces().iter().map(|n| n.name()).collect();
    assert_eq!(names, vec!["lo", "eth0"]);
    assert_eq!(nets.get("lo").unwrap().current, counters(3, 3, 3, 3));
    assert!(nets.get("wlan0").is_none());
    nets.refresh(vec![reading("wlan0", counters(9, 9, 9, 9)), reading("lo", counters(4, 3, 3, 3))]);
    assert_eq!(nets.len(), 2);
    assert!(nets.get("eth0").is_none());
    assert_eq!(nets.get("lo").unwrap().delta, counters(1, 0, 0, 0));
    assert_eq!(nets.get("wlan0").unwrap().delta, counters(0, 0, 0, 0));
}

#[test]
fn network_record_from_one_observation() {
    let record = NetworkData::observe(Some(counters(1, 2, 3, 4)), reading("eth1", counters(2, 4, 6, 8)));
    assert_eq!(
        record,
        NetworkData {
            name: "eth1".to_string(),
            current: counters(2, 4, 6, 8),
            delta: counters(1, 2, 3, 4),
        }
    );
}
