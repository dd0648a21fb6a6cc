use sysinfo::delta::{CpuTimes, Usage};
use sysinfo::network::{NetworkCounters, NetworkSample};
use sysinfo::process::{Pid, ProcessSample, ProcessStatus, SignalRequest};
use sysinfo::records::{Component, LoadAvg, MemorySample, User};
use sysinfo::signal::Signal;
use sysinfo::system::{CpuInfo, Snapshot, System};

fn sample(pid: Pid, name: &str, cpu_time: u64) -> ProcessSample {
    ProcessSample {
        pid,
        parent: None,
        name: name.to_string(),
        exe: String::new(),
        cmd: vec![],
        cwd: String::new(),
        status: ProcessStatus::Sleeping,
        memory: 0,
        cpu_time,
    }
}

fn memory() -> MemorySample {
    MemorySample { total_memory: 8000, used_memory: 3000, total_swap: 100, used_swap: 200 }
}

fn sensor(label: &str, temperature: i32, critical: Option<i32>) -> Component {
    Component { label: label.to_string(), temperature, max: None, critical }
}

fn cpu_info(vendor_id: &str, brand: &str, frequencies: Vec<u64>) -> CpuInfo {
    CpuInfo {
        count: frequencies.len() as u32,
        vendor_id: vendor_id.to_string(),
        brand: brand.to_string(),
        frequencies,
    }
}

fn snapshot(clock: u64, cpu_time: u64) -> Snapshot {
    Snapshot {
        cpu: vec![CpuTimes { busy: clock / 2, total: clock }, CpuTimes { busy: clock / 4, total: clock }],
        memory: memory(),
        processes: vec![sample(1, "init", cpu_time)],
        components: vec![sensor("core", 45_000, Some(90_000))],
    }
}

#[test]
fn new_state_is_empty() {
    let s = System::new();
    assert!(s.get_processors().is_empty());
    assert!(s.get_processes().is_empty());
    assert_eq!(s.get_networks().len(), 0);
    assert!(s.get_components().is_empty());
    assert!(s.get_users().is_empty());
    assert_eq!(s.get_total_memory(), 0);
    assert_eq!(s.get_used_memory(), 0);
    assert_eq!(s.get_total_swap(), 0);
    assert_eq!(s.get_used_swap(), 0);
    assert_eq!(s.get_boot_time(), None);
    assert_eq!(s.get_uptime(1000), 0);
    assert_eq!(s.get_load_average(), LoadAvg { one: 0, five: 0, fifteen: 0 });
    assert_eq!(s.clock(), 0);
}

#[test]
fn new_all_without_processors_is_empty() {
    let s = System::new_all(None, snapshot(1000, 10));
    assert!(s.get_processes().is_empty());
    assert!(s.get_processors().is_empty());
    assert!(s.get_components().is_empty());
    assert_eq!(s.get_total_memory(), 0);
}

#[test]
fn new_all_takes_in_one_reading() {
    let s = System::new_all(Some(cpu_info("v", "b", vec![2000])), snapshot(1000, 10));
    assert_eq!(s.get_total_memory(), 8000);
    assert_eq!(s.get_processes().len(), 1);
    assert_eq!(s.get_components().len(), 1);
    assert_eq!(s.get_processors().len(), 2);
    assert_eq!(s.get_processors()[0].name(), "Total CPU");
    assert_eq!(s.get_processors()[0].times, Some(CpuTimes { busy: 500, total: 1000 }));
    assert_eq!(s.get_processors()[1].times, Some(CpuTimes { busy: 250, total: 1000 }));
    assert_eq!(s.get_processors()[0].cpu_usage(), 0);
    assert_eq!(s.clock(), 1000);
    assert_eq!(s.get_process(1).unwrap().total_time, 1000);
}

#[test]
fn init_cpu_lists_total_and_cores() {
    let mut s = System::new();
    s.init_cpu(cpu_info("AuthenticAMD", "Ryzen", vec![3600, 3700]));
    let list = s.get_processors();
    assert_eq!(list.len(), 3);
    assert_eq!(list[0].name(), "Total CPU");
    assert_eq!(list[0].frequency(), 0);
    assert_eq!(list[1].name(), "CPU 1");
    assert_eq!(list[1].frequency(), 3600);
    assert_eq!(list[2].name(), "CPU 2");
    assert_eq!(list[2].frequency(), 3700);
    assert_eq!(list[2].vendor_id(), "AuthenticAMD");
    assert_eq!(list[0].brand(), "Ryzen");
}

#[test]
fn refresh_all_measures_processes_against_the_new_clock() {
    let mut s = System::new();
    s.init_cpu(cpu_info("v", "b", vec![1000]));
    s.refresh_all(snapshot(1000, 10));
    assert_eq!(s.clock(), 1000);
    assert_eq!(s.get_processors()[0].cpu_usage(), 0);
    assert_eq!(s.get_process(1).unwrap().cpu_usage(), 0);
    s.refresh_all(snapshot(1400, 110));
    assert_eq!(s.clock(), 1400);
    assert_eq!(s.get_processors()[0].usage, Usage { busy: 200, total: 400 });
    assert_eq!(s.get_processors()[0].cpu_usage(), 50);
    assert_eq!(s.get_processors()[1].cpu_usage(), 25);
    assert_eq!(s.get_process(1).unwrap().usage, Usage { busy: 100, total: 400 });
    assert_eq!(s.get_process(1).unwrap().cpu_usage(), 25);
}

#[test]
fn refresh_cpu_leaves_unsampled_processors_alone() {
    let mut s = System::new();
    s.init_cpu(cpu_info("v", "b", vec![1000, 1000]));
    s.refresh_cpu(&vec![CpuTimes { busy: 1, total: 10 }]);
    assert_eq!(s.get_processors()[0].times, Some(CpuTimes { busy: 1, total: 10 }));
    assert_eq!(s.get_processors()[1].times, None);
    assert_eq!(s.get_processors()[2].times, None);
    assert_eq!(s.get_processors().len(), 3);
}

#[test]
fn narrow_refreshes_touch_their_own_part() {
    let mut s = System::new();
    s.refresh_processes(vec![sample(1, "init", 0)]);
    s.refresh_memory(memory());
    assert_eq!(s.get_used_memory(), 3000);
    assert_eq!(s.get_total_swap(), 100);
    assert_eq!(s.get_used_swap(), 200);
    assert_eq!(s.memory.free_memory(), 5000);
    assert_eq!(s.memory.free_swap(), 0);
    s.refresh_components(vec![sensor("a", 1, None), sensor("b", 2, Some(2))]);
    s.refresh_users_list(vec![User { name: "root".to_string(), groups: vec!["wheel".to_string()] }]);
    s.refresh_networks(vec![NetworkSample {
        name: "lo".to_string(),
        counters: NetworkCounters { received: 1, transmitted: 1, packets_received: 1, packets_transmitted: 1 },
    }]);
    assert_eq!(s.get_processes().len(), 1);
    assert_eq!(s.get_components().len(), 2);
    assert!(!s.get_components()[0].is_critical());
    assert!(s.get_components()[1].is_critical());
    assert_eq!(s.get_users()[0].name, "root");
    assert_eq!(s.get_networks().len(), 1);
    // the same reading again changes nothing
    s.refresh_memory(memory());
    s.refresh_components(vec![sensor("a", 1, None), sensor("b", 2, Some(2))]);
    assert_eq!(s.get_used_memory(), 3000);
    assert_eq!(s.get_components().len(), 2);
    assert_eq!(s.get_processes().len(), 1);
}

#[test]
fn boot_time_is_read_once() {
    let mut s = System::new();
    s.set_boot_time(1_600_000_000);
    s.set_boot_time(1_700_000_000);
    assert_eq!(s.get_boot_time(), Some(1_600_000_000));
    assert_eq!(s.get_uptime(1_600_000_060), 60);
    assert_eq!(s.get_uptime(1_500_000_000), 0);
    s.set_load_average(LoadAvg { one: 150, five: 75, fifteen: 10 });
    assert_eq!(s.get_load_average(), LoadAvg { one: 150, five: 75, fifteen: 10 });
}

#[test]
fn refresh_process_reports_whether_it_is_there() {
    let mut s = System::new();
    s.refresh_processes(vec![sample(1, "init", 0), sample(2, "kthreadd", 0)]);
    assert!(s.refresh_process(2, Some(sample(2, "kthreadd", 4))));
    assert!(!s.refresh_process(1, None));
    assert!(s.get_process(1).is_some());
    assert!(!s.refresh_process(3, None));
    assert!(s.get_process(3).is_none());
    assert_eq!(s.get_processes().len(), 2);
    s.refresh_processes(vec![sample(2, "kthreadd", 5)]);
    assert!(s.get_process(1).is_none());
    assert_eq!(s.get_process_by_name("thread"), vec![2]);
}

#[test]
fn facade_rejects_out_of_range_signals() {
    let mut s = System::new();
    s.refresh_processes(vec![sample(1, "init", 0)]);
    assert_eq!(s.signal_request(1, 0), SignalRequest::InvalidSignal);
    assert_eq!(s.signal_request(1, 32), SignalRequest::InvalidSignal);
    assert_eq!(s.signal_request(2, 15), SignalRequest::NoSuchProcess);
    assert_eq!(s.signal_request(1, 15), SignalRequest::Deliver { pid: 1, signal: Signal::Term });
}
