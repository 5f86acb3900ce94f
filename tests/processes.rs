use std::collections::HashMap;

use rtop::cpu::{CpuAccountant, CpuTimes, CpuUsage};
use rtop::error::RTopError;
use rtop::network::{get_net_entries, get_net_entry_map, FdTarget, SocketTable, TcpEntry};
use rtop::process::{get_proc_cmd_and_name, read_process_data, sort_by_cpu, ProcData, ProcessRecord};

fn record(pid: i32, utime: u64, stime: u64) -> ProcessRecord {
    ProcessRecord {
        pid,
        parent_pid: 1,
        utime,
        stime,
        priority: 20,
        state: 'S',
        comm: "worker".to_string(),
        rss_bytes: 0,
        cmdline: Some(vec!["/usr/bin/worker".to_string()]),
        io: None,
        uid: Some(1000),
        fds: None,
    }
}

fn data(pid: i32, cpu: u128) -> ProcData {
    ProcData {
        pid,
        parent_pid: 0,
        round_cpu_usage_percent: cpu,
        round_mem_usage_percent: 0,
        total_disk_read_bytes: None,
        total_disk_write_bytes: None,
        total_net_received_bytes: 0,
        total_net_sent_bytes: 0,
        name: String::new(),
        command: String::new(),
        state: (String::new(), 'R'),
        uid: None,
        priority: 0,
        tcp_ports: vec![],
        udp_ports: vec![],
    }
}

fn empty_table() -> SocketTable {
    get_net_entry_map(get_net_entries(None, None, None, None))
}

#[test]
fn kernel_thread_command_is_bracketed() {
    let (command, name) = get_proc_cmd_and_name(&"ksoftirqd".to_string(), &Some(vec![]));
    assert_eq!(command, "[ksoftirqd]");
    assert_eq!(name, "ksoftirqd");
}

#[test]
fn truncated_name_takes_basename_of_first_argument() {
    let args = vec!["/usr/bin/long-daemon-name".to_string(), "--flag".to_string()];
    let (command, name) = get_proc_cmd_and_name(&"long-daemon-na".to_string() , &Some(args.clone()));
    assert_eq!(command, "/usr/bin/long-daemon-name --flag");
    assert_eq!(name, "long-daemon-na");
    let (command, name) = get_proc_cmd_and_name(&"long-daemon-nam".to_string(), &Some(args));
    assert_eq!(command, "/usr/bin/long-daemon-name --flag");
    assert_eq!(name, "long-daemon-name");
}

#[test]
fn truncated_name_without_slash_takes_whole_argument() {
    let args = vec!["long-daemon-name".to_string(), "-v".to_string()];
    let (command, name) = get_proc_cmd_and_name(&"long-daemon-nam".to_string(), &Some(args));
    assert_eq!(command, "long-daemon-name -v");
    assert_eq!(name, "long-daemon-name");
}

#[test]
fn truncated_name_with_trailing_slash_gives_empty_basename() {
    let args = vec!["/opt/tool/".to_string()];
    let (_, name) = get_proc_cmd_and_name(&"abcdefghijklmno".to_string(), &Some(args));
    assert_eq!(name, "");
}

#[test]
fn unreadable_command_line_uses_short_name() {
    let (command, name) = get_proc_cmd_and_name(&"sshd".to_string(), &None);
    assert_eq!(command, "sshd");
    assert_eq!(name, "sshd");
}

#[test]
fn sample_fields_come_from_record() {
    let entries = get_net_entries(
        Some(vec![TcpEntry { inode: 44, local_ip: vec![0, 0, 0, 0], local_port: 8080, state: procfs::net::TcpState::Listen }]),
        None,
        None,
        None,
    );
    let table = get_net_entry_map(entries);
    let mut rec = record(42, 30, 20);
    rec.rss_bytes = 250;
    rec.io = Some((4096, 512));
    rec.fds = Some(vec![FdTarget::Socket(44)]);
    rec.state = 'R';
    let usage = CpuUsage { active_delta: 200, total_delta: 400 };
    let (d, ticks) = ProcData::new(rec, &usage, 10, 1000, true, &table, (7, 8));
    assert_eq!(ticks, 50);
    assert_eq!(d.pid, 42);
    assert_eq!(d.parent_pid, 1);
    assert_eq!(d.round_cpu_usage_percent, 2000);
    assert_eq!(d.round_mem_usage_percent, 2500);
    assert_eq!(d.total_disk_read_bytes, Some(4096));
    assert_eq!(d.total_disk_write_bytes, Some(512));
    assert_eq!((d.total_net_received_bytes, d.total_net_sent_bytes), (7, 8));
    assert_eq!(d.name, "worker");
    assert_eq!(d.command, "/usr/bin/worker");
    assert_eq!(d.state, ("Runnable".to_string(), 'R'));
    assert_eq!(d.uid, Some(1000));
    assert_eq!(d.priority, 20);
    assert_eq!(d.tcp_ports, vec![8080]);
    assert!(d.udp_ports.is_empty());
}

#[test]
fn state_labels_and_unknown_memory_total() {
    let usage = CpuUsage { active_delta: 1, total_delta: 0 };
    for (code, label) in [('S', "Sleeping"), ('Z', "Zombie"), ('D', "UninterruptibleDiskSleep"), ('x', "Dead"), ('?', "Unknown")] {
        let mut rec = record(1, 0, 0);
        rec.state = code;
        rec.rss_bytes = 99;
        let (d, _) = ProcData::new(rec, &usage, 0, 0, false, &empty_table(), (0, 0));
        assert_eq!(d.state.0, label);
        assert_eq!(d.round_mem_usage_percent, 0);
        assert_eq!(d.round_cpu_usage_percent, 0);
    }
}

#[test]
fn sort_is_descending_and_stable() {
    let v = vec![data(1, 1250), data(2, 9900), data(3, 0), data(4, 9900)];
    let sorted = sort_by_cpu(v);
    let order: Vec<i32> = sorted.iter().map(|d| d.pid).collect();
    assert_eq!(order, vec![2, 4, 1, 3]);
}

#[test]
fn sort_of_empty_and_equal() {
    assert!(sort_by_cpu(vec![]).is_empty());
    let sorted = sort_by_cpu(vec![data(5, 7), data(6, 7), data(7, 7)]);
    let order: Vec<i32> = sorted.iter().map(|d| d.pid).collect();
    assert_eq!(order, vec![5, 6, 7]);
}

#[test]
fn cycle_skips_vanished_processes_and_prunes_ticks() {
    let mut acc = CpuAccountant::new();
    let mut ticks: HashMap<i32, u64> = HashMap::new();
    ticks.insert(99, 5000);
    let zero = CpuTimes { user: 0, nice: 0, system: 0, idle: 0, iowait: 0, irq: 0, softirq: 0, steal: 0 };
    acc.update(&zero);
    let stat = CpuTimes { user: 1000, nice: 0, system: 0, idle: 3000, iowait: 0, irq: 0, softirq: 0, steal: 0 };
    let recs = vec![Some(record(1, 100, 100)), None, Some(record(2, 50, 0))];
    let out = read_process_data(&mut acc, &mut ticks, true, 1000, Some(stat), Ok(recs), &empty_table(), (0, 0)).unwrap();
    assert_eq!(out.len(), 2);
    assert_eq!(out[0].pid, 1);
    assert_eq!(out[0].round_cpu_usage_percent, 2000);
    assert_eq!(out[1].round_cpu_usage_percent, 500);
    assert_eq!(ticks.len(), 2);
    assert_eq!(ticks.get(&1), Some(&200));
    assert_eq!(ticks.get(&2), Some(&50));
    assert!(ticks.get(&99).is_none());
}

#[test]
fn cycle_without_cpu_counters_fails() {
    let mut acc = CpuAccountant::new();
    let mut ticks: HashMap<i32, u64> = HashMap::new();
    ticks.insert(3, 30);
    let r = read_process_data(&mut acc, &mut ticks, true, 1000, None, Ok(vec![Some(record(1, 1, 1))]), &empty_table(), (0, 0));
    assert_eq!(r.err().unwrap().err_msg, "Could not compute CPU usage.");
    assert_eq!(ticks.len(), 1);
}

#[test]
fn first_cycle_has_no_shares() {
    let mut acc = CpuAccountant::new();
    let mut ticks: HashMap<i32, u64> = HashMap::new();
    let stat = CpuTimes { user: 1000, nice: 0, system: 0, idle: 3000, iowait: 0, irq: 0, softirq: 0, steal: 0 };
    let out = read_process_data(&mut acc, &mut ticks, true, 1000, Some(stat), Ok(vec![Some(record(1, 100, 100))]), &empty_table(), (0, 0)).unwrap();
    assert_eq!(out[0].round_cpu_usage_percent, 0);
    assert_eq!(ticks.get(&1), Some(&200));
}

#[test]
fn enumeration_error_is_passed_on() {
    let mut acc = CpuAccountant::new();
    let mut ticks: HashMap<i32, u64> = HashMap::new();
    let stat = CpuTimes { user: 1, nice: 0, system: 0, idle: 1, iowait: 0, irq: 0, softirq: 0, steal: 0 };
    let err = RTopError::new("NotFound".to_string());
    let r = read_process_data(&mut acc, &mut ticks, false, 1000, Some(stat), Err(err), &empty_table(), (0, 0));
    assert_eq!(r.err().unwrap().err_msg, "NotFound");
}
