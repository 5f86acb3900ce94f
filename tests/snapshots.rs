use procfs::net::TcpState;
use rtop::cpu::CpuTimes;
use rtop::error::RTopError;
use rtop::network::{FdTarget, TcpEntry};
use rtop::process::ProcessRecord;
use rtop::system_reader::{Sample, SystemReader};

fn stat(non_idle: u64, idle: u64) -> Option<CpuTimes> {
    Some(CpuTimes { user: non_idle, nice: 0, system: 0, idle, iowait: 0, irq: 0, softirq: 0, steal: 0 })
}

fn proc_rec(pid: i32, ticks: u64) -> ProcessRecord {
    ProcessRecord {
        pid,
        parent_pid: 1,
        utime: ticks,
        stime: 0,
        priority: 0,
        state: 'R',
        comm: "app".to_string(),
        rss_bytes: 512,
        cmdline: Some(vec!["app".to_string()]),
        io: Some((1, 2)),
        uid: Some(0),
        fds: Some(vec![FdTarget::Socket(5)]),
    }
}

fn sample(cpu: Option<CpuTimes>, procs: Vec<Option<ProcessRecord>>) -> Sample {
    Sample {
        stat: cpu,
        tcp: Some(vec![TcpEntry { inode: 5, local_ip: vec![127, 0, 0, 1], local_port: 8080, state: TcpState::Listen }]),
        tcp6: None,
        udp: None,
        udp6: None,
        processes: Ok(procs),
        devices: Some(vec![(100, 10), (1, 1)]),
    }
}

#[test]
fn first_cycle_is_a_baseline() {
    let mut reader = SystemReader::new(true, 1024);
    let first = reader.read_process_data(sample(stat(1000, 3000), vec![Some(proc_rec(7, 200))])).unwrap();
    assert_eq!(first.processes[0].round_cpu_usage_percent, 0);
    let second = reader.read_process_data(sample(stat(1500, 3500), vec![Some(proc_rec(7, 260))])).unwrap();
    assert_eq!(second.processes[0].round_cpu_usage_percent, 1200);
}

fn warm_reader(use_current_cpu_total: bool) -> SystemReader {
    let mut reader = SystemReader::new(use_current_cpu_total, 1024);
    reader.read_process_data(sample(stat(0, 0), vec![])).unwrap();
    reader
}

#[test]
fn two_cycles_in_current_total_mode() {
    let mut reader = warm_reader(true);
    let first = reader.read_process_data(sample(stat(1000, 3000), vec![Some(proc_rec(7, 200))])).unwrap();
    assert_eq!(first.processes.len(), 1);
    assert_eq!(first.processes[0].round_cpu_usage_percent, 2000);
    assert_eq!(first.processes[0].round_mem_usage_percent, 5000);
    assert_eq!(first.processes[0].tcp_ports, vec![8080]);
    assert_eq!((first.net_received_bytes, first.net_sent_bytes), (101, 11));
    assert_eq!(first.processes[0].total_net_received_bytes, 101);
    let second = reader.read_process_data(sample(stat(1500, 3500), vec![Some(proc_rec(7, 260))])).unwrap();
    assert_eq!(second.processes[0].round_cpu_usage_percent, 1200);
}

#[test]
fn overall_total_mode_scales_by_busy_fraction() {
    let mut reader = warm_reader(false);
    reader.read_process_data(sample(stat(1000, 3000), vec![Some(proc_rec(7, 200))])).unwrap();
    // active 500 of 1000 ticks: (60 / 500) * 100 * 0.5 = 6 %
    let second = reader.read_process_data(sample(stat(1500, 3500), vec![Some(proc_rec(7, 260))])).unwrap();
    assert_eq!(second.processes[0].round_cpu_usage_percent, 600);
}

#[test]
fn vanished_process_is_forgotten() {
    let mut reader = warm_reader(true);
    reader.read_process_data(sample(stat(1000, 3000), vec![Some(proc_rec(7, 200)), Some(proc_rec(8, 300))])).unwrap();
    reader.read_process_data(sample(stat(2000, 3000), vec![Some(proc_rec(7, 400))])).unwrap();
    // pid 8 was pruned, so its ticks count from zero again.
    let third = reader.read_process_data(sample(stat(3000, 3000), vec![Some(proc_rec(7, 400)), Some(proc_rec(8, 500))])).unwrap();
    let p8 = third.processes.iter().find(|p| p.pid == 8).unwrap();
    assert_eq!(p8.round_cpu_usage_percent, 5000);
    let p7 = third.processes.iter().find(|p| p.pid == 7).unwrap();
    assert_eq!(p7.round_cpu_usage_percent, 0);
    assert_eq!(third.processes[0].pid, 8);
}

#[test]
fn unreadable_counters_fail_the_cycle_only() {
    let mut reader = SystemReader::new(true, 1024);
    let r = reader.read_process_data(sample(None, vec![Some(proc_rec(7, 200))]));
    assert_eq!(r.err().unwrap().err_msg, "Could not compute CPU usage.");
    let ok = reader.read_process_data(sample(stat(1000, 3000), vec![Some(proc_rec(7, 200))])).unwrap();
    assert_eq!(ok.processes[0].round_cpu_usage_percent, 0);
    let next = reader.read_process_data(sample(stat(2000, 3000), vec![Some(proc_rec(7, 300))])).unwrap();
    assert_eq!(next.processes[0].round_cpu_usage_percent, 1000);
}

#[test]
fn enumeration_failure_is_reported() {
    let mut reader = SystemReader::new(true, 1024);
    let mut s = sample(stat(10, 10), vec![]);
    s.processes = Err(RTopError::new("PermissionDenied".to_string()));
    assert_eq!(reader.read_process_data(s).err().unwrap().err_msg, "PermissionDenied");
}

#[test]
fn reader_keeps_memory_total() {
    let reader = SystemReader::new(false, 8_000_000);
    assert_eq!(reader.total_memory_bytes, 8_000_000);
}
