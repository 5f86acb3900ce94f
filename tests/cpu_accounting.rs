use rtop::cpu::{get_cpu_usage, has_cpu_marker, parse_cpu_times, CpuAccountant, CpuTimes, CpuUsage};

fn times(user: u64, system: u64, idle: u64, iowait: u64) -> CpuTimes {
    CpuTimes { user, nice: 0, system, idle, iowait, irq: 0, softirq: 0, steal: 0 }
}

#[test]
fn parses_global_cpu_line() {
    let t = parse_cpu_times("cpu  2255 34 2290 22625563 6290 127 456 7 0 0\n");
    assert_eq!(
        t,
        CpuTimes {
            user: 2255,
            nice: 34,
            system: 2290,
            idle: 22625563,
            iowait: 6290,
            irq: 127,
            softirq: 456,
            steal: 7
        }
    );
}

#[test]
fn line_without_marker_is_rejected() {
    assert!(!has_cpu_marker("cpu0 1 2 3 4 5 6 7 8"));
    assert!(!has_cpu_marker("intr 1 2 3"));
    assert!(!has_cpu_marker(""));
    assert!(!has_cpu_marker("cp"));
    assert!(has_cpu_marker("cpu 1 2"));
    assert!(has_cpu_marker(" \tcpu"));
}

#[test]
fn missing_or_malformed_fields_count_as_zero() {
    let t = parse_cpu_times("  cpu\t5 x 7 18446744073709551616 9");
    assert_eq!(t, CpuTimes { user: 5, nice: 0, system: 7, idle: 0, iowait: 9, irq: 0, softirq: 0, steal: 0 });
    let m = parse_cpu_times("cpu 18446744073709551615");
    assert_eq!(m.user, u64::MAX);
}

#[test]
fn first_update_is_a_baseline() {
    let mut acc = CpuAccountant::new();
    let u = acc.update(&times(100, 50, 800, 50));
    assert_eq!(u, CpuUsage { active_delta: 0, total_delta: 0 });
    assert_eq!(u.active_fraction(), (0, 1));
    let next = acc.update(&times(200, 100, 1600, 100));
    assert_eq!(next, CpuUsage { active_delta: 150, total_delta: 1000 });
    assert_eq!(next.active_fraction(), (150, 1000));
}

#[test]
fn fraction_stays_in_unit_range_for_growing_counters() {
    let mut acc = CpuAccountant::new();
    let samples = [times(10, 10, 80, 0), times(10, 10, 180, 0), times(60, 60, 180, 0), times(61, 60, 280, 5)];
    for s in samples.iter() {
        let u = acc.update(s);
        let (num, den) = u.active_fraction();
        assert!(den > 0);
        assert!(0 <= num && num <= den);
        if u.total_delta == 0 {
            assert_eq!(num, 0);
        }
    }
}

#[test]
fn idle_interval_has_small_fraction() {
    let mut acc = CpuAccountant::new();
    acc.update(&times(10, 10, 80, 0));
    let u = acc.update(&times(10, 10, 180, 0));
    assert_eq!(u, CpuUsage { active_delta: 1, total_delta: 100 });
    assert_eq!(u.active_fraction(), (1, 100));
}

#[test]
fn identical_totals_give_sentinel_and_zero_fraction() {
    let mut acc = CpuAccountant::new();
    let t = times(300, 200, 4000, 100);
    acc.update(&t);
    let u = acc.update(&t);
    assert_eq!(u.active_delta, 1);
    assert_eq!(u.total_delta, 0);
    assert_eq!(u.active_fraction(), (0, 1));
}

#[test]
fn current_total_share_scenario() {
    let first = CpuUsage { active_delta: 1000, total_delta: 4000 };
    assert_eq!(get_cpu_usage(150, 50, &first, 0, true), (2000, 200));
    let second = CpuUsage { active_delta: 500, total_delta: 2000 };
    assert_eq!(get_cpu_usage(190, 70, &second, 200, true), (1200, 260));
}

#[test]
fn overall_total_share_scales_by_fraction() {
    // (60 / 500) * 100 * (500 / 1000) = 6 %
    let u = CpuUsage { active_delta: 500, total_delta: 1000 };
    assert_eq!(get_cpu_usage(200, 60, &u, 200, false), (600, 260));
    let idle = CpuUsage { active_delta: 1, total_delta: 0 };
    assert_eq!(get_cpu_usage(200, 60, &idle, 200, false), (0, 260));
}

#[test]
fn no_share_without_positive_active_delta() {
    let u = CpuUsage { active_delta: 0, total_delta: 100 };
    assert_eq!(get_cpu_usage(10, 10, &u, 0, true), (0, 20));
    let back = CpuUsage { active_delta: -5, total_delta: 100 };
    assert_eq!(get_cpu_usage(10, 10, &back, 0, true), (0, 20));
}

#[test]
fn process_counter_going_backwards_gives_zero() {
    let u = CpuUsage { active_delta: 100, total_delta: 100 };
    assert_eq!(get_cpu_usage(5, 5, &u, 500, true), (0, 10));
}

#[test]
fn process_ticks_saturate() {
    let u = CpuUsage { active_delta: 100, total_delta: 100 };
    let (_, ticks) = get_cpu_usage(u64::MAX, 5, &u, u64::MAX, true);
    assert_eq!(ticks, u64::MAX);
}
