//! The sampler's persistent state across cycles, and one cycle over it.
use std::collections::HashMap;
use vstd::prelude::*;

use crate::cpu::{CpuAccountant, CpuTimes};
use crate::error::RTopError;
use crate::network::{
    as_tcp, as_udp, byte_sum, get_net_entries, get_net_entry_map, get_system_network_stats, listed,
    saturated, tcp_map_of, udp_map_of, NetEntry, TcpEntry, UdpEntry,
};
use crate::process::{
    is_stable_cpu_sort, live, read_process_data, samples_of, ticks_map, views, Pid, ProcData,
    ProcessRecord,
};

verus! {

broadcast use vstd::std_specs::hash::group_hash_axioms;

/// Everything read from the host for one cycle. Each read that failed is
/// `None` (or, for the process enumeration, an error).
pub struct Sample {
    /// The global CPU counters.
    pub stat: Option<CpuTimes>,
    pub tcp: Option<Vec<TcpEntry>>,
    pub tcp6: Option<Vec<TcpEntry>>,
    pub udp: Option<Vec<UdpEntry>>,
    pub udp6: Option<Vec<UdpEntry>>,
    /// The processes, with `None` for one that vanished before its record
    /// could be read.
    pub processes: Result<Vec<Option<ProcessRecord>>, RTopError>,
    /// (received, sent) bytes of each network device.
    pub devices: Option<Vec<(u64, u64)>>,
}

/// The open sockets of a sample, TCP then UDP.
pub open spec fn sample_entries(s: Sample) -> Seq<NetEntry> {
    as_tcp(listed(s.tcp)) + as_tcp(listed(s.tcp6)) + as_udp(listed(s.udp)) + as_udp(listed(s.udp6))
}

/// One snapshot: the processes, highest CPU share first, and the
/// system-wide network byte totals.
pub struct SystemData {
    pub processes: Vec<ProcData>,
    pub net_received_bytes: u64,
    pub net_sent_bytes: u64,
}

/// The sampler's state: the previous global counters, the previous tick count
/// of each live process, the CPU accounting mode, and the total memory.
pub struct SystemReader {
    accountant: CpuAccountant,
    cpu_times: HashMap<Pid, u64>,
    use_current_cpu_total: bool,
    pub total_memory_bytes: u64,
}

impl SystemReader {
    pub closed spec fn accountant(self) -> CpuAccountant {
        self.accountant
    }

    pub closed spec fn tick_map(self) -> Map<Pid, u64> {
        self.cpu_times@
    }

    pub closed spec fn total_memory(self) -> u64 {
        self.total_memory_bytes
    }

    /// Whether CPU shares are taken of the active ticks alone
    /// (current-total) rather than of all ticks (overall-total).
    pub closed spec fn current_total(self) -> bool {
        self.use_current_cpu_total
    }

    /// A reader with no previous sample, in the given accounting mode, for a
    /// host with the given total memory.
    pub fn new(use_current_cpu_total: bool, total_memory_bytes: u64) -> (r: SystemReader)
        ensures
            !r.accountant().has_prev(),
            r.tick_map() == Map::<Pid, u64>::empty(),
            r.current_total() == use_current_cpu_total,
            r.total_memory() == total_memory_bytes,
    {
        SystemReader {
            accountant: CpuAccountant::new(),
            cpu_times: HashMap::new(),
            use_current_cpu_total,
            total_memory_bytes,
        }
    }

    /// One cycle over what was read from the host.
    pub fn read_process_data(&mut self, sample: Sample) -> (r: Result<SystemData, RTopError>)
        ensures
            final(self).current_total() == old(self).current_total(),
            final(self).total_memory() == old(self).total_memory(),
            sample.stat is None ==> {
                &&& r is Err
                &&& r->Err_0.err_msg@ == "Could not compute CPU usage."@
                &&& final(self).accountant() == old(self).accountant()
                &&& final(self).tick_map() == old(self).tick_map()
            },
            sample.stat is Some ==> {
                let times = sample.stat->0;
                let usage = old(self).accountant().usage_for(times);
                let rx = saturated(byte_sum(listed(sample.devices), false));
                let tx = saturated(byte_sum(listed(sample.devices), true));
                &&& final(self).accountant().has_prev()
                &&& final(self).accountant().prev_idle() == times.idle_ticks()
                &&& final(self).accountant().prev_non_idle() == times.non_idle_ticks()
                &&& match sample.processes {
                    Err(e) => r == Err::<SystemData, RTopError>(e) && final(self).tick_map()
                        == old(self).tick_map(),
                    Ok(recs) => {
                        &&& r is Ok
                        &&& r->Ok_0.net_received_bytes == rx
                        &&& r->Ok_0.net_sent_bytes == tx
                        &&& final(self).tick_map() == ticks_map(live(recs@))
                        &&& r->Ok_0.processes@.len() == live(recs@).len()
                        &&& forall|pid: Pid| #[trigger] final(self).tick_map().contains_key(pid)
                            <==> exists|i: int| 0 <= i < r->Ok_0.processes@.len()
                                && r->Ok_0.processes@[i].pid == pid
                        &&& is_stable_cpu_sort(
                            views(r->Ok_0.processes@),
                            samples_of(
                                live(recs@),
                                old(self).tick_map(),
                                usage,
                                old(self).total_memory(),
                                old(self).current_total(),
                                tcp_map_of(sample_entries(sample)),
                                udp_map_of(sample_entries(sample)),
                                (rx, tx),
                            ),
                        )
                    },
                }
            },
    {
        let (net_received_bytes, net_sent_bytes) = get_system_network_stats(&sample.devices);
        let entries = get_net_entries(sample.tcp, sample.tcp6, sample.udp, sample.udp6);
        let net_map = get_net_entry_map(entries);
        let processes = read_process_data(
            &mut self.accountant,
            &mut self.cpu_times,
            self.use_current_cpu_total,
            self.total_memory_bytes,
            sample.stat,
            sample.processes,
            &net_map,
            (net_received_bytes, net_sent_bytes),
        )?;
        Ok(SystemData { processes, net_received_bytes, net_sent_bytes })
    }
}

} // verus!
