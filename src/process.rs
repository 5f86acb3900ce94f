//! Per-process sampling: the raw record read for each process, and the
//! enriched sample computed from it.
use vstd::prelude::*;
use vstd::string::StringExecFns;
use vstd::utf8::encode_utf8;

use std::collections::HashMap;

use crate::cpu::{cpu_share, get_cpu_usage, process_ticks, tick_diff, CpuAccountant, CpuTimes, CpuUsage};
use crate::error::RTopError;
use crate::network::{
    get_net_ports, listed, tcp_ports_of, udp_ports_of, FdTarget, INode, SocketTable, TcpEntry,
    UdpEntry,
};

verus! {

broadcast use vstd::std_specs::hash::group_hash_axioms;

pub type Pid = libc::pid_t;

pub type Uid = libc::uid_t;

/// Length, in bytes, at which the kernel truncates a process's short name.
pub const MAX_STAT_NAME_LEN: usize = 15;

/// Command-line arguments, as text.
pub open spec fn arg_views(args: Seq<String>) -> Seq<Seq<char>> {
    args.map_values(|a: String| a@)
}

/// The arguments joined by single spaces.
pub open spec fn joined(args: Seq<Seq<char>>) -> Seq<char>
    decreases args.len(),
{
    if args.len() == 0 {
        Seq::empty()
    } else if args.len() == 1 {
        args[0]
    } else {
        joined(args.drop_last()) + seq![' '] + args.last()
    }
}

/// Index of the last '/' in `s`, or -1.
pub open spec fn last_slash(s: Seq<char>) -> int
    decreases s.len(),
{
    if s.len() == 0 {
        -1
    } else if s.last() == '/' {
        s.len() - 1
    } else {
        last_slash(s.drop_last())
    }
}

/// The last path segment of `arg`: what follows its last '/', or all of it
/// where it has none.
pub open spec fn basename(arg: Seq<char>) -> Seq<char> {
    arg.subrange(last_slash(arg) + 1, arg.len() as int)
}

/// The display name of a process whose command line is not empty: the short
/// name, unless that reached the kernel's length limit, in which case the
/// basename of the first argument.
pub open spec fn display_name(comm: Seq<char>, args: Seq<Seq<char>>) -> Seq<char> {
    if encode_utf8(comm).len() >= MAX_STAT_NAME_LEN {
        basename(args[0])
    } else {
        comm
    }
}

/// (command, name) of a process with short name `comm` and command line
/// `cmdline` (`None` where it could not be read).
pub open spec fn cmd_and_name(comm: Seq<char>, cmdline: Option<Seq<Seq<char>>>) -> (Seq<char>, Seq<char>) {
    match cmdline {
        None => (comm, comm),
        Some(args) => if args.len() == 0 {
            (seq!['['] + comm + seq![']'], comm)
        } else {
            (joined(args), display_name(comm, args))
        },
    }
}

pub open spec fn cmdline_view(cmdline: Option<Vec<String>>) -> Option<Seq<Seq<char>>> {
    match cmdline {
        Some(v) => Some(arg_views(v@)),
        None => None,
    }
}

proof fn lemma_last_slash_bounds(s: Seq<char>)
    ensures
        -1 <= last_slash(s) < s.len(),
        last_slash(s) >= 0 ==> s[last_slash(s)] == '/',
    decreases s.len(),
{
    if s.len() > 0 && s.last() != '/' {
        lemma_last_slash_bounds(s.drop_last());
    }
}

/// Index of the last '/' in `s`, if it has one.
fn find_last_slash(s: &str) -> (r: Option<usize>)
    ensures
        match r {
            Some(i) => i == last_slash(s@),
            None => last_slash(s@) == -1,
        },
{
    let n = s.unicode_len();
    let mut i: usize = n;
    assert(s@.take(n as int) =~= s@);
    while i > 0
        invariant
            i <= n == s@.len(),
            last_slash(s@) == last_slash(s@.take(i as int)),
        decreases i,
    {
        assert(s@.take(i as int).drop_last() =~= s@.take(i - 1));
        if s.get_char(i - 1) == '/' {
            return Some(i - 1);
        }
        i = i - 1;
    }
    None
}

/// Joins the arguments with single spaces.
fn join_args(args: &Vec<String>) -> (r: String)
    ensures
        r@ == joined(arg_views(args@)),
{
    let mut out = String::new();
    let mut i: usize = 0;
    while i < args.len()
        invariant
            i <= args@.len(),
            out@ == joined(arg_views(args@.take(i as int))),
        decreases args@.len() - i,
    {
        assert(arg_views(args@.take(i + 1)).drop_last() =~= arg_views(args@.take(i as int)));
        if i > 0 {
            let sp = " ";
            proof { reveal_strlit(" "); }
            out.append(sp);
        } else {
            assert(out@ =~= Seq::empty());
        }
        out.append(args[i].as_str());
        i = i + 1;
    }
    assert(args@.take(args@.len() as int) =~= args@);
    out
}

/// The command and the display name of a process. With an empty command line
/// (kernel threads, zombies) the command is the short name in brackets; where
/// the command line could not be read, both are the short name.
pub fn get_proc_cmd_and_name(comm: &String, cmdline: &Option<Vec<String>>) -> (r: (String, String))
    ensures
        (r.0@, r.1@) == cmd_and_name(comm@, cmdline_view(*cmdline)),
{
    match cmdline {
        None => (comm.clone(), comm.clone()),
        Some(args) => {
            if args.len() == 0 {
                let open = "[";
                let close = "]";
                proof {
                    reveal_strlit("[");
                    reveal_strlit("]");
                }
                let mut command = String::from_str(open);
                command.append(comm.as_str());
                command.append(close);
                (command, comm.clone())
            } else {
                let command = join_args(args);
                let name = if comm.as_str().as_bytes().len() >= MAX_STAT_NAME_LEN {
                    let first = args[0].as_str();
                    let n = first.unicode_len();
                    proof { lemma_last_slash_bounds(first@); }
                    match find_last_slash(first) {
                        Some(slash) => first.substring_char(slash + 1, n).to_owned(),
                        None => {
                            assert(first@.subrange(0, first@.len() as int) =~= first@);
                            args[0].clone()
                        },
                    }
                } else {
                    comm.clone()
                };
                (command, name)
            }
        },
    }
}


/// The label that sysinfo gives, on Linux, to a raw process state code.
pub open spec fn status_label(c: char) -> Seq<char> {
    if c == 'R' {
        "Runnable"@
    } else if c == 'S' {
        "Sleeping"@
    } else if c == 'I' {
        "Idle"@
    } else if c == 'D' {
        "UninterruptibleDiskSleep"@
    } else if c == 'Z' {
        "Zombie"@
    } else if c == 'T' {
        "Stopped"@
    } else if c == 't' {
        "Tracing"@
    } else if c == 'X' || c == 'x' {
        "Dead"@
    } else if c == 'K' {
        "Wakekill"@
    } else if c == 'W' {
        "Waking"@
    } else if c == 'P' {
        "Parked"@
    } else {
        "Unknown"@
    }
}

/// Relies on sysinfo's Linux `ProcessStatus::from(char)` and the `Display`
/// impl of `ProcessStatus`, which together map a state code to its label.
#[verifier::external_body]
fn status_text(c: char) -> (r: String)
    ensures
        r@ == status_label(c),
{
    sysinfo::ProcessStatus::from(c).to_string()
}

/// Memory share in hundredths of a percent, rounded down; 0 where the total
/// is unknown (zero).
pub open spec fn mem_share(rss_bytes: u64, total_memory_bytes: u64) -> int {
    if total_memory_bytes == 0 {
        0
    } else {
        rss_bytes * 10000 / (total_memory_bytes as int)
    }
}

fn get_mem_usage(rss_bytes: u64, total_memory_bytes: u64) -> (r: u128)
    ensures
        r == mem_share(rss_bytes, total_memory_bytes),
{
    if total_memory_bytes == 0 {
        0
    } else {
        let scaled: u128 = rss_bytes as u128 * 10000;
        scaled / total_memory_bytes as u128
    }
}

/// What was read of one process in one cycle.
pub struct ProcessRecord {
    pub pid: Pid,
    pub parent_pid: Pid,
    /// Ticks spent in user mode since the process started.
    pub utime: u64,
    /// Ticks spent in kernel mode since the process started.
    pub stime: u64,
    pub priority: i64,
    /// Raw state code ('R', 'S', ...).
    pub state: char,
    /// Short name, as truncated by the kernel.
    pub comm: String,
    pub rss_bytes: u64,
    /// Command-line arguments; `None` where they could not be read.
    pub cmdline: Option<Vec<String>>,
    /// (read, written) disk bytes; `None` where they could not be read.
    pub io: Option<(u64, u64)>,
    pub uid: Option<Uid>,
    /// Open descriptors; `None` where the table could not be read.
    pub fds: Option<Vec<FdTarget>>,
}

/// One process in a snapshot.
pub struct ProcData {
    pub pid: Pid,
    pub parent_pid: Pid,
    /// CPU usage, in hundredths of a percent (1234 is 12.34 %).
    pub round_cpu_usage_percent: u128,
    /// Memory usage, in hundredths of a percent.
    pub round_mem_usage_percent: u128,
    pub total_disk_read_bytes: Option<u64>,
    pub total_disk_write_bytes: Option<u64>,
    /// System-wide bytes received, attached for display.
    pub total_net_received_bytes: u64,
    /// System-wide bytes sent, attached for display.
    pub total_net_sent_bytes: u64,
    pub name: String,
    pub command: String,
    /// (label, raw code)
    pub state: (String, char),
    pub uid: Option<Uid>,
    pub priority: i64,
    pub tcp_ports: Vec<u16>,
    pub udp_ports: Vec<u16>,
}

/// A `ProcData` as plain values.
pub struct ProcView {
    pub pid: Pid,
    pub parent_pid: Pid,
    pub cpu: int,
    pub mem: int,
    pub disk_read: Option<u64>,
    pub disk_write: Option<u64>,
    pub net_received: u64,
    pub net_sent: u64,
    pub name: Seq<char>,
    pub command: Seq<char>,
    pub state: (Seq<char>, char),
    pub uid: Option<Uid>,
    pub priority: i64,
    pub tcp_ports: Seq<u16>,
    pub udp_ports: Seq<u16>,
}

impl View for ProcData {
    type V = ProcView;

    open spec fn view(&self) -> ProcView {
        ProcView {
            pid: self.pid,
            parent_pid: self.parent_pid,
            cpu: self.round_cpu_usage_percent as int,
            mem: self.round_mem_usage_percent as int,
            disk_read: self.total_disk_read_bytes,
            disk_write: self.total_disk_write_bytes,
            net_received: self.total_net_received_bytes,
            net_sent: self.total_net_sent_bytes,
            name: self.name@,
            command: self.command@,
            state: (self.state.0@, self.state.1),
            uid: self.uid,
            priority: self.priority,
            tcp_ports: self.tcp_ports@,
            udp_ports: self.udp_ports@,
        }
    }
}

/// The sample computed from a record.
pub open spec fn sample_of(
    rec: ProcessRecord,
    usage: CpuUsage,
    prev_cpu_time: u64,
    total_memory_bytes: u64,
    use_current_cpu_total: bool,
    tcp: Map<INode, TcpEntry>,
    udp: Map<INode, UdpEntry>,
    net_totals: (u64, u64),
) -> ProcView {
    let names = cmd_and_name(rec.comm@, cmdline_view(rec.cmdline));
    ProcView {
        pid: rec.pid,
        parent_pid: rec.parent_pid,
        cpu: cpu_share(
            tick_diff(process_ticks(rec.utime, rec.stime), prev_cpu_time),
            usage,
            use_current_cpu_total,
        ),
        mem: mem_share(rec.rss_bytes, total_memory_bytes),
        disk_read: match rec.io {
            Some(io) => Some(io.0),
            None => None,
        },
        disk_write: match rec.io {
            Some(io) => Some(io.1),
            None => None,
        },
        net_received: net_totals.0,
        net_sent: net_totals.1,
        name: names.1,
        command: names.0,
        state: (status_label(rec.state), rec.state),
        uid: rec.uid,
        priority: rec.priority,
        tcp_ports: tcp_ports_of(listed(rec.fds), tcp),
        udp_ports: udp_ports_of(listed(rec.fds), udp),
    }
}

fn copy_ports(v: &Vec<u16>) -> (r: Vec<u16>)
    ensures
        r@ == v@,
{
    let r = v.clone();
    assert(r@ =~= v@);
    r
}

impl ProcData {
    /// A copy of the sample.
    pub fn copy_sample(&self) -> (r: ProcData)
        ensures
            r@ == self@,
    {
        ProcData {
            pid: self.pid,
            parent_pid: self.parent_pid,
            round_cpu_usage_percent: self.round_cpu_usage_percent,
            round_mem_usage_percent: self.round_mem_usage_percent,
            total_disk_read_bytes: self.total_disk_read_bytes,
            total_disk_write_bytes: self.total_disk_write_bytes,
            total_net_received_bytes: self.total_net_received_bytes,
            total_net_sent_bytes: self.total_net_sent_bytes,
            name: self.name.clone(),
            command: self.command.clone(),
            state: (self.state.0.clone(), self.state.1),
            uid: self.uid,
            priority: self.priority,
            tcp_ports: copy_ports(&self.tcp_ports),
            udp_ports: copy_ports(&self.udp_ports),
        }
    }

    /// The sample of one process, and its tick count to keep for the next
    /// cycle.
    pub fn new(
        record: ProcessRecord,
        cpu_usage: &CpuUsage,
        prev_cpu_time: u64,
        total_memory_bytes: u64,
        use_current_cpu_total: bool,
        net_map: &SocketTable,
        net_totals: (u64, u64),
    ) -> (r: (ProcData, u64))
        ensures
            r.0@ == sample_of(
                record,
                *cpu_usage,
                prev_cpu_time,
                total_memory_bytes,
                use_current_cpu_total,
                net_map.tcp@,
                net_map.udp@,
                net_totals,
            ),
            r.1 == process_ticks(record.utime, record.stime),
    {
        let (command, name) = get_proc_cmd_and_name(&record.comm, &record.cmdline);
        let (cpu, new_process_time) = get_cpu_usage(
            record.utime,
            record.stime,
            cpu_usage,
            prev_cpu_time,
            use_current_cpu_total,
        );
        let (total_disk_read_bytes, total_disk_write_bytes) = match record.io {
            Some(io) => (Some(io.0), Some(io.1)),
            None => (None, None),
        };
        let mem = get_mem_usage(record.rss_bytes, total_memory_bytes);
        let (tcp_ports, udp_ports) = get_net_ports(&record.fds, net_map);
        let data = ProcData {
            pid: record.pid,
            parent_pid: record.parent_pid,
            round_cpu_usage_percent: cpu,
            round_mem_usage_percent: mem,
            total_disk_read_bytes,
            total_disk_write_bytes,
            total_net_received_bytes: net_totals.0,
            total_net_sent_bytes: net_totals.1,
            name,
            command,
            state: (status_text(record.state), record.state),
            uid: record.uid,
            priority: record.priority,
            tcp_ports,
            udp_ports,
        };
        (data, new_process_time)
    }
}


// ---------------------------------------------------------------------------
// Ordering of a snapshot.
// ---------------------------------------------------------------------------

pub open spec fn views(s: Seq<ProcData>) -> Seq<ProcView> {
    s.map_values(|d: ProcData| d@)
}

/// Highest CPU share first.
pub open spec fn sorted_by_cpu(s: Seq<ProcView>) -> bool {
    forall|i: int, j: int| 0 <= i < j < s.len() ==> s[i].cpu >= s[j].cpu
}

/// The entries of `s` whose CPU share is `k`, in their order in `s`.
pub open spec fn with_cpu(s: Seq<ProcView>, k: int) -> Seq<ProcView>
    decreases s.len(),
{
    if s.len() == 0 {
        Seq::empty()
    } else {
        with_cpu(s.drop_last(), k) + if s.last().cpu == k {
            seq![s.last()]
        } else {
            Seq::empty()
        }
    }
}

/// `out` is `input` ordered by CPU share, highest first, where entries of
/// equal share keep their order in `input`.
pub open spec fn is_stable_cpu_sort(out: Seq<ProcView>, input: Seq<ProcView>) -> bool {
    &&& sorted_by_cpu(out)
    &&& forall|k: int| #[trigger] with_cpu(out, k) == with_cpu(input, k)
}

proof fn lemma_with_cpu_concat(a: Seq<ProcView>, b: Seq<ProcView>, k: int)
    ensures
        with_cpu(a + b, k) == with_cpu(a, k) + with_cpu(b, k),
    decreases b.len(),
{
    if b.len() == 0 {
        assert(a + b =~= a);
        assert(with_cpu(a, k) + with_cpu(b, k) =~= with_cpu(a, k));
    } else {
        assert((a + b).drop_last() =~= a + b.drop_last());
        lemma_with_cpu_concat(a, b.drop_last(), k);
        assert(with_cpu(a + b, k) =~= with_cpu(a, k) + with_cpu(b, k));
    }
}

proof fn lemma_with_cpu_absent(b: Seq<ProcView>, k: int)
    requires
        forall|i: int| 0 <= i < b.len() ==> b[i].cpu != k,
    ensures
        with_cpu(b, k) == Seq::<ProcView>::empty(),
    decreases b.len(),
{
    if b.len() > 0 {
        lemma_with_cpu_absent(b.drop_last(), k);
        assert(with_cpu(b, k) =~= Seq::<ProcView>::empty());
    }
}

/// Orders the samples by CPU share, highest first; samples of equal share
/// keep their order.
pub fn sort_by_cpu(data: Vec<ProcData>) -> (r: Vec<ProcData>)
    ensures
        is_stable_cpu_sort(views(r@), views(data@)),
        views(r@).to_multiset() == views(data@).to_multiset(),
{
    let mut out: Vec<ProcData> = Vec::new();
    let ghost all = data@;
    assert(views(out@) =~= views(all.take(0)));
    for d in it: data.into_iter()
        invariant
            it.seq() == all,
            sorted_by_cpu(views(out@)),
            forall|k: int| #[trigger] with_cpu(views(out@), k) == with_cpu(views(all.take(it.index() as int)), k),
            views(out@).to_multiset() == views(all.take(it.index() as int)).to_multiset(),
    {
        let mut pos: usize = 0;
        while pos < out.len() && out[pos].round_cpu_usage_percent >= d.round_cpu_usage_percent
            invariant
                pos <= out@.len(),
                forall|j: int| 0 <= j < pos ==> out@[j].round_cpu_usage_percent >= d.round_cpu_usage_percent,
            decreases out@.len() - pos,
        {
            pos = pos + 1;
        }
        let ghost o = views(out@);
        let ghost x = d@;
        let ghost i = it.index() as int;
        proof {
            assert forall|j: int| pos <= j < o.len() implies o[j].cpu < x.cpu by {
                assert(o[pos as int].cpu < x.cpu);
                if j > pos {
                    assert(o[pos as int].cpu >= o[j].cpu);
                }
            }
        }
        out.insert(pos, d);
        proof {
            let n = views(out@);
            assert(n =~= o.take(pos as int) + seq![x] + o.skip(pos as int));
            assert(o =~= o.take(pos as int) + o.skip(pos as int));
            assert(views(all.take(i + 1)).drop_last() =~= views(all.take(i)));
            assert(views(all.take(i + 1)).last() == x);
            assert(n =~= o.insert(pos as int, x));
            assert(views(all.take(i + 1)) =~= views(all.take(i)).push(x));
            vstd::seq_lib::to_multiset_insert(o, pos as int, x);
            vstd::seq_lib::to_multiset_build(views(all.take(i)), x);
            assert forall|a: int, b: int| 0 <= a < b < n.len() implies n[a].cpu >= n[b].cpu by {
                if b < pos {
                } else if b == pos {
                    assert(n[a] == o[a]);
                } else if a < pos {
                    assert(n[a] == o[a]);
                    assert(n[b] == o[b - 1]);
                } else if a == pos {
                    assert(n[b] == o[b - 1]);
                } else {
                    assert(n[a] == o[a - 1]);
                    assert(n[b] == o[b - 1]);
                }
            }
            assert forall|k: int| #[trigger] with_cpu(n, k) == with_cpu(views(all.take(i + 1)), k) by {
                lemma_with_cpu_concat(o.take(pos as int) + seq![x], o.skip(pos as int), k);
                lemma_with_cpu_concat(o.take(pos as int), seq![x], k);
                lemma_with_cpu_concat(o.take(pos as int), o.skip(pos as int), k);
                assert(seq![x].drop_last() =~= Seq::<ProcView>::empty());
                assert(with_cpu(Seq::<ProcView>::empty(), k) =~= Seq::<ProcView>::empty());
                let single = if x.cpu == k { seq![x] } else { Seq::<ProcView>::empty() };
                assert(with_cpu(seq![x], k) =~= single);
                if k == x.cpu {
                    lemma_with_cpu_absent(o.skip(pos as int), k);
                    assert(with_cpu(n, k) =~= with_cpu(o, k) + seq![x]);
                } else {
                    assert(with_cpu(n, k) =~= with_cpu(o, k));
                }
                assert(with_cpu(views(all.take(i)), k) == with_cpu(o, k));
            }
        }
    }
    proof {
        assert(all.take(all.len() as int) =~= all);
    }
    out
}


spec fn lists_pid(s: Seq<ProcView>, p: Pid) -> bool {
    exists|i: int| 0 <= i < s.len() && s[i].pid == p
}

proof fn lemma_permutation_keeps_pids(a: Seq<ProcView>, b: Seq<ProcView>)
    requires
        a.to_multiset() == b.to_multiset(),
    ensures
        a.len() == b.len(),
        forall|p: Pid| #[trigger] lists_pid(a, p) <==> lists_pid(b, p),
{
    broadcast use vstd::seq_lib::group_to_multiset_ensures;

    vstd::seq_lib::to_multiset_len(a);
    vstd::seq_lib::to_multiset_len(b);
    assert forall|p: Pid| #[trigger] lists_pid(a, p) implies lists_pid(b, p) by {
        let i = choose|i: int| 0 <= i < a.len() && a[i].pid == p;
        assert(a.contains(a[i]));
        assert(b.to_multiset().count(a[i]) > 0);
        assert(b.contains(a[i]));
        let j = choose|j: int| 0 <= j < b.len() && b[j] == a[i];
        assert(b[j].pid == p);
    }
    assert forall|p: Pid| #[trigger] lists_pid(b, p) implies lists_pid(a, p) by {
        let j = choose|j: int| 0 <= j < b.len() && b[j].pid == p;
        assert(b.contains(b[j]));
        assert(a.to_multiset().count(b[j]) > 0);
        assert(a.contains(b[j]));
        let i = choose|i: int| 0 <= i < a.len() && a[i] == b[j];
        assert(a[i].pid == p);
    }
}

// ---------------------------------------------------------------------------
// One sampling cycle.
// ---------------------------------------------------------------------------

/// The processes whose record could be read, in enumeration order.
pub open spec fn live(recs: Seq<Option<ProcessRecord>>) -> Seq<ProcessRecord>
    decreases recs.len(),
{
    if recs.len() == 0 {
        Seq::empty()
    } else {
        live(recs.drop_last()) + match recs.last() {
            Some(r) => seq![r],
            None => Seq::empty(),
        }
    }
}

/// The tick count kept for each process of the cycle.
pub open spec fn ticks_map(recs: Seq<ProcessRecord>) -> Map<Pid, u64>
    decreases recs.len(),
{
    if recs.len() == 0 {
        Map::empty()
    } else {
        ticks_map(recs.drop_last()).insert(
            recs.last().pid,
            process_ticks(recs.last().utime, recs.last().stime),
        )
    }
}

/// The tick count kept for `pid` at the previous cycle; 0 for a process not
/// seen before.
pub open spec fn prev_ticks(m: Map<Pid, u64>, pid: Pid) -> u64 {
    if m.contains_key(pid) {
        m[pid]
    } else {
        0
    }
}

/// The samples of the records, in enumeration order.
pub open spec fn samples_of(
    recs: Seq<ProcessRecord>,
    prev: Map<Pid, u64>,
    usage: CpuUsage,
    total_memory_bytes: u64,
    use_current_cpu_total: bool,
    tcp: Map<INode, TcpEntry>,
    udp: Map<INode, UdpEntry>,
    net_totals: (u64, u64),
) -> Seq<ProcView> {
    recs.map_values(
        |r: ProcessRecord|
            sample_of(
                r,
                usage,
                prev_ticks(prev, r.pid),
                total_memory_bytes,
                use_current_cpu_total,
                tcp,
                udp,
                net_totals,
            ),
    )
}

/// One sampling cycle. `stat` holds the global CPU counters (`None` where
/// they could not be read: the cycle fails and nothing changes);
/// `processes` the enumeration, with `None` for each process that vanished
/// before its record could be read. On success the accountant holds the new
/// counters, the tick map holds exactly the processes of this cycle, and the
/// samples come ordered by CPU share, highest first.
pub fn read_process_data(
    accountant: &mut CpuAccountant,
    cpu_times: &mut HashMap<Pid, u64>,
    use_current_cpu_total: bool,
    total_memory_bytes: u64,
    stat: Option<CpuTimes>,
    processes: Result<Vec<Option<ProcessRecord>>, RTopError>,
    net_map: &SocketTable,
    net_totals: (u64, u64),
) -> (r: Result<Vec<ProcData>, RTopError>)
    ensures
        stat is None ==> {
            &&& r is Err
            &&& r->Err_0.err_msg@ == "Could not compute CPU usage."@
            &&& *final(accountant) == *old(accountant)
            &&& final(cpu_times)@ == old(cpu_times)@
        },
        stat is Some ==> {
            let times = stat->0;
            let usage = old(accountant).usage_for(times);
            &&& final(accountant).has_prev()
            &&& final(accountant).prev_idle() == times.idle_ticks()
            &&& final(accountant).prev_non_idle() == times.non_idle_ticks()
            &&& match processes {
                Err(e) => r == Err::<Vec<ProcData>, RTopError>(e) && final(cpu_times)@ == old(cpu_times)@,
                Ok(recs) => {
                    &&& r is Ok
                    &&& final(cpu_times)@ == ticks_map(live(recs@))
                    &&& r->Ok_0@.len() == live(recs@).len()
                    &&& forall|pid: Pid| #[trigger] final(cpu_times)@.contains_key(pid)
                        <==> exists|i: int| 0 <= i < r->Ok_0@.len() && r->Ok_0@[i].pid == pid
                    &&& is_stable_cpu_sort(
                        views(r->Ok_0@),
                        samples_of(
                            live(recs@),
                            old(cpu_times)@,
                            usage,
                            total_memory_bytes,
                            use_current_cpu_total,
                            net_map.tcp@,
                            net_map.udp@,
                            net_totals,
                        ),
                    )
                },
            }
        },
{
    let times = match stat {
        Some(t) => t,
        None => {
            let msg = "Could not compute CPU usage.";
            return Err(RTopError::new(String::from_str(msg)));
        },
    };
    let usage = accountant.update(&times);
    let recs = match processes {
        Ok(recs) => recs,
        Err(e) => {
            return Err(e);
        },
    };
    let ghost prev = cpu_times@;
    let ghost all = recs@;
    let mut next: HashMap<Pid, u64> = HashMap::new();
    let mut data: Vec<ProcData> = Vec::new();
    for entry in it: recs.into_iter()
        invariant
            it.seq() == all,
            cpu_times@ == prev,
            next@ == ticks_map(live(all.take(it.index() as int))),
            views(data@) == samples_of(
                live(all.take(it.index() as int)),
                prev,
                usage,
                total_memory_bytes,
                use_current_cpu_total,
                net_map.tcp@,
                net_map.udp@,
                net_totals,
            ),
    {
        let ghost i = it.index() as int;
        assert(all.take(i + 1).drop_last() =~= all.take(i));
        match entry {
            Some(rec) => {
                let pid = rec.pid;
                let prev_time = match cpu_times.get(&pid) {
                    Some(t) => *t,
                    None => 0,
                };
                let ghost rec_g = rec;
                assert(prev_time == prev_ticks(prev, rec_g.pid));
                let (d, ticks) = ProcData::new(
                    rec,
                    &usage,
                    prev_time,
                    total_memory_bytes,
                    use_current_cpu_total,
                    net_map,
                    net_totals,
                );
                next.insert(pid, ticks);
                let ghost old_data = data@;
                let ghost dv = d@;
                data.push(d);
                proof {
                    let l = live(all.take(i + 1));
                    assert(views(data@) =~= views(old_data).push(dv));
                    let s_old = samples_of(
                        live(all.take(i)),
                        prev,
                        usage,
                        total_memory_bytes,
                        use_current_cpu_total,
                        net_map.tcp@,
                        net_map.udp@,
                        net_totals,
                    );
                    assert(live(all.take(i)).push(rec_g).map_values(
                        |r: ProcessRecord|
                            sample_of(
                                r,
                                usage,
                                prev_ticks(prev, r.pid),
                                total_memory_bytes,
                                use_current_cpu_total,
                                net_map.tcp@,
                                net_map.udp@,
                                net_totals,
                            ),
                    ) =~= s_old.push(dv));
                    assert(l =~= live(all.take(i)).push(rec_g));
                    assert(l.drop_last() =~= live(all.take(i)));
                    assert(views(data@) =~= samples_of(
                        l,
                        prev,
                        usage,
                        total_memory_bytes,
                        use_current_cpu_total,
                        net_map.tcp@,
                        net_map.udp@,
                        net_totals,
                    ));
                }
            },
            None => {
                assert(live(all.take(i + 1)) =~= live(all.take(i)));
            },
        }
    }
    assert(all.take(all.len() as int) =~= all);
    *cpu_times = next;
    let ghost samples = views(data@);
    let sorted = sort_by_cpu(data);
    proof {
        let l = live(all);
        lemma_permutation_keeps_pids(views(sorted@), samples);
        lemma_ticks_map_dom(l);
        assert(views(sorted@).len() == sorted@.len());
        assert forall|pid: Pid| #[trigger] cpu_times@.contains_key(pid)
            <==> exists|i: int| 0 <= i < sorted@.len() && sorted@[i].pid == pid by {
            if cpu_times@.contains_key(pid) {
                assert(pids_of(l).contains(pid));
                let j = choose|j: int| 0 <= j < l.len() && l[j].pid == pid;
                assert(samples[j].pid == pid);
                assert(lists_pid(samples, pid));
                assert(lists_pid(views(sorted@), pid));
                let i = choose|i: int| 0 <= i < views(sorted@).len() && views(sorted@)[i].pid == pid;
                assert(sorted@[i].pid == pid);
            }
            if exists|i: int| 0 <= i < sorted@.len() && sorted@[i].pid == pid {
                let i = choose|i: int| 0 <= i < sorted@.len() && sorted@[i].pid == pid;
                assert(views(sorted@)[i].pid == pid);
                assert(lists_pid(views(sorted@), pid));
                assert(lists_pid(samples, pid));
                let j = choose|j: int| 0 <= j < samples.len() && samples[j].pid == pid;
                assert(l[j].pid == pid);
                assert(pids_of(l).contains(pid));
            }
        }
    }
    Ok(sorted)
}


/// The pids of the records.
pub open spec fn pids_of(recs: Seq<ProcessRecord>) -> Set<Pid> {
    Set::new(|pid: Pid| exists|i: int| 0 <= i < recs.len() && recs[i].pid == pid)
}

proof fn lemma_ticks_map_dom(recs: Seq<ProcessRecord>)
    ensures
        ticks_map(recs).dom() == pids_of(recs),
        ticks_map(recs).dom().finite(),
        (forall|i: int, j: int| 0 <= i < j < recs.len() ==> recs[i].pid != recs[j].pid)
            ==> ticks_map(recs).dom().len() == recs.len(),
    decreases recs.len(),
{
    if recs.len() == 0 {
        assert(ticks_map(recs).dom() =~= pids_of(recs));
    } else {
        let init = recs.drop_last();
        lemma_ticks_map_dom(init);
        assert forall|pid: Pid| #[trigger] pids_of(recs).contains(pid)
            <==> pids_of(init).contains(pid) || pid == recs.last().pid by {
            if pids_of(recs).contains(pid) && pid != recs.last().pid {
                let i = choose|i: int| 0 <= i < recs.len() && recs[i].pid == pid;
                assert(init[i].pid == pid);
            }
            if pids_of(init).contains(pid) {
                let i = choose|i: int| 0 <= i < init.len() && init[i].pid == pid;
                assert(recs[i].pid == pid);
            }
            if pid == recs.last().pid {
                assert(recs[recs.len() - 1].pid == pid);
            }
        }
        assert(ticks_map(recs).dom() =~= pids_of(recs));
        if forall|i: int, j: int| 0 <= i < j < recs.len() ==> recs[i].pid != recs[j].pid {
            assert(!pids_of(init).contains(recs.last().pid)) by {
                if pids_of(init).contains(recs.last().pid) {
                    let i = choose|i: int| 0 <= i < init.len() && init[i].pid == recs.last().pid;
                    assert(recs[i].pid == recs[recs.len() - 1].pid);
                }
            }
        }
    }
}

/// After a cycle, the tick map holds exactly the pids of the processes read
/// in that cycle, so a pid that is no longer seen is no longer kept; where
/// those pids are distinct, it has one entry per process read.
pub proof fn lemma_tick_map_follows_cycle(recs: Seq<Option<ProcessRecord>>)
    ensures
        forall|pid: Pid| #[trigger] ticks_map(live(recs)).contains_key(pid)
            <==> exists|i: int| 0 <= i < live(recs).len() && live(recs)[i].pid == pid,
        (forall|i: int, j: int| 0 <= i < j < live(recs).len() ==> live(recs)[i].pid != live(recs)[j].pid)
            ==> ticks_map(live(recs)).len() == live(recs).len(),
{
    lemma_ticks_map_dom(live(recs));
    assert forall|pid: Pid| #[trigger] ticks_map(live(recs)).contains_key(pid)
        <==> exists|i: int| 0 <= i < live(recs).len() && live(recs)[i].pid == pid by {
        assert(pids_of(live(recs)).contains(pid) <==> exists|i: int| 0 <= i < live(recs).len() && live(recs)[i].pid == pid);
    }
}

} // verus!
