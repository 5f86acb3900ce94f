//! Open sockets of the host, and their correlation with the descriptors that
//! a process holds.
use std::collections::HashMap;
use vstd::prelude::*;

verus! {

broadcast use vstd::std_specs::hash::group_hash_axioms;

#[verifier::external_type_specification]
#[verifier::external_body]
pub struct ExTcpState(procfs::net::TcpState);

#[verifier::external_type_specification]
#[verifier::external_body]
pub struct ExUdpState(procfs::net::UdpState);

/// Kernel identifier of an open socket; unique among the sockets open at one
/// instant, and reused after close.
pub type INode = u64;

/// An open TCP socket (IPv4 or IPv6).
pub struct TcpEntry {
    pub inode: INode,
    /// Octets of the local IP address: 4 for IPv4, 16 for IPv6.
    pub local_ip: Vec<u8>,
    pub local_port: u16,
    pub state: procfs::net::TcpState,
}

/// An open UDP socket (IPv4 or IPv6).
pub struct UdpEntry {
    pub inode: INode,
    /// Octets of the local IP address: 4 for IPv4, 16 for IPv6.
    pub local_ip: Vec<u8>,
    pub local_port: u16,
    pub state: procfs::net::UdpState,
}

pub enum NetEntry {
    UDPEntry(UdpEntry),
    TCPEntry(TcpEntry),
}

impl NetEntry {
    /// The name of the socket's protocol state.
    pub fn state_name(&self) -> String {
        match self {
            NetEntry::TCPEntry(e) => crate::Casting::to_string(&e.state),
            NetEntry::UDPEntry(e) => crate::Casting::to_string(&e.state),
        }
    }
}

/// What one socket table read gave: its entries, or none where the read
/// failed.
pub open spec fn listed<T>(read: Option<Vec<T>>) -> Seq<T> {
    match read {
        Some(v) => v@,
        None => Seq::empty(),
    }
}

pub open spec fn as_tcp(s: Seq<TcpEntry>) -> Seq<NetEntry> {
    s.map_values(|e: TcpEntry| NetEntry::TCPEntry(e))
}

pub open spec fn as_udp(s: Seq<UdpEntry>) -> Seq<NetEntry> {
    s.map_values(|e: UdpEntry| NetEntry::UDPEntry(e))
}

fn push_tcp(out: &mut Vec<NetEntry>, read: Option<Vec<TcpEntry>>)
    ensures
        final(out)@ == old(out)@ + as_tcp(listed(read)),
{
    if let Some(v) = read {
        let ghost start = out@;
        for e in it: v.into_iter()
            invariant
                out@ == start + as_tcp(it.seq().take(it.index() as int)),
                it.seq() == listed(read),
        {
            proof {
                assert(it.seq().take(it.index() + 1) =~= it.seq().take(it.index() as int).push(e));
            }
            out.push(NetEntry::TCPEntry(e));
            assert(as_tcp(it.seq().take(it.index() + 1)) =~= as_tcp(it.seq().take(it.index() as int)).push(NetEntry::TCPEntry(e)));
        }
        assert(listed(read).take(listed(read).len() as int) =~= listed(read));
    } else {
        assert(as_tcp(listed(read)) =~= Seq::empty());
        assert(out@ + Seq::empty() =~= out@);
    }
}


fn push_udp(out: &mut Vec<NetEntry>, read: Option<Vec<UdpEntry>>)
    ensures
        final(out)@ == old(out)@ + as_udp(listed(read)),
{
    if let Some(v) = read {
        let ghost start = out@;
        for e in it: v.into_iter()
            invariant
                out@ == start + as_udp(it.seq().take(it.index() as int)),
                it.seq() == listed(read),
        {
            proof {
                assert(it.seq().take(it.index() + 1) =~= it.seq().take(it.index() as int).push(e));
            }
            out.push(NetEntry::UDPEntry(e));
            assert(as_udp(it.seq().take(it.index() + 1)) =~= as_udp(it.seq().take(it.index() as int)).push(NetEntry::UDPEntry(e)));
        }
        assert(listed(read).take(listed(read).len() as int) =~= listed(read));
    } else {
        assert(as_udp(listed(read)) =~= Seq::empty());
        assert(out@ + Seq::empty() =~= out@);
    }
}

/// The TCP sockets: those of the IPv4 table, then those of the IPv6 table.
/// A table whose read failed (`None`) contributes nothing, so one family
/// still counts when the other is unavailable.
pub fn get_tcp_net_entries(tcp: Option<Vec<TcpEntry>>, tcp6: Option<Vec<TcpEntry>>) -> (r: Vec<NetEntry>)
    ensures
        r@ == as_tcp(listed(tcp)) + as_tcp(listed(tcp6)),
{
    let mut out: Vec<NetEntry> = Vec::new();
    push_tcp(&mut out, tcp);
    push_tcp(&mut out, tcp6);
    out
}

/// The UDP sockets: those of the IPv4 table, then those of the IPv6 table.
/// A table whose read failed (`None`) contributes nothing.
pub fn get_udp_net_entries(udp: Option<Vec<UdpEntry>>, udp6: Option<Vec<UdpEntry>>) -> (r: Vec<NetEntry>)
    ensures
        r@ == as_udp(listed(udp)) + as_udp(listed(udp6)),
{
    let mut out: Vec<NetEntry> = Vec::new();
    push_udp(&mut out, udp);
    push_udp(&mut out, udp6);
    out
}

/// All open sockets of this instant: the TCP ones, then the UDP ones.
pub fn get_net_entries(
    tcp: Option<Vec<TcpEntry>>,
    tcp6: Option<Vec<TcpEntry>>,
    udp: Option<Vec<UdpEntry>>,
    udp6: Option<Vec<UdpEntry>>,
) -> (r: Vec<NetEntry>)
    ensures
        r@ == as_tcp(listed(tcp)) + as_tcp(listed(tcp6)) + as_udp(listed(udp)) + as_udp(listed(udp6)),
{
    let mut out: Vec<NetEntry> = Vec::new();
    push_tcp(&mut out, tcp);
    push_tcp(&mut out, tcp6);
    push_udp(&mut out, udp);
    push_udp(&mut out, udp6);
    assert(out@ =~= Seq::empty() + as_tcp(listed(tcp)) + as_tcp(listed(tcp6)) + as_udp(listed(udp)) + as_udp(listed(udp6)));
    out
}

/// The TCP sockets of `s` keyed by inode; where two share an inode, the later
/// one is kept.
pub open spec fn tcp_map_of(s: Seq<NetEntry>) -> Map<INode, TcpEntry>
    decreases s.len(),
{
    if s.len() == 0 {
        Map::empty()
    } else {
        let m = tcp_map_of(s.drop_last());
        match s.last() {
            NetEntry::TCPEntry(e) => m.insert(e.inode, e),
            NetEntry::UDPEntry(_) => m,
        }
    }
}

/// The UDP sockets of `s` keyed by inode; where two share an inode, the later
/// one is kept.
pub open spec fn udp_map_of(s: Seq<NetEntry>) -> Map<INode, UdpEntry>
    decreases s.len(),
{
    if s.len() == 0 {
        Map::empty()
    } else {
        let m = udp_map_of(s.drop_last());
        match s.last() {
            NetEntry::UDPEntry(e) => m.insert(e.inode, e),
            NetEntry::TCPEntry(_) => m,
        }
    }
}

/// The open sockets of one instant, keyed by inode, one map per protocol.
pub struct SocketTable {
    pub tcp: HashMap<INode, TcpEntry>,
    pub udp: HashMap<INode, UdpEntry>,
}

/// Builds the inode-keyed socket table from the list of open sockets.
pub fn get_net_entry_map(entries: Vec<NetEntry>) -> (r: SocketTable)
    ensures
        r.tcp@ == tcp_map_of(entries@),
        r.udp@ == udp_map_of(entries@),
{
    let mut tcp: HashMap<INode, TcpEntry> = HashMap::new();
    let mut udp: HashMap<INode, UdpEntry> = HashMap::new();
    let ghost all = entries@;
    for e in it: entries.into_iter()
        invariant
            it.seq() == all,
            tcp@ == tcp_map_of(all.take(it.index() as int)),
            udp@ == udp_map_of(all.take(it.index() as int)),
    {
        assert(all.take(it.index() + 1).drop_last() =~= all.take(it.index() as int));
        match e {
            NetEntry::TCPEntry(t) => {
                tcp.insert(t.inode, t);
            },
            NetEntry::UDPEntry(u) => {
                udp.insert(u.inode, u);
            },
        }
    }
    assert(all.take(all.len() as int) =~= all);
    SocketTable { tcp, udp }
}

/// What an open descriptor of a process refers to.
#[derive(Clone, Copy, Debug, PartialEq, Eq)]
pub enum FdTarget {
    Socket(INode),
    Other,
}

/// Local ports of the TCP sockets that the descriptors refer to, in
/// descriptor order; a descriptor whose inode is not in the table adds nothing.
pub open spec fn tcp_ports_of(fds: Seq<FdTarget>, m: Map<INode, TcpEntry>) -> Seq<u16>
    decreases fds.len(),
{
    if fds.len() == 0 {
        Seq::empty()
    } else {
        let hit = match fds.last() {
            FdTarget::Socket(i) => if m.contains_key(i) {
                seq![m[i].local_port]
            } else {
                Seq::empty()
            },
            FdTarget::Other => Seq::empty(),
        };
        tcp_ports_of(fds.drop_last(), m) + hit
    }
}

/// Local ports of the UDP sockets that the descriptors refer to, in
/// descriptor order; a descriptor whose inode is not in the table adds nothing.
pub open spec fn udp_ports_of(fds: Seq<FdTarget>, m: Map<INode, UdpEntry>) -> Seq<u16>
    decreases fds.len(),
{
    if fds.len() == 0 {
        Seq::empty()
    } else {
        let hit = match fds.last() {
            FdTarget::Socket(i) => if m.contains_key(i) {
                seq![m[i].local_port]
            } else {
                Seq::empty()
            },
            FdTarget::Other => Seq::empty(),
        };
        udp_ports_of(fds.drop_last(), m) + hit
    }
}

/// A descriptor whose inode is in neither map, or that is not a socket, adds
/// no port to either list.
pub proof fn lemma_unmatched_descriptor_adds_nothing(
    fds: Seq<FdTarget>,
    fd: FdTarget,
    tcp: Map<INode, TcpEntry>,
    udp: Map<INode, UdpEntry>,
)
    requires
        match fd {
            FdTarget::Socket(i) => !tcp.contains_key(i) && !udp.contains_key(i),
            FdTarget::Other => true,
        },
    ensures
        tcp_ports_of(fds.push(fd), tcp) == tcp_ports_of(fds, tcp),
        udp_ports_of(fds.push(fd), udp) == udp_ports_of(fds, udp),
{
    assert(fds.push(fd).drop_last() =~= fds);
    assert(tcp_ports_of(fds, tcp) + Seq::<u16>::empty() =~= tcp_ports_of(fds, tcp));
    assert(udp_ports_of(fds, udp) + Seq::<u16>::empty() =~= udp_ports_of(fds, udp));
}

/// The TCP and UDP ports of a process, from its descriptor table (`None`
/// where it could not be read, which gives no ports). Each socket descriptor
/// is looked up by inode in both maps; duplicates are kept.
pub fn get_net_ports(fds: &Option<Vec<FdTarget>>, net_map: &SocketTable) -> (r: (Vec<u16>, Vec<u16>))
    ensures
        r.0@ == tcp_ports_of(listed(*fds), net_map.tcp@),
        r.1@ == udp_ports_of(listed(*fds), net_map.udp@),
{
    let mut tcp_ports: Vec<u16> = Vec::new();
    let mut udp_ports: Vec<u16> = Vec::new();
    match fds {
        Some(fds) => {
            let mut i: usize = 0;
            while i < fds.len()
                invariant
                    i <= fds@.len(),
                    tcp_ports@ == tcp_ports_of(fds@.take(i as int), net_map.tcp@),
                    udp_ports@ == udp_ports_of(fds@.take(i as int), net_map.udp@),
                decreases fds@.len() - i,
            {
                assert(fds@.take(i + 1).drop_last() =~= fds@.take(i as int));
                match fds[i] {
                    FdTarget::Socket(inode) => {
                        match net_map.tcp.get(&inode) {
                            Some(e) => tcp_ports.push(e.local_port),
                            None => {},
                        }
                        match net_map.udp.get(&inode) {
                            Some(e) => udp_ports.push(e.local_port),
                            None => {},
                        }
                    },
                    FdTarget::Other => {},
                }
                i = i + 1;
            }
            assert(fds@.take(fds@.len() as int) =~= fds@);
        },
        None => {},
    }
    (tcp_ports, udp_ports)
}

/// Sum of the received (`.0`) or sent (`.1`) byte counters of the devices.
pub open spec fn byte_sum(devs: Seq<(u64, u64)>, sent: bool) -> int
    decreases devs.len(),
{
    if devs.len() == 0 {
        0
    } else {
        byte_sum(devs.drop_last(), sent) + if sent {
            devs.last().1 as int
        } else {
            devs.last().0 as int
        }
    }
}

proof fn lemma_byte_sum_nonneg(devs: Seq<(u64, u64)>, sent: bool)
    ensures
        byte_sum(devs, sent) >= 0,
    decreases devs.len(),
{
    if devs.len() > 0 {
        lemma_byte_sum_nonneg(devs.drop_last(), sent);
    }
}

pub open spec fn saturated(x: int) -> u64 {
    if x > u64::MAX {
        u64::MAX
    } else {
        x as u64
    }
}

/// System-wide (received, sent) bytes over all network devices, each
/// saturating at `u64::MAX`; (0, 0) where the device list could not be read.
pub fn get_system_network_stats(devices: &Option<Vec<(u64, u64)>>) -> (r: (u64, u64))
    ensures
        r.0 == saturated(byte_sum(listed(*devices), false)),
        r.1 == saturated(byte_sum(listed(*devices), true)),
{
    let mut recv_bytes: u64 = 0;
    let mut sent_bytes: u64 = 0;
    match devices {
        Some(devs) => {
            let mut i: usize = 0;
            while i < devs.len()
                invariant
                    i <= devs@.len(),
                    recv_bytes == saturated(byte_sum(devs@.take(i as int), false)),
                    sent_bytes == saturated(byte_sum(devs@.take(i as int), true)),
                decreases devs@.len() - i,
            {
                assert(devs@.take(i + 1).drop_last() =~= devs@.take(i as int));
                proof {
                    lemma_byte_sum_nonneg(devs@.take(i as int), false);
                    lemma_byte_sum_nonneg(devs@.take(i as int), true);
                }
                recv_bytes = recv_bytes.saturating_add(devs[i].0);
                sent_bytes = sent_bytes.saturating_add(devs[i].1);
                i = i + 1;
            }
            assert(devs@.take(devs@.len() as int) =~= devs@);
            (recv_bytes, sent_bytes)
        },
        None => (0, 0),
    }
}

} // verus!
