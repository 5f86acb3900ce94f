//! Sampling and accounting engine of a live process monitor: CPU accounting
//! over cumulative tick counters, correlation of open sockets with the
//! processes that hold them, and the per-cycle bookkeeping that makes
//! successive samples comparable.
use vstd::prelude::*;

pub mod cli;
pub mod cpu;
pub mod error;
pub mod network;
pub mod process;
pub mod system_reader;
pub mod ui;

verus! {

/// A value's text for display.
pub trait Casting {
    fn to_string(&self) -> String;
}

impl Casting for procfs::net::TcpState {
    fn to_string(&self) -> String {
        tcp_state_text(self)
    }
}

impl Casting for procfs::net::UdpState {
    fn to_string(&self) -> String {
        udp_state_text(self)
    }
}

/// Relies on the `Debug` impl that procfs derives for `TcpState`: the name of
/// the variant.
#[verifier::external_body]
fn tcp_state_text(s: &procfs::net::TcpState) -> String {
    format!("{:?}", s)
}

/// Relies on the `Debug` impl that procfs derives for `UdpState`: the name of
/// the variant.
#[verifier::external_body]
fn udp_state_text(s: &procfs::net::UdpState) -> String {
    format!("{:?}", s)
}

} // verus!
