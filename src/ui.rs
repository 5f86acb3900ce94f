//! State of the display: the latest snapshot and the network totals.
use vstd::prelude::*;

use crate::process::{views, ProcData};

verus! {

/// The display's state.
pub struct App {
    /// All data per process.
    data: Vec<ProcData>,
    /// Network bytes transmitted.
    tx_bits_n: u64,
    /// Network bytes received.
    rx_bits_n: u64,
}

fn copy_data(data: &Vec<ProcData>) -> (r: Vec<ProcData>)
    ensures
        views(r@) == views(data@),
{
    let mut out: Vec<ProcData> = Vec::new();
    let mut i: usize = 0;
    while i < data.len()
        invariant
            i <= data@.len(),
            views(out@) == views(data@.take(i as int)),
        decreases data@.len() - i,
    {
        let ghost before = out@;
        let row = data[i].copy_sample();
        out.push(row);
        assert(views(out@) =~= views(before).push(data@[i as int]@));
        assert(views(data@.take(i + 1)) =~= views(data@.take(i as int)).push(data@[i as int]@));
        i = i + 1;
    }
    assert(data@.take(data@.len() as int) =~= data@);
    out
}

impl App {
    pub closed spec fn rows(self) -> Seq<crate::process::ProcView> {
        views(self.data@)
    }

    pub closed spec fn tx(self) -> u64 {
        self.tx_bits_n
    }

    pub closed spec fn rx(self) -> u64 {
        self.rx_bits_n
    }

    pub fn new(data: Vec<ProcData>, tx_n: u64, rx_n: u64) -> (r: App)
        ensures
            r.rows() == views(data@),
            r.tx() == tx_n,
            r.rx() == rx_n,
    {
        App { data, tx_bits_n: tx_n, rx_bits_n: rx_n }
    }

    pub fn data(&mut self) -> (r: &Vec<ProcData>)
        ensures
            views(r@) == old(self).rows(),
            *final(self) == *old(self),
    {
        &self.data
    }

    pub fn update_data(&mut self, data: &Vec<ProcData>)
        ensures
            final(self).rows() == views(data@),
            final(self).tx() == old(self).tx(),
            final(self).rx() == old(self).rx(),
    {
        self.data = copy_data(data);
    }

    pub fn rx_bits(&self) -> (r: &u64)
        ensures
            *r == self.rx(),
    {
        &self.rx_bits_n
    }

    pub fn update_rx_bits(&mut self, rx_bits: u64)
        ensures
            final(self).rx() == rx_bits,
            final(self).tx() == old(self).tx(),
            final(self).rows() == old(self).rows(),
    {
        self.rx_bits_n = rx_bits;
    }

    pub fn tx_bits(&self) -> (r: &u64)
        ensures
            *r == self.tx(),
    {
        &self.tx_bits_n
    }

    pub fn update_tx_bits(&mut self, tx_bits: u64)
        ensures
            final(self).tx() == tx_bits,
            final(self).rx() == old(self).rx(),
            final(self).rows() == old(self).rows(),
    {
        self.tx_bits_n = tx_bits;
    }
}

/// The row below `selected`, wrapping from the last row to the first.
pub fn next_row(selected: usize, len: usize) -> (r: usize)
    requires
        len > 0,
    ensures
        r == if selected >= len - 1 { 0 } else { selected + 1 },
{
    if selected >= len - 1 {
        0
    } else {
        selected + 1
    }
}

/// The row above `selected`, wrapping from the first row to the last.
pub fn prev_row(selected: usize, len: usize) -> (r: usize)
    requires
        len > 0,
    ensures
        r == if selected > 0 { selected - 1 } else { len - 1 },
{
    if selected > 0 {
        selected - 1
    } else {
        len - 1
    }
}

} // verus!
