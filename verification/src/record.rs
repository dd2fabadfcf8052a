//! The process snapshot rows: a transient record per process, re-derived
//! from the metric source on each full refresh, plus the textual form of
//! each displayed cell and the query-match predicate.
use vstd::prelude::*;

use crate::text::{
    contains_seq, contains_sub, copy_bytes, dec_digits, lower, push_decimal, to_lower,
};

verus! {

/// One row of the process table. `cpu` is the CPU utilization in
/// hundredths of a percent (so `1275` renders as `12.75`); several
/// records may share a name, never a pid within one snapshot.
pub struct ProcessRecord {
    pub pid: u64,
    pub name: Vec<u8>,
    pub cpu: u32,
}

/// The mathematical value of a `ProcessRecord`.
pub ghost struct RecordView {
    pub pid: u64,
    pub name: Seq<u8>,
    pub cpu: u32,
}

impl View for ProcessRecord {
    type V = RecordView;

    open spec fn view(&self) -> RecordView {
        RecordView { pid: self.pid, name: self.name@, cpu: self.cpu }
    }
}

/// The views of all records of a snapshot, in snapshot order.
pub open spec fn views(s: Seq<ProcessRecord>) -> Seq<RecordView> {
    Seq::new(s.len(), |i: int| s[i]@)
}

/// The pid cell as displayed: the decimal digits of the pid.
pub open spec fn pid_text(p: u64) -> Seq<u8> {
    dec_digits(p as nat)
}

/// The CPU cell as displayed: whole percents, a dot, and two fractional
/// digits, e.g. `12.75`.
pub open spec fn cpu_text(c: u32) -> Seq<u8> {
    dec_digits((c / 100) as nat) + seq![
        46u8,
        (48 + (c % 100) / 10) as u8,
        (48 + (c % 100) % 10) as u8,
    ]
}

/// The filter predicate: the lowercased query `lq` occurs in some
/// displayed cell of `r` (pid, name or CPU), each compared lowercased.
pub open spec fn record_matches(r: RecordView, lq: Seq<u8>) -> bool {
    ||| contains_seq(lower(pid_text(r.pid)), lq)
    ||| contains_seq(lower(r.name), lq)
    ||| contains_seq(lower(cpu_text(r.cpu)), lq)
}

impl ProcessRecord {
    /// Builds a record from its three fields.
    pub fn new(pid: u64, name: Vec<u8>, cpu: u32) -> (r: ProcessRecord)
        ensures
            r@ == (RecordView { pid, name: name@, cpu }),
    {
        ProcessRecord { pid, name, cpu }
    }

    /// An identical copy of the record.
    pub fn dup(&self) -> (r: ProcessRecord)
        ensures
            r@ == self@,
    {
        ProcessRecord { pid: self.pid, name: copy_bytes(&self.name), cpu: self.cpu }
    }
}

/// Renders the pid cell.
pub fn render_pid(p: u64) -> (out: Vec<u8>)
    ensures
        out@ == pid_text(p),
{
    let mut out: Vec<u8> = Vec::new();
    push_decimal(&mut out, p);
    proof {
        assert(out@ =~= pid_text(p));
    }
    out
}

/// Renders the CPU cell.
pub fn render_cpu(c: u32) -> (out: Vec<u8>)
    ensures
        out@ == cpu_text(c),
{
    let mut out: Vec<u8> = Vec::new();
    push_decimal(&mut out, (c / 100) as u64);
    out.push(46);
    let f = c % 100;
    out.push(48 + (f / 10) as u8);
    out.push(48 + (f % 10) as u8);
    proof {
        assert(out@ =~= cpu_text(c));
    }
    out
}

/// Decides whether the record survives the filter for the lowercased
/// query `lq`.
pub fn record_matches_exec(r: &ProcessRecord, lq: &Vec<u8>) -> (m: bool)
    ensures
        m == record_matches(r@, lq@),
{
    let pid_cell = to_lower(&render_pid(r.pid));
    if contains_sub(&pid_cell, lq) {
        return true;
    }
    let name_cell = to_lower(&r.name);
    if contains_sub(&name_cell, lq) {
        return true;
    }
    let cpu_cell = to_lower(&render_cpu(r.cpu));
    contains_sub(&cpu_cell, lq)
}

/// Identical copies of all records of a snapshot.
pub fn dup_records(src: &Vec<ProcessRecord>) -> (out: Vec<ProcessRecord>)
    ensures
        views(out@) == views(src@),
{
    let mut out: Vec<ProcessRecord> = Vec::new();
    let mut i: usize = 0;
    while i < src.len()
        invariant
            i <= src@.len(),
            out@.len() == i,
            forall|j: int| 0 <= j < i ==> out@[j]@ == src@[j]@,
        decreases src@.len() - i,
    {
        out.push(src[i].dup());
        i += 1;
    }
    proof {
        assert(views(out@) =~= views(src@));
    }
    out
}

} // verus!
