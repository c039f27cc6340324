//! What the report of a set of records shows: the header of each task and the
//! numbers of each column. Laying them out as text is left to the caller.
use vstd::prelude::*;
use std::time::Duration;
use crate::model::{nanos_of, TaskStats};
use vstd::string::StringExecFns;

verus! {

/// Relies on `Duration::as_micros`: the whole length in microseconds,
/// nanoseconds below a microsecond dropped.
pub assume_specification[ core::time::Duration::as_micros ](d: &Duration) -> (r: u128)
    ensures
        r == nanos_of(*d) / 1000,
;

/// The decimal digit `d`.
pub open spec fn digit(d: nat) -> char {
    seq!['0', '1', '2', '3', '4', '5', '6', '7', '8', '9'][d as int]
}

/// The decimal representation of `n`, without leading zeros.
pub open spec fn decimal(n: nat) -> Seq<char>
    decreases n,
{
    if n < 10 {
        seq![digit(n)]
    } else {
        decimal(n / 10) + seq![digit(n % 10)]
    }
}

/// Relies on `u32::to_string` (its `Display`): the decimal representation.
#[verifier::external_body]
fn decimal_string(n: u32) -> (r: String)
    ensures
        r@ == decimal(n as nat),
{
    n.to_string()
}

/// How a task is named in the first column of a report.
pub trait HeaderFormat {
    fn format(&self, tid: u32) -> String;
}

/// Names a task by its id: `TID: 1234`.
#[derive(Default, Debug, Clone, Copy)]
pub struct DefaultHeaderFormat {}

impl DefaultHeaderFormat {
    pub fn new() -> (r: DefaultHeaderFormat) {
        DefaultHeaderFormat {}
    }

    /// The header of task `tid`.
    pub fn header(&self, tid: u32) -> (r: String)
        ensures
            r@ == seq!['T', 'I', 'D', ':', ' '] + decimal(tid as nat),
    {
        let mut s = "TID: ".to_owned();
        let digits = decimal_string(tid);
        s.append(digits.as_str());
        proof {
            reveal_strlit("TID: ");
        }
        s
    }
}

impl HeaderFormat for DefaultHeaderFormat {
    fn format(&self, tid: u32) -> String {
        self.header(tid)
    }
}

/// One line of the summary report.
#[derive(Debug, PartialEq, Eq)]
pub struct SummaryRow {
    pub task: String,
    pub utime_us: u128,
    pub stime_us: u128,
    pub rss: u64,
    pub vmem: u64,
    pub read: u64,
    pub write: u64,
    pub cpu_delay_ns: u128,
    pub blkio_delay_ns: u128,
    pub swapin_delay_ns: u128,
    pub reclaim_delay_ns: u128,
}

/// One line of the delay report: the mean delay of each class, then the
/// totals.
#[derive(Debug, PartialEq, Eq)]
pub struct DelayRow {
    pub task: String,
    pub cpu_avg: u128,
    pub blkio_avg: u128,
    pub swapin_avg: u128,
    pub reclaim_avg: u128,
    pub cpu_total: u128,
    pub blkio_total: u128,
    pub swapin_total: u128,
    pub reclaim_total: u128,
}

/// The mean delay of a class: the total in nanoseconds over the count, a
/// count of zero counting as one.
pub open spec fn mean_delay(total_ns: nat, count: u64) -> nat {
    total_ns / (if count == 0 {
        1
    } else {
        count as nat
    })
}

/// Mean delay of one class.
pub fn average_delay(total: &Duration, count: u64) -> (r: u128)
    ensures
        r == mean_delay(nanos_of(*total), count),
{
    let ns = total.as_nanos();
    let n: u128 = if count == 0 {
        1
    } else {
        count as u128
    };
    ns / n
}

/// Lays out reports of records, naming each task with `H`.
pub struct Printer<H: HeaderFormat> {
    header_format: H,
}

impl<H: HeaderFormat> Printer<H> {
    pub fn new(header_format: H) -> (r: Printer<H>)
        ensures
            r.header_format() == header_format,
    {
        Printer { header_format }
    }

    pub closed spec fn header_format(&self) -> H {
        self.header_format
    }

    /// The header of task `tid`.
    pub fn header(&self, tid: u32) -> String {
        self.header_format.format(tid)
    }

    /// The summary line of `ts`: CPU times in microseconds, memory and I/O
    /// counters as kept, delay totals in nanoseconds.
    pub fn summary_row(&self, ts: &TaskStats) -> (r: SummaryRow)
        ensures
            r.utime_us == nanos_of(ts.cpu.utime_total) / 1000,
            r.stime_us == nanos_of(ts.cpu.stime_total) / 1000,
            r.rss == ts.memory.rss_total,
            r.vmem == ts.memory.virt_total,
            r.read == ts.io.read_bytes,
            r.write == ts.io.write_bytes,
            r.cpu_delay_ns == nanos_of(ts.delays.cpu.delay_total),
            r.blkio_delay_ns == nanos_of(ts.delays.blkio.delay_total),
            r.swapin_delay_ns == nanos_of(ts.delays.swapin.delay_total),
            r.reclaim_delay_ns == nanos_of(ts.delays.freepages.delay_total),
    {
        SummaryRow {
            task: self.header(ts.tid),
            utime_us: ts.cpu.utime_total.as_micros(),
            stime_us: ts.cpu.stime_total.as_micros(),
            rss: ts.memory.rss_total,
            vmem: ts.memory.virt_total,
            read: ts.io.read_bytes,
            write: ts.io.write_bytes,
            cpu_delay_ns: ts.delays.cpu.delay_total.as_nanos(),
            blkio_delay_ns: ts.delays.blkio.delay_total.as_nanos(),
            swapin_delay_ns: ts.delays.swapin.delay_total.as_nanos(),
            reclaim_delay_ns: ts.delays.freepages.delay_total.as_nanos(),
        }
    }

    /// The delay line of `ts`: the mean and the total of each delay class,
    /// in nanoseconds.
    pub fn delay_row(&self, ts: &TaskStats) -> (r: DelayRow)
        ensures
            r.cpu_avg == mean_delay(nanos_of(ts.delays.cpu.delay_total), ts.delays.cpu.count),
            r.blkio_avg == mean_delay(nanos_of(ts.delays.blkio.delay_total), ts.delays.blkio.count),
            r.swapin_avg == mean_delay(
                nanos_of(ts.delays.swapin.delay_total),
                ts.delays.swapin.count,
            ),
            r.reclaim_avg == mean_delay(
                nanos_of(ts.delays.freepages.delay_total),
                ts.delays.freepages.count,
            ),
            r.cpu_total == nanos_of(ts.delays.cpu.delay_total),
            r.blkio_total == nanos_of(ts.delays.blkio.delay_total),
            r.swapin_total == nanos_of(ts.delays.swapin.delay_total),
            r.reclaim_total == nanos_of(ts.delays.freepages.delay_total),
    {
        let d = ts.delays;
        DelayRow {
            task: self.header(ts.tid),
            cpu_avg: average_delay(&d.cpu.delay_total, d.cpu.count),
            blkio_avg: average_delay(&d.blkio.delay_total, d.blkio.count),
            swapin_avg: average_delay(&d.swapin.delay_total, d.swapin.count),
            reclaim_avg: average_delay(&d.freepages.delay_total, d.freepages.count),
            cpu_total: d.cpu.delay_total.as_nanos(),
            blkio_total: d.blkio.delay_total.as_nanos(),
            swapin_total: d.swapin.delay_total.as_nanos(),
            reclaim_total: d.freepages.delay_total.as_nanos(),
        }
    }
}

} // verus!
