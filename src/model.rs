//! The decoded statistics record and the layout of the kernel's
//! `struct taskstats` (protocol version 8, 328 bytes) that it is read from.
use vstd::prelude::*;
use std::time::Duration;
use crate::wire::{le_at, read_le};

verus! {

/// Bytes held for one `struct taskstats`: the larger of the two layouts the
/// struct has been given (328 bytes with the kernel's explicit 8-byte
/// alignment of `ac_sched`, `ac_uid`, `ac_btime` and `ac_etime`, 320 without).
pub const TASKSTATS_SIZE: usize = 328;

// Byte offsets of the fields of `struct taskstats`, in the kernel's layout.
// Fields are host-order integers; the width of each is noted.

/// `version`: u16.
pub const VERSION: usize = 0;
/// `ac_exitcode`: u32.
pub const AC_EXITCODE: usize = 4;
/// `ac_flag`: u8.
pub const AC_FLAG: usize = 8;
/// `ac_nice`: u8.
pub const AC_NICE: usize = 9;
/// `cpu_count`: u64, samples of delay waiting for a CPU.
pub const CPU_COUNT: usize = 16;
/// `cpu_delay_total`: u64 nanoseconds.
pub const CPU_DELAY_TOTAL: usize = 24;
/// `blkio_count`: u64.
pub const BLKIO_COUNT: usize = 32;
/// `blkio_delay_total`: u64 nanoseconds.
pub const BLKIO_DELAY_TOTAL: usize = 40;
/// `swapin_count`: u64.
pub const SWAPIN_COUNT: usize = 48;
/// `swapin_delay_total`: u64 nanoseconds.
pub const SWAPIN_DELAY_TOTAL: usize = 56;
/// `cpu_run_real_total`: u64 nanoseconds.
pub const CPU_RUN_REAL_TOTAL: usize = 64;
/// `cpu_run_virtual_total`: u64 nanoseconds.
pub const CPU_RUN_VIRTUAL_TOTAL: usize = 72;
/// `ac_comm`: 32 bytes, the command name.
pub const AC_COMM: usize = 80;
/// `ac_sched`: u8.
pub const AC_SCHED: usize = 112;
/// `ac_uid`: u32.
pub const AC_UID: usize = 120;
/// `ac_gid`: u32.
pub const AC_GID: usize = 124;
/// `ac_pid`: u32.
pub const AC_PID: usize = 128;
/// `ac_ppid`: u32.
pub const AC_PPID: usize = 132;
/// `ac_btime`: u32 seconds since the epoch.
pub const AC_BTIME: usize = 136;
/// `ac_etime`: u64 microseconds.
pub const AC_ETIME: usize = 144;
/// `ac_utime`: u64 microseconds.
pub const AC_UTIME: usize = 152;
/// `ac_stime`: u64 microseconds.
pub const AC_STIME: usize = 160;
/// `ac_minflt`: u64.
pub const AC_MINFLT: usize = 168;
/// `ac_majflt`: u64.
pub const AC_MAJFLT: usize = 176;
/// `coremem`: u64 MB-microseconds.
pub const COREMEM: usize = 184;
/// `virtmem`: u64 MB-microseconds.
pub const VIRTMEM: usize = 192;
/// `hiwater_rss`: u64 KB.
pub const HIWATER_RSS: usize = 200;
/// `hiwater_vm`: u64 KB.
pub const HIWATER_VM: usize = 208;
/// `read_char`: u64 bytes.
pub const READ_CHAR: usize = 216;
/// `write_char`: u64 bytes.
pub const WRITE_CHAR: usize = 224;
/// `read_syscalls`: u64.
pub const READ_SYSCALLS: usize = 232;
/// `write_syscalls`: u64.
pub const WRITE_SYSCALLS: usize = 240;
/// `read_bytes`: u64 bytes.
pub const READ_BYTES: usize = 248;
/// `write_bytes`: u64 bytes.
pub const WRITE_BYTES: usize = 256;
/// `cancelled_write_bytes`: u64 bytes.
pub const CANCELLED_WRITE_BYTES: usize = 264;
/// `nvcsw`: u64.
pub const NVCSW: usize = 272;
/// `nivcsw`: u64.
pub const NIVCSW: usize = 280;
/// `ac_utimescaled`: u64 microseconds.
pub const AC_UTIMESCALED: usize = 288;
/// `ac_stimescaled`: u64 microseconds.
pub const AC_STIMESCALED: usize = 296;
/// `cpu_scaled_run_real_total`: u64 nanoseconds.
pub const CPU_SCALED_RUN_REAL_TOTAL: usize = 304;
/// `freepages_count`: u64.
pub const FREEPAGES_COUNT: usize = 312;
/// `freepages_delay_total`: u64 nanoseconds.
pub const FREEPAGES_DELAY_TOTAL: usize = 320;

/// The length of a `Duration` in nanoseconds, as `Duration::as_nanos`
/// reports it.
pub uninterp spec fn nanos_of(d: Duration) -> nat;

/// Relies on `Duration::as_nanos`: the whole length in nanoseconds.
pub assume_specification[ core::time::Duration::as_nanos ](d: &Duration) -> (r: u128)
    ensures
        r == nanos_of(*d),
;

/// Relies on `Duration::from_micros`: a duration of `micros` microseconds.
pub assume_specification[ core::time::Duration::from_micros ](micros: u64) -> (r: Duration)
    ensures
        nanos_of(r) == micros * 1000,
;

/// Relies on `Duration::from_nanos`: a duration of `nanos` nanoseconds.
pub assume_specification[ core::time::Duration::from_nanos ](nanos: u64) -> (r: Duration)
    ensures
        nanos_of(r) == nanos,
;

/// The taskstats of one task or thread group.
///
/// The typed fields are read from the raw `struct taskstats` kept beside
/// them; fields without a typed counterpart are read from the raw bytes
/// with [`TaskStats::field`].
#[derive(Clone, Copy, Debug)]
pub struct TaskStats {
    /// The raw `struct taskstats`
    pub inner_buf: [u8; TASKSTATS_SIZE],
    /// The target task ID
    pub tid: u32,
    /// Statistics related to CPU time
    pub cpu: Cpu,
    /// Statistics related to memory, vm
    pub memory: Memory,
    /// Statistics related to I/O at syscall surface
    pub io: Io,
    /// Statistics related to I/O at block device level
    pub blkio: BlkIo,
    /// Statistics related to context switches
    pub ctx_switches: ContextSwitches,
    /// Statistics related to scheduling delay (delay accounting)
    pub delays: Delays,
}

/// Statistics related to CPU time
#[derive(Debug, Clone, Copy)]
pub struct Cpu {
    /// User CPU time
    pub utime_total: Duration,
    /// System CPU time
    pub stime_total: Duration,
    /// Wall-clock running time
    pub real_time_total: Duration,
    /// Virtual running time
    pub virtual_time_total: Duration,
}

/// Statistics related to memory, vm
#[derive(Debug, Clone, Copy)]
pub struct Memory {
    /// Accumulated RSS usage in duration of a task, in MBytes-usecs
    pub rss_total: u64,
    /// Accumulated virtual memory usage in duration of a task
    pub virt_total: u64,
    /// Minor faults count
    pub minor_faults: u64,
    /// Major faults count
    pub major_faults: u64,
}

/// Statistics related to I/O at syscall surface
#[derive(Debug, Clone, Copy)]
pub struct Io {
    /// Bytes read
    pub read_bytes: u64,
    /// Bytes written
    pub write_bytes: u64,
    /// Number of read syscalls
    pub read_syscalls: u64,
    /// Number of write syscalls
    pub write_syscalls: u64,
}

/// Statistics related to I/O at block device level
#[derive(Debug, Clone, Copy)]
pub struct BlkIo {
    /// Bytes read
    pub read_bytes: u64,
    /// Bytes written
    pub write_bytes: u64,
    /// Bytes of cancelled writes
    pub cancelled_write_bytes: u64,
}

/// Statistics related to context switches
#[derive(Debug, Clone, Copy)]
pub struct ContextSwitches {
    /// Count of voluntary context switches
    pub voluntary: u64,
    /// Count of non-voluntary context switches
    pub non_voluntary: u64,
}

/// Statistics related to scheduling delay (delay accounting)
#[derive(Debug, Clone, Copy)]
pub struct Delays {
    /// Delay waiting for cpu, while runnable
    pub cpu: DelayStat,
    /// Delay waiting for synchronous block I/O to complete
    pub blkio: DelayStat,
    /// Delay waiting for page fault I/O (swap in only)
    pub swapin: DelayStat,
    /// Delay waiting for memory reclaim
    pub freepages: DelayStat,
}

/// One class of delay.
#[derive(Debug, Clone, Copy)]
pub struct DelayStat {
    /// Number of delay values recorded
    pub count: u64,
    /// Cumulative total delay
    pub delay_total: Duration,
}

/// The 64-bit field at `off` of the raw struct `raw`.
pub open spec fn u64_at(raw: Seq<u8>, off: usize) -> nat {
    le_at(raw, off as int, 8)
}

/// A delay class decodes from its count field and its nanosecond total.
pub open spec fn delay_decodes_from(d: DelayStat, raw: Seq<u8>, count: usize, total: usize) -> bool {
    &&& d.count == u64_at(raw, count)
    &&& nanos_of(d.delay_total) == u64_at(raw, total)
}

impl TaskStats {
    /// The raw `struct taskstats` this record was decoded from.
    pub open spec fn raw(&self) -> Seq<u8> {
        self.inner_buf@
    }

    /// Every typed field holds what the field table reads from `raw`:
    /// microseconds for user and system time, nanoseconds for run times and
    /// delay totals, plain counts otherwise.
    pub open spec fn decodes_from(&self, raw: Seq<u8>) -> bool {
        &&& self.tid == le_at(raw, AC_PID as int, 4)
        &&& nanos_of(self.cpu.utime_total) == 1000 * u64_at(raw, AC_UTIME)
        &&& nanos_of(self.cpu.stime_total) == 1000 * u64_at(raw, AC_STIME)
        &&& nanos_of(self.cpu.real_time_total) == u64_at(raw, CPU_RUN_REAL_TOTAL)
        &&& nanos_of(self.cpu.virtual_time_total) == u64_at(raw, CPU_RUN_VIRTUAL_TOTAL)
        &&& self.memory.rss_total == u64_at(raw, COREMEM)
        &&& self.memory.virt_total == u64_at(raw, VIRTMEM)
        &&& self.memory.minor_faults == u64_at(raw, AC_MINFLT)
        &&& self.memory.major_faults == u64_at(raw, AC_MAJFLT)
        &&& self.io.read_bytes == u64_at(raw, READ_CHAR)
        &&& self.io.write_bytes == u64_at(raw, WRITE_CHAR)
        &&& self.io.read_syscalls == u64_at(raw, READ_SYSCALLS)
        &&& self.io.write_syscalls == u64_at(raw, WRITE_SYSCALLS)
        &&& self.blkio.read_bytes == u64_at(raw, READ_BYTES)
        &&& self.blkio.write_bytes == u64_at(raw, WRITE_BYTES)
        &&& self.blkio.cancelled_write_bytes == u64_at(raw, CANCELLED_WRITE_BYTES)
        &&& self.ctx_switches.voluntary == u64_at(raw, NVCSW)
        &&& self.ctx_switches.non_voluntary == u64_at(raw, NIVCSW)
        &&& delay_decodes_from(self.delays.cpu, raw, CPU_COUNT, CPU_DELAY_TOTAL)
        &&& delay_decodes_from(self.delays.blkio, raw, BLKIO_COUNT, BLKIO_DELAY_TOTAL)
        &&& delay_decodes_from(self.delays.swapin, raw, SWAPIN_COUNT, SWAPIN_DELAY_TOTAL)
        &&& delay_decodes_from(self.delays.freepages, raw, FREEPAGES_COUNT, FREEPAGES_DELAY_TOTAL)
    }

    /// The typed fields agree with the raw struct kept beside them.
    pub open spec fn wf(&self) -> bool {
        &&& self.raw().len() == TASKSTATS_SIZE
        &&& self.decodes_from(self.raw())
    }

    /// Decodes the `struct taskstats` at the start of `buf`, which must hold
    /// one whole.
    pub fn from_bytes(buf: &[u8]) -> (r: TaskStats)
        requires
            buf@.len() >= TASKSTATS_SIZE,
        ensures
            r.raw() == buf@.subrange(0, TASKSTATS_SIZE as int),
            r.wf(),
    {
        let mut inner_buf = [0u8; TASKSTATS_SIZE];
        let mut i: usize = 0;
        while i < TASKSTATS_SIZE
            invariant
                i <= TASKSTATS_SIZE,
                buf@.len() >= TASKSTATS_SIZE,
                inner_buf@.len() == TASKSTATS_SIZE,
                forall|j: int| 0 <= j < i ==> inner_buf@[j] == buf@[j],
            decreases TASKSTATS_SIZE - i,
        {
            inner_buf[i] = buf[i];
            i = i + 1;
        }
        proof {
            assert(inner_buf@ =~= buf@.subrange(0, TASKSTATS_SIZE as int));
        }
        let raw = inner_buf.as_slice();
        let tid = read_le(raw, AC_PID, 4);
        proof {
            crate::wire::lemma_le_value_bound(raw@.subrange(AC_PID as int, AC_PID + 4));
            reveal_with_fuel(crate::wire::byte_span, 5);
        }
        TaskStats {
            tid: tid as u32,
            cpu: Cpu {
                utime_total: Duration::from_micros(read_le(raw, AC_UTIME, 8)),
                stime_total: Duration::from_micros(read_le(raw, AC_STIME, 8)),
                real_time_total: Duration::from_nanos(read_le(raw, CPU_RUN_REAL_TOTAL, 8)),
                virtual_time_total: Duration::from_nanos(read_le(raw, CPU_RUN_VIRTUAL_TOTAL, 8)),
            },
            memory: Memory {
                rss_total: read_le(raw, COREMEM, 8),
                virt_total: read_le(raw, VIRTMEM, 8),
                minor_faults: read_le(raw, AC_MINFLT, 8),
                major_faults: read_le(raw, AC_MAJFLT, 8),
            },
            io: Io {
                read_bytes: read_le(raw, READ_CHAR, 8),
                write_bytes: read_le(raw, WRITE_CHAR, 8),
                read_syscalls: read_le(raw, READ_SYSCALLS, 8),
                write_syscalls: read_le(raw, WRITE_SYSCALLS, 8),
            },
            blkio: BlkIo {
                read_bytes: read_le(raw, READ_BYTES, 8),
                write_bytes: read_le(raw, WRITE_BYTES, 8),
                cancelled_write_bytes: read_le(raw, CANCELLED_WRITE_BYTES, 8),
            },
            ctx_switches: ContextSwitches {
                voluntary: read_le(raw, NVCSW, 8),
                non_voluntary: read_le(raw, NIVCSW, 8),
            },
            delays: Delays {
                cpu: DelayStat {
                    count: read_le(raw, CPU_COUNT, 8),
                    delay_total: Duration::from_nanos(read_le(raw, CPU_DELAY_TOTAL, 8)),
                },
                blkio: DelayStat {
                    count: read_le(raw, BLKIO_COUNT, 8),
                    delay_total: Duration::from_nanos(read_le(raw, BLKIO_DELAY_TOTAL, 8)),
                },
                swapin: DelayStat {
                    count: read_le(raw, SWAPIN_COUNT, 8),
                    delay_total: Duration::from_nanos(read_le(raw, SWAPIN_DELAY_TOTAL, 8)),
                },
                freepages: DelayStat {
                    count: read_le(raw, FREEPAGES_COUNT, 8),
                    delay_total: Duration::from_nanos(read_le(raw, FREEPAGES_DELAY_TOTAL, 8)),
                },
            },
            inner_buf,
        }
    }

    /// The raw `struct taskstats` the record was decoded from.
    pub fn inner(&self) -> (r: &[u8; TASKSTATS_SIZE])
        ensures
            r@ == self.raw(),
    {
        &self.inner_buf
    }

    /// The `width`-byte field at `offset` of the raw struct, for fields the
    /// record has no typed counterpart of (`AC_UID`, `AC_BTIME`, ...).
    pub fn field(&self, offset: usize, width: usize) -> (r: u64)
        requires
            width <= 8,
            offset + width <= TASKSTATS_SIZE,
        ensures
            r == le_at(self.raw(), offset as int, width as int),
    {
        read_le(self.inner_buf.as_slice(), offset, width)
    }
}

} // verus!
