//! The data model: what one observation of the system holds.
//!
//! Percentages are fixed-point numbers in hundredths of a percent, the
//! precision in which the kernel writes them: `8550` stands for 85.50 %.

use crate::keyed::KeyedList;
use vstd::prelude::*;

verus! {

/// The largest percentage, in hundredths of a percent.
pub const FULL_SCALE: u32 = 10000;

/// The larger of two numbers.
pub open spec fn max2(a: int, b: int) -> int {
    if a >= b {
        a
    } else {
        b
    }
}

/// The share of time that tasks were stalled on a resource, averaged over
/// the last 10, 60 and 300 seconds, with the total stall time where known.
#[derive(Debug, Clone, Copy)]
pub struct ResourcePressure {
    sec_10: u32,
    sec_60: u32,
    sec_300: u32,
    total: Option<u64>,
}

impl ResourcePressure {
    #[verifier::type_invariant]
    spec fn in_range(self) -> bool {
        self.sec_10 <= FULL_SCALE && self.sec_60 <= FULL_SCALE && self.sec_300 <= FULL_SCALE
    }

    /// The 10 second average, in hundredths of a percent.
    pub closed spec fn avg10(self) -> int {
        self.sec_10 as int
    }

    /// The 60 second average, in hundredths of a percent.
    pub closed spec fn avg60(self) -> int {
        self.sec_60 as int
    }

    /// The 300 second average, in hundredths of a percent.
    pub closed spec fn avg300(self) -> int {
        self.sec_300 as int
    }

    /// The total stall time in microseconds, where known.
    pub closed spec fn stall_micros(self) -> Option<u64> {
        self.total
    }

    /// The weighted pressure in thousandths of a percent: the largest of the
    /// 10 second average, 0.8 times the 60 second average and 0.6 times the
    /// 300 second average.
    pub open spec fn weighted_value(self) -> int {
        max2(10 * self.avg10(), max2(8 * self.avg60(), 6 * self.avg300()))
    }

    /// A pressure record of the three averages, each in hundredths of a
    /// percent; none where an average is above 100 %.
    pub fn new(sec_10: u32, sec_60: u32, sec_300: u32, total: Option<u64>) -> (r: Option<Self>)
        ensures
            r is Some <==> sec_10 <= FULL_SCALE && sec_60 <= FULL_SCALE && sec_300 <= FULL_SCALE,
            r is Some ==> r->0.avg10() == sec_10 && r->0.avg60() == sec_60 && r->0.avg300()
                == sec_300 && r->0.stall_micros() == total,
    {
        if sec_10 <= FULL_SCALE && sec_60 <= FULL_SCALE && sec_300 <= FULL_SCALE {
            Some(ResourcePressure { sec_10, sec_60, sec_300, total })
        } else {
            None
        }
    }

    /// The 10 second average in hundredths of a percent, at most 100 %.
    pub fn sec_10(&self) -> (r: u32)
        ensures
            r == self.avg10(),
            r <= FULL_SCALE,
    {
        proof {
            use_type_invariant(self);
        }
        self.sec_10
    }

    /// The 60 second average in hundredths of a percent, at most 100 %.
    pub fn sec_60(&self) -> (r: u32)
        ensures
            r == self.avg60(),
            r <= FULL_SCALE,
    {
        proof {
            use_type_invariant(self);
        }
        self.sec_60
    }

    /// The 300 second average in hundredths of a percent, at most 100 %.
    pub fn sec_300(&self) -> (r: u32)
        ensures
            r == self.avg300(),
            r <= FULL_SCALE,
    {
        proof {
            use_type_invariant(self);
        }
        self.sec_300
    }

    /// The total stall time in microseconds, where known.
    pub fn total(&self) -> (r: Option<u64>)
        ensures
            r == self.stall_micros(),
    {
        self.total
    }

    /// The weighted pressure, in thousandths of a percent.
    pub fn weighted(&self) -> (r: u32)
        ensures
            r == self.weighted_value(),
            r <= 10 * FULL_SCALE,
    {
        proof {
            use_type_invariant(self);
        }
        let a: u32 = 10 * self.sec_10;
        let b: u32 = 8 * self.sec_60;
        let c: u32 = 6 * self.sec_300;
        let bc: u32 = if b >= c {
            b
        } else {
            c
        };
        if a >= bc {
            a
        } else {
            bc
        }
    }
}

/// Counters of a cgroup's `memory.stat`. A counter that the file does not
/// name is zero.
#[derive(Debug, Clone, Copy, PartialEq, Eq, Structural)]
pub struct MemoryStat {
    pub anon: u64,
    pub file: u64,
    pub kernel_stack: u64,
    pub slab: u64,
    pub sock: u64,
    pub shmem: u64,
    pub file_mapped: u64,
    pub file_dirty: u64,
    pub file_writeback: u64,
    pub anon_thp: u64,
    pub inactive_anon: u64,
    pub active_anon: u64,
    pub inactive_file: u64,
    pub active_file: u64,
    pub unevictable: u64,
    pub slab_reclaimable: u64,
    pub slab_unreclaimable: u64,
    pub pgfault: u64,
    pub pgmajfault: u64,
    pub workingset_refault: u64,
    pub workingset_activate: u64,
    pub workingset_nodereclaim: u64,
    pub pgrefill: u64,
    pub pgscan: u64,
    pub pgsteal: u64,
    pub pgactivate: u64,
    pub pgdeactivate: u64,
    pub pglazyfree: u64,
    pub pglazyfreed: u64,
    pub thp_fault_alloc: u64,
    pub thp_collapse_alloc: u64,
}

impl MemoryStat {
    /// The record with every counter at zero.
    pub open spec fn zero() -> MemoryStat {
        MemoryStat {
            anon: 0,
            file: 0,
            kernel_stack: 0,
            slab: 0,
            sock: 0,
            shmem: 0,
            file_mapped: 0,
            file_dirty: 0,
            file_writeback: 0,
            anon_thp: 0,
            inactive_anon: 0,
            active_anon: 0,
            inactive_file: 0,
            active_file: 0,
            unevictable: 0,
            slab_reclaimable: 0,
            slab_unreclaimable: 0,
            pgfault: 0,
            pgmajfault: 0,
            workingset_refault: 0,
            workingset_activate: 0,
            workingset_nodereclaim: 0,
            pgrefill: 0,
            pgscan: 0,
            pgsteal: 0,
            pgactivate: 0,
            pgdeactivate: 0,
            pglazyfree: 0,
            pglazyfreed: 0,
            thp_fault_alloc: 0,
            thp_collapse_alloc: 0,
        }
    }
}

impl Default for MemoryStat {
    fn default() -> (r: MemoryStat)
        ensures
            r == MemoryStat::zero(),
    {
        MemoryStat {
            anon: 0,
            file: 0,
            kernel_stack: 0,
            slab: 0,
            sock: 0,
            shmem: 0,
            file_mapped: 0,
            file_dirty: 0,
            file_writeback: 0,
            anon_thp: 0,
            inactive_anon: 0,
            active_anon: 0,
            inactive_file: 0,
            active_file: 0,
            unevictable: 0,
            slab_reclaimable: 0,
            slab_unreclaimable: 0,
            pgfault: 0,
            pgmajfault: 0,
            workingset_refault: 0,
            workingset_activate: 0,
            workingset_nodereclaim: 0,
            pgrefill: 0,
            pgscan: 0,
            pgsteal: 0,
            pgactivate: 0,
            pgdeactivate: 0,
            pglazyfree: 0,
            pglazyfreed: 0,
            thp_fault_alloc: 0,
            thp_collapse_alloc: 0,
        }
    }
}

/// I/O counters of a cgroup, summed over all block devices.
#[derive(Debug, Clone, Copy, PartialEq, Eq, Structural)]
pub struct IOStat {
    pub rbytes: u64,
    pub wbytes: u64,
    pub rios: u64,
    pub wios: u64,
    pub dbytes: u64,
    pub dios: u64,
}

impl IOStat {
    /// The record with every counter at zero.
    pub open spec fn zero() -> IOStat {
        IOStat { rbytes: 0, wbytes: 0, rios: 0, wios: 0, dbytes: 0, dios: 0 }
    }
}

impl Default for IOStat {
    fn default() -> (r: IOStat)
        ensures
            r == IOStat::zero(),
    {
        IOStat { rbytes: 0, wbytes: 0, rios: 0, wios: 0, dbytes: 0, dios: 0 }
    }
}

/// System-wide memory figures: swap in bytes, the counters of
/// `/proc/vmstat` by name, and swap-out rates in bytes per second.
#[derive(Debug)]
pub struct SystemContext {
    pub swaptotal: u64,
    pub swapused: u64,
    pub swappiness: u32,
    pub vmstat: KeyedList<u64>,
    pub swapout_bps: u64,
    pub swapout_bps_60: u64,
    pub swapout_bps_300: u64,
}

/// What is known of one process when an action looks at it. `memory_usage`
/// is the virtual size in bytes, `cpu_usage` the user and system time in
/// clock ticks, `start_time` the time at which the process started, in clock
/// ticks since the system was booted.
#[derive(Debug, Clone)]
pub struct ProcessInfo {
    pub pid: i32,
    pub comm: String,
    pub memory_usage: u64,
    pub cpu_usage: u64,
    pub start_time: u64,
    pub oom_score: i32,
    pub oom_score_adj: i32,
}

/// What a plugin tells the chain that ran it.
#[derive(Debug, Clone, Copy, PartialEq, Eq, Structural)]
pub enum PluginRet {
    /// Go on with the next plugin.
    Continue,
    /// Stop the chain here.
    Stop,
}

} // verus!
