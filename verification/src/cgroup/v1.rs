//! The cgroup version 1 source: one hierarchy per controller.
//!
//! Version 1 kernels export no pressure stall information. The source makes
//! up a coarse signal instead: the system-wide memory pressure from the share
//! of scanned pages that were reclaimed, a cgroup's memory pressure from the
//! system's, scaled by how full the cgroup is, and I/O pressure in three
//! steps from the number of I/O operations or of dirty pages. The 60 and 300
//! second averages are 0.8 and 0.6 times the 10 second average, rounded down
//! to hundredths of a percent.

use crate::cgroup::cache::Field;
use crate::cgroup::mounts::{find_first_controller, first_controller};
use crate::cgroup::reader::{
    child_names, memory_stat_of, parse_memory_limit, parse_memory_stat, parse_memory_usage,
    parse_pids, pids_of, reads_limit, reads_usage, select_children, DirEntry,
};
use crate::cgroup::table::{
    capped, find_last, find_total, last_counter, read_rows, rows, table_view, total_counter,
};
use crate::cgroup::types::{join_path, joined, CgroupPath, CgroupVersion, VersionView};
use crate::cgroup::walk::{
    all_cgroups, found_below, list_relative, matching, path_texts, paths_below, tidy, DirTree,
};
use crate::error::OomdError;
use crate::model::{IOStat, ResourcePressure, FULL_SCALE};
use crate::number::{parse_u64_or_zero, u64_or_zero};
use crate::text::{is_word, texts};
use vstd::prelude::*;

verus! {

/// Whether a pressure record is the made-up signal with the 10 second
/// average `p`: the other averages are 0.8 and 0.6 times `p`, rounded down,
/// and no total is known.
pub open spec fn synthetic(pressure: ResourcePressure, p: int) -> bool {
    pressure.avg10() == p && pressure.avg60() == p * 8 / 10 && pressure.avg300() == p * 6 / 10
        && pressure.stall_micros() is None
}

/// A system-wide average scaled to a cgroup: the whole average where the
/// usage has reached the limit or there is no limit to compare with, else
/// the average times usage by limit, rounded down.
pub open spec fn scaled(value: int, usage: u64, limit: u64) -> int {
    if limit == 0 || usage >= limit {
        value
    } else {
        value * usage / (limit as int)
    }
}

/// The share of scanned pages that were reclaimed, in hundredths of a
/// percent and at most 100 %; zero where no page was scanned.
pub open spec fn reclaim_share(scan: int, steal: int) -> int {
    if scan <= 0 {
        0
    } else if FULL_SCALE * steal / scan >= FULL_SCALE {
        FULL_SCALE as int
    } else {
        FULL_SCALE * steal / scan
    }
}

/// The pages scanned for reclaim that a `vmstat` file counts.
pub open spec fn pages_scanned(rows: Seq<Seq<Seq<char>>>) -> int {
    capped(total_counter(rows, "pgscan_kswapd"@)) + capped(total_counter(rows, "pgscan_direct"@))
}

/// The pages reclaimed that a `vmstat` file counts.
pub open spec fn pages_stolen(rows: Seq<Seq<Seq<char>>>) -> int {
    capped(total_counter(rows, "pgsteal_kswapd"@)) + capped(
        total_counter(rows, "pgsteal_direct"@),
    )
}

/// The I/O pressure of a cgroup by its number of I/O operations: 80 % above
/// 1000, 50 % above 100, else 10 %.
pub open spec fn io_step(operations: int) -> int {
    if operations > 1000 {
        8000
    } else if operations > 100 {
        5000
    } else {
        1000
    }
}

/// The I/O pressure of the system by its number of dirty and written-back
/// pages: 90 % above 10000, 60 % above 1000, else 20 %.
pub open spec fn dirty_step(pages: int) -> int {
    if pages > 10000 {
        9000
    } else if pages > 1000 {
        6000
    } else {
        2000
    }
}

/// The value of a row `Total op value`.
pub open spec fn total_row(row: Seq<Seq<char>>, op: Seq<char>) -> Option<u64> {
    if row.len() == 3 && row[0] == "Total"@ && row[1] == op {
        Some(u64_or_zero(row[2]))
    } else {
        None
    }
}

/// The value of the last row `Total op value`, or zero where there is none.
pub open spec fn last_total(rows: Seq<Seq<Seq<char>>>, op: Seq<char>) -> u64
    decreases rows.len(),
{
    if rows.len() == 0 {
        0
    } else {
        match total_row(rows.last(), op) {
            Some(v) => v,
            None => last_total(rows.drop_last(), op),
        }
    }
}

/// The rows of a file that was read, and no rows for one that was not.
pub open spec fn rows_if_read(content: Option<&str>) -> Seq<Seq<Seq<char>>> {
    match content {
        Some(c) => rows(c@),
        None => Seq::empty(),
    }
}

/// The made-up pressure signal with the 10 second average `p`.
fn synthesize(p: u32) -> (r: ResourcePressure)
    requires
        p <= FULL_SCALE,
    ensures
        synthetic(r, p as int),
{
    let a: u32 = p * 8 / 10;
    let b: u32 = p * 6 / 10;
    ResourcePressure::new(p, a, b, None).unwrap()
}

/// One system-wide average scaled to a cgroup.
fn scale(value: u32, usage: u64, limit: u64) -> (r: u32)
    requires
        value <= FULL_SCALE,
    ensures
        r == scaled(value as int, usage, limit),
        r <= value,
{
    if limit == 0 || usage >= limit {
        value
    } else {
        let v: u128 = value as u128;
        let u: u128 = usage as u128;
        let l: u128 = limit as u128;
        assert(v * u <= 10000 * 0xffff_ffff_ffff_ffff) by (nonlinear_arith)
            requires
                v <= 10000,
                u <= 0xffff_ffff_ffff_ffff,
        ;
        assert((v * u) as int / (l as int) <= v) by (nonlinear_arith)
            requires
                0 <= u < l,
                0 <= v,
        ;
        (v * u / l) as u32
    }
}

/// The value of the last row `Total op value`.
fn find_last_total(table: &Vec<Vec<Vec<char>>>, op: &str) -> (r: u64)
    ensures
        r == last_total(table_view(table@), op@),
{
    let ghost all = table_view(table@);
    let mut r: u64 = 0;
    let mut i: usize = 0;
    assert(all.take(0) =~= Seq::<Seq<Seq<char>>>::empty());
    while i < table.len()
        invariant
            i <= table.len(),
            all == table_view(table@),
            r == last_total(all.take(i as int), op@),
        decreases table.len() - i,
    {
        let row = &table[i];
        proof {
            assert(all.take(i + 1).drop_last() =~= all.take(i as int));
            assert(all.take(i + 1).last() == texts(row@));
            if row.len() == 3 {
                assert(texts(row@)[0] == row@[0]@);
                assert(texts(row@)[1] == row@[1]@);
                assert(texts(row@)[2] == row@[2]@);
            }
        }
        if row.len() == 3 && is_word(&row[0], "Total") && is_word(&row[1], op) {
            r = parse_u64_or_zero(&row[2]);
        }
        i += 1;
    }
    assert(all.take(table.len() as int) =~= all);
    r
}

/// The rows of a file that was read.
fn read_if_read(content: Option<&str>) -> (r: Vec<Vec<Vec<char>>>)
    ensures
        table_view(r@) == rows_if_read(content),
{
    match content {
        Some(c) => read_rows(c),
        None => {
            let r: Vec<Vec<Vec<char>>> = Vec::new();
            assert(table_view(r@) =~= Seq::<Seq<Seq<char>>>::empty());
            r
        },
    }
}

/// The version 1 source, at the mount points of its four controllers.
#[derive(Debug)]
pub struct CgroupV1Interface {
    pub memory_mount: String,
    pub cpu_mount: String,
    pub blkio_mount: String,
    pub cpuset_mount: String,
}

impl CgroupV1Interface {
    /// The file of a field in a cgroup's directory of the memory
    /// controller; none for the fields that version 1 has no file for.
    pub open spec fn file_name(field: Field) -> Option<Seq<char>> {
        match field {
            Field::MemoryUsage => Some("memory.usage_in_bytes"@),
            Field::MemoryLimit => Some("memory.limit_in_bytes"@),
            Field::MemoryStat => Some("memory.stat"@),
            Field::Pids => Some("cgroup.procs"@),
            _ => None,
        }
    }

    /// The mount point of the controller `subsystem`: that of the first row
    /// of the mount table that mounts it. Where there is none, no cgroup is
    /// found.
    pub fn find_mount_point(mounts: &str, subsystem: &str) -> (r: Result<String, OomdError>)
        ensures
            match first_controller(rows(mounts@), subsystem@) {
                Some(m) => r is Ok && r->Ok_0@ == m,
                None => r is Err && r->Err_0 is CgroupNotFound,
            },
    {
        let table = read_rows(mounts);
        match find_first_controller(&table, subsystem) {
            Some(m) => Ok(m),
            None => Err(OomdError::CgroupNotFound(String::from_str("subsystem not found"))),
        }
    }

    /// The source for the version 1 hierarchies that the mount table shows.
    /// All of the memory, cpu, blkio and cpuset controllers must be mounted;
    /// else no cgroup is found.
    pub fn new(mounts: &str) -> (r: Result<CgroupV1Interface, OomdError>)
        ensures
            match (
                first_controller(rows(mounts@), "memory"@),
                first_controller(rows(mounts@), "cpu"@),
                first_controller(rows(mounts@), "blkio"@),
                first_controller(rows(mounts@), "cpuset"@),
            ) {
                (Some(memory), Some(cpu), Some(blkio), Some(cpuset)) => r is Ok
                    && r->Ok_0.memory_mount@ == memory && r->Ok_0.cpu_mount@ == cpu
                    && r->Ok_0.blkio_mount@ == blkio && r->Ok_0.cpuset_mount@ == cpuset,
                _ => r is Err && r->Err_0 is CgroupNotFound,
            },
    {
        let memory_mount = match Self::find_mount_point(mounts, "memory") {
            Ok(m) => m,
            Err(e) => {
                return Err(e);
            },
        };
        let cpu_mount = match Self::find_mount_point(mounts, "cpu") {
            Ok(m) => m,
            Err(e) => {
                return Err(e);
            },
        };
        let blkio_mount = match Self::find_mount_point(mounts, "blkio") {
            Ok(m) => m,
            Err(e) => {
                return Err(e);
            },
        };
        let cpuset_mount = match Self::find_mount_point(mounts, "cpuset") {
            Ok(m) => m,
            Err(e) => {
                return Err(e);
            },
        };
        Ok(CgroupV1Interface { memory_mount, cpu_mount, blkio_mount, cpuset_mount })
    }

    /// The arrangement that this source serves.
    pub fn version(&self) -> (r: CgroupVersion)
        ensures
            r@ == (VersionView::V1 {
                memory: self.memory_mount@,
                cpu: self.cpu_mount@,
                blkio: self.blkio_mount@,
                cpuset: self.cpuset_mount@,
            }),
    {
        CgroupVersion::V1 {
            memory: self.memory_mount.clone(),
            cpu: self.cpu_mount.clone(),
            blkio: self.blkio_mount.clone(),
            cpuset: self.cpuset_mount.clone(),
        }
    }

    /// The directory of a cgroup below the memory controller.
    pub fn get_memory_cgroup_path(&self, cgroup: &CgroupPath) -> (r: String)
        ensures
            r@ == join_path(self.memory_mount@, cgroup.relative_text()),
    {
        joined(self.memory_mount.as_str(), cgroup.relative())
    }

    /// The directory of a cgroup below the blkio controller.
    pub fn get_blkio_cgroup_path(&self, cgroup: &CgroupPath) -> (r: String)
        ensures
            r@ == join_path(self.blkio_mount@, cgroup.relative_text()),
    {
        joined(self.blkio_mount.as_str(), cgroup.relative())
    }

    /// The file of a field in a cgroup's directory of the memory controller.
    pub fn field_file(field: Field) -> (r: Option<&'static str>)
        ensures
            match Self::file_name(field) {
                Some(f) => r is Some && r->0@ == f,
                None => r is None,
            },
    {
        match field {
            Field::MemoryUsage => Some("memory.usage_in_bytes"),
            Field::MemoryLimit => Some("memory.limit_in_bytes"),
            Field::MemoryStat => Some("memory.stat"),
            Field::Pids => Some("cgroup.procs"),
            _ => None,
        }
    }

    /// The path of the file `name` in a cgroup's directory of the memory
    /// controller.
    pub fn memory_file(&self, cgroup: &CgroupPath, name: &str) -> (r: String)
        ensures
            r@ == join_path(join_path(self.memory_mount@, cgroup.relative_text()), name@),
    {
        let dir = self.get_memory_cgroup_path(cgroup);
        joined(dir.as_str(), name)
    }

    /// The path of the file `name` in a cgroup's directory of the blkio
    /// controller.
    pub fn blkio_file(&self, cgroup: &CgroupPath, name: &str) -> (r: String)
        ensures
            r@ == join_path(join_path(self.blkio_mount@, cgroup.relative_text()), name@),
    {
        let dir = self.get_blkio_cgroup_path(cgroup);
        joined(dir.as_str(), name)
    }

    /// The path of the file that reclaims memory from a cgroup. The kernel
    /// reclaims all it can whatever is written there.
    pub fn reclaim_file(&self, cgroup: &CgroupPath) -> (r: String)
        ensures
            r@ == join_path(
                join_path(self.memory_mount@, cgroup.relative_text()),
                "memory.force_empty"@,
            ),
    {
        self.memory_file(cgroup, "memory.force_empty")
    }

    /// The memory usage of a cgroup, from the text of its
    /// `memory.usage_in_bytes` file.
    pub fn get_memory_usage(content: &str) -> (r: Result<u64, OomdError>)
        ensures
            reads_usage(content@, r),
    {
        parse_memory_usage(content)
    }

    /// The memory limit of a cgroup, from the text of its
    /// `memory.limit_in_bytes` file.
    pub fn get_memory_limit(content: &str) -> (r: Result<u64, OomdError>)
        ensures
            reads_limit(content@, r),
    {
        parse_memory_limit(content)
    }

    /// The memory counters of a cgroup, from the text of its `memory.stat`
    /// file.
    pub fn get_memory_stat(content: &str) -> (r: crate::model::MemoryStat)
        ensures
            r == memory_stat_of(rows(content@)),
    {
        parse_memory_stat(content)
    }

    /// The process ids of a cgroup, from the text of its `cgroup.procs`
    /// file.
    pub fn get_pids(content: &str) -> (r: Vec<i32>)
        ensures
            r@ == pids_of(crate::text::lines(content@)),
    {
        parse_pids(content)
    }

    /// The child cgroups of a cgroup, from the entries of its directory.
    pub fn get_children(entries: &Vec<DirEntry>) -> (r: Vec<String>)
        ensures
            crate::keyed::key_texts(r@) == child_names(entries@),
    {
        select_children(entries)
    }

    /// What is to be written where to reclaim from a cgroup: the path of
    /// its `memory.force_empty` file and the amount in decimal. The kernel
    /// reclaims all it can whatever the amount.
    pub fn memory_reclaim(&self, cgroup: &CgroupPath, amount: u64) -> (r: (String, String))
        ensures
            r.0@ == join_path(
                join_path(self.memory_mount@, cgroup.relative_text()),
                "memory.force_empty"@,
            ),
            r.1@ == crate::number::decimal_text(amount as nat),
    {
        (self.reclaim_file(cgroup), crate::cgroup::v2::reclaim_request(amount))
    }

    /// The memory pressure of a cgroup, made up from its memory usage, its
    /// memory limit and the system-wide pressure.
    pub fn get_memory_pressure(usage: u64, limit: u64, system: &ResourcePressure) -> (r:
        ResourcePressure)
        ensures
            r.avg10() == scaled(system.avg10(), usage, limit),
            r.avg60() == scaled(system.avg60(), usage, limit),
            r.avg300() == scaled(system.avg300(), usage, limit),
            r.stall_micros() == system.stall_micros(),
    {
        Self::estimate_memory_pressure(usage, limit, system)
    }

    /// The system-wide memory pressure, made up from the text of
    /// `/proc/vmstat`.
    pub fn get_system_memory_pressure(vmstat: &str) -> (r: ResourcePressure)
        ensures
            synthetic(r, reclaim_share(pages_scanned(rows(vmstat@)), pages_stolen(rows(vmstat@)))),
    {
        Self::get_vmstat_pressure(vmstat)
    }

    /// The memory pressure of a cgroup: the system-wide pressure, each
    /// average scaled by the cgroup's memory usage over its limit.
    pub fn estimate_memory_pressure(usage: u64, limit: u64, system: &ResourcePressure) -> (r:
        ResourcePressure)
        ensures
            r.avg10() == scaled(system.avg10(), usage, limit),
            r.avg60() == scaled(system.avg60(), usage, limit),
            r.avg300() == scaled(system.avg300(), usage, limit),
            r.stall_micros() == system.stall_micros(),
    {
        let a = scale(system.sec_10(), usage, limit);
        let b = scale(system.sec_60(), usage, limit);
        let c = scale(system.sec_300(), usage, limit);
        ResourcePressure::new(a, b, c, system.total()).unwrap()
    }

    /// The system-wide memory pressure, made up from the reclaim counters of
    /// `/proc/vmstat`: the share of scanned pages that were reclaimed.
    pub fn get_vmstat_pressure(vmstat: &str) -> (r: ResourcePressure)
        ensures
            synthetic(r, reclaim_share(pages_scanned(rows(vmstat@)), pages_stolen(rows(vmstat@)))),
    {
        let table = read_rows(vmstat);
        let scan: u128 = find_total(&table, "pgscan_kswapd") as u128 + find_total(
            &table,
            "pgscan_direct",
        ) as u128;
        let steal: u128 = find_total(&table, "pgsteal_kswapd") as u128 + find_total(
            &table,
            "pgsteal_direct",
        ) as u128;
        let p: u32 = if scan == 0 {
            0
        } else {
            let share: u128 = 10000 * steal / scan;
            if share >= 10000 {
                10000
            } else {
                share as u32
            }
        };
        synthesize(p)
    }

    /// The I/O pressure of a cgroup, made up from its I/O counters.
    pub fn get_io_pressure(io_stat: &IOStat) -> (r: ResourcePressure)
        ensures
            synthetic(r, io_step(io_stat.rios + io_stat.wios)),
    {
        let operations: u128 = io_stat.rios as u128 + io_stat.wios as u128;
        let p: u32 = if operations > 1000 {
            8000
        } else if operations > 100 {
            5000
        } else {
            1000
        };
        synthesize(p)
    }

    /// The system-wide I/O pressure, made up from the counters `nr_dirty`
    /// and `nr_writeback` of `/proc/vmstat`.
    pub fn get_system_io_pressure(vmstat: &str) -> (r: ResourcePressure)
        ensures
            synthetic(
                r,
                dirty_step(
                    last_counter(rows(vmstat@), "nr_dirty"@) + last_counter(
                        rows(vmstat@),
                        "nr_writeback"@,
                    ),
                ),
            ),
    {
        let table = read_rows(vmstat);
        let pages: u128 = find_last(&table, "nr_dirty") as u128 + find_last(
            &table,
            "nr_writeback",
        ) as u128;
        let p: u32 = if pages > 10000 {
            9000
        } else if pages > 1000 {
            6000
        } else {
            2000
        };
        synthesize(p)
    }

    /// The I/O counters of a cgroup from the files `blkio.io_service_bytes`
    /// and `blkio.io_serviced`: the values of their rows `Total Read` and
    /// `Total Write`. A file that could not be read counts as empty; the
    /// discard counters are zero.
    pub fn get_io_stat(service_bytes: Option<&str>, serviced: Option<&str>) -> (r: IOStat)
        ensures
            r == (IOStat {
                rbytes: last_total(rows_if_read(service_bytes), "Read"@),
                wbytes: last_total(rows_if_read(service_bytes), "Write"@),
                rios: last_total(rows_if_read(serviced), "Read"@),
                wios: last_total(rows_if_read(serviced), "Write"@),
                dbytes: 0,
                dios: 0,
            }),
    {
        let bytes = read_if_read(service_bytes);
        let count = read_if_read(serviced);
        IOStat {
            rbytes: find_last_total(&bytes, "Read"),
            wbytes: find_last_total(&bytes, "Write"),
            rios: find_last_total(&count, "Read"),
            wios: find_last_total(&count, "Write"),
            dbytes: 0,
            dios: 0,
        }
    }

    /// Whether a cgroup holds processes: whether it has any process id.
    pub fn is_populated(pids: &Vec<i32>) -> (r: bool)
        ensures
            r == (pids@.len() > 0),
    {
        pids.len() > 0
    }

    /// The relative paths of the cgroups of the memory hierarchy that hold
    /// `pattern`, from a picture of the directory tree below its mount point.
    pub fn list_cgroups(&self, tree: &DirTree, pattern: &str) -> (r: Vec<String>)
        ensures
            path_texts(r@) == matching(all_cgroups(*tree), pattern@),
            pattern@.len() == 0 ==> path_texts(r@) == all_cgroups(*tree),
    {
        list_relative(tree, pattern)
    }

    /// The cgroups of the hierarchy that hold `pattern`, from a picture of
    /// the directory tree below the mount point. In a tidy tree every listed
    /// cgroup is found, under its listed path.
    pub fn list_cgroup_paths(&self, tree: &DirTree, pattern: &str) -> (r: Result<
        Vec<CgroupPath>,
        OomdError,
    >)
        ensures
            match r {
                Ok(v) => v@.len() == matching(all_cgroups(*tree), pattern@).len() && forall|i: int|
                    0 <= i < v@.len() ==> found_below(
                        #[trigger] v@[i],
                        self.memory_mount@,
                        matching(all_cgroups(*tree), pattern@)[i],
                    ),
                Err(e) => e is InvalidPath,
            },
            tidy(*tree) ==> r is Ok && forall|i: int|
                0 <= i < r->Ok_0@.len() ==> (#[trigger] r->Ok_0@[i]).relative_text() == matching(
                    all_cgroups(*tree),
                    pattern@,
                )[i],
    {
        paths_below(self.memory_mount.as_str(), tree, pattern)
    }

    /// The cgroup at the relative path `relative` of the memory hierarchy.
    pub fn cgroup_at(&self, relative: &str) -> (r: Result<CgroupPath, OomdError>)
        ensures
            match crate::cgroup::types::relative_below(
                self.memory_mount@,
                join_path(self.memory_mount@, relative@),
            ) {
                Some(rel) => r is Ok && r->Ok_0.root_text() == crate::cgroup::types::normal_path(
                    self.memory_mount@,
                ) && r->Ok_0.path_text() == crate::cgroup::types::normal_path(
                    join_path(self.memory_mount@, relative@),
                ) && r->Ok_0.relative_text() == rel,
                None => r is Err && r->Err_0 is InvalidPath,
            },
    {
        let path = joined(self.memory_mount.as_str(), relative);
        CgroupPath::new(self.memory_mount.clone(), path)
    }
}

} // verus!
