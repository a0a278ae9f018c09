//! The cgroup version 2 source: the unified hierarchy.
//!
//! For the cgroup at the relative path `R` the files are `memory.current`,
//! `memory.max`, `memory.stat`, `memory.pressure`, `io.pressure`, `io.stat`,
//! `cgroup.procs`, `cgroup.events` and, for writing, `memory.reclaim`, all in
//! the directory `R` below the mount point. The caller reads and writes the
//! files; what is here finds the mount point, names the files and parses
//! their contents.

use crate::cgroup::cache::Field;
use crate::cgroup::interface::{lemma_psi_in_range, psi_line, shows, PsiData};
use crate::cgroup::mounts::{find_first_unified, first_unified};
use crate::cgroup::reader::{
    child_names, memory_stat_of, parse_memory_limit, parse_memory_stat, parse_memory_usage,
    parse_pids, pids_of, reads_limit, reads_usage, select_children, DirEntry,
};
use crate::cgroup::table::{capped, capped_sum, read_rows, rows, table_view};
use crate::cgroup::types::{join_path, joined, CgroupPath, CgroupVersion, VersionView};
use crate::cgroup::walk::{
    all_cgroups, found_below, list_relative, matching, path_texts, paths_below, tidy, DirTree,
};
use crate::error::OomdError;
use crate::model::{IOStat, MemoryStat, ResourcePressure};
use crate::number::{decimal_text, parse_u64_or_zero, u64_or_zero, write_u64};
use crate::text::{
    chars_of, first_index, has_prefix, is_word, lemma_first_index_is, lines, slice_of,
    split_lines, starts_with, string_of, texts,
};
use vstd::prelude::*;

verus! {

/// The first of `ls` that begins with `prefix`.
pub open spec fn first_line_with(ls: Seq<Seq<char>>, prefix: Seq<char>) -> Option<Seq<char>>
    decreases ls.len(),
{
    if ls.len() == 0 {
        None
    } else if starts_with(ls[0], prefix) {
        Some(ls[0])
    } else {
        first_line_with(ls.skip(1), prefix)
    }
}

/// The line of a pressure file that is read: the first that begins with
/// `full`, or where there is none the first that begins with `some`.
pub open spec fn pressure_line(ls: Seq<Seq<char>>) -> Option<Seq<char>> {
    match first_line_with(ls, "full"@) {
        Some(l) => Some(l),
        None => first_line_with(ls, "some"@),
    }
}

/// What the token `key=value` adds to the counter `key`: the number that the
/// value writes, or zero. The value is what follows the first equals sign.
pub open spec fn token_amount(token: Seq<char>, key: Seq<char>) -> nat {
    let i = first_index(token, '=') as int;
    if i < token.len() && token.take(i) == key {
        u64_or_zero(token.skip(i + 1)) as nat
    } else {
        0
    }
}

/// What the tokens of a device row before index `n` add to the counter
/// `key`. The first word of a row names the device.
pub open spec fn row_amount(row: Seq<Seq<char>>, key: Seq<char>, n: nat) -> nat
    decreases n,
{
    if n <= 1 || n > row.len() {
        0
    } else {
        row_amount(row, key, (n - 1) as nat) + token_amount(row[n - 1], key)
    }
}

/// The counter `key` summed over all devices.
pub open spec fn device_total(rows: Seq<Seq<Seq<char>>>, key: Seq<char>) -> nat
    decreases rows.len(),
{
    if rows.len() == 0 {
        0
    } else {
        device_total(rows.drop_last(), key) + row_amount(rows.last(), key, rows.last().len())
    }
}

/// The counters of an `io.stat` file, each summed over all devices and
/// capped at the largest `u64`.
pub open spec fn io_stat_of(rows: Seq<Seq<Seq<char>>>) -> IOStat {
    IOStat {
        rbytes: capped(device_total(rows, "rbytes"@)),
        wbytes: capped(device_total(rows, "wbytes"@)),
        rios: capped(device_total(rows, "rios"@)),
        wios: capped(device_total(rows, "wios"@)),
        dbytes: capped(device_total(rows, "dbytes"@)),
        dios: capped(device_total(rows, "dios"@)),
    }
}

/// What the first row `populated 0|1` of a `cgroup.events` file says.
pub open spec fn populated_flag(rows: Seq<Seq<Seq<char>>>) -> Option<bool>
    decreases rows.len(),
{
    if rows.len() == 0 {
        None
    } else if rows[0].len() == 2 && rows[0][0] == "populated"@ {
        Some(rows[0][1] == "1"@)
    } else {
        populated_flag(rows.skip(1))
    }
}

/// Whether `r` is what reading a line of a pressure file gives, where the
/// line was found: the figures of the line, or a parse error where it is
/// malformed; and that no pressure is available, where there is no line.
pub open spec fn reads_line(line: Option<Seq<char>>, r: Result<ResourcePressure, OomdError>) -> bool {
    match line {
        Some(l) => match psi_line(l) {
            Some(d) => r is Ok && shows(r->Ok_0, d),
            None => r is Err && r->Err_0 is Parse,
        },
        None => r is Err && r->Err_0 is PressureUnavailable,
    }
}

/// Whether `r` is what reading the pressure of a cgroup from `content`
/// gives: what its line `full` says, or its line `some` where there is no
/// line `full`.
pub open spec fn reads_pressure(content: Seq<char>, r: Result<ResourcePressure, OomdError>) -> bool {
    reads_line(pressure_line(lines(content)), r)
}

/// Whether `r` is what reading the system-wide pressure from `content`
/// gives: what its line `full` says.
pub open spec fn reads_system_pressure(
    content: Seq<char>,
    r: Result<ResourcePressure, OomdError>,
) -> bool {
    reads_line(first_line_with(lines(content), "full"@), r)
}

/// The first of the lines that begins with `prefix`.
fn find_line_with(ls: &Vec<Vec<char>>, prefix: &str) -> (r: Option<usize>)
    ensures
        match r {
            Some(i) => i < ls.len() && first_line_with(texts(ls@), prefix@) == Some(ls@[i as int]@),
            None => first_line_with(texts(ls@), prefix@) is None,
        },
{
    let ghost all = texts(ls@);
    let p = chars_of(prefix);
    let mut i: usize = 0;
    assert(all.skip(0) =~= all);
    while i < ls.len()
        invariant
            i <= ls.len(),
            all == texts(ls@),
            p@ == prefix@,
            first_line_with(all.skip(i as int), prefix@) == first_line_with(all, prefix@),
        decreases ls.len() - i,
    {
        proof {
            assert(all.skip(i as int)[0] == ls@[i as int]@);
            assert(all.skip(i as int).skip(1) =~= all.skip(i + 1));
        }
        if has_prefix(&ls[i], &p) {
            return Some(i);
        }
        i += 1;
    }
    None
}

/// Parses one line into a pressure record.
fn pressure_of_line(line: &Vec<char>) -> (r: Result<ResourcePressure, OomdError>)
    ensures
        match psi_line(line@) {
            Some(d) => r is Ok && shows(r->Ok_0, d),
            None => r is Err && r->Err_0 is Parse,
        },
{
    let text = string_of(line);
    match PsiData::from_line(text.as_str()) {
        Ok(d) => {
            proof {
                lemma_psi_in_range(line@);
            }
            Ok(d.to_resource_pressure())
        },
        Err(e) => Err(e),
    }
}

/// Reads the pressure of a cgroup from its `memory.pressure` or
/// `io.pressure` file: from the line `full`, or from the line `some` where
/// there is no line `full`. Where there is neither, no pressure is
/// available; where the line is malformed, that is a parse error.
pub fn parse_pressure(content: &str) -> (r: Result<ResourcePressure, OomdError>)
    ensures
        reads_pressure(content@, r),
{
    let ls = split_lines(&chars_of(content));
    match find_line_with(&ls, "full") {
        Some(i) => pressure_of_line(&ls[i]),
        None => match find_line_with(&ls, "some") {
            Some(i) => pressure_of_line(&ls[i]),
            None => Err(
                OomdError::PressureUnavailable(String::from_str("pressure data not available")),
            ),
        },
    }
}

/// Reads the system-wide pressure from `/proc/pressure/memory` or
/// `/proc/pressure/io`: from the line `full` alone.
pub fn parse_system_pressure(content: &str) -> (r: Result<ResourcePressure, OomdError>)
    ensures
        reads_system_pressure(content@, r),
{
    let ls = split_lines(&chars_of(content));
    match find_line_with(&ls, "full") {
        Some(i) => pressure_of_line(&ls[i]),
        None => Err(
            OomdError::PressureUnavailable(String::from_str("pressure data not available")),
        ),
    }
}

/// What one token adds to the counter `key`.
fn amount_of_token(token: &Vec<char>, key: &str) -> (r: u64)
    ensures
        r == token_amount(token@, key@),
{
    let mut i: usize = 0;
    while i < token.len() && token[i] != '='
        invariant
            i <= token.len(),
            forall|k: int| 0 <= k < i ==> #[trigger] token@[k] != '=',
        decreases token.len() - i,
    {
        i += 1;
    }
    proof {
        lemma_first_index_is(token@, '=', i as int);
    }
    if i == token.len() {
        return 0;
    }
    let name = slice_of(token, 0, i);
    assert(name@ == token@.take(i as int));
    if !is_word(&name, key) {
        return 0;
    }
    let value = slice_of(token, i + 1, token.len());
    assert(value@ == token@.skip(i + 1));
    parse_u64_or_zero(&value)
}

/// The counter `key` summed over all devices, capped at the largest `u64`.
fn sum_devices(table: &Vec<Vec<Vec<char>>>, key: &str) -> (r: u64)
    ensures
        r == capped(device_total(table_view(table@), key@)),
{
    let ghost all = table_view(table@);
    let mut r: u64 = 0;
    let mut i: usize = 0;
    assert(all.take(0) =~= Seq::<Seq<Seq<char>>>::empty());
    while i < table.len()
        invariant
            i <= table.len(),
            all == table_view(table@),
            r == capped(device_total(all.take(i as int), key@)),
        decreases table.len() - i,
    {
        let row = &table[i];
        let ghost row_view = texts(row@);
        let ghost base = device_total(all.take(i as int), key@);
        let mut j: usize = 1;
        while j < row.len()
            invariant
                1 <= j,
                j <= row.len() || row.len() == 0,
                row_view == texts(row@),
                r == capped(base + row_amount(row_view, key@, j as nat)),
            decreases row.len() - j,
        {
            assert(row_view[j as int] == row@[j as int]@);
            let v = amount_of_token(&row[j], key);
            r = capped_sum(r, v);
            j += 1;
        }
        proof {
            assert(all.take(i + 1).drop_last() =~= all.take(i as int));
            assert(all.take(i + 1).last() == row_view);
            if row.len() == 0 {
                assert(row_amount(row_view, key@, 0) == 0);
                assert(row_amount(row_view, key@, 1) == 0);
            }
        }
        i += 1;
    }
    assert(all.take(table.len() as int) =~= all);
    r
}

/// Reads the counters of an `io.stat` file.
pub fn parse_io_stat(content: &str) -> (r: IOStat)
    ensures
        r == io_stat_of(rows(content@)),
{
    let table = read_rows(content);
    IOStat {
        rbytes: sum_devices(&table, "rbytes"),
        wbytes: sum_devices(&table, "wbytes"),
        rios: sum_devices(&table, "rios"),
        wios: sum_devices(&table, "wios"),
        dbytes: sum_devices(&table, "dbytes"),
        dios: sum_devices(&table, "dios"),
    }
}

/// Reads the row `populated 0|1` of a `cgroup.events` file.
pub fn parse_populated(events: &str) -> (r: Option<bool>)
    ensures
        r == populated_flag(rows(events@)),
{
    let table = read_rows(events);
    let ghost all = table_view(table@);
    let mut i: usize = 0;
    assert(all.skip(0) =~= all);
    while i < table.len()
        invariant
            i <= table.len(),
            all == table_view(table@),
            all == rows(events@),
            populated_flag(all.skip(i as int)) == populated_flag(all),
        decreases table.len() - i,
    {
        let row = &table[i];
        proof {
            assert(all.skip(i as int)[0] == texts(row@));
            assert(all.skip(i as int).skip(1) =~= all.skip(i + 1));
            if row.len() == 2 {
                assert(texts(row@)[0] == row@[0]@);
                assert(texts(row@)[1] == row@[1]@);
            }
        }
        if row.len() == 2 && is_word(&row[0], "populated") {
            return Some(is_word(&row[1], "1"));
        }
        i += 1;
    }
    None
}

/// Whether a cgroup holds processes: what its `cgroup.events` file says,
/// or where the file does not say, whether it has any process id.
pub fn is_populated(events: &str, pids: &Vec<i32>) -> (r: bool)
    ensures
        r == match populated_flag(rows(events@)) {
            Some(b) => b,
            None => pids@.len() > 0,
        },
{
    match parse_populated(events) {
        Some(b) => b,
        None => pids.len() > 0,
    }
}

/// What is written to `memory.reclaim` to reclaim `amount` bytes: the
/// amount in decimal.
pub fn reclaim_request(amount: u64) -> (r: String)
    ensures
        r@ == decimal_text(amount as nat),
{
    let mut out: Vec<char> = Vec::new();
    write_u64(&mut out, amount);
    assert(out@ =~= decimal_text(amount as nat));
    string_of(&out)
}

/// The version 2 source, at the mount point of the unified hierarchy.
#[derive(Debug)]
pub struct CgroupV2Interface {
    pub unified_mount: String,
}

impl CgroupV2Interface {
    /// The file of a field in a cgroup's directory; none for the children,
    /// which are the directory's entries, and for the system-wide fields.
    pub open spec fn file_name(field: Field) -> Option<Seq<char>> {
        match field {
            Field::MemoryUsage => Some("memory.current"@),
            Field::MemoryLimit => Some("memory.max"@),
            Field::MemoryStat => Some("memory.stat"@),
            Field::MemoryPressure => Some("memory.pressure"@),
            Field::IoPressure => Some("io.pressure"@),
            Field::IoStat => Some("io.stat"@),
            Field::Pids => Some("cgroup.procs"@),
            Field::Populated => Some("cgroup.events"@),
            Field::Children => None,
            Field::SystemMemoryPressure => None,
            Field::SystemIoPressure => None,
        }
    }

    /// The source for the unified hierarchy that the mount table shows: at
    /// the mount point of the first row of type `cgroup2`. Where there is
    /// none, no cgroup is found.
    pub fn new(mounts: &str) -> (r: Result<CgroupV2Interface, OomdError>)
        ensures
            match first_unified(rows(mounts@)) {
                Some(m) => r is Ok && r->Ok_0.unified_mount@ == m,
                None => r is Err && r->Err_0 is CgroupNotFound,
            },
    {
        let table = read_rows(mounts);
        match find_first_unified(&table) {
            Some(unified_mount) => Ok(CgroupV2Interface { unified_mount }),
            None => Err(
                OomdError::CgroupNotFound(
                    String::from_str("cgroup2 unified hierarchy not found"),
                ),
            ),
        }
    }

    /// The arrangement that this source serves.
    pub fn version(&self) -> (r: CgroupVersion)
        ensures
            r@ == (VersionView::V2 { unified: self.unified_mount@ }),
    {
        CgroupVersion::V2 { unified: self.unified_mount.clone() }
    }

    /// The directory of a cgroup below the mount point.
    pub fn get_cgroup_path(&self, cgroup: &CgroupPath) -> (r: String)
        ensures
            r@ == join_path(self.unified_mount@, cgroup.relative_text()),
    {
        joined(self.unified_mount.as_str(), cgroup.relative())
    }

    /// The file of a field in a cgroup's directory.
    pub fn field_file(field: Field) -> (r: Option<&'static str>)
        ensures
            match Self::file_name(field) {
                Some(f) => r is Some && r->0@ == f,
                None => r is None,
            },
    {
        match field {
            Field::MemoryUsage => Some("memory.current"),
            Field::MemoryLimit => Some("memory.max"),
            Field::MemoryStat => Some("memory.stat"),
            Field::MemoryPressure => Some("memory.pressure"),
            Field::IoPressure => Some("io.pressure"),
            Field::IoStat => Some("io.stat"),
            Field::Pids => Some("cgroup.procs"),
            Field::Populated => Some("cgroup.events"),
            Field::Children => None,
            Field::SystemMemoryPressure => None,
            Field::SystemIoPressure => None,
        }
    }

    /// The path of the file `name` in a cgroup's directory.
    pub fn file_path(&self, cgroup: &CgroupPath, name: &str) -> (r: String)
        ensures
            r@ == join_path(join_path(self.unified_mount@, cgroup.relative_text()), name@),
    {
        let dir = self.get_cgroup_path(cgroup);
        joined(dir.as_str(), name)
    }

    /// The path of the file that reclaims memory from a cgroup.
    pub fn reclaim_file(&self, cgroup: &CgroupPath) -> (r: String)
        ensures
            r@ == join_path(
                join_path(self.unified_mount@, cgroup.relative_text()),
                "memory.reclaim"@,
            ),
    {
        self.file_path(cgroup, "memory.reclaim")
    }

    /// The memory pressure of a cgroup, from the text of its
    /// `memory.pressure` file.
    pub fn get_memory_pressure(content: &str) -> (r: Result<ResourcePressure, OomdError>)
        ensures
            reads_pressure(content@, r),
    {
        parse_pressure(content)
    }

    /// The memory usage of a cgroup, from the text of its `memory.current`
    /// file.
    pub fn get_memory_usage(content: &str) -> (r: Result<u64, OomdError>)
        ensures
            reads_usage(content@, r),
    {
        parse_memory_usage(content)
    }

    /// The memory limit of a cgroup, from the text of its `memory.max` file.
    pub fn get_memory_limit(content: &str) -> (r: Result<u64, OomdError>)
        ensures
            reads_limit(content@, r),
    {
        parse_memory_limit(content)
    }

    /// The I/O pressure of a cgroup, from the text of its `io.pressure`
    /// file: what its line `full` says, or its line `some` where there is no
    /// line `full`.
    pub fn get_io_pressure(content: &str) -> (r: Result<ResourcePressure, OomdError>)
        ensures
            reads_pressure(content@, r),
    {
        parse_pressure(content)
    }

    /// The memory counters of a cgroup, from the text of its `memory.stat`
    /// file.
    pub fn get_memory_stat(content: &str) -> (r: MemoryStat)
        ensures
            r == memory_stat_of(rows(content@)),
    {
        parse_memory_stat(content)
    }

    /// The I/O counters of a cgroup, from the text of its `io.stat` file:
    /// each counter summed over all devices.
    pub fn get_io_stat(content: &str) -> (r: IOStat)
        ensures
            r == io_stat_of(rows(content@)),
    {
        parse_io_stat(content)
    }

    /// The process ids of a cgroup, from the text of its `cgroup.procs`
    /// file.
    pub fn get_pids(content: &str) -> (r: Vec<i32>)
        ensures
            r@ == pids_of(lines(content@)),
    {
        parse_pids(content)
    }

    /// The child cgroups of a cgroup, from the entries of its directory.
    pub fn get_children(entries: &Vec<DirEntry>) -> (r: Vec<String>)
        ensures
            crate::keyed::key_texts(r@) == child_names(entries@),
    {
        select_children(entries)
    }

    /// Whether a cgroup holds processes, from the text of its
    /// `cgroup.events` file and its process ids.
    pub fn is_populated(events: &str, pids: &Vec<i32>) -> (r: bool)
        ensures
            r == match populated_flag(rows(events@)) {
                Some(b) => b,
                None => pids@.len() > 0,
            },
    {
        is_populated(events, pids)
    }

    /// What is to be written where to reclaim `amount` bytes from a cgroup:
    /// the path of its `memory.reclaim` file and the amount in decimal.
    pub fn memory_reclaim(&self, cgroup: &CgroupPath, amount: u64) -> (r: (String, String))
        ensures
            r.0@ == join_path(
                join_path(self.unified_mount@, cgroup.relative_text()),
                "memory.reclaim"@,
            ),
            r.1@ == decimal_text(amount as nat),
    {
        (self.reclaim_file(cgroup), reclaim_request(amount))
    }

    /// The system-wide memory pressure, from the text of
    /// `/proc/pressure/memory`.
    pub fn get_system_memory_pressure(content: &str) -> (r: Result<ResourcePressure, OomdError>)
        ensures
            reads_system_pressure(content@, r),
    {
        parse_system_pressure(content)
    }

    /// The system-wide I/O pressure, from the text of `/proc/pressure/io`.
    pub fn get_system_io_pressure(content: &str) -> (r: Result<ResourcePressure, OomdError>)
        ensures
            reads_system_pressure(content@, r),
    {
        parse_system_pressure(content)
    }

    /// The relative paths of the cgroups of the hierarchy that hold
    /// `pattern`, from a picture of the directory tree below the mount point.
    pub fn list_cgroups(&self, tree: &DirTree, pattern: &str) -> (r: Vec<String>)
        ensures
            path_texts(r@) == matching(all_cgroups(*tree), pattern@),
            pattern@.len() == 0 ==> path_texts(r@) == all_cgroups(*tree),
    {
        list_relative(tree, pattern)
    }

    /// The cgroups of the hierarchy that hold `pattern`, from a picture of
    /// the directory tree below the mount point. In a tidy tree every listed
    /// cgroup is found, under its listed path.
    pub fn list_cgroup_paths(&self, tree: &DirTree, pattern: &str) -> (r: Result<
        Vec<CgroupPath>,
        OomdError,
    >)
        ensures
            match r {
                Ok(v) => v@.len() == matching(all_cgroups(*tree), pattern@).len() && forall|i: int|
                    0 <= i < v@.len() ==> found_below(
                        #[trigger] v@[i],
                        self.unified_mount@,
                        matching(all_cgroups(*tree), pattern@)[i],
                    ),
                Err(e) => e is InvalidPath,
            },
            tidy(*tree) ==> r is Ok && forall|i: int|
                0 <= i < r->Ok_0@.len() ==> (#[trigger] r->Ok_0@[i]).relative_text() == matching(
                    all_cgroups(*tree),
                    pattern@,
                )[i],
    {
        paths_below(self.unified_mount.as_str(), tree, pattern)
    }

    /// The cgroup at the relative path `relative` of this hierarchy.
    pub fn cgroup_at(&self, relative: &str) -> (r: Result<CgroupPath, OomdError>)
        ensures
            match crate::cgroup::types::relative_below(
                self.unified_mount@,
                join_path(self.unified_mount@, relative@),
            ) {
                Some(rel) => r is Ok && r->Ok_0.root_text() == crate::cgroup::types::normal_path(
                    self.unified_mount@,
                ) && r->Ok_0.path_text() == crate::cgroup::types::normal_path(
                    join_path(self.unified_mount@, relative@),
                ) && r->Ok_0.relative_text() == rel,
                None => r is Err && r->Err_0 is InvalidPath,
            },
    {
        let path = joined(self.unified_mount.as_str(), relative);
        CgroupPath::new(self.unified_mount.clone(), path)
    }
}

} // verus!
