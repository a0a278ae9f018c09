//! Readers of the cgroup files that both hierarchies share.

use crate::cgroup::table::{find_last, last_counter, read_rows, rows};
use crate::error::OomdError;
use crate::keyed::key_texts;
use crate::model::MemoryStat;
use crate::number::{decimal_i32, decimal_u64, parse_i32, parse_u64};
use crate::text::{chars_of, is_word, lines, split_lines, texts, trim, trimmed};
use vstd::prelude::*;

verus! {

/// The memory limit that a file holds: a decimal number, or `max` for no
/// limit, which reads as the largest `u64`. White space around it is ignored.
pub open spec fn memory_limit_of(content: Seq<char>) -> Option<u64> {
    match decimal_u64(trim(content)) {
        Some(n) => Some(n),
        None => if trim(content) == "max"@ {
            Some(u64::MAX)
        } else {
            None
        },
    }
}

/// The counters of a `memory.stat` file: for each counter the value of the
/// last row that names it, zero where none does. Other rows are ignored.
pub open spec fn memory_stat_of(rows: Seq<Seq<Seq<char>>>) -> MemoryStat {
    MemoryStat {
        anon: last_counter(rows, "anon"@),
        file: last_counter(rows, "file"@),
        kernel_stack: last_counter(rows, "kernel_stack"@),
        slab: last_counter(rows, "slab"@),
        sock: last_counter(rows, "sock"@),
        shmem: last_counter(rows, "shmem"@),
        file_mapped: last_counter(rows, "file_mapped"@),
        file_dirty: last_counter(rows, "file_dirty"@),
        file_writeback: last_counter(rows, "file_writeback"@),
        anon_thp: last_counter(rows, "anon_thp"@),
        inactive_anon: last_counter(rows, "inactive_anon"@),
        active_anon: last_counter(rows, "active_anon"@),
        inactive_file: last_counter(rows, "inactive_file"@),
        active_file: last_counter(rows, "active_file"@),
        unevictable: last_counter(rows, "unevictable"@),
        slab_reclaimable: last_counter(rows, "slab_reclaimable"@),
        slab_unreclaimable: last_counter(rows, "slab_unreclaimable"@),
        pgfault: last_counter(rows, "pgfault"@),
        pgmajfault: last_counter(rows, "pgmajfault"@),
        workingset_refault: last_counter(rows, "workingset_refault"@),
        workingset_activate: last_counter(rows, "workingset_activate"@),
        workingset_nodereclaim: last_counter(rows, "workingset_nodereclaim"@),
        pgrefill: last_counter(rows, "pgrefill"@),
        pgscan: last_counter(rows, "pgscan"@),
        pgsteal: last_counter(rows, "pgsteal"@),
        pgactivate: last_counter(rows, "pgactivate"@),
        pgdeactivate: last_counter(rows, "pgdeactivate"@),
        pglazyfree: last_counter(rows, "pglazyfree"@),
        pglazyfreed: last_counter(rows, "pglazyfreed"@),
        thp_fault_alloc: last_counter(rows, "thp_fault_alloc"@),
        thp_collapse_alloc: last_counter(rows, "thp_collapse_alloc"@),
    }
}

/// The process ids that the lines hold: each line that, without the white
/// space around it, is a decimal number, in order.
pub open spec fn pids_of(ls: Seq<Seq<char>>) -> Seq<i32>
    decreases ls.len(),
{
    if ls.len() == 0 {
        Seq::empty()
    } else {
        match decimal_i32(trim(ls.last())) {
            Some(p) => pids_of(ls.drop_last()).push(p),
            None => pids_of(ls.drop_last()),
        }
    }
}

/// One entry of a directory.
#[derive(Debug)]
pub struct DirEntry {
    pub name: String,
    pub is_dir: bool,
}

/// Whether an entry is a cgroup: a directory whose name begins with no dot.
pub open spec fn is_cgroup_dir(e: DirEntry) -> bool {
    e.is_dir && !(e.name@.len() > 0 && e.name@[0] == '.')
}

/// The names of the entries that are cgroups, in order.
pub open spec fn child_names(entries: Seq<DirEntry>) -> Seq<Seq<char>>
    decreases entries.len(),
{
    if entries.len() == 0 {
        Seq::empty()
    } else if is_cgroup_dir(entries.last()) {
        child_names(entries.drop_last()).push(entries.last().name@)
    } else {
        child_names(entries.drop_last())
    }
}

/// Whether `r` is what reading a memory usage from `content` gives: the
/// decimal number that it holds between white space, or a parse error where
/// it holds none.
pub open spec fn reads_usage(content: Seq<char>, r: Result<u64, OomdError>) -> bool {
    match decimal_u64(trim(content)) {
        Some(n) => r == Ok::<u64, OomdError>(n),
        None => r is Err && r->Err_0 is Parse,
    }
}

/// Whether `r` is what reading a memory limit from `content` gives: the
/// limit that it holds, or a parse error where it holds none.
pub open spec fn reads_limit(content: Seq<char>, r: Result<u64, OomdError>) -> bool {
    match memory_limit_of(content) {
        Some(n) => r == Ok::<u64, OomdError>(n),
        None => r is Err && r->Err_0 is Parse,
    }
}

/// Reads a memory usage: a decimal number with white space around it.
pub fn parse_memory_usage(content: &str) -> (r: Result<u64, OomdError>)
    ensures
        reads_usage(content@, r),
{
    let t = trimmed(&chars_of(content));
    match parse_u64(&t) {
        Some(n) => Ok(n),
        None => Err(OomdError::Parse(String::from_str("invalid memory usage"))),
    }
}

/// Reads a memory limit: a decimal number or `max`.
pub fn parse_memory_limit(content: &str) -> (r: Result<u64, OomdError>)
    ensures
        reads_limit(content@, r),
{
    let t = trimmed(&chars_of(content));
    match parse_u64(&t) {
        Some(n) => Ok(n),
        None => {
            if is_word(&t, "max") {
                Ok(u64::MAX)
            } else {
                Err(OomdError::Parse(String::from_str("invalid memory limit")))
            }
        },
    }
}

/// Reads the counters of a `memory.stat` file.
pub fn parse_memory_stat(content: &str) -> (r: MemoryStat)
    ensures
        r == memory_stat_of(rows(content@)),
{
    let table = read_rows(content);
    MemoryStat {
        anon: find_last(&table, "anon"),
        file: find_last(&table, "file"),
        kernel_stack: find_last(&table, "kernel_stack"),
        slab: find_last(&table, "slab"),
        sock: find_last(&table, "sock"),
        shmem: find_last(&table, "shmem"),
        file_mapped: find_last(&table, "file_mapped"),
        file_dirty: find_last(&table, "file_dirty"),
        file_writeback: find_last(&table, "file_writeback"),
        anon_thp: find_last(&table, "anon_thp"),
        inactive_anon: find_last(&table, "inactive_anon"),
        active_anon: find_last(&table, "active_anon"),
        inactive_file: find_last(&table, "inactive_file"),
        active_file: find_last(&table, "active_file"),
        unevictable: find_last(&table, "unevictable"),
        slab_reclaimable: find_last(&table, "slab_reclaimable"),
        slab_unreclaimable: find_last(&table, "slab_unreclaimable"),
        pgfault: find_last(&table, "pgfault"),
        pgmajfault: find_last(&table, "pgmajfault"),
        workingset_refault: find_last(&table, "workingset_refault"),
        workingset_activate: find_last(&table, "workingset_activate"),
        workingset_nodereclaim: find_last(&table, "workingset_nodereclaim"),
        pgrefill: find_last(&table, "pgrefill"),
        pgscan: find_last(&table, "pgscan"),
        pgsteal: find_last(&table, "pgsteal"),
        pgactivate: find_last(&table, "pgactivate"),
        pgdeactivate: find_last(&table, "pgdeactivate"),
        pglazyfree: find_last(&table, "pglazyfree"),
        pglazyfreed: find_last(&table, "pglazyfreed"),
        thp_fault_alloc: find_last(&table, "thp_fault_alloc"),
        thp_collapse_alloc: find_last(&table, "thp_collapse_alloc"),
    }
}

/// Reads the process ids of a `cgroup.procs` file. Blank lines and lines
/// that hold no number are passed over.
pub fn parse_pids(content: &str) -> (r: Vec<i32>)
    ensures
        r@ == pids_of(lines(content@)),
{
    let ls = split_lines(&chars_of(content));
    let ghost all = texts(ls@);
    let mut r: Vec<i32> = Vec::new();
    let mut i: usize = 0;
    assert(all.take(0) =~= Seq::<Seq<char>>::empty());
    while i < ls.len()
        invariant
            i <= ls.len(),
            all == texts(ls@),
            r@ == pids_of(all.take(i as int)),
        decreases ls.len() - i,
    {
        proof {
            assert(all.take(i + 1).drop_last() =~= all.take(i as int));
            assert(all.take(i + 1).last() == ls@[i as int]@);
        }
        let t = trimmed(&ls[i]);
        match parse_i32(&t) {
            Some(p) => {
                r.push(p);
            },
            None => {},
        }
        i += 1;
    }
    assert(all.take(ls.len() as int) =~= all);
    r
}

/// Whether an entry is a cgroup.
pub fn entry_is_cgroup(e: &DirEntry) -> (r: bool)
    ensures
        r == is_cgroup_dir(*e),
{
    if !e.is_dir {
        return false;
    }
    let name = chars_of(e.name.as_str());
    !(name.len() > 0 && name[0] == '.')
}

/// The names of the child cgroups among the entries of a cgroup's directory.
pub fn select_children(entries: &Vec<DirEntry>) -> (r: Vec<String>)
    ensures
        key_texts(r@) == child_names(entries@),
{
    let mut r: Vec<String> = Vec::new();
    let mut i: usize = 0;
    assert(entries@.take(0) =~= Seq::<DirEntry>::empty());
    assert(key_texts(r@) =~= Seq::<Seq<char>>::empty());
    while i < entries.len()
        invariant
            i <= entries.len(),
            key_texts(r@) == child_names(entries@.take(i as int)),
        decreases entries.len() - i,
    {
        proof {
            assert(entries@.take(i + 1).drop_last() =~= entries@.take(i as int));
            assert(entries@.take(i + 1).last() == entries@[i as int]);
        }
        if entry_is_cgroup(&entries[i]) {
            let ghost before = key_texts(r@);
            let name = entries[i].name.clone();
            r.push(name);
            assert(key_texts(r@) =~= before.push(entries@[i as int].name@));
        }
        i += 1;
    }
    assert(entries@.take(entries.len() as int) =~= entries@);
    r
}

} // verus!
