//! Finding the cgroup hierarchies in the mount table.
//!
//! A row of the mount table reads `device mountpoint fstype options ..`. The
//! unified hierarchy has the file system type `cgroup2`; a version 1
//! controller has the type `cgroup` and its name among the comma-separated
//! options.

use crate::cgroup::table::table_view;
use crate::text::{is_word, split_at_char, split_on, string_of, texts};
use vstd::prelude::*;

verus! {

/// Whether a row mounts the unified hierarchy.
pub open spec fn is_unified_row(row: Seq<Seq<char>>) -> bool {
    row.len() >= 3 && row[2] == "cgroup2"@
}

/// Whether a row mounts the version 1 controller `name`.
pub open spec fn is_controller_row(row: Seq<Seq<char>>, name: Seq<char>) -> bool {
    row.len() >= 4 && row[2] == "cgroup"@ && split_on(row[3], ',').contains(name)
}

/// The mount point of the first row that mounts the unified hierarchy.
pub open spec fn first_unified(rows: Seq<Seq<Seq<char>>>) -> Option<Seq<char>>
    decreases rows.len(),
{
    if rows.len() == 0 {
        None
    } else if is_unified_row(rows[0]) {
        Some(rows[0][1])
    } else {
        first_unified(rows.skip(1))
    }
}

/// The mount point of the last row that mounts the unified hierarchy.
pub open spec fn last_unified(rows: Seq<Seq<Seq<char>>>) -> Option<Seq<char>>
    decreases rows.len(),
{
    if rows.len() == 0 {
        None
    } else if is_unified_row(rows.last()) {
        Some(rows.last()[1])
    } else {
        last_unified(rows.drop_last())
    }
}

/// The mount point of the first row that mounts the controller `name`.
pub open spec fn first_controller(rows: Seq<Seq<Seq<char>>>, name: Seq<char>) -> Option<
    Seq<char>,
>
    decreases rows.len(),
{
    if rows.len() == 0 {
        None
    } else if is_controller_row(rows[0], name) {
        Some(rows[0][1])
    } else {
        first_controller(rows.skip(1), name)
    }
}

/// The mount point of the last row that mounts the controller `name`.
pub open spec fn last_controller(rows: Seq<Seq<Seq<char>>>, name: Seq<char>) -> Option<
    Seq<char>,
>
    decreases rows.len(),
{
    if rows.len() == 0 {
        None
    } else if is_controller_row(rows.last(), name) {
        Some(rows.last()[1])
    } else {
        last_controller(rows.drop_last(), name)
    }
}

/// The mount point that was found, or the fallback.
pub open spec fn mount_or(found: Option<Seq<char>>, fallback: Seq<char>) -> Seq<char> {
    match found {
        Some(m) => m,
        None => fallback,
    }
}

/// Whether `options` names `name` between its commas.
pub fn has_option(options: &Vec<char>, name: &str) -> (r: bool)
    ensures
        r == split_on(options@, ',').contains(name@),
{
    let parts = split_at_char(options, ',');
    let ghost all = texts(parts@);
    let mut i: usize = 0;
    while i < parts.len()
        invariant
            i <= parts.len(),
            all == texts(parts@),
            all == split_on(options@, ','),
            forall|k: int| 0 <= k < i ==> all[k] != name@,
        decreases parts.len() - i,
    {
        if is_word(&parts[i], name) {
            assert(all[i as int] == name@);
            return true;
        }
        i += 1;
    }
    false
}

/// Whether a row mounts the unified hierarchy.
pub fn row_is_unified(row: &Vec<Vec<char>>) -> (r: bool)
    ensures
        r == is_unified_row(texts(row@)),
{
    if row.len() >= 3 {
        assert(texts(row@)[2] == row@[2]@);
        is_word(&row[2], "cgroup2")
    } else {
        false
    }
}

/// Whether a row mounts the version 1 controller `name`.
pub fn row_is_controller(row: &Vec<Vec<char>>, name: &str) -> (r: bool)
    ensures
        r == is_controller_row(texts(row@), name@),
{
    if row.len() >= 4 {
        assert(texts(row@)[2] == row@[2]@);
        assert(texts(row@)[3] == row@[3]@);
        is_word(&row[2], "cgroup") && has_option(&row[3], name)
    } else {
        false
    }
}

/// The mount point of the first row that mounts the unified hierarchy.
pub fn find_first_unified(table: &Vec<Vec<Vec<char>>>) -> (r: Option<String>)
    ensures
        match first_unified(table_view(table@)) {
            Some(m) => r is Some && r->0@ == m,
            None => r is None,
        },
{
    let ghost all = table_view(table@);
    let mut i: usize = 0;
    assert(all.skip(0) =~= all);
    while i < table.len()
        invariant
            i <= table.len(),
            all == table_view(table@),
            first_unified(all.skip(i as int)) == first_unified(all),
        decreases table.len() - i,
    {
        proof {
            assert(all.skip(i as int)[0] == texts(table@[i as int]@));
            assert(all.skip(i as int).skip(1) =~= all.skip(i + 1));
        }
        if row_is_unified(&table[i]) {
            assert(texts(table@[i as int]@)[1] == table@[i as int]@[1]@);
            return Some(string_of(&table[i][1]));
        }
        i += 1;
    }
    None
}

/// The mount point of the first row that mounts the controller `name`.
pub fn find_first_controller(table: &Vec<Vec<Vec<char>>>, name: &str) -> (r: Option<String>)
    ensures
        match first_controller(table_view(table@), name@) {
            Some(m) => r is Some && r->0@ == m,
            None => r is None,
        },
{
    let ghost all = table_view(table@);
    let mut i: usize = 0;
    assert(all.skip(0) =~= all);
    while i < table.len()
        invariant
            i <= table.len(),
            all == table_view(table@),
            first_controller(all.skip(i as int), name@) == first_controller(all, name@),
        decreases table.len() - i,
    {
        proof {
            assert(all.skip(i as int)[0] == texts(table@[i as int]@));
            assert(all.skip(i as int).skip(1) =~= all.skip(i + 1));
        }
        if row_is_controller(&table[i], name) {
            assert(texts(table@[i as int]@)[1] == table@[i as int]@[1]@);
            return Some(string_of(&table[i][1]));
        }
        i += 1;
    }
    None
}

/// The mount point of the last row that mounts the unified hierarchy.
pub fn find_last_unified(table: &Vec<Vec<Vec<char>>>) -> (r: Option<String>)
    ensures
        match last_unified(table_view(table@)) {
            Some(m) => r is Some && r->0@ == m,
            None => r is None,
        },
{
    let ghost all = table_view(table@);
    let mut i: usize = table.len();
    assert(all.take(table.len() as int) =~= all);
    while i > 0
        invariant
            i <= table.len(),
            all == table_view(table@),
            last_unified(all.take(i as int)) == last_unified(all),
        decreases i,
    {
        i -= 1;
        proof {
            assert(all.take(i + 1).last() == texts(table@[i as int]@));
            assert(all.take(i + 1).drop_last() =~= all.take(i as int));
        }
        if row_is_unified(&table[i]) {
            assert(texts(table@[i as int]@)[1] == table@[i as int]@[1]@);
            return Some(string_of(&table[i][1]));
        }
    }
    None
}

/// The mount point of the last row that mounts the controller `name`.
pub fn find_last_controller(table: &Vec<Vec<Vec<char>>>, name: &str) -> (r: Option<String>)
    ensures
        match last_controller(table_view(table@), name@) {
            Some(m) => r is Some && r->0@ == m,
            None => r is None,
        },
{
    let ghost all = table_view(table@);
    let mut i: usize = table.len();
    assert(all.take(table.len() as int) =~= all);
    while i > 0
        invariant
            i <= table.len(),
            all == table_view(table@),
            last_controller(all.take(i as int), name@) == last_controller(all, name@),
        decreases i,
    {
        i -= 1;
        proof {
            assert(all.take(i + 1).last() == texts(table@[i as int]@));
            assert(all.take(i + 1).drop_last() =~= all.take(i as int));
        }
        if row_is_controller(&table[i], name) {
            assert(texts(table@[i as int]@)[1] == table@[i as int]@[1]@);
            return Some(string_of(&table[i][1]));
        }
    }
    None
}

} // verus!
