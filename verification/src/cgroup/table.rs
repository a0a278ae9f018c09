//! Kernel files as tables: one row of words per line, and the counters that
//! rows of the form `name value` give.

use crate::number::{parse_u64_or_zero, u64_or_zero};
use crate::text::{chars_of, is_word, lines, split_lines, split_words, texts, words};
use vstd::prelude::*;

verus! {

/// The rows of a file: the words of each of its lines.
pub open spec fn rows(content: Seq<char>) -> Seq<Seq<Seq<char>>> {
    Seq::new(lines(content).len(), |i: int| words(lines(content)[i]))
}

/// The rows that a table of character vectors holds.
pub open spec fn table_view(t: Seq<Vec<Vec<char>>>) -> Seq<Seq<Seq<char>>> {
    Seq::new(t.len(), |i: int| texts(t[i]@))
}

/// The value of a row `key value`: the number that `value` writes, or zero
/// where it writes none. None for any other row.
pub open spec fn row_counter(row: Seq<Seq<char>>, key: Seq<char>) -> Option<u64> {
    if row.len() == 2 && row[0] == key {
        Some(u64_or_zero(row[1]))
    } else {
        None
    }
}

/// The value that the last row for `key` gives, or zero where no row does.
pub open spec fn last_counter(rows: Seq<Seq<Seq<char>>>, key: Seq<char>) -> u64
    decreases rows.len(),
{
    if rows.len() == 0 {
        0
    } else {
        match row_counter(rows.last(), key) {
            Some(v) => v,
            None => last_counter(rows.drop_last(), key),
        }
    }
}

/// The sum of the values that all rows for `key` give.
pub open spec fn total_counter(rows: Seq<Seq<Seq<char>>>, key: Seq<char>) -> nat
    decreases rows.len(),
{
    if rows.len() == 0 {
        0
    } else {
        total_counter(rows.drop_last(), key) + match row_counter(rows.last(), key) {
            Some(v) => v as nat,
            None => 0,
        }
    }
}

/// `n`, or the largest `u64` where `n` is larger.
pub open spec fn capped(n: nat) -> u64 {
    if n <= u64::MAX {
        n as u64
    } else {
        u64::MAX
    }
}

/// The sum of two numbers, or the largest `u64` where the sum is larger.
pub fn capped_sum(a: u64, b: u64) -> (r: u64)
    ensures
        r == capped((a + b) as nat),
{
    if a > u64::MAX - b {
        u64::MAX
    } else {
        a + b
    }
}

/// Splits a file into its rows.
pub fn read_rows(content: &str) -> (r: Vec<Vec<Vec<char>>>)
    ensures
        table_view(r@) == rows(content@),
{
    let chars = chars_of(content);
    let ls = split_lines(&chars);
    let mut r: Vec<Vec<Vec<char>>> = Vec::new();
    let mut i: usize = 0;
    while i < ls.len()
        invariant
            i <= ls.len(),
            texts(ls@) == lines(content@),
            r@.len() == i,
            forall|k: int| 0 <= k < i ==> texts(#[trigger] r@[k]@) == words(lines(content@)[k]),
        decreases ls.len() - i,
    {
        let w = split_words(&ls[i]);
        assert(texts(ls@)[i as int] == ls@[i as int]@);
        r.push(w);
        i += 1;
    }
    assert(table_view(r@) =~= rows(content@));
    r
}

/// The value of the row, where it is a row `key value`.
pub fn counter_of_row(row: &Vec<Vec<char>>, key: &str) -> (r: Option<u64>)
    ensures
        r == row_counter(texts(row@), key@),
{
    if row.len() == 2 && is_word(&row[0], key) {
        assert(texts(row@)[0] == row@[0]@);
        assert(texts(row@)[1] == row@[1]@);
        Some(parse_u64_or_zero(&row[1]))
    } else {
        if row.len() == 2 {
            assert(texts(row@)[0] == row@[0]@);
        }
        None
    }
}

/// The value that the last row for `key` gives, or zero.
pub fn find_last(table: &Vec<Vec<Vec<char>>>, key: &str) -> (r: u64)
    ensures
        r == last_counter(table_view(table@), key@),
{
    let ghost all = table_view(table@);
    let mut r: u64 = 0;
    let mut i: usize = 0;
    assert(all.take(0) =~= Seq::<Seq<Seq<char>>>::empty());
    while i < table.len()
        invariant
            i <= table.len(),
            all == table_view(table@),
            r == last_counter(all.take(i as int), key@),
        decreases table.len() - i,
    {
        proof {
            assert(all.take(i + 1).drop_last() =~= all.take(i as int));
            assert(all.take(i + 1).last() == texts(table@[i as int]@));
        }
        match counter_of_row(&table[i], key) {
            Some(v) => {
                r = v;
            },
            None => {},
        }
        i += 1;
    }
    assert(all.take(table.len() as int) =~= all);
    r
}

/// The sum of the values that all rows for `key` give, capped at the largest
/// `u64`.
pub fn find_total(table: &Vec<Vec<Vec<char>>>, key: &str) -> (r: u64)
    ensures
        r == capped(total_counter(table_view(table@), key@)),
{
    let ghost all = table_view(table@);
    let mut r: u64 = 0;
    let mut i: usize = 0;
    assert(all.take(0) =~= Seq::<Seq<Seq<char>>>::empty());
    while i < table.len()
        invariant
            i <= table.len(),
            all == table_view(table@),
            r == capped(total_counter(all.take(i as int), key@)),
        decreases table.len() - i,
    {
        proof {
            assert(all.take(i + 1).drop_last() =~= all.take(i as int));
            assert(all.take(i + 1).last() == texts(table@[i as int]@));
        }
        match counter_of_row(&table[i], key) {
            Some(v) => {
                r = capped_sum(r, v);
            },
            None => {},
        }
        i += 1;
    }
    assert(all.take(table.len() as int) =~= all);
    r
}

} // verus!
