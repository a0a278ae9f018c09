//! Listing the cgroups of a hierarchy from a picture of its directory tree.
//!
//! The caller reads the tree; the walk here decides which directories are
//! cgroups, what their relative paths are and which of them match a pattern.
//! Hidden entries (a leading dot) and what lies below them are passed over,
//! and every other directory is entered whether or not it matched.

use crate::cgroup::types::{
    cgroup_name, cgroup_names, join_names, join_path, joined, lemma_join_head,
    lemma_joined_below, normal_path, plain, relative_below, CgroupPath,
};
use crate::error::OomdError;
use crate::number::write_chars;
use crate::text::{
    chars_of, contains, first_index, has_substring, lemma_first_index_is, starts_with, string_of,
};
use vstd::prelude::*;

verus! {

/// A directory entry with what lies below it.
#[derive(Debug)]
pub struct DirTree {
    pub name: String,
    pub is_dir: bool,
    pub children: Vec<DirTree>,
}

/// The relative path of the entry `name` in the directory at `parent`.
pub open spec fn child_path(parent: Seq<char>, name: Seq<char>) -> Seq<char> {
    if parent.len() == 0 {
        name
    } else {
        parent + seq!['/'] + name
    }
}

/// Whether an entry is a cgroup: a directory whose name begins with no dot.
pub open spec fn is_cgroup(t: DirTree) -> bool {
    t.is_dir && !(t.name@.len() > 0 && t.name@[0] == '.')
}

/// The relative paths of the cgroups under the first `n` entries of the
/// directory `t`, whose own relative path is `path`: each cgroup, followed by
/// the cgroups below it.
pub open spec fn walk_first(t: DirTree, path: Seq<char>, n: nat) -> Seq<Seq<char>>
    decreases t, n,
{
    if n == 0 || n > t.children@.len() {
        Seq::empty()
    } else {
        let c = t.children@[n - 1];
        if is_cgroup(c) {
            walk_first(t, path, (n - 1) as nat) + seq![child_path(path, c.name@)] + walk_first(
                c,
                child_path(path, c.name@),
                c.children@.len(),
            )
        } else {
            walk_first(t, path, (n - 1) as nat)
        }
    }
}

/// The relative paths of all cgroups below the hierarchy root `t`.
pub open spec fn all_cgroups(t: DirTree) -> Seq<Seq<char>> {
    walk_first(t, Seq::empty(), t.children@.len())
}

/// Those of `paths` that hold `pattern`, in order. The empty pattern is held
/// by every path.
pub open spec fn matching(paths: Seq<Seq<char>>, pattern: Seq<char>) -> Seq<Seq<char>>
    decreases paths.len(),
{
    if paths.len() == 0 {
        Seq::empty()
    } else if contains(paths.last(), pattern) {
        matching(paths.drop_last(), pattern).push(paths.last())
    } else {
        matching(paths.drop_last(), pattern)
    }
}

/// The number of cgroups under the first `n` entries of `t`.
pub open spec fn count_first(t: DirTree, n: nat) -> nat
    decreases t, n,
{
    if n == 0 || n > t.children@.len() {
        0
    } else {
        let c = t.children@[n - 1];
        if is_cgroup(c) {
            count_first(t, (n - 1) as nat) + 1 + count_first(c, c.children@.len())
        } else {
            count_first(t, (n - 1) as nat)
        }
    }
}

/// Matching two lists one after the other is matching them joined.
pub proof fn lemma_matching_joined(a: Seq<Seq<char>>, b: Seq<Seq<char>>, pattern: Seq<char>)
    ensures
        matching(a + b, pattern) == matching(a, pattern) + matching(b, pattern),
    decreases b.len(),
{
    if b.len() == 0 {
        assert(a + b =~= a);
        assert(matching(a, pattern) + matching(b, pattern) =~= matching(a, pattern));
    } else {
        lemma_matching_joined(a, b.drop_last(), pattern);
        assert((a + b).drop_last() =~= a + b.drop_last());
        assert((a + b).last() == b.last());
        if contains(b.last(), pattern) {
            assert(matching(a, pattern) + matching(b.drop_last(), pattern).push(b.last()) =~= (
            matching(a, pattern) + matching(b.drop_last(), pattern)).push(b.last()));
        }
    }
}

/// Every path matches the empty pattern.
pub proof fn lemma_matching_all(paths: Seq<Seq<char>>)
    ensures
        matching(paths, Seq::empty()) == paths,
    decreases paths.len(),
{
    if paths.len() == 0 {
        assert(matching(paths, Seq::<char>::empty()) =~= paths);
    } else {
        lemma_matching_all(paths.drop_last());
        let p = paths.last();
        assert(p.subrange(0, 0) =~= Seq::<char>::empty());
        assert(crate::text::occurs_at(p, Seq::<char>::empty(), 0));
        assert(paths.drop_last().push(p) =~= paths);
    }
}

/// What matches is among the paths and holds the pattern, and every path
/// that holds the pattern matches.
pub proof fn lemma_matching_members(paths: Seq<Seq<char>>, pattern: Seq<char>)
    ensures
        forall|p: Seq<char>| #[trigger]
            matching(paths, pattern).contains(p) <==> paths.contains(p) && contains(p, pattern),
    decreases paths.len(),
{
    let m = matching(paths, pattern);
    if paths.len() == 0 {
    } else {
        let rest = paths.drop_last();
        let last = paths.last();
        lemma_matching_members(rest, pattern);
        let mr = matching(rest, pattern);
        assert forall|p: Seq<char>| #[trigger] m.contains(p) implies paths.contains(p) && contains(
            p,
            pattern,
        ) by {
            let i = choose|i: int| 0 <= i < m.len() && m[i] == p;
            if contains(last, pattern) && i == m.len() - 1 {
                assert(paths[paths.len() - 1] == p);
            } else {
                assert(mr[i] == p);
                assert(mr.contains(p));
                assert(rest.contains(p));
                let j = choose|j: int| 0 <= j < rest.len() && rest[j] == p;
                assert(paths[j] == p);
            }
        }
        assert forall|p: Seq<char>| paths.contains(p) && contains(p, pattern) implies #[trigger]
            m.contains(p) by {
            let j = choose|j: int| 0 <= j < paths.len() && paths[j] == p;
            if j == paths.len() - 1 {
                assert(m[m.len() - 1] == p);
            } else {
                assert(rest[j] == p);
                assert(rest.contains(p));
                assert(mr.contains(p));
                let i = choose|i: int| 0 <= i < mr.len() && mr[i] == p;
                assert(m[i] == p);
            }
        }
    }
}

/// The walk lists one path for each cgroup of the tree.
pub proof fn lemma_walk_counts(t: DirTree, path: Seq<char>, n: nat)
    ensures
        walk_first(t, path, n).len() == count_first(t, n),
    decreases t, n,
{
    if n == 0 || n > t.children@.len() {
    } else {
        let c = t.children@[n - 1];
        lemma_walk_counts(t, path, (n - 1) as nat);
        if is_cgroup(c) {
            lemma_walk_counts(c, child_path(path, c.name@), c.children@.len());
        }
    }
}

/// Whether a name is one of a directory: not empty and without a slash.
pub open spec fn plain_name(name: Seq<char>) -> bool {
    name.len() > 0 && forall|k: int| 0 <= k < name.len() ==> #[trigger] name[k] != '/'
}

/// Whether a tree is one of a file system, as far as its cgroups go: in
/// every directory the cgroups have plain names that differ from each other.
pub open spec fn tidy(t: DirTree) -> bool
    decreases t,
{
    &&& forall|i: int|
        0 <= i < t.children@.len() && is_cgroup(#[trigger] t.children@[i]) ==> plain_name(
            t.children@[i].name@,
        ) && tidy(t.children@[i])
    &&& forall|i: int, j: int|
        0 <= i < j < t.children@.len() && is_cgroup(t.children@[i]) && is_cgroup(t.children@[j])
            ==> t.children@[i].name@ != t.children@[j].name@
}

/// Whether `q` is the path `at` or a path below it.
pub open spec fn rooted(q: Seq<char>, at: Seq<char>) -> bool {
    q == at || starts_with(q, at + seq!['/'])
}

/// What comes before the name in the path of an entry of the directory at
/// `parent`.
pub open spec fn stem(parent: Seq<char>) -> Seq<char> {
    if parent.len() == 0 {
        parent
    } else {
        parent + seq!['/']
    }
}

/// A path at or below the entry `name` of a directory begins with the
/// directory's stem and the name, and the name ends there: at the end of
/// the path or at a slash.
proof fn lemma_rooted_shape(q: Seq<char>, parent: Seq<char>, name: Seq<char>)
    requires
        plain_name(name),
        rooted(q, child_path(parent, name)),
    ensures
        q.len() >= stem(parent).len() + name.len(),
        first_index(q.skip(stem(parent).len() as int), '/') == name.len(),
        q.skip(stem(parent).len() as int).take(name.len() as int) == name,
{
    let base = stem(parent);
    let at = child_path(parent, name);
    assert(at =~= base + name);
    let tail = q.skip(base.len() as int);
    if q == at {
        assert(tail =~= name);
        lemma_first_index_is(tail, '/', name.len() as int);
        assert(tail.take(name.len() as int) =~= name);
    } else {
        let lead = at + seq!['/'];
        assert(q.take(lead.len() as int) == lead);
        assert forall|k: int| 0 <= k < name.len() implies #[trigger] tail[k] != '/' by {
            assert(tail[k] == q[k + base.len()]);
            assert(q.take(lead.len() as int)[k + base.len()] == q[k + base.len()]);
            assert(lead[k + base.len()] == name[k]);
        }
        assert(tail[name.len() as int] == '/') by {
            assert(q.take(lead.len() as int)[at.len() as int] == q[at.len() as int]);
            assert(lead[at.len() as int] == '/');
        }
        lemma_first_index_is(tail, '/', name.len() as int);
        assert(tail.take(name.len() as int) =~= name) by {
            assert forall|k: int| 0 <= k < name.len() implies tail.take(name.len() as int)[k]
                == name[k] by {
                assert(tail[k] == q[k + base.len()]);
                assert(q.take(lead.len() as int)[k + base.len()] == q[k + base.len()]);
                assert(lead[k + base.len()] == name[k]);
            }
        }
    }
}

/// Paths at or below two entries of one directory whose names differ are
/// different paths.
proof fn lemma_rooted_apart(
    q1: Seq<char>,
    q2: Seq<char>,
    parent: Seq<char>,
    name1: Seq<char>,
    name2: Seq<char>,
)
    requires
        plain_name(name1),
        plain_name(name2),
        name1 != name2,
        rooted(q1, child_path(parent, name1)),
        rooted(q2, child_path(parent, name2)),
    ensures
        q1 != q2,
{
    lemma_rooted_shape(q1, parent, name1);
    lemma_rooted_shape(q2, parent, name2);
}

/// A path below an entry's entry is below the entry.
proof fn lemma_rooted_deeper(q: Seq<char>, at: Seq<char>, name: Seq<char>)
    requires
        at.len() > 0,
        rooted(q, child_path(at, name)),
    ensures
        starts_with(q, at + seq!['/']),
        q != at,
{
    let lead = at + seq!['/'];
    let deeper = child_path(at, name);
    assert(deeper =~= lead + name);
    if q == deeper {
        assert(q.take(lead.len() as int) =~= lead);
    } else {
        let longer = deeper + seq!['/'];
        assert(q.take(longer.len() as int) == longer);
        assert(q.take(lead.len() as int) =~= lead) by {
            assert forall|k: int| 0 <= k < lead.len() implies q.take(lead.len() as int)[k]
                == lead[k] by {
                assert(q.take(longer.len() as int)[k] == q[k]);
                assert(longer[k] == lead[k]);
            }
        }
    }
}

/// Every path that the walk lists lies at or below a cgroup of the
/// directory that it walks.
proof fn lemma_walk_rooted(t: DirTree, path: Seq<char>, n: nat, k: int)
    requires
        tidy(t),
        n <= t.children@.len(),
        0 <= k < walk_first(t, path, n).len(),
    ensures
        exists|i: int|
            0 <= i < n && is_cgroup(#[trigger] t.children@[i]) && rooted(
                walk_first(t, path, n)[k],
                child_path(path, t.children@[i].name@),
            ),
    decreases t, n,
{
    let c = t.children@[n - 1];
    let before = walk_first(t, path, (n - 1) as nat);
    if !is_cgroup(c) {
        lemma_walk_rooted(t, path, (n - 1) as nat, k);
        let i = choose|i: int|
            0 <= i < n - 1 && is_cgroup(#[trigger] t.children@[i]) && rooted(
                before[k],
                child_path(path, t.children@[i].name@),
            );
        assert(0 <= i < n && is_cgroup(t.children@[i]));
    } else {
        let here = child_path(path, c.name@);
        let below = walk_first(c, here, c.children@.len());
        let q = walk_first(t, path, n)[k];
        if k < before.len() {
            lemma_walk_rooted(t, path, (n - 1) as nat, k);
            let i = choose|i: int|
                0 <= i < n - 1 && is_cgroup(#[trigger] t.children@[i]) && rooted(
                    before[k],
                    child_path(path, t.children@[i].name@),
                );
            assert(0 <= i < n && is_cgroup(t.children@[i]));
        } else if k == before.len() {
            assert(q == here);
            assert(is_cgroup(t.children@[n - 1]));
        } else {
            let d = k - before.len() - 1;
            assert(q == below[d]);
            assert(tidy(c));
            lemma_walk_rooted(c, here, c.children@.len(), d);
            let j = choose|j: int|
                0 <= j < c.children@.len() && is_cgroup(#[trigger] c.children@[j]) && rooted(
                    below[d],
                    child_path(here, c.children@[j].name@),
                );
            assert(plain_name(c.name@));
            assert(here.len() > 0);
            lemma_rooted_deeper(q, here, c.children@[j].name@);
            assert(is_cgroup(t.children@[n - 1]));
        }
    }
}

/// The walk of a tidy tree lists no path twice.
pub proof fn lemma_walk_lists_once(t: DirTree, path: Seq<char>, n: nat)
    requires
        tidy(t),
        n <= t.children@.len(),
    ensures
        walk_first(t, path, n).no_duplicates(),
    decreases t, n,
{
    if n == 0 {
    } else {
        let c = t.children@[n - 1];
        let before = walk_first(t, path, (n - 1) as nat);
        lemma_walk_lists_once(t, path, (n - 1) as nat);
        if is_cgroup(c) {
            let here = child_path(path, c.name@);
            let below = walk_first(c, here, c.children@.len());
            let all = walk_first(t, path, n);
            assert(tidy(c));
            assert(plain_name(c.name@));
            assert(here.len() > 0);
            lemma_walk_lists_once(c, here, c.children@.len());
            assert forall|a: int, b: int| 0 <= a < b < all.len() implies all[a] != all[b] by {
                if b < before.len() {
                    assert(all[a] == before[a] && all[b] == before[b]);
                } else if a > before.len() {
                    assert(all[a] == below[a - before.len() - 1]);
                    assert(all[b] == below[b - before.len() - 1]);
                } else if a == before.len() {
                    let d = b - before.len() - 1;
                    assert(all[b] == below[d]);
                    lemma_walk_rooted(c, here, c.children@.len(), d);
                    let j = choose|j: int|
                        0 <= j < c.children@.len() && is_cgroup(#[trigger] c.children@[j])
                            && rooted(below[d], child_path(here, c.children@[j].name@));
                    lemma_rooted_deeper(below[d], here, c.children@[j].name@);
                } else {
                    assert(all[a] == before[a]);
                    lemma_walk_rooted(t, path, (n - 1) as nat, a);
                    let i = choose|i: int|
                        0 <= i < n - 1 && is_cgroup(#[trigger] t.children@[i]) && rooted(
                            before[a],
                            child_path(path, t.children@[i].name@),
                        );
                    assert(plain_name(t.children@[i].name@));
                    assert(t.children@[i].name@ != c.name@);
                    if b == before.len() {
                        assert(all[b] == here);
                        lemma_rooted_apart(
                            all[a],
                            all[b],
                            path,
                            t.children@[i].name@,
                            c.name@,
                        );
                    } else {
                        let d = b - before.len() - 1;
                        assert(all[b] == below[d]);
                        lemma_walk_rooted(c, here, c.children@.len(), d);
                        let j = choose|j: int|
                            0 <= j < c.children@.len() && is_cgroup(#[trigger] c.children@[j])
                                && rooted(below[d], child_path(here, c.children@[j].name@));
                        lemma_rooted_deeper(below[d], here, c.children@[j].name@);
                        lemma_rooted_apart(
                            all[a],
                            all[b],
                            path,
                            t.children@[i].name@,
                            c.name@,
                        );
                    }
                }
            }
        }
    }
}

/// Every path that the walk lists is made of names that cgroups can have,
/// joined with slashes.
proof fn lemma_walk_names(t: DirTree, above: Seq<Seq<char>>, n: nat, k: int)
    requires
        tidy(t),
        n <= t.children@.len(),
        cgroup_names(above),
        0 <= k < walk_first(t, join_names(above), n).len(),
    ensures
        exists|names: Seq<Seq<char>>|
            names.len() > 0 && cgroup_names(names) && walk_first(t, join_names(above), n)[k]
                == #[trigger] join_names(names),
    decreases t, n,
{
    let path = join_names(above);
    let c = t.children@[n - 1];
    let before = walk_first(t, path, (n - 1) as nat);
    if !is_cgroup(c) {
        lemma_walk_names(t, above, (n - 1) as nat, k);
        let names = choose|names: Seq<Seq<char>>|
            names.len() > 0 && cgroup_names(names) && before[k] == #[trigger] join_names(names);
        assert(walk_first(t, path, n)[k] == join_names(names));
    } else {
        let here = child_path(path, c.name@);
        let down = above.push(c.name@);
        assert(plain_name(c.name@));
        assert(cgroup_name(c.name@));
        assert(cgroup_names(down)) by {
            assert forall|i: int| 0 <= i < down.len() implies cgroup_name(#[trigger] down[i]) by {
                if i < above.len() {
                    assert(down[i] == above[i]);
                }
            }
        }
        assert(here == join_names(down)) by {
            assert(down.drop_last() =~= above);
            assert(down.last() == c.name@);
            if above.len() > 0 {
                assert forall|i: int| 0 <= i < above.len() implies plain(#[trigger] above[i]) by {
                    assert(cgroup_name(above[i]));
                }
                lemma_join_head(above);
            }
        }
        let below = walk_first(c, here, c.children@.len());
        let all = walk_first(t, path, n);
        if k < before.len() {
            lemma_walk_names(t, above, (n - 1) as nat, k);
            let names = choose|names: Seq<Seq<char>>|
                names.len() > 0 && cgroup_names(names) && before[k] == #[trigger] join_names(
                    names,
                );
            assert(all[k] == join_names(names));
        } else if k == before.len() {
            assert(all[k] == join_names(down));
        } else {
            let d = k - before.len() - 1;
            assert(all[k] == below[d]);
            assert(tidy(c));
            lemma_walk_names(c, down, c.children@.len(), d);
            let names = choose|names: Seq<Seq<char>>|
                names.len() > 0 && cgroup_names(names) && below[d] == #[trigger] join_names(
                    names,
                );
            assert(all[k] == join_names(names));
        }
    }
}

/// What is listed is found again: every path that the walk of a tidy tree
/// lists lies below any hierarchy root that it is joined to, and relative
/// to that root it is the path itself.
pub proof fn lemma_listed_is_below(root: Seq<char>, t: DirTree, k: int)
    requires
        tidy(t),
        0 <= k < all_cgroups(t).len(),
    ensures
        relative_below(root, join_path(root, all_cgroups(t)[k])) == Some(all_cgroups(t)[k]),
{
    let above = Seq::<Seq<char>>::empty();
    assert(join_names(above) =~= Seq::<char>::empty());
    assert(cgroup_names(above));
    lemma_walk_names(t, above, t.children@.len(), k);
    let names = choose|names: Seq<Seq<char>>|
        names.len() > 0 && cgroup_names(names) && all_cgroups(t)[k] == #[trigger] join_names(
            names,
        );
    lemma_joined_below(root, names);
}

/// Whether an entry is a cgroup.
pub fn tree_is_cgroup(t: &DirTree) -> (r: bool)
    ensures
        r == is_cgroup(*t),
{
    if !t.is_dir {
        return false;
    }
    let name = chars_of(t.name.as_str());
    !(name.len() > 0 && name[0] == '.')
}

/// The relative path of the entry `name` in the directory at `parent`.
pub fn join_child(parent: &Vec<char>, name: &str) -> (r: Vec<char>)
    ensures
        r@ == child_path(parent@, name@),
{
    let mut r: Vec<char> = Vec::new();
    if parent.len() > 0 {
        write_chars(&mut r, parent);
        r.push('/');
    }
    let n = chars_of(name);
    write_chars(&mut r, &n);
    assert(r@ =~= child_path(parent@, name@));
    r
}

/// The texts of a list of strings.
pub open spec fn path_texts(v: Seq<String>) -> Seq<Seq<char>> {
    Seq::new(v.len(), |i: int| v[i]@)
}

/// Appends to `out` the matching cgroups below the directory `t`, whose own
/// relative path is `path`.
pub fn list_below(t: &DirTree, path: &Vec<char>, pattern: &Vec<char>, out: &mut Vec<String>)
    ensures
        path_texts(final(out)@) == path_texts(old(out)@) + matching(
            walk_first(*t, path@, t.children@.len()),
            pattern@,
        ),
    decreases t,
{
    let ghost start = path_texts(out@);
    let mut i: usize = 0;
    proof {
        assert(matching(walk_first(*t, path@, 0), pattern@) =~= Seq::<Seq<char>>::empty());
        assert(start + Seq::<Seq<char>>::empty() =~= start);
    }
    while i < t.children.len()
        invariant
            i <= t.children.len(),
            path_texts(out@) == start + matching(walk_first(*t, path@, i as nat), pattern@),
        decreases t.children.len() - i,
    {
        let c = &t.children[i];
        let ghost before = walk_first(*t, path@, i as nat);
        if tree_is_cgroup(c) {
            let p = join_child(path, c.name.as_str());
            let ghost mid = path_texts(out@);
            if has_substring(&p, pattern) {
                out.push(string_of(&p));
                assert(path_texts(out@) =~= mid.push(p@));
            }
            let ghost mid2 = path_texts(out@);
            list_below(c, &p, pattern, out);
            proof {
                let below = walk_first(*c, p@, c.children@.len());
                assert(walk_first(*t, path@, (i + 1) as nat) == before + seq![p@] + below);
                lemma_matching_joined(before + seq![p@], below, pattern@);
                lemma_matching_joined(before, seq![p@], pattern@);
                assert(seq![p@].drop_last() =~= Seq::<Seq<char>>::empty());
                assert(seq![p@].last() == p@);
                assert(matching(seq![p@].drop_last(), pattern@) =~= Seq::<Seq<char>>::empty());
                assert(matching(seq![p@], pattern@) =~= if contains(p@, pattern@) {
                    seq![p@]
                } else {
                    Seq::<Seq<char>>::empty()
                });
                assert(mid2 =~= start + matching(before, pattern@) + matching(
                    seq![p@],
                    pattern@,
                ));
                assert(path_texts(out@) =~= start + matching(
                    walk_first(*t, path@, (i + 1) as nat),
                    pattern@,
                ));
            }
        }
        i += 1;
    }
}

/// The relative paths of the cgroups below the hierarchy root `root` that
/// hold `pattern`: all of them for the empty pattern. A cgroup comes before
/// the cgroups below it, and siblings come in the order of the directory.
pub fn list_relative(root: &DirTree, pattern: &str) -> (r: Vec<String>)
    ensures
        path_texts(r@) == matching(all_cgroups(*root), pattern@),
        pattern@.len() == 0 ==> path_texts(r@) == all_cgroups(*root),
        pattern@.len() == 0 ==> r@.len() == count_first(*root, root.children@.len()),
{
    let mut out: Vec<String> = Vec::new();
    let path: Vec<char> = Vec::new();
    let pat = chars_of(pattern);
    assert(path_texts(out@) =~= Seq::<Seq<char>>::empty());
    list_below(root, &path, &pat, &mut out);
    proof {
        assert(path@ =~= Seq::<char>::empty());
        assert(Seq::<Seq<char>>::empty() + matching(all_cgroups(*root), pattern@) =~= matching(
            all_cgroups(*root),
            pattern@,
        ));
        if pattern@.len() == 0 {
            assert(pattern@ =~= Seq::<char>::empty());
            lemma_matching_all(all_cgroups(*root));
            lemma_walk_counts(*root, Seq::empty(), root.children@.len());
        }
    }
    out
}

/// Whether `cgroup` is the cgroup at the relative path `relative` below
/// the hierarchy root `root`.
pub open spec fn found_below(cgroup: CgroupPath, root: Seq<char>, relative: Seq<char>) -> bool {
    cgroup.root_text() == normal_path(root) && cgroup.path_text() == normal_path(
        join_path(root, relative),
    ) && relative_below(root, join_path(root, relative)) == Some(cgroup.relative_text())
}

/// The cgroups below the hierarchy root `root` that hold `pattern`, from a
/// picture of the directory tree below the root: each listed path joined to
/// the root, in the order of the listing. A listed path that does not lie
/// below the root is invalid; in a tidy tree there is none, and each cgroup
/// has the listed path as its relative path.
pub fn paths_below(root: &str, tree: &DirTree, pattern: &str) -> (r: Result<
    Vec<CgroupPath>,
    OomdError,
>)
    ensures
        match r {
            Ok(v) => v@.len() == matching(all_cgroups(*tree), pattern@).len() && forall|i: int|
                0 <= i < v@.len() ==> found_below(
                    #[trigger] v@[i],
                    root@,
                    matching(all_cgroups(*tree), pattern@)[i],
                ),
            Err(e) => e is InvalidPath && exists|i: int|
                0 <= i < matching(all_cgroups(*tree), pattern@).len() && relative_below(
                    root@,
                    join_path(root@, #[trigger] matching(all_cgroups(*tree), pattern@)[i]),
                ) is None,
        },
        tidy(*tree) ==> r is Ok && forall|i: int|
            0 <= i < r->Ok_0@.len() ==> (#[trigger] r->Ok_0@[i]).relative_text() == matching(
                all_cgroups(*tree),
                pattern@,
            )[i],
{
    let listed = list_relative(tree, pattern);
    let ghost wanted = matching(all_cgroups(*tree), pattern@);
    let mut out: Vec<CgroupPath> = Vec::new();
    let mut i: usize = 0;
    while i < listed.len()
        invariant
            i <= listed.len(),
            path_texts(listed@) == wanted,
            wanted == matching(all_cgroups(*tree), pattern@),
            out@.len() == i,
            forall|j: int| 0 <= j < i ==> found_below(#[trigger] out@[j], root@, wanted[j]),
            tidy(*tree) ==> forall|j: int|
                0 <= j < i ==> (#[trigger] out@[j]).relative_text() == wanted[j],
        decreases listed.len() - i,
    {
        let relative = listed[i].as_str();
        assert(relative@ == wanted[i as int]) by {
            assert(path_texts(listed@)[i as int] == listed@[i as int]@);
        }
        proof {
            if tidy(*tree) {
                lemma_matching_members(all_cgroups(*tree), pattern@);
                assert(wanted.contains(wanted[i as int]));
                assert(all_cgroups(*tree).contains(wanted[i as int]));
                let k = choose|k: int|
                    0 <= k < all_cgroups(*tree).len() && all_cgroups(*tree)[k] == wanted[i as int];
                lemma_listed_is_below(root@, *tree, k);
            }
        }
        let path = joined(root, relative);
        match CgroupPath::new(String::from_str(root), path) {
            Ok(c) => {
                out.push(c);
            },
            Err(e) => {
                return Err(e);
            },
        }
        i += 1;
    }
    Ok(out)
}

} // verus!
