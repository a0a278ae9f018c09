//! The records that describe cgroups and the system they live on.

use crate::cgroup::mounts::{
    find_last_controller, find_last_unified, last_controller, last_unified, mount_or,
};
use crate::cgroup::table::{read_rows, rows};
use crate::error::OomdError;
use crate::keyed::{key_position, KeyedList};
use crate::model::{IOStat, MemoryStat, ResourcePressure, SystemContext};
use crate::number::write_chars;
use crate::text::{
    chars_of, is_word, lemma_first_index_is, lemma_split_around, lemma_split_pieces, push_piece,
    same_text, slice_of, split_at_char, split_on, starts_with, string_of, texts,
};
use vstd::prelude::*;

verus! {

/// Which cgroup hierarchies the running system has mounted, with their mount
/// points.
#[derive(Debug, Clone)]
pub enum CgroupVersion {
    /// Version 1: one mount point per controller.
    V1 { memory: String, cpu: String, blkio: String, cpuset: String },
    /// Version 2: the unified hierarchy.
    V2 { unified: String },
    /// Both at once.
    Hybrid { v1_root: String, v2_root: String },
}

/// What a `CgroupVersion` holds, with each mount point as its text.
pub enum VersionView {
    V1 { memory: Seq<char>, cpu: Seq<char>, blkio: Seq<char>, cpuset: Seq<char> },
    V2 { unified: Seq<char> },
    Hybrid { v1_root: Seq<char>, v2_root: Seq<char> },
}

impl View for CgroupVersion {
    type V = VersionView;

    open spec fn view(&self) -> VersionView {
        match *self {
            CgroupVersion::V1 { memory, cpu, blkio, cpuset } => VersionView::V1 {
                memory: memory@,
                cpu: cpu@,
                blkio: blkio@,
                cpuset: cpuset@,
            },
            CgroupVersion::V2 { unified } => VersionView::V2 { unified: unified@ },
            CgroupVersion::Hybrid { v1_root, v2_root } => VersionView::Hybrid {
                v1_root: v1_root@,
                v2_root: v2_root@,
            },
        }
    }
}

/// The arrangement that a mount table shows. The last row for a hierarchy
/// counts. With both versions mounted the arrangement is hybrid; a version 1
/// controller that is not mounted is taken to be at its usual place below
/// `/sys/fs/cgroup`. None where no cgroup hierarchy is mounted.
pub open spec fn detected(rows: Seq<Seq<Seq<char>>>) -> Option<VersionView> {
    let unified = last_unified(rows);
    let memory = last_controller(rows, "memory"@);
    let cpu = last_controller(rows, "cpu"@);
    let blkio = last_controller(rows, "blkio"@);
    let cpuset = last_controller(rows, "cpuset"@);
    let any_v1 = memory is Some || cpu is Some || blkio is Some || cpuset is Some;
    if unified is Some && any_v1 {
        Some(
            VersionView::Hybrid {
                v1_root: mount_or(memory, "/sys/fs/cgroup/memory"@),
                v2_root: unified->0,
            },
        )
    } else if unified is Some {
        Some(VersionView::V2 { unified: unified->0 })
    } else if any_v1 {
        Some(
            VersionView::V1 {
                memory: mount_or(memory, "/sys/fs/cgroup/memory"@),
                cpu: mount_or(cpu, "/sys/fs/cgroup/cpu"@),
                blkio: mount_or(blkio, "/sys/fs/cgroup/blkio"@),
                cpuset: mount_or(cpuset, "/sys/fs/cgroup/cpuset"@),
            },
        )
    } else {
        None
    }
}

/// The mount point that was found, or the fallback.
fn found_or(found: Option<String>, fallback: &str) -> (r: String)
    ensures
        r@ == match found {
            Some(m) => m@,
            None => fallback@,
        },
{
    match found {
        Some(m) => m,
        None => String::from_str(fallback),
    }
}

impl CgroupVersion {
    /// Whether the kernel exports pressure stall information for this
    /// arrangement: for everything but pure version 1.
    pub fn supports_psi(&self) -> (r: bool)
        ensures
            r == !(self is V1),
    {
        match self {
            CgroupVersion::V1 { .. } => false,
            CgroupVersion::V2 { .. } => true,
            CgroupVersion::Hybrid { .. } => true,
        }
    }

    /// Tells from the text of the mount table which cgroup hierarchies are
    /// mounted. Where none is, no cgroup is found.
    pub fn detect(mounts: &str) -> (r: Result<CgroupVersion, OomdError>)
        ensures
            match detected(rows(mounts@)) {
                Some(v) => r is Ok && r->Ok_0@ == v,
                None => r is Err && r->Err_0 is CgroupNotFound,
            },
    {
        let table = read_rows(mounts);
        let unified = find_last_unified(&table);
        let memory = find_last_controller(&table, "memory");
        let cpu = find_last_controller(&table, "cpu");
        let blkio = find_last_controller(&table, "blkio");
        let cpuset = find_last_controller(&table, "cpuset");
        let any_v1 = memory.is_some() || cpu.is_some() || blkio.is_some() || cpuset.is_some();
        match unified {
            Some(v2_root) => {
                if any_v1 {
                    Ok(
                        CgroupVersion::Hybrid {
                            v1_root: found_or(memory, "/sys/fs/cgroup/memory"),
                            v2_root,
                        },
                    )
                } else {
                    Ok(CgroupVersion::V2 { unified: v2_root })
                }
            },
            None => {
                if any_v1 {
                    Ok(
                        CgroupVersion::V1 {
                            memory: found_or(memory, "/sys/fs/cgroup/memory"),
                            cpu: found_or(cpu, "/sys/fs/cgroup/cpu"),
                            blkio: found_or(blkio, "/sys/fs/cgroup/blkio"),
                            cpuset: found_or(cpuset, "/sys/fs/cgroup/cpuset"),
                        },
                    )
                } else {
                    Err(
                        OomdError::CgroupNotFound(
                            String::from_str("No cgroup filesystem found"),
                        ),
                    )
                }
            },
        }
    }
}

/// The path of `name` below `base`: `name` itself where it begins with a
/// slash, else `base`, a slash unless `base` is empty or ends with one, and
/// `name`.
pub open spec fn join_path(base: Seq<char>, name: Seq<char>) -> Seq<char> {
    if name.len() > 0 && name[0] == '/' {
        name
    } else if base.len() == 0 || base.last() == '/' {
        base + name
    } else {
        base + seq!['/'] + name
    }
}

/// The path of `name` below `base`.
pub fn joined(base: &str, name: &str) -> (r: String)
    ensures
        r@ == join_path(base@, name@),
{
    let b = chars_of(base);
    let n = chars_of(name);
    if n.len() > 0 && n[0] == '/' {
        return string_of(&n);
    }
    let mut out: Vec<char> = Vec::new();
    write_chars(&mut out, &b);
    if !(b.len() == 0 || b[b.len() - 1] == '/') {
        out.push('/');
    }
    write_chars(&mut out, &n);
    assert(out@ =~= join_path(base@, name@));
    string_of(&out)
}

/// The component that stands for the root directory at the start of an
/// absolute path.
pub open spec fn root_part() -> Seq<char> {
    seq!['/']
}

/// Whether the piece at `index` between the slashes of a path is a name of
/// the path: it is not empty, and it is not a dot unless the path begins
/// with it.
pub open spec fn is_name(piece: Seq<char>, index: int) -> bool {
    piece.len() > 0 && (index == 0 || piece != seq!['.'])
}

/// The names among the first `n` pieces, in order.
pub open spec fn names_first(pieces: Seq<Seq<char>>, n: nat) -> Seq<Seq<char>>
    decreases n,
{
    if n == 0 || n > pieces.len() {
        Seq::empty()
    } else if is_name(pieces[n - 1], n - 1) {
        names_first(pieces, (n - 1) as nat).push(pieces[n - 1])
    } else {
        names_first(pieces, (n - 1) as nat)
    }
}

/// The components of a path: the root directory where the path begins with
/// a slash, then its names. Slashes that repeat or end the path, and dots
/// after the beginning, make no component.
pub open spec fn components(path: Seq<char>) -> Seq<Seq<char>> {
    let pieces = split_on(path, '/');
    let names = names_first(pieces, pieces.len());
    if path.len() > 0 && path[0] == '/' {
        seq![root_part()] + names
    } else {
        names
    }
}

/// The names with one slash between neighbours.
pub open spec fn join_names(names: Seq<Seq<char>>) -> Seq<char>
    decreases names.len(),
{
    if names.len() == 0 {
        Seq::empty()
    } else if names.len() == 1 {
        names[0]
    } else {
        join_names(names.drop_last()) + seq!['/'] + names.last()
    }
}

/// The path that components write: a slash for the root directory, then the
/// names with one slash between neighbours.
pub open spec fn render(parts: Seq<Seq<char>>) -> Seq<char> {
    if parts.len() > 0 && parts[0] == root_part() {
        seq!['/'] + join_names(parts.skip(1))
    } else {
        join_names(parts)
    }
}

/// The normal form of a path: its components written out.
pub open spec fn normal_path(path: Seq<char>) -> Seq<char> {
    render(components(path))
}

/// The path of `path` relative to `root`: the components of `path` that
/// follow those of `root`, written out. None where the components of `path`
/// do not begin with those of `root`.
pub open spec fn relative_below(root: Seq<char>, path: Seq<char>) -> Option<Seq<char>> {
    let r = components(root);
    let p = components(path);
    if r.len() <= p.len() && p.take(r.len() as int) == r {
        Some(render(p.skip(r.len() as int)))
    } else {
        None
    }
}

/// The slash that parts a root from a relative path behind it; nothing
/// where either is empty or the root ends with a slash.
pub open spec fn separator(root: Seq<char>, relative: Seq<char>) -> Seq<char> {
    if root.len() > 0 && root.last() != '/' && relative.len() > 0 {
        seq!['/']
    } else {
        Seq::empty()
    }
}

/// Whether a component is a name: not empty and without a slash.
pub open spec fn plain(name: Seq<char>) -> bool {
    name.len() > 0 && forall|k: int| 0 <= k < name.len() ==> #[trigger] name[k] != '/'
}

/// Whether components are those of a path: names, after the root directory
/// where there is one.
pub open spec fn parted(parts: Seq<Seq<char>>) -> bool {
    forall|i: int|
        0 <= i < parts.len() ==> (i == 0 && parts[0] == root_part()) || plain(#[trigger] parts[i])
}

/// The names among pieces that hold no slash are plain.
pub proof fn lemma_names_plain(pieces: Seq<Seq<char>>, n: nat)
    requires
        forall|i: int, k: int|
            0 <= i < pieces.len() && 0 <= k < pieces[i].len() ==> pieces[i][k] != '/',
    ensures
        forall|i: int|
            0 <= i < names_first(pieces, n).len() ==> plain(#[trigger] names_first(pieces, n)[i]),
    decreases n,
{
    if n == 0 || n > pieces.len() {
    } else {
        lemma_names_plain(pieces, (n - 1) as nat);
        let before = names_first(pieces, (n - 1) as nat);
        let all = names_first(pieces, n);
        assert forall|i: int| 0 <= i < all.len() implies plain(#[trigger] all[i]) by {
            if i < before.len() {
                assert(all[i] == before[i]);
            } else {
                assert(all[i] == pieces[n - 1]);
            }
        }
    }
}

/// The components of a path are names, after the root directory where
/// there is one.
pub proof fn lemma_components_parted(path: Seq<char>)
    ensures
        parted(components(path)),
{
    let pieces = split_on(path, '/');
    lemma_split_pieces(path, '/');
    lemma_names_plain(pieces, pieces.len());
    let names = names_first(pieces, pieces.len());
    let parts = components(path);
    assert forall|i: int| 0 <= i < parts.len() implies (i == 0 && parts[0] == root_part())
        || plain(#[trigger] parts[i]) by {
        if path.len() > 0 && path[0] == '/' {
            if i > 0 {
                assert(parts[i] == names[i - 1]);
            }
        } else {
            assert(parts[i] == names[i]);
        }
    }
}

/// Plain names that are joined make a text that is not empty and ends with
/// no slash.
pub proof fn lemma_join_plain(names: Seq<Seq<char>>)
    requires
        names.len() > 0,
        forall|i: int| 0 <= i < names.len() ==> plain(#[trigger] names[i]),
    ensures
        join_names(names).len() > 0,
        join_names(names).last() != '/',
{
    let last = names.last();
    assert(plain(last));
    assert(last[last.len() - 1] != '/');
    if names.len() == 1 {
    } else {
        let joined = join_names(names.drop_last()) + seq!['/'] + last;
        assert(joined.last() == last[last.len() - 1]);
    }
}

/// Joining two lists of names one after the other is joining their joins.
pub proof fn lemma_join_twice(a: Seq<Seq<char>>, b: Seq<Seq<char>>)
    ensures
        join_names(a + b) == if a.len() == 0 {
            join_names(b)
        } else if b.len() == 0 {
            join_names(a)
        } else {
            join_names(a) + seq!['/'] + join_names(b)
        },
    decreases b.len(),
{
    if a.len() == 0 {
        assert(a + b =~= b);
    } else if b.len() == 0 {
        assert(a + b =~= a);
    } else {
        let all = a + b;
        assert(all.drop_last() =~= a + b.drop_last());
        assert(all.last() == b.last());
        lemma_join_twice(a, b.drop_last());
        if b.len() == 1 {
            assert(b.drop_last() =~= Seq::<Seq<char>>::empty());
            assert(a + b.drop_last() =~= a);
            assert(join_names(b) == b[0]);
        } else {
            assert(join_names(all) =~= join_names(a) + seq!['/'] + (join_names(b.drop_last())
                + seq!['/'] + b.last()));
        }
    }
}

/// A path that is written out is what its first components write, the
/// separator and what the other components write.
pub proof fn lemma_render_parts(parts: Seq<Seq<char>>, n: int)
    requires
        parted(parts),
        0 <= n <= parts.len(),
    ensures
        render(parts) == render(parts.take(n)) + separator(
            render(parts.take(n)),
            render(parts.skip(n)),
        ) + render(parts.skip(n)),
{
    let first = parts.take(n);
    let rest = parts.skip(n);
    if n > 0 {
        assert forall|i: int| 0 <= i < rest.len() implies plain(#[trigger] rest[i]) by {
            assert(rest[i] == parts[i + n]);
        }
    }
    if n == 0 {
        assert(first =~= Seq::<Seq<char>>::empty());
        assert(rest =~= parts);
        assert(render(first) =~= Seq::<char>::empty());
        assert(render(parts) =~= render(first) + separator(render(first), render(rest)) + render(
            rest,
        ));
    } else {
        assert(first[0] == parts[0]);
        if rest.len() > 0 {
            assert(plain(rest[0]));
            assert(rest[0] != root_part()) by {
                if rest[0] == root_part() {
                    assert(rest[0][0] == '/');
                }
            }
            lemma_join_plain(rest);
        } else {
            assert(parts =~= first);
        }
        if parts[0] == root_part() {
            let names = parts.skip(1);
            let lead = first.skip(1);
            assert(names =~= lead + rest);
            lemma_join_twice(lead, rest);
            assert forall|i: int| 0 <= i < lead.len() implies plain(#[trigger] lead[i]) by {
                assert(lead[i] == parts[i + 1]);
            }
            if lead.len() > 0 {
                lemma_join_plain(lead);
                assert(render(first).last() == join_names(lead).last());
            } else {
                assert(render(first) =~= seq!['/']);
            }
            assert(render(parts) =~= render(first) + separator(render(first), render(rest))
                + render(rest));
        } else {
            assert(parts =~= first + rest);
            lemma_join_twice(first, rest);
            assert forall|i: int| 0 <= i < first.len() implies plain(#[trigger] first[i]) by {
                assert(first[i] == parts[i]);
            }
            lemma_join_plain(first);
            assert(render(parts) =~= render(first) + separator(render(first), render(rest))
                + render(rest));
        }
    }
}

/// A path below a root is, in normal form, the root, the separator and the
/// relative path.
pub proof fn lemma_relative_joins(root: Seq<char>, path: Seq<char>)
    requires
        relative_below(root, path) is Some,
    ensures
        starts_with(normal_path(path), normal_path(root)),
        normal_path(path) == normal_path(root) + separator(
            normal_path(root),
            relative_below(root, path)->0,
        ) + relative_below(root, path)->0,
{
    let r = components(root);
    let p = components(path);
    lemma_components_parted(path);
    lemma_render_parts(p, r.len() as int);
    assert(normal_path(path).take(normal_path(root).len() as int) =~= normal_path(root));
}

/// Whether a name is one that a cgroup can have: not empty, without a
/// slash, and not beginning with a dot.
pub open spec fn cgroup_name(name: Seq<char>) -> bool {
    plain(name) && name[0] != '.'
}

/// Whether names are such that cgroups can have them.
pub open spec fn cgroup_names(names: Seq<Seq<char>>) -> bool {
    forall|i: int| 0 <= i < names.len() ==> cgroup_name(#[trigger] names[i])
}

/// Splitting what plain names were joined to gives the names again.
pub proof fn lemma_split_of_join(names: Seq<Seq<char>>)
    requires
        names.len() > 0,
        forall|i: int| 0 <= i < names.len() ==> plain(#[trigger] names[i]),
    ensures
        split_on(join_names(names), '/') == names,
    decreases names.len(),
{
    let last = names.last();
    assert(plain(last));
    lemma_first_index_is(last, '/', last.len() as int);
    assert(split_on(last, '/') =~= seq![last]);
    if names.len() == 1 {
        assert(seq![last] =~= names);
    } else {
        let init = names.drop_last();
        assert forall|i: int| 0 <= i < init.len() implies plain(#[trigger] init[i]) by {
            assert(init[i] == names[i]);
        }
        lemma_split_of_join(init);
        lemma_split_around(join_names(init), last, '/');
        assert(init + seq![last] =~= names);
    }
}

/// The names among the first pieces do not depend on the later pieces.
pub proof fn lemma_names_prefix(p: Seq<Seq<char>>, q: Seq<Seq<char>>, n: nat)
    requires
        n <= p.len(),
        n <= q.len(),
        p.take(n as int) == q.take(n as int),
    ensures
        names_first(p, n) == names_first(q, n),
    decreases n,
{
    if n > 0 {
        assert(p[n - 1] == p.take(n as int)[n - 1]);
        assert(q[n - 1] == q.take(n as int)[n - 1]);
        assert(p.take(n - 1) =~= p.take(n as int).take(n - 1));
        assert(q.take(n - 1) =~= q.take(n as int).take(n - 1));
        lemma_names_prefix(p, q, (n - 1) as nat);
    }
}

/// Pieces that are names of cgroups, behind other pieces, are all names.
pub proof fn lemma_names_appended(x: Seq<Seq<char>>, y: Seq<Seq<char>>, n: nat)
    requires
        x.len() >= 1,
        n <= y.len(),
        cgroup_names(y),
    ensures
        names_first(x + y, x.len() + n) == names_first(x, x.len()) + y.take(n as int),
    decreases n,
{
    let all = x + y;
    if n == 0 {
        assert(all.take(x.len() as int) =~= x.take(x.len() as int));
        lemma_names_prefix(all, x, x.len());
        assert(names_first(x, x.len()) + y.take(0) =~= names_first(x, x.len()));
    } else {
        lemma_names_appended(x, y, (n - 1) as nat);
        let piece = all[x.len() + n - 1];
        assert(piece == y[n - 1]);
        assert(cgroup_name(piece));
        assert(piece != seq!['.']) by {
            if piece == seq!['.'] {
                assert(piece[0] == '.');
            }
        }
        assert(is_name(piece, x.len() + n - 1));
        assert(y.take(n as int) =~= y.take(n - 1).push(y[n - 1]));
        assert((names_first(x, x.len()) + y.take(n - 1)).push(piece) =~= names_first(x, x.len())
            + y.take(n as int));
    }
}

/// An empty piece behind other pieces is no name.
pub proof fn lemma_names_before_empty(x: Seq<Seq<char>>)
    requires
        x.len() >= 1,
    ensures
        names_first(x + seq![Seq::<char>::empty()], x.len() + 1) == names_first(x, x.len()),
{
    let all = x + seq![Seq::<char>::empty()];
    assert(all[x.len() as int].len() == 0);
    assert(all.take(x.len() as int) =~= x.take(x.len() as int));
    lemma_names_prefix(all, x, x.len());
}

/// Pieces that are names of cgroups are all names.
pub proof fn lemma_names_all(names: Seq<Seq<char>>, n: nat)
    requires
        n <= names.len(),
        cgroup_names(names),
    ensures
        names_first(names, n) == names.take(n as int),
    decreases n,
{
    if n == 0 {
        assert(names.take(0) =~= Seq::<Seq<char>>::empty());
    } else {
        lemma_names_all(names, (n - 1) as nat);
        let piece = names[n - 1];
        assert(cgroup_name(piece));
        assert(piece != seq!['.']) by {
            if piece == seq!['.'] {
                assert(piece[0] == '.');
            }
        }
        assert(names.take(n as int) =~= names.take(n - 1).push(piece));
    }
}

/// What names are joined to begins as the first name does.
pub proof fn lemma_join_head(names: Seq<Seq<char>>)
    requires
        names.len() > 0,
        forall|i: int| 0 <= i < names.len() ==> plain(#[trigger] names[i]),
    ensures
        join_names(names).len() > 0,
        join_names(names)[0] == names[0][0],
    decreases names.len(),
{
    assert(plain(names[0]));
    if names.len() > 1 {
        let init = names.drop_last();
        assert forall|i: int| 0 <= i < init.len() implies plain(#[trigger] init[i]) by {
            assert(init[i] == names[i]);
        }
        lemma_join_head(init);
        assert(init[0] == names[0]);
    }
}

/// The path of cgroup names below a root lies below the root, and relative
/// to the root it is the names joined: what is listed below a hierarchy root
/// is found again below it.
pub proof fn lemma_joined_below(root: Seq<char>, names: Seq<Seq<char>>)
    requires
        names.len() > 0,
        cgroup_names(names),
    ensures
        relative_below(root, join_path(root, join_names(names))) == Some(join_names(names)),
{
    let q = join_names(names);
    assert forall|i: int| 0 <= i < names.len() implies plain(#[trigger] names[i]) by {
        assert(cgroup_name(names[i]));
    }
    lemma_join_head(names);
    lemma_split_of_join(names);
    assert(plain(names[0]));
    assert(q[0] != '/');
    assert(names[0] != root_part()) by {
        if names[0] == root_part() {
            assert(names[0][0] == '/');
        }
    }
    assert(render(names) == q);
    let path = join_path(root, q);
    let empty = Seq::<char>::empty();
    if root.len() == 0 {
        assert(path =~= q);
        lemma_names_all(names, names.len());
        assert(names.take(names.len() as int) =~= names);
        assert(components(path) == names);
        lemma_first_index_is(root, '/', 0);
        assert(split_on(root, '/') =~= seq![root]);
        assert(names_first(seq![root], 1) =~= Seq::<Seq<char>>::empty()) by {
            assert(names_first(seq![root], 0) =~= Seq::<Seq<char>>::empty());
        }
        assert(components(root) =~= Seq::<Seq<char>>::empty());
        assert(names.take(0) =~= components(root));
        assert(names.skip(0) =~= names);
    } else {
        let x = if root.last() == '/' {
            split_on(root.drop_last(), '/')
        } else {
            split_on(root, '/')
        };
        if root.last() == '/' {
            let m = root.drop_last();
            assert(root =~= m + seq!['/'] + empty);
            assert(path =~= m + seq!['/'] + q);
            lemma_split_around(m, empty, '/');
            lemma_split_around(m, q, '/');
            lemma_split_pieces(m, '/');
            lemma_first_index_is(empty, '/', 0);
            assert(split_on(empty, '/') =~= seq![empty]);
            lemma_names_before_empty(x);
        } else {
            assert(path =~= root + seq!['/'] + q);
            lemma_split_around(root, q, '/');
            lemma_split_pieces(root, '/');
        }
        lemma_names_appended(x, names, names.len());
        assert(names.take(names.len() as int) =~= names);
        assert(path.len() > 0 && path[0] == root[0]);
        let r = components(root);
        let p = components(path);
        assert(p =~= r + names);
        assert(p.take(r.len() as int) =~= r);
        assert(p.skip(r.len() as int) =~= names);
    }
}

/// The components of a path.
pub fn components_of(path: &Vec<char>) -> (r: Vec<Vec<char>>)
    ensures
        texts(r@) == components(path@),
{
    let pieces = split_at_char(path, '/');
    let ghost all = texts(pieces@);
    let mut out: Vec<Vec<char>> = Vec::new();
    assert(texts(out@) =~= Seq::<Seq<char>>::empty());
    if path.len() > 0 && path[0] == '/' {
        let mut slash: Vec<char> = Vec::new();
        slash.push('/');
        assert(slash@ =~= root_part());
        push_piece(&mut out, slash);
    }
    let ghost lead = texts(out@);
    assert(lead + Seq::<Seq<char>>::empty() =~= lead);
    let mut i: usize = 0;
    while i < pieces.len()
        invariant
            i <= pieces.len(),
            all == texts(pieces@),
            texts(out@) == lead + names_first(all, i as nat),
        decreases pieces.len() - i,
    {
        let piece = &pieces[i];
        assert(all[i as int] == piece@);
        proof {
            reveal_strlit(".");
            assert("."@ =~= seq!['.']);
        }
        if piece.len() > 0 && (i == 0 || !is_word(piece, ".")) {
            let copy = slice_of(piece, 0, piece.len());
            assert(copy@ =~= piece@);
            push_piece(&mut out, copy);
            assert(lead + names_first(all, i as nat).push(piece@) =~= (lead + names_first(
                all,
                i as nat,
            )).push(piece@));
        }
        i += 1;
    }
    out
}

/// What the components from `from` up to `to` write.
pub fn render_of(parts: &Vec<Vec<char>>, from: usize, to: usize) -> (r: Vec<char>)
    requires
        from <= to <= parts.len(),
    ensures
        r@ == render(texts(parts@).subrange(from as int, to as int)),
{
    let ghost all = texts(parts@);
    let ghost part = all.subrange(from as int, to as int);
    let mut out: Vec<char> = Vec::new();
    let mut start: usize = from;
    proof {
        reveal_strlit("/");
        assert("/"@ =~= root_part());
    }
    if from < to {
        assert(part[0] == parts@[from as int]@);
        if is_word(&parts[from], "/") {
            out.push('/');
            start = from + 1;
            assert(part.skip(1) =~= all.subrange(start as int, to as int));
        }
    }
    let ghost lead = out@;
    let ghost names = all.subrange(start as int, to as int);
    assert(render(part) == lead + join_names(names)) by {
        if start == from {
            assert(lead =~= Seq::<char>::empty());
            assert(names =~= part);
            assert(lead + join_names(names) =~= join_names(names));
        }
    }
    let mut i: usize = start;
    assert(all.subrange(start as int, start as int) =~= Seq::<Seq<char>>::empty());
    assert(lead + Seq::<char>::empty() =~= lead);
    while i < to
        invariant
            start <= i <= to <= parts.len(),
            all == texts(parts@),
            out@ == lead + join_names(all.subrange(start as int, i as int)),
        decreases to - i,
    {
        let ghost before = all.subrange(start as int, i as int);
        let ghost now = all.subrange(start as int, i + 1);
        proof {
            assert(now.drop_last() =~= before);
            assert(now.last() == parts@[i as int]@);
        }
        if i > start {
            out.push('/');
        }
        write_chars(&mut out, &parts[i]);
        proof {
            if i == start {
                assert(before =~= Seq::<Seq<char>>::empty());
                assert(out@ =~= lead + join_names(now));
            } else {
                assert(out@ =~= lead + (join_names(before) + seq!['/'] + parts@[i as int]@));
            }
        }
        i += 1;
    }
    out
}

/// One cgroup, named by the hierarchy root it lives under and its path,
/// both kept in normal form. The path always lies below the root: it is the
/// root, the separator and the relative path.
#[derive(Debug)]
pub struct CgroupPath {
    root: String,
    path: String,
    relative_path: String,
}

impl CgroupPath {
    #[verifier::type_invariant]
    spec fn well_formed(self) -> bool {
        self.path@ == self.root@ + separator(self.root@, self.relative_path@) + self.relative_path@
    }

    /// The hierarchy root, in normal form.
    pub closed spec fn root_text(self) -> Seq<char> {
        self.root@
    }

    /// The absolute path, in normal form.
    pub closed spec fn path_text(self) -> Seq<char> {
        self.path@
    }

    /// The path relative to the root.
    pub closed spec fn relative_text(self) -> Seq<char> {
        self.relative_path@
    }

    /// The cgroup at `path` under the hierarchy at `root`. The two are
    /// compared component by component, so that slashes that repeat or end a
    /// path make no difference. A path that does not lie below the root is
    /// invalid.
    pub fn new(root: String, path: String) -> (r: Result<CgroupPath, OomdError>)
        ensures
            match relative_below(root@, path@) {
                Some(rel) => r is Ok && r->Ok_0.root_text() == normal_path(root@)
                    && r->Ok_0.path_text() == normal_path(path@) && r->Ok_0.relative_text() == rel
                    && r->Ok_0.path_text() == r->Ok_0.root_text() + separator(
                    r->Ok_0.root_text(),
                    rel,
                ) + rel,
                None => r is Err && r->Err_0 is InvalidPath && r->Err_0->InvalidPath_0@ == path@,
            },
    {
        let rc = components_of(&chars_of(root.as_str()));
        let pc = components_of(&chars_of(path.as_str()));
        let ghost rs = texts(rc@);
        let ghost ps = texts(pc@);
        if rc.len() > pc.len() {
            return Err(OomdError::InvalidPath(path));
        }
        let mut i: usize = 0;
        while i < rc.len()
            invariant
                i <= rc.len() <= pc.len(),
                rs == texts(rc@),
                ps == texts(pc@),
                rs == components(root@),
                ps == components(path@),
                forall|k: int| 0 <= k < i ==> rs[k] == ps[k],
            decreases rc.len() - i,
        {
            assert(rs[i as int] == rc@[i as int]@);
            assert(ps[i as int] == pc@[i as int]@);
            if !same_text(&rc[i], &pc[i]) {
                assert(ps.take(rs.len() as int)[i as int] == ps[i as int]);
                return Err(OomdError::InvalidPath(path));
            }
            i += 1;
        }
        proof {
            assert(ps.take(rs.len() as int) =~= rs);
            assert(rs.subrange(0, rs.len() as int) =~= rs);
            assert(ps.subrange(0, ps.len() as int) =~= ps);
            assert(ps.subrange(rs.len() as int, ps.len() as int) =~= ps.skip(rs.len() as int));
            lemma_relative_joins(root@, path@);
        }
        let root_n = render_of(&rc, 0, rc.len());
        let path_n = render_of(&pc, 0, pc.len());
        let rel = render_of(&pc, rc.len(), pc.len());
        Ok(
            CgroupPath {
                root: string_of(&root_n),
                path: string_of(&path_n),
                relative_path: string_of(&rel),
            },
        )
    }

    /// The hierarchy root.
    pub fn root(&self) -> (r: &String)
        ensures
            r@ == self.root_text(),
    {
        &self.root
    }

    /// The absolute path: the root, the separator and the relative path.
    pub fn absolute(&self) -> (r: &String)
        ensures
            r@ == self.path_text(),
            starts_with(r@, self.root_text()),
            r@ == self.root_text() + separator(self.root_text(), self.relative_text())
                + self.relative_text(),
    {
        proof {
            use_type_invariant(self);
            assert(self.path@.take(self.root@.len() as int) =~= self.root@);
        }
        &self.path
    }

    /// The path relative to the root, which is what names the cgroup. With
    /// the root and the separator before it, it is the absolute path.
    pub fn relative(&self) -> (r: &str)
        ensures
            r@ == self.relative_text(),
            self.path_text() == self.root_text() + separator(self.root_text(), r@) + r@,
    {
        proof {
            use_type_invariant(self);
        }
        self.relative_path.as_str()
    }

    /// Whether two paths name the same cgroup: the same relative path under
    /// the same root.
    pub fn same_cgroup(&self, other: &CgroupPath) -> (r: bool)
        ensures
            r == (self.root_text() == other.root_text() && self.relative_text()
                == other.relative_text()),
    {
        self.root == other.root && self.relative_path == other.relative_path
    }
}

impl PartialEq for CgroupPath {
    /// Two paths are equal where they name the same cgroup.
    fn eq(&self, other: &CgroupPath) -> (r: bool) {
        self.root == other.root && self.relative_path == other.relative_path
    }
}

impl vstd::std_specs::cmp::PartialEqSpecImpl for CgroupPath {
    open spec fn obeys_eq_spec() -> bool {
        true
    }

    open spec fn eq_spec(&self, other: &CgroupPath) -> bool {
        self.root_text() == other.root_text() && self.relative_text() == other.relative_text()
    }
}

impl Eq for CgroupPath {

}

impl Clone for CgroupPath {
    fn clone(&self) -> (r: CgroupPath)
        ensures
            r == *self,
    {
        proof {
            use_type_invariant(self);
        }
        CgroupPath {
            root: self.root.clone(),
            path: self.path.clone(),
            relative_path: self.relative_path.clone(),
        }
    }
}

/// What was read of one cgroup in one tick. A field that could not be read
/// is absent.
#[derive(Debug, Clone)]
pub struct CgroupContext {
    pub path: CgroupPath,
    pub memory_usage: Option<u64>,
    pub memory_limit: Option<u64>,
    pub memory_pressure: Option<ResourcePressure>,
    pub io_pressure: Option<ResourcePressure>,
    pub memory_stat: Option<MemoryStat>,
    pub io_stat: Option<IOStat>,
    pub pids: Option<Vec<i32>>,
    pub children: Option<Vec<String>>,
    pub is_populated: Option<bool>,
    pub current_age: u64,
}

impl CgroupContext {
    /// An observation of `path` with every field absent.
    pub fn new(path: CgroupPath) -> (r: CgroupContext)
        ensures
            r.path == path,
            r.memory_usage is None,
            r.memory_limit is None,
            r.memory_pressure is None,
            r.io_pressure is None,
            r.memory_stat is None,
            r.io_stat is None,
            r.pids is None,
            r.children is None,
            r.is_populated is None,
            r.current_age == 0,
    {
        CgroupContext {
            path,
            memory_usage: None,
            memory_limit: None,
            memory_pressure: None,
            io_pressure: None,
            memory_stat: None,
            io_stat: None,
            pids: None,
            children: None,
            is_populated: None,
            current_age: 0,
        }
    }

    /// Whether the observation can be used: the memory usage or the memory
    /// pressure was read.
    pub fn is_valid(&self) -> (r: bool)
        ensures
            r == (self.memory_usage is Some || self.memory_pressure is Some),
    {
        self.memory_usage.is_some() || self.memory_pressure.is_some()
    }
}

/// The point-in-time view of the system that plugins work on: the observed
/// cgroups by key, in the order in which they were added, and system-wide
/// figures. Times are milliseconds.
#[derive(Debug)]
pub struct OomdContext {
    pub cgroups: KeyedList<CgroupContext>,
    pub system_context: SystemContext,
    pub timestamp: u64,
    pub cache_age: u64,
}

impl OomdContext {
    /// An empty snapshot taken at `timestamp`: no swap, swappiness 60.
    pub fn new(timestamp: u64) -> (r: OomdContext)
        ensures
            r.cgroups.keys() == Seq::<Seq<char>>::empty(),
            r.cgroups.values() == Seq::<CgroupContext>::empty(),
            r.timestamp == timestamp,
            r.cache_age == 0,
            r.system_context.swaptotal == 0,
            r.system_context.swapused == 0,
            r.system_context.swappiness == 60,
            r.system_context.vmstat.keys() == Seq::<Seq<char>>::empty(),
            r.system_context.swapout_bps == 0,
            r.system_context.swapout_bps_60 == 0,
            r.system_context.swapout_bps_300 == 0,
    {
        OomdContext {
            cgroups: KeyedList::new(),
            system_context: SystemContext {
                swaptotal: 0,
                swapused: 0,
                swappiness: 60,
                vmstat: KeyedList::new(),
                swapout_bps: 0,
                swapout_bps_60: 0,
                swapout_bps_300: 0,
            },
            timestamp,
            cache_age: 0,
        }
    }

    /// The observation under `path`, if the snapshot holds one.
    pub fn get_cgroup(&self, path: &str) -> (r: Option<&CgroupContext>)
        ensures
            match r {
                Some(c) => self.cgroups.lookup(path@) == Some(*c),
                None => self.cgroups.lookup(path@) is None,
            },
    {
        self.cgroups.get(path)
    }

    /// The observation under `path`, to be changed in place. Nothing else
    /// of the snapshot changes.
    pub fn get_mut_cgroup(&mut self, path: &str) -> (r: Option<&mut CgroupContext>)
        ensures
            final(self).cgroups.keys() == old(self).cgroups.keys(),
            match r {
                Some(c) => old(self).cgroups.lookup(path@) == Some(*c)
                    && final(self).cgroups.lookup(path@) == Some(*final(c)),
                None => old(self).cgroups.lookup(path@) is None && final(self).cgroups.values()
                    == old(self).cgroups.values(),
            },
            forall|k: Seq<char>|
                k != path@ ==> #[trigger] final(self).cgroups.lookup(k) == old(self).cgroups.lookup(k),
            final(self).timestamp == old(self).timestamp,
            final(self).cache_age == old(self).cache_age,
            final(self).system_context == old(self).system_context,
    {
        self.cgroups.get_mut(path)
    }

    /// Puts `cgroup` under `key`: in place of the observation that was there,
    /// or after all others where there was none.
    pub fn add_cgroup(&mut self, key: String, cgroup: CgroupContext)
        ensures
            final(self).cgroups.lookup(key@) == Some(cgroup),
            old(self).cgroups.has(key@) ==> final(self).cgroups.keys() == old(self).cgroups.keys()
                && final(self).cgroups.values() == old(self).cgroups.values().update(
                key_position(old(self).cgroups.keys(), key@),
                cgroup,
            ),
            !old(self).cgroups.has(key@) ==> final(self).cgroups.keys()
                == old(self).cgroups.keys().push(key@) && final(self).cgroups.values()
                == old(self).cgroups.values().push(cgroup),
            final(self).timestamp == old(self).timestamp,
            final(self).cache_age == old(self).cache_age,
            final(self).system_context == old(self).system_context,
    {
        self.cgroups.insert(key, cgroup);
    }
}

} // verus!
