//! The cgroup source dispatcher and the context assembler.
//!
//! The manager finds out which hierarchy is mounted and holds the source for
//! it; with both mounted it uses the unified one. The caller reads the
//! fields of a cgroup through the source, each on its own, and hands the
//! outcomes to the assembler, which never fails: a field that could not be
//! read is absent from the observation.

use crate::cgroup::mounts::{first_controller, first_unified};
use crate::cgroup::table::rows;
use crate::cgroup::types::{
    detected, join_path, normal_path, relative_below, separator, CgroupContext, CgroupPath,
    CgroupVersion,
    VersionView,
};
use crate::cgroup::v1::CgroupV1Interface;
use crate::cgroup::v2::CgroupV2Interface;
use crate::error::OomdError;
use crate::model::{IOStat, MemoryStat, ResourcePressure};
use vstd::prelude::*;

verus! {

/// The source that serves the mounted hierarchy.
#[derive(Debug)]
pub enum CgroupSource {
    V1(CgroupV1Interface),
    V2(CgroupV2Interface),
}

/// The value of a read that succeeded; nothing for one that failed.
pub open spec fn read_value<T>(outcome: Result<T, OomdError>) -> Option<T> {
    match outcome {
        Ok(v) => Some(v),
        Err(_) => None,
    }
}

/// The value of a read that succeeded.
pub fn value_of<T>(outcome: Result<T, OomdError>) -> (r: Option<T>)
    ensures
        r == read_value(outcome),
{
    match outcome {
        Ok(v) => Some(v),
        Err(_) => None,
    }
}

/// The hierarchy root that cgroup paths are taken relative to: the memory
/// controller's mount point for version 1, else the unified one.
pub open spec fn root_of(version: VersionView) -> Seq<char> {
    match version {
        VersionView::V1 { memory, .. } => memory,
        VersionView::V2 { unified } => unified,
        VersionView::Hybrid { v2_root, .. } => v2_root,
    }
}

/// Whether a manager is the one that `mounts` calls for in the arrangement
/// `version`.
pub open spec fn serves(manager: CgroupManager, version: VersionView, mounts: Seq<char>) -> bool {
    let table = rows(mounts);
    manager.version@ == version && if version is V1 {
        match manager.source {
            CgroupSource::V1(s) => first_controller(table, "memory"@) == Some(s.memory_mount@)
                && first_controller(table, "cpu"@) == Some(s.cpu_mount@) && first_controller(
                table,
                "blkio"@,
            ) == Some(s.blkio_mount@) && first_controller(table, "cpuset"@) == Some(
                s.cpuset_mount@,
            ),
            CgroupSource::V2(_) => false,
        }
    } else {
        match manager.source {
            CgroupSource::V1(_) => false,
            CgroupSource::V2(s) => first_unified(table) == Some(s.unified_mount@),
        }
    }
}

/// Whether the source for the arrangement `version` can be had from
/// `mounts`: version 1 needs all four controllers mounted, the others the
/// unified hierarchy.
pub open spec fn can_serve(version: VersionView, mounts: Seq<char>) -> bool {
    let table = rows(mounts);
    if version is V1 {
        first_controller(table, "memory"@) is Some && first_controller(table, "cpu"@) is Some
            && first_controller(table, "blkio"@) is Some && first_controller(table, "cpuset"@)
            is Some
    } else {
        first_unified(table) is Some
    }
}

/// The cgroup source dispatcher.
#[derive(Debug)]
pub struct CgroupManager {
    pub source: CgroupSource,
    pub version: CgroupVersion,
}

impl CgroupManager {
    /// Tells from the text of the mount table which cgroup hierarchies are
    /// mounted.
    pub fn detect_cgroup_version(mounts: &str) -> (r: Result<CgroupVersion, OomdError>)
        ensures
            match detected(rows(mounts@)) {
                Some(v) => r is Ok && r->Ok_0@ == v,
                None => r is Err && r->Err_0 is CgroupNotFound,
            },
    {
        CgroupVersion::detect(mounts)
    }

    /// The manager for the hierarchy that the mount table shows. Where no
    /// hierarchy is mounted, or the one that is lacks what its source needs,
    /// no cgroup is found.
    pub fn new(mounts: &str) -> (r: Result<CgroupManager, OomdError>)
        ensures
            match detected(rows(mounts@)) {
                Some(v) => if can_serve(v, mounts@) {
                    r is Ok && serves(r->Ok_0, v, mounts@)
                } else {
                    r is Err && r->Err_0 is CgroupNotFound
                },
                None => r is Err && r->Err_0 is CgroupNotFound,
            },
    {
        match Self::detect_cgroup_version(mounts) {
            Ok(version) => Self::with_version(version, mounts),
            Err(e) => Err(e),
        }
    }

    /// The manager for the arrangement `version`, with the source that the
    /// mount table gives for it.
    pub fn with_version(version: CgroupVersion, mounts: &str) -> (r: Result<
        CgroupManager,
        OomdError,
    >)
        ensures
            if can_serve(version@, mounts@) {
                r is Ok && serves(r->Ok_0, version@, mounts@)
            } else {
                r is Err && r->Err_0 is CgroupNotFound
            },
    {
        let is_v1 = match &version {
            CgroupVersion::V1 { .. } => true,
            _ => false,
        };
        if is_v1 {
            match CgroupV1Interface::new(mounts) {
                Ok(s) => Ok(CgroupManager { source: CgroupSource::V1(s), version }),
                Err(e) => Err(e),
            }
        } else {
            match CgroupV2Interface::new(mounts) {
                Ok(s) => Ok(CgroupManager { source: CgroupSource::V2(s), version }),
                Err(e) => Err(e),
            }
        }
    }

    /// The arrangement that was found.
    pub fn version(&self) -> (r: &CgroupVersion)
        ensures
            *r == self.version,
    {
        &self.version
    }

    /// Whether the system exports pressure stall information.
    pub fn supports_psi(&self) -> (r: bool)
        ensures
            r == !(self.version is V1),
    {
        self.version.supports_psi()
    }

    /// The cgroup at the absolute path `path`, which must lie below the
    /// hierarchy root.
    pub fn create_cgroup_path(&self, path: String) -> (r: Result<CgroupPath, OomdError>)
        ensures
            match relative_below(root_of(self.version@), path@) {
                Some(rel) => r is Ok && r->Ok_0.root_text() == normal_path(root_of(self.version@))
                    && r->Ok_0.path_text() == normal_path(path@) && r->Ok_0.relative_text() == rel
                    && r->Ok_0.path_text() == r->Ok_0.root_text() + separator(
                    r->Ok_0.root_text(),
                    rel,
                ) + rel,
                None => r is Err && r->Err_0 is InvalidPath && r->Err_0->InvalidPath_0@ == path@,
            },
    {
        let root = match &self.version {
            CgroupVersion::V1 { memory, .. } => memory.clone(),
            CgroupVersion::V2 { unified } => unified.clone(),
            CgroupVersion::Hybrid { v2_root, .. } => v2_root.clone(),
        };
        CgroupPath::new(root, path)
    }

    /// Assembles the observation of a cgroup from the outcomes of the nine
    /// reads. Each read that failed leaves its field absent; the assembly
    /// itself cannot fail.
    pub fn get_cgroup_context(
        cgroup: &CgroupPath,
        memory_usage: Result<u64, OomdError>,
        memory_limit: Result<u64, OomdError>,
        memory_pressure: Result<ResourcePressure, OomdError>,
        io_pressure: Result<ResourcePressure, OomdError>,
        memory_stat: Result<MemoryStat, OomdError>,
        io_stat: Result<IOStat, OomdError>,
        pids: Result<Vec<i32>, OomdError>,
        children: Result<Vec<String>, OomdError>,
        populated: Result<bool, OomdError>,
    ) -> (r: CgroupContext)
        ensures
            r.path == *cgroup,
            r.memory_usage == read_value(memory_usage),
            r.memory_limit == read_value(memory_limit),
            r.memory_pressure == read_value(memory_pressure),
            r.io_pressure == read_value(io_pressure),
            r.memory_stat == read_value(memory_stat),
            r.io_stat == read_value(io_stat),
            r.pids == read_value(pids),
            r.children == read_value(children),
            r.is_populated == read_value(populated),
            r.current_age == 0,
    {
        let mut context = CgroupContext::new(cgroup.clone());
        context.memory_usage = value_of(memory_usage);
        context.memory_limit = value_of(memory_limit);
        context.memory_pressure = value_of(memory_pressure);
        context.io_pressure = value_of(io_pressure);
        context.memory_stat = value_of(memory_stat);
        context.io_stat = value_of(io_stat);
        context.pids = value_of(pids);
        context.children = value_of(children);
        context.is_populated = value_of(populated);
        context
    }

    /// Assembles the observation that monitoring a single cgroup needs: the
    /// memory usage and the memory pressure. All other fields are absent.
    pub fn get_single_cgroup_context(
        cgroup: &CgroupPath,
        memory_usage: Result<u64, OomdError>,
        memory_pressure: Result<ResourcePressure, OomdError>,
    ) -> (r: CgroupContext)
        ensures
            r.path == *cgroup,
            r.memory_usage == read_value(memory_usage),
            r.memory_pressure == read_value(memory_pressure),
            r.memory_limit is None,
            r.io_pressure is None,
            r.memory_stat is None,
            r.io_stat is None,
            r.pids is None,
            r.children is None,
            r.is_populated is None,
            r.current_age == 0,
    {
        let mut context = CgroupContext::new(cgroup.clone());
        context.memory_usage = value_of(memory_usage);
        context.memory_pressure = value_of(memory_pressure);
        context
    }
}

impl CgroupManager {
    /// The name of the file that reclaims memory from a cgroup:
    /// `memory.force_empty` for version 1, else `memory.reclaim`.
    pub open spec fn reclaim_name(self) -> Seq<char> {
        match self.source {
            CgroupSource::V1(_) => "memory.force_empty"@,
            CgroupSource::V2(_) => "memory.reclaim"@,
        }
    }

    /// The mount point below which the source finds its cgroups.
    pub open spec fn source_root(self) -> Seq<char> {
        match self.source {
            CgroupSource::V1(s) => s.memory_mount@,
            CgroupSource::V2(s) => s.unified_mount@,
        }
    }

    /// The cgroup at the relative path `relative` below the source's mount
    /// point.
    pub fn cgroup_at(&self, relative: &str) -> (r: Result<CgroupPath, OomdError>)
        ensures
            match relative_below(self.source_root(), join_path(self.source_root(), relative@)) {
                Some(rel) => r is Ok && r->Ok_0.root_text() == normal_path(self.source_root())
                    && r->Ok_0.path_text() == normal_path(
                    join_path(self.source_root(), relative@),
                ) && r->Ok_0.relative_text() == rel,
                None => r is Err && r->Err_0 is InvalidPath,
            },
    {
        match &self.source {
            CgroupSource::V1(s) => s.cgroup_at(relative),
            CgroupSource::V2(s) => s.cgroup_at(relative),
        }
    }

    /// The path of the file that reclaims memory from a cgroup.
    pub fn reclaim_file(&self, cgroup: &CgroupPath) -> (r: String)
        ensures
            r@ == join_path(
                join_path(self.source_root(), cgroup.relative_text()),
                self.reclaim_name(),
            ),
    {
        match &self.source {
            CgroupSource::V1(s) => s.reclaim_file(cgroup),
            CgroupSource::V2(s) => s.reclaim_file(cgroup),
        }
    }
}

/// Whether an I/O error says that the file does not exist: whether its kind
/// is `NotFound`. The kind is a part of the error and the same wherever the
/// error is looked at.
pub uninterp spec fn says_missing(e: std::io::Error) -> bool;

/// `std::io::Error::kind`: whether the kind of the error is `NotFound`, which
/// says that the file does not exist.
#[verifier::external_body]
fn is_not_found(e: &std::io::Error) -> (r: bool)
    ensures
        r == says_missing(*e),
{
    match e.kind() {
        std::io::ErrorKind::NotFound => true,
        _ => false,
    }
}

impl CgroupManager {
    /// What a failed lookup of a cgroup's directory means, given whether
    /// the error says that the directory does not exist: a missing directory
    /// is an answer, any other error is an I/O error.
    pub fn missing_verdict(e: std::io::Error, not_found: bool) -> (r: Result<bool, OomdError>)
        ensures
            not_found ==> r == Ok::<bool, OomdError>(false),
            !not_found ==> r == Err::<bool, OomdError>(OomdError::Io(e)),
    {
        if not_found {
            Ok(false)
        } else {
            Err(OomdError::Io(e))
        }
    }

    /// Whether a cgroup exists, from the outcome of looking up its
    /// directory. That the directory is missing is an answer and no error;
    /// an error of any other kind is passed on as an I/O error.
    pub fn cgroup_exists(lookup: Result<(), std::io::Error>) -> (r: Result<bool, OomdError>)
        ensures
            lookup is Ok ==> r == Ok::<bool, OomdError>(true),
            lookup is Err && says_missing(lookup->Err_0) ==> r == Ok::<bool, OomdError>(false),
            lookup is Err && !says_missing(lookup->Err_0) ==> r == Err::<bool, OomdError>(
                OomdError::Io(lookup->Err_0),
            ),
    {
        match lookup {
            Ok(()) => Ok(true),
            Err(e) => {
                let not_found = is_not_found(&e);
                Self::missing_verdict(e, not_found)
            },
        }
    }
}

} // verus!
