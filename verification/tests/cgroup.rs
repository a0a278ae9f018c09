use oomd_core::cgroup::cache::{CacheEntry, CachedData, Field, FieldCache};
use oomd_core::cgroup::manager::{CgroupManager, CgroupSource};
use oomd_core::cgroup::reader::{
    parse_memory_limit, parse_memory_stat, parse_memory_usage, parse_pids, select_children, DirEntry,
};
use oomd_core::cgroup::types::{joined, CgroupContext, CgroupPath, CgroupVersion, OomdContext};
use oomd_core::cgroup::v1::CgroupV1Interface;
use oomd_core::cgroup::v2::{is_populated, parse_io_stat, parse_populated, reclaim_request, CgroupV2Interface};
use oomd_core::cgroup::walk::{list_relative, DirTree};
use oomd_core::error::OomdError;
use oomd_core::model::{IOStat, MemoryStat, ResourcePressure};
use std::io::{Error, ErrorKind};

const V2_MOUNTS: &str = "proc /proc proc rw 0 0\ncgroup2 /sys/fs/cgroup cgroup2 rw,nosuid 0 0\n";
const V1_MOUNTS: &str = "cgroup /sys/fs/cgroup/memory cgroup rw,memory 0 0\n\
cgroup /sys/fs/cgroup/cpu,cpuacct cgroup rw,cpu,cpuacct 0 0\n\
cgroup /sys/fs/cgroup/blkio cgroup rw,blkio 0 0\n\
cgroup /sys/fs/cgroup/cpuset cgroup rw,cpuset 0 0\n";

fn path(root: &str, p: &str) -> CgroupPath {
    CgroupPath::new(root.to_string(), p.to_string()).unwrap()
}


fn dir(name: &str, children: Vec<DirTree>) -> DirTree {
    DirTree { name: name.to_string(), is_dir: true, children }
}

fn file(name: &str) -> DirTree {
    DirTree { name: name.to_string(), is_dir: false, children: Vec::new() }
}

#[test]
fn cgroup_path_is_root_separator_relative() {
    let p = path("/sys/fs/cgroup", "/sys/fs/cgroup/svc/a");
    assert_eq!(p.relative(), "svc/a");
    assert_eq!(p.absolute(), "/sys/fs/cgroup/svc/a");
    assert_eq!(p.root(), "/sys/fs/cgroup");
    assert_eq!(format!("{}/{}", p.root(), p.relative()), *p.absolute());
}

#[test]
fn cgroup_path_of_the_root_itself_is_empty() {
    assert_eq!(path("/sys/fs/cgroup", "/sys/fs/cgroup").relative(), "");
    assert_eq!(path("/sys/fs/cgroup", "/sys/fs/cgroup/").relative(), "");
    let p = path("/a/", "/a");
    assert_eq!((p.root().as_str(), p.absolute().as_str(), p.relative()), ("/a", "/a", ""));
    let p = path("/", "/");
    assert_eq!((p.root().as_str(), p.absolute().as_str(), p.relative()), ("/", "/", ""));
    let p = path("", "");
    assert_eq!((p.root().as_str(), p.absolute().as_str(), p.relative()), ("", "", ""));
}

#[test]
fn cgroup_paths_are_compared_by_components() {
    let p = path("/sys//fs/cgroup/", "/sys/fs/./cgroup//svc/./a/");
    assert_eq!(p.root(), "/sys/fs/cgroup");
    assert_eq!(p.absolute(), "/sys/fs/cgroup/svc/a");
    assert_eq!(p.relative(), "svc/a");
    let p = path("./a", "./a/b");
    assert_eq!((p.root().as_str(), p.absolute().as_str(), p.relative()), ("./a", "./a/b", "b"));
    let p = path("", "/svc");
    assert_eq!((p.root().as_str(), p.absolute().as_str(), p.relative()), ("", "/svc", "/svc"));
    let p = path("/", "/svc/a");
    assert_eq!((p.root().as_str(), p.absolute().as_str(), p.relative()), ("/", "/svc/a", "svc/a"));
    assert!(matches!(CgroupPath::new("a".to_string(), "./a".to_string()), Err(OomdError::InvalidPath(_))));
    assert!(matches!(CgroupPath::new("/a".to_string(), "a".to_string()), Err(OomdError::InvalidPath(_))));
    assert!(matches!(CgroupPath::new("/a/b".to_string(), "/a".to_string()), Err(OomdError::InvalidPath(_))));
    for (root, p) in [("/sys/fs/cgroup", "/sys/fs/cgroup/svc/a"), ("/", "/x"), ("", "x/y"), ("/a/", "/a//b/")] {
        let c = path(root, p);
        let seam = if c.root().is_empty() || c.root().ends_with('/') || c.relative().is_empty() { "" } else { "/" };
        assert!(c.absolute().starts_with(c.root().as_str()));
        assert_eq!(format!("{}{}{}", c.root(), seam, c.relative()), *c.absolute());
    }
}

#[test]
fn cgroup_path_with_slashes_at_the_seam() {
    assert_eq!(path("/sys/fs/cgroup/", "/sys/fs/cgroup/svc").relative(), "svc");
    assert_eq!(path("/sys/fs/cgroup", "/sys/fs/cgroup//svc").relative(), "svc");
    assert_eq!(path("", "svc/a").relative(), "svc/a");
    assert_eq!(path("/", "/svc").relative(), "svc");
}

#[test]
fn cgroup_path_outside_the_root_is_invalid() {
    match CgroupPath::new("/sys/fs/cgroup".to_string(), "/tmp/x".to_string()) {
        Err(OomdError::InvalidPath(p)) => assert_eq!(p, "/tmp/x"),
        other => panic!("{:?}", other),
    }
    assert!(matches!(
        CgroupPath::new("/sys/fs/cgroup".to_string(), "/sys/fs/cgroupx/a".to_string()),
        Err(OomdError::InvalidPath(_))
    ));
    assert!(matches!(
        CgroupPath::new("/sys/fs/cgroup".to_string(), "/sys/fs".to_string()),
        Err(OomdError::InvalidPath(_))
    ));
}

#[test]
fn cgroup_paths_are_the_same_by_root_and_relative() {
    let a = path("/sys/fs/cgroup", "/sys/fs/cgroup/svc");
    let b = path("/sys/fs/cgroup", "/sys/fs/cgroup//svc");
    let c = path("/sys/fs/cgroup/", "/sys/fs/cgroup/svc");
    let d = path("/sys/fs/cgroup", "/sys/fs/cgroup/other");
    assert!(a.same_cgroup(&b));
    assert!(a.same_cgroup(&c));
    assert!(!a.same_cgroup(&d));
    assert!(a.same_cgroup(&a.clone()));
    assert!(a == b);
    assert!(a == c);
    assert!(a != d);
    assert!(a != path("/sys/fs", "/sys/fs/svc"));
    assert_eq!(a, a.clone());
}

#[test]
fn joined_paths() {
    assert_eq!(joined("/sys/fs/cgroup", "svc/a"), "/sys/fs/cgroup/svc/a");
    assert_eq!(joined("/sys/fs/cgroup/", "svc"), "/sys/fs/cgroup/svc");
    assert_eq!(joined("/sys/fs/cgroup", "/abs"), "/abs");
    assert_eq!(joined("", "svc"), "svc");
    assert_eq!(joined("/a", ""), "/a/");
}

#[test]
fn supports_psi_is_false_for_pure_v1_only() {
    let v1 = CgroupVersion::V1 {
        memory: "/m".to_string(),
        cpu: "/c".to_string(),
        blkio: "/b".to_string(),
        cpuset: "/s".to_string(),
    };
    assert!(!v1.supports_psi());
    assert!(CgroupVersion::V2 { unified: "/u".to_string() }.supports_psi());
    assert!(CgroupVersion::Hybrid { v1_root: "/m".to_string(), v2_root: "/u".to_string() }.supports_psi());
}

#[test]
fn test_detect_cgroup_version() {
    match CgroupManager::detect_cgroup_version(V2_MOUNTS) {
        Ok(CgroupVersion::V2 { unified }) => assert_eq!(unified, "/sys/fs/cgroup"),
        other => panic!("{:?}", other),
    }
    match CgroupVersion::detect(V1_MOUNTS) {
        Ok(CgroupVersion::V1 { memory, cpu, blkio, cpuset }) => {
            assert_eq!(memory, "/sys/fs/cgroup/memory");
            assert_eq!(cpu, "/sys/fs/cgroup/cpu,cpuacct");
            assert_eq!(blkio, "/sys/fs/cgroup/blkio");
            assert_eq!(cpuset, "/sys/fs/cgroup/cpuset");
        }
        other => panic!("{:?}", other),
    }
}

#[test]
fn detects_hybrid_and_fills_in_usual_places() {
    let mounts = "cgroup /cg/blk cgroup rw,blkio 0 0\ncgroup2 /cg/unified cgroup2 rw 0 0\n";
    match CgroupVersion::detect(mounts) {
        Ok(CgroupVersion::Hybrid { v1_root, v2_root }) => {
            assert_eq!(v1_root, "/sys/fs/cgroup/memory");
            assert_eq!(v2_root, "/cg/unified");
        }
        other => panic!("{:?}", other),
    }
    match CgroupVersion::detect("cgroup /cg/blk cgroup rw,blkio 0 0\n") {
        Ok(CgroupVersion::V1 { memory, cpu, blkio, cpuset }) => {
            assert_eq!(memory, "/sys/fs/cgroup/memory");
            assert_eq!(cpu, "/sys/fs/cgroup/cpu");
            assert_eq!(blkio, "/cg/blk");
            assert_eq!(cpuset, "/sys/fs/cgroup/cpuset");
        }
        other => panic!("{:?}", other),
    }
}

#[test]
fn detect_takes_the_last_row_of_a_hierarchy() {
    let mounts = "cgroup2 /first cgroup2 rw 0 0\ncgroup2 /second cgroup2 rw 0 0\n";
    match CgroupVersion::detect(mounts) {
        Ok(CgroupVersion::V2 { unified }) => assert_eq!(unified, "/second"),
        other => panic!("{:?}", other),
    }
    assert_eq!(CgroupV2Interface::new(mounts).unwrap().unified_mount, "/first");
}

#[test]
fn no_cgroup_mount_is_not_found() {
    let mounts = "proc /proc proc rw 0 0\ncgroup /x cgroup\ncgroup /y cgroup rw,pids 0 0\n";
    assert!(matches!(CgroupVersion::detect(mounts), Err(OomdError::CgroupNotFound(_))));
    assert!(matches!(CgroupVersion::detect(""), Err(OomdError::CgroupNotFound(_))));
    assert!(matches!(CgroupV2Interface::new(mounts), Err(OomdError::CgroupNotFound(_))));
    assert!(matches!(CgroupV1Interface::new(mounts), Err(OomdError::CgroupNotFound(_))));
    assert!(matches!(CgroupManager::new(mounts), Err(OomdError::CgroupNotFound(_))));
}

#[test]
fn test_create_manager() {
    let m = CgroupManager::new(V2_MOUNTS).unwrap();
    assert!(m.supports_psi());
    assert!(matches!(m.version(), CgroupVersion::V2 { .. }));
    assert!(matches!(m.source, CgroupSource::V2(_)));
    let m = CgroupManager::new(V1_MOUNTS).unwrap();
    assert!(!m.supports_psi());
    match &m.source {
        CgroupSource::V1(s) => assert_eq!(s.memory_mount, "/sys/fs/cgroup/memory"),
        other => panic!("{:?}", other),
    }
}

#[test]
fn v1_needs_all_four_controllers() {
    let mounts = "cgroup /m cgroup rw,memory 0 0\ncgroup /c cgroup rw,cpu 0 0\n";
    assert!(matches!(CgroupV1Interface::new(mounts), Err(OomdError::CgroupNotFound(_))));
    assert!(matches!(CgroupManager::new(mounts), Err(OomdError::CgroupNotFound(_))));
    assert_eq!(CgroupV1Interface::find_mount_point(mounts, "cpu").unwrap(), "/c");
    assert!(matches!(
        CgroupV1Interface::find_mount_point(mounts, "blkio"),
        Err(OomdError::CgroupNotFound(_))
    ));
    // a controller name must be a whole option
    assert!(matches!(
        CgroupV1Interface::find_mount_point("cgroup /c cgroup rw,cpuacct 0 0\n", "cpu"),
        Err(OomdError::CgroupNotFound(_))
    ));
}

#[test]
fn manager_makes_cgroup_paths_below_its_root() {
    let m = CgroupManager::new(V2_MOUNTS).unwrap();
    let p = m.create_cgroup_path("/sys/fs/cgroup/svc/a".to_string()).unwrap();
    assert_eq!(p.relative(), "svc/a");
    assert!(matches!(m.create_cgroup_path("svc/a".to_string()), Err(OomdError::InvalidPath(_))));
    let p = m.cgroup_at("svc/a").unwrap();
    assert_eq!(p.absolute(), "/sys/fs/cgroup/svc/a");
    assert_eq!(m.reclaim_file(&p), "/sys/fs/cgroup/svc/a/memory.reclaim");
    let m = CgroupManager::new(V1_MOUNTS).unwrap();
    let p = m.cgroup_at("svc").unwrap();
    assert_eq!(m.reclaim_file(&p), "/sys/fs/cgroup/memory/svc/memory.force_empty");
}

#[test]
fn field_files_of_both_versions() {
    assert_eq!(CgroupV2Interface::field_file(Field::MemoryUsage), Some("memory.current"));
    assert_eq!(CgroupV2Interface::field_file(Field::MemoryLimit), Some("memory.max"));
    assert_eq!(CgroupV2Interface::field_file(Field::MemoryStat), Some("memory.stat"));
    assert_eq!(CgroupV2Interface::field_file(Field::MemoryPressure), Some("memory.pressure"));
    assert_eq!(CgroupV2Interface::field_file(Field::IoPressure), Some("io.pressure"));
    assert_eq!(CgroupV2Interface::field_file(Field::IoStat), Some("io.stat"));
    assert_eq!(CgroupV2Interface::field_file(Field::Pids), Some("cgroup.procs"));
    assert_eq!(CgroupV2Interface::field_file(Field::Populated), Some("cgroup.events"));
    assert_eq!(CgroupV2Interface::field_file(Field::Children), None);
    assert_eq!(CgroupV1Interface::field_file(Field::MemoryUsage), Some("memory.usage_in_bytes"));
    assert_eq!(CgroupV1Interface::field_file(Field::MemoryLimit), Some("memory.limit_in_bytes"));
    assert_eq!(CgroupV1Interface::field_file(Field::MemoryStat), Some("memory.stat"));
    assert_eq!(CgroupV1Interface::field_file(Field::Pids), Some("cgroup.procs"));
    assert_eq!(CgroupV1Interface::field_file(Field::MemoryPressure), None);
    let v2 = CgroupV2Interface::new(V2_MOUNTS).unwrap();
    let p = v2.cgroup_at("svc/a").unwrap();
    assert_eq!(v2.get_cgroup_path(&p), "/sys/fs/cgroup/svc/a");
    assert_eq!(v2.file_path(&p, "memory.current"), "/sys/fs/cgroup/svc/a/memory.current");
    let v1 = CgroupV1Interface::new(V1_MOUNTS).unwrap();
    let p = v1.cgroup_at("svc").unwrap();
    assert_eq!(v1.get_memory_cgroup_path(&p), "/sys/fs/cgroup/memory/svc");
    assert_eq!(v1.blkio_file(&p, "blkio.io_serviced"), "/sys/fs/cgroup/blkio/svc/blkio.io_serviced");
}

#[test]
fn memory_usage_and_limit_are_read() {
    assert_eq!(parse_memory_usage("12345\n").unwrap(), 12345);
    assert!(matches!(parse_memory_usage("12 345\n"), Err(OomdError::Parse(_))));
    assert!(matches!(parse_memory_usage(""), Err(OomdError::Parse(_))));
    assert_eq!(parse_memory_limit("4096\n").unwrap(), 4096);
    assert_eq!(parse_memory_limit("max\n").unwrap(), u64::MAX);
    assert!(matches!(parse_memory_limit("MAX\n"), Err(OomdError::Parse(_))));
    assert!(matches!(parse_memory_limit("-1\n"), Err(OomdError::Parse(_))));
}

#[test]
fn memory_stat_takes_known_keys_and_defaults_to_zero() {
    let content = "anon 100\nfile 200\nunknown_key 5\nslab x\npgfault 7\nfile_mapped 1 2\nanon 300\nthp_collapse_alloc 9\n";
    let stat = parse_memory_stat(content);
    let mut want = MemoryStat::default();
    want.anon = 300;
    want.file = 200;
    want.pgfault = 7;
    want.thp_collapse_alloc = 9;
    assert_eq!(stat, want);
    assert_eq!(parse_memory_stat(""), MemoryStat::default());
    assert_eq!(MemoryStat::default().workingset_refault, 0);
}

#[test]
fn io_stat_sums_over_devices() {
    let content = "8:0 rbytes=100 wbytes=200 rios=3 wios=4 dbytes=5 dios=6\n8:16 rbytes=1 wbytes=2 rios=30 wios=40 dbytes=50 dios=60 other=9\n";
    assert_eq!(
        parse_io_stat(content),
        IOStat { rbytes: 101, wbytes: 202, rios: 33, wios: 44, dbytes: 55, dios: 66 }
    );
    assert_eq!(parse_io_stat(""), IOStat::default());
    assert_eq!(parse_io_stat("8:0 rbytes=x wios\n").rbytes, 0);
    let big = "8:0 rbytes=18446744073709551615\n8:16 rbytes=1\n";
    assert_eq!(parse_io_stat(big).rbytes, u64::MAX);
}

#[test]
fn pids_skip_blank_and_unparseable_lines() {
    assert_eq!(parse_pids("1\n\n 22 \nabc\n333\n"), vec![1, 22, 333]);
    assert!(parse_pids("").is_empty());
}

#[test]
fn populated_comes_from_events_or_from_pids() {
    assert_eq!(parse_populated("frozen 0\npopulated 1\n"), Some(true));
    assert_eq!(parse_populated("populated 0\npopulated 1\n"), Some(false));
    assert_eq!(parse_populated("populated\n"), None);
    assert!(is_populated("populated 1\n", &Vec::new()));
    assert!(!is_populated("populated 0\n", &vec![1]));
    assert!(is_populated("frozen 0\n", &vec![1]));
    assert!(!is_populated("", &Vec::new()));
    assert!(CgroupV1Interface::is_populated(&vec![5]));
    assert!(!CgroupV1Interface::is_populated(&Vec::new()));
}

#[test]
fn children_are_visible_directories() {
    let entries = vec![
        DirEntry { name: "a".to_string(), is_dir: true },
        DirEntry { name: ".hidden".to_string(), is_dir: true },
        DirEntry { name: "memory.stat".to_string(), is_dir: false },
        DirEntry { name: "b".to_string(), is_dir: true },
    ];
    assert_eq!(select_children(&entries), vec!["a", "b"]);
}

#[test]
fn reclaim_request_is_the_decimal_amount() {
    assert_eq!(reclaim_request(107374182), "107374182");
    assert_eq!(reclaim_request(0), "0");
}

fn tree() -> DirTree {
    dir(
        "",
        vec![
            dir("svc", vec![dir("a", vec![dir("deep", vec![])]), file("memory.stat"), dir("b", vec![])]),
            dir(".git", vec![dir("inside", vec![])]),
            file("cgroup.procs"),
            dir("user", vec![dir("svc", vec![])]),
        ],
    )
}

#[test]
fn list_with_empty_pattern_returns_every_directory_once() {
    assert_eq!(
        list_relative(&tree(), ""),
        vec!["svc", "svc/a", "svc/a/deep", "svc/b", "user", "user/svc"]
    );
}

#[test]
fn list_with_pattern_returns_those_that_hold_it() {
    assert_eq!(list_relative(&tree(), "svc/a"), vec!["svc/a", "svc/a/deep"]);
    assert_eq!(list_relative(&tree(), "deep"), vec!["svc/a/deep"]);
    assert_eq!(list_relative(&tree(), "user"), vec!["user", "user/svc"]);
    assert!(list_relative(&tree(), "nothing").is_empty());
    let v2 = CgroupV2Interface::new(V2_MOUNTS).unwrap();
    assert_eq!(v2.list_cgroups(&tree(), "svc/b"), vec!["svc/b"]);
    let v1 = CgroupV1Interface::new(V1_MOUNTS).unwrap();
    assert_eq!(v1.list_cgroups(&tree(), "r/s"), vec!["user/svc"]);
}

#[test]
fn v1_synthesized_pressure() {
    let vmstat = "pgscan_kswapd 1000\npgscan_direct 0\npgsteal_kswapd 900\npgsteal_direct 0\nnr_dirty 5\n";
    let p = CgroupV1Interface::get_vmstat_pressure(vmstat);
    assert_eq!((p.sec_10(), p.sec_60(), p.sec_300(), p.total()), (9000, 7200, 5400, None));
}

#[test]
fn v1_memory_pressure_is_capped_and_zero_without_scans() {
    let p = CgroupV1Interface::get_vmstat_pressure("pgscan_kswapd 10\npgsteal_kswapd 7\npgsteal_direct 8\n");
    assert_eq!((p.sec_10(), p.sec_60(), p.sec_300()), (10000, 8000, 6000));
    let p = CgroupV1Interface::get_vmstat_pressure("pgsteal_kswapd 7\n");
    assert_eq!((p.sec_10(), p.sec_60(), p.sec_300()), (0, 0, 0));
    // 1 of 3 pages: 33.33 %, then 26.66 % and 19.99 %
    let p = CgroupV1Interface::get_vmstat_pressure("pgscan_direct 3\npgsteal_direct 1\n");
    assert_eq!((p.sec_10(), p.sec_60(), p.sec_300()), (3333, 2666, 1999));
}

#[test]
fn v1_cgroup_pressure_scales_with_usage_over_limit() {
    let system = ResourcePressure::new(9000, 7200, 5400, Some(3)).unwrap();
    let p = CgroupV1Interface::estimate_memory_pressure(50, 100, &system);
    assert_eq!((p.sec_10(), p.sec_60(), p.sec_300(), p.total()), (4500, 3600, 2700, Some(3)));
    let p = CgroupV1Interface::estimate_memory_pressure(200, 100, &system);
    assert_eq!((p.sec_10(), p.sec_60(), p.sec_300()), (9000, 7200, 5400));
    let p = CgroupV1Interface::estimate_memory_pressure(0, 100, &system);
    assert_eq!((p.sec_10(), p.sec_60(), p.sec_300()), (0, 0, 0));
    let p = CgroupV1Interface::estimate_memory_pressure(7, 0, &system);
    assert_eq!(p.sec_10(), 9000);
    let p = CgroupV1Interface::estimate_memory_pressure(1, u64::MAX, &system);
    assert_eq!(p.sec_10(), 0);
}

#[test]
fn v1_io_pressure_steps() {
    let stat = |rios, wios| IOStat { rbytes: 0, wbytes: 0, rios, wios, dbytes: 0, dios: 0 };
    let p = CgroupV1Interface::get_io_pressure(&stat(1000, 1));
    assert_eq!((p.sec_10(), p.sec_60(), p.sec_300(), p.total()), (8000, 6400, 4800, None));
    assert_eq!(CgroupV1Interface::get_io_pressure(&stat(1000, 0)).sec_10(), 5000);
    assert_eq!(CgroupV1Interface::get_io_pressure(&stat(50, 51)).sec_10(), 5000);
    assert_eq!(CgroupV1Interface::get_io_pressure(&stat(50, 50)).sec_10(), 1000);
    assert_eq!(CgroupV1Interface::get_io_pressure(&stat(u64::MAX, u64::MAX)).sec_10(), 8000);
}

#[test]
fn v1_system_io_pressure_steps() {
    let p = CgroupV1Interface::get_system_io_pressure("nr_dirty 10000\nnr_writeback 1\n");
    assert_eq!((p.sec_10(), p.sec_60(), p.sec_300(), p.total()), (9000, 7200, 5400, None));
    assert_eq!(CgroupV1Interface::get_system_io_pressure("nr_dirty 1000\nnr_writeback 1\n").sec_10(), 6000);
    assert_eq!(CgroupV1Interface::get_system_io_pressure("nr_dirty 1000\n").sec_10(), 2000);
    assert_eq!(CgroupV1Interface::get_system_io_pressure("").sec_10(), 2000);
    assert_eq!(CgroupV1Interface::get_system_io_pressure("nr_dirty 1\nnr_dirty 20000\n").sec_10(), 9000);
}

#[test]
fn v1_io_stat_reads_total_rows() {
    let bytes = "8:0 Read 10\n8:0 Write 20\nTotal Read 100\nTotal Write 200\nTotal 300\n";
    let count = "Total Read 3\nTotal Write x\n";
    assert_eq!(
        CgroupV1Interface::get_io_stat(Some(bytes), Some(count)),
        IOStat { rbytes: 100, wbytes: 200, rios: 3, wios: 0, dbytes: 0, dios: 0 }
    );
    assert_eq!(CgroupV1Interface::get_io_stat(None, None), IOStat::default());
    assert_eq!(CgroupV1Interface::get_io_stat(None, Some(count)).rios, 3);
}

#[test]
fn cache_keys_and_times_to_live() {
    assert_eq!(Field::MemoryUsage.cache_key("svc/a"), "memory_usage:svc/a");
    assert_eq!(Field::Children.cache_key(""), "children:");
    assert_eq!(Field::SystemMemoryPressure.cache_key("svc/a"), "system_memory_pressure");
    assert_eq!(Field::SystemIoPressure.cache_key("x"), "system_io_pressure");
    assert_eq!(Field::MemoryUsage.ttl_ms(), 1000);
    assert_eq!(Field::MemoryPressure.ttl_ms(), 2000);
    assert_eq!(Field::IoPressure.ttl_ms(), 2000);
    assert_eq!(Field::Pids.ttl_ms(), 2000);
    assert_eq!(Field::MemoryLimit.ttl_ms(), 5000);
    assert_eq!(Field::MemoryStat.ttl_ms(), 5000);
    assert_eq!(Field::IoStat.ttl_ms(), 5000);
    assert_eq!(Field::Populated.ttl_ms(), 5000);
    assert_eq!(Field::Children.ttl_ms(), 10000);
    assert_eq!(Field::SystemMemoryPressure.ttl_ms(), 1000);
    assert_eq!(Field::SystemIoPressure.ttl_ms(), 1000);
}

#[test]
fn cache_time_to_live() {
    let mut cache = FieldCache::new();
    let key = Field::MemoryUsage.cache_key("svc/a");
    let mut reads = 0;
    // t = 0: nothing cached, the file is read
    assert!(cache.lookup(&key, 0).is_none());
    reads += 1;
    cache.store(key.clone(), CachedData::MemoryUsage(100), 0, Field::MemoryUsage.ttl_ms());
    // t = 0.5 s: answered from the cache
    match cache.lookup(&key, 500) {
        Some(CachedData::MemoryUsage(v)) => assert_eq!(*v, 100),
        other => panic!("{:?}", other),
    }
    assert!(cache.lookup(&key, 999).is_some());
    // t = 1.2 s: stale, the file is read again
    assert!(cache.lookup(&key, 1200).is_none());
    assert!(cache.lookup(&key, 1000).is_none());
    reads += 1;
    cache.store(key.clone(), CachedData::MemoryUsage(250), 1200, Field::MemoryUsage.ttl_ms());
    match cache.lookup(&key, 1200) {
        Some(CachedData::MemoryUsage(v)) => assert_eq!(*v, 250),
        other => panic!("{:?}", other),
    }
    assert_eq!(reads, 2);
    assert!(cache.lookup("memory_usage:svc/b", 1200).is_none());
}

#[test]
fn cache_entry_freshness() {
    let e = CacheEntry { data: CachedData::Populated(true), timestamp: 1000, ttl: 10 };
    assert!(e.is_fresh(1000));
    assert!(e.is_fresh(1009));
    assert!(!e.is_fresh(1010));
    assert!(e.is_fresh(5));
    let never = CacheEntry { data: CachedData::Populated(true), timestamp: 1000, ttl: 0 };
    assert!(!never.is_fresh(1000));
}

#[test]
fn assembler_partial_failure() {
    let cgroup = path("/sys/fs/cgroup", "/sys/fs/cgroup/svc/a");
    let denied = || std::io::Error::from(std::io::ErrorKind::PermissionDenied);
    let c = CgroupManager::get_cgroup_context(
        &cgroup,
        Ok(4096),
        Err(OomdError::Io(denied())),
        Err(OomdError::PressureUnavailable("svc/a".to_string())),
        Ok(ResourcePressure::new(1, 2, 3, None).unwrap()),
        Err(OomdError::Parse("x".to_string())),
        Ok(IOStat::default()),
        Ok(vec![1, 2]),
        Err(OomdError::Io(denied())),
        Ok(true),
    );
    assert_eq!(c.memory_usage, Some(4096));
    assert_eq!(c.memory_limit, None);
    assert!(c.memory_pressure.is_none());
    assert_eq!(c.io_pressure.unwrap().sec_300(), 3);
    assert!(c.memory_stat.is_none());
    assert_eq!(c.io_stat, Some(IOStat::default()));
    assert_eq!(c.pids, Some(vec![1, 2]));
    assert!(c.children.is_none());
    assert_eq!(c.is_populated, Some(true));
    assert!(c.is_valid());
    assert!(c.path.same_cgroup(&cgroup));
}

#[test]
fn context_validity_needs_usage_or_pressure() {
    let cgroup = path("/sys/fs/cgroup", "/sys/fs/cgroup/svc/a");
    let mut c = CgroupContext::new(cgroup.clone());
    assert!(!c.is_valid());
    assert_eq!(c.current_age, 0);
    c.memory_limit = Some(1);
    assert!(!c.is_valid());
    c.memory_pressure = ResourcePressure::new(0, 0, 0, None);
    assert!(c.is_valid());
    let single = CgroupManager::get_single_cgroup_context(
        &cgroup,
        Ok(7),
        Err(OomdError::System("x".to_string())),
    );
    assert_eq!(single.memory_usage, Some(7));
    assert!(single.memory_pressure.is_none());
    assert!(single.pids.is_none());
    assert!(single.is_valid());
}

#[test]
fn snapshot_keeps_cgroups_by_key() {
    let mut ctx = OomdContext::new(42);
    assert_eq!(ctx.timestamp, 42);
    assert_eq!(ctx.cache_age, 0);
    assert_eq!(ctx.system_context.swappiness, 60);
    assert_eq!(ctx.system_context.vmstat.len(), 0);
    assert_eq!((ctx.system_context.swaptotal, ctx.system_context.swapused), (0, 0));
    assert_eq!(ctx.cgroups.len(), 0);
    assert!(ctx.get_cgroup("svc/a").is_none());
    let mut a = CgroupContext::new(path("/r", "/r/svc/a"));
    a.memory_usage = Some(1);
    ctx.add_cgroup("svc/a".to_string(), a);
    ctx.add_cgroup("svc/b".to_string(), CgroupContext::new(path("/r", "/r/svc/b")));
    let mut a2 = CgroupContext::new(path("/r", "/r/svc/a"));
    a2.memory_usage = Some(2);
    ctx.add_cgroup("svc/a".to_string(), a2);
    assert_eq!(ctx.cgroups.len(), 2);
    assert_eq!(ctx.cgroups.key_list(), vec!["svc/a", "svc/b"]);
    assert_eq!(ctx.get_cgroup("svc/a").unwrap().memory_usage, Some(2));
    assert!(ctx.get_cgroup("svc/c").is_none());
    ctx.get_mut_cgroup("svc/b").unwrap().memory_usage = Some(9);
    assert!(ctx.get_mut_cgroup("svc/c").is_none());
    assert_eq!(ctx.get_cgroup("svc/b").unwrap().memory_usage, Some(9));
    assert_eq!(ctx.get_cgroup("svc/a").unwrap().memory_usage, Some(2));
    assert_eq!(ctx.cgroups.key_list(), vec!["svc/a", "svc/b"]);
}

#[test]
fn missing_cgroup_is_an_answer_and_other_errors_are_io_errors() {
    assert_eq!(CgroupManager::cgroup_exists(Ok(())).unwrap(), true);
    assert_eq!(CgroupManager::cgroup_exists(Err(Error::from(ErrorKind::NotFound))).unwrap(), false);
    match CgroupManager::cgroup_exists(Err(Error::from(ErrorKind::PermissionDenied))) {
        Err(OomdError::Io(e)) => assert_eq!(e.kind(), ErrorKind::PermissionDenied),
        other => panic!("{:?}", other),
    }
    assert_eq!(CgroupManager::missing_verdict(Error::from(ErrorKind::Other), true).unwrap(), false);
    assert!(matches!(
        CgroupManager::missing_verdict(Error::from(ErrorKind::NotFound), false),
        Err(OomdError::Io(_))
    ));
}

#[test]
fn sources_read_their_fields_under_their_names() {
    let io = "8:0 rbytes=100 wbytes=200 rios=3 wios=4 dbytes=5 dios=6\n8:16 rbytes=1 wios=40\n";
    assert_eq!(
        CgroupV2Interface::get_io_stat(io),
        IOStat { rbytes: 101, wbytes: 200, rios: 3, wios: 44, dbytes: 5, dios: 6 }
    );
    let pressure = "some avg10=1.00 avg60=2.00 avg300=3.00 total=4\nfull avg10=5.00 avg60=6.00 avg300=7.00 total=8\n";
    assert_eq!(CgroupV2Interface::get_io_pressure(pressure).unwrap().sec_10(), 500);
    assert_eq!(CgroupV2Interface::get_io_pressure("some avg10=1.00 avg60=2.00 avg300=3.00\n").unwrap().sec_60(), 200);
    assert!(matches!(CgroupV2Interface::get_io_pressure("x\n"), Err(OomdError::PressureUnavailable(_))));
    assert_eq!(CgroupV2Interface::get_memory_pressure(pressure).unwrap().sec_300(), 700);
    assert_eq!(CgroupV2Interface::get_system_memory_pressure(pressure).unwrap().total(), Some(8));
    assert!(matches!(
        CgroupV2Interface::get_system_io_pressure("some avg10=1.00 avg60=2.00 avg300=3.00\n"),
        Err(OomdError::PressureUnavailable(_))
    ));
    assert_eq!(CgroupV2Interface::get_memory_usage("77\n").unwrap(), 77);
    assert_eq!(CgroupV2Interface::get_memory_limit("max\n").unwrap(), u64::MAX);
    assert_eq!(CgroupV2Interface::get_memory_stat("anon 5\n").anon, 5);
    assert_eq!(CgroupV2Interface::get_pids("4\n5\n"), vec![4, 5]);
    assert!(CgroupV2Interface::is_populated("populated 1\n", &Vec::new()));
    let entries = vec![DirEntry { name: "a".to_string(), is_dir: true }, DirEntry { name: "f".to_string(), is_dir: false }];
    assert_eq!(CgroupV2Interface::get_children(&entries), vec!["a"]);
    assert_eq!(CgroupV1Interface::get_children(&entries), vec!["a"]);
    let v2 = CgroupV2Interface::new(V2_MOUNTS).unwrap();
    let c = v2.cgroup_at("svc/a").unwrap();
    assert_eq!(
        v2.memory_reclaim(&c, 12),
        ("/sys/fs/cgroup/svc/a/memory.reclaim".to_string(), "12".to_string())
    );
    let v1 = CgroupV1Interface::new(V1_MOUNTS).unwrap();
    let c = v1.cgroup_at("svc").unwrap();
    assert_eq!(
        v1.memory_reclaim(&c, 12),
        ("/sys/fs/cgroup/memory/svc/memory.force_empty".to_string(), "12".to_string())
    );
    assert_eq!(CgroupV1Interface::get_memory_usage(" 9 \n").unwrap(), 9);
    assert!(matches!(CgroupV1Interface::get_memory_limit("none\n"), Err(OomdError::Parse(_))));
    assert_eq!(CgroupV1Interface::get_memory_stat("file 6\n").file, 6);
    assert_eq!(CgroupV1Interface::get_pids("x\n8\n"), vec![8]);
    let system = ResourcePressure::new(9000, 7200, 5400, None).unwrap();
    assert_eq!(CgroupV1Interface::get_memory_pressure(1, 4, &system).sec_10(), 2250);
    assert_eq!(CgroupV1Interface::get_system_memory_pressure("pgscan_direct 4\npgsteal_direct 1\n").sec_10(), 2500);
}

#[test]
fn listed_cgroups_are_found_below_the_mount_point() {
    let v2 = CgroupV2Interface::new(V2_MOUNTS).unwrap();
    let found = v2.list_cgroup_paths(&tree(), "").unwrap();
    let relative: Vec<&str> = found.iter().map(|c| c.relative()).collect();
    assert_eq!(relative, vec!["svc", "svc/a", "svc/a/deep", "svc/b", "user", "user/svc"]);
    assert_eq!(relative, v2.list_cgroups(&tree(), ""));
    for c in &found {
        assert_eq!(c.root(), "/sys/fs/cgroup");
        assert_eq!(*c.absolute(), format!("/sys/fs/cgroup/{}", c.relative()));
    }
    let v1 = CgroupV1Interface::new(V1_MOUNTS).unwrap();
    let found = v1.list_cgroup_paths(&tree(), "svc/a").unwrap();
    let absolute: Vec<&str> = found.iter().map(|c| c.absolute().as_str()).collect();
    assert_eq!(absolute, vec!["/sys/fs/cgroup/memory/svc/a", "/sys/fs/cgroup/memory/svc/a/deep"]);
    // a name that is no name of a directory is not below the mount point
    let odd = dir("", vec![dir("/etc", vec![])]);
    assert!(matches!(v2.list_cgroup_paths(&odd, ""), Err(OomdError::InvalidPath(_))));
}
