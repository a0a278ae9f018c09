use oomd_core::cgroup::manager::CgroupManager;
use oomd_core::cgroup::types::{CgroupContext, CgroupPath, OomdContext};
use oomd_core::error::OomdError;
use oomd_core::keyed::KeyedList;
use oomd_core::model::{PluginRet, ProcessInfo, ResourcePressure};
use oomd_core::plugins::actions::kill::{
    parse_process_info, stripped, KillAction, KillActionConfig, KillStep, KillStrategy,
};
use oomd_core::plugins::actions::memory_reclaim::{
    next_drop_step, share, start_drop, CacheStep, DropProgress, DropStep, MemoryReclaimAction,
    MemoryReclaimActionConfig, ReclaimPlan, ReclaimStep, ReclaimStrategy,
};
use oomd_core::plugins::base::{
    decide_run, run_with_context, BasePlugin, PluginConfigHelper, PluginExecutionContext,
    PluginExecutionResult, RunDecision,
};
use oomd_core::plugins::chain::{actions_follow, is_failure, next_step, start_chain, ChainStep, RunOutcome};
use oomd_core::plugins::detectors::memory_pressure::{
    evaluate_gate, retain_recent, MemoryPressureDetector, MemoryPressureDetectorConfig, Sample,
};
use oomd_core::plugins::detectors::memory_usage::{
    reaches_share, MemoryUsageDetector, MemoryUsageDetectorConfig,
};
use oomd_core::plugins::interface::{ActionResult, DetectorCriteria, PluginConfig, PluginType};
use oomd_core::plugins::registry::{KnownPlugin, PluginRegistry};
use oomd_core::plugins::value::{Fixed, FromValue, Value};

const GIB: u64 = 1024 * 1024 * 1024;

fn settings(items: Vec<(&str, Value)>) -> KeyedList<Value> {
    let mut list = KeyedList::new();
    for (k, v) in items {
        list.insert(k.to_string(), v);
    }
    list
}

fn text(s: &str) -> Value {
    Value::Text(s.to_string())
}

fn path(p: &str) -> CgroupPath {
    CgroupPath::new("/sys/fs/cgroup".to_string(), format!("/sys/fs/cgroup/{}", p)).unwrap()
}

fn process(pid: i32, memory_usage: u64, oom_score: i32) -> ProcessInfo {
    started(pid, memory_usage, oom_score, 0)
}

fn started(pid: i32, memory_usage: u64, oom_score: i32, start_time: u64) -> ProcessInfo {
    ProcessInfo {
        pid,
        comm: format!("p{}", pid),
        memory_usage,
        cpu_usage: 0,
        start_time,
        oom_score,
        oom_score_adj: 0,
    }
}

fn pids(v: &[ProcessInfo]) -> Vec<i32> {
    v.iter().map(|p| p.pid).collect()
}

fn unsigned(list: &KeyedList<Value>, key: &str) -> Option<u64> {
    match list.get(key) {
        Some(Value::Unsigned(n)) => Some(*n),
        _ => None,
    }
}

fn as_text(list: &KeyedList<Value>, key: &str) -> Option<String> {
    match list.get(key) {
        Some(Value::Text(s)) => Some(s.clone()),
        _ => None,
    }
}

fn as_bool(list: &KeyedList<Value>, key: &str) -> Option<bool> {
    match list.get(key) {
        Some(Value::Bool(b)) => Some(*b),
        _ => None,
    }
}

fn context_with_pressure(key: &str, pressure: Option<ResourcePressure>) -> OomdContext {
    let mut ctx = OomdContext::new(0);
    let mut c = CgroupContext::new(path(key));
    c.memory_pressure = pressure;
    ctx.add_cgroup(key.to_string(), c);
    ctx
}

fn context_with_usages(items: &[(&str, Option<u64>, Option<u64>)]) -> OomdContext {
    let mut ctx = OomdContext::new(0);
    for (key, usage, limit) in items {
        let mut c = CgroupContext::new(path(key));
        c.memory_usage = *usage;
        c.memory_limit = *limit;
        ctx.add_cgroup(key.to_string(), c);
    }
    ctx
}

#[test]
fn values_read_as_types() {
    assert_eq!(u64::from_value(&Value::Unsigned(7)), Some(7));
    assert_eq!(u64::from_value(&Value::Negative(-7)), None);
    assert_eq!(u64::from_value(&Value::Hundredths(700)), None);
    assert_eq!(u32::from_value(&Value::Unsigned(4294967295)), Some(u32::MAX));
    assert_eq!(u32::from_value(&Value::Unsigned(4294967296)), None);
    assert_eq!(i32::from_value(&Value::Negative(-2147483648)), Some(i32::MIN));
    assert_eq!(i32::from_value(&Value::Negative(-2147483649)), None);
    assert_eq!(i32::from_value(&Value::Unsigned(2147483648)), None);
    assert_eq!(bool::from_value(&Value::Bool(true)), Some(true));
    assert_eq!(bool::from_value(&Value::Unsigned(1)), None);
    assert_eq!(String::from_value(&text("x")), Some("x".to_string()));
    assert_eq!(String::from_value(&Value::Null), None);
    assert_eq!(usize::from_value(&Value::Unsigned(3)), Some(3));
    assert_eq!(Fixed::from_value(&Value::Unsigned(70)), Some(Fixed { hundredths: 7000 }));
    assert_eq!(Fixed::from_value(&Value::Hundredths(7050)), Some(Fixed { hundredths: 7050 }));
    assert_eq!(Fixed::from_value(&Value::Negative(-1)), Some(Fixed { hundredths: -100 }));
    assert_eq!(Fixed::from_value(&Value::Unsigned(u64::MAX)), Some(Fixed { hundredths: i64::MAX }));
    assert_eq!(Fixed::from_value(&Value::Negative(i64::MIN)), Some(Fixed { hundredths: i64::MIN }));
    assert_eq!(Fixed::from_value(&text("70")), None);
}

#[test]
fn base_plugin_counts_and_flags() {
    let mut b = BasePlugin::new("n", "1.2.3", "d");
    assert_eq!((b.name(), b.version(), b.description()), ("n", "1.2.3", "d"));
    assert!(b.is_enabled());
    b.disable();
    assert!(!b.is_enabled());
    b.enable();
    assert!(b.is_enabled());
    b.record_success(1234);
    b.record_success(5678);
    b.record_error();
    assert_eq!((b.success_count, b.error_count, b.last_run), (2, 1, Some(5678)));
    b.success_count = u64::MAX;
    b.record_success(1);
    assert_eq!(b.success_count, u64::MAX);
    assert_eq!(b.run(), PluginRet::Continue);
}

#[test]
fn base_plugin_settings_and_status() {
    let mut b = BasePlugin::new("n", "v", "d");
    assert_eq!(b.get_stats().key_list(), vec!["enabled", "error_count", "success_count"]);
    b.init(settings(vec![("threshold", Value::Hundredths(7050)), ("dry_run", Value::Bool(true))]));
    assert!(b.has_config("threshold"));
    assert!(!b.has_config("missing"));
    assert_eq!(b.get_config::<Fixed>("threshold").unwrap(), Fixed { hundredths: 7050 });
    assert_eq!(b.get_config::<bool>("dry_run").unwrap(), true);
    assert!(matches!(b.get_config::<u64>("threshold"), Err(OomdError::Config(_))));
    assert!(matches!(b.get_config::<u64>("missing"), Err(OomdError::Config(_))));
    b.update_status("enabled".to_string(), text("shadowed"));
    b.update_status("note".to_string(), text("kept"));
    b.record_success(77);
    b.cleanup();
    let status = b.get_status();
    assert_eq!(as_bool(&status, "initialized"), Some(true));
    assert_eq!(as_bool(&status, "cleanup_complete"), Some(true));
    assert_eq!(as_bool(&status, "enabled"), Some(true));
    assert_eq!(as_text(&status, "note"), Some("kept".to_string()));
    assert_eq!(unsigned(&status, "success_count"), Some(1));
    assert_eq!(unsigned(&status, "error_count"), Some(0));
    assert_eq!(unsigned(&status, "last_run"), Some(77));
    assert_eq!(unsigned(&b.get_stats(), "last_run"), Some(77));
}

#[test]
fn config_helper_reads_and_validates() {
    let d = PluginConfigHelper::default();
    assert_eq!(
        (d.enabled, d.priority, d.timeout_seconds, d.retry_count, d.retry_delay_seconds, d.log_level.as_str()),
        (true, 0, 30, 3, 1, "info")
    );
    assert!(d.validate().is_ok());
    let full = settings(vec![
        ("enabled", Value::Bool(false)),
        ("priority", Value::Negative(-4)),
        ("timeout_seconds", Value::Unsigned(9)),
        ("retry_count", Value::Unsigned(0)),
        ("retry_delay_seconds", Value::Unsigned(2)),
        ("log_level", text("debug")),
        ("extra", Value::Null),
    ]);
    let h = PluginConfigHelper::from_config(&full).unwrap();
    assert_eq!((h.enabled, h.priority, h.timeout_seconds, h.retry_count), (false, -4, 9, 0));
    assert_eq!(h.log_level, "debug");
    assert!(matches!(h.validate(), Err(OomdError::Config(_))));
    let mut no_time = PluginConfigHelper::default();
    no_time.timeout_seconds = 0;
    assert!(matches!(no_time.validate(), Err(OomdError::Config(_))));
    let missing = settings(vec![("enabled", Value::Bool(false))]);
    assert!(matches!(PluginConfigHelper::from_config(&missing), Err(OomdError::Config(_))));
}

#[test]
fn runs_are_recorded() {
    let ctx = PluginExecutionContext::new("x".to_string(), PluginType::Detector, KeyedList::new());
    assert!(!ctx.dry_run && !ctx.verbose_logging);
    assert_eq!(decide_run(false, &ctx), RunDecision::Disabled);
    assert_eq!(decide_run(true, &ctx), RunDecision::Run);
    let dry = ctx.with_dry_run(true).with_verbose_logging(true);
    assert!(dry.verbose_logging);
    assert_eq!(decide_run(true, &dry), RunDecision::DryRun);
    assert_eq!(decide_run(false, &dry), RunDecision::Disabled);

    let r = run_with_context("det", &dry, RunDecision::Disabled, Ok(PluginRet::Stop), 55);
    assert_eq!((r.plugin_name.as_str(), r.plugin_type, r.result, r.execution_time_ms), ("det", PluginType::Detector, PluginRet::Continue, 0));
    assert_eq!(r.message.as_deref(), Some("Plugin disabled"));
    let r = run_with_context("det", &dry, RunDecision::DryRun, Ok(PluginRet::Stop), 55);
    assert_eq!((r.result, r.execution_time_ms, r.message), (PluginRet::Continue, 55, None));
    let r = run_with_context("det", &dry, RunDecision::Run, Ok(PluginRet::Stop), 55);
    assert_eq!((r.result, r.execution_time_ms, r.message), (PluginRet::Stop, 55, None));
    let r = run_with_context("det", &dry, RunDecision::Run, Err(OomdError::Plugin("boom".to_string())), 7);
    assert_eq!((r.result, r.execution_time_ms), (PluginRet::Continue, 7));
    assert_eq!(r.message.as_deref(), Some("Plugin execution failed: Plugin error: boom"));
    assert_eq!(r.metadata.len(), 0);
}

#[test]
fn execution_result_builders() {
    let r = PluginExecutionResult::new("a".to_string(), PluginType::Action, PluginRet::Stop)
        .with_execution_time(12)
        .with_message("m".to_string())
        .with_metadata(settings(vec![("k", Value::Unsigned(1))]));
    assert_eq!((r.plugin_name.as_str(), r.plugin_type, r.result, r.execution_time_ms), ("a", PluginType::Action, PluginRet::Stop, 12));
    assert_eq!(r.message.as_deref(), Some("m"));
    assert_eq!(unsigned(&r.metadata, "k"), Some(1));
}

#[test]
fn error_messages() {
    assert_eq!(OomdError::CgroupNotFound("svc/a".to_string()).message(), "Cgroup not found: svc/a");
    assert_eq!(OomdError::InvalidPath("/x".to_string()).message(), "Invalid cgroup path: /x");
    assert_eq!(OomdError::PressureUnavailable("c".to_string()).message(), "Pressure data unavailable for c");
    assert_eq!(OomdError::Parse("p".to_string()).message(), "Parse error: p");
    assert_eq!(OomdError::Plugin("p".to_string()).message(), "Plugin error: p");
    assert_eq!(OomdError::Config("c".to_string()).message(), "Config error: c");
    assert_eq!(OomdError::System("s".to_string()).message(), "System error: s");
    let io = OomdError::Io(std::io::Error::new(std::io::ErrorKind::Other, "disk on fire"));
    assert_eq!(io.message(), "IO error: disk on fire");
    let nix = OomdError::Nix(nix::errno::Errno::EPERM);
    assert!(nix.message().starts_with("Nix error: "));
    assert!(nix.message().len() > "Nix error: ".len());
    let json = OomdError::Json(serde_json::from_str::<serde_json::Value>("{").unwrap_err());
    assert!(json.message().starts_with("JSON error: "));
    assert!(json.message().len() > "JSON error: ".len());
    let version = OomdError::UnsupportedVersion(oomd_core::cgroup::types::CgroupVersion::V2 {
        unified: "/u".to_string(),
    });
    assert_eq!(version.message(), "Unsupported cgroup version: V2");
}

#[test]
fn process_info_is_parsed_from_stat() {
    let stat = "4242 (my-proc) S 1 4242 4242 0 -1 4194560 100 0 0 0 17 5 0 0 20 0 1 0 100 123456789 200 18446744073709551615 1 1 0 0 0";
    let p = parse_process_info(4242, stat, Some("250\n"), Some("-900\n")).unwrap();
    assert_eq!(p.pid, 4242);
    assert_eq!(p.comm, "my-proc");
    assert_eq!(p.memory_usage, 123456789);
    assert_eq!(p.start_time, 100);
    assert_eq!(p.cpu_usage, 22);
    assert_eq!(p.oom_score, 250);
    assert_eq!(p.oom_score_adj, -900);
    let p = parse_process_info(1, stat, None, Some("junk")).unwrap();
    assert_eq!((p.oom_score, p.oom_score_adj), (0, 0));
}

#[test]
fn short_stat_line_is_a_parse_error() {
    let stat = "1 (a) S 1 1 1 0 -1 0 0 0 0 0 0 0 0 0 20 0 1 0 100 4096";
    assert_eq!(stat.split_whitespace().count(), 23);
    assert!(matches!(parse_process_info(1, stat, None, None), Err(OomdError::Parse(_))));
    let stat24 = format!("{} 7", stat);
    assert_eq!(parse_process_info(1, &stat24, None, None).unwrap().memory_usage, 4096);
    assert!(matches!(parse_process_info(1, "", None, None), Err(OomdError::Parse(_))));
}

#[test]
fn parentheses_are_stripped_from_both_ends() {
    let strip = |s: &str| -> String {
        let v: Vec<char> = s.chars().collect();
        stripped(&stripped(&v, '('), ')').iter().collect()
    };
    assert_eq!(strip("(bash)"), "bash");
    assert_eq!(strip("((a)b))"), "a)b");
    assert_eq!(strip("()"), "");
    assert_eq!(strip("plain"), "plain");
}

#[test]
fn kill_selection_by_highest_memory() {
    let mut ctx = OomdContext::new(0);
    let mut a = CgroupContext::new(path("a"));
    a.pids = Some(vec![1, 2]);
    let mut b = CgroupContext::new(path("b"));
    b.pids = Some(vec![3, 4]);
    ctx.add_cgroup("a".to_string(), a);
    ctx.add_cgroup("b".to_string(), b);
    let action = KillAction::new()
        .with_strategy(KillStrategy::HighestMemory)
        .with_max_kill_count(2)
        .with_dry_run(true);
    assert_eq!(action.candidate_pids(&ctx), vec![1, 2, 3, 4]);
    let vsize = [1000u64, 3000, 2000, 4000];
    let processes: Vec<ProcessInfo> =
        action.candidate_pids(&ctx).iter().zip(vsize).map(|(pid, v)| process(*pid, v, 0)).collect();
    let targets = action.find_targets(processes);
    assert_eq!(pids(&targets), vec![4, 2]);
    assert_eq!(targets[0].memory_usage, 4000);
    assert_eq!(targets[1].memory_usage, 3000);
    // a dry run delivers no signal
    for t in &targets {
        match action.kill_process(t).unwrap() {
            KillStep::Skip { result: ActionResult::Skipped { reason } } => {
                assert_eq!(reason, format!("Dry run: would kill PID {} (p{})", t.pid, t.pid));
            }
            other => panic!("{:?}", other),
        }
    }
}

#[test]
fn kill_strategies_rank_processes() {
    let ps = || vec![started(1, 10, 5, 70), started(2, 30, 1, 50), started(3, 20, 9, 90), started(4, 30, 5, 50)];
    let run = |s: KillStrategy, max: u32| pids(&KillAction::new().with_strategy(s).with_max_kill_count(max).find_targets(ps()));
    assert_eq!(run(KillStrategy::HighestMemory, 9), vec![2, 4, 3, 1]);
    assert_eq!(run(KillStrategy::Newest, 3), vec![3, 1, 2]);
    assert_eq!(run(KillStrategy::Oldest, 9), vec![2, 4, 1, 3]);
    assert_eq!(run(KillStrategy::HighestOomScore, 9), vec![3, 1, 4, 2]);
    assert_eq!(run(KillStrategy::LowestOomScore, 1), vec![2]);
    assert_eq!(run(KillStrategy::CgroupTarget { cgroup_path: "a".to_string() }, 2), vec![2, 4]);
    assert_eq!(run(KillStrategy::HighestMemory, 0), Vec::<i32>::new());
}

#[test]
fn kill_selection_ignores_insertion_order() {
    let a = vec![process(1, 10, 0), process(2, 40, 0), process(3, 20, 0), process(4, 30, 0)];
    let b = vec![process(4, 30, 0), process(3, 20, 0), process(1, 10, 0), process(2, 40, 0)];
    let action = KillAction::new().with_max_kill_count(3);
    assert_eq!(pids(&action.find_targets(a)), vec![2, 4, 3]);
    assert_eq!(pids(&action.find_targets(b)), vec![2, 4, 3]);
}

#[test]
fn kill_candidates_of_a_cgroup_target() {
    let mut ctx = OomdContext::new(0);
    let mut a = CgroupContext::new(path("a"));
    a.pids = Some(vec![1, 2]);
    ctx.add_cgroup("a".to_string(), a);
    ctx.add_cgroup("b".to_string(), CgroupContext::new(path("b")));
    let target = |p: &str| KillAction::new().with_strategy(KillStrategy::CgroupTarget { cgroup_path: p.to_string() });
    assert_eq!(target("a").candidate_pids(&ctx), vec![1, 2]);
    assert!(target("b").candidate_pids(&ctx).is_empty());
    assert!(target("c").candidate_pids(&ctx).is_empty());
    assert_eq!(KillAction::new().candidate_pids(&ctx), vec![1, 2]);
}

#[test]
fn kill_action_defaults_and_settings() {
    let a = KillAction::new();
    assert_eq!((a.dry_run, a.max_kill_count, a.kill_signal), (false, 1, 9));
    assert!(matches!(a.kill_strategy, KillStrategy::HighestMemory));
    assert_eq!(a.base.name(), "kill_action");
    let c = KillActionConfig::default();
    assert_eq!((c.strategy.as_str(), c.dry_run, c.max_kill_count, c.kill_signal, c.enabled), ("highest_memory", false, 1, 9, true));

    let mut a = KillAction::new();
    let r = a.init(settings(vec![
        ("strategy", text("lowest_oom_score")),
        ("dry_run", Value::Bool(true)),
        ("max_kill_count", Value::Unsigned(3)),
        ("kill_signal", Value::Unsigned(15)),
    ]));
    assert!(r.is_ok());
    assert!(matches!(a.kill_strategy, KillStrategy::LowestOomScore));
    assert_eq!((a.dry_run, a.max_kill_count, a.kill_signal), (true, 3, 15));
    assert_eq!(as_text(&a.base.status, "strategy"), Some("lowest_oom_score".to_string()));
    assert_eq!(as_bool(&a.base.status, "dry_run"), Some(true));
    assert_eq!(unsigned(&a.base.status, "max_kill_count"), Some(3));
    assert_eq!(unsigned(&a.base.status, "kill_signal"), Some(15));

    let mut a = KillAction::new();
    assert!(a.init(settings(vec![("strategy", text("cgroup_target")), ("cgroup_path", text("svc/a"))])).is_ok());
    match &a.kill_strategy {
        KillStrategy::CgroupTarget { cgroup_path } => assert_eq!(cgroup_path, "svc/a"),
        other => panic!("{:?}", other),
    }
    let mut a = KillAction::new().with_strategy(KillStrategy::Oldest);
    assert!(a.init(settings(vec![("strategy", text("no_such")), ("max_kill_count", text("3"))])).is_ok());
    assert!(matches!(a.kill_strategy, KillStrategy::HighestMemory));
    assert_eq!(a.max_kill_count, 1);
    let mut a = KillAction::new().with_strategy(KillStrategy::Oldest);
    assert!(a.init(KeyedList::new()).is_ok());
    assert!(matches!(a.kill_strategy, KillStrategy::Oldest));
}

#[test]
fn kill_action_rejects_invalid_settings_at_init() {
    let mut a = KillAction::new();
    assert!(matches!(a.init(settings(vec![("max_kill_count", Value::Unsigned(0))])), Err(OomdError::Config(_))));
    let mut a = KillAction::new();
    assert!(matches!(a.init(settings(vec![("kill_signal", Value::Unsigned(0))])), Err(OomdError::Config(_))));
    let mut a = KillAction::new();
    assert!(matches!(a.init(settings(vec![("kill_signal", Value::Unsigned(9999))])), Err(OomdError::Config(_))));
    let mut a = KillAction::new();
    assert!(matches!(a.init(settings(vec![("kill_signal", Value::Negative(-9))])), Err(OomdError::Config(_))));
    let mut a = KillAction::new();
    assert!(a.init(settings(vec![("kill_signal", Value::Unsigned(9))])).is_ok());
}

#[test]
fn kill_process_hands_out_the_signal() {
    let a = KillAction::new().with_kill_signal(15);
    match a.kill_process(&process(77, 1, 0)).unwrap() {
        KillStep::Deliver { pid, signal } => {
            assert_eq!(pid, 77);
            assert_eq!(signal, nix::sys::signal::Signal::SIGTERM);
        }
        other => panic!("{:?}", other),
    }
    match KillAction::new().kill_process(&process(78, 1, 0)).unwrap() {
        KillStep::Deliver { signal, .. } => assert_eq!(signal, nix::sys::signal::Signal::SIGKILL),
        other => panic!("{:?}", other),
    }
    let bad = KillAction::new().with_kill_signal(-3);
    assert!(matches!(bad.kill_process(&process(1, 1, 0)), Err(OomdError::Config(_))));
    assert!(matches!(bad.with_dry_run(true).kill_process(&process(1, 1, 0)), Ok(KillStep::Skip { .. })));
}

#[test]
fn kill_results_and_bookkeeping() {
    let mut a = KillAction::new().with_kill_signal(15);
    let ok = a.kill_result(&process(5, 4000, 0), Ok(()));
    match &ok {
        ActionResult::Success { message, details } => {
            assert_eq!(message, "Killed PID 5 (p5) with signal 15");
            assert_eq!(unsigned(details, "pid"), Some(5));
            assert_eq!(as_text(details, "comm"), Some("p5".to_string()));
            assert_eq!(unsigned(details, "signal"), Some(15));
            assert_eq!(unsigned(details, "memory_freed"), Some(4000));
        }
        other => panic!("{:?}", other),
    }
    let failed = a.kill_result(&process(-6, 1, 0), Err(nix::errno::Errno::ESRCH));
    match &failed {
        ActionResult::Failed { error, details } => {
            assert!(error.starts_with("Failed to kill PID -6: "));
            assert!(error.len() > "Failed to kill PID -6: ".len());
            assert!(matches!(details.get("pid"), Some(Value::Negative(-6))));
            assert!(as_text(details, "error").is_some());
        }
        other => panic!("{:?}", other),
    }
    let ok2 = a.kill_result(&process(7, 500, 0), Ok(()));
    let skipped = ActionResult::Skipped { reason: "r".to_string() };
    assert_eq!(a.run(4, &vec![ok, failed, ok2, skipped]), PluginRet::Continue);
    assert_eq!(unsigned(&a.base.status, "targets_found"), Some(4));
    assert_eq!(unsigned(&a.base.status, "killed_count"), Some(2));
    assert_eq!(unsigned(&a.base.status, "total_memory_freed"), Some(4500));

    let mut none = KillAction::new();
    assert_eq!(none.run(0, &Vec::new()), PluginRet::Continue);
    assert_eq!(unsigned(&none.base.status, "targets_found"), Some(0));
    assert!(none.base.status.get("killed_count").is_none());

    let mut off = KillAction::new();
    off.base.disable();
    assert_eq!(off.run(3, &Vec::new()), PluginRet::Continue);
    assert!(off.base.status.get("targets_found").is_none());

    let status = a.get_status();
    assert_eq!(as_text(&status, "type"), Some("action".to_string()));
    assert_eq!(as_text(&status, "action_type"), Some("kill".to_string()));
    assert_eq!(unsigned(&status, "killed_count"), Some(2));
    assert_eq!(as_bool(&status, "enabled"), Some(true));
}

#[test]
fn shares_of_an_amount() {
    assert_eq!(share(GIB, Fixed { hundredths: 1000 }), 107374182);
    assert_eq!(share(1000, Fixed { hundredths: 5000 }), 500);
    assert_eq!(share(1000, Fixed { hundredths: 1 }), 0);
    assert_eq!(share(1000, Fixed { hundredths: 0 }), 0);
    assert_eq!(share(1000, Fixed { hundredths: -500 }), 0);
    assert_eq!(share(1000, Fixed { hundredths: 20000 }), 2000);
    assert_eq!(share(u64::MAX, Fixed { hundredths: 20000 }), u64::MAX);
    assert_eq!(share(u64::MAX, Fixed { hundredths: 10000 }), u64::MAX);
    assert_eq!(share(u64::MAX, Fixed { hundredths: i64::MAX }), u64::MAX);
}

#[test]
fn reclaim_from_the_highest_usage() {
    let ctx = context_with_usages(&[
        ("a", Some(5 * GIB), None),
        ("b", Some(3 * GIB), None),
        ("c", Some(8 * GIB), None),
    ]);
    let manager = CgroupManager::new("cgroup2 /sys/fs/cgroup cgroup2 rw 0 0\n").unwrap();
    let action = MemoryReclaimAction::new()
        .with_strategy(ReclaimStrategy::HighestUsage { percentage: Fixed { hundredths: 1000 }, cgroup_count: 2 })
        .with_reclaim_amount(GIB)
        .with_cgroup_manager(manager);
    let (cgroups, amount) = match action.plan(&ctx) {
        ReclaimPlan::Many { cgroups, amount } => (cgroups, amount),
        other => panic!("{:?}", other),
    };
    assert_eq!(cgroups, vec!["c", "a"]);
    assert_eq!(amount, 107374182);
    let mut writes = Vec::new();
    let mut outcomes = Vec::new();
    for cgroup in &cgroups {
        match action.reclaim_from_cgroup(cgroup, amount).unwrap() {
            ReclaimStep::Write { path, content } => {
                writes.push((path, content));
                outcomes.push(Ok(MemoryReclaimAction::reclaim_result(cgroup, amount, Ok(()))));
            }
            other => panic!("{:?}", other),
        }
    }
    assert_eq!(
        writes,
        vec![
            ("/sys/fs/cgroup/c/memory.reclaim".to_string(), "107374182".to_string()),
            ("/sys/fs/cgroup/a/memory.reclaim".to_string(), "107374182".to_string()),
        ]
    );
    match MemoryReclaimAction::reclaim_from_multiple_cgroups(amount, &outcomes) {
        ActionResult::Success { message, details } => {
            assert_eq!(message, "Reclaimed 214748364 bytes from 2 cgroups");
            assert_eq!(unsigned(&details, "cgroups_attempted"), Some(2));
            assert_eq!(unsigned(&details, "total_reclaimed"), Some(214748364));
            match details.get("results") {
                Some(Value::Texts(v)) => assert_eq!(
                    v,
                    &vec![
                        "Reclaimed 107374182 bytes from c".to_string(),
                        "Reclaimed 107374182 bytes from a".to_string()
                    ]
                ),
                other => panic!("{:?}", other),
            }
        }
        other => panic!("{:?}", other),
    }
}

#[test]
fn highest_usage_leaves_out_unread_and_keeps_order_of_ties() {
    let ctx = context_with_usages(&[
        ("a", Some(5), None),
        ("b", None, None),
        ("c", Some(9), None),
        ("d", Some(5), None),
        ("e", Some(0), None),
    ]);
    assert_eq!(MemoryReclaimAction::find_highest_usage_cgroups(&ctx, 10), vec!["c", "a", "d", "e"]);
    assert_eq!(MemoryReclaimAction::find_highest_usage_cgroups(&ctx, 2), vec!["c", "a"]);
    assert!(MemoryReclaimAction::find_highest_usage_cgroups(&ctx, 0).is_empty());
}

#[test]
fn reclaim_plans_by_strategy() {
    let ctx = context_with_usages(&[("a", Some(5), None), ("b", None, None)]);
    let base = || MemoryReclaimAction::new().with_reclaim_amount(1000);
    assert!(matches!(base().plan(&ctx), ReclaimPlan::DropCache));
    match base().with_strategy(ReclaimStrategy::CgroupTarget { cgroup_path: "b".to_string(), percentage: Fixed { hundredths: 2500 } }).plan(&ctx) {
        ReclaimPlan::Single { cgroup_path, amount } => assert_eq!((cgroup_path.as_str(), amount), ("b", 250)),
        other => panic!("{:?}", other),
    }
    match base().with_strategy(ReclaimStrategy::AllCgroups { percentage: Fixed { hundredths: 10000 } }).plan(&ctx) {
        ReclaimPlan::Many { cgroups, amount } => {
            assert_eq!(cgroups, vec!["a", "b"]);
            assert_eq!(amount, 1000);
        }
        other => panic!("{:?}", other),
    }
    let mut off = base();
    off.base.disable();
    assert!(matches!(off.plan(&ctx), ReclaimPlan::Nothing));
}

#[test]
fn reclaim_from_cgroup_decisions() {
    let manager = || CgroupManager::new("cgroup /m cgroup rw,memory 0 0\ncgroup /c cgroup rw,cpu 0 0\ncgroup /b cgroup rw,blkio 0 0\ncgroup /s cgroup rw,cpuset 0 0\n").unwrap();
    match MemoryReclaimAction::new().reclaim_from_cgroup("svc", 5).unwrap() {
        ReclaimStep::Done { result: ActionResult::Failed { error, .. } } => assert_eq!(error, "Cgroup manager not available"),
        other => panic!("{:?}", other),
    }
    let a = MemoryReclaimAction::new().with_cgroup_manager(manager());
    match a.reclaim_from_cgroup("svc", 5).unwrap() {
        ReclaimStep::Write { path, content } => assert_eq!((path.as_str(), content.as_str()), ("/m/svc/memory.force_empty", "5")),
        other => panic!("{:?}", other),
    }
    match a.reclaim_from_cgroup("/m/svc/x", 5).unwrap() {
        ReclaimStep::Write { path, .. } => assert_eq!(path, "/m/svc/x/memory.force_empty"),
        other => panic!("{:?}", other),
    }
    assert!(matches!(a.reclaim_from_cgroup("/elsewhere", 5), Err(OomdError::InvalidPath(_))));
    match a.with_dry_run(true).reclaim_from_cgroup("svc", 5).unwrap() {
        ReclaimStep::Done { result: ActionResult::Skipped { reason } } => assert_eq!(reason, "Dry run: would reclaim 5 bytes from svc"),
        other => panic!("{:?}", other),
    }
}

#[test]
fn reclaim_results() {
    match MemoryReclaimAction::reclaim_result("svc", 9, Ok(())) {
        ActionResult::Success { message, details } => {
            assert_eq!(message, "Reclaimed 9 bytes from svc");
            assert_eq!(as_text(&details, "cgroup"), Some("svc".to_string()));
            assert_eq!(unsigned(&details, "amount"), Some(9));
        }
        other => panic!("{:?}", other),
    }
    match MemoryReclaimAction::reclaim_result("svc", 9, Err(OomdError::System("no".to_string()))) {
        ActionResult::Failed { error, details } => {
            assert_eq!(error, "Failed to reclaim from svc: System error: no");
            assert_eq!(as_text(&details, "error"), Some("System error: no".to_string()));
        }
        other => panic!("{:?}", other),
    }
}

#[test]
fn partial_success_is_a_success() {
    let ok = || Ok(MemoryReclaimAction::reclaim_result("a", 10, Ok(())));
    let failed = || Ok(MemoryReclaimAction::reclaim_result("b", 10, Err(OomdError::System("x".to_string()))));
    let err = || Err(OomdError::InvalidPath("/x".to_string()));
    let skipped = || Ok(ActionResult::Skipped { reason: "dry".to_string() });
    match MemoryReclaimAction::reclaim_from_multiple_cgroups(10, &vec![failed(), ok(), err()]) {
        ActionResult::Success { details, .. } => {
            assert_eq!(unsigned(&details, "cgroups_attempted"), Some(3));
            assert_eq!(unsigned(&details, "total_reclaimed"), Some(10));
        }
        other => panic!("{:?}", other),
    }
    match MemoryReclaimAction::reclaim_from_multiple_cgroups(10, &vec![failed(), err(), skipped()]) {
        ActionResult::Failed { error, details } => {
            assert_eq!(error, "No memory reclaimed");
            assert_eq!(unsigned(&details, "total_reclaimed"), Some(0));
        }
        other => panic!("{:?}", other),
    }
    assert!(matches!(
        MemoryReclaimAction::reclaim_from_multiple_cgroups(10, &Vec::new()),
        ActionResult::Failed { .. }
    ));
    assert!(matches!(
        MemoryReclaimAction::reclaim_from_multiple_cgroups(u64::MAX, &vec![ok(), ok()]),
        ActionResult::Success { .. }
    ));
}

#[test]
fn drop_cache_writes_one_and_restores() {
    let a = MemoryReclaimAction::new();
    let check = |current: Option<&str>, want: &str| match a.drop_page_cache(current) {
        DropStep::Steps { previous, steps } => {
            assert_eq!(previous, want);
            assert_eq!(steps.len(), 3);
            assert!(matches!(&steps[0], CacheStep::Write { value } if value == "1"));
            assert!(matches!(&steps[1], CacheStep::Sleep { millis: 100 }));
            assert!(matches!(&steps[2], CacheStep::Write { value } if value == want));
        }
        other => panic!("{:?}", other),
    };
    check(Some("0\n"), "0");
    check(Some(" 3 \n"), "3");
    check(None, "0");
    match MemoryReclaimAction::new().with_dry_run(true).drop_page_cache(Some("0\n")) {
        DropStep::Done { result: ActionResult::Skipped { reason } } => assert_eq!(reason, "Dry run: would drop page cache"),
        other => panic!("{:?}", other),
    }
}

#[test]
fn two_drops_leave_the_file_as_it_was() {
    let a = MemoryReclaimAction::new();
    let mut file = "2\n".to_string();
    let before = file.trim().to_string();
    for _ in 0..2 {
        match a.drop_page_cache(Some(&file)) {
            DropStep::Steps { steps, .. } => {
                for step in steps {
                    if let CacheStep::Write { value } = step {
                        file = format!("{}\n", value);
                    }
                }
            }
            other => panic!("{:?}", other),
        }
        assert_eq!(file.trim(), before);
    }
}

#[test]
fn drop_cache_results() {
    match MemoryReclaimAction::drop_cache_result("3", Ok(())).unwrap() {
        ActionResult::Success { message, details } => {
            assert_eq!(message, "Page cache dropped successfully");
            assert_eq!(as_text(&details, "action"), Some("drop_page_cache".to_string()));
            assert_eq!(as_text(&details, "previous_value"), Some("3".to_string()));
        }
        other => panic!("{:?}", other),
    }
    let denied = OomdError::Io(std::io::Error::from(std::io::ErrorKind::PermissionDenied));
    assert!(matches!(MemoryReclaimAction::drop_cache_result("3", Err(denied)), Err(OomdError::Io(_))));
}

#[test]
fn reclaim_action_settings_and_bookkeeping() {
    let d = MemoryReclaimActionConfig::default();
    assert_eq!((d.strategy.as_str(), d.reclaim_amount_bytes, d.percentage, d.cgroup_count), ("drop_cache", 104857600, Some(Fixed { hundredths: 1000 }), Some(3)));
    assert!(d.cgroup_path.is_none() && !d.dry_run && d.enabled);
    let mut a = MemoryReclaimAction::new();
    assert_eq!(a.reclaim_amount_bytes, 100 * 1024 * 1024);
    assert!(a.init(settings(vec![
        ("strategy", text("highest_usage")),
        ("percentage", Value::Hundredths(1250)),
        ("reclaim_amount_bytes", Value::Unsigned(4000)),
        ("dry_run", Value::Bool(true)),
    ])).is_ok());
    match &a.reclaim_strategy {
        ReclaimStrategy::HighestUsage { percentage, cgroup_count } => assert_eq!((percentage.hundredths, *cgroup_count), (1250, 3)),
        other => panic!("{:?}", other),
    }
    assert_eq!((a.reclaim_amount_bytes, a.dry_run), (4000, true));
    assert_eq!(as_text(&a.base.status, "strategy"), Some("highest_usage".to_string()));
    assert_eq!(unsigned(&a.base.status, "reclaim_amount_bytes"), Some(4000));
    let mut a = MemoryReclaimAction::new();
    assert!(a.init(settings(vec![("strategy", text("cgroup_target")), ("cgroup_path", text("svc"))])).is_ok());
    match &a.reclaim_strategy {
        ReclaimStrategy::CgroupTarget { cgroup_path, percentage } => assert_eq!((cgroup_path.as_str(), percentage.hundredths), ("svc", 1000)),
        other => panic!("{:?}", other),
    }
    let mut a = MemoryReclaimAction::new();
    assert!(a.init(settings(vec![("strategy", text("all_cgroups")), ("percentage", Value::Unsigned(50))])).is_ok());
    assert!(matches!(&a.reclaim_strategy, ReclaimStrategy::AllCgroups { percentage } if percentage.hundredths == 5000));
    let mut a = MemoryReclaimAction::new();
    assert!(matches!(a.init(settings(vec![("reclaim_amount_bytes", Value::Unsigned(0))])), Err(OomdError::Config(_))));

    let mut a = MemoryReclaimAction::new();
    let ok = Ok(ActionResult::Success { message: "done".to_string(), details: KeyedList::new() });
    assert_eq!(a.run(&ok), PluginRet::Continue);
    assert_eq!(as_text(&a.base.status, "last_result"), Some("success".to_string()));
    assert_eq!(as_text(&a.base.status, "last_message"), Some("done".to_string()));
    a.run(&Ok(ActionResult::Failed { error: "bad".to_string(), details: KeyedList::new() }));
    assert_eq!(as_text(&a.base.status, "last_result"), Some("failed".to_string()));
    assert_eq!(as_text(&a.base.status, "last_error"), Some("bad".to_string()));
    a.run(&Ok(ActionResult::Skipped { reason: "dry".to_string() }));
    assert_eq!(as_text(&a.base.status, "last_result"), Some("skipped".to_string()));
    assert_eq!(as_text(&a.base.status, "last_skip_reason"), Some("dry".to_string()));
    a.run(&Err(OomdError::System("s".to_string())));
    assert_eq!(as_text(&a.base.status, "last_result"), Some("error".to_string()));
    assert_eq!(as_text(&a.base.status, "last_error"), Some("System error: s".to_string()));
    let status = a.get_status();
    assert_eq!(as_text(&status, "action_type"), Some("memory_reclaim".to_string()));
}

#[test]
fn v2_pressure_triggers_on_the_sixth_tick() {
    let line = "full avg10=85.0 avg60=80.0 avg300=60.0 total=1000";
    let content = format!("some avg10=1.0 avg60=1.0 avg300=1.0 total=1\n{}\n", line);
    let pressure = oomd_core::cgroup::v2::parse_pressure(&content).unwrap();
    let ctx = context_with_pressure("svc/a", Some(pressure));
    let mut d = MemoryPressureDetector::new()
        .with_threshold(Fixed { hundredths: 7000 })
        .with_duration(5)
        .with_cgroup_pattern("svc/a".to_string());
    let mut results = Vec::new();
    for tick in 0..6u64 {
        results.push(d.run(&ctx, tick * 1000));
    }
    assert_eq!(
        results,
        vec![PluginRet::Continue, PluginRet::Continue, PluginRet::Continue, PluginRet::Continue, PluginRet::Continue, PluginRet::Stop]
    );
    assert_eq!(as_bool(&d.base.status, "triggered"), Some(true));
    match d.base.status.get("triggered_cgroups") {
        Some(Value::Texts(v)) => assert_eq!(v, &vec!["svc/a".to_string()]),
        other => panic!("{:?}", other),
    }
}

#[test]
fn duration_gate_under_constant_pressure() {
    // below the threshold the detector never triggers
    let low = context_with_pressure("a", ResourcePressure::new(6999, 0, 0, None));
    let mut d = MemoryPressureDetector::new().with_threshold(Fixed { hundredths: 7000 }).with_duration(2);
    for tick in 0..10u64 {
        assert_eq!(d.run(&low, tick * 1000), PluginRet::Continue);
    }
    assert_eq!(as_bool(&d.base.status, "triggered"), Some(false));
    // at the threshold it triggers once a kept sample is two seconds old
    let high = context_with_pressure("a", ResourcePressure::new(7000, 0, 0, None));
    let mut d = MemoryPressureDetector::new().with_threshold(Fixed { hundredths: 7000 }).with_duration(2);
    assert_eq!(d.run(&high, 10_000), PluginRet::Continue);
    assert_eq!(d.run(&high, 11_999), PluginRet::Continue);
    assert_eq!(d.run(&high, 12_000), PluginRet::Stop);
    // samples more than twice the duration old are dropped
    assert_eq!(d.run(&high, 60_000), PluginRet::Continue);
    assert_eq!(d.pressure_history.get("a").unwrap().len(), 1);
}

#[test]
fn samples_are_kept_for_twice_the_duration() {
    let s = |timestamp: u64, weighted: u32| Sample { timestamp, weighted };
    let history = vec![s(0, 1), s(1000, 2), s(5999, 3), s(6000, 4), s(20000, 5)];
    // at 10.999 s with a duration of 2 s: ages 10, 9, 5, 4 and 0 seconds
    assert_eq!(retain_recent(&history, 10_999, 2), vec![s(6000, 4), s(20000, 5)]);
    assert_eq!(retain_recent(&history, 10_999, 5), history);
    assert!(evaluate_gate(&vec![s(0, 70000), s(500, 1)], 5000, Fixed { hundredths: 7000 }, 5));
    assert!(!evaluate_gate(&vec![s(0, 69999), s(4000, 70000)], 5000, Fixed { hundredths: 7000 }, 5));
    assert!(!evaluate_gate(&Vec::new(), 5000, Fixed { hundredths: 7000 }, 0));
    assert!(evaluate_gate(&vec![s(9000, 1)], 5000, Fixed { hundredths: 0 }, 0));
}

#[test]
fn pressure_detector_checks_one_cgroup() {
    let ctx = context_with_pressure("svc/a", None);
    let mut d = MemoryPressureDetector::new();
    assert!(matches!(d.check_pressure_threshold(&ctx, "svc/b", 0), Err(OomdError::CgroupNotFound(_))));
    assert!(matches!(d.check_pressure_threshold(&ctx, "svc/a", 0), Err(OomdError::PressureUnavailable(_))));
    assert_eq!(d.run(&ctx, 0), PluginRet::Continue);
    assert_eq!(d.pressure_history.len(), 0);
    let ctx = context_with_pressure("svc/a", ResourcePressure::new(9000, 0, 0, None));
    let mut d = MemoryPressureDetector::new().with_duration(1);
    assert_eq!(d.check_pressure_threshold(&ctx, "svc/a", 100).unwrap(), false);
    assert_eq!(d.check_pressure_threshold(&ctx, "svc/a", 1100).unwrap(), true);
    assert_eq!(d.pressure_history.get("svc/a").unwrap(), &vec![
        Sample { timestamp: 100, weighted: 90000 },
        Sample { timestamp: 1100, weighted: 90000 },
    ]);
}

#[test]
fn pressure_detector_patterns_and_kinds() {
    let mut ctx = OomdContext::new(0);
    for key in ["svc/a", "svc/b", "user/x"] {
        let mut c = CgroupContext::new(path(key));
        c.memory_pressure = ResourcePressure::new(9000, 0, 0, None);
        c.io_pressure = ResourcePressure::new(100, 0, 0, None);
        ctx.add_cgroup(key.to_string(), c);
    }
    let d = MemoryPressureDetector::new();
    assert_eq!(d.find_matching_cgroups(&ctx), vec!["svc/a", "svc/b", "user/x"]);
    assert_eq!(d.with_cgroup_pattern("svc".to_string()).find_matching_cgroups(&ctx), vec!["svc/a", "svc/b"]);
    let mut d = MemoryPressureDetector::new().with_duration(1).with_cgroup_pattern("svc".to_string());
    assert!(!d.detect(&ctx, 0));
    assert!(d.detect(&ctx, 1000));
    match d.base.status.get("triggered_cgroups") {
        Some(Value::Texts(v)) => assert_eq!(v, &vec!["svc/a".to_string(), "svc/b".to_string()]),
        other => panic!("{:?}", other),
    }
    assert!(d.pressure_history.get("user/x").is_none());
    let mut io = MemoryPressureDetector::new_io().with_duration(1);
    assert_eq!(io.base.name(), "io_pressure_detector");
    assert!(!io.detect(&ctx, 0));
    assert!(!io.detect(&ctx, 1000));
    assert!(matches!(io.get_criteria(), DetectorCriteria::IOPressure { threshold: 8000, duration_seconds: 1, .. }));
    assert!(matches!(d.get_criteria(), DetectorCriteria::MemoryPressure { threshold: 8000, .. }));
    assert_eq!(as_text(&io.get_status(), "detector_type"), Some("io_pressure".to_string()));
    assert_eq!(as_text(&d.get_status(), "detector_type"), Some("memory_pressure".to_string()));
    let mut off = MemoryPressureDetector::new().with_duration(1);
    off.base.disable();
    assert_eq!(off.run(&ctx, 0), PluginRet::Continue);
    assert_eq!(off.run(&ctx, 5000), PluginRet::Continue);
    assert_eq!(off.pressure_history.len(), 0);
}

#[test]
fn pressure_detector_settings() {
    let d = MemoryPressureDetectorConfig::default();
    assert_eq!((d.threshold.hundredths, d.duration_seconds, d.cgroup_pattern.as_str(), d.enabled), (8000, 30, "*", true));
    let mut d = MemoryPressureDetector::new();
    assert!(d.init(settings(vec![
        ("threshold", Value::Hundredths(7050)),
        ("duration_seconds", Value::Unsigned(5)),
        ("cgroup_pattern", text("svc")),
    ])).is_ok());
    assert_eq!((d.threshold.hundredths, d.duration_seconds, d.cgroup_pattern.as_str()), (7050, 5, "svc"));
    assert!(matches!(d.base.status.get("threshold"), Some(Value::Hundredths(7050))));
    for bad in [Value::Unsigned(0), Value::Unsigned(101), Value::Negative(-5), Value::Hundredths(10001)] {
        let mut d = MemoryPressureDetector::new();
        assert!(matches!(d.init(settings(vec![("threshold", bad)])), Err(OomdError::Config(_))));
    }
    let mut d = MemoryPressureDetector::new();
    assert!(d.init(settings(vec![("threshold", Value::Unsigned(100))])).is_ok());
    let mut d = MemoryPressureDetector::new();
    assert!(matches!(d.init(settings(vec![("duration_seconds", Value::Unsigned(0))])), Err(OomdError::Config(_))));
}

#[test]
fn usage_detector_thresholds() {
    assert!(reaches_share(50, 100, Fixed { hundredths: 5000 }));
    assert!(!reaches_share(49, 100, Fixed { hundredths: 5000 }));
    assert!(reaches_share(1, 3, Fixed { hundredths: 3333 }));
    assert!(!reaches_share(1, 3, Fixed { hundredths: 3334 }));
    assert!(!reaches_share(5, 0, Fixed { hundredths: 1 }));
    assert!(reaches_share(u64::MAX, u64::MAX, Fixed { hundredths: 10000 }));
    assert!(!reaches_share(u64::MAX - 1, u64::MAX, Fixed { hundredths: 10000 }));
    assert!(reaches_share(0, 1, Fixed { hundredths: -1 }));

    let ctx = context_with_usages(&[
        ("big", Some(2 * GIB), Some(100 * GIB)),
        ("full", Some(90), Some(100)),
        ("idle", Some(10), Some(100)),
        ("unread", None, Some(100)),
        ("nolimit", Some(90), None),
        ("zero", Some(90), Some(0)),
    ]);
    let d = MemoryUsageDetector::new();
    assert_eq!(d.check_usage_threshold(&ctx, "big").unwrap(), true);
    assert_eq!(d.check_usage_threshold(&ctx, "full").unwrap(), false);
    assert!(matches!(d.check_usage_threshold(&ctx, "unread"), Err(OomdError::PressureUnavailable(_))));
    assert!(matches!(d.check_usage_threshold(&ctx, "missing"), Err(OomdError::CgroupNotFound(_))));
    let d = d.with_threshold_percentage(Fixed { hundredths: 9000 });
    assert_eq!(d.check_usage_threshold(&ctx, "full").unwrap(), true);
    assert_eq!(d.check_usage_threshold(&ctx, "idle").unwrap(), false);
    assert_eq!(d.check_usage_threshold(&ctx, "nolimit").unwrap(), false);
    assert_eq!(d.check_usage_threshold(&ctx, "zero").unwrap(), false);
    let mut d = d;
    assert_eq!(d.run(&ctx), PluginRet::Stop);
    match d.base.status.get("triggered_cgroups") {
        Some(Value::Texts(v)) => assert_eq!(v, &vec!["big".to_string(), "full".to_string()]),
        other => panic!("{:?}", other),
    }
    let mut quiet = MemoryUsageDetector::new().with_threshold_bytes(u64::MAX).with_cgroup_pattern("i".to_string());
    assert_eq!(quiet.find_matching_cgroups(&ctx), vec!["big", "idle", "nolimit"]);
    assert!(!quiet.detect(&ctx));
    assert_eq!(as_bool(&quiet.base.status, "triggered"), Some(false));
    let mut at = MemoryUsageDetector::new().with_threshold_bytes(10).with_cgroup_pattern("idle".to_string());
    assert!(at.detect(&ctx));
    at.base.disable();
    assert!(!at.detect(&ctx));
}

#[test]
fn usage_detector_settings() {
    let d = MemoryUsageDetectorConfig::default();
    assert_eq!((d.threshold_bytes, d.threshold_percentage, d.cgroup_pattern.as_str(), d.enabled), (GIB, None, "*", true));
    let mut d = MemoryUsageDetector::new();
    assert!(d.init(settings(vec![
        ("threshold_bytes", Value::Unsigned(4096)),
        ("threshold_percentage", Value::Unsigned(80)),
        ("cgroup_pattern", text("svc")),
    ])).is_ok());
    assert_eq!((d.threshold_bytes, d.threshold_percentage, d.cgroup_pattern.as_str()), (4096, Some(Fixed { hundredths: 8000 }), "svc"));
    assert!(matches!(d.get_criteria(), DetectorCriteria::MemoryUsage { threshold_bytes: 4096, percentage: Some(8000), .. }));
    assert_eq!(as_text(&d.get_status(), "detector_type"), Some("memory_usage".to_string()));
    let mut d = MemoryUsageDetector::new();
    assert!(matches!(d.init(settings(vec![("threshold_bytes", Value::Unsigned(0))])), Err(OomdError::Config(_))));
    let mut d = MemoryUsageDetector::new();
    assert!(matches!(d.init(settings(vec![("threshold_percentage", Value::Unsigned(0))])), Err(OomdError::Config(_))));
    let mut d = MemoryUsageDetector::new();
    assert!(matches!(d.init(settings(vec![("threshold_percentage", Value::Hundredths(10001))])), Err(OomdError::Config(_))));
}

#[test]
fn registry_keeps_plugins_by_name_and_role() {
    let mut r: PluginRegistry<u32> = PluginRegistry::new();
    assert!(r.list_plugins().is_empty());
    assert!(r.register_detector("det".to_string(), 1).is_ok());
    assert!(r.register_action("act".to_string(), 2).is_ok());
    assert!(r.register_plugin("plain".to_string(), 3).is_ok());
    assert!(r.register_action("both".to_string(), 4).is_ok());
    assert!(r.register_detector("both".to_string(), 5).is_ok());
    assert_eq!(r.list_plugins(), vec!["det", "act", "plain", "both"]);
    assert_eq!(r.list_detectors(), vec!["det", "both"]);
    assert_eq!(r.list_actions(), vec!["act", "both"]);
    assert_eq!(r.get_plugin("plain"), Some(&3));
    assert_eq!(r.get_plugin("both"), Some(&5));
    assert_eq!(r.get_plugin("none"), None);
    assert_eq!(r.get_detector("det"), Some(&1));
    assert_eq!(r.get_detector("act"), None);
    assert_eq!(r.get_action("act"), Some(&2));
    assert_eq!(r.get_action("plain"), None);
    assert!(r.has_plugin("det") && r.has_detector("det") && !r.has_action("det"));
    assert!(r.has_plugin("plain") && !r.has_detector("plain") && !r.has_action("plain"));
    assert!(!r.has_plugin("none"));
    assert_eq!(r.get_plugins_by_type(PluginType::Detector), vec![&1, &5]);
    assert_eq!(r.get_plugins_by_type(PluginType::Action), vec![&2, &5]);
    assert_eq!(r.get_plugins_by_type(PluginType::Hybrid), vec![&5]);
    let stats = r.get_stats();
    assert_eq!(unsigned(&stats, "total_plugins"), Some(4));
    assert_eq!(unsigned(&stats, "total_detectors"), Some(2));
    assert_eq!(unsigned(&stats, "total_actions"), Some(2));
    assert!(r.unregister_plugin("both").is_ok());
    assert!(r.unregister_plugin("none").is_ok());
    assert!(!r.has_plugin("both") && !r.has_detector("both") && !r.has_action("both"));
    assert_eq!(r.list_plugins(), vec!["det", "act", "plain"]);
    assert_eq!(r.get_detector("det"), Some(&1));
}

#[test]
fn registry_metadata() {
    let mut r: PluginRegistry<u32> = PluginRegistry::new();
    assert!(r.get_metadata("det").is_none());
    r.register_detector("det".to_string(), 1).unwrap();
    r.set_metadata(
        "det".to_string(),
        oomd_core::plugins::interface::PluginMetadata {
            name: "det".to_string(),
            version: "1".to_string(),
            description: "d".to_string(),
            author: "a".to_string(),
            license: "l".to_string(),
            plugin_type: PluginType::Detector,
            dependencies: Vec::new(),
            capabilities: vec!["psi".to_string()],
        },
    );
    assert_eq!(r.get_metadata("det").unwrap().capabilities, vec!["psi"]);
    r.unregister_plugin("det").unwrap();
    assert!(r.get_metadata("det").is_none());
}

#[test]
fn registry_load_plan() {
    let record = |name: &str, plugin_type: PluginType, enabled: bool| PluginConfig {
        name: name.to_string(),
        plugin_type,
        enabled,
        config: KeyedList::new(),
        priority: 0,
        timeout_seconds: None,
    };
    let plan = PluginRegistry::<u32>::load_from_config(&vec![
        record("memory_pressure_main", PluginType::Detector, true),
        record("unknown_but_off", PluginType::Hybrid, false),
        record("kill", PluginType::Action, true),
        record("memory_usage", PluginType::Detector, true),
        record("io_pressure", PluginType::Detector, true),
        record("memory_reclaim_soft", PluginType::Action, true),
    ]).unwrap();
    assert_eq!(
        plan,
        vec![
            KnownPlugin::MemoryPressureDetector,
            KnownPlugin::KillAction,
            KnownPlugin::MemoryUsageDetector,
            KnownPlugin::IoPressureDetector,
            KnownPlugin::MemoryReclaimAction,
        ]
    );
    assert!(PluginRegistry::<u32>::load_from_config(&Vec::new()).unwrap().is_empty());
    for bad in [
        record("kill", PluginType::Detector, true),
        record("memory_pressure", PluginType::Action, true),
        record("kill", PluginType::Hybrid, true),
        record("nothing", PluginType::Action, true),
    ] {
        let configs = vec![record("kill", PluginType::Action, true), bad, record("kill", PluginType::Action, true)];
        assert!(matches!(PluginRegistry::<u32>::load_from_config(&configs), Err(OomdError::Config(_))));
    }
}

#[test]
fn keyed_list_keeps_order_and_replaces() {
    let mut l: KeyedList<u32> = KeyedList::new();
    l.insert("b".to_string(), 1);
    l.insert("a".to_string(), 2);
    l.insert("b".to_string(), 3);
    assert_eq!(l.len(), 2);
    assert_eq!(l.key_list(), vec!["b", "a"]);
    assert_eq!((l.key_at(1).as_str(), *l.value_at(0)), ("a", 3));
    assert_eq!(l.get("b"), Some(&3));
    assert_eq!(l.position("a"), Some(1));
    assert_eq!(l.position("c"), None);
    assert!(l.contains_key("a") && !l.contains_key(""));
    *l.get_mut("a").unwrap() += 10;
    assert!(l.get_mut("c").is_none());
    assert_eq!(l.get("a"), Some(&12));
    l.insert("a".to_string(), 2);
    assert_eq!(l.remove("b"), Some(3));
    assert_eq!(l.remove("b"), None);
    assert_eq!(l.key_list(), vec!["a"]);
}

#[test]
fn first_stop_wins_in_a_chain() {
    let outcomes = [
        RunOutcome::Returned(PluginRet::Continue),
        RunOutcome::Failed,
        RunOutcome::TimedOut,
        RunOutcome::Returned(PluginRet::Stop),
        RunOutcome::Returned(PluginRet::Continue),
    ];
    let mut ran = Vec::new();
    let mut step = start_chain(outcomes.len());
    while let ChainStep::Run(i) = step {
        ran.push(i);
        step = next_step(i, outcomes.len(), outcomes[i]);
    }
    assert_eq!(ran, vec![0, 1, 2, 3]);
    assert_eq!(step, ChainStep::Stopped);
    assert!(actions_follow(step));
    assert_eq!(start_chain(0), ChainStep::Exhausted);
    assert!(!actions_follow(ChainStep::Exhausted));
    assert_eq!(next_step(0, 1, RunOutcome::Failed), ChainStep::Exhausted);
    assert_eq!(next_step(0, 2, RunOutcome::TimedOut), ChainStep::Run(1));
    assert!(is_failure(RunOutcome::Failed) && is_failure(RunOutcome::TimedOut));
    assert!(!is_failure(RunOutcome::Returned(PluginRet::Stop)));
}

#[test]
fn known_plugins_have_their_roles() {
    assert_eq!(KnownPlugin::MemoryPressureDetector.plugin_type(), PluginType::Detector);
    assert_eq!(KnownPlugin::MemoryUsageDetector.plugin_type(), PluginType::Detector);
    assert_eq!(KnownPlugin::IoPressureDetector.plugin_type(), PluginType::Detector);
    assert_eq!(KnownPlugin::KillAction.plugin_type(), PluginType::Action);
    assert_eq!(KnownPlugin::MemoryReclaimAction.plugin_type(), PluginType::Action);
}

#[test]
fn actions_report_that_they_were_executed() {
    let mut kill = KillAction::new();
    match kill.execute(2, &Vec::new()) {
        ActionResult::Success { message, details } => {
            assert_eq!(message, "Kill action executed");
            assert_eq!(details.len(), 0);
        }
        other => panic!("{:?}", other),
    }
    assert_eq!(unsigned(&kill.base.status, "targets_found"), Some(2));
    assert!(kill.can_execute());
    let mut reclaim = MemoryReclaimAction::new();
    match reclaim.execute(&Ok(ActionResult::Skipped { reason: "dry".to_string() })) {
        ActionResult::Success { message, details } => {
            assert_eq!(message, "Memory reclaim action executed");
            assert_eq!(details.len(), 0);
        }
        other => panic!("{:?}", other),
    }
    assert_eq!(as_text(&reclaim.base.status, "last_result"), Some("skipped".to_string()));
    assert!(reclaim.can_execute());
}

#[test]
fn oldest_and_newest_go_by_start_time_whatever_the_memory() {
    let mut ctx = OomdContext::new(0);
    let mut c = CgroupContext::new(path("svc"));
    c.pids = Some(vec![1, 2]);
    ctx.add_cgroup("svc".to_string(), c);
    let stat = |pid: i32, start: u64, vsize: u64| {
        format!("{} (p) S 1 1 1 0 -1 0 0 0 0 0 0 0 0 0 20 0 1 0 {} {} 7", pid, start, vsize)
    };
    let read = |action: &KillAction| -> Vec<ProcessInfo> {
        action
            .candidate_pids(&ctx)
            .iter()
            .map(|pid| {
                let text = if *pid == 1 { stat(1, 100, 9000) } else { stat(2, 500, 1000) };
                parse_process_info(*pid, &text, None, None).unwrap()
            })
            .collect()
    };
    let oldest = KillAction::new().with_strategy(KillStrategy::Oldest).with_max_kill_count(1);
    let v = oldest.find_targets(read(&oldest));
    assert_eq!(v.len(), 1);
    assert_eq!((v[0].pid, v[0].start_time, v[0].memory_usage), (1, 100, 9000));
    let newest = KillAction::new().with_strategy(KillStrategy::Newest).with_max_kill_count(1);
    let v = newest.find_targets(read(&newest));
    assert_eq!(v.len(), 1);
    assert_eq!((v[0].pid, v[0].start_time, v[0].memory_usage), (2, 500, 1000));
    let both = KillAction::new().with_strategy(KillStrategy::Oldest).with_max_kill_count(5);
    assert_eq!(pids(&both.find_targets(read(&both))), vec![1, 2]);
}

#[test]
fn detect_books_the_run_as_run_does() {
    let ctx = context_with_usages(&[("a", Some(5), None)]);
    let mut d = MemoryUsageDetector::new().with_threshold_bytes(5);
    d.base.update_status("note".to_string(), text("kept"));
    assert!(d.detect(&ctx));
    assert_eq!(as_bool(&d.base.status, "triggered"), Some(true));
    assert_eq!(as_text(&d.base.status, "note"), Some("kept".to_string()));
    match d.base.status.get("triggered_cgroups") {
        Some(Value::Texts(v)) => assert_eq!(v, &vec!["a".to_string()]),
        other => panic!("{:?}", other),
    }
    let ctx = context_with_pressure("a", ResourcePressure::new(9000, 0, 0, None));
    let mut p = MemoryPressureDetector::new().with_duration(1);
    assert!(!p.detect(&ctx, 0));
    assert_eq!(as_bool(&p.base.status, "triggered"), Some(false));
    assert_eq!(p.pressure_history.get("a").unwrap().len(), 1);
    assert!(p.detect(&ctx, 1000));
    assert_eq!(p.pressure_history.get("a").unwrap().len(), 2);
}

#[test]
fn execute_books_the_run_as_run_does() {
    let mut kill = KillAction::new();
    let ok = kill.kill_result(&process(5, 4000, 0), Ok(()));
    assert!(matches!(kill.execute(1, &vec![ok]), ActionResult::Success { .. }));
    assert_eq!(unsigned(&kill.base.status, "targets_found"), Some(1));
    assert_eq!(unsigned(&kill.base.status, "killed_count"), Some(1));
    assert_eq!(unsigned(&kill.base.status, "total_memory_freed"), Some(4000));
    let mut reclaim = MemoryReclaimAction::new();
    let done = Ok(ActionResult::Success { message: "done".to_string(), details: KeyedList::new() });
    assert!(matches!(reclaim.execute(&done), ActionResult::Success { .. }));
    assert_eq!(as_text(&reclaim.base.status, "last_message"), Some("done".to_string()));
    reclaim.execute(&Err(OomdError::Config("bad".to_string())));
    assert_eq!(as_text(&reclaim.base.status, "last_result"), Some("error".to_string()));
    assert_eq!(as_text(&reclaim.base.status, "last_error"), Some("Config error: bad".to_string()));
    assert_eq!(as_text(&reclaim.base.status, "last_message"), Some("done".to_string()));
}

#[test]
fn ties_are_broken_by_process_id_whatever_the_order() {
    let a = vec![started(7, 30, 5, 50), started(3, 30, 5, 50), started(9, 10, 5, 50), started(5, 30, 5, 50)];
    let b = vec![started(5, 30, 5, 50), started(9, 10, 5, 50), started(3, 30, 5, 50), started(7, 30, 5, 50)];
    for strategy in [
        KillStrategy::HighestMemory,
        KillStrategy::HighestOomScore,
        KillStrategy::LowestOomScore,
        KillStrategy::Oldest,
        KillStrategy::Newest,
    ] {
        for max in [1u32, 2, 3, 4, 9] {
            let action = KillAction::new().with_strategy(strategy.clone()).with_max_kill_count(max);
            let left = pids(&action.find_targets(a.clone()));
            let right = pids(&action.find_targets(b.clone()));
            assert_eq!(left, right);
        }
    }
    let one = KillAction::new().with_max_kill_count(1);
    assert_eq!(pids(&one.find_targets(a.clone())), vec![3]);
    assert_eq!(pids(&one.find_targets(b.clone())), vec![3]);
    let all = KillAction::new().with_max_kill_count(9);
    assert_eq!(pids(&all.find_targets(b)), vec![3, 5, 7, 9]);
    let low = KillAction::new().with_strategy(KillStrategy::LowestOomScore).with_max_kill_count(9);
    assert_eq!(pids(&low.find_targets(vec![process(2, 0, 1), process(-4, 0, 1), process(1, 0, 0)])), vec![1, -4, 2]);
}

#[test]
fn a_failed_write_ends_the_drop() {
    assert!(matches!(start_drop(3), DropProgress::Take { index: 0 }));
    assert!(matches!(start_drop(0), DropProgress::Finished { written: Ok(()) }));
    assert!(matches!(next_drop_step(0, 3, Ok(())), DropProgress::Take { index: 1 }));
    assert!(matches!(next_drop_step(1, 3, Ok(())), DropProgress::Take { index: 2 }));
    assert!(matches!(next_drop_step(2, 3, Ok(())), DropProgress::Finished { written: Ok(()) }));
    let denied = || OomdError::Io(std::io::Error::from(std::io::ErrorKind::PermissionDenied));
    assert!(matches!(next_drop_step(0, 3, Err(denied())), DropProgress::Finished { written: Err(OomdError::Io(_)) }));
    assert!(matches!(next_drop_step(2, 3, Err(denied())), DropProgress::Finished { written: Err(OomdError::Io(_)) }));
    // the steps of a drop whose first write fails: nothing is written after it
    let steps = match MemoryReclaimAction::new().drop_page_cache(Some("0\n")) {
        DropStep::Steps { steps, .. } => steps,
        other => panic!("{:?}", other),
    };
    let mut taken = Vec::new();
    let mut progress = start_drop(steps.len());
    let written = loop {
        let index = match progress {
            DropProgress::Take { index } => index,
            DropProgress::Finished { written } => break written,
        };
        taken.push(index);
        let outcome = if index == 0 { Err(denied()) } else { Ok(()) };
        progress = next_drop_step(index, steps.len(), outcome);
    };
    assert_eq!(taken, vec![0]);
    assert!(matches!(MemoryReclaimAction::drop_cache_result("0", written), Err(OomdError::Io(_))));
}
