use proxy_runtime::core_config::{CoreConfig, Outbound};
use proxy_runtime::json::parse_json;
use proxy_runtime::peel::{
    attribute_rejected_node, kernel_gate_cache_hit, kernel_gate_cache_record,
    load_kernel_gate_cache, remember_kernel_gate_cache, retained, GateNext, InvalidNode,
    KernelRejection, PeelGate, PeelStep, RejectedArray,
};
use proxy_runtime::process::{
    alive_from_probe, attestation_commit_allowed, checked_pid, core_version_first_line, listed_value,
    image_from_managed_status, parse_proc_stat_starttime, pid_identity_verdict, running_exe_path,
    survivors, KillPlan, ManagedCoreStatus, PidIdentity, ProbeResult, SweepNext,
};
use proxy_runtime::recovery::{
    helper_identity_token, is_unrecoverable_restart_error, is_unrecoverable_restart_message,
    observe_child, unrecoverable, AutoRestartOutcome, ChildObservation, ChildState, CrashWatch,
    HelperAnswer, RecoveryNext, RestartFate, WatchStep,
};
use proxy_runtime::runtime::ProxyRuntime;
use proxy_runtime::status::{ErrorCode, StartError};

fn runtime() -> ProxyRuntime {
    ProxyRuntime::new("/data".to_string(), '/')
}

fn pairs(v: &[(&str, &str)]) -> Vec<(String, String)> {
    v.iter().map(|(a, b)| (a.to_string(), b.to_string())).collect()
}

#[test]
fn process_numbers_are_checked() {
    assert_eq!(checked_pid(0), None);
    assert_eq!(checked_pid(1), Some(1));
    assert_eq!(checked_pid(0x7fff_ffff), Some(i32::MAX));
    assert_eq!(checked_pid(0x8000_0000), None);
    assert!(alive_from_probe(ProbeResult::Delivered));
    assert!(alive_from_probe(ProbeResult::NotPermitted));
    assert!(alive_from_probe(ProbeResult::OtherError));
    assert!(!alive_from_probe(ProbeResult::NoSuchProcess));
}

#[test]
fn the_start_time_is_found_behind_any_name() {
    let fields: Vec<String> = (3..=30).map(|n| n.to_string()).collect();
    let stat = format!("42 (sing ) box) {}", fields.join(" "));
    assert_eq!(parse_proc_stat_starttime(&stat).as_deref(), Some("22"));
    assert_eq!(parse_proc_stat_starttime("42 (x) S 1 2"), None);
    assert_eq!(parse_proc_stat_starttime("no bracket"), None);
}

#[test]
fn identities_are_compared() {
    assert_eq!(pid_identity_verdict(Some("a"), Some("a")), PidIdentity::Match);
    assert_eq!(pid_identity_verdict(Some("a"), Some("b")), PidIdentity::Mismatch);
    assert_eq!(pid_identity_verdict(None, Some("b")), PidIdentity::Unobservable);
    assert_eq!(pid_identity_verdict(Some("a"), None), PidIdentity::Unobservable);
    assert_eq!(running_exe_path("/opt/core (deleted)"), "/opt/core");
    assert_eq!(running_exe_path("/opt/core"), "/opt/core");
    assert_eq!(core_version_first_line(Some(" sing-box 1.12 \r\nmore")), "sing-box 1.12");
    assert_eq!(core_version_first_line(None), "");
    let s = ManagedCoreStatus::Running { pid: 5, created: None, image: Some("/c".to_string()) };
    assert_eq!(image_from_managed_status(&s, 5).as_deref(), Some("/c"));
    assert_eq!(image_from_managed_status(&s, 6), None);
    assert_eq!(image_from_managed_status(&ManagedCoreStatus::Stopped, 5), None);
}

#[test]
fn a_core_is_stopped_by_who_started_it() {
    let mut rt = runtime();
    assert_eq!(rt.kill_plan(None), KillPlan::Nothing);
    assert_eq!(rt.kill_plan(Some(None)), KillPlan::Reap);
    assert_eq!(rt.kill_plan(Some(Some(0))), KillPlan::Reap);
    assert_eq!(rt.kill_plan(Some(Some(9))), KillPlan::Escalate { pid: 9 });
    rt.core_via_helper = true;
    rt.pid = Some(4);
    assert_eq!(rt.kill_plan(None), KillPlan::ViaHelper { intended: Some(4) });
    rt.clear_helper_core_bookkeeping(Some(3));
    assert_eq!(rt.pid, Some(4));
    assert!(rt.core_via_helper);
    rt.clear_helper_core_bookkeeping(Some(4));
    assert_eq!(rt.pid, None);
    assert!(!rt.core_via_helper);
    rt.pid = Some(1);
    assert_eq!(rt.sweep_exclusions(&vec![2], &vec![3]), vec![1, 2, 3]);
    rt.core_reaped();
    assert_eq!(rt.pid, None);
}

#[test]
fn leftovers_are_swept_or_block_the_start() {
    let mut rt = runtime();
    assert!(matches!(ProxyRuntime::sweep_begin(None), SweepNext::Clean));
    assert!(matches!(ProxyRuntime::sweep_begin(Some(vec![])), SweepNext::Clean));
    assert!(matches!(ProxyRuntime::sweep_begin(Some(vec![7])), SweepNext::Signal(v) if v == vec![7]));
    assert_eq!(survivors(&vec![7, 8], &vec![false, true]), vec![8]);
    assert!(matches!(rt.sweep_signalled(vec![], false), SweepNext::Clean));
    assert!(matches!(rt.sweep_signalled(vec![8], true), SweepNext::AskHelper(v) if v == vec![8]));
    assert!(matches!(rt.sweep_escalated(&vec![8], Some(vec![])), SweepNext::Clean));
    match rt.sweep_signalled(vec![8, 9], false) {
        SweepNext::Blocked(e) => {
            assert_eq!(
                e.message,
                "上次遗留的 sing-box 核（pid [8, 9]）以管理员权限运行且无法清理，它占用着内核缓存文件，任何模式都无法启动。请安装/修复 Helper 后重试，或手动执行：sudo kill -9 8 9"
            );
            assert_eq!(e.code, Some(ErrorCode::RootOrphanBlocked));
        }
        _ => panic!("not blocked"),
    }
    assert_eq!(rt.status.error_code, Some(ErrorCode::RootOrphanBlocked));
    assert!(matches!(rt.sweep_escalated(&vec![8], None), SweepNext::Blocked(_)));
}

#[test]
fn the_binary_of_the_running_core_is_attested() {
    let mut rt = runtime();
    rt.generation = 2;
    rt.status.running = true;
    rt.status.pid = 5;
    assert!(attestation_commit_allowed(2, 2, &rt.status, 5));
    assert!(!attestation_commit_allowed(3, 2, &rt.status, 5));
    assert!(!attestation_commit_allowed(2, 2, &rt.status, 6));
    rt.attest_running_core_binary(1, 5, Some("other binary"));
    rt.attest_running_core_binary(2, 5, None);
    assert_eq!(rt.status.error, None);
    rt.attest_running_core_binary(2, 5, Some("other binary"));
    assert_eq!(rt.status.error_code, Some(ErrorCode::CoreBinaryMismatch));
}

#[test]
fn a_core_of_the_helper_is_recorded() {
    let mut rt = runtime();
    rt.generation = 2;
    assert!(rt.helper_spawn_admitted(2));
    assert!(!rt.helper_spawn_admitted(1));
    rt.helper_spawn_begins();
    assert!(rt.core_via_helper);
    assert_eq!(rt.kill_plan(Some(Some(3))), KillPlan::ViaHelper { intended: None });
    assert_eq!(rt.helper_spawned(Err("no".to_string())), Err("no".to_string()));
    assert!(!rt.core_via_helper);
    rt.helper_spawn_begins();
    assert_eq!(rt.helper_spawned(Ok(9)), Ok(9));
    assert_eq!(rt.pid, Some(9));
    assert_eq!(rt.kill_plan(None), KillPlan::ViaHelper { intended: Some(9) });
    assert_eq!(rt.helper_core_probed(9, true), Ok(9));
    assert_eq!(
        rt.helper_core_probed(9, false),
        Err("helper 报告已启动但进程不存在（pid=9）".to_string())
    );
    assert_eq!(rt.pid, None);
    assert!(!rt.core_via_helper);
}

#[test]
fn a_reused_process_number_is_found() {
    let mut w = CrashWatch::begin(None);
    w.tick();
    let r = w.observe_local(Some(5), true, Some("t1".to_string()), None);
    assert_eq!(r, WatchStep::Seen(ChildObservation::Alive));
    for _ in 0..9 {
        w.tick();
    }
    assert_eq!(w.ticks, 10);
    assert_eq!(
        w.observe_local(Some(5), true, None, Some("t1")),
        WatchStep::Seen(ChildObservation::Alive)
    );
    assert_eq!(
        w.observe_local(Some(5), true, None, Some("t2")),
        WatchStep::Seen(ChildObservation::Exited)
    );
    assert_eq!(w.observe_local(Some(5), true, None, None), WatchStep::AskHelper);
    assert_eq!(
        w.observe_local(Some(5), false, None, None),
        WatchStep::Seen(ChildObservation::Exited)
    );
    assert_eq!(w.observe_local(None, true, None, None), WatchStep::Seen(ChildObservation::Absent));
}

#[test]
fn the_helper_decides_where_the_process_cannot_be_seen() {
    let mut w = CrashWatch::begin(Some((5, 100)));
    w.tick();
    assert_eq!(w.observe_local(Some(5), true, None, None), WatchStep::AskHelper);
    let running = |pid: u32, created: Option<u64>| HelperAnswer::Running { pid, created };
    assert_eq!(w.observe_helper(5, running(5, Some(100))), ChildObservation::Alive);
    assert_eq!(w.observe_helper(5, running(5, None)), ChildObservation::Alive);
    assert_eq!(w.observe_helper(5, HelperAnswer::Unavailable), ChildObservation::Alive);
    assert_eq!(w.observe_helper(5, running(6, Some(100))), ChildObservation::Exited);
    assert_eq!(w.observe_helper(5, running(5, Some(101))), ChildObservation::Exited);
    assert_eq!(w.observe_helper(5, HelperAnswer::Stopped), ChildObservation::Exited);
    assert_eq!(helper_identity_token(Some(100)).as_deref(), Some("100"));
    assert_eq!(observe_child(ChildState::Missing), ChildObservation::Absent);
    assert_eq!(observe_child(ChildState::Running), ChildObservation::Alive);
    assert_eq!(observe_child(ChildState::Ended), ChildObservation::Exited);
}

#[test]
fn failures_that_a_restart_cannot_mend() {
    for m in [
        "权限不足",
        "PERMISSION denied",
        "HELPER_GATE_ABORTED",
        "提权助手不可用",
        "提权助手引导",
        "Root_Orphan_Blocked",
        "ROOT 残留",
        "CLASH_API_PORT_BUSY",
        "clash_api 端口 9090",
    ] {
        assert!(is_unrecoverable_restart_message(m), "{}", m);
    }
    assert!(!is_unrecoverable_restart_message("timeout"));
    assert!(!unrecoverable("PERMISSION"));
    let coded = |c| StartError::coded("x".to_string(), c);
    assert!(is_unrecoverable_restart_error(&coded(ErrorCode::HelperGateAborted)));
    assert!(is_unrecoverable_restart_error(&coded(ErrorCode::HelperNotInstalled)));
    assert!(!is_unrecoverable_restart_error(&coded(ErrorCode::StartupFailed)));
}

#[test]
fn recovery_goes_on_or_gives_up() {
    let mut rt = runtime();
    assert!(rt.recovery_config(None).is_none());
    assert_eq!(
        rt.status.error.as_deref(),
        Some("sing-box 意外退出，且无可用配置重启 → 放弃自愈")
    );
    assert!(rt.recovery_config(Some(parse_json("{}").unwrap())).is_some());
    assert_eq!(
        rt.recovery_decided(AutoRestartOutcome::Attempt { backoff_ms: 700 }),
        RecoveryNext::Pause(700)
    );
    assert_eq!(rt.recovery_decided(AutoRestartOutcome::Dedup), RecoveryNext::End);
    assert_eq!(rt.recovery_decided(AutoRestartOutcome::AbortedByUser), RecoveryNext::End);
    assert_eq!(rt.recovery_decided(AutoRestartOutcome::GiveUp), RecoveryNext::End);
    assert_eq!(
        rt.status.error.as_deref(),
        Some("sing-box 反复崩溃，已达自愈上限（3 次/60s）→ 放弃自动重启")
    );
    rt.auto_restart_suppressed = true;
    rt.recovery_decided(AutoRestartOutcome::GiveUp);
    assert_eq!(
        rt.status.error.as_deref(),
        Some("新内核首次运行即异常退出（换核验证窗口内不自动重启）→ 将尝试回滚到原内核")
    );
    assert_eq!(ProxyRuntime::recovery_fate(RestartFate::Start), RecoveryNext::Restart);
    assert_eq!(
        ProxyRuntime::recovery_fate(RestartFate::Superseded { replay: true }),
        RecoveryNext::Decide
    );
    assert_eq!(
        ProxyRuntime::recovery_fate(RestartFate::Superseded { replay: false }),
        RecoveryNext::End
    );
    assert_eq!(ProxyRuntime::recovery_fate(RestartFate::AbortedByUser), RecoveryNext::End);
    assert_eq!(
        ProxyRuntime::recovery_restarted(Ok(true)),
        RecoveryNext::NoteStart { superseded: false }
    );
    let e = StartError::plain("Permission denied".to_string());
    assert_eq!(
        ProxyRuntime::recovery_restarted(Err(&e)),
        RecoveryNext::NoteFailure { unrecoverable: true }
    );
    assert_eq!(rt.recovery_failed(false, &e), RecoveryNext::Decide);
    assert_eq!(rt.recovery_failed(true, &e), RecoveryNext::End);
    assert_eq!(
        rt.status.error.as_deref(),
        Some("sing-box 崩溃自愈重启失败且达上限 → 放弃：Permission denied")
    );
    let named = StartError::coded("named".to_string(), ErrorCode::TunAdapterMissing);
    rt.report_auto_restart_giveup(&named);
    assert_eq!(
        rt.status.error.as_deref(),
        Some("sing-box 崩溃自愈重启失败且达上限 → 放弃：Permission denied")
    );
}

fn core_config() -> CoreConfig {
    let outbound = |tag: &str| Outbound {
        tag: tag.to_string(),
        kind: "vmess".to_string(),
        default_member: None,
    };
    CoreConfig {
        outbounds: vec![outbound("jp"), outbound("us"), outbound("direct")],
        endpoint_tags: Some(vec!["wg".to_string()]),
        final_outbound: None,
        rule_set_tags: vec![],
    }
}

fn rejection(array: RejectedArray, index: usize) -> KernelRejection {
    KernelRejection { array, index, detail: "bad".to_string() }
}

#[test]
fn a_rejected_entry_is_traced_to_its_node() {
    let ids = pairs(&[("jp", "a"), ("us", "b"), ("wg", "w")]);
    let c = core_config();
    let who = |array, index| attribute_rejected_node(&rejection(array, index), &c, &ids);
    assert_eq!(who(RejectedArray::Outbounds, 1), Some(("b".to_string(), "us".to_string())));
    assert_eq!(who(RejectedArray::Endpoints, 0), Some(("w".to_string(), "wg".to_string())));
    assert_eq!(who(RejectedArray::Outbounds, 2), None);
    assert_eq!(who(RejectedArray::Outbounds, 3), None);
    assert_eq!(who(RejectedArray::Endpoints, 1), None);
}

#[test]
fn rejected_nodes_are_left_out_but_for_the_selected_one() {
    let ids = pairs(&[("jp", "a"), ("us", "b"), ("wg", "w")]);
    let c = core_config();
    let mut g = PeelGate::new();
    assert!(matches!(g.on_generated(false, false), GateNext::Pass));
    assert!(matches!(g.on_generated(true, true), GateNext::Pass));
    assert_eq!(g.checks_run, 0);
    assert!(matches!(g.on_generated(true, false), GateNext::Check));
    assert_eq!(g.checks_run, 1);
    let peel = |i| PeelStep::Peel(rejection(RejectedArray::Outbounds, i));
    assert!(matches!(g.on_checked(peel(1), &c, &ids, Some("a"), "kernel"), GateNext::Again));
    assert!(matches!(g.on_checked(peel(1), &c, &ids, Some("a"), "kernel"), GateNext::Pass));
    assert!(matches!(
        g.on_checked(PeelStep::Peel(rejection(RejectedArray::Endpoints, 0)), &c, &ids, Some("a"), "kernel"),
        GateNext::Again
    ));
    match g.on_checked(peel(0), &c, &ids, Some("a"), "kernel") {
        GateNext::Blocked { node, detail } => {
            assert_eq!((node.id.as_str(), node.tag.as_str()), ("a", "jp"));
            assert_eq!((node.reason.as_str(), detail.as_str()), ("kernel", "bad"));
            let made = InvalidNode {
                id: "g".to_string(),
                tag: "g".to_string(),
                reason: "generated".to_string(),
            };
            let all: Vec<String> =
                g.report(&vec![made], Some(&node)).into_iter().map(|n| n.id).collect();
            assert_eq!(all, vec!["g", "b", "w", "a"]);
        }
        _ => panic!("not blocked"),
    }
    assert!(matches!(g.on_checked(PeelStep::Proceed, &c, &ids, None, "k"), GateNext::PassAndRemember));
    assert!(matches!(g.on_checked(PeelStep::Stop, &c, &ids, None, "k"), GateNext::Pass));
    let kept = retained(&vec!["a".to_string(), "b".to_string(), "w".to_string()], &g.peeled);
    assert_eq!(kept, vec![true, false, false]);
    g.reopen();
    assert_eq!(g.checks_run, 0);
}

#[test]
fn a_checked_configuration_is_remembered() {
    let record = |sha: &str| {
        kernel_gate_cache_record("/core".to_string(), 10, Some(99), sha.to_string()).unwrap()
    };
    assert!(kernel_gate_cache_record("/core".to_string(), 10, None, "x".to_string()).is_none());
    let mut cache = None;
    assert!(!kernel_gate_cache_hit(&cache, &record("x")));
    assert!(remember_kernel_gate_cache(&mut cache, record("x")));
    assert!(!remember_kernel_gate_cache(&mut cache, record("x")));
    assert!(kernel_gate_cache_hit(&cache, &record("x")));
    assert!(!kernel_gate_cache_hit(&cache, &record("y")));
    let mut old = record("x");
    old.schema = 0;
    assert!(load_kernel_gate_cache(Some(old)).is_none());
    assert!(load_kernel_gate_cache(Some(record("x"))).is_some());
    assert!(load_kernel_gate_cache(None).is_none());
}

#[test]
fn a_listed_process_may_have_nothing_said_of_it() {
    assert_eq!(listed_value(" Mon Nov 16 10:00:00 2026\n").as_deref(), Some("Mon Nov 16 10:00:00 2026"));
    assert_eq!(listed_value("/opt/core/sing-box\n").as_deref(), Some("/opt/core/sing-box"));
    assert_eq!(listed_value(" \n"), None);
    assert_eq!(listed_value(""), None);
}
