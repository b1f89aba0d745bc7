use proxy_runtime::core_log::CoreFatalKind;
use proxy_runtime::json::parse_json;
use proxy_runtime::json::Json;
use proxy_runtime::retry::StartRetryBudget;
use proxy_runtime::runtime::{ProxyRuntime, SwitchSnapshot};
use proxy_runtime::start_flow::{
    look_at_interfaces_again, session_tasks, AdapterVerdict, FixedMessages, Generated, Preflight,
    Protocol, ReadyOutcome, SessionPorts, StartAction, StartFlow, StartStage,
};
use proxy_runtime::status::{ErrorCode, StartError};

fn messages() -> FixedMessages {
    FixedMessages {
        helper_not_installed: "not installed".to_string(),
        helper_gate_aborted: "aborted".to_string(),
        tun_adapter_missing: "no adapter".to_string(),
        tun_address_unavailable: "no address".to_string(),
    }
}

fn runtime() -> ProxyRuntime {
    let mut rt = ProxyRuntime::new("/data".to_string(), '/');
    rt.generation = 1;
    rt
}

fn snapshot() -> SwitchSnapshot {
    SwitchSnapshot {
        id_to_tag: vec![],
        rule_target: vec![],
        fingerprints: vec![],
        dirty_fingerprints: vec![],
        probe_pool_ports: vec![],
    }
}

fn config() -> Json {
    parse_json("{\"selectedServerId\": \"n1\"}").unwrap()
}

fn ports() -> SessionPorts {
    SessionPorts {
        mixed_port: 7890,
        api_port: 4000,
        update_in_port: 4001,
        subscription_update_in_port: 4002,
    }
}

fn budget(max_retries: u32) -> StartRetryBudget {
    StartRetryBudget { max_retries, delay_ms: 2000, exponential_backoff: true }
}

fn spawned(rt: &mut ProxyRuntime, retries: u32) -> StartFlow {
    let (mut f, a) = StartFlow::begin(rt, 1);
    assert!(matches!(a, StartAction::Preflight));
    let a = f.on_preflight(rt, Preflight::Passed { via_helper: false, budget: budget(retries) });
    assert!(matches!(a, StartAction::RunHelperGate));
    assert!(matches!(f.on_helper_gate(Ok(())), StartAction::PrepareFiles));
    assert!(matches!(f.on_prepared(rt, Ok(())), StartAction::Prestart));
    assert!(matches!(f.on_prestarted(rt), StartAction::Generate));
    to_spawned(rt, &mut f);
    f
}

fn to_spawned(rt: &mut ProxyRuntime, f: &mut StartFlow) {
    assert!(matches!(f.on_generated(rt, Generated::Passed), StartAction::CheckBindings));
    assert!(matches!(f.on_bindings(rt, 0), StartAction::FindBinary));
    assert!(matches!(f.on_binary(rt, Ok(())), StartAction::SpawnDirect));
    assert!(matches!(f.on_direct_spawned(rt, Ok(Some(77))), StartAction::AwaitReady));
    assert_eq!(rt.pid, Some(77));
}

fn failure(a: StartAction) -> StartError {
    match a {
        StartAction::Fail(e) => e,
        _ => panic!("no failure"),
    }
}

#[test]
fn a_core_that_comes_up_runs() {
    let mut rt = runtime();
    let mut f = spawned(&mut rt, 2);
    assert!(matches!(f.on_ready(&rt, ReadyOutcome::Ready), StartAction::ProbeAdapter));
    assert!(matches!(f.on_adapter_probed(true), StartAction::JudgeAdapter));
    assert!(matches!(f.on_adapter_verdict(&rt, AdapterVerdict::Proceed), StartAction::VerifyRoute));
    assert!(matches!(f.on_route(&rt, Ok(())), StartAction::Commit));
    let s = f.commit(&mut rt, 123, ports(), config(), snapshot());
    assert_eq!(f.stage, StartStage::Running);
    assert!(s.running && !s.started_via_helper);
    assert_eq!((s.pid, s.start_time, s.mixed_port, s.clash_api_port), (77, Some(123), 7890, 4000));
    assert!(rt.status.running);
    assert!(rt.startup_snapshot.is_some() && rt.current_config.is_some());
    assert!(!rt.restart_deferred);
}

#[test]
fn a_superseded_start_does_nothing() {
    let rt = runtime();
    let (f, a) = StartFlow::begin(&rt, 2);
    assert!(matches!(a, StartAction::Yield));
    assert_eq!(f.stage, StartStage::Over);
}

#[test]
fn preflight_failures_are_told_apart() {
    let mut rt = runtime();
    let (mut f, _) = StartFlow::begin(&rt, 1);
    let e = failure(f.on_preflight(&mut rt, Preflight::Unreadable("bad".to_string())));
    assert_eq!(e.message, "配置解析失败（UserConfig）: bad");
    assert_eq!(e.code, None);
    assert_eq!(rt.status.error, None);
    let (mut f, _) = StartFlow::begin(&rt, 1);
    let e = failure(f.on_preflight(&mut rt, Preflight::Unbound("en7".to_string())));
    assert_eq!(e.code, Some(ErrorCode::OutboundInterfaceUnavailable));
    assert_eq!(rt.status.error.as_deref(), Some("en7"));
}

#[test]
fn a_rejected_selected_node_is_said() {
    let mut rt = runtime();
    let (mut f, _) = StartFlow::begin(&rt, 1);
    f.on_preflight(&mut rt, Preflight::Passed { via_helper: false, budget: budget(2) });
    f.on_helper_gate(Ok(()));
    let e = failure(f.on_prepared(&rt, Err(("/data".to_string(), "full".to_string()))));
    assert_eq!(e.message, "创建配置目录失败 /data: full");
    let (mut f, _) = StartFlow::begin(&rt, 1);
    f.on_preflight(&mut rt, Preflight::Passed { via_helper: false, budget: budget(2) });
    f.on_helper_gate(Ok(()));
    f.on_prepared(&rt, Ok(()));
    f.on_prestarted(&rt);
    let blocked = Generated::Blocked { tag: "jp".to_string(), detail: "bad key".to_string() };
    let e = failure(f.on_generated(&mut rt, blocked));
    assert_eq!(
        e.message,
        "选中的节点「jp」被 sing-box 内核拒收，已跳过起核（请修正该节点或改选其他节点）：bad key"
    );
    assert_eq!(e.code, Some(ErrorCode::StartupFailed));
}

#[test]
fn a_binding_that_is_gone_costs_no_attempt() {
    let mut rt = runtime();
    let (mut f, _) = StartFlow::begin(&rt, 1);
    f.on_preflight(&mut rt, Preflight::Passed { via_helper: false, budget: budget(2) });
    f.on_helper_gate(Ok(()));
    f.on_prepared(&rt, Ok(()));
    f.on_prestarted(&rt);
    assert_eq!(f.attempt, 1);
    f.on_generated(&mut rt, Generated::Passed);
    assert!(matches!(f.on_bindings(&rt, 2), StartAction::Generate));
    assert_eq!(f.attempt, 1);
}

#[test]
fn a_dying_core_is_tried_again_within_the_budget() {
    let mut rt = runtime();
    let mut f = spawned(&mut rt, 1);
    assert!(matches!(f.on_ready(&rt, ReadyOutcome::Dead), StartAction::KillCore));
    let a = f.on_killed(&mut rt, Ok(()), None, "utun9", &messages());
    assert!(matches!(a, StartAction::Backoff(2000)));
    assert!(matches!(f.on_backoff(&rt, false), StartAction::Generate));
    to_spawned(&mut rt, &mut f);
    assert_eq!(f.attempt, 2);
    assert!(matches!(f.on_ready(&rt, ReadyOutcome::Dead), StartAction::KillCore));
    let e = failure(f.on_killed(&mut rt, Ok(()), None, "utun9", &messages()));
    assert_eq!(e.message, "sing-box 启动期退出");
    assert_eq!(e.code, Some(ErrorCode::StartupFailed));
    assert_eq!(rt.status.error_code, Some(ErrorCode::StartupFailed));
}

#[test]
fn the_log_of_a_dead_core_explains_it() {
    let mut rt = runtime();
    let mut f = spawned(&mut rt, 0);
    f.on_ready(&rt, ReadyOutcome::Dead);
    let fatal = Some(CoreFatalKind::TunAddressUnavailable);
    let e = failure(f.on_killed(&mut rt, Ok(()), fatal, "utun9", &messages()));
    assert_eq!((e.message.as_str(), e.code), ("no address", Some(ErrorCode::TunAddressUnavailable)));
    let mut f = spawned(&mut rt, 0);
    f.on_ready(&rt, ReadyOutcome::Dead);
    let e = failure(f.on_killed(&mut rt, Err("stuck".to_string()), None, "utun9", &messages()));
    assert_eq!((e.message.as_str(), e.code), ("stuck", None));
}

#[test]
fn a_missing_adapter_or_route_ends_the_start() {
    let mut rt = runtime();
    let mut f = spawned(&mut rt, 2);
    f.on_ready(&rt, ReadyOutcome::Ready);
    f.on_adapter_probed(false);
    let a = f.on_adapter_verdict(&rt, AdapterVerdict::TerminalNeverAppeared);
    assert!(matches!(a, StartAction::KillCore));
    let e = failure(f.on_killed(&mut rt, Ok(()), None, "utun9", &messages()));
    assert_eq!((e.message.as_str(), e.code), ("no adapter", Some(ErrorCode::TunAdapterMissing)));
    let mut f = spawned(&mut rt, 2);
    f.on_ready(&rt, ReadyOutcome::Ready);
    f.on_adapter_probed(true);
    f.on_adapter_verdict(&rt, AdapterVerdict::TerminalFlapping);
    let e = failure(f.on_killed(&mut rt, Ok(()), None, "utun9", &messages()));
    assert_eq!(e.message, "TUN 虚拟网卡 utun9 反复消失（起核期建出后又不见），已重试 1 次仍失败");
    let mut f = spawned(&mut rt, 2);
    f.on_ready(&rt, ReadyOutcome::Ready);
    f.on_adapter_probed(true);
    f.on_adapter_verdict(&rt, AdapterVerdict::Proceed);
    assert!(matches!(f.on_route(&rt, Err("no route".to_string())), StartAction::KillCore));
    let e = failure(f.on_killed(&mut rt, Ok(()), None, "utun9", &messages()));
    assert_eq!((e.message.as_str(), e.code), ("no route", Some(ErrorCode::TunRouteNotCaptured)));
}

#[test]
fn a_start_yields_wherever_another_took_over() {
    let mut rt = runtime();
    let mut f = spawned(&mut rt, 2);
    rt.generation = 2;
    assert!(matches!(f.on_ready(&rt, ReadyOutcome::Dead), StartAction::Yield));
    assert_eq!(f.stage, StartStage::Over);
    rt.generation = 1;
    let mut f = spawned(&mut rt, 2);
    f.on_ready(&rt, ReadyOutcome::Ready);
    f.on_adapter_probed(true);
    rt.generation = 2;
    assert!(matches!(f.on_adapter_verdict(&rt, AdapterVerdict::Proceed), StartAction::Yield));
    rt.generation = 1;
    let mut f = spawned(&mut rt, 2);
    f.on_ready(&rt, ReadyOutcome::Dead);
    f.on_killed(&mut rt, Ok(()), None, "utun9", &messages());
    assert!(matches!(f.on_backoff(&rt, true), StartAction::Yield));
}

#[test]
fn a_lasting_spawn_failure_is_not_tried_again() {
    for (m, again) in [("Permission denied", false), ("resource busy", true)] {
        let mut rt = runtime();
        let (mut f, _) = StartFlow::begin(&rt, 1);
        f.on_preflight(&mut rt, Preflight::Passed { via_helper: false, budget: budget(2) });
        f.on_helper_gate(Ok(()));
        f.on_prepared(&rt, Ok(()));
        f.on_prestarted(&rt);
        f.on_generated(&mut rt, Generated::Passed);
        f.on_bindings(&rt, 0);
        f.on_binary(&mut rt, Ok(()));
        let a = f.on_direct_spawned(&mut rt, Err(m.to_string()));
        assert_eq!(matches!(a, StartAction::Backoff(_)), again);
    }
}

#[test]
fn the_helper_spawns_where_it_is_asked_to() {
    let mut rt = runtime();
    let (mut f, _) = StartFlow::begin(&rt, 1);
    f.on_preflight(&mut rt, Preflight::Passed { via_helper: true, budget: budget(2) });
    f.on_helper_gate(Ok(()));
    f.on_prepared(&rt, Ok(()));
    f.on_prestarted(&rt);
    f.on_generated(&mut rt, Generated::Passed);
    f.on_bindings(&rt, 0);
    assert!(matches!(f.on_binary(&mut rt, Ok(())), StartAction::SpawnViaHelper));
    let e = failure(f.on_helper_spawned(&mut rt, Err("refused".to_string())));
    assert_eq!((e.message.as_str(), e.code), ("refused", Some(ErrorCode::StartupFailed)));
    let (mut f, _) = StartFlow::begin(&rt, 1);
    f.on_preflight(&mut rt, Preflight::Passed { via_helper: true, budget: budget(2) });
    let e = StartError::coded("aborted".to_string(), ErrorCode::HelperGateAborted);
    assert_eq!(failure(f.on_helper_gate(Err(e))).code, Some(ErrorCode::HelperGateAborted));
}

#[test]
fn a_session_has_the_tasks_of_its_nodes() {
    let t = session_tasks(true, None, &vec![Protocol::Other, Protocol::Tailscale]);
    assert!(t.take_over_dns && t.relay_tailscale && t.endpoint_map);
    assert!(!t.relay_openconnect && !t.relay_openvpn);
    let t = session_tasks(true, Some(false), &vec![Protocol::Openconnect, Protocol::OpenvpnClient]);
    assert!(!t.take_over_dns && !t.relay_tailscale);
    assert!(t.relay_openconnect && t.relay_openvpn && t.endpoint_map);
    let t = session_tasks(false, Some(true), &vec![]);
    assert!(!t.take_over_dns && !t.endpoint_map);
    assert!(look_at_interfaces_again(1, 0) && look_at_interfaces_again(0, 1));
    assert!(!look_at_interfaces_again(0, 0));
    let mut rt = runtime();
    rt.note_unavailable_interfaces(None);
    assert_eq!(rt.status.error, None);
    rt.note_unavailable_interfaces(Some("en7"));
    assert_eq!(rt.status.error_code, Some(ErrorCode::OutboundInterfaceUnavailable));
}
