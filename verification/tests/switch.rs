use proxy_runtime::core_config::{
    main_core_naive_count, main_core_parse_unit_count, CoreConfig, Outbound,
};
use proxy_runtime::json::{parse_json, Json};
use proxy_runtime::runtime::{ProxyRuntime, RuleTarget, SwitchSnapshot};
use proxy_runtime::status::ErrorCode;
use proxy_runtime::switch::{
    restart_on_node_change, rule_target_of, ClassifiedSwitch, NodeTables, SwitchDecision,
    SwitchFacts, SwitchNext, SwitchOutcome,
};

fn json(t: &str) -> Json {
    parse_json(t).unwrap()
}

fn snapshot() -> SwitchSnapshot {
    SwitchSnapshot {
        id_to_tag: vec![],
        rule_target: vec![],
        fingerprints: vec![],
        dirty_fingerprints: vec![],
        probe_pool_ports: vec![],
    }
}

fn running() -> ProxyRuntime {
    let mut rt = ProxyRuntime::new("/data".to_string(), '/');
    rt.generation = 3;
    rt.status.running = true;
    rt.current_config = Some(json("{}"));
    rt.switch_snapshot = Some(snapshot());
    rt
}

fn facts(decision: SwitchDecision) -> SwitchFacts {
    SwitchFacts {
        same_config: false,
        both_readable: true,
        new_is_tun: true,
        bindings_cover: true,
        decision,
    }
}

fn target(key: &str, selector: &str, member: &str) -> RuleTarget {
    RuleTarget {
        rule_key: key.to_string(),
        selector_tag: selector.to_string(),
        member_tag: member.to_string(),
    }
}

fn outbound(tag: &str, kind: &str) -> Outbound {
    Outbound { tag: tag.to_string(), kind: kind.to_string(), default_member: None }
}

fn core_config() -> CoreConfig {
    CoreConfig {
        outbounds: vec![
            outbound("rule-1", "selector"),
            outbound("rule-2", "naive"),
            outbound("direct", "direct"),
        ],
        endpoint_tags: Some(vec!["wg".to_string()]),
        final_outbound: None,
        rule_set_tags: vec![],
    }
}

fn why(c: ClassifiedSwitch) -> &'static str {
    match c {
        ClassifiedSwitch::Fallback(w) => w,
        _ => panic!("no fallback"),
    }
}

#[test]
fn the_first_reason_that_applies_counts() {
    let mut rt = ProxyRuntime::new("/data".to_string(), '/');
    let mut f = facts(SwitchDecision::HotSwitch);
    assert!(matches!(rt.classify_switch(&f), ClassifiedSwitch::NotRunning));
    rt.status.running = true;
    assert_eq!(why(rt.classify_switch(&f)), "核在跑但无 current_config 基准");
    rt.current_config = Some(json("{}"));
    f.same_config = true;
    assert!(matches!(rt.classify_switch(&f), ClassifiedSwitch::Unchanged));
    f.same_config = false;
    f.both_readable = false;
    assert_eq!(why(rt.classify_switch(&f)), "配置解析失败");
    f.both_readable = true;
    f.bindings_cover = false;
    assert_eq!(why(rt.classify_switch(&f)), "目标包含本核未规划的自动物理出口");
    f.new_is_tun = false;
    assert_eq!(why(rt.classify_switch(&f)), "无热切换基准快照");
    rt.switch_snapshot = Some(snapshot());
    assert!(matches!(
        rt.classify_switch(&f),
        ClassifiedSwitch::Decided(SwitchDecision::HotSwitch)
    ));
}

#[test]
fn staged_changes_are_named() {
    let rt = running();
    for (d, name, restart) in [
        (SwitchDecision::HotSwitch, "hotSwitch", true),
        (SwitchDecision::NoOp, "noOp", false),
        (SwitchDecision::Defer, "defer", true),
        (SwitchDecision::Restart, "restart", true),
    ] {
        let s = rt.classify_staged(&facts(d));
        assert_eq!(s.decision, name);
        assert_eq!(s.restart_required, restart);
    }
    let idle = ProxyRuntime::new("/data".to_string(), '/');
    let s = idle.classify_staged(&facts(SwitchDecision::Restart));
    assert_eq!((s.decision, s.restart_required), ("noOp", false));
}

#[test]
fn a_switch_waits_while_the_lifecycle_is_busy() {
    let mut rt = running();
    let f = facts(SwitchDecision::NoOp);
    let r = rt.switch_mode_with(json("{\"selectedServerId\": \"a\"}"), true, true, None, &f);
    let id = match r {
        SwitchNext::Parked { id } => id,
        _ => panic!("not parked"),
    };
    assert_eq!(id, 1);
    let r = rt.switch_mode_with(json("{\"selectedServerId\": \"b\"}"), false, true, None, &f);
    assert!(matches!(r, SwitchNext::Parked { id: 2 }));
    assert!(rt.take_pending_switch(Some(id)).is_none());
    let (config, defer) = rt.take_pending_switch(Some(2)).unwrap();
    assert_eq!(config.text_at("selectedServerId").unwrap(), "b");
    assert!(!defer);
}

#[test]
fn each_decision_has_its_outcome() {
    let c = || json("{\"selectedServerId\": \"a\"}");
    let mut rt = running();
    match rt.switch_mode_with(c(), false, false, None, &facts(SwitchDecision::NoOp)) {
        SwitchNext::Done { outcome, tail } => {
            assert_eq!(outcome, SwitchOutcome::NoOp);
            assert!(tail.reassert && tail.sync_rule_files && tail.push_pending_changes);
            assert!(!tail.schedule_restart);
        }
        _ => panic!("not done"),
    }
    assert_eq!(rt.selected_server_id().as_deref(), Some("a"));
    let mut rt = running();
    rt.custom_rule_files_degraded = true;
    match rt.switch_mode_with(c(), false, false, None, &facts(SwitchDecision::Defer)) {
        SwitchNext::Done { outcome, tail } => {
            assert_eq!(outcome, SwitchOutcome::Deferred);
            assert!(tail.schedule_restart && !tail.sync_rule_files);
        }
        _ => panic!("not done"),
    }
    let mut rt = running();
    match rt.switch_mode_with(c(), true, false, None, &facts(SwitchDecision::Defer)) {
        SwitchNext::Done { outcome, .. } => assert_eq!(outcome, SwitchOutcome::Deferred),
        _ => panic!("not done"),
    }
    assert!(rt.restart_deferred);
    assert_eq!(rt.selected_server_id(), None);
    let mut rt = running();
    rt.pending_force_restart = Some((5, json("{}")));
    match rt.switch_mode_with(c(), false, false, None, &facts(SwitchDecision::Restart)) {
        SwitchNext::Done { outcome, tail } => {
            assert_eq!(outcome, SwitchOutcome::Restarting);
            assert!(tail.schedule_restart && tail.push_pending_changes);
        }
        _ => panic!("not done"),
    }
    assert!(rt.pending_force_restart.is_none());
    let mut idle = ProxyRuntime::new("/data".to_string(), '/');
    match idle.switch_mode_with(c(), false, false, None, &facts(SwitchDecision::Restart)) {
        SwitchNext::Done { outcome, tail } => {
            assert_eq!(outcome, SwitchOutcome::NotRunning);
            assert!(tail.process_deletions && !tail.schedule_restart);
        }
        _ => panic!("not done"),
    }
}

#[test]
fn an_interface_that_is_missing_defers_the_switch() {
    let mut rt = running();
    let f = facts(SwitchDecision::Restart);
    match rt.switch_mode_with(json("{}"), false, false, Some("en7"), &f) {
        SwitchNext::Done { outcome, .. } => assert_eq!(outcome, SwitchOutcome::Deferred),
        _ => panic!("not done"),
    }
    assert!(rt.restart_deferred);
    assert_eq!(rt.status.error_code, Some(ErrorCode::OutboundInterfaceUnavailable));
}

#[test]
fn setting_the_selectors_settles_the_switch() {
    let c = || json("{\"selectedServerId\": \"a\"}");
    let mut rt = running();
    let r = rt.switch_mode_with(c(), false, false, None, &facts(SwitchDecision::HotSwitch));
    assert!(matches!(r, SwitchNext::Execute { .. }));
    rt.reconcile_required = true;
    rt.pending_force_restart = Some((5, json("{}")));
    match rt.switch_executed(true, 3, 0, c()) {
        SwitchNext::Done { outcome, tail } => {
            assert_eq!(outcome, SwitchOutcome::HotSwitched);
            assert!(tail.exit_changed && tail.reassert);
        }
        _ => panic!("not done"),
    }
    assert!(!rt.reconcile_required);
    let (id, waiting) = rt.pending_force_restart.take().unwrap();
    assert_eq!(id, 5);
    assert_eq!(waiting.text_at("selectedServerId").unwrap(), "a");
    match rt.switch_executed(true, 2, 0, c()) {
        SwitchNext::Done { outcome, .. } => assert_eq!(outcome, SwitchOutcome::Pending),
        _ => panic!("not done"),
    }
    assert!(rt.reconcile_required);
    match rt.switch_executed(false, 3, 0, c()) {
        SwitchNext::Done { outcome, .. } => assert_eq!(outcome, SwitchOutcome::Restarting),
        _ => panic!("not done"),
    }
    assert!(rt.persisted_switch_is_current(0, Some(true)));
    assert!(!rt.persisted_switch_is_current(1, Some(true)));
    assert!(!rt.persisted_switch_is_current(0, Some(false)));
    assert!(!rt.persisted_switch_is_current(0, None));
    assert!(restart_on_node_change(&json("{\"restartOnNodeChange\": true}")));
    assert!(!restart_on_node_change(&json("{\"restartOnNodeChange\": 1}")));
}

#[test]
fn a_snapshot_keeps_rules_whose_selector_is_there() {
    let nodes = || NodeTables {
        id_to_tag: vec![("a".to_string(), "jp".to_string())],
        fingerprints: vec![],
        dirty_fingerprints: vec![],
    };
    let pending = vec![
        target("custom:1", "rule-1", "jp"),
        target("custom:2", "rule-2", "jp"),
        target("custom:1", "rule-1", "us"),
    ];
    let s = ProxyRuntime::build_switch_snapshot(nodes(), Some(pending), &core_config(), &vec![9]);
    assert_eq!(s.rule_target.len(), 2);
    assert_eq!(s.probe_pool_ports, vec![9]);
    assert_eq!(rule_target_of(&s.rule_target, "custom:1").unwrap().member_tag, "us");
    assert!(rule_target_of(&s.rule_target, "custom:2").is_none());
    let s = ProxyRuntime::build_switch_snapshot(nodes(), None, &core_config(), &vec![]);
    assert!(s.rule_target.is_empty());
    assert_eq!(s.id_to_tag.len(), 1);
}

#[test]
fn a_configuration_is_counted() {
    assert_eq!(main_core_naive_count(&core_config()), 1);
    assert_eq!(main_core_parse_unit_count(&core_config()), 4);
    let mut c = core_config();
    c.endpoint_tags = None;
    assert_eq!(main_core_parse_unit_count(&c), 3);
}
