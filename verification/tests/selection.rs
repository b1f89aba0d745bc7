use proxy_runtime::core_config::{CoreConfig, Outbound};
use proxy_runtime::exit_check::{
    attest_effective_exit, effective_exit_tag, region_reverse_rule_sets_intact, ExitAttestation,
    ExitQuestion, ProxyMode,
};
use proxy_runtime::json::{parse_json, Json};
use proxy_runtime::reassert::{
    next_reconcile_delay_ms, reconcile_retries, rule_requests, PassState, Reassert, ReassertAction,
    ReconcileNext, ReconcileQueue, RoutingRule, RulePass, RuleStep, SelectorReconcileOutcome,
    StagedMask, WantedExit,
};
use proxy_runtime::runtime::{ProxyRuntime, RuleTarget, SwitchSnapshot};
use proxy_runtime::selection::{
    attest_runtime_selection, selected_server_present, server_ids, ReassertOutcome,
    SelectorAttestation, Stage1Outcome,
};
use proxy_runtime::status::ErrorCode;

fn json(t: &str) -> Json {
    parse_json(t).unwrap()
}

fn pairs(v: &[(&str, &str)]) -> Vec<(String, String)> {
    v.iter().map(|(a, b)| (a.to_string(), b.to_string())).collect()
}

fn running() -> ProxyRuntime {
    let mut rt = ProxyRuntime::new("/data".to_string(), '/');
    rt.generation = 3;
    rt.intent_generation = 8;
    rt.status.running = true;
    rt.current_config = Some(json("{\"selectedServerId\": \"a\", \"x\": 1}"));
    rt.switch_snapshot = Some(SwitchSnapshot {
        id_to_tag: pairs(&[("a", "jp"), ("b", "us")]),
        rule_target: vec![RuleTarget {
            rule_key: "custom:1".to_string(),
            selector_tag: "rule-1".to_string(),
            member_tag: "jp".to_string(),
        }],
        fingerprints: vec![],
        dirty_fingerprints: pairs(&[("a", "fa"), ("b", "fb")]),
        probe_pool_ports: vec![],
    });
    rt
}

fn wanted(id: Option<&str>) -> WantedExit {
    WantedExit { target_id: id.map(|s| s.to_string()), is_direct: false, login_fallback: false }
}

fn applied(tag: &str, rules: &[(&str, &str)]) -> ReassertOutcome {
    ReassertOutcome {
        stage1: Stage1Outcome::Applied { member_tag: tag.to_string() },
        rule_intents: pairs(rules),
    }
}

fn no_mask() -> StagedMask {
    StagedMask { pending: false, scope_known: true, node_ids: vec![] }
}

fn no_rules(rt: &ProxyRuntime) -> RulePass {
    let mut pass = RulePass::begin(rt, 3, 8, vec![]);
    assert!(matches!(pass.next(rt), RuleStep::Done));
    pass
}

#[test]
fn servers_of_a_configuration() {
    let c = json("{\"servers\": [{\"id\": \"b\"}, {\"id\": 3}, {\"id\": \"a\"}, {\"id\": \"b\"}], \"selectedServerId\": \"a\"}");
    assert_eq!(server_ids(&c), vec!["a", "b"]);
    assert!(selected_server_present(&c));
    assert!(!selected_server_present(&json("{\"servers\": [], \"selectedServerId\": \"a\"}")));
    assert!(!selected_server_present(&json("{\"servers\": [{\"id\": \"a\"}]}")));
    assert!(server_ids(&json("{}")).is_empty());
}

#[test]
fn the_selected_exit_is_set() {
    let mut rt = running();
    let mut r = Reassert::begin(3, 8);
    match r.round(&rt, &wanted(Some("b"))) {
        ReassertAction::Put { member_tag } => assert_eq!(member_tag, "us"),
        _ => panic!("nothing to set"),
    }
    assert!(matches!(r.on_put(&mut rt, true), (ReassertAction::Rules, None)));
    let mut pass = RulePass::begin(&rt, 3, 8, pairs(&[("custom:1", "b")]));
    assert!(matches!(pass.next(&rt), RuleStep::Put { .. }));
    pass.on_put(&mut rt);
    assert!(matches!(pass.next(&rt), RuleStep::Done));
    let o = r.finish(pass);
    assert_eq!(o.rule_intents, pairs(&[("rule-1", "us")]));
    assert!(matches!(&o.stage1, Stage1Outcome::Applied { member_tag } if member_tag == "us"));
    rt.reconcile_required = true;
    rt.reassert_settled(&o);
    assert!(!rt.reconcile_required);
    assert!(rt.selector_attestation_due(3, &o));
    assert!(!rt.selector_attestation_due(2, &o));
    assert!(rt.after_selector_reasserted(3));
}

#[test]
fn an_exit_that_cannot_be_set_is_tried_ten_times() {
    let mut rt = running();
    let mut r = Reassert::begin(3, 8);
    let mut puts = 0;
    loop {
        match r.round(&rt, &wanted(Some("a"))) {
            ReassertAction::Put { .. } => {
                puts += 1;
                assert!(matches!(r.on_put(&mut rt, false), (ReassertAction::Pause(300), None)));
                assert!(matches!(r.on_pause(&rt), ReassertAction::TryAgain));
            }
            ReassertAction::Rules => break,
            _ => panic!("unexpected"),
        }
    }
    assert_eq!(puts, 10);
    let o = r.finish(no_rules(&rt));
    rt.reassert_settled(&o);
    assert_eq!(
        rt.status.error.as_deref(),
        Some("未按设置走：启动后未能把出口切到选中节点「jp」（管理接口无响应），流量可能仍走上一次的出口。请重新连接。")
    );
    assert_eq!(rt.status.error_code, Some(ErrorCode::ExitMismatch));
}

#[test]
fn exits_without_a_node() {
    let mut rt = running();
    let mut r = Reassert::begin(3, 8);
    assert!(matches!(r.round(&rt, &wanted(Some("gone"))), ReassertAction::Rules));
    let o = r.finish(no_rules(&rt));
    assert!(matches!(&o.stage1, Stage1Outcome::UnresolvedTag { selected_id } if selected_id == "gone"));
    let mut r = Reassert::begin(3, 8);
    assert!(matches!(r.round(&rt, &wanted(Some(""))), ReassertAction::Rules));
    assert!(matches!(&r.stage1, Stage1Outcome::UnresolvedTag { selected_id } if selected_id == "<未选中>"));
    let direct = WantedExit { target_id: None, is_direct: true, login_fallback: false };
    let mut r = Reassert::begin(3, 8);
    assert!(matches!(r.round(&rt, &direct), ReassertAction::Put { member_tag } if member_tag == "direct"));
    let login = WantedExit { target_id: Some("a".to_string()), is_direct: false, login_fallback: true };
    let mut r = Reassert::begin(3, 8);
    assert!(matches!(r.round(&rt, &login), ReassertAction::Put { member_tag } if member_tag == "direct"));
    rt.intent_generation = 9;
    assert!(matches!(r.on_put(&mut rt, true), (ReassertAction::Abandon, None)));
    assert!(rt.reconcile_required);
    let mut r = Reassert::begin(3, 8);
    assert!(matches!(r.round(&rt, &wanted(Some("a"))), ReassertAction::Abandon));
}

#[test]
fn rules_are_set_after_the_exit() {
    let mut rt = running();
    let rule = |id: &str, enabled: bool, proxy: bool, target: Option<&str>| RoutingRule {
        id: id.to_string(),
        enabled,
        through_proxy: proxy,
        target_server_id: target.map(|s| s.to_string()),
    };
    let requests = rule_requests(
        &vec![rule("1", true, true, Some("b")), rule("2", false, true, Some("b")), rule("3", true, false, Some("b"))],
        &vec![rule("z", true, true, Some("a")), rule("y", true, true, None)],
    );
    assert_eq!(requests, pairs(&[("custom:1", "b"), ("app:z", "a")]));
    let mut pass = RulePass::begin(
        &rt,
        3,
        8,
        pairs(&[("custom:9", "b"), ("custom:1", "gone"), ("custom:1", "b"), ("custom:1", "a")]),
    );
    assert!(matches!(
        pass.next(&rt),
        RuleStep::Put { selector_tag, member_tag } if selector_tag == "rule-1" && member_tag == "us"
    ));
    pass.on_put(&mut rt);
    assert!(matches!(
        pass.next(&rt),
        RuleStep::Put { selector_tag, member_tag } if selector_tag == "rule-1" && member_tag == "jp"
    ));
    pass.on_put(&mut rt);
    assert!(matches!(pass.next(&rt), RuleStep::Done));
    assert!(!rt.reconcile_required);
    let o = Reassert::begin(3, 8).finish(pass);
    assert_eq!(o.rule_intents, pairs(&[("rule-1", "us"), ("rule-1", "jp")]));
    rt.reassert_unreadable();
    assert_eq!(
        rt.status.error.as_deref(),
        Some("selector 所有权交接后无法解析运行配置，请重新应用配置以完成对账")
    );
}

#[test]
fn drift_of_selectors_is_found() {
    let o = applied("jp", &[("rule-1", "us"), ("rule-2", "us")]);
    assert!(matches!(attest_runtime_selection(&o, None), SelectorAttestation::Match));
    let same = pairs(&[("proxy-selector", "jp"), ("rule-1", "us")]);
    assert!(matches!(attest_runtime_selection(&o, Some(&same)), SelectorAttestation::Match));
    let off = pairs(&[("proxy-selector", "hk"), ("rule-1", "jp"), ("rule-2", "us")]);
    let found = attest_runtime_selection(&o, Some(&off));
    assert_eq!(
        found.user_message(),
        "未按设置走选中节点「jp」，核实际出口为「hk」，另有 1 条分流规则的出口也不一致。请重新连接。"
    );
    let rules = pairs(&[("proxy-selector", "jp"), ("rule-1", "jp"), ("rule-2", "hk")]);
    let found = attest_runtime_selection(&o, Some(&rules));
    assert_eq!(
        found.user_message(),
        "未按设置走：有 2 条分流规则未走设定的节点（如「rule-1」实际走「jp」，应为「us」）。请重新连接。"
    );
    let mut rt = running();
    rt.attest_runtime_selector(2, &o, Some(&off));
    assert_eq!(rt.status.error, None);
    rt.attest_runtime_selector(3, &o, Some(&off));
    assert_eq!(rt.status.error_code, Some(ErrorCode::ExitMismatch));
}

#[test]
fn a_saved_selection_reaches_the_core() {
    let mut rt = running();
    rt.set_nonfatal_error("drift", ErrorCode::ExitMismatch);
    let saved = json("{\"selectedServerId\": \"b\", \"x\": 2}");
    let prints = pairs(&[("b", "fb")]);
    let (tag, config) = match rt.reconcile_begin(3, 8, false, Some(&saved), &no_mask(), &prints) {
        ReconcileNext::Read { member_tag, config } => (member_tag, config),
        _ => panic!("nothing to read"),
    };
    assert_eq!(tag, "us");
    assert!(matches!(
        ProxyRuntime::reconcile_read(tag.clone(), config.clone(), false),
        ReconcileNext::End(SelectorReconcileOutcome::NotEligible)
    ));
    assert!(matches!(
        ProxyRuntime::reconcile_read(tag.clone(), config.clone(), true),
        ReconcileNext::Select { member_tag, .. } if member_tag == "us"
    ));
    assert_eq!(config.text_at("selectedServerId").unwrap(), "b");
    assert!(matches!(config.get("x").unwrap(), Json::Uint(1)));
    assert!(matches!(rt.reconcile_selected(3, 8, true), ReconcileNext::ReadBack));
    let groups = pairs(&[("proxy-selector", "us")]);
    assert!(matches!(
        rt.reconcile_attested(3, 8, &tag, Some(&groups), &config),
        ReconcileNext::ReconcileExit
    ));
    assert!(matches!(rt.reconcile_exit_done(3, 8), ReconcileNext::Refresh));
    assert_eq!(rt.reconcile_refreshed(3, 8), SelectorReconcileOutcome::Applied);
    assert_eq!(rt.status.error, None);
    assert!(matches!(
        rt.reconcile_begin(3, 8, false, Some(&saved), &no_mask(), &prints),
        ReconcileNext::End(SelectorReconcileOutcome::Converged)
    ));
}

#[test]
fn a_saved_selection_that_may_not_reach_the_core() {
    let rt = running();
    let saved = json("{\"selectedServerId\": \"b\"}");
    let prints = pairs(&[("b", "fb")]);
    let end = |r: ReconcileNext| match r {
        ReconcileNext::End(o) => o,
        _ => panic!("no end"),
    };
    use_outcome(end(rt.reconcile_begin(2, 8, false, Some(&saved), &no_mask(), &prints)), SelectorReconcileOutcome::Superseded);
    use_outcome(end(rt.reconcile_begin(3, 8, true, Some(&saved), &no_mask(), &prints)), SelectorReconcileOutcome::Failed);
    use_outcome(end(rt.reconcile_begin(3, 8, false, None, &no_mask(), &prints)), SelectorReconcileOutcome::Failed);
    use_outcome(
        end(rt.reconcile_begin(3, 8, false, Some(&json("{\"selectedServerId\": \"\"}")), &no_mask(), &prints)),
        SelectorReconcileOutcome::NotEligible,
    );
    let masked = StagedMask { pending: true, scope_known: true, node_ids: vec!["b".to_string()] };
    use_outcome(end(rt.reconcile_begin(3, 8, false, Some(&saved), &masked, &prints)), SelectorReconcileOutcome::NotEligible);
    let unknown = StagedMask { pending: true, scope_known: false, node_ids: vec![] };
    use_outcome(end(rt.reconcile_begin(3, 8, false, Some(&saved), &unknown, &prints)), SelectorReconcileOutcome::NotEligible);
    use_outcome(
        end(rt.reconcile_begin(3, 8, false, Some(&saved), &no_mask(), &pairs(&[("b", "changed")]))),
        SelectorReconcileOutcome::NotEligible,
    );
    use_outcome(end(rt.reconcile_selected(3, 8, false)), SelectorReconcileOutcome::Failed);
    let mut rt = rt;
    let groups = pairs(&[("proxy-selector", "jp")]);
    use_outcome(end(rt.reconcile_attested(3, 8, "us", Some(&groups), &saved)), SelectorReconcileOutcome::Failed);
    use_outcome(end(rt.reconcile_attested(3, 8, "us", None, &saved)), SelectorReconcileOutcome::Failed);
    assert!(reconcile_retries(SelectorReconcileOutcome::Failed));
    assert!(!reconcile_retries(SelectorReconcileOutcome::NotEligible));
    assert_eq!(next_reconcile_delay_ms(200, true, false), 400);
    assert_eq!(next_reconcile_delay_ms(3200, true, false), 5000);
    assert_eq!(next_reconcile_delay_ms(3200, true, true), 200);
    assert_eq!(next_reconcile_delay_ms(3200, false, false), 200);
}

fn use_outcome(got: SelectorReconcileOutcome, want: SelectorReconcileOutcome) {
    assert_eq!(got, want);
}

fn outbound(tag: &str, member: Option<&str>) -> Outbound {
    Outbound {
        tag: tag.to_string(),
        kind: "selector".to_string(),
        default_member: member.map(|s| s.to_string()),
    }
}

fn exits(last: Option<&str>, member: Option<&str>) -> CoreConfig {
    CoreConfig {
        outbounds: vec![outbound("proxy-selector", member)],
        endpoint_tags: None,
        final_outbound: last.map(|s| s.to_string()),
        rule_set_tags: vec!["geosite-cn".to_string()],
    }
}

fn question(selected: Option<&str>) -> ExitQuestion {
    ExitQuestion {
        mode: ProxyMode::Global,
        reverse_region: false,
        region_rule_sets: None,
        falls_back_to_direct: false,
        selected: selected.map(|s| s.to_string()),
        selected_is_direct: false,
        id_to_tag: pairs(&[("a", "jp")]),
    }
}

#[test]
fn the_exit_of_a_configuration() {
    assert_eq!(effective_exit_tag(&exits(None, None)), None);
    assert_eq!(effective_exit_tag(&exits(Some("direct"), None)).as_deref(), Some("direct"));
    assert_eq!(effective_exit_tag(&exits(Some("proxy-selector"), Some("jp"))).as_deref(), Some("jp"));
    assert_eq!(
        effective_exit_tag(&exits(Some("proxy-selector"), None)).as_deref(),
        Some("proxy-selector")
    );
    assert_eq!(effective_exit_tag(&exits(Some("other"), None)).as_deref(), Some("other"));
    let c = exits(None, None);
    assert!(region_reverse_rule_sets_intact(&Some(vec!["geosite-cn".to_string()]), &c));
    assert!(!region_reverse_rule_sets_intact(&Some(vec!["geoip-cn".to_string()]), &c));
    assert!(!region_reverse_rule_sets_intact(&None, &c));
}

#[test]
fn a_silent_direct_exit_is_found() {
    let through = exits(Some("proxy-selector"), Some("jp"));
    let q = question(Some("a"));
    assert!(matches!(attest_effective_exit(&q, &through, Some("a")), ExitAttestation::Match));
    let found = attest_effective_exit(&q, &exits(Some("direct"), None), Some("a"));
    assert_eq!(
        found.user_message(),
        "流量未按预期走选中节点「jp」，实际出口为直连（未加密）。请检查该节点配置或重新选择节点。"
    );
    let found = attest_effective_exit(&q, &exits(Some("proxy-selector"), Some("hk")), Some("a"));
    assert_eq!(found.user_message(), "流量未按预期走选中节点「jp」，实际出口为「hk」。");
    let found = attest_effective_exit(&q, &through, Some("b"));
    assert_eq!(
        found.user_message(),
        "流量未按预期走选中节点：启动用的节点（a）与当前选中节点（b）不一致，流量可能未走选中节点。请重新连接。"
    );
    let found = attest_effective_exit(&question(None), &through, Some("b"));
    assert!(matches!(found, ExitAttestation::StaleSelection { started_with, .. } if started_with == "<none>"));
    let found = attest_effective_exit(&question(Some("z")), &through, None);
    assert_eq!(found.user_message(), "流量未按预期走选中节点：选中节点（z）不在本次启动的节点表中，流量可能未走该节点。");
    let found = attest_effective_exit(&q, &exits(None, None), Some("a"));
    assert_eq!(found.user_message(), "流量未按预期走选中节点：无法确认流量是否走选中节点「jp」（配置未指定默认出口）。");
}

#[test]
fn modes_in_which_a_direct_exit_is_meant() {
    let direct = exits(Some("direct"), None);
    let mut q = question(Some("a"));
    q.mode = ProxyMode::Direct;
    assert!(matches!(attest_effective_exit(&q, &direct, Some("a")), ExitAttestation::Match));
    q.mode = ProxyMode::Smart;
    assert!(matches!(attest_effective_exit(&q, &direct, Some("a")), ExitAttestation::SilentDirect { .. }));
    q.reverse_region = true;
    q.region_rule_sets = Some(vec!["geosite-cn".to_string()]);
    assert!(matches!(attest_effective_exit(&q, &direct, Some("a")), ExitAttestation::Match));
    q.region_rule_sets = Some(vec!["gone".to_string()]);
    assert!(matches!(attest_effective_exit(&q, &direct, Some("a")), ExitAttestation::SilentDirect { .. }));
    q.falls_back_to_direct = true;
    assert!(matches!(attest_effective_exit(&q, &direct, Some("a")), ExitAttestation::Match));
}

#[test]
fn findings_are_said() {
    let mut rt = running();
    rt.attest_selected_exit(&ExitAttestation::Match);
    rt.warn_pruned_rule_resources(&vec![]);
    assert_eq!(rt.status.error, None);
    rt.attest_selected_exit(&ExitAttestation::SilentDirect { expected_tag: "jp".to_string() });
    assert_eq!(rt.status.error_code, Some(ErrorCode::ExitMismatch));
    rt.warn_pruned_rule_resources(&vec!["a".to_string(), "b".to_string()]);
    assert_eq!(
        rt.status.error.as_deref(),
        Some("规则资源 a、b 缺少本地副本，引用它们的分流规则本次已被跳过（分流将不完整）。请到「规则资源」页下载后重连恢复。")
    );
    assert_eq!(rt.status.error_code, Some(ErrorCode::RuleResourcesMissing));
}

#[test]
fn the_latest_request_is_worked_on_next() {
    let mut queue = ReconcileQueue::new();
    assert!(queue.enqueue((1, 1)));
    assert_eq!(queue.take_latest_or_finish(None), Some((1, 1)));
    assert!(!queue.enqueue((1, 2)));
    assert!(!queue.enqueue((1, 3)));
    assert_eq!(queue.take_latest_or_finish(Some((1, 1))), Some((1, 3)));
    assert_eq!(queue.take_latest_or_finish(Some((1, 3))), Some((1, 3)));
    assert_eq!(queue.take_latest_or_finish(None), None);
    assert!(queue.enqueue((2, 1)));
    assert!(!queue.enqueue((2, 2)));
    assert_eq!(queue.abort_active(), Some((2, 2)));
    assert!(queue.enqueue((2, 2)));
}

#[test]
fn every_warning_opens_with_the_same_words() {
    let jp = "jp".to_string();
    let exits = [
        ExitAttestation::SilentDirect { expected_tag: jp.clone() },
        ExitAttestation::WrongExit { expected_tag: jp.clone(), actual_tag: "hk".to_string() },
        ExitAttestation::StaleSelection { persisted: jp.clone(), started_with: "a".to_string() },
        ExitAttestation::UnknownSelection { selected_id: jp.clone() },
        ExitAttestation::UnresolvedExit { expected_tag: jp.clone() },
    ];
    for found in exits {
        assert!(found.user_message().starts_with("流量未按预期走选中节点"));
        assert!(found.user_message().contains("jp"));
    }
    assert_eq!(ExitAttestation::Match.user_message(), "");
    let selectors = [
        SelectorAttestation::NeverReasserted { selected_id: jp.clone() },
        SelectorAttestation::ReassertFailed { member_tag: jp.clone() },
        SelectorAttestation::GlobalDrift { want: jp.clone(), got: "hk".to_string(), rule_drifts: 0 },
        SelectorAttestation::RuleDrift {
            count: 1,
            sample_tag: jp.clone(),
            want: jp.clone(),
            got: "hk".to_string(),
        },
    ];
    for found in selectors {
        assert!(found.user_message().starts_with("未按设置走"));
        assert!(found.user_message().ends_with("请重新连接。"));
        assert!(found.user_message().contains("jp"));
    }
    assert_eq!(SelectorAttestation::Match.user_message(), "");
}

#[test]
fn a_pass_over_the_rules_that_is_overtaken_settles_nothing() {
    let two = || pairs(&[("custom:1", "b"), ("custom:9", "b")]);
    let applied_run = |rt: &mut ProxyRuntime| {
        let mut r = Reassert::begin(3, 8);
        assert!(matches!(r.round(rt, &wanted(Some("b"))), ReassertAction::Put { .. }));
        assert!(matches!(r.on_put(rt, true), (ReassertAction::Rules, None)));
        r
    };
    let mut rt = running();
    let r = applied_run(&mut rt);
    let mut pass = RulePass::begin(&rt, 3, 8, two());
    assert!(matches!(pass.next(&rt), RuleStep::Put { .. }));
    pass.on_put(&mut rt);
    rt.status.running = false;
    rt.switch_snapshot = None;
    rt.reconcile_required = true;
    assert!(matches!(pass.next(&rt), RuleStep::Abandon));
    let o = r.finish(pass);
    assert!(matches!(o.stage1, Stage1Outcome::Abandoned));
    assert!(o.rule_intents.is_empty());
    rt.reassert_settled(&o);
    assert!(rt.reconcile_required);

    let mut rt = running();
    let r = applied_run(&mut rt);
    let mut pass = RulePass::begin(&rt, 3, 8, two());
    assert!(matches!(pass.next(&rt), RuleStep::Put { .. }));
    rt.intent_generation = 9;
    pass.on_put(&mut rt);
    assert!(rt.reconcile_required);
    assert!(matches!(r.finish(pass).stage1, Stage1Outcome::Abandoned));

    let mut rt = running();
    let r = applied_run(&mut rt);
    rt.switch_snapshot = None;
    rt.status.running = false;
    let pass = RulePass::begin(&rt, 3, 8, two());
    assert_eq!(pass.state, PassState::Done);
    let o = r.finish(pass);
    assert!(matches!(&o.stage1, Stage1Outcome::Applied { member_tag } if member_tag == "us"));
    assert!(o.rule_intents.is_empty());
}

#[test]
fn the_mark_of_a_sign_in_moves_with_the_selector() {
    let login = |id: &str| WantedExit {
        target_id: Some(id.to_string()),
        is_direct: false,
        login_fallback: true,
    };
    let mut rt = running();
    let mut r = Reassert::begin(3, 8);
    assert!(matches!(r.round(&rt, &login("a")), ReassertAction::Put { .. }));
    assert!(matches!(r.on_put(&mut rt, false), (ReassertAction::Pause(300), None)));
    assert!(matches!(r.round(&rt, &login("b")), ReassertAction::Put { .. }));
    let (next, engaged) = r.on_put(&mut rt, true);
    assert!(matches!(next, ReassertAction::Rules));
    assert_eq!(engaged.as_deref(), Some("b"));
    assert!(matches!(&r.stage1, Stage1Outcome::Applied { member_tag } if member_tag == "direct"));
    let mut r = Reassert::begin(3, 8);
    assert!(matches!(r.round(&rt, &login("a")), ReassertAction::Put { .. }));
    assert!(matches!(r.on_put(&mut rt, false), (ReassertAction::Pause(300), None)));
    assert!(matches!(r.round(&rt, &wanted(Some("a"))), ReassertAction::Put { .. }));
    assert!(matches!(r.on_put(&mut rt, true), (ReassertAction::Rules, None)));
}

#[test]
fn a_newer_wish_is_numbered_on() {
    let mut rt = running();
    assert!(rt.selector_operation_is_current(3, 8));
    assert_eq!(rt.register_selector_intent(), 9);
    assert!(!rt.selector_operation_is_current(3, 8));
    assert!(rt.selector_operation_is_current(3, 9));
    rt.intent_generation = u64::MAX;
    assert_eq!(rt.register_selector_intent(), 0);
}
