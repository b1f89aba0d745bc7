use proxy_runtime::json::{parse_json, Json};
use proxy_runtime::lifecycle::{StartEntry, StopNext, StopPoint};
use proxy_runtime::pending::{deferred_deletion_step, DeferredDeletion, DeletionStep};
use proxy_runtime::runtime::{LifecycleEnd, ProxyModeType, ProxyRuntime, SwitchSnapshot};
use proxy_runtime::status::{ErrorCode, ProxyLifecycleEvent, ProxyStatus, StartError};

fn json(t: &str) -> Json {
    parse_json(t).unwrap()
}

fn pairs(v: &[(&str, &str)]) -> Vec<(String, String)> {
    v.iter().map(|(a, b)| (a.to_string(), b.to_string())).collect()
}

fn runtime() -> ProxyRuntime {
    ProxyRuntime::new("/data".to_string(), '/')
}

#[test]
fn the_status_counts_the_time_since_the_start() {
    let mut rt = runtime();
    assert!(!rt.core_running());
    let s = rt.status(10);
    assert_eq!((s.running, s.starting, s.uptime), (false, false, None));
    rt.status.running = true;
    rt.status.start_time = Some(1_000);
    assert_eq!(rt.status(4_500).uptime, Some(3));
    assert_eq!(rt.status(500).uptime, Some(0));
    rt.begin_start();
    assert!(rt.status(0).starting);
    assert!(rt.tailscale_writer_alive());
}

#[test]
fn an_error_ends_the_session_and_a_warning_does_not() {
    let mut rt = runtime();
    rt.status.running = true;
    rt.set_nonfatal_error("w", ErrorCode::ExitMismatch);
    assert!(rt.status.running);
    rt.clear_nonfatal_error_if(ErrorCode::TunAdapterMissing);
    assert_eq!(rt.status.error.as_deref(), Some("w"));
    rt.clear_nonfatal_error_if(ErrorCode::ExitMismatch);
    assert_eq!(rt.status.error, None);
    rt.set_error("e", ErrorCode::ProcessExited);
    assert!(!rt.status.running);
    assert_eq!(rt.status.error_code, Some(ErrorCode::ProcessExited));
}

#[test]
fn a_newer_operation_supersedes_an_older_one() {
    let mut rt = runtime();
    let first = rt.begin_start();
    assert_eq!(first, 1);
    assert_eq!(rt.start_admitted(first, false), StartEntry::Proceed { sweep: true });
    assert_eq!(rt.start_admitted(first, true), StartEntry::Proceed { sweep: false });
    let second = rt.bump_generation();
    assert_eq!(rt.start_admitted(first, false), StartEntry::Yield);
    assert!(rt.stop_superseded(first));
    assert!(!rt.stop_superseded(second));
    assert_eq!(rt.core_generation(), second);
}

#[test]
fn the_end_of_a_start_is_announced() {
    let mut rt = runtime();
    let g = rt.begin_start();
    let mut up = ProxyStatus::default();
    up.running = true;
    let r = rt.settle_start(g, &Ok(up.clone()));
    assert!(r.push_pending_changes);
    assert!(!rt.failed_start_cleans_up(g, &Ok(up.clone())));
    assert_eq!(r.event.unwrap().phase, ProxyLifecycleEvent::ready().phase);
    assert_eq!(rt.start_inflight, 0);
    let g = rt.begin_start();
    rt.bump_generation();
    let r = rt.settle_start(g, &Ok(up));
    assert!(!r.push_pending_changes && r.event.is_none());
    let g = rt.begin_start();
    let e = StartError::coded("boom".to_string(), ErrorCode::StartupFailed);
    let failed = Err(e);
    assert!(rt.failed_start_cleans_up(g, &failed));
    assert!(!rt.failed_start_cleans_up(g - 1, &failed));
    let r = rt.settle_start(g, &failed);
    let event = r.event.unwrap();
    assert_eq!(event.error_code, Some(ErrorCode::StartupFailed));
    assert_eq!(event.message.as_deref(), Some("boom"));
    assert_eq!(ProxyLifecycleEvent::stopped().error_code, None);
}

#[test]
fn a_stop_clears_the_session_only_while_it_is_current() {
    let mut rt = runtime();
    rt.status.running = true;
    rt.startup_snapshot = Some(json("{}"));
    rt.restart_deferred = true;
    let g = rt.bump_generation();
    assert!(matches!(rt.stop_step(g, StopPoint::GateHeld, Ok(())).next, StopNext::KillCore));
    let s = rt.stop_step(g, StopPoint::CoreKilled, Err("stuck".to_string()));
    assert!(!s.release_tailscale_states);
    assert!(matches!(s.next, StopNext::Fail(e) if e == "stuck"));
    let s = rt.stop_step(g, StopPoint::CoreKilled, Ok(()));
    assert!(s.release_tailscale_states);
    assert!(matches!(s.next, StopNext::ClearRoutes));
    assert!(matches!(rt.stop_step(g, StopPoint::RoutesCleared, Ok(())).next, StopNext::ResetSession));
    rt.bump_generation();
    assert!(matches!(rt.stop_step(g, StopPoint::DnsRestored, Ok(())).next, StopNext::Yield));
    assert!(rt.status.running && rt.startup_snapshot.is_some());
    let g = rt.core_generation();
    assert!(matches!(rt.stop_step(g, StopPoint::DnsRestored, Ok(())).next, StopNext::Done));
    assert!(!rt.status.running && rt.startup_snapshot.is_none() && !rt.restart_deferred);
    let saved = json("{\"servers\": [{\"id\": \"a\"}]}");
    let changes = rt.pending_changes(Some(&saved), &pairs(&[("a", "1")]));
    assert!(changes.added.is_empty() && changes.modified.is_empty() && changes.removed.is_empty());
    assert!(!changes.restart_deferred);
}

#[test]
fn a_restart_cleans_up_between_its_halves() {
    let r = ProxyRuntime::restart_cleanup(true, true, Some(true), Some(true));
    assert!(r.clear_system_proxy && r.wait_for_route);
    let r = ProxyRuntime::restart_cleanup(true, false, Some(true), Some(false));
    assert!(!r.clear_system_proxy && !r.wait_for_route);
    let r = ProxyRuntime::restart_cleanup(false, true, Some(true), Some(true));
    assert!(!r.clear_system_proxy && !r.wait_for_route);
}

#[test]
fn a_restart_starts_what_it_was_asked_for() {
    let mut rt = runtime();
    rt.status.running = true;
    let r = rt.apply_pending(None, false);
    assert_eq!(r.answer, "skipped");
    assert!(!r.process_deletions);
    let r = rt.apply_pending(Some(json("{\"selectedServerId\": \"a\"}")), false);
    assert_eq!(r.answer, "applied");
    assert!(r.schedule_restart);
    let id = r.force_restart_id;
    assert_eq!(id, Some(1));
    assert!(rt.take_force_restart_config(Some(9)).is_none());
    let c = rt.restart_config(id, None).unwrap();
    assert_eq!(c.text_at("selectedServerId").unwrap(), "a");
    assert!(rt.take_force_restart_config(id).is_none());
    let c = rt.restart_config(None, Some(json("{\"selectedServerId\": \"b\"}"))).unwrap();
    assert_eq!(c.text_at("selectedServerId").unwrap(), "b");
    let r = rt.apply_pending(Some(json("{}")), true);
    assert_eq!(r.answer, "deferred");
    assert!(r.mark_restart_pending && !r.schedule_restart);
    rt.status.running = false;
    let r = rt.apply_pending(Some(json("{}")), false);
    assert_eq!(r.answer, "skipped");
    assert!(r.process_deletions);
}

#[test]
fn the_end_of_an_operation_replays_what_waited() {
    let mut rt = runtime();
    rt.pending_switch = Some((4, json("{\"selectedServerId\": \"x\"}"), true));
    let r = rt.finish_lifecycle(LifecycleEnd::StillBusy);
    assert!(!r.schedule_restart && r.replay.is_none());
    let r = rt.finish_lifecycle(LifecycleEnd::Drained {
        schedule_restart: true,
        replay_switch_id: Some(4),
    });
    assert!(r.schedule_restart);
    let (config, defer) = r.replay.unwrap();
    assert_eq!(config.text_at("selectedServerId").unwrap(), "x");
    assert!(defer);
    assert!(rt.take_pending_switch(Some(4)).is_none());
}

#[test]
fn saved_changes_are_summed_up() {
    let mut rt = runtime();
    let now = json("{\"servers\": [{\"id\": \"c\"}, {\"id\": \"b\"}, {\"id\": \"a\"}]}");
    let s = rt.pending_changes(Some(&now), &vec![]);
    assert!(s.added.is_empty() && s.removed.is_empty() && !s.restart_deferred);
    rt.startup_snapshot = Some(json("{\"servers\": [{\"id\": \"d\"}, {\"id\": \"b\"}, {\"id\": \"a\"}]}"));
    rt.restart_deferred = true;
    rt.switch_snapshot = Some(SwitchSnapshot {
        id_to_tag: vec![],
        rule_target: vec![],
        fingerprints: pairs(&[("a", "1"), ("b", "1"), ("d", "1")]),
        dirty_fingerprints: vec![],
        probe_pool_ports: vec![],
    });
    let s = rt.pending_changes(Some(&now), &pairs(&[("a", "1"), ("b", "2"), ("c", "1")]));
    assert_eq!(s.added, vec!["c"]);
    assert_eq!(s.modified, vec!["b"]);
    assert_eq!(s.removed, vec!["d"]);
    assert!(s.restart_deferred);
    let s = rt.pending_changes(None, &pairs(&[("a", "1"), ("b", "1"), ("d", "1")]));
    assert!(s.added.is_empty() && s.modified.is_empty() && s.removed.is_empty());
}

#[test]
fn deletions_that_waited_are_settled() {
    let step = deferred_deletion_step;
    assert_eq!(step(&DeferredDeletion::RuleResource { referenced: true }), DeletionStep::Settled);
    assert_eq!(step(&DeferredDeletion::RuleResource { referenced: false }), DeletionStep::Delete);
    assert_eq!(step(&DeferredDeletion::TailscaleState { failure: None }), DeletionStep::Settled);
    assert_eq!(step(&DeferredDeletion::TailscaleState { failure: Some(true) }), DeletionStep::Settled);
    assert_eq!(step(&DeferredDeletion::TailscaleState { failure: Some(false) }), DeletionStep::Retry);
    assert_eq!(step(&DeferredDeletion::Other), DeletionStep::Delete);
}

#[test]
fn snapshots_and_counters_are_handed_out() {
    let mut rt = runtime();
    assert!(rt.running_config_snapshot().is_none());
    rt.current_config = Some(json("{\"selectedServerId\": \"n\"}"));
    assert_eq!(rt.selected_server_id().as_deref(), Some("n"));
    rt.set_auto_restart_suppressed(true);
    assert!(rt.auto_restart_suppressed);
    assert_eq!(rt.diagnostic_counters(3).restart_count, 3);
}

#[test]
fn the_mode_of_the_running_core_is_that_of_its_start() {
    let mut rt = runtime();
    assert_eq!(rt.running_proxy_mode_type(Some(ProxyModeType::Tun)), None);
    rt.startup_snapshot = Some(json("{}"));
    assert_eq!(rt.running_proxy_mode_type(Some(ProxyModeType::Tun)), None);
    rt.status.running = true;
    let modes = [ProxyModeType::Tun, ProxyModeType::SystemProxy, ProxyModeType::Manual];
    for mode in modes {
        assert_eq!(rt.running_proxy_mode_type(Some(mode)), Some(mode));
    }
    assert_eq!(rt.running_proxy_mode_type(None), None);
    rt.startup_snapshot = None;
    assert_eq!(rt.running_proxy_mode_type(Some(ProxyModeType::SystemProxy)), None);
}

#[test]
fn an_unreadable_configuration_has_no_changes() {
    let mut rt = runtime();
    rt.status.running = true;
    rt.startup_snapshot = Some(json("{\"servers\": [{\"id\": \"a\"}]}"));
    rt.restart_deferred = true;
    let r = rt.pending_changes(None, &pairs(&[("a", "another")]));
    assert!(r.added.is_empty() && r.modified.is_empty() && r.removed.is_empty());
    assert!(r.restart_deferred);
}
