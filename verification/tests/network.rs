use proxy_runtime::network::{
    flush_replied, network_watcher_restart_delay, next_failure_count, watch_source, BindingNeeds,
    BindingState, ChangeWindow, FlushNext, FlushOutcome, FlushReply, InterfacesSeen,
    NetworkChangeNext, NetworkSettleGate, SubscriptionEnd, WatchEnd, WatchSource,
};
use proxy_runtime::platform::Platform;
use proxy_runtime::runtime::ProxyRuntime;
use proxy_runtime::status::ErrorCode;

fn runtime() -> ProxyRuntime {
    ProxyRuntime::new("/data".to_string(), '/')
}

fn seen(missing: &[&str]) -> Option<InterfacesSeen> {
    Some(InterfacesSeen {
        fingerprint: "now".to_string(),
        unavailable: missing.iter().map(|s| s.to_string()).collect(),
        diagnostic: "missing".to_string(),
    })
}

fn needs(is_tun: bool, inferred: bool) -> Option<BindingNeeds> {
    Some(BindingNeeds { is_tun, has_inferred_bindings: inferred })
}

fn state(missing: &[&str]) -> BindingState {
    BindingState {
        fingerprint: None,
        unavailable: missing.iter().map(|s| s.to_string()).collect(),
    }
}

#[test]
fn the_watcher_waits_longer_after_each_failure() {
    let delays: Vec<u64> = (0..8).map(network_watcher_restart_delay).collect();
    assert_eq!(delays, vec![1, 1, 2, 4, 8, 16, 30, 30]);
    assert_eq!(network_watcher_restart_delay(u32::MAX), 30);
    assert_eq!(next_failure_count(4, 59_999), 5);
    assert_eq!(next_failure_count(4, 60_000), 1);
    assert_eq!(next_failure_count(u32::MAX, 0), u32::MAX);
}

#[test]
fn the_watch_command_and_its_ends() {
    let WatchSource::Command(c) = watch_source(Platform::Linux, "/sbin/ip") else {
        panic!("a command watches");
    };
    assert_eq!(c.program, "/sbin/ip");
    assert_eq!(c.args, vec!["monitor", "link", "address", "route", "label"]);
    assert_eq!(
        c.end_message(&WatchEnd::SpawnFailed("no".to_string())),
        "起 `/sbin/ip monitor link address route label` 失败：no"
    );
    let WatchSource::Command(c) = watch_source(Platform::Mac, "ip") else {
        panic!("a command watches");
    };
    assert_eq!(c.program, "route");
    assert_eq!(c.args, vec!["-n", "monitor"]);
    assert_eq!(c.end_message(&WatchEnd::NoOutput), "`route` 未提供 stdout");
    assert_eq!(
        c.end_message(&WatchEnd::OutputEnded("None".to_string())),
        "`route` 输出流 EOF（status=None）"
    );
    assert_eq!(
        c.end_message(&WatchEnd::ReadFailed("x".to_string())),
        "读取 `route` 事件流失败：x"
    );
}

#[test]
fn a_change_waits_until_none_has_followed() {
    let mut w = ChangeWindow::new();
    w.observed(1000, false);
    assert_eq!(w.deadline, None);
    w.observed(1000, true);
    assert_eq!(w.deadline, Some(2500));
    w.observed(2000, true);
    assert_eq!(w.deadline, Some(3500));
    w.observed(2100, false);
    assert_eq!(w.deadline, Some(3500));
    w.elapsed();
    assert_eq!(w.deadline, None);
}

#[test]
fn a_missing_interface_is_said_and_its_return_restarts_once() {
    let mut rt = runtime();
    let mut st = state(&[]);
    let r = rt.handle_network_change(&mut st, needs(true, true), seen(&["en7"]), true);
    assert_eq!(r, NetworkChangeNext::ScheduleRefresh);
    assert_eq!(rt.status.error.as_deref(), Some("missing"));
    assert_eq!(rt.status.error_code, Some(ErrorCode::OutboundInterfaceUnavailable));
    assert_eq!(st.unavailable, vec!["en7"]);
    let r = rt.handle_network_change(&mut st, needs(true, true), seen(&[]), false);
    assert_eq!(r, NetworkChangeNext::ScheduleRestart);
    assert_eq!(rt.status.error, None);
    assert_eq!(rt.status.error_code, None);
    let r = rt.handle_network_change(&mut st, needs(true, true), seen(&[]), false);
    assert_eq!(r, NetworkChangeNext::ScheduleRefresh);
    assert_eq!(st.fingerprint.as_deref(), Some("now"));
}

#[test]
fn inferred_bindings_count_for_a_core_that_takes_all_traffic() {
    let mut rt = runtime();
    let mut st = state(&[]);
    for (n, changed, next) in [
        (needs(true, true), true, NetworkChangeNext::ScheduleRestart),
        (needs(true, true), false, NetworkChangeNext::ScheduleRefresh),
        (needs(false, true), true, NetworkChangeNext::ScheduleRefresh),
        (needs(true, false), true, NetworkChangeNext::ScheduleRefresh),
        (None, true, NetworkChangeNext::ScheduleRefresh),
    ] {
        assert_eq!(rt.handle_network_change(&mut st, n, seen(&[]), changed), next);
    }
}

#[test]
fn what_cannot_be_looked_at_stays_as_it_was() {
    let mut rt = runtime();
    let mut st = state(&["en7"]);
    let r = rt.handle_network_change(&mut st, needs(true, true), None, true);
    assert_eq!(r, NetworkChangeNext::ScheduleRefresh);
    assert_eq!(st.unavailable, vec!["en7"]);
    assert_eq!(st.fingerprint, None);
    assert_eq!(rt.status.error, None);
}

#[test]
fn another_message_is_not_taken_back() {
    let mut rt = runtime();
    rt.set_nonfatal_error("other", ErrorCode::ExitMismatch);
    let mut st = state(&["en7"]);
    let r = rt.handle_network_change(&mut st, needs(false, false), seen(&[]), false);
    assert_eq!(r, NetworkChangeNext::ScheduleRestart);
    assert_eq!(rt.status.error.as_deref(), Some("other"));
}

#[test]
fn the_last_to_end_wakes_those_who_wait() {
    let mut g = NetworkSettleGate::new();
    assert!(g.is_settled());
    g.begin();
    g.begin();
    assert_eq!(g.pending(), 2);
    assert!(!g.end());
    assert!(!g.is_settled());
    assert!(g.end());
    assert!(g.is_settled());
}

#[test]
fn connections_are_closed_for_the_own_running_core_only() {
    let mut rt = runtime();
    rt.generation = 5;
    assert!(matches!(rt.flush_admitted(false, 5), FlushNext::End(FlushOutcome::SkippedNotTun)));
    assert!(matches!(rt.flush_admitted(true, 4), FlushNext::End(FlushOutcome::SkippedSuperseded)));
    assert!(matches!(rt.flush_admitted(true, 5), FlushNext::End(FlushOutcome::SkippedCoreStopped)));
    rt.status.running = true;
    assert!(matches!(rt.flush_admitted(true, 5), FlushNext::Connect));
    assert!(matches!(rt.flush_connected(5, Ok(())), FlushNext::Close));
    assert!(matches!(
        rt.flush_connected(4, Ok(())),
        FlushNext::End(FlushOutcome::SkippedSuperseded)
    ));
    assert!(matches!(
        rt.flush_connected(5, Err("refused".to_string())),
        FlushNext::End(FlushOutcome::ConnectFailed(e)) if e == "refused"
    ));
    assert!(matches!(
        flush_replied(FlushReply::Closed { closed: 3, failed: 1 }),
        FlushOutcome::Flushed { closed: 3, failed: 1 }
    ));
    assert!(matches!(flush_replied(FlushReply::SnapshotTimeout), FlushOutcome::SnapshotTimeout));
    assert!(matches!(
        flush_replied(FlushReply::Failed("x".to_string())),
        FlushOutcome::CallFailed(e) if e == "x"
    ));
}

#[test]
fn where_no_command_tells_of_changes() {
    assert!(matches!(watch_source(Platform::Win, "ip"), WatchSource::Subscription));
    assert!(matches!(watch_source(Platform::Other, "ip"), WatchSource::Nowhere));
    assert_eq!(
        SubscriptionEnd::NotSubscribed("87".to_string()).message(),
        "订阅 Windows 接口/路由变化失败：87"
    );
    assert_eq!(SubscriptionEnd::Closed.message(), "Windows IP 接口事件流已关闭");
}
