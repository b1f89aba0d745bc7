use proxy_runtime::helper_gate::{
    claim_once, should_prompt_helper_upgrade, should_start_via_helper, HelperGateDecision,
    HelperGateNext, HelperStatusSnapshot,
};
use proxy_runtime::json::parse_json;
use proxy_runtime::platform::{
    core_platform_dirs, cronet_available, is_valid_srs_file, linux_ip_monitor_binary,
    own_lan_v4_addr_prefix, platform_tag, Platform,
};
use proxy_runtime::ports::{
    api_port_exclusions, drawn_port, probe_exclusions, split_probe_ports, subscription_exclusions,
    update_in_exclusions, ConfiguredPorts,
};
use proxy_runtime::protected_core::{
    protected_core_cache_hit, ProtectedCoreCache, ProtectedNext,
};
use proxy_runtime::ready::ReadyWait;
use proxy_runtime::recovery::ChildState;
use proxy_runtime::rule_files::{
    rule_file_needs_writing, rule_resource_dir, stale_rule_files, DrawnPorts, Machine, RaceServer,
};
use proxy_runtime::runtime::{join, ProxyRuntime};
use proxy_runtime::start_flow::{FixedMessages, ReadyOutcome};
use proxy_runtime::status::ErrorCode;

fn texts(v: &[&str]) -> Vec<String> {
    v.iter().map(|s| s.to_string()).collect()
}

fn messages() -> FixedMessages {
    FixedMessages {
        helper_not_installed: "not installed".to_string(),
        helper_gate_aborted: "aborted".to_string(),
        tun_adapter_missing: "no adapter".to_string(),
        tun_address_unavailable: "no address".to_string(),
    }
}

#[test]
fn platforms_have_their_names_and_directories() {
    assert_eq!(platform_tag("macos"), "darwin");
    assert_eq!(platform_tag("windows"), "win32");
    assert_eq!(platform_tag("linux"), "linux");
    assert_eq!(platform_tag("freebsd"), "freebsd");
    assert_eq!(core_platform_dirs("macos", "aarch64"), vec!["mac-arm64", "mac-x64"]);
    assert_eq!(core_platform_dirs("macos", "x86_64"), vec!["mac-x64", "mac-arm64"]);
    assert_eq!(core_platform_dirs("windows", "x86_64"), vec!["win"]);
    assert_eq!(core_platform_dirs("linux", "x86_64"), vec!["linux"]);
    assert_eq!(linux_ip_monitor_binary((true, true, true)), "/usr/sbin/ip");
    assert_eq!(linux_ip_monitor_binary((false, true, true)), "/sbin/ip");
    assert_eq!(linux_ip_monitor_binary((false, false, true)), "/usr/bin/ip");
    assert_eq!(linux_ip_monitor_binary((false, false, false)), "ip");
}

#[test]
fn an_address_is_written_with_its_prefix() {
    assert_eq!(
        own_lan_v4_addr_prefix(0xc0a8_0105, Some(24)),
        Some(("192.168.1.5".to_string(), 24))
    );
    assert_eq!(own_lan_v4_addr_prefix(0xc0a8_0105, None), None);
}

#[test]
fn files_are_recognised() {
    assert!(is_valid_srs_file(Some(*b"SRS")));
    assert!(!is_valid_srs_file(Some(*b"srs")));
    assert!(!is_valid_srs_file(None));
    assert!(cronet_available(true, "linux"));
    assert!(cronet_available(false, "darwin"));
    assert!(!cronet_available(false, "win32"));
}

#[test]
fn the_helper_is_asked_for_and_offered_once() {
    assert!(should_start_via_helper(true, Platform::Linux));
    assert!(!should_start_via_helper(true, Platform::Other));
    assert!(!should_start_via_helper(false, Platform::Mac));
    let old = HelperStatusSnapshot { installed: true, upgradeable: true };
    assert!(should_prompt_helper_upgrade(true, Platform::Mac, &old));
    assert!(!should_prompt_helper_upgrade(false, Platform::Mac, &old));
    let mut flag = false;
    assert!(claim_once(&mut flag));
    assert!(!claim_once(&mut flag));
    let mut rt = ProxyRuntime::new("/d".to_string(), '/');
    let m = messages();
    assert!(matches!(
        rt.run_helper_gate(true, Platform::Mac, &old, false, true, &m),
        HelperGateNext::Pass
    ));
    assert!(matches!(
        rt.run_helper_gate(true, Platform::Mac, &old, true, true, &m),
        HelperGateNext::PromptUpgrade
    ));
    assert!(matches!(
        rt.run_helper_gate(true, Platform::Mac, &old, true, true, &m),
        HelperGateNext::Pass
    ));
}

#[test]
fn a_start_without_the_helper_is_refused() {
    let none = HelperStatusSnapshot { installed: false, upgradeable: false };
    let m = messages();
    let mut rt = ProxyRuntime::new("/d".to_string(), '/');
    assert!(ProxyRuntime::tun_helper_missing(true, Platform::Win, false));
    assert!(!ProxyRuntime::tun_helper_missing(true, Platform::Win, true));
    assert!(matches!(
        rt.run_helper_gate(false, Platform::Mac, &none, true, true, &m),
        HelperGateNext::Pass
    ));
    assert!(matches!(
        rt.run_helper_gate(true, Platform::Mac, &none, true, true, &m),
        HelperGateNext::PromptInstall
    ));
    match rt.run_helper_gate(true, Platform::Mac, &none, false, true, &m) {
        HelperGateNext::Refuse(e) => {
            assert_eq!(e.message, "not installed");
            assert_eq!(e.code, Some(ErrorCode::HelperNotInstalled));
        }
        _ => panic!("not refused"),
    }
    assert_eq!(rt.status.error.as_deref(), Some("not installed"));
    assert_eq!(HelperGateDecision::default(), HelperGateDecision::Abort);
    match rt.helper_gate_answered(HelperGateDecision::Abort, false, &m) {
        HelperGateNext::Refuse(e) => assert_eq!(e.code, Some(ErrorCode::HelperGateAborted)),
        _ => panic!("not refused"),
    }
    match rt.helper_gate_answered(HelperGateDecision::Proceed, true, &m) {
        HelperGateNext::Refuse(e) => assert_eq!(e.code, Some(ErrorCode::HelperNotInstalled)),
        _ => panic!("not refused"),
    }
    assert!(matches!(
        rt.helper_gate_answered(HelperGateDecision::Proceed, false, &m),
        HelperGateNext::Pass
    ));
}

#[test]
fn no_port_is_drawn_twice() {
    let c = ConfiguredPorts { control: 9090, http: Some(8080), mixed: None };
    let api = api_port_exclusions(&c);
    assert_eq!(api.excluded, vec![9090, 8080]);
    assert_eq!(api.fallback, None);
    let update = update_in_exclusions(&c, 4000);
    assert_eq!(update.excluded, vec![9090, 8080, 4000]);
    assert_eq!(update.fallback, Some(9093));
    let sub = subscription_exclusions(&c, 4000, 4001);
    assert!(sub.excluded.contains(&4001) && sub.excluded.contains(&4000));
    assert_eq!(sub.fallback, Some(9094));
    let probe = probe_exclusions(&c, 4000, 4001, 4002);
    for p in [9090, 8080, 4000, 4001, 4002] {
        assert!(probe.excluded.contains(&p));
    }
    let high = ConfiguredPorts { control: u16::MAX, http: None, mixed: Some(7890) };
    assert_eq!(update_in_exclusions(&high, 1).fallback, Some(2));
    assert_eq!(split_probe_ports(vec![1, 2, 3]), (Some(1), vec![2, 3]));
    assert_eq!(split_probe_ports(vec![]), (None, vec![]));
    assert_eq!(drawn_port(0), None);
    assert_eq!(drawn_port(7), Some(7));
}

#[test]
fn the_protected_copy_is_compared_once_per_pair_of_stamps() {
    let mut c = ProtectedCoreCache { record: None };
    assert_eq!(c.begin(false, "a", Some("p")), ProtectedNext::Skip);
    assert_eq!(c.begin(true, "a", Some("p")), ProtectedNext::Compare);
    assert_eq!(ProtectedCoreCache::compared(true, 3), ProtectedNext::Confirm);
    assert_eq!(ProtectedCoreCache::compared(false, 3), ProtectedNext::Promote);
    assert_eq!(ProtectedCoreCache::compared(false, 0), ProtectedNext::NothingToPromote);
    c.confirmed("a", Some("p"), "a2", "p");
    assert!(!protected_core_cache_hit(&c, "a2", Some("p")));
    c.confirmed("a", Some("p"), "a", "p");
    assert!(protected_core_cache_hit(&c, "a", Some("p")));
    assert!(!protected_core_cache_hit(&c, "a", None));
    assert_eq!(c.begin(true, "a", Some("p")), ProtectedNext::Cached);
    assert_eq!(c.begin(true, "a", Some("p2")), ProtectedNext::Compare);
    assert!(c.record.is_none());
}

#[test]
fn a_wait_for_the_core_looks_at_one_process() {
    let mut rt = ProxyRuntime::new("/d".to_string(), '/');
    rt.pid = Some(7);
    rt.generation = 2;
    let mut w = ReadyWait::begin(&rt, 2);
    assert_eq!(w.helper_pid, None);
    assert!(w.probed(false, ChildState::Running, 5));
    assert!(!w.probed(true, ChildState::Ended, 6));
    assert!(!w.probed(true, ChildState::Missing, 0));
    assert_eq!((w.alive_probes, w.alive_probe_us), (3, 11));
    w.polled();
    w.retried();
    assert!(!w.superseded(&rt));
    rt.generation = 3;
    assert!(w.superseded(&rt));
    assert_eq!(w.finish(ReadyOutcome::Ready), Some(1));
    rt.core_via_helper = true;
    let mut w = ReadyWait::begin(&rt, 3);
    assert_eq!(w.helper_pid, Some(7));
    rt.pid = None;
    assert!(w.probed(true, ChildState::Missing, 0));
    assert!(!w.probed(false, ChildState::Running, 0));
    assert_eq!(w.finish(ReadyOutcome::Dead), None);
}

#[test]
fn rule_files_are_written_and_removed() {
    assert!(rule_file_needs_writing(None, "x"));
    assert!(rule_file_needs_writing(Some("y"), "x"));
    assert!(!rule_file_needs_writing(Some("x"), "x"));
    assert_eq!(
        stale_rule_files(
            &texts(&["a.json", "b.json", "notes.txt"]),
            &vec![true, true, false],
            &texts(&["b.json"])
        ),
        texts(&["a.json"])
    );
    let mut rt = ProxyRuntime::new("/d".to_string(), '/');
    rt.rule_files_failed();
    assert!(rt.custom_rule_files_degraded());
    rt.rule_files_begin();
    assert!(!rt.custom_rule_files_degraded());
}

#[test]
fn paths_are_joined() {
    assert_eq!(join('/', "/data", "x"), "/data/x");
    assert_eq!(join('/', "/data/", "x"), "/data/x");
    assert_eq!(join('/', "/", "x"), "/x");
    assert_eq!(join('/', "", "x"), "x");
    assert_eq!(join('/', "/data\\", "x"), "/data\\/x");
    assert_eq!(join('\\', "C:\\data", "x"), "C:\\data\\x");
    assert_eq!(join('\\', "C:\\data\\", "x"), "C:\\data\\x");
    assert_eq!(join('\\', "C:/data/", "x"), "C:/data/x");
    assert_eq!(join('\\', "", "x"), "x");
    assert_eq!(rule_resource_dir('/', "/data"), "/data/rule-resource");
    assert_eq!(rule_resource_dir('\\', "C:\\data"), "C:\\data\\rule-resource");
    let windows = ProxyRuntime::new("C:\\data".to_string(), '\\');
    assert_eq!(windows.runtime_config_path(), "C:\\data\\singbox-runtime.json");
    let rt = ProxyRuntime::new("/data".to_string(), '/');
    assert_eq!(rt.runtime_config_path(), "/data/singbox-runtime.json");
    assert_eq!(rt.custom_rules_dir(), "/data/custom-rules");
}

#[test]
fn a_configuration_is_generated_for_its_machine() {
    let rt = ProxyRuntime::new("/data".to_string(), '/');
    let config = parse_json(r#"{"logLevel": "debug", "disableLogFile": true}"#).unwrap();
    let d = rt.generate_deps(
        Machine {
            os: "macos".to_string(),
            arch: "aarch64".to_string(),
            cronet_lib_exists: false,
            own_lan_cidrs: texts(&["192.168.1.0/24"]),
            dashboard_serve_dir: None,
        },
        RaceServer {
            port: Some(4005),
            upstream_ips: texts(&["1.1.1.1"]),
            upstream_ports: vec![53],
        },
        DrawnPorts {
            api_port: 4000,
            update_in_port: 4001,
            subscription_update_in_port: 0,
            probe_proxy_port: Some(4003),
            pool_ports: vec![4004],
        },
        true,
        &config,
    );
    assert_eq!(d.platform, "darwin");
    assert!(d.has_cronet && d.has_management_api && d.privacy_mode && d.disable_log_file);
    assert!(!d.cronet_copy_failed);
    assert_eq!(d.log_level.as_deref(), Some("debug"));
    assert_eq!(d.update_in_port, Some(4001));
    assert_eq!(d.subscription_update_in_port, None);
    assert_eq!(d.probe_proxy_port, Some(4003));
    assert_eq!(d.probe_direct_port, None);
    assert_eq!(d.tailscale_api_port, 4000);
    assert_eq!(d.cache_path, "/data/cache.db");
    assert_eq!(d.runtime_rules_dir, "/data/rules");
    assert_eq!(d.tailscale_state_dir_prefix, "/data/tailscale");
    assert_eq!(d.race_upstream_ports, vec![53]);
    assert_eq!(d.probe_pool_ports, vec![4004]);
}
