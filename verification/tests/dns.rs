use proxy_runtime::dns::{
    dns_restored, dns_takeover_enabled, system_dns_takeover_active, DnsOperation,
};
use proxy_runtime::json::parse_json;
use proxy_runtime::platform::Platform;
use proxy_runtime::runtime::ProxyRuntime;
use proxy_runtime::status::ErrorCode;

fn runtime() -> ProxyRuntime {
    ProxyRuntime::new("/data".to_string(), '/')
}

#[test]
fn the_choice_about_name_resolution_is_read() {
    let choice = |t: &str| dns_takeover_enabled(&parse_json(t).unwrap());
    assert_eq!(choice(r#"{"dnsConfig": {"takeoverSystemDns": true}}"#), Some(true));
    assert_eq!(choice(r#"{"dnsConfig": {"takeoverSystemDns": false}}"#), Some(false));
    assert_eq!(choice(r#"{"dnsConfig": {"takeoverSystemDns": "yes"}}"#), None);
    assert_eq!(choice(r#"{"dnsConfig": {}}"#), None);
    assert_eq!(choice("{}"), None);
}

#[test]
fn settings_are_taken_over_on_one_platform_unless_declined() {
    assert!(system_dns_takeover_active(Platform::Mac, true, None));
    assert!(system_dns_takeover_active(Platform::Mac, true, Some(true)));
    assert!(!system_dns_takeover_active(Platform::Mac, true, Some(false)));
    assert!(!system_dns_takeover_active(Platform::Mac, false, None));
    assert!(!system_dns_takeover_active(Platform::Linux, true, None));
}

#[test]
fn a_takeover_that_failed_is_said() {
    let mut rt = runtime();
    assert!(rt.dns_taken_over(&DnsOperation::ServiceDone));
    assert!(rt.dns_taken_over(&DnsOperation::Settings { has_marker: true }));
    assert!(!rt.dns_taken_over(&DnsOperation::Settings { has_marker: false }));
    assert!(!rt.dns_taken_over(&DnsOperation::SettingsBroken));
    assert_eq!(rt.status.error, None);
    assert!(!rt.dns_taken_over(&DnsOperation::ServiceFailed("e1".to_string())));
    assert_eq!(rt.status.error.as_deref(), Some("Linux 系统 DNS 接管失败：e1"));
    assert_eq!(rt.status.error_code, Some(ErrorCode::SystemDnsTakeoverFailed));
    assert!(!rt.dns_taken_over(&DnsOperation::ServiceBroken("e2".to_string())));
    assert_eq!(rt.status.error.as_deref(), Some("Linux DNS 控制器锁中毒：e2"));
}

#[test]
fn a_takeover_is_repeated_where_it_is_due() {
    let mut rt = runtime();
    assert!(!rt.dns_reconciled(false, &DnsOperation::ServiceFailed("e".to_string())));
    assert_eq!(rt.status.error, None);
    assert!(rt.dns_reconciled(true, &DnsOperation::Settings { has_marker: false }));
    assert!(rt.dns_reconciled(true, &DnsOperation::ServiceDone));
    assert!(!rt.dns_reconciled(true, &DnsOperation::ServiceBroken("e".to_string())));
    assert!(!rt.dns_reconciled(true, &DnsOperation::SettingsBroken));
    assert_eq!(rt.status.error, None);
    assert!(!rt.dns_reconciled(true, &DnsOperation::ServiceFailed("e".to_string())));
    assert_eq!(rt.status.error.as_deref(), Some("Linux 系统 DNS 热切换重放失败：e"));
}

#[test]
fn name_resolution_is_given_back_when_no_mark_is_left() {
    assert!(dns_restored(&DnsOperation::ServiceDone));
    assert!(dns_restored(&DnsOperation::Settings { has_marker: false }));
    assert!(!dns_restored(&DnsOperation::Settings { has_marker: true }));
    assert!(!dns_restored(&DnsOperation::ServiceFailed("e".to_string())));
    assert!(!dns_restored(&DnsOperation::ServiceBroken("e".to_string())));
    assert!(!dns_restored(&DnsOperation::SettingsBroken));
}

#[test]
fn names_that_were_not_forgotten_are_said_on_one_platform() {
    let mut rt = runtime();
    rt.dns_cache_flushed(Platform::Mac, false);
    rt.dns_cache_flushed(Platform::Linux, true);
    assert_eq!(rt.status.error, None);
    rt.dns_cache_flushed(Platform::Linux, false);
    assert_eq!(
        rt.status.error.as_deref(),
        Some("Linux 系统 DNS 缓存刷新失败；旧的失败缓存可能继续影响域名解析")
    );
}
