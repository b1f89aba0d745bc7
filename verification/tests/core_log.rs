use proxy_runtime::core_log::{
    classify_core_fatal_line, config_log, core_log_admits, core_log_level, core_log_privacy_floor,
    log_axes_from_config, log_file_disabled, observe_core_fatal, pipe_line, scan_core_fatal,
    settle_start_failure, singbox_line_level, startup_log_cursor, startup_log_read_start,
    startup_log_scan_start,
    strip_ansi, strip_core_log_decoration, strip_level_prefix, trim_line_end, ConfigLogLevel,
    CoreFatalKind, CoreLogLine, Level, LevelFilter, LogRelay, RelayRound, StartupLogCursor,
};
use proxy_runtime::json::Json;
use proxy_runtime::status::ErrorCode;

fn line(level: i32, message: &str) -> CoreLogLine {
    CoreLogLine { level, message: message.to_string() }
}

fn object(fields: Vec<(&str, Json)>) -> Json {
    Json::Object(fields.into_iter().map(|(k, v)| (k.to_string(), v)).collect())
}

#[test]
fn decoration_is_removed_from_a_coloured_line() {
    assert_eq!(
        strip_core_log_decoration("\x1b[36mINFO\x1b[0m[0012] router: loaded 5 rules"),
        "router: loaded 5 rules"
    );
}

#[test]
fn escape_sequences_are_removed() {
    assert_eq!(strip_ansi("plain"), "plain");
    assert_eq!(strip_ansi("a\x1b[1;31mb\x1b[0mc"), "abc");
    assert_eq!(strip_ansi("a\x1bb"), "ab");
    assert_eq!(strip_ansi("a\x1b[12"), "a");
    assert_eq!(strip_ansi("a\x1b[\u{7e}b"), "ab");
    let once = strip_ansi("x\x1b[2Ky\x1b\x1b[mz");
    assert!(!once.contains('\x1b'));
    assert_eq!(strip_ansi(&once), once);
}

#[test]
fn only_a_level_with_a_counter_is_a_prefix() {
    assert_eq!(strip_level_prefix("WARN[0001] dns: slow"), "dns: slow");
    assert_eq!(strip_level_prefix("WARN[0001]dns"), "dns");
    assert_eq!(strip_level_prefix("WARN[0001]  dns"), " dns");
    assert_eq!(strip_level_prefix("WARN[] dns"), "WARN[] dns");
    assert_eq!(strip_level_prefix("WARN[a1] dns"), "WARN[a1] dns");
    assert_eq!(strip_level_prefix("WARN[12 dns"), "WARN[12 dns");
    assert_eq!(strip_level_prefix("WARN dns"), "WARN dns");
    assert_eq!(strip_level_prefix("NOTE[0001] dns"), "NOTE[0001] dns");
    assert_eq!(strip_level_prefix(" INFO[0001] dns"), " INFO[0001] dns");
}

#[test]
fn levels_of_the_core() {
    assert_eq!(core_log_level(0), Level::Error);
    assert_eq!(core_log_level(2), Level::Error);
    assert_eq!(core_log_level(3), Level::Warn);
    assert_eq!(core_log_level(4), Level::Info);
    assert_eq!(core_log_level(5), Level::Debug);
    assert_eq!(core_log_level(6), Level::Trace);
    assert_eq!(core_log_level(7), Level::Info);
    assert_eq!(core_log_level(-1), Level::Info);
    assert_eq!(config_log(ConfigLogLevel::Fatal), Level::Error);
    assert_eq!(config_log(ConfigLogLevel::Debug), Level::Debug);
}

#[test]
fn privacy_admits_warnings_and_worse_only() {
    let private = core_log_privacy_floor(true);
    assert!(core_log_admits(Level::Error, private, LevelFilter::Trace));
    assert!(core_log_admits(Level::Warn, private, LevelFilter::Trace));
    assert!(!core_log_admits(Level::Info, private, LevelFilter::Trace));
    let open = core_log_privacy_floor(false);
    assert!(core_log_admits(Level::Trace, open, LevelFilter::Trace));
    assert!(!core_log_admits(Level::Trace, open, LevelFilter::Debug));
    assert!(!core_log_admits(Level::Error, open, LevelFilter::Off));
}

#[test]
fn the_worst_word_of_a_line_is_its_level() {
    assert_eq!(singbox_line_level("INFO then FATAL"), Level::Error);
    assert_eq!(singbox_line_level("WARN"), Level::Warn);
    assert_eq!(singbox_line_level("DEBUG x"), Level::Debug);
    assert_eq!(singbox_line_level("TRACE x"), Level::Trace);
    assert_eq!(singbox_line_level("nothing"), Level::Info);
    assert_eq!(singbox_line_level("error in lower case"), Level::Info);
}

#[test]
fn fatal_lines_are_told_apart() {
    assert_eq!(
        classify_core_fatal_line("FATAL missing monitor for auto DHCP", Level::Error),
        Some(CoreFatalKind::DhcpMonitorMissing)
    );
    assert_eq!(
        classify_core_fatal_line("configure tun interface: set ipv4 address: busy", Level::Error),
        Some(CoreFatalKind::TunAddressUnavailable)
    );
    assert_eq!(
        classify_core_fatal_line("configure tun interface: add address 1", Level::Error),
        Some(CoreFatalKind::TunAddressUnavailable)
    );
    assert_eq!(classify_core_fatal_line("configure tun interface: busy", Level::Error), None);
    assert_eq!(classify_core_fatal_line("set ipv4 address", Level::Error), None);
    assert_eq!(
        classify_core_fatal_line("FATAL missing monitor for auto DHCP", Level::Warn),
        None
    );
}

#[test]
fn the_first_fatal_line_of_a_text_counts() {
    let text = "INFO up\r\nERROR configure tun interface: set ipv6 address\nFATAL missing monitor for auto DHCP\n";
    assert_eq!(scan_core_fatal(text), Some(CoreFatalKind::TunAddressUnavailable));
    assert_eq!(scan_core_fatal("INFO missing monitor for auto DHCP"), None);
    assert_eq!(scan_core_fatal(""), None);
}

#[test]
fn reading_the_log_goes_on_in_the_same_file_only() {
    let cursor = StartupLogCursor { offset: 100, identity: Some(7) };
    assert_eq!(startup_log_read_start(cursor, 250, Some(7)), 100);
    assert_eq!(startup_log_read_start(cursor, 100, Some(7)), 100);
    assert_eq!(startup_log_read_start(cursor, 99, Some(7)), 0);
    assert_eq!(startup_log_read_start(cursor, 250, Some(8)), 0);
    assert_eq!(startup_log_read_start(cursor, 250, None), 0);
    let unknown = StartupLogCursor { offset: 100, identity: None };
    assert_eq!(startup_log_read_start(unknown, 250, None), 0);
    let c = startup_log_cursor(true, Some((42, Some(9))));
    assert_eq!((c.offset, c.identity), (42, Some(9)));
    let c = startup_log_cursor(false, Some((42, Some(9))));
    assert_eq!((c.offset, c.identity), (0, None));
    let c = startup_log_cursor(true, None);
    assert_eq!((c.offset, c.identity), (0, None));
}

#[test]
fn the_reason_of_a_failure_comes_from_its_own_source() {
    let tail = "FATAL missing monitor for auto DHCP";
    assert_eq!(
        observe_core_fatal(true, Some(tail), Some(CoreFatalKind::TunAddressUnavailable)),
        Some(CoreFatalKind::DhcpMonitorMissing)
    );
    assert_eq!(observe_core_fatal(true, None, Some(CoreFatalKind::DhcpMonitorMissing)), None);
    assert_eq!(
        observe_core_fatal(false, Some(tail), Some(CoreFatalKind::TunAddressUnavailable)),
        Some(CoreFatalKind::TunAddressUnavailable)
    );
}

#[test]
fn a_missing_tun_address_replaces_the_message() {
    let (m, c) = settle_start_failure(
        "base".to_string(),
        Some(CoreFatalKind::TunAddressUnavailable),
        "no address",
    );
    assert_eq!(m, "no address");
    assert_eq!(c, ErrorCode::TunAddressUnavailable);
    let (m, c) =
        settle_start_failure("base".to_string(), Some(CoreFatalKind::DhcpMonitorMissing), "no address");
    assert_eq!(m, "base");
    assert_eq!(c, ErrorCode::StartupFailed);
    let (m, c) = settle_start_failure("base".to_string(), None, "no address");
    assert_eq!((m.as_str(), c), ("base", ErrorCode::StartupFailed));
}

#[test]
fn a_piped_line_is_trimmed_noted_and_written() {
    let mut buf = b"line\r\n\n".to_vec();
    trim_line_end(&mut buf);
    assert_eq!(buf, b"line".to_vec());
    let mut noted = None;
    let r = pipe_line("FATAL missing monitor for auto DHCP", false, Some(&mut noted));
    assert_eq!(r.level, Level::Error);
    assert!(r.write);
    assert_eq!(noted, Some(CoreFatalKind::DhcpMonitorMissing));
    let r = pipe_line(
        "ERROR configure tun interface: set ipv4 address",
        true,
        Some(&mut noted),
    );
    assert!(!r.write);
    assert_eq!(noted, Some(CoreFatalKind::DhcpMonitorMissing));
    let r = pipe_line("WARN x", false, None);
    assert_eq!(r.level, Level::Warn);
}

#[test]
fn the_relay_shows_history_once_and_retires_with_its_core() {
    assert!(LogRelay::begin(3, true, true).is_none());
    let mut relay = LogRelay::begin(3, false, false).unwrap();
    assert!(matches!(relay.round(3), RelayRound::Listen));
    assert!(matches!(relay.round(4), RelayRound::Retire));
    let lines = vec![line(4, "INFO[0001] up"), line(5, "DEBUG[0001] detail")];
    let first = relay.frame(3, true, &lines, Level::Warn, LevelFilter::Trace).unwrap();
    assert!(first.is_empty());
    let mut owner = LogRelay::begin(3, false, true).unwrap();
    assert!(owner.frame(3, true, &lines, Level::Trace, LevelFilter::Info).unwrap().is_empty());
    let mut relay = LogRelay::begin(3, false, false).unwrap();
    let first = relay.frame(3, true, &lines, Level::Trace, LevelFilter::Info).unwrap();
    assert_eq!(first, vec![(Level::Info, "up".to_string())]);
    assert_eq!((relay.forwarded, relay.filtered), (1, 1));
    let again = relay.frame(3, true, &lines, Level::Trace, LevelFilter::Info).unwrap();
    assert!(again.is_empty());
    let news = relay.frame(3, false, &vec![line(3, "WARN[0002] slow")], Level::Trace, LevelFilter::Info);
    assert_eq!(news.unwrap(), vec![(Level::Warn, "slow".to_string())]);
    assert!(relay.frame(4, false, &lines, Level::Trace, LevelFilter::Info).is_none());
}

#[test]
fn log_settings_come_from_the_configuration() {
    let c = object(vec![
        ("logLevel", Json::Str("warn".to_string())),
        ("disableLogFile", Json::Bool(true)),
    ]);
    assert_eq!(log_axes_from_config(&c), (Some("warn".to_string()), true));
    assert_eq!(log_axes_from_config(&object(vec![])), (None, false));
    assert!(log_file_disabled(Some(&c)));
    assert!(!log_file_disabled(None));
    assert!(!log_file_disabled(Some(&object(vec![("disableLogFile", Json::Str("true".to_string()))]))));
}

#[test]
fn only_the_end_of_a_long_startup_log_is_scanned() {
    let cursor = StartupLogCursor { offset: 100, identity: Some(7) };
    assert_eq!(startup_log_scan_start(cursor, 250, Some(7)), 100);
    assert_eq!(startup_log_scan_start(cursor, 65636, Some(7)), 100);
    assert_eq!(startup_log_scan_start(cursor, 65637, Some(7)), 101);
    assert_eq!(startup_log_scan_start(cursor, 250, Some(8)), 0);
    assert_eq!(startup_log_scan_start(cursor, 65536, None), 0);
    assert_eq!(startup_log_scan_start(cursor, 70000, None), 4464);
    assert_eq!(startup_log_scan_start(cursor, 50, Some(7)), 0);
}

#[test]
fn what_follows_a_fatal_line_changes_nothing() {
    let fatal = "FATAL start service: configure tun interface: set ipv4 address: denied\n";
    let more = "FATAL missing monitor for auto DHCP\n";
    assert_eq!(scan_core_fatal(fatal), Some(CoreFatalKind::TunAddressUnavailable));
    let whole = format!("{}{}", fatal, more);
    assert_eq!(scan_core_fatal(&whole), Some(CoreFatalKind::TunAddressUnavailable));
    let whole = format!("INFO started\n{}", more);
    assert_eq!(scan_core_fatal(&whole), Some(CoreFatalKind::DhcpMonitorMissing));
}
