use proxy_runtime::retry::{
    is_retryable_start_error, lasting_failure, main_core_ready_timeout_message,
    resolve_start_retry_budget, start_backoff_delay_ms, StartRetryBudget,
};

#[test]
fn a_node_with_a_system_interface_gets_the_long_budget() {
    let b = resolve_start_retry_budget(true, &vec![false, true], true);
    assert_eq!((b.max_retries, b.delay_ms, b.exponential_backoff), (10, 3000, false));
    let short = (2, 2000, true);
    for (is_tun, nodes, supported) in [
        (false, vec![true], true),
        (true, vec![false], true),
        (true, vec![true], false),
        (true, vec![], true),
    ] {
        let b = resolve_start_retry_budget(is_tun, &nodes, supported);
        assert_eq!((b.max_retries, b.delay_ms, b.exponential_backoff), short);
    }
}

#[test]
fn the_pause_doubles_or_stays() {
    let doubling = StartRetryBudget { max_retries: 2, delay_ms: 2000, exponential_backoff: true };
    assert_eq!(start_backoff_delay_ms(&doubling, 0), 2000);
    assert_eq!(start_backoff_delay_ms(&doubling, 1), 2000);
    assert_eq!(start_backoff_delay_ms(&doubling, 2), 4000);
    assert_eq!(start_backoff_delay_ms(&doubling, 3), 8000);
    assert_eq!(start_backoff_delay_ms(&doubling, 17), 2000 * 65536);
    assert_eq!(start_backoff_delay_ms(&doubling, u32::MAX), 2000 * 65536);
    let wide = StartRetryBudget { max_retries: 2, delay_ms: u64::MAX / 2, exponential_backoff: true };
    assert_eq!(start_backoff_delay_ms(&wide, 3), u64::MAX);
    let steady = StartRetryBudget { max_retries: 10, delay_ms: 3000, exponential_backoff: false };
    assert_eq!(start_backoff_delay_ms(&steady, 9), 3000);
}

#[test]
fn lasting_failures_are_not_tried_again() {
    for m in [
        "找不到内核",
        "权限不足",
        "Permission denied",
        "spawn ENOENT",
        "EACCES",
        "eperm",
        "配置文件格式错误",
        "Invalid Config: x",
    ] {
        assert!(!is_retryable_start_error(m), "{}", m);
    }
    assert!(is_retryable_start_error("connection refused"));
    assert!(is_retryable_start_error(""));
    assert!(lasting_failure("permission"));
    assert!(!lasting_failure("PERMISSION"));
}

#[test]
fn the_timeout_message_counts_what_was_sent_down() {
    assert_eq!(
        main_core_ready_timeout_message(9090, 12, 0, 12000, 0, 150),
        "sing-box 起核超时：管理 API 9090 在 12000ms 内未就绪。本次下发 12 个出站/端点、其中 naive 出站 0 个 ⇒ 就绪门就是最低的 12000ms，与订阅规模无关。请转查端口占用、TUN 网卡/提权，以及内核日志里的启动错误。"
    );
    assert_eq!(
        main_core_ready_timeout_message(9090, 300, 200, 68000, 34000, 150),
        "sing-box 起核超时：管理 API 9090 在 68000ms 内未就绪。本次下发 300 个出站/端点，其中 200 个是 naive —— 每个 naive 出站都是一个独立 Cronet Engine，内核在绑定入站之前逐个串行创建，估算本次起核需 34000ms（其中 naive 一项就占 30000ms），故就绪门已按本次规模从 12000ms 放宽到 68000ms，仍未等到。naive 节点每少一个省约 150ms：请减少本次启用的 naive 节点数、或改选其他协议的节点后重试；若 naive 节点本就不多，再转查端口占用、TUN 网卡/提权与内核日志。"
    );
}
