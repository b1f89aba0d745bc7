use proxy_runtime::json::parse_json;
use proxy_runtime::tailnet::{
    bare_addr_of_host_cidr, bare_addresses, cidrs_of, observed_addresses_of_event,
    parse_tailnet_rule_file_cidrs, rule_file_step, sync_candidates, sync_step,
    tailnet_rule_file_json, ObservedTailnet, RuleFileStep, TailnetFrame,
};

fn texts(v: &[&str]) -> Vec<String> {
    v.iter().map(|s| s.to_string()).collect()
}

#[test]
fn a_rule_file_is_read_back_as_it_was_written() {
    let cidrs = texts(&["100.64.0.1/32", "fd7a::1/128"]);
    let text = tailnet_rule_file_json(&cidrs);
    assert_eq!(parse_tailnet_rule_file_cidrs(&text), Some(cidrs));
    assert!(text.contains('\n'));
    assert_eq!(parse_tailnet_rule_file_cidrs(&tailnet_rule_file_json(&vec![])), Some(vec![]));
}

#[test]
fn a_rule_file_has_a_version_and_one_rule() {
    let tree = parse_json(&tailnet_rule_file_json(&texts(&["10.0.0.0/8"]))).unwrap();
    assert!(tree.get("version").is_some());
    assert_eq!(tree.items_at("rules").unwrap().len(), 1);
    assert_eq!(cidrs_of(&tree), Some(texts(&["10.0.0.0/8"])));
}

#[test]
fn what_is_no_rule_file_names_nothing() {
    assert_eq!(parse_tailnet_rule_file_cidrs("no json"), None);
    assert_eq!(parse_tailnet_rule_file_cidrs("{}"), None);
}

#[test]
fn only_a_single_host_has_a_bare_address() {
    assert_eq!(bare_addr_of_host_cidr("100.64.0.1/32").as_deref(), Some("100.64.0.1"));
    assert_eq!(bare_addr_of_host_cidr("fd7a::1/128").as_deref(), Some("fd7a::1"));
    assert_eq!(bare_addr_of_host_cidr("10.0.0.0/8"), None);
    assert_eq!(bare_addr_of_host_cidr("10.0.0.1"), None);
    assert_eq!(
        bare_addresses(&texts(&["100.64.0.1/32", "10.0.0.0/8", "fd7a::1/128"])),
        texts(&["100.64.0.1", "fd7a::1"])
    );
}

#[test]
fn an_event_tells_of_its_own_and_its_peers_addresses() {
    let frame = TailnetFrame {
        own: texts(&["100.64.0.1"]),
        group_peers: vec![texts(&["100.64.0.2"]), texts(&["100.64.0.3", "fd7a::3"])],
        peers: vec![texts(&["100.64.0.4"])],
    };
    let seen = observed_addresses_of_event(&frame);
    for a in ["100.64.0.1", "100.64.0.2", "100.64.0.3", "fd7a::3"] {
        assert!(seen.contains(&a.to_string()), "{}", a);
    }
}

#[test]
fn merging_keeps_what_was_known() {
    let mut seen = ObservedTailnet::new();
    let merged = seen.merge_observed("s1", &texts(&["100.64.0.2", "100.64.0.1"])).unwrap();
    assert_eq!(merged, texts(&["100.64.0.2", "100.64.0.1"]));
    seen.store("s1", merged);
    let more = seen.merge_observed("s1", &texts(&["100.64.0.9", "100.64.0.1"])).unwrap();
    assert_eq!(more, texts(&["100.64.0.2", "100.64.0.1", "100.64.0.9", "100.64.0.1"]));
    seen.store("s1", texts(&["100.64.0.2", "100.64.0.1", "100.64.0.9"]));
    assert_eq!(seen.merge_observed("s2", &texts(&["fd7a::1"])), Some(texts(&["fd7a::1"])));
    assert!(seen.merge_observed("s2", &vec![]).is_none());
}

#[test]
fn a_rule_file_is_written_where_it_says_something_new() {
    let cidrs = texts(&["100.64.0.1/32"]);
    let text = tailnet_rule_file_json(&cidrs);
    assert!(matches!(rule_file_step(&cidrs, None), RuleFileStep::Write(s) if s == text));
    assert!(matches!(rule_file_step(&cidrs, Some(&text)), RuleFileStep::Keep));
    assert!(matches!(rule_file_step(&cidrs, Some("{}")), RuleFileStep::Write(_)));
    assert!(matches!(rule_file_step(&vec![], None), RuleFileStep::Keep));
}

#[test]
fn a_rule_file_of_a_running_core_only_grows() {
    let text = tailnet_rule_file_json(&texts(&["100.64.0.1/32"]));
    assert!(sync_candidates(&vec![], Some(&text)).is_none());
    assert!(sync_candidates(&texts(&["100.64.0.2/32"]), None).is_none());
    assert!(sync_candidates(&texts(&["100.64.0.2/32"]), Some("no json")).is_none());
    let (named, both) = sync_candidates(&texts(&["100.64.0.2/32"]), Some(&text)).unwrap();
    assert_eq!(named, texts(&["100.64.0.1/32"]));
    assert_eq!(both, texts(&["100.64.0.1/32", "100.64.0.2/32"]));
    assert!(matches!(sync_step(&named, &named), RuleFileStep::Keep));
    assert!(
        matches!(sync_step(&named, &both), RuleFileStep::Write(s) if s == tailnet_rule_file_json(&both))
    );
}
