use proxy_runtime::json::{parse_json, Json};
use proxy_runtime::kernel_gate::{kernel_gate_bytes, normalize_kernel_gate_config};

fn normal(text: &str) -> Json {
    let mut v = parse_json(text).unwrap();
    normalize_kernel_gate_config(&mut v);
    v
}

fn number(v: &Json) -> u64 {
    match v {
        Json::Uint(n) => *n,
        _ => panic!("no number"),
    }
}

fn port(v: &Json, list: &str, i: usize, key: &str) -> u64 {
    number(v.items_at(list).unwrap()[i].get(key).unwrap())
}

const CONFIG: &str = r#"{
    "inbounds": [
        {"tag": "update-in", "listen_port": 4001},
        {"tag": "subscription-update-in", "listen_port": 4002},
        {"tag": "probe-in-7", "listen_port": 4003},
        {"tag": "mixed-in", "listen_port": 7890}
    ],
    "services": [{"type": "api", "listen_port": 4004}, {"type": "resolved", "listen_port": 53}],
    "dns": {"servers": [{"tag": "dns-node-race", "server_port": 4005}, {"tag": "x", "server_port": 9}]}
}"#;

#[test]
fn drawn_ports_are_set_to_zero_and_no_others() {
    let v = normal(CONFIG);
    assert_eq!(port(&v, "inbounds", 0, "listen_port"), 0);
    assert_eq!(port(&v, "inbounds", 1, "listen_port"), 0);
    assert_eq!(port(&v, "inbounds", 2, "listen_port"), 0);
    assert_eq!(port(&v, "inbounds", 3, "listen_port"), 7890);
    assert_eq!(port(&v, "services", 0, "listen_port"), 0);
    assert_eq!(port(&v, "services", 1, "listen_port"), 53);
    let dns = v.get("dns").unwrap();
    assert_eq!(port(dns, "servers", 0, "server_port"), 0);
    assert_eq!(port(dns, "servers", 1, "server_port"), 9);
}

#[test]
fn an_entry_without_its_port_gets_one() {
    let v = normal(r#"{"inbounds": [{"tag": "update-in"}]}"#);
    assert_eq!(port(&v, "inbounds", 0, "listen_port"), 0);
}

#[test]
fn other_shapes_are_left_alone() {
    let v = normal(r#"{"inbounds": "none", "dns": 3, "services": [1, null]}"#);
    assert_eq!(v.text_at("inbounds").unwrap(), "none");
    assert_eq!(number(v.get("dns").unwrap()), 3);
    assert_eq!(v.items_at("services").unwrap().len(), 2);
    let v = normal("[]");
    assert_eq!(v.as_items().unwrap().len(), 0);
}

#[test]
fn two_starts_of_one_configuration_look_the_same() {
    let other = CONFIG.replace("4001", "5001").replace("4003", "5003");
    let a = normal(CONFIG);
    let b = normal(&other);
    for i in 0..4 {
        assert_eq!(
            port(&a, "inbounds", i, "listen_port"),
            port(&b, "inbounds", i, "listen_port")
        );
    }
    let mut again = a.clone();
    normalize_kernel_gate_config(&mut again);
    assert_eq!(port(&again, "inbounds", 0, "listen_port"), 0);
    assert_eq!(port(&again, "inbounds", 3, "listen_port"), 7890);
}

#[test]
fn a_configuration_is_recognised_by_its_steady_bytes() {
    let bytes = |t: &str| kernel_gate_bytes(parse_json(t).unwrap());
    let a = bytes(r#"{"log": {"level": "warn"}, "inbounds": [{"tag": "update-in", "listen_port": 4001}]}"#);
    let b = bytes(r#"{"inbounds": [{"listen_port": 5001, "tag": "update-in"}], "log": {"level": "warn"}}"#);
    assert_eq!(a, b);
    assert_eq!(
        String::from_utf8(a).unwrap(),
        r#"{"inbounds":[{"listen_port":0,"tag":"update-in"}],"log":{"level":"warn"}}"#
    );
    assert_ne!(b, bytes(r#"{"inbounds": [], "log": {"level": "warn"}}"#));
    assert_eq!(bytes("[-1, 1.5]"), b"[-1,1.5]".to_vec());
}

#[test]
fn a_port_that_was_absent_is_added_in_order() {
    let tree = normal(r#"{"inbounds": [{"tag": "update-in", "type": "mixed"}]}"#);
    let Json::Object(fields) = &tree.items_at("inbounds").unwrap()[0] else {
        panic!("an inbound is an object");
    };
    let keys: Vec<&str> = fields.iter().map(|f| f.0.as_str()).collect();
    assert_eq!(keys, ["listen_port", "tag", "type"]);
    let bytes = |t: &str| kernel_gate_bytes(parse_json(t).unwrap());
    assert_eq!(
        String::from_utf8(bytes(r#"{"inbounds": [{"tag": "update-in", "type": "mixed"}]}"#)).unwrap(),
        r#"{"inbounds":[{"listen_port":0,"tag":"update-in","type":"mixed"}]}"#
    );
    assert_eq!(bytes(r#"{"a": [1.50, -7, 3e2]}"#), br#"{"a":[1.5,-7,300.0]}"#.to_vec());
}

#[test]
fn an_object_is_written_in_the_order_of_its_keys_and_each_key_once() {
    let field = |k: &str, n: u64| (k.to_string(), Json::Uint(n));
    let tree = Json::Object(vec![field("b", 1), field("a", 2), field("b", 3)]);
    assert_eq!(kernel_gate_bytes(tree), br#"{"a":2,"b":3}"#.to_vec());
    let number = |t: &str| kernel_gate_bytes(Json::Other(t.to_string()));
    assert_eq!(number("2.5"), b"2.5".to_vec());
    assert_eq!(number("no number"), b"null".to_vec());
}
