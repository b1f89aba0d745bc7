use proxy_runtime::canary::{
    dns_query, parse_canary_answer, probe_results, NetworkCanary, NetworkCanaryPlan, NetworkCanaryState,
    CANARY_QUERY_ID,
};

fn plan(ids: &[&str]) -> NetworkCanaryPlan {
    NetworkCanaryPlan {
        port: 53999,
        canaries: ids
            .iter()
            .enumerate()
            .map(|(k, id)| NetworkCanary {
                profile_id: (*id).to_string(),
                domain: format!("p{k}.np-canary.polaris.invalid"),
            })
            .collect(),
    }
}

#[test]
fn state_transitions_unknown_on_arm_invalidate_and_disarm() {
    let mut state = NetworkCanaryState::default();
    assert_eq!(state.matched("np-a"), None);

    let (session, changed) = state.arm(Some(plan(&["np-a", "np-b"])));
    assert!(changed);
    assert_eq!(state.matched("np-a"), None);
    let (round, port, canaries) = state.target(session).expect("this session has a target");
    assert_eq!(port, 53999);
    assert_eq!(canaries.len(), 2);
    assert!(state.record(
        round,
        vec![("np-a".to_string(), Some(true)), ("np-b".to_string(), Some(false))]
    ));
    assert_eq!(state.matched("np-a"), Some(true));
    assert_eq!(state.matched("np-b"), Some(false));

    assert!(state.invalidate());
    assert_eq!(state.matched("np-a"), None);
    assert_eq!(state.matched("np-b"), None);
    assert!(!state.record(round, vec![("np-a".to_string(), Some(true))]));
    assert_eq!(state.matched("np-a"), None);
    assert!(state.target(session).is_some());

    assert!(state.disarm());
    assert_eq!(state.matched("np-a"), None);
    assert!(state.target(session).is_none());

    let (next, _) = state.arm(None);
    assert_ne!(next, session);
    assert!(state.target(next).is_none());
}

#[test]
fn canary_answer_parsing() {
    let reply = |id: u16, flags: [u8; 2], answers: u16| {
        let mut b = id.to_be_bytes().to_vec();
        b.extend_from_slice(&flags);
        b.extend_from_slice(&[0, 1]);
        b.extend_from_slice(&answers.to_be_bytes());
        b.extend_from_slice(&[0, 0, 0, 0]);
        b
    };
    let id = CANARY_QUERY_ID;
    assert_eq!(parse_canary_answer(id, &reply(id, [0x81, 0x80], 1)), Some(true));
    assert_eq!(parse_canary_answer(id, &reply(id, [0x81, 0x83], 0)), Some(false));
    assert_eq!(
        parse_canary_answer(id, &reply(id, [0x81, 0x80], 0)),
        None,
        "no error and no answer says nothing"
    );
    assert_eq!(
        parse_canary_answer(id, &reply(id, [0x81, 0x82], 0)),
        None,
        "a failure of the server says nothing"
    );
    assert_eq!(parse_canary_answer(id, &reply(id ^ 1, [0x81, 0x80], 1)), None, "another number");
    assert_eq!(parse_canary_answer(id, &reply(id, [0x01, 0x80], 1)), None, "not an answer");
    assert_eq!(parse_canary_answer(id, &[0; 5]), None, "cut short");

    let q = dns_query(id, "p0.np-canary.polaris.invalid.");
    assert_eq!(&q[..2], &id.to_be_bytes());
    assert_eq!(&q[4..6], &[0, 1], "one question");
    assert!(q.ends_with(&[7, b'i', b'n', b'v', b'a', b'l', b'i', b'd', 0, 0, 1, 0, 1]));
}

#[test]
fn a_change_of_the_network_asks_again_and_the_end_stops_asking() {
    let mut state = NetworkCanaryState::default();
    let (session, _) = state.arm(Some(plan(&["np-a", "np-b"])));
    let (round, _, canaries) = state.target(session).unwrap();
    let first = probe_results(&canaries, &vec![Some(true), Some(false)]);
    assert!(state.record(round, first), "the first results are news");
    assert_eq!(state.matched("np-a"), Some(true));
    assert_eq!(state.matched("np-b"), Some(false));
    assert!(state.invalidate());
    assert_eq!(state.matched("np-a"), None);
    let (next, _, canaries) = state.target(session).unwrap();
    assert_ne!(next, round);
    assert!(state.record(next, probe_results(&canaries, &vec![Some(true), Some(false)])));
    let again = probe_results(&canaries, &vec![Some(true), Some(false)]);
    assert!(!state.record(next, again), "the same results are no news");
    state.disarm();
    assert!(state.target(session).is_none());
}

#[test]
fn a_query_without_an_answer_is_no_miss() {
    let mut state = NetworkCanaryState::default();
    let (session, _) = state.arm(Some(plan(&["np-a", "np-b"])));
    let (round, _, canaries) = state.target(session).unwrap();
    state.record(round, probe_results(&canaries, &vec![None, None]));
    assert_eq!(state.matched("np-a"), None);
}

#[test]
fn a_replaced_session_writes_nothing() {
    let mut state = NetworkCanaryState::default();
    let (old, _) = state.arm(Some(plan(&["np-a", "np-b"])));
    let (round, _, canaries) = state.target(old).unwrap();
    let (_, changed) = state.arm(Some(plan(&["np-a", "np-b"])));
    assert!(!changed);
    assert!(state.target(old).is_none());
    assert!(!state.record(round, probe_results(&canaries, &vec![Some(true), Some(true)])));
    assert_eq!(state.matched("np-a"), None);
}

#[test]
fn a_query_is_written_label_by_label() {
    let head = |id: u16| {
        let mut b = id.to_be_bytes().to_vec();
        b.extend_from_slice(&[1, 0, 0, 1, 0, 0, 0, 0, 0, 0]);
        b
    };
    let with = |name: &[u8]| {
        let mut b = head(0x0102);
        b.extend_from_slice(name);
        b.extend_from_slice(&[0, 0, 1, 0, 1]);
        b
    };
    assert_eq!(dns_query(0x0102, "a.bc"), with(&[1, b'a', 2, b'b', b'c']));
    assert_eq!(dns_query(0x0102, "a.bc.."), with(&[1, b'a', 2, b'b', b'c']));
    assert_eq!(dns_query(0x0102, ""), with(&[0]));
    assert_eq!(dns_query(0x0102, "é"), with(&[2, 0xc3, 0xa9]));
    let long = "x".repeat(300);
    assert_eq!(dns_query(0x0102, &long)[12], 44);
    assert_eq!(dns_query(0x0102, &long).len(), 12 + 1 + 300 + 5);
}

#[test]
fn results_are_dropped_however_often_the_network_changed() {
    let mut state = NetworkCanaryState::default();
    let (session, _) = state.arm(Some(plan(&["np-a"])));
    let (round, _, _) = state.target(session).unwrap();
    for _ in 0..3 {
        state.invalidate();
    }
    let (newer, _) = state.arm(Some(plan(&["np-a", "np-b"])));
    assert!(!state.record(round, vec![("np-a".to_string(), Some(true))]));
    assert_eq!(state.matched("np-a"), None);
    assert!(state.target(session).is_none());
    let (now, port, canaries) = state.target(newer).unwrap();
    assert_eq!(port, 53999);
    let ids: Vec<&str> = canaries.iter().map(|c| c.profile_id.as_str()).collect();
    assert_eq!(ids, ["np-a", "np-b"]);
    assert!(state.record(now, vec![("np-a".to_string(), Some(true))]));
    assert!(!state.record(now, vec![("np-a".to_string(), Some(true))]));
    assert!(state.record(now, vec![("np-a".to_string(), Some(false))]));
    assert_eq!(state.matched("np-a"), Some(false));
    assert_eq!(state.matched("np-b"), None);
}
