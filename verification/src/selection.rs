//! The nodes of a configuration, which of them is selected, and whether the selectors of the
//! running core follow.

use vstd::prelude::*;

use crate::core_config::PROXY_SELECTOR_TAG;
use crate::json::{json_views, Json, JsonView};
use crate::table::{lookup, table_get, table_view};
use crate::text::{
    begins_with, decimal, decimal_text, insert_sorted, lemma_occurs_between, occurs_at, occurs_in,
    same_text, strictly_sorted, views,
};

verus! {

/// The configuration has a node with the identifier `id`.
pub open spec fn has_server(config: JsonView, id: Seq<char>) -> bool {
    config.items_at("servers"@) matches Some(items) && exists|i: int|
        0 <= i < items.len() && (#[trigger] items[i]).text_at("id"@) == Some(id)
}

/// The identifiers of a configuration's nodes, in order and each once.
pub fn server_ids(config: &Json) -> (r: Vec<String>)
    ensures
        strictly_sorted(views(r@)),
        forall|id: Seq<char>| #[trigger] views(r@).contains(id) <==> has_server(config@, id),
{
    let mut out: Vec<String> = Vec::new();
    assert(views(out@).len() == 0);
    if let Some(servers) = config.items_at("servers") {
        let ghost items = json_views(servers@);
        let mut i: usize = 0;
        while i < servers.len()
            invariant
                i <= servers@.len(),
                items == json_views(servers@),
                config@.items_at("servers"@) == Some(items),
                strictly_sorted(views(out@)),
                forall|id: Seq<char>|
                    #[trigger] views(out@).contains(id) <==> exists|k: int|
                        0 <= k < i && (#[trigger] items[k]).text_at("id"@) == Some(id),
            decreases servers@.len() - i,
        {
            let ghost before = out@;
            assert(items[i as int] == servers@[i as int]@);
            match servers[i].text_at("id") {
                Some(id) => {
                    insert_sorted(&mut out, id.as_str());
                },
                None => {},
            }
            i += 1;
            assert forall|id: Seq<char>| #[trigger] views(out@).contains(id) <==> exists|k: int|
                0 <= k < i && (#[trigger] items[k]).text_at("id"@) == Some(id) by {
                if views(before).contains(id) {
                    let k = choose|k: int|
                        0 <= k < i - 1 && (#[trigger] items[k]).text_at("id"@) == Some(id);
                    assert(items[k].text_at("id"@) == Some(id));
                }
                if views(out@).contains(id) && !views(before).contains(id) {
                    assert(items[i - 1].text_at("id"@) == Some(id));
                }
                if exists|k: int|
                    0 <= k < i && (#[trigger] items[k]).text_at("id"@) == Some(id) {
                    let k = choose|k: int|
                        0 <= k < i && (#[trigger] items[k]).text_at("id"@) == Some(id);
                    if k < i - 1 {
                        assert(views(before).contains(id));
                    }
                }
            }
        }
    }
    out
}

/// Is the selected node among the nodes?
pub fn selected_server_present(config: &Json) -> (r: bool)
    ensures
        r == (config@.text_at("selectedServerId"@) matches Some(id) && has_server(config@, id)),
{
    let selected = match config.text_at("selectedServerId") {
        Some(s) => s,
        None => {
            return false;
        },
    };
    if let Some(servers) = config.items_at("servers") {
        let ghost items = json_views(servers@);
        let mut i: usize = 0;
        while i < servers.len()
            invariant
                i <= servers@.len(),
                items == json_views(servers@),
                config@.items_at("servers"@) == Some(items),
                config@.text_at("selectedServerId"@) == Some(selected@),
                forall|k: int|
                    0 <= k < i ==> (#[trigger] items[k]).text_at("id"@) != Some(selected@),
            decreases servers@.len() - i,
        {
            assert(items[i as int] == servers@[i as int]@);
            if let Some(id) = servers[i].text_at("id") {
                if same_text(id.as_str(), selected.as_str()) {
                    assert(items[i as int].text_at("id"@) == Some(selected@));
                    return true;
                }
            }
            i += 1;
        }
    }
    false
}

/// How setting the global selector ended.
pub enum Stage1Outcome {
    Applied { member_tag: String },
    /// The selected node is not among those that the core was started with.
    UnresolvedTag { selected_id: String },
    /// The core never took the member.
    PutExhausted { member_tag: String },
    /// Another operation took over.
    Abandoned,
}

/// What the selectors were set to.
pub struct ReassertOutcome {
    pub stage1: Stage1Outcome,
    /// Selector and member of each rule.
    pub rule_intents: Vec<(String, String)>,
}

/// What was found of the selectors.
pub enum SelectorAttestation {
    Match,
    NeverReasserted { selected_id: String },
    ReassertFailed { member_tag: String },
    GlobalDrift { want: String, got: String, rule_drifts: usize },
    RuleDrift { count: usize, sample_tag: String, want: String, got: String },
}

/// What was found of the selectors, as texts.
pub enum SelectorFinding {
    Match,
    NeverReasserted { selected_id: Seq<char> },
    ReassertFailed { member_tag: Seq<char> },
    GlobalDrift { want: Seq<char>, got: Seq<char>, rule_drifts: nat },
    RuleDrift { count: nat, sample_tag: Seq<char>, want: Seq<char>, got: Seq<char> },
}

impl View for SelectorAttestation {
    type V = SelectorFinding;

    open spec fn view(&self) -> SelectorFinding {
        match self {
            SelectorAttestation::Match => SelectorFinding::Match,
            SelectorAttestation::NeverReasserted { selected_id } =>
                SelectorFinding::NeverReasserted { selected_id: selected_id@ },
            SelectorAttestation::ReassertFailed { member_tag } => SelectorFinding::ReassertFailed {
                member_tag: member_tag@,
            },
            SelectorAttestation::GlobalDrift { want, got, rule_drifts } =>
                SelectorFinding::GlobalDrift {
                want: want@,
                got: got@,
                rule_drifts: *rule_drifts as nat,
            },
            SelectorAttestation::RuleDrift { count, sample_tag, want, got } =>
                SelectorFinding::RuleDrift {
                count: *count as nat,
                sample_tag: sample_tag@,
                want: want@,
                got: got@,
            },
        }
    }
}

/// What every finding that is no match opens with.
pub const SELECTOR_OPENING: &'static str = "未按设置走";

/// What every finding that is no match ends with: the one thing that the user can do.
pub const SELECTOR_ADVICE: &'static str = "请重新连接。";

/// What is told of a finding between the opening and the advice.
pub open spec fn selector_detail(f: SelectorFinding) -> Seq<char> {
    match f {
        SelectorFinding::Match => Seq::empty(),
        SelectorFinding::NeverReasserted { selected_id } => "：启动后未能把出口切到选中节点（"@
            + selected_id + " 不在本次启动的节点表中），流量可能仍走上一次的出口。"@,
        SelectorFinding::ReassertFailed { member_tag } => "：启动后未能把出口切到选中节点「"@
            + member_tag + "」（管理接口无响应），流量可能仍走上一次的出口。"@,
        SelectorFinding::GlobalDrift { want, got, rule_drifts } => "选中节点「"@ + want
            + "」，核实际出口为「"@ + got + "」"@ + (if rule_drifts > 0 {
            "，另有 "@ + decimal(rule_drifts) + " 条分流规则的出口也不一致"@
        } else {
            Seq::empty()
        }) + "。"@,
        SelectorFinding::RuleDrift { count, sample_tag, want, got } => "：有 "@ + decimal(count)
            + " 条分流规则未走设定的节点（如「"@ + sample_tag + "」实际走「"@ + got + "」，应为「"@
            + want + "」）。"@,
    }
}

/// What the user is told.
pub open spec fn selector_text(f: SelectorFinding) -> Seq<char> {
    if f is Match {
        Seq::empty()
    } else {
        SELECTOR_OPENING@ + selector_detail(f) + SELECTOR_ADVICE@
    }
}

/// The user is told something exactly where the selectors are not in order. It always opens with
/// the same words and always ends with the advice to connect again.
pub proof fn law_a_selector_warning_opens_the_same_way(f: SelectorFinding)
    ensures
        selector_text(f).len() == 0 <==> f is Match,
        f !is Match ==> begins_with(selector_text(f), SELECTOR_OPENING@),
        f !is Match ==> occurs_at(
            selector_text(f),
            SELECTOR_ADVICE@,
            selector_text(f).len() - SELECTOR_ADVICE@.len(),
        ),
{
    reveal_strlit("未按设置走");
    assert(SELECTOR_OPENING@.len() > 0);
    if f !is Match {
        let t = selector_text(f);
        assert(t.subrange(0, SELECTOR_OPENING@.len() as int) =~= SELECTOR_OPENING@);
        assert(t.subrange(t.len() - SELECTOR_ADVICE@.len(), t.len() as int) =~= SELECTOR_ADVICE@);
    }
}

impl SelectorAttestation {
    /// What the user is told.
    pub fn user_message(&self) -> (r: String)
        ensures
            r@ == selector_text(self@),
    {
        let detail = match self {
            SelectorAttestation::Match => {
                return String::new();
            },
            SelectorAttestation::NeverReasserted { selected_id } => "：启动后未能把出口切到选中节点（".to_owned().concat(
                selected_id.as_str(),
            ).concat(" 不在本次启动的节点表中），流量可能仍走上一次的出口。"),
            SelectorAttestation::ReassertFailed { member_tag } => "：启动后未能把出口切到选中节点「".to_owned().concat(
                member_tag.as_str(),
            ).concat("」（管理接口无响应），流量可能仍走上一次的出口。"),
            SelectorAttestation::GlobalDrift { want, got, rule_drifts } => {
                let tail = if *rule_drifts > 0 {
                    "，另有 ".to_owned().concat(decimal_text(*rule_drifts as u64).as_str()).concat(
                        " 条分流规则的出口也不一致",
                    )
                } else {
                    String::new()
                };
                "选中节点「".to_owned().concat(want.as_str()).concat("」，核实际出口为「").concat(
                    got.as_str(),
                ).concat("」").concat(tail.as_str()).concat("。")
            },
            SelectorAttestation::RuleDrift { count, sample_tag, want, got } => "：有 ".to_owned().concat(
                decimal_text(*count as u64).as_str(),
            ).concat(" 条分流规则未走设定的节点（如「").concat(sample_tag.as_str()).concat(
                "」实际走「",
            ).concat(got.as_str()).concat("」，应为「").concat(want.as_str()).concat("」）。"),
        };
        SELECTOR_OPENING.to_owned().concat(detail.as_str()).concat(SELECTOR_ADVICE)
    }
}

/// The selector of this intent holds another member. A selector that the core does not tell of is
/// no evidence.
pub open spec fn drifted(
    intent: (Seq<char>, Seq<char>),
    groups: Seq<(Seq<char>, Seq<char>)>,
) -> bool {
    table_get(groups, intent.0) matches Some(got) && got != intent.1
}

/// The intents whose selector holds another member.
pub open spec fn drifts(
    intents: Seq<(Seq<char>, Seq<char>)>,
    groups: Seq<(Seq<char>, Seq<char>)>,
) -> Seq<(Seq<char>, Seq<char>)> {
    intents.filter(|i: (Seq<char>, Seq<char>)| drifted(i, groups))
}

/// What is found of the selectors, given what they were set to and what the core says that they
/// hold. Without its answer there is no evidence, and no evidence is no finding.
pub open spec fn selector_finding(
    outcome: ReassertOutcome,
    groups: Option<Seq<(Seq<char>, Seq<char>)>>,
) -> SelectorFinding {
    match outcome.stage1 {
        Stage1Outcome::Abandoned => SelectorFinding::Match,
        Stage1Outcome::UnresolvedTag { selected_id } => SelectorFinding::NeverReasserted {
            selected_id: selected_id@,
        },
        Stage1Outcome::PutExhausted { member_tag } => SelectorFinding::ReassertFailed {
            member_tag: member_tag@,
        },
        Stage1Outcome::Applied { member_tag } => match groups {
            None => SelectorFinding::Match,
            Some(g) => {
                let wrong = drifts(table_view(outcome.rule_intents@), g);
                if drifted((PROXY_SELECTOR_TAG@, member_tag@), g) {
                    SelectorFinding::GlobalDrift {
                        want: member_tag@,
                        got: table_get(g, PROXY_SELECTOR_TAG@)->0,
                        rule_drifts: wrong.len(),
                    }
                } else if wrong.len() > 0 {
                    SelectorFinding::RuleDrift {
                        count: wrong.len(),
                        sample_tag: wrong[0].0,
                        want: wrong[0].1,
                        got: table_get(g, wrong[0].0)->0,
                    }
                } else {
                    SelectorFinding::Match
                }
            },
        },
    }
}

/// What the core says that its selectors hold.
pub open spec fn groups_view(groups: Option<&Vec<(String, String)>>) -> Option<
    Seq<(Seq<char>, Seq<char>)>,
> {
    match groups {
        Some(g) => Some(table_view(g@)),
        None => None,
    }
}

/// Do the selectors of the core hold what they were set to?
pub fn attest_runtime_selection(
    outcome: &ReassertOutcome,
    groups: Option<&Vec<(String, String)>>,
) -> (r: SelectorAttestation)
    ensures
        r@ == selector_finding(*outcome, groups_view(groups)),
{
    let member_tag = match &outcome.stage1 {
        Stage1Outcome::Abandoned => {
            return SelectorAttestation::Match;
        },
        Stage1Outcome::UnresolvedTag { selected_id } => {
            return SelectorAttestation::NeverReasserted { selected_id: selected_id.clone() };
        },
        Stage1Outcome::PutExhausted { member_tag } => {
            return SelectorAttestation::ReassertFailed { member_tag: member_tag.clone() };
        },
        Stage1Outcome::Applied { member_tag } => member_tag,
    };
    let groups = match groups {
        Some(g) => g,
        None => {
            return SelectorAttestation::Match;
        },
    };
    let ghost g = table_view(groups@);
    let ghost intents = table_view(outcome.rule_intents@);
    let ghost p = |i: (Seq<char>, Seq<char>)| drifted(i, g);
    let mut count: usize = 0;
    let mut first: Option<usize> = None;
    let mut i: usize = 0;
    while i < outcome.rule_intents.len()
        invariant
            i <= outcome.rule_intents@.len(),
            count <= i,
            g == table_view(groups@),
            intents == table_view(outcome.rule_intents@),
            p == (|i: (Seq<char>, Seq<char>)| drifted(i, g)),
            count == intents.take(i as int).filter(p).len(),
            match first {
                Some(f) => f < i && count > 0 && intents.take(i as int).filter(p)[0]
                    == intents[f as int] && drifted(intents[f as int], g),
                None => count == 0,
            },
        decreases outcome.rule_intents@.len() - i,
    {
        proof {
            let t = intents.take(i + 1);
            assert(t.drop_last() =~= intents.take(i as int));
            assert(t.last() == (
                outcome.rule_intents@[i as int].0@,
                outcome.rule_intents@[i as int].1@,
            ));
            reveal(Seq::filter);
        }
        let wrong = match lookup(groups, outcome.rule_intents[i].0.as_str()) {
            Some(got) => !same_text(got.as_str(), outcome.rule_intents[i].1.as_str()),
            None => false,
        };
        if wrong {
            count += 1;
            if first.is_none() {
                first = Some(i);
            }
        }
        i += 1;
    }
    assert(intents.take(i as int) =~= intents);
    if let Some(got) = lookup(groups, PROXY_SELECTOR_TAG) {
        if !same_text(got.as_str(), member_tag.as_str()) {
            return SelectorAttestation::GlobalDrift {
                want: member_tag.clone(),
                got: got.clone(),
                rule_drifts: count,
            };
        }
    }
    match first {
        Some(f) => {
            let intent = &outcome.rule_intents[f];
            assert(intents[f as int] == (intent.0@, intent.1@));
            match lookup(groups, intent.0.as_str()) {
                Some(got) => SelectorAttestation::RuleDrift {
                    count,
                    sample_tag: intent.0.clone(),
                    want: intent.1.clone(),
                    got: got.clone(),
                },
                None => SelectorAttestation::Match,
            }
        },
        None => SelectorAttestation::Match,
    }
}

/// A global selector that holds another member than it was set to is always found, and named
/// before any rule is.
pub proof fn law_a_drifted_exit_is_found(
    outcome: ReassertOutcome,
    member_tag: String,
    groups: Seq<(Seq<char>, Seq<char>)>,
)
    requires
        outcome.stage1 == (Stage1Outcome::Applied { member_tag }),
        drifted((PROXY_SELECTOR_TAG@, member_tag@), groups),
    ensures
        selector_finding(outcome, Some(groups)) is GlobalDrift,
{
}

/// Without an answer of the core a selector that was set is never called wrong.
pub proof fn law_no_evidence_is_no_finding(outcome: ReassertOutcome)
    requires
        outcome.stage1 is Applied || outcome.stage1 is Abandoned,
    ensures
        selector_finding(outcome, None) is Match,
{
}

/// The texts that a finding carries: what it is about, what was wanted and what was found.
pub open spec fn selector_names(f: SelectorFinding) -> Seq<Seq<char>> {
    match f {
        SelectorFinding::Match => Seq::empty(),
        SelectorFinding::NeverReasserted { selected_id } => seq![selected_id],
        SelectorFinding::ReassertFailed { member_tag } => seq![member_tag],
        SelectorFinding::GlobalDrift { want, got, rule_drifts: _ } => seq![want, got],
        SelectorFinding::RuleDrift { count, sample_tag, want, got } => seq![
            sample_tag,
            want,
            got,
            decimal(count),
        ],
    }
}

/// What stands inside a part of a text stands in the text.
proof fn lemma_occurs_inside(
    open: Seq<char>,
    front: Seq<char>,
    x: Seq<char>,
    back: Seq<char>,
    end: Seq<char>,
)
    ensures
        occurs_in(open + (front + x + back) + end, x),
{
    lemma_occurs_between(open + (front + x + back) + end, open + front, x, back + end);
}

/// A warning about the selectors names everything that was found.
pub proof fn law_a_selector_warning_names_what_was_found(f: SelectorFinding, i: int)
    ensures
        0 <= i < selector_names(f).len() ==> occurs_in(selector_text(f), selector_names(f)[i]),
{
    if 0 <= i < selector_names(f).len() {
        lemma_detail_names(f, i);
        let x = selector_names(f)[i];
        let d = selector_detail(f);
        let at = choose|at: int| #[trigger] occurs_at(d, x, at);
        let front = d.subrange(0, at);
        let back = d.subrange(at + x.len(), d.len() as int);
        assert(d =~= front + x + back);
        lemma_occurs_inside(SELECTOR_OPENING@, front, x, back, SELECTOR_ADVICE@);
    }
}

proof fn lemma_detail_names(f: SelectorFinding, i: int)
    requires
        0 <= i < selector_names(f).len(),
    ensures
        occurs_in(selector_detail(f), selector_names(f)[i]),
{
    let t = selector_detail(f);
    match f {
        SelectorFinding::Match => {},
        SelectorFinding::NeverReasserted { selected_id } => {
            lemma_occurs_between(
                t,
                "：启动后未能把出口切到选中节点（"@,
                selected_id,
                " 不在本次启动的节点表中），流量可能仍走上一次的出口。"@,
            );
        },
        SelectorFinding::ReassertFailed { member_tag } => {
            lemma_occurs_between(
                t,
                "：启动后未能把出口切到选中节点「"@,
                member_tag,
                "」（管理接口无响应），流量可能仍走上一次的出口。"@,
            );
        },
        SelectorFinding::GlobalDrift { want, got, rule_drifts } => {
            let more = if rule_drifts > 0 {
                "，另有 "@ + decimal(rule_drifts) + " 条分流规则的出口也不一致"@
            } else {
                Seq::empty()
            };
            lemma_two_inside("选中节点「"@, want, "」，核实际出口为「"@, got, "」"@, more, "。"@);
        },
        SelectorFinding::RuleDrift { count, sample_tag, want, got } => {
            lemma_four_inside(
                "：有 "@,
                decimal(count),
                " 条分流规则未走设定的节点（如「"@,
                sample_tag,
                "」实际走「"@,
                got,
                "」，应为「"@,
                want,
                "」）。"@,
            );
        },
    }
}

proof fn lemma_two_inside(
    a: Seq<char>,
    x: Seq<char>,
    b: Seq<char>,
    y: Seq<char>,
    c: Seq<char>,
    more: Seq<char>,
    d: Seq<char>,
)
    ensures
        occurs_in(a + x + b + y + c + more + d, x),
        occurs_in(a + x + b + y + c + more + d, y),
{
    let t = a + x + b + y + c + more + d;
    lemma_occurs_between(t, a, x, b + y + c + more + d);
    lemma_occurs_between(t, a + x + b, y, c + more + d);
}

proof fn lemma_four_inside(
    a: Seq<char>,
    x: Seq<char>,
    b: Seq<char>,
    y: Seq<char>,
    c: Seq<char>,
    z: Seq<char>,
    d: Seq<char>,
    w: Seq<char>,
    e: Seq<char>,
)
    ensures
        occurs_in(a + x + b + y + c + z + d + w + e, x),
        occurs_in(a + x + b + y + c + z + d + w + e, y),
        occurs_in(a + x + b + y + c + z + d + w + e, z),
        occurs_in(a + x + b + y + c + z + d + w + e, w),
{
    let t = a + x + b + y + c + z + d + w + e;
    lemma_occurs_between(t, a, x, b + y + c + z + d + w + e);
    lemma_occurs_between(t, a + x + b, y, c + z + d + w + e);
    lemma_occurs_between(t, a + x + b + y + c, z, d + w + e);
    lemma_occurs_between(t, a + x + b + y + c + z + d, w, e);
}

/// What is found of the selectors: a run that was overtaken finds nothing, a member that could not
/// be set is found as it is, and one that was set is compared with what the core says of its
/// selectors, the global one first. A selector that the core says nothing of is no finding.
pub proof fn law_selectors_are_compared_with_what_the_core_says(
    outcome: ReassertOutcome,
    groups: Option<&Vec<(String, String)>>,
    r: SelectorAttestation,
    i: int,
)
    requires
        call_ensures(attest_runtime_selection, (&outcome, groups), r),
    ensures
        outcome.stage1 is Abandoned ==> r is Match,
        outcome.stage1 matches Stage1Outcome::UnresolvedTag { selected_id } ==> (
        r matches SelectorAttestation::NeverReasserted { selected_id: s } && s@ == selected_id@),
        outcome.stage1 matches Stage1Outcome::PutExhausted { member_tag } ==> (
        r matches SelectorAttestation::ReassertFailed { member_tag: m } && m@ == member_tag@),
        outcome.stage1 matches Stage1Outcome::Applied { member_tag } ==> {
            let held = if groups is Some {
                table_get(table_view(groups->0@), PROXY_SELECTOR_TAG@)
            } else {
                None
            };
            &&& groups is None ==> r is Match
            &&& r is GlobalDrift <==> held is Some && held->0 != member_tag@
            &&& r matches SelectorAttestation::GlobalDrift { want, got, rule_drifts: _ } ==> want@
                == member_tag@ && held == Some(got@)
            &&& groups is Some && 0 <= i < outcome.rule_intents@.len() ==> {
                let rule = table_get(table_view(groups->0@), outcome.rule_intents@[i].0@);
                rule is Some && rule->0 != outcome.rule_intents@[i].1@ ==> r is GlobalDrift || r
                    is RuleDrift
            }
            &&& r is Match || r is GlobalDrift || r is RuleDrift
            &&& r matches SelectorAttestation::RuleDrift { count, sample_tag, want, got } ==> {
                &&& groups is Some
                &&& 0 < count <= outcome.rule_intents@.len()
                &&& want@ != got@
                &&& table_get(table_view(groups->0@), sample_tag@) == Some(got@)
                &&& table_view(outcome.rule_intents@).contains((sample_tag@, want@))
            }
        },
{
    broadcast use vstd::seq_lib::group_filter_ensures;

    if let Stage1Outcome::Applied { member_tag } = outcome.stage1 {
        if groups is Some {
            let g = table_view(groups->0@);
            let intents = table_view(outcome.rule_intents@);
            let p = |x: (Seq<char>, Seq<char>)| drifted(x, g);
            let wrong = intents.filter(p);
            assert(wrong == drifts(intents, g));
            assert(intents.len() == outcome.rule_intents@.len());
            if 0 <= i < intents.len() {
                assert(intents[i] == (outcome.rule_intents@[i].0@, outcome.rule_intents@[i].1@));
                let rule = table_get(g, intents[i].0);
                if rule is Some && rule->0 != intents[i].1 {
                    assert(p(intents[i]));
                    assert(wrong.contains(intents[i]));
                    assert(wrong.len() > 0);
                }
            }
            if wrong.len() > 0 {
                assert(p(wrong[0]));
                assert(wrong.contains(wrong[0]));
                intents.lemma_filter_contains_rev(p, wrong[0]);
                let k = choose|k: int| 0 <= k < intents.len() && intents[k] == wrong[0];
                assert(intents.contains((wrong[0].0, wrong[0].1)));
            }
        }
    }
}

/// How many rules are wrong is how many of them the core holds something else for, and the first of
/// them is the one that is named.
pub proof fn law_wrong_rules_are_counted(
    outcome: ReassertOutcome,
    groups: Vec<(String, String)>,
    r: SelectorAttestation,
    i: int,
)
    requires
        call_ensures(attest_runtime_selection, (&outcome, Some(&groups)), r),
        0 <= i < outcome.rule_intents@.len(),
        table_get(table_view(groups@), outcome.rule_intents@[i].0@) is Some,
        table_get(table_view(groups@), outcome.rule_intents@[i].0@)->0
            != outcome.rule_intents@[i].1@,
        forall|k: int|
            0 <= k < outcome.rule_intents@.len() && k != i ==> {
                let held = table_get(
                    table_view(groups@),
                    (#[trigger] outcome.rule_intents@[k]).0@,
                );
                held is None || held == Some(outcome.rule_intents@[k].1@)
            },
    ensures
        r matches SelectorAttestation::GlobalDrift { rule_drifts, .. } ==> rule_drifts == 1,
        r matches SelectorAttestation::RuleDrift { count, sample_tag, want, .. } ==> count == 1
            && sample_tag@ == outcome.rule_intents@[i].0@ && want@ == outcome.rule_intents@[i].1@,
{
    let g = table_view(groups@);
    let intents = table_view(outcome.rule_intents@);
    let p = |x: (Seq<char>, Seq<char>)| drifted(x, g);
    assert(intents.len() == outcome.rule_intents@.len());
    assert forall|k: int| 0 <= k < intents.len() && k != i implies !p(#[trigger] intents[k]) by {
        assert(intents[k] == (outcome.rule_intents@[k].0@, outcome.rule_intents@[k].1@));
    }
    assert(intents[i] == (outcome.rule_intents@[i].0@, outcome.rule_intents@[i].1@));
    assert(p(intents[i]));
    lemma_one_kept(intents, p, i);
    assert(drifts(intents, g) == intents.filter(p));
}

proof fn lemma_one_kept<A>(s: Seq<A>, p: spec_fn(A) -> bool, i: int)
    requires
        0 <= i < s.len(),
        p(s[i]),
        forall|k: int| 0 <= k < s.len() && k != i ==> !p(#[trigger] s[k]),
    ensures
        s.filter(p) == seq![s[i]],
    decreases s.len(),
{
    reveal(Seq::filter);
    let u = s.drop_last();
    if i == s.len() - 1 {
        lemma_none_kept(u, p);
    } else {
        assert(!p(s[s.len() - 1]));
        assert(u[i] == s[i]);
        lemma_one_kept(u, p, i);
    }
    assert(s.filter(p) =~= seq![s[i]]);
}

proof fn lemma_none_kept<A>(s: Seq<A>, p: spec_fn(A) -> bool)
    requires
        forall|k: int| 0 <= k < s.len() ==> !p(#[trigger] s[k]),
    ensures
        s.filter(p) == Seq::<A>::empty(),
    decreases s.len(),
{
    reveal(Seq::filter);
    if s.len() > 0 {
        assert(!p(s[s.len() - 1]));
        lemma_none_kept(s.drop_last(), p);
    }
    assert(s.filter(p) =~= Seq::<A>::empty());
}

/// The identifiers of a configuration's nodes are those that its entries name, each once and in
/// order; and the selected node is there exactly where an entry names it.
pub proof fn law_nodes_are_told_by_their_entries(
    config: Json,
    ids: Vec<String>,
    present: bool,
    items: Seq<JsonView>,
    i: int,
    id: Seq<char>,
)
    requires
        call_ensures(server_ids, (&config,), ids),
        call_ensures(selected_server_present, (&config,), present),
        config@.items_at("servers"@) == Some(items),
    ensures
        0 <= i < items.len() && items[i].text_at("id"@) == Some(id) ==> views(ids@).contains(id),
        views(ids@).contains(id) ==> exists|k: int|
            0 <= k < items.len() && (#[trigger] items[k]).text_at("id"@) == Some(id),
        strictly_sorted(views(ids@)),
        present ==> config@.text_at("selectedServerId"@) is Some && views(ids@).contains(
            config@.text_at("selectedServerId"@)->0,
        ),
        config@.text_at("selectedServerId"@) == Some(id) && views(ids@).contains(id) ==> present,
{
    assert(views(ids@).contains(id) <==> has_server(config@, id));
    if config@.text_at("selectedServerId"@) is Some {
        let s = config@.text_at("selectedServerId"@)->0;
        assert(views(ids@).contains(s) <==> has_server(config@, s));
    }
    if 0 <= i < items.len() && items[i].text_at("id"@) == Some(id) {
        assert(items[i].text_at("id"@) == Some(id));
        assert(has_server(config@, id));
    }
}

/// What the user is told of the selectors names everything that was found, and is nothing exactly
/// where they are in order. What is wanted stands before what was found of the global selector, and
/// behind it of a rule's.
pub proof fn law_what_is_told_of_the_selectors(found: SelectorAttestation, r: String)
    requires
        call_ensures(SelectorAttestation::user_message, (&found,), r),
    ensures
        r@.len() == 0 <==> found is Match,
        found matches SelectorAttestation::NeverReasserted { selected_id } ==> occurs_in(
            r@,
            selected_id@,
        ),
        found matches SelectorAttestation::ReassertFailed { member_tag } ==> occurs_in(
            r@,
            member_tag@,
        ),
        found matches SelectorAttestation::GlobalDrift { want, got, rule_drifts: _ } ==> exists|
            a: int,
            b: int,
        |
            a + want@.len() <= b && #[trigger] occurs_at(r@, want@, a) && #[trigger] occurs_at(
                r@,
                got@,
                b,
            ),
        found matches SelectorAttestation::RuleDrift { count, sample_tag, want, got } ==> occurs_in(
            r@,
            sample_tag@,
        ) && occurs_in(r@, decimal(count as nat)) && exists|a: int, b: int|
            a + got@.len() <= b && #[trigger] occurs_at(r@, got@, a) && #[trigger] occurs_at(
                r@,
                want@,
                b,
            ),
{
    law_a_selector_warning_opens_the_same_way(found@);
    law_a_selector_warning_names_what_was_found(found@, 0);
    law_a_selector_warning_names_what_was_found(found@, 3);
    match found {
        SelectorAttestation::GlobalDrift { want, got, rule_drifts } => {
            let more = if rule_drifts > 0 {
                "，另有 "@ + decimal(rule_drifts as nat) + " 条分流规则的出口也不一致"@
            } else {
                Seq::empty()
            };
            lemma_one_before_the_other(
                SELECTOR_OPENING@ + "选中节点「"@,
                want@,
                "」，核实际出口为「"@,
                got@,
                "」"@ + more + "。"@ + SELECTOR_ADVICE@,
            );
            assert(r@ =~= SELECTOR_OPENING@ + "选中节点「"@ + want@ + "」，核实际出口为「"@ + got@ + (
            "」"@ + more + "。"@ + SELECTOR_ADVICE@));
        },
        SelectorAttestation::RuleDrift { count, sample_tag, want, got } => {
            let front = SELECTOR_OPENING@ + "：有 "@ + decimal(count as nat)
                + " 条分流规则未走设定的节点（如「"@ + sample_tag@ + "」实际走「"@;
            lemma_one_before_the_other(
                front,
                got@,
                "」，应为「"@,
                want@,
                "」）。"@ + SELECTOR_ADVICE@,
            );
            assert(r@ =~= front + got@ + "」，应为「"@ + want@ + ("」）。"@ + SELECTOR_ADVICE@));
        },
        _ => {},
    }
}

proof fn lemma_one_before_the_other(
    a: Seq<char>,
    x: Seq<char>,
    b: Seq<char>,
    y: Seq<char>,
    c: Seq<char>,
)
    ensures
        exists|i: int, j: int|
            i + x.len() <= j && #[trigger] occurs_at(a + x + b + y + c, x, i)
                && #[trigger] occurs_at(a + x + b + y + c, y, j),
{
    let t = a + x + b + y + c;
    let i = a.len() as int;
    let j = i + x.len() + b.len();
    assert(t.subrange(i, i + x.len()) =~= x);
    assert(t.subrange(j, j + y.len()) =~= y);
    assert(occurs_at(t, x, i));
    assert(occurs_at(t, y, j));
}

} // verus!
