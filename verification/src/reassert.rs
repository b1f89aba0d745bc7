//! Setting the selectors of a core to what the user wants: after it came up, after a switch, and
//! in the background where a saved selection has not reached it.

use vstd::prelude::*;

use crate::core_config::{DIRECT_TAG, PROXY_SELECTOR_TAG};
use crate::json::{with_field, Json, JsonView};
use crate::runtime::{nonempty_text, only_status_differs, same_session, ProxyRuntime, RuleTarget};
use crate::selection::{
    attest_runtime_selection, groups_view, selector_finding, selector_text, ReassertOutcome,
    SelectorAttestation, Stage1Outcome,
};
use crate::status::{ErrorCode, StatusView};
use crate::switch::{applied, operation_is_current, rule_target_of, targets_by_key};
use crate::table::{lookup, table_get, table_view};
use crate::text::{occurs_in, opt_view, same_text, text_in_list, views};

verus! {

/// How often setting the global selector is tried.
pub const REASSERT_MAX_ROUNDS: u32 = 10;

/// The pause between two tries.
pub const REASSERT_RETRY_DELAY_MS: u64 = 300;

/// The first pause of the background reconciliation.
pub const RECONCILE_FIRST_DELAY_MS: u64 = 200;

/// Its longest pause.
pub const RECONCILE_LONGEST_DELAY_MS: u64 = 5000;

/// What setting the selectors does next.
pub enum ReassertAction {
    /// Set the global selector to this member.
    Put { member_tag: String },
    /// Wait before the next try.
    Pause(u64),
    /// Begin the next try.
    TryAgain,
    /// Go on with the selectors of the rules.
    Rules,
    /// Another operation took over.
    Abandon,
}

/// Setting the selectors, under way.
pub struct Reassert {
    pub my_gen: u64,
    pub intent_generation: u64,
    /// Tries that are left, the one under way not counted.
    pub rounds_left: u32,
    pub stage1: Stage1Outcome,
    /// What the try under way is setting the selector to.
    pub wanted: Option<String>,
    /// The node in whose place the try under way sets no proxy, until the user has signed in to it.
    pub fallback_for: Option<String>,
}

/// The node that is wanted now.
pub struct WantedExit {
    /// Its identifier, where one is selected.
    pub target_id: Option<String>,
    /// The selection means no proxy.
    pub is_direct: bool,
    /// The node needs the user to sign in first, and until then there is no proxy.
    pub login_fallback: bool,
}

/// The identifiers and tags of the nodes that the core was started with.
pub open spec fn started_tags(rt: ProxyRuntime) -> Seq<(Seq<char>, Seq<char>)> {
    match rt.switch_snapshot {
        Some(s) => table_view(s.id_to_tag@),
        None => Seq::empty(),
    }
}

/// The tag of the node that is wanted, where the core knows it.
pub open spec fn wanted_tag(rt: ProxyRuntime, w: WantedExit) -> Option<Seq<char>> {
    if w.is_direct {
        Some(DIRECT_TAG@)
    } else {
        match nonempty_text(opt_view(w.target_id)) {
            Some(id) => table_get(started_tags(rt), id),
            None => None,
        }
    }
}

/// The member that the global selector is set to.
pub open spec fn wanted_member(rt: ProxyRuntime, w: WantedExit) -> Option<Seq<char>> {
    match wanted_tag(rt, w) {
        Some(t) => Some(
            if w.login_fallback {
                DIRECT_TAG@
            } else {
                t
            },
        ),
        None => None,
    }
}

/// Who is named where the core does not know the node.
pub open spec fn named_selection(w: WantedExit) -> Seq<char> {
    match nonempty_text(opt_view(w.target_id)) {
        Some(id) => id,
        None => "<未选中>"@,
    }
}

/// The node in whose place there is no proxy until the user has signed in to it.
pub open spec fn fallback_node(w: WantedExit) -> Option<Seq<char>> {
    if w.login_fallback {
        nonempty_text(opt_view(w.target_id))
    } else {
        None
    }
}

/// A try begins, with what is wanted now, and leads to `a`.
pub open spec fn begins_round(
    before: Reassert,
    after: Reassert,
    rt: ProxyRuntime,
    w: WantedExit,
    a: ReassertAction,
) -> bool {
    if before.rounds_left == 0 {
        a is Rules && after == before
    } else if !operation_is_current(rt, before.my_gen, before.intent_generation) {
        a is Abandon && after == before
    } else {
        &&& after == (Reassert {
            rounds_left: after.rounds_left,
            stage1: after.stage1,
            wanted: after.wanted,
            fallback_for: after.fallback_for,
            ..before
        })
        &&& after.rounds_left == before.rounds_left - 1
        &&& match wanted_member(rt, w) {
            None => {
                &&& a is Rules
                &&& after.stage1 matches Stage1Outcome::UnresolvedTag { selected_id }
                &&& selected_id@ == named_selection(w)
                &&& after.wanted == before.wanted
                &&& after.fallback_for == before.fallback_for
            },
            Some(member) => {
                &&& after.stage1 matches Stage1Outcome::PutExhausted { member_tag }
                &&& member_tag@ == member
                &&& opt_view(after.wanted) == Some(member)
                &&& opt_view(after.fallback_for) == fallback_node(w)
                &&& if member.len() == 0 {
                    a == ReassertAction::Pause(REASSERT_RETRY_DELAY_MS)
                } else {
                    a matches ReassertAction::Put { member_tag } && member_tag@ == member
                }
            },
        }
    }
}

/// The global selector was set, or the core refused, and that leads to `a`. `engaged` is the node
/// that is marked as having no proxy in its place.
pub open spec fn answers_put(
    before: Reassert,
    after: Reassert,
    rt_before: ProxyRuntime,
    rt_after: ProxyRuntime,
    set: bool,
    a: ReassertAction,
    engaged: Option<Seq<char>>,
) -> bool {
    if !set {
        &&& a == ReassertAction::Pause(REASSERT_RETRY_DELAY_MS)
        &&& engaged is None
        &&& after == before
        &&& rt_after == rt_before
    } else if !operation_is_current(rt_before, before.my_gen, before.intent_generation) {
        &&& a is Abandon
        &&& engaged is None
        &&& after == before
        &&& rt_after == (ProxyRuntime { reconcile_required: true, ..rt_before })
    } else {
        &&& a is Rules
        &&& engaged == opt_view(before.fallback_for)
        &&& after == (Reassert { stage1: after.stage1, wanted: None, fallback_for: None, ..before })
        &&& after.stage1 matches Stage1Outcome::Applied { member_tag }
        &&& member_tag@ == before.wanted->0@
        &&& rt_after == rt_before
    }
}

impl Reassert {
    /// The tries that are left, and nothing set yet.
    pub fn begin(my_gen: u64, intent_generation: u64) -> (r: Self)
        ensures
            r.my_gen == my_gen,
            r.intent_generation == intent_generation,
            r.rounds_left == REASSERT_MAX_ROUNDS,
            r.stage1 matches Stage1Outcome::PutExhausted { member_tag } && member_tag@
                == Seq::<char>::empty(),
            r.wanted is None,
            r.fallback_for is None,
    {
        Reassert {
            my_gen,
            intent_generation,
            rounds_left: REASSERT_MAX_ROUNDS,
            stage1: Stage1Outcome::PutExhausted { member_tag: String::new() },
            wanted: None,
            fallback_for: None,
        }
    }

    /// A try begins. An empty member is never put: the try counts as failed.
    pub fn round(&mut self, rt: &ProxyRuntime, w: &WantedExit) -> (a: ReassertAction)
        ensures
            begins_round(*old(self), *final(self), *rt, *w, a),
    {
        if self.rounds_left == 0 {
            return ReassertAction::Rules;
        }
        if !rt.selector_operation_is_current(self.my_gen, self.intent_generation) {
            return ReassertAction::Abandon;
        }
        self.rounds_left = self.rounds_left - 1;
        let target: Option<&String> = match &w.target_id {
            Some(s) => if s.as_str().is_empty() {
                None
            } else {
                Some(s)
            },
            None => None,
        };
        let tag: Option<String> = if w.is_direct {
            Some(DIRECT_TAG.to_owned())
        } else {
            match target {
                Some(id) => match &rt.switch_snapshot {
                    Some(s) => match lookup(&s.id_to_tag, id.as_str()) {
                        Some(t) => Some(t.clone()),
                        None => None,
                    },
                    None => None,
                },
                None => None,
            }
        };
        let tag = match tag {
            Some(t) => t,
            None => {
                let selected_id = match target {
                    Some(id) => id.clone(),
                    None => "<未选中>".to_owned(),
                };
                self.stage1 = Stage1Outcome::UnresolvedTag { selected_id };
                return ReassertAction::Rules;
            },
        };
        let member = if w.login_fallback {
            DIRECT_TAG.to_owned()
        } else {
            tag
        };
        self.stage1 = Stage1Outcome::PutExhausted { member_tag: member.clone() };
        self.wanted = Some(member.clone());
        self.fallback_for = match target {
            Some(id) => if w.login_fallback {
                Some(id.clone())
            } else {
                None
            },
            None => None,
        };
        if member.as_str().is_empty() {
            return ReassertAction::Pause(REASSERT_RETRY_DELAY_MS);
        }
        ReassertAction::Put { member_tag: member }
    }

    /// The global selector was set, or the core refused. Where another operation took over while
    /// it was being set, that operation is told that the selectors may be wrong. With what follows
    /// comes the node that is now to be marked as having no proxy in its place: the mark moves with
    /// the selector, so it is set only where the selector was, and still counts.
    pub fn on_put(&mut self, rt: &mut ProxyRuntime, set: bool) -> (r: (
        ReassertAction,
        Option<String>,
    ))
        requires
            old(self).wanted is Some,
        ensures
            answers_put(
                *old(self),
                *final(self),
                *old(rt),
                *final(rt),
                set,
                r.0,
                opt_view(r.1),
            ),
    {
        if !set {
            return (ReassertAction::Pause(REASSERT_RETRY_DELAY_MS), None);
        }
        if !rt.selector_operation_is_current(self.my_gen, self.intent_generation) {
            rt.reconcile_required = true;
            return (ReassertAction::Abandon, None);
        }
        if let Some(m) = self.wanted.take() {
            self.stage1 = Stage1Outcome::Applied { member_tag: m };
        }
        (ReassertAction::Rules, self.fallback_for.take())
    }

    /// The pause is over.
    pub fn on_pause(&self, rt: &ProxyRuntime) -> (a: ReassertAction)
        ensures
            if operation_is_current(*rt, self.my_gen, self.intent_generation) {
                a is TryAgain
            } else {
                a is Abandon
            },
    {
        if rt.selector_operation_is_current(self.my_gen, self.intent_generation) {
            ReassertAction::TryAgain
        } else {
            ReassertAction::Abandon
        }
    }

    /// The selectors of the rules were gone through, or another operation took over.
    pub fn finish(self, pass: RulePass) -> (r: ReassertOutcome)
        requires
            pass.wf(),
            pass.state != PassState::Working,
        ensures
            if pass.state == PassState::Done {
                &&& r.stage1 == self.stage1
                &&& table_view(r.rule_intents@) == rule_puts(pass.tables, table_view(pass.requests@))
            } else {
                &&& r.stage1 is Abandoned
                &&& r.rule_intents@.len() == 0
            },
    {
        if pass.state == PassState::Done {
            assert(table_view(pass.requests@).take(pass.requests@.len() as int) =~= table_view(
                pass.requests@,
            ));
            ReassertOutcome { stage1: self.stage1, rule_intents: pass.intents }
        } else {
            abandoned()
        }
    }
}

/// A node is marked as having no proxy in its place exactly where the try meant it so, its put
/// succeeded and no other operation has taken over; and what was put is then no proxy.
pub proof fn law_the_mark_moves_with_the_selector(
    before: Reassert,
    trying: Reassert,
    after: Reassert,
    rt: ProxyRuntime,
    rt_put: ProxyRuntime,
    rt_after: ProxyRuntime,
    w: WantedExit,
    put: ReassertAction,
    set: bool,
    a: ReassertAction,
    engaged: Option<Seq<char>>,
    id: Seq<char>,
)
    requires
        begins_round(before, trying, rt, w, put),
        put is Put,
        answers_put(trying, after, rt_put, rt_after, set, a, engaged),
    ensures
        engaged == Some(id) <==> {
            &&& set
            &&& operation_is_current(rt_put, before.my_gen, before.intent_generation)
            &&& w.login_fallback
            &&& nonempty_text(opt_view(w.target_id)) == Some(id)
        },
        engaged is Some ==> {
            &&& put->member_tag@ == DIRECT_TAG@
            &&& after.stage1 matches Stage1Outcome::Applied { member_tag }
            &&& member_tag@ == DIRECT_TAG@
        },
{
}

/// What is left where another operation took over.
pub fn abandoned() -> (r: ReassertOutcome)
    ensures
        r.stage1 is Abandoned,
        r.rule_intents@.len() == 0,
{
    ReassertOutcome { stage1: Stage1Outcome::Abandoned, rule_intents: Vec::new() }
}

/// A routing rule of the configuration.
pub struct RoutingRule {
    pub id: String,
    pub enabled: bool,
    /// Its traffic goes through a node.
    pub through_proxy: bool,
    /// The node, where it names one of its own.
    pub target_server_id: Option<String>,
}

/// The rule has a selector of its own to be set: it is enabled, its traffic goes through a node
/// and it names that node.
pub open spec fn names_own_node(r: RoutingRule) -> bool {
    r.enabled && r.through_proxy && r.target_server_id is Some
}

/// The keys and nodes of the rules that name a node of their own, in order.
pub open spec fn rule_requests_of(prefix: Seq<char>, rules: Seq<RoutingRule>) -> Seq<
    (Seq<char>, Seq<char>),
>
    decreases rules.len(),
{
    if rules.len() == 0 {
        Seq::empty()
    } else {
        let before = rule_requests_of(prefix, rules.drop_last());
        let r = rules.last();
        if names_own_node(r) {
            before.push((prefix + r.id@, r.target_server_id->0@))
        } else {
            before
        }
    }
}

fn add_requests(out: &mut Vec<(String, String)>, prefix: &str, rules: &Vec<RoutingRule>)
    ensures
        table_view(final(out)@) == table_view(old(out)@) + rule_requests_of(prefix@, rules@),
{
    let mut i: usize = 0;
    assert(table_view(out@) + rule_requests_of(prefix@, rules@.take(0)) =~= table_view(out@));
    while i < rules.len()
        invariant
            i <= rules@.len(),
            table_view(out@) == table_view(old(out)@) + rule_requests_of(
                prefix@,
                rules@.take(i as int),
            ),
        decreases rules@.len() - i,
    {
        let ghost t = rules@.take(i + 1);
        assert(t.drop_last() =~= rules@.take(i as int));
        assert(t.last() == rules@[i as int]);
        let ghost before = out@;
        if rules[i].enabled && rules[i].through_proxy {
            if let Some(target) = &rules[i].target_server_id {
                let key = prefix.to_owned().concat(rules[i].id.as_str());
                let ghost entry = (key@, target@);
                out.push((key, target.clone()));
                assert(table_view(out@) =~= table_view(before).push(entry));
                assert(table_view(old(out)@) + rule_requests_of(
                    prefix@,
                    rules@.take(i as int),
                ).push(entry) =~= table_view(before).push(entry));
            }
        }
        i += 1;
    }
    assert(rules@.take(i as int) =~= rules@);
}

/// The keys and nodes of all rules that name a node of their own: those that the user wrote, then
/// those of applications.
pub fn rule_requests(custom: &Vec<RoutingRule>, apps: &Vec<RoutingRule>) -> (r: Vec<
    (String, String),
>)
    ensures
        table_view(r@) == rule_requests_of("custom:"@, custom@) + rule_requests_of("app:"@, apps@),
{
    let mut out: Vec<(String, String)> = Vec::new();
    assert(table_view(out@) =~= Seq::empty());
    add_requests(&mut out, "custom:", custom);
    assert(table_view(out@) =~= rule_requests_of("custom:"@, custom@));
    add_requests(&mut out, "app:", apps);
    out
}

/// What a pass over the rules knows of the running core: a copy from when the pass began.
pub struct RuleTables {
    /// Node identifier to outbound tag.
    pub id_to_tag: Vec<(String, String)>,
    pub rule_target: Vec<RuleTarget>,
}

/// The selector and the member of the rule `key` for the node `target`, where the core has a
/// selector for the rule and knows the node.
pub open spec fn rule_put(t: RuleTables, key: Seq<char>, target: Seq<char>) -> Option<
    (Seq<char>, Seq<char>),
> {
    let targets = targets_by_key(t.rule_target@);
    match table_get(table_view(t.id_to_tag@), target) {
        Some(member) => if targets.dom().contains(key) {
            Some((targets[key].0, member))
        } else {
            None
        },
        None => None,
    }
}

/// What the requests come to, in their order. Without a core that is known nothing is set.
pub open spec fn rule_puts(tables: Option<RuleTables>, requests: Seq<(Seq<char>, Seq<char>)>) -> Seq<
    (Seq<char>, Seq<char>),
>
    decreases requests.len(),
{
    if requests.len() == 0 {
        Seq::empty()
    } else {
        let before = rule_puts(tables, requests.drop_last());
        match tables {
            None => before,
            Some(t) => match rule_put(t, requests.last().0, requests.last().1) {
                Some(p) => before.push(p),
                None => before,
            },
        }
    }
}

/// How far a pass over the rules is.
#[derive(Clone, Copy, PartialEq, Eq, Structural, Debug)]
pub enum PassState {
    Working,
    Done,
    /// Another operation took over.
    Abandoned,
}

/// Setting the selectors of the rules, one after the other.
pub struct RulePass {
    pub my_gen: u64,
    pub intent_generation: u64,
    pub tables: Option<RuleTables>,
    /// The keys and nodes of the rules.
    pub requests: Vec<(String, String)>,
    /// How many of them have been dealt with.
    pub at: usize,
    /// What is being set: the selector and the member.
    pub putting: Option<(String, String)>,
    /// What was put so far, whether or not the core took it.
    pub intents: Vec<(String, String)>,
    pub state: PassState,
}

/// What a pass does next.
pub enum RuleStep {
    /// Set this selector to this member.
    Put { selector_tag: String, member_tag: String },
    /// All rules have been dealt with.
    Done,
    /// Another operation took over.
    Abandon,
}

/// The selector and the member that are being set.
pub open spec fn putting_view(p: Option<(String, String)>) -> Option<(Seq<char>, Seq<char>)> {
    match p {
        Some(x) => Some((x.0@, x.1@)),
        None => None,
    }
}

/// Nothing more comes of the requests from `from` up to `to`.
proof fn lemma_nothing_put(
    tables: Option<RuleTables>,
    requests: Seq<(Seq<char>, Seq<char>)>,
    from: int,
    to: int,
)
    requires
        0 <= from <= to <= requests.len(),
        tables matches Some(t) ==> forall|k: int|
            from <= k < to ==> rule_put(t, (#[trigger] requests[k]).0, requests[k].1) is None,
    ensures
        rule_puts(tables, requests.take(to)) == rule_puts(tables, requests.take(from)),
    decreases to - from,
{
    if from < to {
        let t = requests.take(to);
        assert(t.drop_last() =~= requests.take(to - 1));
        assert(t.last() == requests[to - 1]);
        lemma_nothing_put(tables, requests, from, to - 1);
    }
}

impl RulePass {
    /// What was put so far is what the requests that have been dealt with come to.
    pub open spec fn wf(self) -> bool {
        let requests = table_view(self.requests@);
        &&& self.at <= self.requests@.len()
        &&& table_view(self.intents@) == rule_puts(self.tables, requests.take(self.at as int))
        &&& self.state == PassState::Done ==> self.at == self.requests@.len()
        &&& self.putting is Some ==> {
            &&& self.state == PassState::Working
            &&& self.at < self.requests@.len()
            &&& self.tables matches Some(t)
            &&& rule_put(t, requests[self.at as int].0, requests[self.at as int].1) == putting_view(
                self.putting,
            )
        }
    }

    /// A pass begins, over a copy of what is known of the core. Without a core that is known there
    /// is nothing to do, and nobody who could have taken over.
    pub fn begin(
        rt: &ProxyRuntime,
        my_gen: u64,
        intent_generation: u64,
        requests: Vec<(String, String)>,
    ) -> (r: Self)
        ensures
            r.wf(),
            r.my_gen == my_gen,
            r.intent_generation == intent_generation,
            r.requests == requests,
            r.putting is None,
            r.intents@.len() == 0,
            match rt.switch_snapshot {
                Some(s) => {
                    &&& r.tables matches Some(t)
                    &&& t.id_to_tag@ == s.id_to_tag@
                    &&& t.rule_target@ == s.rule_target@
                    &&& r.state == PassState::Working
                    &&& r.at == 0
                },
                None => r.tables is None && r.state == PassState::Done,
            },
    {
        let intents: Vec<(String, String)> = Vec::new();
        match &rt.switch_snapshot {
            Some(s) => {
                let tables = RuleTables {
                    id_to_tag: copied_pairs(&s.id_to_tag),
                    rule_target: copied_targets(&s.rule_target),
                };
                assert(table_view(intents@) =~= rule_puts(
                    Some(tables),
                    table_view(requests@).take(0),
                ));
                RulePass {
                    my_gen,
                    intent_generation,
                    tables: Some(tables),
                    requests,
                    at: 0,
                    putting: None,
                    intents,
                    state: PassState::Working,
                }
            },
            None => {
                let at: usize = requests.len();
                proof {
                    let all = table_view(requests@);
                    lemma_nothing_put(None, all, 0, at as int);
                    assert(table_view(intents@) =~= rule_puts(None, all.take(0)));
                }
                RulePass {
                    my_gen,
                    intent_generation,
                    tables: None,
                    requests,
                    at,
                    putting: None,
                    intents,
                    state: PassState::Done,
                }
            },
        }
    }

    /// What is set next: whatever the first of the rules left comes to that comes to something. A
    /// rule for which the core has no selector, or whose node it does not know, is passed over.
    /// Before a rule is looked at, the pass looks whether another operation has taken over.
    pub fn next(&mut self, rt: &ProxyRuntime) -> (a: RuleStep)
        requires
            old(self).wf(),
            old(self).putting is None,
            old(self).state == PassState::Working,
        ensures
            final(self).wf(),
            *final(self) == (RulePass {
                at: final(self).at,
                putting: final(self).putting,
                state: final(self).state,
                ..*old(self)
            }),
            old(self).at <= final(self).at,
            if old(self).at == old(self).requests@.len() {
                a is Done && final(self).state == PassState::Done
            } else if !operation_is_current(*rt, old(self).my_gen, old(self).intent_generation) {
                &&& a is Abandon
                &&& *final(self) == (RulePass { state: PassState::Abandoned, ..*old(self) })
            } else {
                let requests = table_view(old(self).requests@);
                &&& old(self).tables matches Some(t) ==> forall|k: int|
                    old(self).at <= k < final(self).at ==> rule_put(
                        t,
                        (#[trigger] requests[k]).0,
                        requests[k].1,
                    ) is None
                &&& if final(self).at == old(self).requests@.len() {
                    &&& a is Done
                    &&& final(self).state == PassState::Done
                    &&& final(self).putting is None
                } else {
                    &&& a matches RuleStep::Put { selector_tag, member_tag }
                    &&& putting_view(final(self).putting) == Some((selector_tag@, member_tag@))
                    &&& final(self).state == PassState::Working
                }
            },
    {
        let ghost requests = table_view(self.requests@);
        if self.at < self.requests.len() && !rt.selector_operation_is_current(
            self.my_gen,
            self.intent_generation,
        ) {
            self.state = PassState::Abandoned;
            return RuleStep::Abandon;
        }
        let ghost start = self.at as int;
        while self.at < self.requests.len()
            invariant
                *self == (RulePass { at: self.at, ..*old(self) }),
                old(self).wf(),
                old(self).putting is None,
                old(self).state == PassState::Working,
                start == old(self).at,
                requests == table_view(old(self).requests@),
                old(self).at < old(self).requests@.len() ==> operation_is_current(
                    *rt,
                    old(self).my_gen,
                    old(self).intent_generation,
                ),
                start <= self.at <= self.requests@.len(),
                self.tables matches Some(t) ==> forall|k: int|
                    start <= k < self.at ==> rule_put(
                        t,
                        (#[trigger] requests[k]).0,
                        requests[k].1,
                    ) is None,
            decreases self.requests@.len() - self.at,
        {
            if let Some(t) = &self.tables {
                let target = self.requests[self.at].1.as_str();
                if let Some(entry) = rule_target_of(&t.rule_target, self.requests[self.at].0.as_str()) {
                    if let Some(member) = lookup(&t.id_to_tag, target) {
                        let selector_tag = entry.selector_tag.clone();
                        let member_tag = member.clone();
                        self.putting = Some((selector_tag.clone(), member_tag.clone()));
                        proof {
                            lemma_nothing_put(self.tables, requests, start, self.at as int);
                        }
                        return RuleStep::Put { selector_tag, member_tag };
                    }
                }
            }
            self.at += 1;
        }
        proof {
            lemma_nothing_put(self.tables, requests, start, self.at as int);
        }
        self.state = PassState::Done;
        RuleStep::Done
    }

    /// What was being set was put, and the core took it or refused: it is an intent either way.
    /// Where another operation took over meanwhile, that operation is told that the selectors may
    /// be wrong.
    pub fn on_put(&mut self, rt: &mut ProxyRuntime)
        requires
            old(self).wf(),
            old(self).putting is Some,
        ensures
            final(self).wf(),
            final(self).putting is None,
            if operation_is_current(*old(rt), old(self).my_gen, old(self).intent_generation) {
                &&& *final(rt) == *old(rt)
                &&& *final(self) == (RulePass {
                    at: (old(self).at + 1) as usize,
                    putting: None,
                    intents: final(self).intents,
                    ..*old(self)
                })
                &&& table_view(final(self).intents@) == table_view(old(self).intents@).push(
                    putting_view(old(self).putting)->0,
                )
            } else {
                &&& *final(rt) == (ProxyRuntime { reconcile_required: true, ..*old(rt) })
                &&& *final(self) == (RulePass {
                    putting: None,
                    state: PassState::Abandoned,
                    ..*old(self)
                })
            },
    {
        if !rt.selector_operation_is_current(self.my_gen, self.intent_generation) {
            rt.reconcile_required = true;
            self.putting = None;
            self.state = PassState::Abandoned;
            return;
        }
        let ghost requests = table_view(self.requests@);
        let ghost n = self.at as int;
        let ghost before = self.intents@;
        assert(self.at < self.requests.len());
        if let Some(p) = self.putting.take() {
            let ghost entry = (p.0@, p.1@);
            self.intents.push(p);
            assert(table_view(self.intents@) =~= table_view(before).push(entry));
        }
        self.at += 1;
        proof {
            let t = requests.take(n + 1);
            assert(t.drop_last() =~= requests.take(n));
            assert(t.last() == requests[n]);
        }
    }
}

fn copied_pairs(v: &Vec<(String, String)>) -> (r: Vec<(String, String)>)
    ensures
        r@ == v@,
{
    let mut out: Vec<(String, String)> = Vec::new();
    let mut i: usize = 0;
    while i < v.len()
        invariant
            i <= v@.len(),
            out@ == v@.take(i as int),
        decreases v@.len() - i,
    {
        out.push((v[i].0.clone(), v[i].1.clone()));
        i += 1;
        assert(v@.take(i as int) =~= v@.take(i - 1).push(v@[i - 1]));
    }
    assert(v@.take(i as int) =~= v@);
    out
}

fn copied_targets(v: &Vec<RuleTarget>) -> (r: Vec<RuleTarget>)
    ensures
        r@ == v@,
{
    let mut out: Vec<RuleTarget> = Vec::new();
    let mut i: usize = 0;
    while i < v.len()
        invariant
            i <= v@.len(),
            out@ == v@.take(i as int),
        decreases v@.len() - i,
    {
        out.push(
            RuleTarget {
                rule_key: v[i].rule_key.clone(),
                selector_tag: v[i].selector_tag.clone(),
                member_tag: v[i].member_tag.clone(),
            },
        );
        i += 1;
        assert(v@.take(i as int) =~= v@.take(i - 1).push(v@[i - 1]));
    }
    assert(v@.take(i as int) =~= v@);
    out
}

impl ProxyRuntime {
    /// The selectors were set because that was required: where that succeeded it is no longer, and
    /// where it failed that is said.
    pub fn reassert_settled(&mut self, outcome: &ReassertOutcome)
        ensures
            match outcome.stage1 {
                Stage1Outcome::Applied { member_tag: _ } => *final(self) == (ProxyRuntime {
                    reconcile_required: false,
                    ..*old(self)
                }),
                Stage1Outcome::Abandoned => *final(self) == *old(self),
                _ => {
                    &&& final(self).status@ == (StatusView {
                        error: Some(selector_text(selector_finding(*outcome, None))),
                        error_code: Some(ErrorCode::ExitMismatch),
                        ..old(self).status@
                    })
                    &&& *final(self) == (ProxyRuntime { status: final(self).status, ..*old(self) })
                },
            },
    {
        match &outcome.stage1 {
            Stage1Outcome::Applied { member_tag: _ } => {
                self.reconcile_required = false;
            },
            Stage1Outcome::Abandoned => {},
            _ => {
                let found = attest_runtime_selection(outcome, None);
                let msg = found.user_message();
                self.set_nonfatal_error(msg.as_str(), ErrorCode::ExitMismatch);
            },
        }
    }

    /// The selectors must be set and the applied configuration cannot be read: that is said.
    pub fn reassert_unreadable(&mut self)
        ensures
            final(self).status@ == (StatusView {
                error: Some(
                    "selector 所有权交接后无法解析运行配置，请重新应用配置以完成对账"@,
                ),
                error_code: Some(ErrorCode::ExitMismatch),
                ..old(self).status@
            }),
            *final(self) == (ProxyRuntime { status: final(self).status, ..*old(self) }),
    {
        self.set_nonfatal_error(
            "selector 所有权交接后无法解析运行配置，请重新应用配置以完成对账",
            ErrorCode::ExitMismatch,
        );
    }

    /// The selectors were set after the core came up. Do the things that wait for it go on?
    pub fn after_selector_reasserted(&self, my_gen: u64) -> (r: bool)
        ensures
            r == (self.generation == my_gen),
    {
        self.generation == my_gen
    }

    /// Is it asked of the core what its selectors hold? Only of a core of this generation that
    /// took the global member.
    pub fn selector_attestation_due(&self, my_gen: u64, outcome: &ReassertOutcome) -> (r: bool)
        ensures
            r == (self.generation == my_gen && self.status@.running && outcome.stage1 is Applied),
    {
        if self.generation != my_gen || !self.core_running() {
            return false;
        }
        match &outcome.stage1 {
            Stage1Outcome::Applied { member_tag: _ } => true,
            _ => false,
        }
    }

    /// What the selectors hold is compared with what they were set to, and a difference is said.
    /// `groups` is what the core answered, where it was asked and did answer.
    pub fn attest_runtime_selector(
        &mut self,
        my_gen: u64,
        outcome: &ReassertOutcome,
        groups: Option<&Vec<(String, String)>>,
    )
        ensures
            if old(self).generation != my_gen || !old(self).status@.running || selector_finding(
                *outcome,
                groups_view(groups),
            ) is Match {
                *final(self) == *old(self)
            } else {
                &&& final(self).status@ == (StatusView {
                    error: Some(selector_text(selector_finding(*outcome, groups_view(groups)))),
                    error_code: Some(ErrorCode::ExitMismatch),
                    ..old(self).status@
                })
                &&& *final(self) == (ProxyRuntime { status: final(self).status, ..*old(self) })
            },
    {
        if self.generation != my_gen || !self.core_running() {
            return;
        }
        let found = attest_runtime_selection(outcome, groups);
        match &found {
            SelectorAttestation::Match => {},
            _ => {
                let msg = found.user_message();
                self.set_nonfatal_error(msg.as_str(), ErrorCode::ExitMismatch);
            },
        }
    }
}

/// How the background reconciliation ended.
#[derive(Clone, Copy, PartialEq, Eq, Structural, Debug)]
pub enum SelectorReconcileOutcome {
    Applied,
    /// The core has the saved selection already.
    Converged,
    Superseded,
    /// The saved selection cannot be given to this core.
    NotEligible,
    /// It is tried again.
    Failed,
}

/// The nodes whose changes are saved and not applied.
pub struct StagedMask {
    pub pending: bool,
    /// It is known which nodes they are.
    pub scope_known: bool,
    pub node_ids: Vec<String>,
}

/// What the background reconciliation does next.
pub enum ReconcileNext {
    End(SelectorReconcileOutcome),
    /// See whether this configuration, the applied one with only its selection changed, can be
    /// read.
    Read { member_tag: String, config: Json },
    /// Set the global selector to this member, for this configuration.
    Select { member_tag: String, config: Json },
    /// Ask the core what its selectors hold.
    ReadBack,
    /// Let the routes follow the new exit.
    ReconcileExit,
    /// Forget what is known of the old exit.
    Refresh,
}

/// Why nothing is to be set, or the member and the configuration to set. The first that applies
/// counts.
pub open spec fn reconcile_plan(
    rt: ProxyRuntime,
    busy: bool,
    saved: Option<JsonView>,
    staged: StagedMask,
    saved_prints: Seq<(Seq<char>, Seq<char>)>,
    generation: u64,
    intent: u64,
) -> Result<(Seq<char>, JsonView), SelectorReconcileOutcome> {
    if !operation_is_current(rt, generation, intent) {
        Err(SelectorReconcileOutcome::Superseded)
    } else if busy || saved is None {
        Err(SelectorReconcileOutcome::Failed)
    } else {
        match (nonempty_text(saved->0.text_at("selectedServerId"@)), rt.current_config) {
            (Some(target), Some(c)) => if c@.text_at("selectedServerId"@) == Some(target) {
                Err(SelectorReconcileOutcome::Converged)
            } else if staged.pending && (!staged.scope_known || views(staged.node_ids@).contains(
                target,
            )) {
                Err(SelectorReconcileOutcome::NotEligible)
            } else {
                match rt.switch_snapshot {
                    None => Err(SelectorReconcileOutcome::NotEligible),
                    Some(s) => match (
                        table_get(table_view(s.id_to_tag@), target),
                        table_get(table_view(s.dirty_fingerprints@), target),
                    ) {
                        (Some(tag), Some(running)) => if table_get(saved_prints, target) == Some(
                            running,
                        ) && c@ is Object {
                            Ok(
                                (
                                    tag,
                                    with_field(c@, "selectedServerId"@, JsonView::Str(target)),
                                ),
                            )
                        } else {
                            Err(SelectorReconcileOutcome::NotEligible)
                        },
                        _ => Err(SelectorReconcileOutcome::NotEligible),
                    },
                }
            },
            _ => Err(SelectorReconcileOutcome::NotEligible),
        }
    }
}

/// The core says that its global selector holds this member.
pub open spec fn attests(groups: Seq<(Seq<char>, Seq<char>)>, member: Seq<char>) -> bool {
    exists|i: int|
        0 <= i < groups.len() && #[trigger] groups[i] == (PROXY_SELECTOR_TAG@, member)
}

impl ProxyRuntime {
    /// A saved selection may not have reached the core. `saved` is the saved configuration, where
    /// it can be read, and `saved_prints` are the fingerprints of its nodes.
    pub fn reconcile_begin(
        &self,
        generation: u64,
        intent_generation: u64,
        busy: bool,
        saved: Option<&Json>,
        staged: &StagedMask,
        saved_prints: &Vec<(String, String)>,
    ) -> (r: ReconcileNext)
        ensures
            match reconcile_plan(
                *self,
                busy,
                match saved {
                    Some(s) => Some(s@),
                    None => None,
                },
                *staged,
                table_view(saved_prints@),
                generation,
                intent_generation,
            ) {
                Err(outcome) => r == ReconcileNext::End(outcome),
                Ok(p) => r matches ReconcileNext::Read { member_tag, config } && member_tag@
                    == p.0 && config@ == p.1,
            },
    {
        if !self.selector_operation_is_current(generation, intent_generation) {
            return ReconcileNext::End(SelectorReconcileOutcome::Superseded);
        }
        if busy {
            return ReconcileNext::End(SelectorReconcileOutcome::Failed);
        }
        let saved = match saved {
            Some(s) => s,
            None => {
                return ReconcileNext::End(SelectorReconcileOutcome::Failed);
            },
        };
        let not_eligible = ReconcileNext::End(SelectorReconcileOutcome::NotEligible);
        let target = match saved.text_at("selectedServerId") {
            Some(t) => t,
            None => {
                return not_eligible;
            },
        };
        if target.as_str().is_empty() {
            return not_eligible;
        }
        let current = match &self.current_config {
            Some(c) => c,
            None => {
                return not_eligible;
            },
        };
        if let Some(selected) = current.text_at("selectedServerId") {
            if same_text(selected.as_str(), target.as_str()) {
                return ReconcileNext::End(SelectorReconcileOutcome::Converged);
            }
        }
        if staged.pending && (!staged.scope_known || text_in_list(
            &staged.node_ids,
            target.as_str(),
        )) {
            return not_eligible;
        }
        let snapshot = match &self.switch_snapshot {
            Some(s) => s,
            None => {
                return not_eligible;
            },
        };
        let (tag, running) = match (
            lookup(&snapshot.id_to_tag, target.as_str()),
            lookup(&snapshot.dirty_fingerprints, target.as_str()),
        ) {
            (Some(t), Some(f)) => (t, f),
            _ => {
                return not_eligible;
            },
        };
        let same = match lookup(saved_prints, target.as_str()) {
            Some(f) => same_text(f.as_str(), running.as_str()),
            None => false,
        };
        if !same {
            return not_eligible;
        }
        match current {
            Json::Object(_) => {},
            _ => {
                return not_eligible;
            },
        }
        let selection = Json::Str(target.clone());
        let config = current.clone().with_field("selectedServerId", selection);
        ReconcileNext::Read { member_tag: tag.clone(), config }
    }

    /// The configuration could be read, or could not.
    pub fn reconcile_read(member_tag: String, config: Json, readable: bool) -> (r: ReconcileNext)
        ensures
            r == (if readable {
                ReconcileNext::Select { member_tag, config }
            } else {
                ReconcileNext::End(SelectorReconcileOutcome::NotEligible)
            }),
    {
        if readable {
            ReconcileNext::Select { member_tag, config }
        } else {
            ReconcileNext::End(SelectorReconcileOutcome::NotEligible)
        }
    }

    /// The global selector was set, or the core refused.
    pub fn reconcile_selected(&self, generation: u64, intent_generation: u64, set: bool) -> (r:
        ReconcileNext)
        ensures
            r == (if !operation_is_current(*self, generation, intent_generation) {
                ReconcileNext::End(SelectorReconcileOutcome::Superseded)
            } else if !set {
                ReconcileNext::End(SelectorReconcileOutcome::Failed)
            } else {
                ReconcileNext::ReadBack
            }),
    {
        if !self.selector_operation_is_current(generation, intent_generation) {
            return ReconcileNext::End(SelectorReconcileOutcome::Superseded);
        }
        if !set {
            return ReconcileNext::End(SelectorReconcileOutcome::Failed);
        }
        ReconcileNext::ReadBack
    }

    /// The core was asked what its selectors hold. Only where it says that the global one holds
    /// the member does the configuration count as applied.
    pub fn reconcile_attested(
        &mut self,
        generation: u64,
        intent_generation: u64,
        member_tag: &str,
        groups: Option<&Vec<(String, String)>>,
        config: &Json,
    ) -> (r: ReconcileNext)
        ensures
            if !operation_is_current(*old(self), generation, intent_generation) {
                r == ReconcileNext::End(SelectorReconcileOutcome::Superseded) && *final(self)
                    == *old(self)
            } else if groups is None || !attests(groups_view(groups)->0, member_tag@) {
                r == ReconcileNext::End(SelectorReconcileOutcome::Failed) && *final(self)
                    == *old(self)
            } else {
                r is ReconcileExit && applied(
                    ProxyRuntime { reconcile_required: false, ..*old(self) },
                    *final(self),
                    config@,
                )
            },
    {
        let mut attested = false;
        if let Some(g) = groups {
            let ghost view = table_view(g@);
            let mut i: usize = 0;
            while i < g.len()
                invariant
                    i <= g@.len(),
                    view == table_view(g@),
                    attested == exists|k: int|
                        0 <= k < i && #[trigger] view[k] == (PROXY_SELECTOR_TAG@, member_tag@),
                decreases g@.len() - i,
            {
                assert(view[i as int] == (g@[i as int].0@, g@[i as int].1@));
                if same_text(g[i].0.as_str(), PROXY_SELECTOR_TAG) && same_text(
                    g[i].1.as_str(),
                    member_tag,
                ) {
                    assert(view[i as int] == (PROXY_SELECTOR_TAG@, member_tag@));
                    attested = true;
                }
                i += 1;
            }
        }
        if !self.selector_operation_is_current(generation, intent_generation) {
            return ReconcileNext::End(SelectorReconcileOutcome::Superseded);
        }
        if !attested {
            return ReconcileNext::End(SelectorReconcileOutcome::Failed);
        }
        self.reconcile_required = false;
        self.commit_applied(config);
        ReconcileNext::ReconcileExit
    }

    /// The routes follow the new exit.
    pub fn reconcile_exit_done(&self, generation: u64, intent_generation: u64) -> (r: ReconcileNext)
        ensures
            r == (if operation_is_current(*self, generation, intent_generation) {
                ReconcileNext::Refresh
            } else {
                ReconcileNext::End(SelectorReconcileOutcome::Superseded)
            }),
    {
        if self.selector_operation_is_current(generation, intent_generation) {
            ReconcileNext::Refresh
        } else {
            ReconcileNext::End(SelectorReconcileOutcome::Superseded)
        }
    }

    /// Everything follows the new exit: an error about a wrong exit is taken back.
    pub fn reconcile_refreshed(&mut self, generation: u64, intent_generation: u64) -> (r:
        SelectorReconcileOutcome)
        ensures
            if !operation_is_current(*old(self), generation, intent_generation) {
                r == SelectorReconcileOutcome::Superseded && *final(self) == *old(self)
            } else {
                &&& r == SelectorReconcileOutcome::Applied
                &&& final(self).status@ == (if old(self).status@.error_code == Some(
                    ErrorCode::ExitMismatch,
                ) {
                    StatusView { error: None, error_code: None, ..old(self).status@ }
                } else {
                    old(self).status@
                })
                &&& *final(self) == (ProxyRuntime { status: final(self).status, ..*old(self) })
            },
    {
        if !self.selector_operation_is_current(generation, intent_generation) {
            return SelectorReconcileOutcome::Superseded;
        }
        self.clear_nonfatal_error_if(ErrorCode::ExitMismatch);
        SelectorReconcileOutcome::Applied
    }
}

/// Is a request that ended so tried again?
pub fn reconcile_retries(outcome: SelectorReconcileOutcome) -> (r: bool)
    ensures
        r == (outcome == SelectorReconcileOutcome::Failed),
{
    outcome == SelectorReconcileOutcome::Failed
}

/// The requests to bring the selectors in line: one is worked on, and of those that come in
/// meanwhile the latest waits. A request names the generations of the lifecycle and of the user's
/// intent that it is for.
pub struct ReconcileQueue {
    pub active: bool,
    pub pending: Option<(u64, u64)>,
}

/// A request came in: it waits, in place of an earlier one that still waits. `spawn` tells whether
/// somebody has to begin to work on it.
pub open spec fn enqueues(
    before: ReconcileQueue,
    after: ReconcileQueue,
    request: (u64, u64),
    spawn: bool,
) -> bool {
    &&& after == (ReconcileQueue { active: true, pending: Some(request) })
    &&& spawn == !before.active
}

/// The next request is taken: the one that waits, or else the one to try again. Without either the
/// work is over.
pub open spec fn takes_latest(
    before: ReconcileQueue,
    after: ReconcileQueue,
    retry: Option<(u64, u64)>,
    r: Option<(u64, u64)>,
) -> bool {
    &&& r == (if before.pending is Some {
        before.pending
    } else {
        retry
    })
    &&& after == (ReconcileQueue { active: before.active && r is Some, pending: None })
}

impl ReconcileQueue {
    /// Nothing waits, and nothing is worked on.
    pub fn new() -> (r: Self)
        ensures
            !r.active,
            r.pending is None,
    {
        ReconcileQueue { active: false, pending: None }
    }

    /// A request came in. Whether somebody has to begin to work.
    pub fn enqueue(&mut self, request: (u64, u64)) -> (spawn: bool)
        ensures
            enqueues(*old(self), *final(self), request, spawn),
    {
        let spawn = !self.active;
        self.active = true;
        self.pending = Some(request);
        spawn
    }

    /// The request to work on next, where `retry` is the one that failed just now.
    pub fn take_latest_or_finish(&mut self, retry: Option<(u64, u64)>) -> (r: Option<(u64, u64)>)
        ensures
            takes_latest(*old(self), *final(self), retry, r),
    {
        let r = match self.pending {
            Some(p) => Some(p),
            None => retry,
        };
        self.pending = None;
        if r.is_none() {
            self.active = false;
        }
        r
    }

    /// The work broke off. The request that waits, for somebody else to begin with.
    pub fn abort_active(&mut self) -> (r: Option<(u64, u64)>)
        ensures
            r == old(self).pending,
            *final(self) == (ReconcileQueue { active: false, pending: None }),
    {
        let r = self.pending;
        self.active = false;
        self.pending = None;
        r
    }
}

/// A request that comes in while another is worked on is worked on next, however that one ended;
/// and of several the last.
pub proof fn law_the_latest_request_is_worked_on_next(
    before: ReconcileQueue,
    waiting: ReconcileQueue,
    after: ReconcileQueue,
    request: (u64, u64),
    spawn: bool,
    retry: Option<(u64, u64)>,
    r: Option<(u64, u64)>,
)
    requires
        enqueues(before, waiting, request, spawn),
        takes_latest(waiting, after, retry, r),
    ensures
        r == Some(request),
        after.active,
        after.pending is None,
{
}

/// The pause after one of `delay_ms`: twice as long up to the longest, unless a newer request came
/// in or nothing is tried again.
pub fn next_reconcile_delay_ms(delay_ms: u64, retries: bool, newer_request: bool) -> (r: u64)
    ensures
        r == (if retries && !newer_request {
            if delay_ms * 2 > RECONCILE_LONGEST_DELAY_MS {
                RECONCILE_LONGEST_DELAY_MS as int
            } else {
                delay_ms * 2
            }
        } else {
            RECONCILE_FIRST_DELAY_MS as int
        }),
{
    if retries && !newer_request {
        if delay_ms > RECONCILE_LONGEST_DELAY_MS / 2 {
            RECONCILE_LONGEST_DELAY_MS
        } else {
            delay_ms * 2
        }
    } else {
        RECONCILE_FIRST_DELAY_MS
    }
}

/// The background reconciliation changes nothing of the applied configuration but its selection.
pub proof fn law_reconciliation_changes_only_the_selection(
    rt: ProxyRuntime,
    busy: bool,
    saved: Option<JsonView>,
    staged: StagedMask,
    saved_prints: Seq<(Seq<char>, Seq<char>)>,
    generation: u64,
    intent: u64,
    key: Seq<char>,
)
    requires
        reconcile_plan(rt, busy, saved, staged, saved_prints, generation, intent) is Ok,
        key != "selectedServerId"@,
    ensures
        rt.current_config is Some,
        reconcile_plan(rt, busy, saved, staged, saved_prints, generation, intent)->Ok_0.1.get(key)
            == rt.current_config->0@.get(key),
{
    let target = saved->0.text_at("selectedServerId"@)->0;
    crate::json::lemma_put_other(
        rt.current_config->0@,
        "selectedServerId"@,
        JsonView::Str(target),
        key,
    );
}

/// Once the background reconciliation has been applied, there is nothing left for it to do: the
/// applied configuration has the saved selection.
pub proof fn law_reconciliation_converges(
    rt: ProxyRuntime,
    after: ProxyRuntime,
    busy: bool,
    saved: JsonView,
    staged: StagedMask,
    saved_prints: Seq<(Seq<char>, Seq<char>)>,
    generation: u64,
    intent: u64,
)
    requires
        reconcile_plan(rt, busy, Some(saved), staged, saved_prints, generation, intent) is Ok,
        applied(
            ProxyRuntime { reconcile_required: false, ..rt },
            after,
            reconcile_plan(
                rt,
                busy,
                Some(saved),
                staged,
                saved_prints,
                generation,
                intent,
            )->Ok_0.1,
        ),
    ensures
        reconcile_plan(after, busy, Some(saved), staged, saved_prints, generation, intent) == Err::<
            (Seq<char>, JsonView),
            SelectorReconcileOutcome,
        >(SelectorReconcileOutcome::Converged),
{
    let target = saved.text_at("selectedServerId"@)->0;
    crate::json::lemma_with_field_twice(
        rt.current_config->0@,
        "selectedServerId"@,
        JsonView::Str(target),
        JsonView::Null,
    );
}

/// How many of the first `n` rules are enabled, send their traffic through a node and name it.
pub open spec fn rules_to_set(rules: Seq<RoutingRule>, n: int) -> nat
    decreases n,
{
    if n <= 0 || n > rules.len() {
        0
    } else {
        rules_to_set(rules, n - 1) + (if rules[n - 1].enabled && rules[n - 1].through_proxy
            && rules[n - 1].target_server_id is Some {
            1nat
        } else {
            0nat
        })
    }
}

/// Every rule that is enabled, sends its traffic through a node and names it is set, and no other:
/// those that the user wrote come first, each under its own key and with its own node, in the order
/// of the rules, and those of applications follow in theirs.
pub proof fn law_every_rule_with_a_node_is_set(
    custom: Vec<RoutingRule>,
    apps: Vec<RoutingRule>,
    r: Vec<(String, String)>,
    i: int,
)
    requires
        call_ensures(rule_requests, (&custom, &apps), r),
    ensures
        r@.len() == rules_to_set(custom@, custom@.len() as int) + rules_to_set(
            apps@,
            apps@.len() as int,
        ),
        0 <= i < custom@.len() && custom@[i].enabled && custom@[i].through_proxy
            && custom@[i].target_server_id is Some ==> {
            let at = rules_to_set(custom@, i) as int;
            &&& at < r@.len()
            &&& r@[at].0@ == "custom:"@ + custom@[i].id@
            &&& r@[at].1@ == custom@[i].target_server_id->0@
        },
        0 <= i < apps@.len() && apps@[i].enabled && apps@[i].through_proxy
            && apps@[i].target_server_id is Some ==> {
            let at = (rules_to_set(custom@, custom@.len() as int) + rules_to_set(apps@, i)) as int;
            &&& at < r@.len()
            &&& r@[at].0@ == "app:"@ + apps@[i].id@
            &&& r@[at].1@ == apps@[i].target_server_id->0@
        },
{
    let a = rule_requests_of("custom:"@, custom@);
    let b = rule_requests_of("app:"@, apps@);
    lemma_request_places("custom:"@, custom@, i);
    lemma_request_places("app:"@, apps@, i);
    let t = table_view(r@);
    assert(t.len() == r@.len());
    if 0 <= i < custom@.len() && custom@[i].enabled && custom@[i].through_proxy
        && custom@[i].target_server_id is Some {
        let at = rules_to_set(custom@, i) as int;
        assert(t[at] == a[at]);
        assert(t[at] == (r@[at].0@, r@[at].1@));
    }
    if 0 <= i < apps@.len() && apps@[i].enabled && apps@[i].through_proxy
        && apps@[i].target_server_id is Some {
        let at = rules_to_set(apps@, i) as int;
        let n = a.len() as int;
        assert(t[n + at] == b[at]);
        assert(t[n + at] == (r@[n + at].0@, r@[n + at].1@));
    }
}

proof fn lemma_request_places(prefix: Seq<char>, rules: Seq<RoutingRule>, i: int)
    ensures
        rule_requests_of(prefix, rules).len() == rules_to_set(rules, rules.len() as int),
        0 <= i < rules.len() && rules[i].enabled && rules[i].through_proxy
            && rules[i].target_server_id is Some ==> {
            let at = rules_to_set(rules, i) as int;
            &&& at < rule_requests_of(prefix, rules).len()
            &&& rule_requests_of(prefix, rules)[at] == (
                prefix + rules[i].id@,
                rules[i].target_server_id->0@,
            )
        },
    decreases rules.len(),
{
    if rules.len() > 0 {
        let front = rules.drop_last();
        lemma_request_places(prefix, front, i);
        lemma_rules_to_set_front(rules, rules.len() - 1);
        if 0 <= i < front.len() {
            lemma_rules_to_set_front(rules, i);
            assert(front[i] == rules[i]);
        }
    }
}

proof fn lemma_rules_to_set_front(rules: Seq<RoutingRule>, n: int)
    requires
        rules.len() > 0,
        0 <= n <= rules.len() - 1,
    ensures
        rules_to_set(rules.drop_last(), n) == rules_to_set(rules, n),
    decreases n,
{
    if n > 0 {
        lemma_rules_to_set_front(rules, n - 1);
        assert(rules.drop_last()[n - 1] == rules[n - 1]);
    }
}

/// A try sets the member of the node that is wanted: no proxy where that is what is selected or
/// where the user has to sign in first, and otherwise the tag that the running core knows the node
/// by. A node that it does not know is given up at once, and what is no longer current is left.
pub proof fn law_a_try_sets_the_wanted_node(
    run: &mut Reassert,
    rt: ProxyRuntime,
    w: WantedExit,
    a: ReassertAction,
)
    requires
        call_ensures(Reassert::round, (run, &rt, &w), a),
    ensures
        ({
            let current = rt.generation == old(run).my_gen && rt.status.running
                && rt.intent_generation == old(run).intent_generation;
            let id = if w.target_id is Some && w.target_id->0@.len() > 0 {
                Some(w.target_id->0@)
            } else {
                None
            };
            let known = if w.is_direct {
                Some(DIRECT_TAG@)
            } else if id is Some && rt.switch_snapshot is Some {
                table_get(table_view(rt.switch_snapshot->0.id_to_tag@), id->0)
            } else {
                None
            };
            &&& a is Abandon <==> old(run).rounds_left > 0 && !current
            &&& old(run).rounds_left == 0 ==> a is Rules && *final(run) == *old(run)
            &&& a is Abandon ==> *final(run) == *old(run)
            &&& old(run).rounds_left > 0 && current ==> {
                &&& final(run).rounds_left == old(run).rounds_left - 1
                &&& a is Rules <==> known is None
                &&& known is None ==> final(run).stage1 is UnresolvedTag && (id is Some
                    ==> final(run).stage1->selected_id@ == id->0)
                &&& a matches ReassertAction::Put { member_tag } ==> {
                    &&& member_tag@.len() > 0
                    &&& w.login_fallback ==> member_tag@ == DIRECT_TAG@
                    &&& !w.login_fallback ==> known == Some(member_tag@)
                    &&& final(run).wanted is Some && final(run).wanted->0@ == member_tag@
                }
                &&& known is Some && !w.login_fallback && known->0.len() > 0 ==> a is Put
                &&& known is Some && w.login_fallback ==> a is Put
                &&& known is Some ==> final(run).stage1 is PutExhausted
                &&& a matches ReassertAction::Pause(ms) ==> ms == 300
            }
        }),
        final(run).my_gen == old(run).my_gen,
        final(run).intent_generation == old(run).intent_generation,
{
    assert(rt.status@.running == rt.status.running);
    reveal_strlit("direct");
    assert(DIRECT_TAG@.len() == 6);
    assert(opt_view(w.target_id) == (match w.target_id {
        Some(s) => Some(s@),
        None => None,
    }));
}

/// A put that the core refused is followed by a pause and counts for nothing; one that it took
/// counts as applied where the operation is current, and otherwise whoever took over is told that
/// the selectors may be wrong.
pub proof fn law_only_a_current_put_counts(
    run: &mut Reassert,
    rt: &mut ProxyRuntime,
    set: bool,
    r: (ReassertAction, Option<String>),
)
    requires
        old(run).wanted is Some,
        call_ensures(Reassert::on_put, (run, rt, set), r),
    ensures
        ({
            let current = old(rt).generation == old(run).my_gen && old(rt).status.running && old(
                rt,
            ).intent_generation == old(run).intent_generation;
            &&& r.0 is Rules <==> set && current
            &&& r.0 is Abandon <==> set && !current
            &&& r.0 is Pause <==> !set
            &&& set && current ==> final(run).stage1 is Applied && final(run).stage1->Applied_member_tag@
                == old(run).wanted->0@ && *final(rt) == *old(rt)
            &&& set && !current ==> *final(rt) == (ProxyRuntime {
                reconcile_required: true,
                ..*old(rt)
            })
            &&& !set ==> *final(rt) == *old(rt) && *final(run) == *old(run)
            &&& r.1 is Some ==> set && current
        }),
        final(run).rounds_left == old(run).rounds_left,
{
    assert(old(rt).status@.running == old(rt).status.running);
}

/// After a pause it is tried again exactly where the operation is current, and a run begins with
/// ten tries.
pub proof fn law_a_run_goes_on_while_it_is_current(
    run: Reassert,
    rt: ProxyRuntime,
    a: ReassertAction,
    my_gen: u64,
    intent: u64,
    begun: Reassert,
)
    requires
        call_ensures(Reassert::on_pause, (&run, &rt), a),
        call_ensures(Reassert::begin, (my_gen, intent), begun),
    ensures
        a is TryAgain <==> rt.generation == run.my_gen && rt.status.running && rt.intent_generation
            == run.intent_generation,
        a is TryAgain || a is Abandon,
        begun.my_gen == my_gen,
        begun.intent_generation == intent,
        begun.rounds_left == 10,
{
    assert(rt.status@.running == rt.status.running);
}

/// A pass over the rules puts, for the next rule that can be set, the selector that the core has
/// for it and the tag that it knows the node by; it passes over no rule that can be set, and
/// nothing is put once another operation has taken over.
pub proof fn law_a_pass_puts_what_each_rule_asks_for(
    pass: &mut RulePass,
    rt: ProxyRuntime,
    a: RuleStep,
    k: int,
)
    requires
        old(pass).wf(),
        old(pass).putting is None,
        old(pass).state == PassState::Working,
        old(pass).tables is Some,
        call_ensures(RulePass::next, (pass, &rt), a),
    ensures
        ({
            let current = rt.generation == old(pass).my_gen && rt.status.running
                && rt.intent_generation == old(pass).intent_generation;
            let t = old(pass).tables->0;
            let done = old(pass).at == old(pass).requests@.len();
            &&& a is Abandon <==> !done && !current
            &&& a is Abandon ==> final(pass).state == PassState::Abandoned
            &&& a is Done ==> final(pass).state == PassState::Done && final(pass).at == old(
                pass,
            ).requests@.len()
            &&& a matches RuleStep::Put { selector_tag, member_tag } ==> {
                let at = final(pass).at as int;
                &&& at < old(pass).requests@.len()
                &&& table_get(table_view(t.id_to_tag@), old(pass).requests@[at].1@) == Some(
                    member_tag@,
                )
                &&& targets_by_key(t.rule_target@).dom().contains(old(pass).requests@[at].0@)
                &&& targets_by_key(t.rule_target@)[old(pass).requests@[at].0@].0 == selector_tag@
            }
            &&& a !is Abandon && old(pass).at <= k < final(pass).at ==> table_get(
                table_view(t.id_to_tag@),
                old(pass).requests@[k].1@,
            ) is None || !targets_by_key(t.rule_target@).dom().contains(
                old(pass).requests@[k].0@,
            )
        }),
        final(pass).requests == old(pass).requests,
        final(pass).intents == old(pass).intents,
        final(pass).tables == old(pass).tables,
{
    assert(rt.status@.running == rt.status.running);
    let requests = table_view(old(pass).requests@);
    assert(requests.len() == old(pass).requests@.len());
    if 0 <= k < requests.len() {
        assert(requests[k] == (old(pass).requests@[k].0@, old(pass).requests@[k].1@));
    }
    let at = final(pass).at as int;
    if 0 <= at < requests.len() {
        assert(requests[at] == (old(pass).requests@[at].0@, old(pass).requests@[at].1@));
    }
}

/// What was put is remembered behind what was put before, whether or not the core took it; where
/// another operation took over it is not, and that operation is told.
pub proof fn law_what_was_put_is_remembered(pass: &mut RulePass, rt: &mut ProxyRuntime)
    requires
        old(pass).wf(),
        old(pass).putting is Some,
        call_ensures(RulePass::on_put, (pass, rt), ()),
    ensures
        ({
            let current = old(rt).generation == old(pass).my_gen && old(rt).status.running && old(
                rt,
            ).intent_generation == old(pass).intent_generation;
            &&& current ==> {
                let n = old(pass).intents@.len() as int;
                &&& final(pass).intents@.len() == n + 1
                &&& final(pass).intents@[n].0@ == (old(pass).putting->0).0@
                &&& final(pass).intents@[n].1@ == (old(pass).putting->0).1@
                &&& final(pass).at == old(pass).at + 1
                &&& final(pass).state == old(pass).state
                &&& *final(rt) == *old(rt)
            }
            &&& !current ==> final(pass).state == PassState::Abandoned && *final(rt) == (
            ProxyRuntime { reconcile_required: true, ..*old(rt) })
        }),
{
    assert(old(rt).status@.running == old(rt).status.running);
    assert(old(pass).requests.len() == old(pass).requests@.len());
    let n = old(pass).intents@.len() as int;
    assert(table_view(old(pass).intents@).len() == n);
    let t = table_view(final(pass).intents@);
    assert(t.len() == final(pass).intents@.len());
    if n < t.len() {
        assert(t[n] == (final(pass).intents@[n].0@, final(pass).intents@[n].1@));
    }
}

/// A pass works over what the running core was started with when the pass began, and over the
/// requests that it was given; where no core is known it is done at once.
pub proof fn law_a_pass_begins_with_what_the_core_knows(
    rt: ProxyRuntime,
    my_gen: u64,
    intent: u64,
    requests: Vec<(String, String)>,
    r: RulePass,
)
    requires
        call_ensures(RulePass::begin, (&rt, my_gen, intent, requests), r),
    ensures
        r.my_gen == my_gen,
        r.intent_generation == intent,
        r.requests == requests,
        r.intents@.len() == 0,
        r.state == PassState::Done <==> rt.switch_snapshot is None,
        rt.switch_snapshot is None ==> r.tables is None && r.putting is None,
        rt.switch_snapshot matches Some(s) ==> r.tables is Some && r.tables->0.id_to_tag@
            == s.id_to_tag@ && r.tables->0.rule_target@ == s.rule_target@ && r.at == 0,
{
}

/// An outcome that was abandoned says nothing of any selector; any other is that of the global
/// selector, with what was put for the rules.
pub proof fn law_an_overtaken_run_says_nothing(run: Reassert, pass: RulePass, r: ReassertOutcome)
    requires
        pass.wf(),
        pass.state != PassState::Working,
        call_ensures(Reassert::finish, (run, pass), r),
    ensures
        pass.state == PassState::Abandoned ==> r.stage1 is Abandoned && r.rule_intents@.len() == 0,
        pass.state == PassState::Done ==> r.stage1 == run.stage1 && table_view(r.rule_intents@)
            == table_view(pass.intents@),
{
    if pass.state == PassState::Done {
        assert(table_view(pass.requests@).take(pass.requests@.len() as int) =~= table_view(
            pass.requests@,
        ));
    }
}

/// That the selectors are in order is settled by a member that the core took and by nothing else; a
/// run that was overtaken settles nothing, and one that failed is said.
pub proof fn law_only_an_applied_member_settles(rt: &mut ProxyRuntime, outcome: ReassertOutcome)
    requires
        call_ensures(ProxyRuntime::reassert_settled, (rt, &outcome), ()),
    ensures
        outcome.stage1 is Applied ==> *final(rt) == (ProxyRuntime {
            reconcile_required: false,
            ..*old(rt)
        }),
        outcome.stage1 is Abandoned ==> *final(rt) == *old(rt),
        outcome.stage1 is UnresolvedTag || outcome.stage1 is PutExhausted ==> {
            &&& final(rt).reconcile_required == old(rt).reconcile_required
            &&& final(rt).status.error is Some
            &&& final(rt).status.error_code == Some(ErrorCode::ExitMismatch)
            &&& same_session(old(rt).status, final(rt).status)
            &&& only_status_differs(*old(rt), *final(rt))
        },
        outcome.stage1 matches Stage1Outcome::PutExhausted { member_tag } ==> occurs_in(
            final(rt).status.error->0@,
            member_tag@,
        ),
        outcome.stage1 matches Stage1Outcome::UnresolvedTag { selected_id } ==> occurs_in(
            final(rt).status.error->0@,
            selected_id@,
        ),
{
    assert(final(rt).status@.pid == final(rt).status.pid && old(rt).status@.pid == old(
        rt,
    ).status.pid);
    assert(final(rt).status@.error == opt_view(final(rt).status.error));
    if outcome.stage1 is UnresolvedTag || outcome.stage1 is PutExhausted {
        crate::selection::law_a_selector_warning_names_what_was_found(
            selector_finding(outcome, None),
            0,
        );
    }
}

/// What the selectors hold is compared only for a core of this generation that runs, and a
/// difference is said without touching the session.
pub proof fn law_a_difference_is_said_of_the_running_core(
    rt: &mut ProxyRuntime,
    my_gen: u64,
    outcome: ReassertOutcome,
    groups: Option<&Vec<(String, String)>>,
    found: SelectorAttestation,
)
    requires
        call_ensures(attest_runtime_selection, (&outcome, groups), found),
        call_ensures(ProxyRuntime::attest_runtime_selector, (rt, my_gen, &outcome, groups), ()),
    ensures
        old(rt).generation != my_gen || !old(rt).status.running || found is Match ==> *final(rt)
            == *old(rt),
        old(rt).generation == my_gen && old(rt).status.running && found !is Match ==> {
            &&& final(rt).status.error is Some
            &&& final(rt).status.error_code == Some(ErrorCode::ExitMismatch)
            &&& same_session(old(rt).status, final(rt).status)
            &&& only_status_differs(*old(rt), *final(rt))
        },
{
    assert(old(rt).status@.running == old(rt).status.running);
    assert(final(rt).status@.pid == final(rt).status.pid && old(rt).status@.pid == old(
        rt,
    ).status.pid);
    assert(final(rt).status@.error == opt_view(final(rt).status.error));
}

/// What waits for the selectors goes on for the generation that they were set for, and the core is
/// asked about them where it runs and took the global member.
pub proof fn law_what_waits_for_the_selectors(
    rt: ProxyRuntime,
    my_gen: u64,
    outcome: ReassertOutcome,
    goes_on: bool,
    due: bool,
)
    requires
        call_ensures(ProxyRuntime::after_selector_reasserted, (&rt, my_gen), goes_on),
        call_ensures(ProxyRuntime::selector_attestation_due, (&rt, my_gen, &outcome), due),
    ensures
        goes_on <==> rt.generation == my_gen,
        due ==> goes_on && rt.status.running && outcome.stage1 is Applied,
        goes_on && rt.status.running && outcome.stage1 is Applied ==> due,
{
    assert(rt.status@.running == rt.status.running);
}

/// A saved selection is brought to the core only for the operation that is current, while nothing
/// else is under way, where it is not the applied one, is not held back, and is a node that the
/// core was started with in the very form that is saved; the member is then the tag that the core
/// knows it by, and the configuration the applied one with that selection.
pub proof fn law_when_a_saved_selection_is_brought_to_the_core(
    rt: ProxyRuntime,
    generation: u64,
    intent: u64,
    busy: bool,
    saved: Option<&Json>,
    staged: StagedMask,
    prints: Vec<(String, String)>,
    r: ReconcileNext,
)
    requires
        call_ensures(
            ProxyRuntime::reconcile_begin,
            (&rt, generation, intent, busy, saved, &staged, &prints),
            r,
        ),
    ensures
        ({
            let current = rt.generation == generation && rt.status.running
                && rt.intent_generation == intent;
            &&& r is Read || r is End
            &&& r == ReconcileNext::End(SelectorReconcileOutcome::Superseded) <==> !current
            &&& r == ReconcileNext::End(SelectorReconcileOutcome::Failed) <==> current && (busy
                || saved is None)
            &&& r matches ReconcileNext::Read { member_tag, config } ==> {
                &&& current && !busy && saved is Some && rt.current_config is Some
                    && rt.switch_snapshot is Some
                &&& saved->0@.text_at("selectedServerId"@) matches Some(id)
                &&& id.len() > 0
                &&& rt.current_config->0@.text_at("selectedServerId"@) != Some(id)
                &&& staged.pending ==> staged.scope_known && !views(staged.node_ids@).contains(id)
                &&& table_get(table_view(rt.switch_snapshot->0.id_to_tag@), id) == Some(member_tag@)
                &&& table_get(table_view(prints@), id) is Some
                &&& table_get(table_view(prints@), id) == table_get(
                    table_view(rt.switch_snapshot->0.dirty_fingerprints@),
                    id,
                )
                &&& config@.get("selectedServerId"@) == Some(JsonView::Str(id))
            }
            &&& r == ReconcileNext::End(SelectorReconcileOutcome::Converged) <==> current && !busy
                && saved is Some && rt.current_config is Some && saved->0@.text_at(
                "selectedServerId"@,
            ) is Some && saved->0@.text_at("selectedServerId"@)->0.len() > 0
                && rt.current_config->0@.text_at("selectedServerId"@) == saved->0@.text_at(
                "selectedServerId"@,
            )
            &&& current && !busy && saved is Some && rt.current_config is Some
                && rt.current_config->0@ is Object && rt.switch_snapshot is Some ==> (
            saved->0@.text_at("selectedServerId"@) matches Some(id) ==> (id.len() > 0
                && rt.current_config->0@.text_at("selectedServerId"@) != Some(id)
                && !staged.pending && table_get(
                table_view(rt.switch_snapshot->0.id_to_tag@),
                id,
            ) is Some && table_get(
                table_view(rt.switch_snapshot->0.dirty_fingerprints@),
                id,
            ) is Some && table_get(table_view(prints@), id) == table_get(
                table_view(rt.switch_snapshot->0.dirty_fingerprints@),
                id,
            ) ==> r is Read))
        }),
{
    assert(rt.status@.running == rt.status.running);
    if let ReconcileNext::Read { member_tag, config } = r {
        let id = saved->0@.text_at("selectedServerId"@)->0;
        crate::json::lemma_with_field_twice(
            rt.current_config->0@,
            "selectedServerId"@,
            JsonView::Str(id),
            JsonView::Str(id),
        );
    }
}

/// A selection that could be read is set, for the configuration that was read; one that could not
/// is given up. What was set is read back while it is current.
pub proof fn law_what_was_read_is_set_and_read_back(
    member_tag: String,
    config: Json,
    readable: bool,
    r: ReconcileNext,
    rt: ProxyRuntime,
    generation: u64,
    intent: u64,
    set: bool,
    after_set: ReconcileNext,
    after_exit: ReconcileNext,
)
    requires
        call_ensures(ProxyRuntime::reconcile_read, (member_tag, config, readable), r),
        call_ensures(ProxyRuntime::reconcile_selected, (&rt, generation, intent, set), after_set),
        call_ensures(ProxyRuntime::reconcile_exit_done, (&rt, generation, intent), after_exit),
    ensures
        readable ==> r == (ReconcileNext::Select { member_tag, config }),
        !readable ==> r == ReconcileNext::End(SelectorReconcileOutcome::NotEligible),
        ({
            let current = rt.generation == generation && rt.status.running
                && rt.intent_generation == intent;
            &&& after_set is ReadBack <==> current && set
            &&& !current ==> after_set == ReconcileNext::End(SelectorReconcileOutcome::Superseded)
            &&& current && !set ==> after_set == ReconcileNext::End(
                SelectorReconcileOutcome::Failed,
            )
            &&& after_exit is Refresh <==> current
            &&& !current ==> after_exit == ReconcileNext::End(SelectorReconcileOutcome::Superseded)
        }),
{
    assert(rt.status@.running == rt.status.running);
}

/// A selection counts as applied exactly where it is current and the core itself says that its
/// global selector holds the member.
pub proof fn law_a_selection_counts_once_the_core_says_so(
    rt: &mut ProxyRuntime,
    generation: u64,
    intent: u64,
    member_tag: &str,
    groups: Option<&Vec<(String, String)>>,
    config: Json,
    r: ReconcileNext,
)
    requires
        call_ensures(
            ProxyRuntime::reconcile_attested,
            (rt, generation, intent, member_tag, groups, &config),
            r,
        ),
    ensures
        ({
            let current = old(rt).generation == generation && old(rt).status.running && old(
                rt,
            ).intent_generation == intent;
            let said = groups is Some && exists|i: int|
                0 <= i < groups->0@.len() && (#[trigger] groups->0@[i]).0@ == PROXY_SELECTOR_TAG@
                    && groups->0@[i].1@ == member_tag@;
            &&& r is ReconcileExit <==> current && said
            &&& !current ==> r == ReconcileNext::End(SelectorReconcileOutcome::Superseded)
            &&& current && !said ==> r == ReconcileNext::End(SelectorReconcileOutcome::Failed)
            &&& r is ReconcileExit ==> final(rt).current_config is Some && final(rt).current_config->0@ == config@ && !final(rt).reconcile_required
            &&& r !is ReconcileExit ==> *final(rt) == *old(rt)
        }),
        final(rt).status == old(rt).status,
{
    assert(old(rt).status@.running == old(rt).status.running);
    if groups is Some {
        let g = groups->0@;
        let t = table_view(g);
        assert(t.len() == g.len());
        if attests(t, member_tag@) {
            let i = choose|i: int|
                0 <= i < t.len() && #[trigger] t[i] == (PROXY_SELECTOR_TAG@, member_tag@);
            assert(g[i].0@ == PROXY_SELECTOR_TAG@ && g[i].1@ == member_tag@);
        }
        if exists|i: int|
            0 <= i < g.len() && (#[trigger] g[i]).0@ == PROXY_SELECTOR_TAG@ && g[i].1@
                == member_tag@ {
            let i = choose|i: int|
                0 <= i < g.len() && (#[trigger] g[i]).0@ == PROXY_SELECTOR_TAG@ && g[i].1@
                    == member_tag@;
            assert(t[i] == (PROXY_SELECTOR_TAG@, member_tag@));
        }
    }
}

/// Once everything follows a selection that is still current, an error about a wrong exit is taken
/// back and no other; only a failure is tried again.
pub proof fn law_how_bringing_a_selection_ends(
    rt: &mut ProxyRuntime,
    generation: u64,
    intent: u64,
    r: SelectorReconcileOutcome,
    retries: bool,
)
    requires
        call_ensures(ProxyRuntime::reconcile_refreshed, (rt, generation, intent), r),
        call_ensures(reconcile_retries, (r,), retries),
    ensures
        ({
            let current = old(rt).generation == generation && old(rt).status.running && old(
                rt,
            ).intent_generation == intent;
            &&& current ==> r == SelectorReconcileOutcome::Applied
            &&& !current ==> r == SelectorReconcileOutcome::Superseded && *final(rt) == *old(rt)
            &&& current && old(rt).status.error_code == Some(ErrorCode::ExitMismatch) ==> final(rt).status.error is None && final(rt).status.error_code is None
            &&& old(rt).status.error_code != Some(ErrorCode::ExitMismatch) ==> final(rt).status.error_code == old(rt).status.error_code && opt_view(final(rt).status.error)
                == opt_view(old(rt).status.error)
            &&& same_session(old(rt).status, final(rt).status)
        }),
        !retries,
{
    assert(old(rt).status@.running == old(rt).status.running);
    assert(final(rt).status@.pid == final(rt).status.pid && old(rt).status@.pid == old(
        rt,
    ).status.pid);
    assert(final(rt).status@.error == opt_view(final(rt).status.error));
}

/// Pauses double up to five seconds as long as the same request fails, and begin again at a fifth
/// of a second for anything else; a request that failed is the only one that is tried again.
pub proof fn law_pauses_between_requests(
    delay: u64,
    retries: bool,
    newer: bool,
    r: u64,
    outcome: SelectorReconcileOutcome,
    again: bool,
)
    requires
        call_ensures(next_reconcile_delay_ms, (delay, retries, newer), r),
        call_ensures(reconcile_retries, (outcome,), again),
    ensures
        retries && !newer && delay <= 2500 ==> r == delay * 2,
        retries && !newer && delay > 2500 ==> r == 5000,
        !retries || newer ==> r == 200,
        again <==> outcome == SelectorReconcileOutcome::Failed,
{
}

/// A request is begun by whoever finds nobody at work, replaces one that waits, and is the next to
/// be taken; work ends exactly where nothing waits and nothing is to be tried again.
pub proof fn law_requests_wait_for_whoever_works(
    queue: &mut ReconcileQueue,
    taking: &mut ReconcileQueue,
    aborting: &mut ReconcileQueue,
    request: (u64, u64),
    retry: Option<(u64, u64)>,
    spawn: bool,
    taken: Option<(u64, u64)>,
    left: Option<(u64, u64)>,
)
    requires
        call_ensures(ReconcileQueue::enqueue, (queue, request), spawn),
        call_ensures(ReconcileQueue::take_latest_or_finish, (taking, retry), taken),
        call_ensures(ReconcileQueue::abort_active, (aborting,), left),
    ensures
        spawn <==> !old(queue).active,
        final(queue).active,
        final(queue).pending == Some(request),
        old(taking).pending is Some ==> taken == old(taking).pending,
        old(taking).pending is None ==> taken == retry,
        final(taking).pending is None,
        old(taking).active ==> (final(taking).active <==> taken is Some),
        left == old(aborting).pending,
        !final(aborting).active,
        final(aborting).pending is None,
{
}

/// Selectors that cannot be worked out are said without touching the session; whoever was overtaken
/// says nothing of any selector; and a queue begins with nobody at work and nothing that waits.
pub proof fn law_what_cannot_be_set_is_said(
    rt: &mut ProxyRuntime,
    left: ReassertOutcome,
    queue: ReconcileQueue,
)
    requires
        call_ensures(ProxyRuntime::reassert_unreadable, (rt,), ()),
        call_ensures(abandoned, (), left),
        call_ensures(ReconcileQueue::new, (), queue),
    ensures
        final(rt).status.error is Some,
        final(rt).status.error->0@.len() > 0,
        final(rt).status.error_code == Some(ErrorCode::ExitMismatch),
        same_session(old(rt).status, final(rt).status),
        only_status_differs(*old(rt), *final(rt)),
        left.stage1 is Abandoned && left.rule_intents@.len() == 0,
        !queue.active && queue.pending is None,
{
    reveal_strlit("selector 所有权交接后无法解析运行配置，请重新应用配置以完成对账");
    assert("selector 所有权交接后无法解析运行配置，请重新应用配置以完成对账"@.len() > 0);
    assert(final(rt).status@.pid == final(rt).status.pid && old(rt).status@.pid == old(
        rt,
    ).status.pid);
    assert(final(rt).status@.error == opt_view(final(rt).status.error));
}

} // verus!
