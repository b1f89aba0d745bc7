//! Does the generated configuration send traffic through the node that the user selected?

use vstd::prelude::*;

use crate::core_config::{CoreConfig, Outbound, DIRECT_TAG};
use crate::peel::opt_str_view;
use crate::runtime::{only_status_differs, same_session, ProxyRuntime};
use crate::status::{ErrorCode, StatusView};
use crate::table::{lookup, table_get, table_view};
use crate::text::{
    begins_with, lemma_occurs_between, occurs_at, occurs_in, opt_view, same_text, text_in_list, views,
};

verus! {

/// How traffic is routed.
#[derive(Clone, Copy, PartialEq, Eq, Structural, Debug)]
pub enum ProxyMode {
    /// No traffic goes through a node.
    Direct,
    /// Rules decide.
    Smart,
    /// All traffic goes through a node.
    Global,
}

/// What is asked about a configuration.
pub struct ExitQuestion {
    pub mode: ProxyMode,
    /// Only traffic of one region goes through the node.
    pub reverse_region: bool,
    /// The rule sets that tell the region's traffic apart, where they are known.
    pub region_rule_sets: Option<Vec<String>>,
    /// The selected node is one that falls back to no proxy by design.
    pub falls_back_to_direct: bool,
    /// The node that the core is started with.
    pub selected: Option<String>,
    /// That selection means no proxy.
    pub selected_is_direct: bool,
    /// Node identifier to outbound tag.
    pub id_to_tag: Vec<(String, String)>,
}

/// What was found.
pub enum ExitAttestation {
    Match,
    /// Traffic goes out without a proxy.
    SilentDirect { expected_tag: String },
    /// Traffic goes through another node.
    WrongExit { expected_tag: String, actual_tag: String },
    /// The saved selection is not the one that the core is started with.
    StaleSelection { persisted: String, started_with: String },
    /// The selected node is not among those that the core is started with.
    UnknownSelection { selected_id: String },
    /// The configuration does not say where traffic goes.
    UnresolvedExit { expected_tag: String },
}

/// What was found, as texts.
pub enum ExitFinding {
    Match,
    SilentDirect { expected_tag: Seq<char> },
    WrongExit { expected_tag: Seq<char>, actual_tag: Seq<char> },
    StaleSelection { persisted: Seq<char>, started_with: Seq<char> },
    UnknownSelection { selected_id: Seq<char> },
    UnresolvedExit { expected_tag: Seq<char> },
}

impl View for ExitAttestation {
    type V = ExitFinding;

    open spec fn view(&self) -> ExitFinding {
        match self {
            ExitAttestation::Match => ExitFinding::Match,
            ExitAttestation::SilentDirect { expected_tag } => ExitFinding::SilentDirect {
                expected_tag: expected_tag@,
            },
            ExitAttestation::WrongExit { expected_tag, actual_tag } => ExitFinding::WrongExit {
                expected_tag: expected_tag@,
                actual_tag: actual_tag@,
            },
            ExitAttestation::StaleSelection { persisted, started_with } =>
                ExitFinding::StaleSelection {
                persisted: persisted@,
                started_with: started_with@,
            },
            ExitAttestation::UnknownSelection { selected_id } => ExitFinding::UnknownSelection {
                selected_id: selected_id@,
            },
            ExitAttestation::UnresolvedExit { expected_tag } => ExitFinding::UnresolvedExit {
                expected_tag: expected_tag@,
            },
        }
    }
}

/// What every finding that is no match opens with: the first thing the user is to know is that
/// traffic is not where it is thought to be.
pub const EXIT_OPENING: &'static str = "流量未按预期走选中节点";

/// What is told of a finding after the opening.
pub open spec fn exit_detail(f: ExitFinding) -> Seq<char> {
    match f {
        ExitFinding::Match => Seq::empty(),
        ExitFinding::SilentDirect { expected_tag } => "「"@ + expected_tag
            + "」，实际出口为直连（未加密）。请检查该节点配置或重新选择节点。"@,
        ExitFinding::WrongExit { expected_tag, actual_tag } => "「"@ + expected_tag
            + "」，实际出口为「"@ + actual_tag + "」。"@,
        ExitFinding::StaleSelection { persisted, started_with } => "：启动用的节点（"@
            + started_with + "）与当前选中节点（"@ + persisted + "）不一致，流量可能未走选中节点。请重新连接。"@,
        ExitFinding::UnknownSelection { selected_id } => "：选中节点（"@ + selected_id
            + "）不在本次启动的节点表中，流量可能未走该节点。"@,
        ExitFinding::UnresolvedExit { expected_tag } => "：无法确认流量是否走选中节点「"@ + expected_tag
            + "」（配置未指定默认出口）。"@,
    }
}

/// What the user is told.
pub open spec fn exit_text(f: ExitFinding) -> Seq<char> {
    if f is Match {
        Seq::empty()
    } else {
        EXIT_OPENING@ + exit_detail(f)
    }
}

/// The tags and identifiers that a finding carries.
pub open spec fn exit_names(f: ExitFinding) -> Seq<Seq<char>> {
    match f {
        ExitFinding::Match => Seq::empty(),
        ExitFinding::SilentDirect { expected_tag } => seq![expected_tag],
        ExitFinding::WrongExit { expected_tag, actual_tag } => seq![expected_tag, actual_tag],
        ExitFinding::StaleSelection { persisted, started_with } => seq![persisted, started_with],
        ExitFinding::UnknownSelection { selected_id } => seq![selected_id],
        ExitFinding::UnresolvedExit { expected_tag } => seq![expected_tag],
    }
}

/// The user is told something exactly where the exit is not in order. It always opens with the
/// same words, and names every tag and identifier that was found.
pub proof fn law_an_exit_warning_opens_the_same_way(f: ExitFinding, i: int)
    ensures
        exit_text(f).len() == 0 <==> f is Match,
        f !is Match ==> begins_with(exit_text(f), EXIT_OPENING@),
        0 <= i < exit_names(f).len() ==> occurs_in(exit_text(f), exit_names(f)[i]),
{
    reveal_strlit("流量未按预期走选中节点");
    assert(EXIT_OPENING@.len() > 0);
    if f !is Match {
        assert(exit_text(f).take(EXIT_OPENING@.len() as int) =~= EXIT_OPENING@);
        assert(exit_text(f).subrange(0, EXIT_OPENING@.len() as int) =~= EXIT_OPENING@);
    }
    if 0 <= i < exit_names(f).len() {
        let t = exit_text(f);
        match f {
            ExitFinding::Match => {},
            ExitFinding::SilentDirect { expected_tag } => {
                lemma_occurs_between(
                    t,
                    EXIT_OPENING@ + "「"@,
                    expected_tag,
                    "」，实际出口为直连（未加密）。请检查该节点配置或重新选择节点。"@,
                );
            },
            ExitFinding::WrongExit { expected_tag, actual_tag } => {
                lemma_occurs_between(
                    t,
                    EXIT_OPENING@ + "「"@,
                    expected_tag,
                    "」，实际出口为「"@ + actual_tag + "」。"@,
                );
                lemma_occurs_between(
                    t,
                    EXIT_OPENING@ + "「"@ + expected_tag + "」，实际出口为「"@,
                    actual_tag,
                    "」。"@,
                );
            },
            ExitFinding::StaleSelection { persisted, started_with } => {
                lemma_occurs_between(
                    t,
                    EXIT_OPENING@ + "：启动用的节点（"@,
                    started_with,
                    "）与当前选中节点（"@ + persisted + "）不一致，流量可能未走选中节点。请重新连接。"@,
                );
                lemma_occurs_between(
                    t,
                    EXIT_OPENING@ + "：启动用的节点（"@ + started_with + "）与当前选中节点（"@,
                    persisted,
                    "）不一致，流量可能未走选中节点。请重新连接。"@,
                );
            },
            ExitFinding::UnknownSelection { selected_id } => {
                lemma_occurs_between(
                    t,
                    EXIT_OPENING@ + "：选中节点（"@,
                    selected_id,
                    "）不在本次启动的节点表中，流量可能未走该节点。"@,
                );
            },
            ExitFinding::UnresolvedExit { expected_tag } => {
                lemma_occurs_between(
                    t,
                    EXIT_OPENING@ + "：无法确认流量是否走选中节点「"@,
                    expected_tag,
                    "」（配置未指定默认出口）。"@,
                );
            },
        }
    }
}

impl ExitAttestation {
    /// What the user is told.
    pub fn user_message(&self) -> (r: String)
        ensures
            r@ == exit_text(self@),
    {
        let detail = match self {
            ExitAttestation::Match => {
                return String::new();
            },
            ExitAttestation::SilentDirect { expected_tag } => "「".to_owned().concat(
                expected_tag.as_str(),
            ).concat("」，实际出口为直连（未加密）。请检查该节点配置或重新选择节点。"),
            ExitAttestation::WrongExit { expected_tag, actual_tag } => "「".to_owned().concat(
                expected_tag.as_str(),
            ).concat("」，实际出口为「").concat(actual_tag.as_str()).concat("」。"),
            ExitAttestation::StaleSelection { persisted, started_with } => "：启动用的节点（".to_owned().concat(
                started_with.as_str(),
            ).concat("）与当前选中节点（").concat(persisted.as_str()).concat(
                "）不一致，流量可能未走选中节点。请重新连接。",
            ),
            ExitAttestation::UnknownSelection { selected_id } => "：选中节点（".to_owned().concat(
                selected_id.as_str(),
            ).concat("）不在本次启动的节点表中，流量可能未走该节点。"),
            ExitAttestation::UnresolvedExit { expected_tag } => "：无法确认流量是否走选中节点「".to_owned().concat(
                expected_tag.as_str(),
            ).concat("」（配置未指定默认出口）。"),
        };
        EXIT_OPENING.to_owned().concat(detail.as_str())
    }
}

/// The member that the outbound `tag` begins with: that of the first outbound with this tag.
pub open spec fn default_member_of(outbounds: Seq<Outbound>, tag: Seq<char>) -> Option<Seq<char>>
    decreases outbounds.len(),
{
    if outbounds.len() == 0 {
        None
    } else if outbounds[0].tag@ == tag {
        opt_view(outbounds[0].default_member)
    } else {
        default_member_of(outbounds.drop_first(), tag)
    }
}

/// Where traffic goes that no rule catches: the member that its outbound begins with, or that
/// outbound itself.
pub open spec fn exit_tag(c: CoreConfig) -> Option<Seq<char>> {
    match c.final_outbound {
        None => None,
        Some(f) => if f@ == DIRECT_TAG@ {
            Some(DIRECT_TAG@)
        } else {
            match default_member_of(c.outbounds@, f@) {
                Some(m) => Some(m),
                None => Some(f@),
            }
        },
    }
}

/// Where traffic goes that no rule catches.
pub fn effective_exit_tag(config: &CoreConfig) -> (r: Option<String>)
    ensures
        opt_view(r) == exit_tag(*config),
{
    let f = match &config.final_outbound {
        None => {
            return None;
        },
        Some(f) => f,
    };
    if same_text(f.as_str(), DIRECT_TAG) {
        return Some(DIRECT_TAG.to_owned());
    }
    let mut i: usize = 0;
    assert(config.outbounds@.skip(0) =~= config.outbounds@);
    while i < config.outbounds.len()
        invariant
            i <= config.outbounds@.len(),
            config.final_outbound == Some(*f),
            f@ != DIRECT_TAG@,
            default_member_of(config.outbounds@.skip(i as int), f@) == default_member_of(
                config.outbounds@,
                f@,
            ),
        decreases config.outbounds@.len() - i,
    {
        let ghost rest = config.outbounds@.skip(i as int);
        assert(rest[0] == config.outbounds@[i as int]);
        assert(rest.drop_first() =~= config.outbounds@.skip(i + 1));
        if same_text(config.outbounds[i].tag.as_str(), f.as_str()) {
            return match &config.outbounds[i].default_member {
                Some(m) => Some(m.clone()),
                None => Some(f.clone()),
            };
        }
        i += 1;
    }
    assert(config.outbounds@.skip(i as int).len() == 0);
    Some(f.clone())
}

/// Every rule set that tells the region's traffic apart is defined.
pub open spec fn region_intact(required: Option<Seq<Seq<char>>>, defined: Seq<Seq<char>>) -> bool {
    match required {
        None => false,
        Some(tags) => all_defined(tags, defined),
    }
}

/// Every tag is among those that are defined.
pub open spec fn all_defined(tags: Seq<Seq<char>>, defined: Seq<Seq<char>>) -> bool {
    forall|i: int| 0 <= i < tags.len() ==> defined.contains(#[trigger] tags[i])
}

/// The texts of an optional list.
pub open spec fn opt_views(v: Option<Vec<String>>) -> Option<Seq<Seq<char>>> {
    match v {
        Some(l) => Some(views(l@)),
        None => None,
    }
}

/// Is every rule set that tells the region's traffic apart defined?
pub fn region_reverse_rule_sets_intact(required: &Option<Vec<String>>, config: &CoreConfig) -> (r:
    bool)
    ensures
        r == region_intact(opt_views(*required), views(config.rule_set_tags@)),
{
    match required {
        None => false,
        Some(tags) => {
            let mut i: usize = 0;
            while i < tags.len()
                invariant
                    i <= tags@.len(),
                    *required == Some(*tags),
                    forall|k: int|
                        0 <= k < i ==> views(config.rule_set_tags@).contains(
                            #[trigger] views(tags@)[k],
                        ),
                decreases tags@.len() - i,
            {
                if !text_in_list(&config.rule_set_tags, tags[i].as_str()) {
                    let ghost wanted = views(tags@);
                    assert(wanted[i as int] == tags@[i as int]@);
                    assert(!all_defined(wanted, views(config.rule_set_tags@)));
                    return false;
                }
                i += 1;
            }
            true
        },
    }
}

/// What is found: traffic that by design does not go through the node is in order; then the
/// selection is checked, and then where traffic goes.
pub open spec fn exit_finding(
    q: ExitQuestion,
    config: CoreConfig,
    persisted: Option<Seq<char>>,
) -> ExitFinding {
    let started = opt_view(q.selected);
    let by_design = q.mode == ProxyMode::Direct || (q.mode == ProxyMode::Smart && q.reverse_region
        && region_intact(opt_views(q.region_rule_sets), views(config.rule_set_tags@)))
        || q.falls_back_to_direct;
    if by_design {
        ExitFinding::Match
    } else if persisted is Some && started != persisted {
        ExitFinding::StaleSelection {
            persisted: persisted->0,
            started_with: match started {
                Some(s) => s,
                None => "<none>"@,
            },
        }
    } else if q.selected_is_direct || started is None {
        ExitFinding::Match
    } else {
        match table_get(table_view(q.id_to_tag@), started->0) {
            None => ExitFinding::UnknownSelection { selected_id: started->0 },
            Some(expected) => match exit_tag(config) {
                None => ExitFinding::UnresolvedExit { expected_tag: expected },
                Some(actual) => if actual == expected {
                    ExitFinding::Match
                } else if actual == DIRECT_TAG@ {
                    ExitFinding::SilentDirect { expected_tag: expected }
                } else {
                    ExitFinding::WrongExit { expected_tag: expected, actual_tag: actual }
                },
            },
        }
    }
}

/// Does the configuration send traffic through the selected node?
pub fn attest_effective_exit(
    q: &ExitQuestion,
    config: &CoreConfig,
    persisted_selected_id: Option<&str>,
) -> (r: ExitAttestation)
    ensures
        r@ == exit_finding(*q, *config, opt_str_view(persisted_selected_id)),
{
    match q.mode {
        ProxyMode::Direct => {
            return ExitAttestation::Match;
        },
        ProxyMode::Smart => {
            if q.reverse_region && region_reverse_rule_sets_intact(&q.region_rule_sets, config) {
                return ExitAttestation::Match;
            }
        },
        ProxyMode::Global => {},
    }
    if q.falls_back_to_direct {
        return ExitAttestation::Match;
    }
    if let Some(persisted) = persisted_selected_id {
        let stale = match &q.selected {
            Some(s) => !same_text(s.as_str(), persisted),
            None => true,
        };
        if stale {
            return ExitAttestation::StaleSelection {
                persisted: persisted.to_owned(),
                started_with: match &q.selected {
                    Some(s) => s.clone(),
                    None => "<none>".to_owned(),
                },
            };
        }
    }
    if q.selected_is_direct {
        return ExitAttestation::Match;
    }
    let selected = match &q.selected {
        Some(s) => s,
        None => {
            return ExitAttestation::Match;
        },
    };
    let expected = match lookup(&q.id_to_tag, selected.as_str()) {
        Some(t) => t,
        None => {
            return ExitAttestation::UnknownSelection { selected_id: selected.clone() };
        },
    };
    match effective_exit_tag(config) {
        None => ExitAttestation::UnresolvedExit { expected_tag: expected.clone() },
        Some(actual) => if same_text(actual.as_str(), expected.as_str()) {
            ExitAttestation::Match
        } else if same_text(actual.as_str(), DIRECT_TAG) {
            ExitAttestation::SilentDirect { expected_tag: expected.clone() }
        } else {
            ExitAttestation::WrongExit { expected_tag: expected.clone(), actual_tag: actual }
        },
    }
}

/// A configuration that routes through nodes and whose traffic leaves without a proxy never
/// passes, unless that is what the user selected or what the node does by design, or routing is
/// reversed and has every rule set that it needs.
pub proof fn law_silent_direct_is_never_a_match(
    q: ExitQuestion,
    config: CoreConfig,
    persisted: Option<Seq<char>>,
)
    requires
        q.mode != ProxyMode::Direct,
        !(q.mode == ProxyMode::Smart && q.reverse_region && region_intact(
            opt_views(q.region_rule_sets),
            views(config.rule_set_tags@),
        )),
        !q.falls_back_to_direct,
        !q.selected_is_direct,
        q.selected is Some,
        exit_tag(config) == Some(DIRECT_TAG@),
        table_get(table_view(q.id_to_tag@), opt_view(q.selected)->0) != Some(DIRECT_TAG@),
    ensures
        exit_finding(q, config, persisted) !is Match,
{
}

impl ProxyRuntime {
    /// The core came up: what was found of its exit is said, unless it is in order.
    pub fn attest_selected_exit(&mut self, found: &ExitAttestation)
        ensures
            found@ is Match ==> *final(self) == *old(self),
            found@ !is Match ==> {
                &&& final(self).status@ == (StatusView {
                    error: Some(exit_text(found@)),
                    error_code: Some(ErrorCode::ExitMismatch),
                    ..old(self).status@
                })
                &&& *final(self) == (ProxyRuntime { status: final(self).status, ..*old(self) })
            },
    {
        match found {
            ExitAttestation::Match => {},
            _ => {
                let msg = found.user_message();
                self.set_nonfatal_error(msg.as_str(), ErrorCode::ExitMismatch);
            },
        }
    }

    /// Rule resources without a local copy were left out: that is said, with their names.
    pub fn warn_pruned_rule_resources(&mut self, pruned: &Vec<String>)
        ensures
            pruned@.len() == 0 ==> *final(self) == *old(self),
            pruned@.len() > 0 ==> {
                &&& final(self).status@ == (StatusView {
                    error: Some(pruned_text(views(pruned@))),
                    error_code: Some(ErrorCode::RuleResourcesMissing),
                    ..old(self).status@
                })
                &&& *final(self) == (ProxyRuntime { status: final(self).status, ..*old(self) })
            },
    {
        if pruned.len() == 0 {
            return;
        }
        let msg = "规则资源 ".to_owned().concat(join_names(pruned).as_str()).concat(
            " 缺少本地副本，引用它们的分流规则本次已被跳过（分流将不完整）。请到「规则资源」页下载后重连恢复。",
        );
        self.set_nonfatal_error(msg.as_str(), ErrorCode::RuleResourcesMissing);
    }
}

/// Names in a row, with a separator between them.
pub open spec fn names_in_a_row(names: Seq<Seq<char>>) -> Seq<char>
    decreases names.len(),
{
    if names.len() == 0 {
        Seq::empty()
    } else if names.len() == 1 {
        names[0]
    } else {
        names_in_a_row(names.drop_last()) + "、"@ + names.last()
    }
}

/// What is said of rule resources that were left out.
pub open spec fn pruned_text(names: Seq<Seq<char>>) -> Seq<char> {
    "规则资源 "@ + names_in_a_row(names)
        + " 缺少本地副本，引用它们的分流规则本次已被跳过（分流将不完整）。请到「规则资源」页下载后重连恢复。"@
}

fn join_names(names: &Vec<String>) -> (r: String)
    ensures
        r@ == names_in_a_row(views(names@)),
{
    let mut out = String::new();
    let mut i: usize = 0;
    while i < names.len()
        invariant
            i <= names@.len(),
            out@ == names_in_a_row(views(names@).take(i as int)),
        decreases names@.len() - i,
    {
        let ghost next = views(names@).take(i + 1);
        assert(next.drop_last() =~= views(names@).take(i as int));
        assert(next.last() == names@[i as int]@);
        if i > 0 {
            out.append("、");
        } else {
            assert(out@ + names@[i as int]@ =~= names@[i as int]@);
        }
        out.append(names[i].as_str());
        i += 1;
    }
    assert(views(names@).take(i as int) =~= views(names@));
    out
}

/// A selection that means no proxy is in order wherever traffic goes and whatever the table of
/// nodes says, as long as it is the saved one or none is saved. So is a mode that uses no node, a
/// node that falls back by design, and no selection at all.
pub proof fn law_no_proxy_is_in_order_where_it_is_selected(
    q: ExitQuestion,
    config: CoreConfig,
    persisted: Option<&str>,
    r: ExitAttestation,
)
    requires
        call_ensures(attest_effective_exit, (&q, &config, persisted), r),
    ensures
        ({
            let same = persisted is None || (q.selected is Some && persisted->0@ == q.selected->0@);
            &&& q.selected_is_direct && same ==> r is Match
            &&& q.selected is None && persisted is None ==> r is Match
            &&& q.mode == ProxyMode::Direct ==> r is Match
            &&& q.falls_back_to_direct ==> r is Match
        }),
{
    assert(opt_str_view(persisted) == (match persisted {
        Some(p) => Some(p@),
        None => None,
    }));
}

/// Where traffic is meant to go through a node, everything about it is looked at: first that the
/// saved selection is the one that is started, then that the node is known, then that the
/// configuration says where traffic goes, and then that this is the node's tag. Each finding comes
/// in exactly its case, and names what it is about.
pub proof fn law_each_exit_finding_has_its_case(
    q: ExitQuestion,
    config: CoreConfig,
    persisted: Option<&str>,
    r: ExitAttestation,
    exit: Option<String>,
    intact: bool,
)
    requires
        call_ensures(attest_effective_exit, (&q, &config, persisted), r),
        call_ensures(effective_exit_tag, (&config,), exit),
        call_ensures(region_reverse_rule_sets_intact, (&q.region_rule_sets, &config), intact),
    ensures
        ({
            let meant = q.mode != ProxyMode::Direct && !q.falls_back_to_direct && !(q.mode
                == ProxyMode::Smart && q.reverse_region && intact);
            let same = persisted is None || (q.selected is Some && persisted->0@ == q.selected->0@);
            let looked = meant && same && !q.selected_is_direct && q.selected is Some;
            let known = table_get(table_view(q.id_to_tag@), q.selected->0@);
            &&& r is StaleSelection <==> meant && !same
            &&& r is UnknownSelection <==> looked && known is None
            &&& r is UnresolvedExit <==> looked && known is Some && exit is None
            &&& r is SilentDirect <==> looked && known is Some && exit is Some && exit->0@
                == DIRECT_TAG@ && known->0 != exit->0@
            &&& r is WrongExit <==> looked && known is Some && exit is Some && exit->0@
                != DIRECT_TAG@ && known->0 != exit->0@
            &&& looked && r is Match ==> known is Some && exit is Some && known->0 == exit->0@
            &&& !meant ==> r is Match
            &&& r matches ExitAttestation::StaleSelection { persisted: p, started_with } ==> p@
                == persisted->0@ && (q.selected is Some ==> started_with@ == q.selected->0@)
            &&& r matches ExitAttestation::UnknownSelection { selected_id } ==> selected_id@
                == q.selected->0@
            &&& r matches ExitAttestation::UnresolvedExit { expected_tag } ==> known == Some(
                expected_tag@,
            )
            &&& r matches ExitAttestation::SilentDirect { expected_tag } ==> known == Some(
                expected_tag@,
            )
            &&& r matches ExitAttestation::WrongExit { expected_tag, actual_tag } ==> known == Some(
                expected_tag@,
            ) && exit->0@ == actual_tag@
        }),
{
    assert(opt_str_view(persisted) == (match persisted {
        Some(p) => Some(p@),
        None => None,
    }));
    assert(opt_view(q.selected) == (match q.selected {
        Some(p) => Some(p@),
        None => None,
    }));
    assert(opt_view(exit) == exit_tag(config));
}

/// Where traffic goes is what the first outbound with the final tag begins with; a tag that no
/// outbound has, or whose outbound begins with nothing, is itself where it goes, and so is the one
/// for no proxy. Only a configuration without a final outbound leaves it open.
pub proof fn law_traffic_goes_where_the_final_outbound_begins(
    config: CoreConfig,
    r: Option<String>,
    i: int,
)
    requires
        call_ensures(effective_exit_tag, (&config,), r),
    ensures
        r is Some <==> config.final_outbound is Some,
        config.final_outbound matches Some(f) ==> {
            &&& f@ == DIRECT_TAG@ ==> r->0@ == DIRECT_TAG@
            &&& (forall|k: int|
                0 <= k < config.outbounds@.len() ==> (#[trigger] config.outbounds@[k]).tag@ != f@)
                ==> r->0@ == f@
            &&& f@ != DIRECT_TAG@ && 0 <= i < config.outbounds@.len() && config.outbounds@[i].tag@
                == f@ && (forall|k: int|
                0 <= k < i ==> (#[trigger] config.outbounds@[k]).tag@ != f@) ==> r->0@ == (
            match config.outbounds@[i].default_member {
                Some(m) => m@,
                None => f@,
            })
        },
{
    if let Some(f) = config.final_outbound {
        lemma_default_member(config.outbounds@, f@, i);
        assert(opt_view(r) == exit_tag(config));
        if 0 <= i < config.outbounds@.len() {
            assert(opt_view(config.outbounds@[i].default_member) == (
            match config.outbounds@[i].default_member {
                Some(m) => Some(m@),
                None => None,
            }));
        }
    }
}

proof fn lemma_default_member(outbounds: Seq<Outbound>, tag: Seq<char>, i: int)
    ensures
        (forall|k: int| 0 <= k < outbounds.len() ==> (#[trigger] outbounds[k]).tag@ != tag)
            ==> default_member_of(outbounds, tag) is None,
        0 <= i < outbounds.len() && outbounds[i].tag@ == tag && (forall|k: int|
            0 <= k < i ==> (#[trigger] outbounds[k]).tag@ != tag) ==> default_member_of(
            outbounds,
            tag,
        ) == opt_view(outbounds[i].default_member),
    decreases outbounds.len(),
{
    if outbounds.len() > 0 {
        let rest = outbounds.drop_first();
        lemma_default_member(rest, tag, i - 1);
        if forall|k: int| 0 <= k < outbounds.len() ==> (#[trigger] outbounds[k]).tag@ != tag {
            assert(outbounds[0].tag@ != tag);
            assert forall|k: int| 0 <= k < rest.len() implies (#[trigger] rest[k]).tag@ != tag by {
                assert(rest[k] == outbounds[k + 1]);
            }
        }
        if 0 < i < outbounds.len() && (forall|k: int|
            0 <= k < i ==> (#[trigger] outbounds[k]).tag@ != tag) {
            assert(outbounds[0].tag@ != tag);
            assert(rest[i - 1] == outbounds[i]);
            assert forall|k: int| 0 <= k < i - 1 implies (#[trigger] rest[k]).tag@ != tag by {
                assert(rest[k] == outbounds[k + 1]);
            }
        }
    }
}

/// Reversed routing holds together exactly where the rule sets that it needs are known and each of
/// them is defined.
pub proof fn law_every_rule_set_is_needed(
    required: Option<Vec<String>>,
    config: CoreConfig,
    r: bool,
    i: int,
)
    requires
        call_ensures(region_reverse_rule_sets_intact, (&required, &config), r),
    ensures
        r ==> required is Some,
        r && 0 <= i < required->0@.len() ==> exists|k: int|
            0 <= k < config.rule_set_tags@.len() && (#[trigger] config.rule_set_tags@[k])@
                == required->0@[i]@,
        !r && required is Some ==> exists|j: int|
            0 <= j < required->0@.len() && !views(config.rule_set_tags@).contains(
                (#[trigger] required->0@[j])@,
            ),
{
    let defined = views(config.rule_set_tags@);
    assert(defined.len() == config.rule_set_tags@.len());
    if required is Some {
        let need = views(required->0@);
        assert(need.len() == required->0@.len());
        if r && 0 <= i < need.len() {
            assert(need[i] == required->0@[i]@);
            let k = choose|k: int| 0 <= k < defined.len() && defined[k] == need[i];
            assert(config.rule_set_tags@[k]@ == required->0@[i]@);
        }
        if !r {
            let j = choose|j: int|
                0 <= j < need.len() && !defined.contains(#[trigger] need[j]);
            assert(need[j] == required->0@[j]@);
        }
    }
}

/// An exit that is not in order is said without touching the session, and everything that was
/// found is named; one that is in order changes nothing.
pub proof fn law_a_wrong_exit_is_said(rt: &mut ProxyRuntime, found: ExitAttestation)
    requires
        call_ensures(ProxyRuntime::attest_selected_exit, (rt, &found), ()),
    ensures
        found is Match ==> *final(rt) == *old(rt),
        found !is Match ==> {
            &&& final(rt).status.error is Some
            &&& final(rt).status.error->0@.len() > 0
            &&& final(rt).status.error_code == Some(ErrorCode::ExitMismatch)
            &&& same_session(old(rt).status, final(rt).status)
            &&& only_status_differs(*old(rt), *final(rt))
        },
        found matches ExitAttestation::WrongExit { expected_tag, actual_tag } ==> occurs_in(
            final(rt).status.error->0@,
            expected_tag@,
        ) && occurs_in(final(rt).status.error->0@, actual_tag@),
        found matches ExitAttestation::SilentDirect { expected_tag } ==> occurs_in(
            final(rt).status.error->0@,
            expected_tag@,
        ),
        found matches ExitAttestation::UnresolvedExit { expected_tag } ==> occurs_in(
            final(rt).status.error->0@,
            expected_tag@,
        ),
        found matches ExitAttestation::UnknownSelection { selected_id } ==> occurs_in(
            final(rt).status.error->0@,
            selected_id@,
        ),
        found matches ExitAttestation::StaleSelection { persisted, started_with } ==> occurs_in(
            final(rt).status.error->0@,
            persisted@,
        ) && occurs_in(final(rt).status.error->0@, started_with@),
{
    law_an_exit_warning_opens_the_same_way(found@, 0);
    law_an_exit_warning_opens_the_same_way(found@, 1);
    assert(final(rt).status@.pid == final(rt).status.pid && old(rt).status@.pid == old(
        rt,
    ).status.pid);
    assert(final(rt).status@.error == opt_view(final(rt).status.error));
}

/// Every rule resource that was left out is named, and nothing is said where none was.
pub proof fn law_every_pruned_resource_is_named(rt: &mut ProxyRuntime, pruned: Vec<String>, i: int)
    requires
        call_ensures(ProxyRuntime::warn_pruned_rule_resources, (rt, &pruned), ()),
    ensures
        pruned@.len() == 0 ==> *final(rt) == *old(rt),
        pruned@.len() > 0 ==> {
            &&& final(rt).status.error is Some
            &&& final(rt).status.error_code == Some(ErrorCode::RuleResourcesMissing)
            &&& same_session(old(rt).status, final(rt).status)
            &&& only_status_differs(*old(rt), *final(rt))
        },
        0 <= i < pruned@.len() ==> occurs_in(final(rt).status.error->0@, pruned@[i]@),
{
    assert(final(rt).status@.pid == final(rt).status.pid && old(rt).status@.pid == old(
        rt,
    ).status.pid);
    assert(final(rt).status@.error == opt_view(final(rt).status.error));
    if 0 <= i < pruned@.len() {
        let names = views(pruned@);
        assert(names.len() == pruned@.len());
        assert(names[i] == pruned@[i]@);
        lemma_named_in_a_row(names, i);
        let row = names_in_a_row(names);
        let x = names[i];
        let at = choose|at: int| #[trigger] occurs_at(row, x, at);
        let front = row.subrange(0, at);
        let back = row.subrange(at + x.len(), row.len() as int);
        assert(row =~= front + x + back);
        lemma_inside_a_row(
            "规则资源 "@,
            front,
            x,
            back,
            " 缺少本地副本，引用它们的分流规则本次已被跳过（分流将不完整）。请到「规则资源」页下载后重连恢复。"@,
        );
    }
}

proof fn lemma_inside_a_row(
    open: Seq<char>,
    front: Seq<char>,
    x: Seq<char>,
    back: Seq<char>,
    end: Seq<char>,
)
    ensures
        occurs_in(open + (front + x + back) + end, x),
{
    lemma_occurs_between(open + (front + x + back) + end, open + front, x, back + end);
}

proof fn lemma_named_in_a_row(names: Seq<Seq<char>>, i: int)
    requires
        0 <= i < names.len(),
    ensures
        occurs_in(names_in_a_row(names), names[i]),
    decreases names.len(),
{
    let row = names_in_a_row(names);
    if names.len() == 1 {
        lemma_occurs_between(row, Seq::empty(), names[0], Seq::empty());
    } else {
        let before = names_in_a_row(names.drop_last());
        if i == names.len() - 1 {
            lemma_occurs_between(row, before + "、"@, names[i], Seq::empty());
        } else {
            lemma_named_in_a_row(names.drop_last(), i);
            let x = names[i];
            assert(names.drop_last()[i] == x);
            let at = choose|at: int| #[trigger] occurs_at(before, x, at);
            let front = before.subrange(0, at);
            let back = before.subrange(at + x.len(), before.len() as int);
            assert(before =~= front + x + back);
            lemma_inside_a_row(Seq::empty(), front, x, back, "、"@ + names.last());
            assert(Seq::<char>::empty() + (front + x + back) + ("、"@ + names.last()) =~= row);
        }
    }
}

/// What the user is told of an exit names everything that was found, and is nothing exactly where
/// the exit is in order. A wrong exit is told in its order: the tag that is expected stands before
/// the one that was found.
pub proof fn law_what_is_told_of_an_exit(found: ExitAttestation, r: String)
    requires
        call_ensures(ExitAttestation::user_message, (&found,), r),
    ensures
        r@.len() == 0 <==> found is Match,
        found !is Match ==> begins_with(r@, EXIT_OPENING@),
        found matches ExitAttestation::WrongExit { expected_tag, actual_tag } ==> exists|
            a: int,
            b: int,
        |
            a + expected_tag@.len() <= b && #[trigger] occurs_at(r@, expected_tag@, a)
                && #[trigger] occurs_at(r@, actual_tag@, b),
        found matches ExitAttestation::SilentDirect { expected_tag } ==> occurs_in(
            r@,
            expected_tag@,
        ) && occurs_in(r@, "直连"@),
{
    law_an_exit_warning_opens_the_same_way(found@, 0);
    match found {
        ExitAttestation::WrongExit { expected_tag, actual_tag } => {
            lemma_one_before_the_other(
                EXIT_OPENING@,
                "「"@,
                expected_tag@,
                "」，实际出口为「"@,
                actual_tag@,
                "」。"@,
            );
        },
        ExitAttestation::SilentDirect { expected_tag } => {
            let t = "」，实际出口为直连（未加密）。请检查该节点配置或重新选择节点。"@;
            reveal_strlit("」，实际出口为直连（未加密）。请检查该节点配置或重新选择节点。");
            reveal_strlit("直连");
            let d = "直连"@;
            assert(t.subrange(7, 9) =~= d);
            let front = t.subrange(0, 7);
            let back = t.subrange(9, t.len() as int);
            assert(t =~= front + d + back);
            lemma_inside_a_row(EXIT_OPENING@ + ("「"@ + expected_tag@), front, d, back, Seq::empty());
            assert(r@ =~= EXIT_OPENING@ + ("「"@ + expected_tag@) + (front + d + back)
                + Seq::empty());
        },
        _ => {},
    }
}

proof fn lemma_one_before_the_other(
    o: Seq<char>,
    a: Seq<char>,
    x: Seq<char>,
    b: Seq<char>,
    y: Seq<char>,
    c: Seq<char>,
)
    ensures
        exists|i: int, j: int|
            i + x.len() <= j && #[trigger] occurs_at(o + (a + x + b + y + c), x, i)
                && #[trigger] occurs_at(o + (a + x + b + y + c), y, j),
{
    let t = o + (a + x + b + y + c);
    let i = (o.len() + a.len()) as int;
    let j = i + x.len() + b.len();
    assert(t.subrange(i, i + x.len()) =~= x);
    assert(t.subrange(j, j + y.len()) =~= y);
    assert(occurs_at(t, x, i));
    assert(occurs_at(t, y, j));
}

} // verus!
