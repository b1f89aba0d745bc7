//! Leaving out the nodes that the core rejects, one after the other, until it accepts the rest.

use vstd::prelude::*;

use crate::core_config::CoreConfig;
use crate::kernel_gate::KERNEL_GATE_CACHE_SCHEMA;
use crate::table::{lookup, table_get, table_view};
use crate::text::{
    lemma_text_less_total, lemma_text_less_transitive, same_text, strictly_sorted, text_before,
    text_less,
};

verus! {

/// A node that is left out of the configuration, and why.
pub struct InvalidNode {
    pub id: String,
    pub tag: String,
    pub reason: String,
}

/// What is said of a node that is left out.
pub struct InvalidNodeView {
    pub id: Seq<char>,
    pub tag: Seq<char>,
    pub reason: Seq<char>,
}

impl View for InvalidNode {
    type V = InvalidNodeView;

    open spec fn view(&self) -> InvalidNodeView {
        InvalidNodeView { id: self.id@, tag: self.tag@, reason: self.reason@ }
    }
}

impl Clone for InvalidNode {
    fn clone(&self) -> (r: Self)
        ensures
            r == *self,
    {
        InvalidNode { id: self.id.clone(), tag: self.tag.clone(), reason: self.reason.clone() }
    }
}

/// What is said of nodes that are left out.
pub open spec fn node_views(v: Seq<InvalidNode>) -> Seq<InvalidNodeView> {
    v.map_values(|n: InvalidNode| n@)
}

/// The identifiers of nodes that are left out.
pub open spec fn node_ids(v: Seq<InvalidNode>) -> Seq<Seq<char>> {
    v.map_values(|n: InvalidNode| n.id@)
}

/// In which part of a configuration the core found what it rejects.
#[derive(Clone, Copy, PartialEq, Eq, Structural, Debug)]
pub enum RejectedArray {
    Outbounds,
    Endpoints,
}

/// An entry that the core rejects.
pub struct KernelRejection {
    pub array: RejectedArray,
    pub index: usize,
    pub detail: String,
}

/// What is made of a rejection.
pub enum PeelTarget {
    /// The node is left out.
    Peel { id: String, tag: String },
    /// It is the selected node: without it there is nothing to start.
    Blocked { id: String, tag: String },
    /// The node was left out already: leaving it out again does not help.
    Stalled { tag: String },
    /// The entry belongs to no node.
    Unattributable,
}

/// What follows a check of the configuration.
pub enum PeelStep {
    /// The core accepts it.
    Proceed,
    /// No more nodes are left out; the core is started as it is.
    Stop,
    Peel(KernelRejection),
}

/// What follows for a configuration on its way to the core.
pub enum GateNext {
    /// Have the core check the configuration.
    Check,
    /// Start with this configuration.
    Pass,
    /// Start with this configuration, and remember that the core accepts it.
    PassAndRemember,
    /// Do not start: the core rejects the selected node.
    Blocked { node: InvalidNode, detail: String },
    /// Generate the configuration again without the node that was just left out.
    Again,
}

/// The tag of the entry that is rejected.
pub open spec fn rejected_tag(rejection: KernelRejection, config: CoreConfig) -> Option<Seq<char>> {
    match rejection.array {
        RejectedArray::Outbounds => if rejection.index < config.outbounds@.len() {
            Some(config.outbounds@[rejection.index as int].tag@)
        } else {
            None
        },
        RejectedArray::Endpoints => match config.endpoint_tags {
            Some(tags) => if rejection.index < tags@.len() {
                Some(tags@[rejection.index as int]@)
            } else {
                None
            },
            None => None,
        },
    }
}

/// The node that a rejected entry belongs to: its identifier and its tag.
pub open spec fn rejected_node(
    rejection: KernelRejection,
    config: CoreConfig,
    tag_to_id: Seq<(Seq<char>, Seq<char>)>,
) -> Option<(Seq<char>, Seq<char>)> {
    match rejected_tag(rejection, config) {
        Some(tag) => match table_get(tag_to_id, tag) {
            Some(id) => Some((id, tag)),
            None => None,
        },
        None => None,
    }
}

/// The node that a rejected entry belongs to.
pub fn attribute_rejected_node(
    rejection: &KernelRejection,
    config: &CoreConfig,
    tag_to_id: &Vec<(String, String)>,
) -> (r: Option<(String, String)>)
    ensures
        match r {
            Some(n) => rejected_node(*rejection, *config, table_view(tag_to_id@)) == Some(
                (n.0@, n.1@),
            ),
            None => rejected_node(*rejection, *config, table_view(tag_to_id@)) is None,
        },
{
    let tag = match rejection.array {
        RejectedArray::Outbounds => {
            if rejection.index >= config.outbounds.len() {
                return None;
            }
            &config.outbounds[rejection.index].tag
        },
        RejectedArray::Endpoints => match &config.endpoint_tags {
            Some(tags) => {
                if rejection.index >= tags.len() {
                    return None;
                }
                &tags[rejection.index]
            },
            None => {
                return None;
            },
        },
    };
    match lookup(tag_to_id, tag.as_str()) {
        Some(id) => Some((id.clone(), tag.clone())),
        None => None,
    }
}

/// Is the node left out already?
pub fn is_peeled(peeled: &Vec<InvalidNode>, id: &str) -> (r: bool)
    ensures
        r == node_ids(peeled@).contains(id@),
{
    let mut i: usize = 0;
    while i < peeled.len()
        invariant
            i <= peeled@.len(),
            forall|k: int| 0 <= k < i ==> (#[trigger] node_ids(peeled@)[k]) != id@,
        decreases peeled@.len() - i,
    {
        if same_text(peeled[i].id.as_str(), id) {
            assert(node_ids(peeled@)[i as int] == id@);
            return true;
        }
        i += 1;
    }
    false
}

/// What is made of a rejection: see the result's variants, of which the first that applies in the
/// order unattributable, blocked, stalled, peel counts.
pub open spec fn peel_target_is(
    rejection: KernelRejection,
    config: CoreConfig,
    tag_to_id: Seq<(Seq<char>, Seq<char>)>,
    selected: Option<Seq<char>>,
    peeled: Seq<Seq<char>>,
    r: PeelTarget,
) -> bool {
    match rejected_node(rejection, config, tag_to_id) {
        None => r is Unattributable,
        Some((i, t)) => if selected == Some(i) {
            r matches PeelTarget::Blocked { id, tag } && id@ == i && tag@ == t
        } else if peeled.contains(i) {
            r matches PeelTarget::Stalled { tag } && tag@ == t
        } else {
            r matches PeelTarget::Peel { id, tag } && id@ == i && tag@ == t
        },
    }
}

/// The view of an optional borrowed text.
pub open spec fn opt_str_view(s: Option<&str>) -> Option<Seq<char>> {
    match s {
        Some(t) => Some(t@),
        None => None,
    }
}

/// What is made of a rejection.
pub fn classify_peel_target(
    rejection: &KernelRejection,
    config: &CoreConfig,
    tag_to_id: &Vec<(String, String)>,
    selected_server_id: Option<&str>,
    peeled: &Vec<InvalidNode>,
) -> (r: PeelTarget)
    ensures
        peel_target_is(
            *rejection,
            *config,
            table_view(tag_to_id@),
            opt_str_view(selected_server_id),
            node_ids(peeled@),
            r,
        ),
{
    match attribute_rejected_node(rejection, config, tag_to_id) {
        None => PeelTarget::Unattributable,
        Some((id, tag)) => {
            let selected = match selected_server_id {
                Some(s) => same_text(s, id.as_str()),
                None => false,
            };
            if selected {
                PeelTarget::Blocked { id, tag }
            } else if is_peeled(peeled, id.as_str()) {
                PeelTarget::Stalled { tag }
            } else {
                PeelTarget::Peel { id, tag }
            }
        },
    }
}

/// Which nodes are still in: those that have not been left out.
pub fn retained(server_ids: &Vec<String>, peeled: &Vec<InvalidNode>) -> (r: Vec<bool>)
    ensures
        r@.len() == server_ids@.len(),
        forall|i: int|
            0 <= i < r@.len() ==> #[trigger] r@[i] == !node_ids(peeled@).contains(
                server_ids@[i]@,
            ),
{
    let mut out: Vec<bool> = Vec::new();
    let mut i: usize = 0;
    while i < server_ids.len()
        invariant
            i <= server_ids@.len(),
            out@.len() == i,
            forall|k: int|
                0 <= k < i ==> #[trigger] out@[k] == !node_ids(peeled@).contains(server_ids@[k]@),
        decreases server_ids@.len() - i,
    {
        out.push(!is_peeled(peeled, server_ids[i].as_str()));
        i += 1;
    }
    out
}

/// A gate that a configuration passes through before the core is started.
pub struct PeelGate {
    pub checks_run: u32,
    /// The nodes that were left out, in the order of their identifiers.
    pub peeled: Vec<InvalidNode>,
}

impl PeelGate {
    /// The nodes that were left out stand in order, each once.
    pub open spec fn wf(self) -> bool {
        strictly_sorted(node_ids(self.peeled@))
    }

    /// A gate that has left out nothing yet.
    pub fn new() -> (r: Self)
        ensures
            r.wf(),
            r.checks_run == 0,
            r.peeled@.len() == 0,
    {
        PeelGate { checks_run: 0, peeled: Vec::new() }
    }

    /// A gate for another attempt: the nodes that were left out stay out.
    pub fn reopen(&mut self)
        requires
            old(self).wf(),
        ensures
            final(self).wf(),
            final(self).checks_run == 0,
            final(self).peeled == old(self).peeled,
    {
        self.checks_run = 0;
    }

    /// A configuration was generated. Without a core there is nothing to ask, and what the core
    /// accepted before is not asked again.
    pub fn on_generated(&mut self, has_binary: bool, remembered: bool) -> (r: GateNext)
        requires
            old(self).checks_run < u32::MAX,
        ensures
            final(self).peeled == old(self).peeled,
            if !has_binary || remembered {
                r is Pass && final(self).checks_run == old(self).checks_run
            } else {
                r is Check && final(self).checks_run == old(self).checks_run + 1
            },
    {
        if !has_binary || remembered {
            return GateNext::Pass;
        }
        self.checks_run = self.checks_run + 1;
        GateNext::Check
    }

    /// The core checked the configuration. `reason` is what is said of a node that it rejects.
    pub fn on_checked(
        &mut self,
        step: PeelStep,
        config: &CoreConfig,
        tag_to_id: &Vec<(String, String)>,
        selected_server_id: Option<&str>,
        reason: &str,
    ) -> (r: GateNext)
        requires
            old(self).wf(),
        ensures
            final(self).wf(),
            final(self).checks_run == old(self).checks_run,
            match step {
                PeelStep::Proceed => r is PassAndRemember && final(self).peeled == old(self).peeled,
                PeelStep::Stop => r is Pass && final(self).peeled == old(self).peeled,
                PeelStep::Peel(rejection) => match rejected_node(
                    rejection,
                    *config,
                    table_view(tag_to_id@),
                ) {
                    None => r is Pass && final(self).peeled == old(self).peeled,
                    Some((id, tag)) => {
                        let view = InvalidNodeView { id, tag, reason: reason@ };
                        if opt_str_view(selected_server_id) == Some(id) {
                            &&& r matches GateNext::Blocked { node, detail }
                            &&& node@ == view
                            &&& detail == rejection.detail
                            &&& final(self).peeled == old(self).peeled
                        } else if node_ids(old(self).peeled@).contains(id) {
                            r is Pass && final(self).peeled == old(self).peeled
                        } else {
                            r is Again && left_out(
                                node_views(old(self).peeled@),
                                node_views(final(self).peeled@),
                                view,
                            )
                        }
                    },
                },
            },
    {
        let rejection = match step {
            PeelStep::Proceed => {
                return GateNext::PassAndRemember;
            },
            PeelStep::Stop => {
                return GateNext::Pass;
            },
            PeelStep::Peel(r) => r,
        };
        match classify_peel_target(&rejection, config, tag_to_id, selected_server_id, &self.peeled) {
            PeelTarget::Unattributable => GateNext::Pass,
            PeelTarget::Stalled { tag: _ } => GateNext::Pass,
            PeelTarget::Blocked { id, tag } => GateNext::Blocked {
                node: InvalidNode { id, tag, reason: reason.to_owned() },
                detail: rejection.detail,
            },
            PeelTarget::Peel { id, tag } => {
                insert_node(
                    &mut self.peeled,
                    InvalidNode { id, tag, reason: reason.to_owned() },
                );
                GateNext::Again
            },
        }
    }

    /// What is reported: what generating the configuration left out, the nodes that the
    /// core rejects, and the node that blocks the start.
    pub fn report(&self, generated: &Vec<InvalidNode>, blocked: Option<&InvalidNode>) -> (r: Vec<
        InvalidNode,
    >)
        ensures
            r@ == generated@ + self.peeled@ + (match blocked {
                Some(n) => seq![*n],
                None => Seq::empty(),
            }),
    {
        let mut out: Vec<InvalidNode> = Vec::new();
        let mut i: usize = 0;
        while i < generated.len()
            invariant
                i <= generated@.len(),
                out@ == generated@.take(i as int),
            decreases generated@.len() - i,
        {
            out.push(generated[i].clone());
            i += 1;
            assert(generated@.take(i as int) =~= generated@.take(i - 1).push(generated@[i - 1]));
        }
        assert(generated@.take(i as int) =~= generated@);
        let mut j: usize = 0;
        while j < self.peeled.len()
            invariant
                j <= self.peeled@.len(),
                out@ == generated@ + self.peeled@.take(j as int),
            decreases self.peeled@.len() - j,
        {
            out.push(self.peeled[j].clone());
            j += 1;
            assert(self.peeled@.take(j as int) =~= self.peeled@.take(j - 1).push(
                self.peeled@[j - 1],
            ));
        }
        assert(self.peeled@.take(j as int) =~= self.peeled@);
        match blocked {
            Some(n) => {
                out.push(n.clone());
                assert(out@ =~= generated@ + self.peeled@ + seq![*n]);
            },
            None => {
                assert(out@ =~= generated@ + self.peeled@ + Seq::empty());
            },
        }
        out
    }
}

/// `after` holds what `before` held and `node`.
pub open spec fn left_out(
    before: Seq<InvalidNodeView>,
    after: Seq<InvalidNodeView>,
    node: InvalidNodeView,
) -> bool {
    exists|at: int| 0 <= at <= before.len() && after == #[trigger] before.insert(at, node)
}

fn insert_node(peeled: &mut Vec<InvalidNode>, node: InvalidNode)
    requires
        strictly_sorted(node_ids(old(peeled)@)),
        !node_ids(old(peeled)@).contains(node.id@),
    ensures
        strictly_sorted(node_ids(final(peeled)@)),
        left_out(node_views(old(peeled)@), node_views(final(peeled)@), node@),
{
    let mut at: usize = 0;
    while at < peeled.len() && text_before(peeled[at].id.as_str(), node.id.as_str())
        invariant
            at <= peeled@.len(),
            peeled@ == old(peeled)@,
            forall|k: int| 0 <= k < at ==> text_less(#[trigger] node_ids(peeled@)[k], node.id@),
        decreases peeled@.len() - at,
    {
        assert(node_ids(peeled@)[at as int] == peeled@[at as int].id@);
        at += 1;
    }
    let ghost before = node_ids(peeled@);
    let ghost views_before = node_views(peeled@);
    let ghost id = node.id@;
    let ghost view = node@;
    peeled.insert(at, node);
    let ghost after = node_ids(peeled@);
    proof {
        assert(node_views(peeled@) =~= views_before.insert(at as int, view));
        assert(after =~= before.insert(at as int, id));
        if at < before.len() {
            assert(before[at as int] == old(peeled)@[at as int].id@);
            assert(before.contains(before[at as int]));
            lemma_text_less_total(before[at as int], id);
        }
        assert forall|i: int, j: int| 0 <= i < j < after.len() implies text_less(
            #[trigger] after[i],
            #[trigger] after[j],
        ) by {
            if j == at {
                assert(after[i] == before[i]);
            } else if i == at {
                assert(after[j] == before[j - 1]);
                if j - 1 > at {
                    lemma_text_less_transitive(id, before[at as int], before[j - 1]);
                }
            } else {
                let p = if i < at { i } else { i - 1 };
                let q = if j < at { j } else { j - 1 };
                assert(after[i] == before[p] && after[j] == before[q]);
            }
        }
    }
}

/// The selected node is never left out: where it was not before, it is not after any check.
pub proof fn law_the_selected_node_stays(
    rejection: KernelRejection,
    config: CoreConfig,
    tag_to_id: Seq<(Seq<char>, Seq<char>)>,
    selected: Seq<char>,
    peeled: Seq<Seq<char>>,
    r: PeelTarget,
)
    requires
        peel_target_is(rejection, config, tag_to_id, Some(selected), peeled, r),
    ensures
        r matches PeelTarget::Peel { id, .. } ==> id@ != selected,
{
}

/// Leaving out makes progress: a node is left out once, and it is one of the configuration.
pub proof fn law_each_node_is_left_out_once(
    rejection: KernelRejection,
    config: CoreConfig,
    tag_to_id: Seq<(Seq<char>, Seq<char>)>,
    selected: Option<Seq<char>>,
    peeled: Seq<Seq<char>>,
    r: PeelTarget,
)
    requires
        peel_target_is(rejection, config, tag_to_id, selected, peeled, r),
    ensures
        r matches PeelTarget::Peel { id, tag } ==> {
            &&& !peeled.contains(id@)
            &&& table_get(tag_to_id, tag@) == Some(id@)
            &&& rejected_tag(rejection, config) == Some(tag@)
        },
{
}

/// What identifies a configuration that the core accepted: the core and the configuration.
pub struct KernelGateCacheRecord {
    pub schema: u32,
    pub binary_path: String,
    pub binary_len: u64,
    pub binary_modified_ns: u64,
    pub config_sha256: String,
}

/// What a record says.
pub open spec fn record_view(r: KernelGateCacheRecord) -> (u32, Seq<char>, u64, u64, Seq<char>) {
    (r.schema, r.binary_path@, r.binary_len, r.binary_modified_ns, r.config_sha256@)
}

/// The record of a configuration with the hash `config_sha256`, for a core of that size and time.
/// `None` where the time is not known.
pub fn kernel_gate_cache_record(
    binary_path: String,
    binary_len: u64,
    binary_modified_ns: Option<u64>,
    config_sha256: String,
) -> (r: Option<KernelGateCacheRecord>)
    ensures
        match binary_modified_ns {
            Some(ns) => r matches Some(x) && record_view(x) == (
                KERNEL_GATE_CACHE_SCHEMA,
                binary_path@,
                binary_len,
                ns,
                config_sha256@,
            ),
            None => r is None,
        },
{
    match binary_modified_ns {
        Some(ns) => Some(
            KernelGateCacheRecord {
                schema: KERNEL_GATE_CACHE_SCHEMA,
                binary_path,
                binary_len,
                binary_modified_ns: ns,
                config_sha256,
            },
        ),
        None => None,
    }
}

/// A record that was read back counts only in the version that is written now.
pub fn load_kernel_gate_cache(read: Option<KernelGateCacheRecord>) -> (r: Option<
    KernelGateCacheRecord,
>)
    ensures
        r == (match read {
            Some(x) => if x.schema == KERNEL_GATE_CACHE_SCHEMA {
                Some(x)
            } else {
                None
            },
            None => None,
        }),
{
    match read {
        Some(x) => if x.schema == KERNEL_GATE_CACHE_SCHEMA {
            Some(x)
        } else {
            None
        },
        None => None,
    }
}

/// The core accepted this configuration before.
pub open spec fn is_remembered(
    cache: Option<KernelGateCacheRecord>,
    record: KernelGateCacheRecord,
) -> bool {
    cache matches Some(c) && record_view(c) == record_view(record)
}

/// The configuration is remembered; `write` says that it was not before.
pub open spec fn remembers(
    before: Option<KernelGateCacheRecord>,
    after: Option<KernelGateCacheRecord>,
    record: KernelGateCacheRecord,
    write: bool,
) -> bool {
    &&& write == !is_remembered(before, record)
    &&& after == (if write {
        Some(record)
    } else {
        before
    })
}

fn same_record(a: &KernelGateCacheRecord, b: &KernelGateCacheRecord) -> (r: bool)
    ensures
        r == (record_view(*a) == record_view(*b)),
{
    a.schema == b.schema && same_text(a.binary_path.as_str(), b.binary_path.as_str())
        && a.binary_len == b.binary_len && a.binary_modified_ns == b.binary_modified_ns
        && same_text(a.config_sha256.as_str(), b.config_sha256.as_str())
}

/// Did the core accept this configuration before?
pub fn kernel_gate_cache_hit(
    cache: &Option<KernelGateCacheRecord>,
    record: &KernelGateCacheRecord,
) -> (r: bool)
    ensures
        r == is_remembered(*cache, *record),
{
    match cache {
        Some(c) => same_record(c, record),
        None => false,
    }
}

/// Remembers that the core accepted this configuration. `true` where it was not remembered before,
/// and then the record is to be written down.
pub fn remember_kernel_gate_cache(
    cache: &mut Option<KernelGateCacheRecord>,
    record: KernelGateCacheRecord,
) -> (write: bool)
    ensures
        remembers(*old(cache), *final(cache), record, write),
{
    if kernel_gate_cache_hit(cache, &record) {
        return false;
    }
    *cache = Some(record);
    true
}

/// What was remembered is recognised.
pub proof fn law_what_was_remembered_is_recognised(
    before: Option<KernelGateCacheRecord>,
    after: Option<KernelGateCacheRecord>,
    record: KernelGateCacheRecord,
    write: bool,
)
    requires
        remembers(before, after, record, write),
    ensures
        is_remembered(after, record),
{
}

/// A configuration is recognised by everything that is written down of it: only the same core, by
/// path, size and time, and the same configuration, in the same version of the record, count. A
/// difference in any one of them is a miss.
pub proof fn law_a_hit_agrees_in_everything(
    cache: Option<KernelGateCacheRecord>,
    record: KernelGateCacheRecord,
    hit: bool,
)
    requires
        call_ensures(kernel_gate_cache_hit, (&cache, &record), hit),
    ensures
        hit ==> {
            &&& cache is Some
            &&& cache->0.schema == record.schema
            &&& cache->0.binary_path@ == record.binary_path@
            &&& cache->0.binary_len == record.binary_len
            &&& cache->0.binary_modified_ns == record.binary_modified_ns
            &&& cache->0.config_sha256@ == record.config_sha256@
        },
        cache is None ==> !hit,
        cache matches Some(c) ==> (c.schema == record.schema && c.binary_path@
            == record.binary_path@ && c.binary_len == record.binary_len && c.binary_modified_ns
            == record.binary_modified_ns && c.config_sha256@ == record.config_sha256@ ==> hit),
{
}

/// A record is written down exactly where asking for it would have been a miss, and asking for it
/// afterwards is a hit; any other record is a miss then.
pub proof fn law_remembering_makes_a_hit(
    cache: &mut Option<KernelGateCacheRecord>,
    record: KernelGateCacheRecord,
    write: bool,
    before: bool,
    after: bool,
    other: KernelGateCacheRecord,
    other_hit: bool,
)
    requires
        call_ensures(kernel_gate_cache_hit, (old(cache), &record), before),
        call_ensures(remember_kernel_gate_cache, (cache, record), write),
        call_ensures(kernel_gate_cache_hit, (final(cache), &record), after),
        call_ensures(kernel_gate_cache_hit, (final(cache), &other), other_hit),
    ensures
        write <==> !before,
        after,
        other_hit ==> other.binary_path@ == record.binary_path@ && other.config_sha256@
            == record.config_sha256@ && other.binary_len == record.binary_len
            && other.binary_modified_ns == record.binary_modified_ns && other.schema
            == record.schema,
        write ==> *final(cache) == Some(record),
        !write ==> *final(cache) == *old(cache),
{
}

/// A record says what it was made of, in the version that is read back; without a time there is
/// none. What is read back in another version does not count, and what counts is unchanged.
pub proof fn law_a_record_is_read_back_as_it_was_made(
    binary_path: String,
    binary_len: u64,
    modified: Option<u64>,
    config_sha256: String,
    made: Option<KernelGateCacheRecord>,
    loaded: Option<KernelGateCacheRecord>,
    stored: Option<KernelGateCacheRecord>,
    read: Option<KernelGateCacheRecord>,
)
    requires
        call_ensures(
            kernel_gate_cache_record,
            (binary_path, binary_len, modified, config_sha256),
            made,
        ),
        call_ensures(load_kernel_gate_cache, (made,), loaded),
        call_ensures(load_kernel_gate_cache, (stored,), read),
    ensures
        loaded == made,
        made is Some <==> modified is Some,
        made matches Some(m) ==> {
            &&& m.binary_path@ == binary_path@
            &&& m.binary_len == binary_len
            &&& Some(m.binary_modified_ns) == modified
            &&& m.config_sha256@ == config_sha256@
        },
        read is Some ==> read == stored,
        made is Some && stored is Some ==> (read is Some <==> stored->0.schema == made->0.schema),
{
}

/// A rejected entry belongs to the node whose tag stands at the rejected place of the rejected
/// part of the configuration, and to nobody where there is no such place or no such node.
pub proof fn law_a_rejection_is_traced_to_its_place(
    rejection: KernelRejection,
    config: CoreConfig,
    tag_to_id: Vec<(String, String)>,
    r: Option<(String, String)>,
)
    requires
        call_ensures(attribute_rejected_node, (&rejection, &config, &tag_to_id), r),
    ensures
        ({
            let at = rejection.index as int;
            let outbound = rejection.array == RejectedArray::Outbounds;
            let inside = if outbound {
                at < config.outbounds@.len()
            } else {
                config.endpoint_tags is Some && at < config.endpoint_tags->0@.len()
            };
            let tag = if outbound {
                config.outbounds@[at].tag@
            } else {
                config.endpoint_tags->0@[at]@
            };
            &&& r is Some ==> inside && (r->0).1@ == tag && table_get(
                table_view(tag_to_id@),
                tag,
            ) == Some((r->0).0@)
            &&& inside && table_get(table_view(tag_to_id@), tag) is Some ==> r is Some
        }),
{
}

/// A node counts as left out exactly where one of those that were left out has its identifier.
pub proof fn law_a_node_is_out_where_it_is_listed(
    peeled: Vec<InvalidNode>,
    id: &str,
    out: bool,
    ids: Vec<String>,
    kept: Vec<bool>,
    i: int,
)
    requires
        call_ensures(is_peeled, (&peeled, id), out),
        call_ensures(retained, (&ids, &peeled), kept),
    ensures
        out <==> exists|k: int| 0 <= k < peeled@.len() && (#[trigger] peeled@[k]).id@ == id@,
        kept@.len() == ids@.len(),
        0 <= i < ids@.len() ==> (!kept@[i] <==> exists|k: int|
            0 <= k < peeled@.len() && (#[trigger] peeled@[k]).id@ == ids@[i]@),
{
    lemma_listed(peeled@, id@);
    if 0 <= i < ids@.len() {
        lemma_listed(peeled@, ids@[i]@);
        assert(kept@[i] == !node_ids(peeled@).contains(ids@[i]@));
    }
}

proof fn lemma_listed(peeled: Seq<InvalidNode>, id: Seq<char>)
    ensures
        node_ids(peeled).contains(id) <==> exists|k: int|
            0 <= k < peeled.len() && (#[trigger] peeled[k]).id@ == id,
{
    let ids = node_ids(peeled);
    assert(ids.len() == peeled.len());
    if ids.contains(id) {
        let k = choose|k: int| 0 <= k < ids.len() && ids[k] == id;
        assert(peeled[k].id@ == id);
    }
    if exists|k: int| 0 <= k < peeled.len() && (#[trigger] peeled[k]).id@ == id {
        let k = choose|k: int| 0 <= k < peeled.len() && (#[trigger] peeled[k]).id@ == id;
        assert(ids[k] == id);
    }
}

/// A rejection blocks the start where it is of the selected node, helps nothing where the node is
/// out already, and otherwise the node that it was traced to is left out.
pub proof fn law_what_is_made_of_a_rejection(
    rejection: KernelRejection,
    config: CoreConfig,
    tag_to_id: Vec<(String, String)>,
    selected: Option<&str>,
    peeled: Vec<InvalidNode>,
    node: Option<(String, String)>,
    r: PeelTarget,
)
    requires
        call_ensures(attribute_rejected_node, (&rejection, &config, &tag_to_id), node),
        call_ensures(classify_peel_target, (&rejection, &config, &tag_to_id, selected, &peeled), r),
    ensures
        r is Unattributable <==> node is None,
        node matches Some(n) ==> {
            let is_selected = selected is Some && selected->0@ == n.0@;
            let out = exists|k: int|
                0 <= k < peeled@.len() && (#[trigger] peeled@[k]).id@ == n.0@;
            &&& r is Blocked <==> is_selected
            &&& r is Stalled <==> !is_selected && out
            &&& r is Peel <==> !is_selected && !out
            &&& r matches PeelTarget::Blocked { id, tag } ==> id@ == n.0@ && tag@ == n.1@
            &&& r matches PeelTarget::Stalled { tag } ==> tag@ == n.1@
            &&& r matches PeelTarget::Peel { id, tag } ==> id@ == n.0@ && tag@ == n.1@
        },
{
    if let Some(n) = node {
        lemma_listed(peeled@, n.0@);
    }
}

/// The core is asked where there is one and it has not accepted the configuration before, and what
/// it is asked is counted; another attempt counts from nothing and keeps what was left out.
pub proof fn law_when_the_core_is_asked(
    gate: &mut PeelGate,
    has_binary: bool,
    remembered: bool,
    r: GateNext,
    again: &mut PeelGate,
    fresh: PeelGate,
)
    requires
        call_ensures(PeelGate::new, (), fresh),
        old(gate).checks_run < u32::MAX,
        old(again).wf(),
        call_ensures(PeelGate::on_generated, (gate, has_binary, remembered), r),
        call_ensures(PeelGate::reopen, (again,), ()),
    ensures
        r is Check <==> has_binary && !remembered,
        r is Pass || r is Check,
        final(gate).checks_run == old(gate).checks_run + (if r is Check {
            1int
        } else {
            0int
        }),
        final(gate).peeled == old(gate).peeled,
        final(again).checks_run == 0,
        final(again).peeled == old(again).peeled,
        fresh.checks_run == 0 && fresh.peeled@.len() == 0,
{
}

/// After a check the configuration is passed, and remembered only where the core accepted it; it
/// is generated again exactly where one more node is left out, which is then the one that was
/// rejected, with the reason that was given, beside all that were left out before.
pub proof fn law_what_follows_a_check(
    gate: &mut PeelGate,
    step: PeelStep,
    config: CoreConfig,
    tag_to_id: Vec<(String, String)>,
    selected: Option<&str>,
    reason: &str,
    r: GateNext,
    target: PeelTarget,
    i: int,
)
    requires
        old(gate).wf(),
        call_ensures(
            PeelGate::on_checked,
            (gate, step, &config, &tag_to_id, selected, reason),
            r,
        ),
        step is Peel ==> call_ensures(
            classify_peel_target,
            (&step->Peel_0, &config, &tag_to_id, selected, &old(gate).peeled),
            target,
        ),
    ensures
        r is PassAndRemember <==> step is Proceed,
        r is Blocked <==> step is Peel && target is Blocked,
        r is Again <==> step is Peel && target is Peel,
        r !is Check,
        r matches GateNext::Blocked { node, detail } ==> {
            &&& node.id@ == target->Blocked_id@
            &&& node.tag@ == target->Blocked_tag@
            &&& node.reason@ == reason@
            &&& detail@ == step->Peel_0.detail@
        },
        r !is Again ==> final(gate).peeled == old(gate).peeled,
        r is Again ==> {
            &&& final(gate).peeled@.len() == old(gate).peeled@.len() + 1
            &&& exists|k: int|
                0 <= k < final(gate).peeled@.len() && (#[trigger] final(gate).peeled@[k]).id@
                    == target->Peel_id@ && final(gate).peeled@[k].tag@ == target->Peel_tag@
                    && final(gate).peeled@[k].reason@ == reason@
            &&& 0 <= i < old(gate).peeled@.len() ==> exists|k: int|
                0 <= k < final(gate).peeled@.len() && (#[trigger] final(gate).peeled@[k])@
                    == old(gate).peeled@[i]@
        },
        final(gate).checks_run == old(gate).checks_run,
        strictly_sorted(node_ids(final(gate).peeled@)),
{
    if r is Again {
        let before = node_views(old(gate).peeled@);
        let after = node_views(final(gate).peeled@);
        let node = InvalidNodeView {
            id: target->Peel_id@,
            tag: target->Peel_tag@,
            reason: reason@,
        };
        assert(left_out(before, after, node));
        let at = choose|at: int|
            0 <= at <= before.len() && after == #[trigger] before.insert(at, node);
        assert(after.len() == final(gate).peeled@.len());
        assert(after[at] == node);
        assert(final(gate).peeled@[at]@ == node);
        if 0 <= i < old(gate).peeled@.len() {
            let k = if i < at {
                i
            } else {
                i + 1
            };
            assert(after[k] == before[i]);
            assert(final(gate).peeled@[k]@ == old(gate).peeled@[i]@);
        }
    }
}

/// What is reported is everything that is out: what generating left out, then what the core
/// rejects, then the node that blocks the start.
pub proof fn law_everything_left_out_is_reported(
    gate: PeelGate,
    generated: Vec<InvalidNode>,
    blocked: Option<&InvalidNode>,
    r: Vec<InvalidNode>,
    i: int,
)
    requires
        call_ensures(PeelGate::report, (&gate, &generated, blocked), r),
    ensures
        r@.len() == generated@.len() + gate.peeled@.len() + (if blocked is Some {
            1int
        } else {
            0int
        }),
        0 <= i < generated@.len() ==> r@[i] == generated@[i],
        0 <= i < gate.peeled@.len() ==> r@[generated@.len() + i] == gate.peeled@[i],
        blocked matches Some(n) ==> r@[r@.len() - 1] == *n,
{
}

} // verus!
