//! Switching to another configuration while the core runs: without a restart where that can be
//! done, and with one where it must be.

use vstd::prelude::*;

use crate::core_config::CoreConfig;
use crate::json::{Json, JsonView};
use crate::runtime::{
    same_session, shows, takes_switch, ProxyRuntime, RuleTarget, SwitchSnapshot,
};
use crate::status::{ErrorCode, StatusView};
use crate::text::same_text;

verus! {

/// How a switch ended.
#[derive(Clone, Copy, PartialEq, Eq, Structural, Debug)]
pub enum SwitchOutcome {
    HotSwitched,
    NoOp,
    Deferred,
    Restarting,
    Pending,
    NotRunning,
    Unchanged,
}

/// What a change asks of the running core.
#[derive(Clone, Copy, PartialEq, Eq, Structural, Debug)]
pub enum SwitchDecision {
    /// Setting its selectors is enough.
    HotSwitch,
    /// Nothing that it was started with changes.
    NoOp,
    /// It can wait.
    Defer,
    Restart,
}

/// What is known of a change before it is decided on. The core's decision is asked of others.
#[derive(Clone, Copy, PartialEq, Eq, Structural, Debug)]
pub struct SwitchFacts {
    /// The new configuration says the same as the applied one.
    pub same_config: bool,
    /// Both configurations can be read.
    pub both_readable: bool,
    /// The new configuration takes over all traffic.
    pub new_is_tun: bool,
    /// The bindings that were planned for the running core cover what the new one binds.
    pub bindings_cover: bool,
    pub decision: SwitchDecision,
}

/// What a change amounts to.
#[derive(Clone, Copy, Debug)]
pub enum ClassifiedSwitch {
    NotRunning,
    Unchanged,
    /// Something that the decision rests on is missing: a restart is always right.
    Fallback(&'static str),
    Decided(SwitchDecision),
}

/// What a change that is only saved would ask of the running core.
#[derive(Debug)]
pub struct StagedClassification {
    pub decision: &'static str,
    pub restart_required: bool,
}

/// What goes along with the end of a switch.
#[derive(Clone, Copy, PartialEq, Eq, Structural, Debug)]
pub struct SwitchTail {
    pub schedule_restart: bool,
    /// Deletions that waited for the core to be down are made.
    pub process_deletions: bool,
    /// The selectors are set again where that is required.
    pub reassert: bool,
    /// The rule files follow the new configuration.
    pub sync_rule_files: bool,
    /// The exit has changed: its routes and what is remembered of it follow.
    pub exit_changed: bool,
    pub push_pending_changes: bool,
}

/// What a switch does next.
pub enum SwitchNext {
    /// The switch waits under this number until the lifecycle is idle.
    Parked { id: u64 },
    Done { outcome: SwitchOutcome, tail: SwitchTail },
    /// Set the selectors of the core for this configuration.
    Execute { config: Json },
}

/// Nothing goes along.
pub open spec fn no_tail() -> SwitchTail {
    SwitchTail {
        schedule_restart: false,
        process_deletions: false,
        reassert: false,
        sync_rule_files: false,
        exit_changed: false,
        push_pending_changes: false,
    }
}

/// What a change amounts to, the first reason that applies being the one that counts.
pub open spec fn classified(rt: ProxyRuntime, f: SwitchFacts, r: ClassifiedSwitch) -> bool {
    if !rt.status@.running {
        r is NotRunning
    } else if rt.current_config is None {
        r matches ClassifiedSwitch::Fallback(w) && w@ == "核在跑但无 current_config 基准"@
    } else if f.same_config {
        r is Unchanged
    } else if !f.both_readable {
        r matches ClassifiedSwitch::Fallback(w) && w@ == "配置解析失败"@
    } else if f.new_is_tun && !f.bindings_cover {
        r matches ClassifiedSwitch::Fallback(w) && w@ == "目标包含本核未规划的自动物理出口"@
    } else if rt.switch_snapshot is None {
        r matches ClassifiedSwitch::Fallback(w) && w@ == "无热切换基准快照"@
    } else {
        r == ClassifiedSwitch::Decided(f.decision)
    }
}

/// The configuration counts as applied. A restart that waits keeps its number and starts this
/// configuration instead.
pub open spec fn applied(before: ProxyRuntime, after: ProxyRuntime, config: JsonView) -> bool {
    &&& after.current_config matches Some(c) && c@ == config
    &&& match before.pending_force_restart {
        Some(p) => after.pending_force_restart matches Some(q) && q.0 == p.0 && q.1@ == config,
        None => after.pending_force_restart is None,
    }
    &&& after == (ProxyRuntime {
        current_config: after.current_config,
        pending_force_restart: after.pending_force_restart,
        ..before
    })
}

/// The configuration counts as applied, and a restart that waited is dropped in favour of one
/// that starts it.
pub open spec fn restarted(before: ProxyRuntime, after: ProxyRuntime, config: Json) -> bool {
    after == (ProxyRuntime {
        current_config: Some(config),
        pending_force_restart: None,
        ..before
    })
}

/// Whether a change of nodes is to restart the core, which it is not unless the user says so.
pub fn restart_on_node_change(config: &Json) -> (r: bool)
    ensures
        r == (match config@.get("restartOnNodeChange"@) {
            Some(v) => v.truth() == Some(true),
            None => false,
        }),
{
    match config.get("restartOnNodeChange") {
        Some(v) => match v.as_truth() {
            Some(b) => b,
            None => false,
        },
        None => false,
    }
}

/// The end of a switch that is neither a restart nor only saved: what the runtime keeps beside
/// the core follows.
fn settled(restart_instead: bool) -> (r: SwitchTail)
    ensures
        r == (SwitchTail {
            schedule_restart: restart_instead,
            reassert: true,
            sync_rule_files: !restart_instead,
            push_pending_changes: true,
            ..no_tail()
        }),
{
    SwitchTail {
        schedule_restart: restart_instead,
        process_deletions: false,
        reassert: true,
        sync_rule_files: !restart_instead,
        exit_changed: false,
        push_pending_changes: true,
    }
}

/// The end of a switch that changed nothing but the saved configuration.
pub open spec fn settled_tail(rt: ProxyRuntime) -> SwitchTail {
    SwitchTail {
        schedule_restart: rt.custom_rule_files_degraded,
        reassert: true,
        sync_rule_files: !rt.custom_rule_files_degraded,
        push_pending_changes: true,
        ..no_tail()
    }
}

/// The switch waits under the next number, in place of one that waited before.
pub open spec fn parks(
    before: ProxyRuntime,
    after: ProxyRuntime,
    config: Json,
    defer_restart: bool,
) -> bool {
    after == (ProxyRuntime {
        switch_seq: before.switch_seq.wrapping_add(1),
        pending_switch: Some((before.switch_seq, config, defer_restart)),
        ..before
    })
}

/// An interface that the new configuration binds to is not there.
pub open spec fn bind_refused(
    before: ProxyRuntime,
    after: ProxyRuntime,
    message: Seq<char>,
    r: SwitchNext,
) -> bool {
    &&& r == (SwitchNext::Done {
        outcome: SwitchOutcome::Deferred,
        tail: SwitchTail { push_pending_changes: true, ..no_tail() },
    })
    &&& after.status@ == (StatusView {
        error: Some(message),
        error_code: Some(ErrorCode::OutboundInterfaceUnavailable),
        ..before.status@
    })
    &&& after == (ProxyRuntime { status: after.status, restart_deferred: true, ..before })
}

/// What a switch does once it is known what the change amounts to.
pub open spec fn switches(
    before: ProxyRuntime,
    after: ProxyRuntime,
    class: ClassifiedSwitch,
    config: Json,
    defer_restart: bool,
    r: SwitchNext,
) -> bool {
    match class {
        ClassifiedSwitch::NotRunning => {
            &&& r == (SwitchNext::Done {
                outcome: SwitchOutcome::NotRunning,
                tail: SwitchTail { process_deletions: true, ..no_tail() },
            })
            &&& after == (ProxyRuntime {
                current_config: Some(config),
                reconcile_required: false,
                ..before
            })
        },
        ClassifiedSwitch::Unchanged => {
            &&& r == (SwitchNext::Done {
                outcome: SwitchOutcome::Unchanged,
                tail: SwitchTail { reassert: true, ..no_tail() },
            })
            &&& after == (ProxyRuntime {
                current_config: Some(config),
                ..before
            })
        },
        ClassifiedSwitch::Fallback(_) => {
            &&& r == (SwitchNext::Done {
                outcome: SwitchOutcome::Restarting,
                tail: SwitchTail { schedule_restart: true, ..no_tail() },
            })
            &&& restarted(before, after, config)
        },
        ClassifiedSwitch::Decided(SwitchDecision::HotSwitch) => {
            r == (SwitchNext::Execute { config }) && after == before
        },
        ClassifiedSwitch::Decided(SwitchDecision::NoOp) => {
            &&& r == (SwitchNext::Done {
                outcome: SwitchOutcome::NoOp,
                tail: settled_tail(before),
            })
            &&& applied(before, after, config@)
        },
        ClassifiedSwitch::Decided(SwitchDecision::Defer) => if defer_restart {
            &&& r == (SwitchNext::Done {
                outcome: SwitchOutcome::Deferred,
                tail: SwitchTail { push_pending_changes: true, ..no_tail() },
            })
            &&& after == (ProxyRuntime { restart_deferred: true, ..before })
        } else {
            &&& r == (SwitchNext::Done {
                outcome: SwitchOutcome::Deferred,
                tail: settled_tail(before),
            })
            &&& applied(before, after, config@)
        },
        ClassifiedSwitch::Decided(SwitchDecision::Restart) => {
            &&& r == (SwitchNext::Done {
                outcome: SwitchOutcome::Restarting,
                tail: SwitchTail {
                    schedule_restart: true,
                    push_pending_changes: true,
                    ..no_tail()
                },
            })
            &&& restarted(before, after, config)
        },
    }
}

impl ProxyRuntime {
    /// The user wants another exit: what was wanted before no longer counts. The number of what is
    /// wanted now.
    pub fn register_selector_intent(&mut self) -> (r: u64)
        ensures
            r == old(self).intent_generation.wrapping_add(1),
            *final(self) == (ProxyRuntime { intent_generation: r, ..*old(self) }),
    {
        self.intent_generation = self.intent_generation.wrapping_add(1);
        self.intent_generation
    }

    /// Is the holder of this generation and this intent still the one to act?
    pub fn selector_operation_is_current(&self, generation: u64, intent_generation: u64) -> (r: bool)
        ensures
            r == operation_is_current(*self, generation, intent_generation),
    {
        self.generation == generation && self.core_running() && self.intent_generation
            == intent_generation
    }

    /// What a change amounts to.
    pub fn classify_switch(&self, f: &SwitchFacts) -> (r: ClassifiedSwitch)
        ensures
            classified(*self, *f, r),
    {
        if !self.core_running() {
            return ClassifiedSwitch::NotRunning;
        }
        if self.current_config.is_none() {
            return ClassifiedSwitch::Fallback("核在跑但无 current_config 基准");
        }
        if f.same_config {
            return ClassifiedSwitch::Unchanged;
        }
        if !f.both_readable {
            return ClassifiedSwitch::Fallback("配置解析失败");
        }
        if f.new_is_tun && !f.bindings_cover {
            return ClassifiedSwitch::Fallback("目标包含本核未规划的自动物理出口");
        }
        if self.switch_snapshot.is_none() {
            return ClassifiedSwitch::Fallback("无热切换基准快照");
        }
        ClassifiedSwitch::Decided(f.decision)
    }

    /// What a change that is only saved would ask of the running core.
    pub fn classify_staged(&self, f: &SwitchFacts) -> (r: StagedClassification)
        ensures
            exists|c: ClassifiedSwitch|
                classified(*self, *f, c) && r.decision@ == #[trigger] staged_text(c),
            r.restart_required == (r.decision@ != "noOp"@),
    {
        let c = self.classify_switch(f);
        let decision = match c {
            ClassifiedSwitch::NotRunning => "noOp",
            ClassifiedSwitch::Unchanged => "noOp",
            ClassifiedSwitch::Fallback(_) => "restart",
            ClassifiedSwitch::Decided(d) => match d {
                SwitchDecision::HotSwitch => "hotSwitch",
                SwitchDecision::NoOp => "noOp",
                SwitchDecision::Defer => "defer",
                SwitchDecision::Restart => "restart",
            },
        };
        assert(decision@ == staged_text(c));
        StagedClassification { decision, restart_required: !same_text(decision, "noOp") }
    }

    /// The configuration counts as applied.
    pub fn commit_applied(&mut self, config: &Json)
        ensures
            applied(*old(self), *final(self), config@),
    {
        self.current_config = Some(config.clone());
        if let Some(p) = self.pending_force_restart.take() {
            self.pending_force_restart = Some((p.0, config.clone()));
        }
    }

    /// The configuration counts as applied once a restart, which is to be scheduled, has started
    /// it.
    pub fn apply_restart(&mut self, config: Json)
        ensures
            restarted(*old(self), *final(self), config),
    {
        self.current_config = Some(config);
        self.pending_force_restart = None;
    }

    /// A switch was asked for. While the lifecycle is busy it waits, in place of one that waited
    /// before. Then the interfaces that it binds to count, `bind_error` being what is wrong with
    /// them, and then what the change amounts to.
    pub fn switch_mode_with(
        &mut self,
        config: Json,
        defer_restart: bool,
        busy: bool,
        bind_error: Option<&str>,
        facts: &SwitchFacts,
    ) -> (r: SwitchNext)
        ensures
            busy ==> {
                &&& r == (SwitchNext::Parked { id: old(self).switch_seq })
                &&& parks(*old(self), *final(self), config, defer_restart)
            },
            !busy ==> match bind_error {
                Some(message) => bind_refused(*old(self), *final(self), message@, r),
                None => exists|class: ClassifiedSwitch|
                    classified(*old(self), *facts, class) && #[trigger] switches(
                        *old(self),
                        *final(self),
                        class,
                        config,
                        defer_restart,
                        r,
                    ),
            },
    {
        if busy {
            let id: u64 = self.switch_seq;
            self.switch_seq = id.wrapping_add(1);
            self.pending_switch = Some((id, config, defer_restart));
            return SwitchNext::Parked { id };
        }
        match bind_error {
            Some(message) => self.switch_bind_failed(message),
            None => {
                let class = self.classify_switch(facts);
                self.switch_classified(class, config, defer_restart)
            },
        }
    }

    /// An interface that the new configuration binds to is not there: it is saved, that is said,
    /// and the running core stays as it is.
    pub fn switch_bind_failed(&mut self, message: &str) -> (r: SwitchNext)
        ensures
            bind_refused(*old(self), *final(self), message@, r),
    {
        self.set_nonfatal_error(message, ErrorCode::OutboundInterfaceUnavailable);
        self.restart_deferred = true;
        SwitchNext::Done {
            outcome: SwitchOutcome::Deferred,
            tail: SwitchTail {
                schedule_restart: false,
                process_deletions: false,
                reassert: false,
                sync_rule_files: false,
                exit_changed: false,
                push_pending_changes: true,
            },
        }
    }

    /// It is known what the change amounts to.
    pub fn switch_classified(
        &mut self,
        class: ClassifiedSwitch,
        config: Json,
        defer_restart: bool,
    ) -> (r: SwitchNext)
        ensures
            switches(*old(self), *final(self), class, config, defer_restart, r),
    {
        let mut tail = SwitchTail {
            schedule_restart: false,
            process_deletions: false,
            reassert: false,
            sync_rule_files: false,
            exit_changed: false,
            push_pending_changes: false,
        };
        let degraded = self.custom_rule_files_degraded;
        let decision = match class {
            ClassifiedSwitch::NotRunning => {
                self.current_config = Some(config);
                self.reconcile_required = false;
                tail.process_deletions = true;
                return SwitchNext::Done { outcome: SwitchOutcome::NotRunning, tail };
            },
            ClassifiedSwitch::Unchanged => {
                self.current_config = Some(config);
                tail.reassert = true;
                return SwitchNext::Done { outcome: SwitchOutcome::Unchanged, tail };
            },
            ClassifiedSwitch::Fallback(_) => {
                self.apply_restart(config);
                tail.schedule_restart = true;
                return SwitchNext::Done { outcome: SwitchOutcome::Restarting, tail };
            },
            ClassifiedSwitch::Decided(d) => d,
        };
        match decision {
            SwitchDecision::HotSwitch => SwitchNext::Execute { config },
            SwitchDecision::NoOp => {
                self.commit_applied(&config);
                SwitchNext::Done { outcome: SwitchOutcome::NoOp, tail: settled(degraded) }
            },
            SwitchDecision::Defer => {
                if defer_restart {
                    self.restart_deferred = true;
                    tail.push_pending_changes = true;
                    SwitchNext::Done { outcome: SwitchOutcome::Deferred, tail }
                } else {
                    self.commit_applied(&config);
                    SwitchNext::Done { outcome: SwitchOutcome::Deferred, tail: settled(degraded) }
                }
            },
            SwitchDecision::Restart => {
                self.apply_restart(config);
                tail.schedule_restart = true;
                tail.push_pending_changes = true;
                SwitchNext::Done { outcome: SwitchOutcome::Restarting, tail }
            },
        }
    }

    /// The selectors were set, or the core refused. Where a newer intent or another generation has
    /// taken over meanwhile, setting them right is left to it.
    pub fn switch_executed(
        &mut self,
        selectors_set: bool,
        generation: u64,
        intent_generation: u64,
        config: Json,
    ) -> (r: SwitchNext)
        ensures
            if !selectors_set {
                &&& r == (SwitchNext::Done {
                    outcome: SwitchOutcome::Restarting,
                    tail: SwitchTail {
                        schedule_restart: true,
                        push_pending_changes: true,
                        ..no_tail()
                    },
                })
                &&& restarted(*old(self), *final(self), config)
            } else if !operation_is_current(*old(self), generation, intent_generation) {
                &&& r == (SwitchNext::Done {
                    outcome: SwitchOutcome::Pending,
                    tail: SwitchTail { push_pending_changes: true, ..no_tail() },
                })
                &&& *final(self) == (ProxyRuntime { reconcile_required: true, ..*old(self) })
            } else {
                &&& r == (SwitchNext::Done {
                    outcome: SwitchOutcome::HotSwitched,
                    tail: SwitchTail { exit_changed: true, ..settled_tail(*old(self)) },
                })
                &&& applied(
                    ProxyRuntime { reconcile_required: false, ..*old(self) },
                    *final(self),
                    config@,
                )
            },
    {
        let mut tail = SwitchTail {
            schedule_restart: false,
            process_deletions: false,
            reassert: false,
            sync_rule_files: false,
            exit_changed: false,
            push_pending_changes: true,
        };
        if !selectors_set {
            self.apply_restart(config);
            tail.schedule_restart = true;
            return SwitchNext::Done { outcome: SwitchOutcome::Restarting, tail };
        }
        if !self.selector_operation_is_current(generation, intent_generation) {
            self.reconcile_required = true;
            return SwitchNext::Done { outcome: SwitchOutcome::Pending, tail };
        }
        let mut tail = settled(self.custom_rule_files_degraded);
        tail.exit_changed = true;
        self.reconcile_required = false;
        self.commit_applied(&config);
        SwitchNext::Done { outcome: SwitchOutcome::HotSwitched, tail }
    }

    /// May a switch to a configuration that was saved under this intent go on? Not where a newer
    /// intent was registered, nor where the saved configuration cannot be read back or is another
    /// one by now: `saved_is_same` is `None` in the one case and `Some(false)` in the other.
    pub fn persisted_switch_is_current(
        &self,
        intent_generation: u64,
        saved_is_same: Option<bool>,
    ) -> (r: bool)
        ensures
            r == (self.intent_generation == intent_generation && saved_is_same == Some(true)),
    {
        if self.intent_generation != intent_generation {
            return false;
        }
        match saved_is_same {
            Some(b) => b,
            None => false,
        }
    }
}

/// The holder of this generation and this intent is still the one to act, and the core runs.
pub open spec fn operation_is_current(rt: ProxyRuntime, generation: u64, intent: u64) -> bool {
    rt.generation == generation && rt.status@.running && rt.intent_generation == intent
}

/// What is said of a change that is only saved.
pub open spec fn staged_text(c: ClassifiedSwitch) -> Seq<char> {
    match c {
        ClassifiedSwitch::NotRunning => "noOp"@,
        ClassifiedSwitch::Unchanged => "noOp"@,
        ClassifiedSwitch::Fallback(_) => "restart"@,
        ClassifiedSwitch::Decided(SwitchDecision::HotSwitch) => "hotSwitch"@,
        ClassifiedSwitch::Decided(SwitchDecision::NoOp) => "noOp"@,
        ClassifiedSwitch::Decided(SwitchDecision::Defer) => "defer"@,
        ClassifiedSwitch::Decided(SwitchDecision::Restart) => "restart"@,
    }
}

/// A switch that waits for the lifecycle is the one that is taken when its number comes up, with the
/// configuration and the choice that it was asked for with, and taking it leaves no trace of its
/// having waited but that its number is spent.
pub proof fn law_a_parked_switch_is_taken_by_its_number(
    before: ProxyRuntime,
    parked: ProxyRuntime,
    after: ProxyRuntime,
    config: Json,
    defer_restart: bool,
    r: Option<(Json, bool)>,
)
    requires
        parks(before, parked, config, defer_restart),
        takes_switch(parked, after, Some(before.switch_seq), r),
    ensures
        r == Some((config, defer_restart)),
        after == (ProxyRuntime {
            switch_seq: before.switch_seq.wrapping_add(1),
            pending_switch: None,
            ..before
        }),
{
}

/// Classifying a change says nothing about a core that does not run but that there is nothing to
/// do.
pub proof fn law_without_a_core_nothing_is_staged(
    rt: ProxyRuntime,
    f: SwitchFacts,
    c: ClassifiedSwitch,
)
    requires
        classified(rt, f, c),
        !rt.status@.running,
    ensures
        staged_text(c) == "noOp"@,
{
}

/// A core is switched without a restart only where everything that the decision rests on is there.
pub proof fn law_a_hot_switch_rests_on_a_snapshot(
    rt: ProxyRuntime,
    f: SwitchFacts,
    c: ClassifiedSwitch,
)
    requires
        classified(rt, f, c),
        c == ClassifiedSwitch::Decided(SwitchDecision::HotSwitch),
    ensures
        rt.status@.running,
        rt.current_config is Some,
        rt.switch_snapshot is Some,
        !f.same_config,
        f.new_is_tun ==> f.bindings_cover,
{
}

/// A restart that was asked for is never lost by a configuration that counts as applied: it keeps
/// its number and starts that configuration. A restart that a switch asks for takes its place.
pub proof fn law_a_waiting_restart_follows_what_is_applied(
    before: ProxyRuntime,
    after: ProxyRuntime,
    config: Json,
)
    requires
        applied(before, after, config@) || restarted(before, after, config),
    ensures
        after.current_config matches Some(c) && c@ == config@,
        after.pending_force_restart matches Some(q) ==> before.pending_force_restart matches Some(
            p,
        ) && p.0 == q.0 && q.1@ == config@,
        restarted(before, after, config) ==> after.pending_force_restart is None,
{
}

/// The outbound is a selector with this tag.
pub open spec fn is_live_selector(config: CoreConfig, tag: Seq<char>) -> bool {
    exists|i: int|
        0 <= i < config.outbounds@.len() && (#[trigger] config.outbounds@[i]).kind@ == "selector"@
            && config.outbounds@[i].tag@ == tag
}

/// The selectors and members of rules, by the rules' keys. Of two entries with one key the later
/// counts.
pub open spec fn targets_by_key(v: Seq<RuleTarget>) -> Map<Seq<char>, (Seq<char>, Seq<char>)>
    decreases v.len(),
{
    if v.len() == 0 {
        Map::empty()
    } else {
        targets_by_key(v.drop_last()).insert(
            v.last().rule_key@,
            (v.last().selector_tag@, v.last().member_tag@),
        )
    }
}

/// The entries whose selector the generated configuration has.
pub open spec fn live_targets(v: Seq<RuleTarget>, config: CoreConfig) -> Seq<RuleTarget> {
    v.filter(|t: RuleTarget| is_live_selector(config, t.selector_tag@))
}

fn live_selector(config: &CoreConfig, tag: &str) -> (r: bool)
    ensures
        r == is_live_selector(*config, tag@),
{
    let mut i: usize = 0;
    while i < config.outbounds.len()
        invariant
            i <= config.outbounds@.len(),
            forall|k: int|
                0 <= k < i ==> !((#[trigger] config.outbounds@[k]).kind@ == "selector"@
                    && config.outbounds@[k].tag@ == tag@),
        decreases config.outbounds@.len() - i,
    {
        if same_text(config.outbounds[i].kind.as_str(), "selector") && same_text(
            config.outbounds[i].tag.as_str(),
            tag,
        ) {
            assert(config.outbounds@[i as int].kind@ == "selector"@);
            return true;
        }
        i += 1;
    }
    false
}

/// What a snapshot keeps of the rules: those whose selector the generated configuration has.
pub fn live_rule_targets(pending: &Vec<RuleTarget>, config: &CoreConfig) -> (r: Vec<RuleTarget>)
    ensures
        r@ == live_targets(pending@, *config),
{
    let ghost p = |t: RuleTarget| is_live_selector(*config, t.selector_tag@);
    let mut out: Vec<RuleTarget> = Vec::new();
    let mut i: usize = 0;
    while i < pending.len()
        invariant
            i <= pending@.len(),
            p == (|t: RuleTarget| is_live_selector(*config, t.selector_tag@)),
            out@ == pending@.take(i as int).filter(p),
        decreases pending@.len() - i,
    {
        proof {
            let t = pending@.take(i + 1);
            assert(t.drop_last() =~= pending@.take(i as int));
            assert(t.last() == pending@[i as int]);
            reveal(Seq::filter);
        }
        if live_selector(config, pending[i].selector_tag.as_str()) {
            out.push(
                RuleTarget {
                    rule_key: pending[i].rule_key.clone(),
                    selector_tag: pending[i].selector_tag.clone(),
                    member_tag: pending[i].member_tag.clone(),
                },
            );
        }
        i += 1;
    }
    assert(pending@.take(i as int) =~= pending@);
    out
}

/// The nodes of a configuration as a snapshot keeps them.
pub struct NodeTables {
    pub id_to_tag: Vec<(String, String)>,
    pub fingerprints: Vec<(String, String)>,
    pub dirty_fingerprints: Vec<(String, String)>,
}

impl ProxyRuntime {
    /// What is kept of a configuration that a core is started with. `pending` are the selectors of
    /// its rules, where they could be worked out; without them no rule can be switched.
    pub fn build_switch_snapshot(
        nodes: NodeTables,
        pending: Option<Vec<RuleTarget>>,
        config: &CoreConfig,
        probe_pool_ports: &Vec<u16>,
    ) -> (r: SwitchSnapshot)
        ensures
            r.id_to_tag == nodes.id_to_tag,
            r.fingerprints == nodes.fingerprints,
            r.dirty_fingerprints == nodes.dirty_fingerprints,
            r.rule_target@ == (match pending {
                Some(p) => live_targets(p@, *config),
                None => Seq::empty(),
            }),
            r.probe_pool_ports@ == probe_pool_ports@,
    {
        let rule_target = match pending {
            Some(p) => live_rule_targets(&p, config),
            None => Vec::new(),
        };
        let ports = probe_pool_ports.clone();
        assert(ports@ =~= probe_pool_ports@);
        SwitchSnapshot {
            id_to_tag: nodes.id_to_tag,
            rule_target,
            fingerprints: nodes.fingerprints,
            dirty_fingerprints: nodes.dirty_fingerprints,
            probe_pool_ports: ports,
        }
    }
}

/// A rule that a snapshot keeps can be switched: the core that was started has its selector.
pub proof fn law_kept_rules_have_their_selector(
    pending: Seq<RuleTarget>,
    config: CoreConfig,
    i: int,
)
    requires
        0 <= i < live_targets(pending, config).len(),
    ensures
        is_live_selector(config, live_targets(pending, config)[i].selector_tag@),
{
    let p = |t: RuleTarget| is_live_selector(config, t.selector_tag@);
    pending.filter_lemma(p);
    assert(p(pending.filter(p)[i]));
}

/// The selector and member of the rule `key`.
pub fn rule_target_of<'a>(targets: &'a Vec<RuleTarget>, key: &str) -> (r: Option<&'a RuleTarget>)
    ensures
        match r {
            Some(t) => targets_by_key(targets@).dom().contains(key@) && targets_by_key(
                targets@,
            )[key@] == (t.selector_tag@, t.member_tag@),
            None => !targets_by_key(targets@).dom().contains(key@),
        },
{
    let mut i: usize = targets.len();
    assert(targets@.take(i as int) =~= targets@);
    while i > 0
        invariant
            i <= targets@.len(),
            targets_by_key(targets@).dom().contains(key@) == targets_by_key(
                targets@.take(i as int),
            ).dom().contains(key@),
            targets_by_key(targets@).dom().contains(key@) ==> targets_by_key(targets@)[key@]
                == targets_by_key(targets@.take(i as int))[key@],
        decreases i,
    {
        let ghost t = targets@.take(i as int);
        assert(t.drop_last() =~= targets@.take(i - 1));
        assert(t.last() == targets@[i - 1]);
        if same_text(targets[i - 1].rule_key.as_str(), key) {
            return Some(&targets[i - 1]);
        }
        i -= 1;
    }
    None
}

/// Whatever a switch carries on with, records as applied or has a waiting restart start is the
/// configuration that was asked for; anything else that is recorded was recorded before.
pub proof fn law_a_switch_is_to_what_was_asked_for(
    rt: &mut ProxyRuntime,
    config: Json,
    defer_restart: bool,
    busy: bool,
    bind_error: Option<&str>,
    facts: SwitchFacts,
    r: SwitchNext,
)
    requires
        call_ensures(
            ProxyRuntime::switch_mode_with,
            (rt, config, defer_restart, busy, bind_error, &facts),
            r,
        ),
    ensures
        r matches SwitchNext::Execute { config: c } ==> c@ == config@ && *final(rt) == *old(rt),
        final(rt).current_config != old(rt).current_config ==> final(rt).current_config is Some
            && final(rt).current_config->0@ == config@,
        final(rt).pending_force_restart matches Some(q) ==> {
            &&& old(rt).pending_force_restart is Some
            &&& (old(rt).pending_force_restart->0).0 == q.0
            &&& q == old(rt).pending_force_restart->0 || q.1@ == config@
        },
        final(rt).pending_switch != old(rt).pending_switch ==> final(rt).pending_switch == Some(
            (old(rt).switch_seq, config, defer_restart),
        ),
        final(rt).generation == old(rt).generation,
        final(rt).intent_generation == old(rt).intent_generation,
        final(rt).startup_snapshot == old(rt).startup_snapshot,
        final(rt).switch_snapshot == old(rt).switch_snapshot,
        final(rt).pid == old(rt).pid,
{
    if !busy && bind_error is None {
        let class = choose|class: ClassifiedSwitch|
            classified(*old(rt), facts, class) && #[trigger] switches(
                *old(rt),
                *final(rt),
                class,
                config,
                defer_restart,
                r,
            );
        assert(switches(*old(rt), *final(rt), class, config, defer_restart, r));
    }
}

/// A switch waits exactly while the lifecycle is busy. Otherwise an interface that is missing keeps
/// it back, with that said and the core as it was; and then it is decided by the first of these:
/// whether a core runs, whether the configuration is the applied one, whether everything that a
/// decision needs is there, and the decision.
pub proof fn law_how_a_switch_is_decided(
    rt: &mut ProxyRuntime,
    config: Json,
    defer_restart: bool,
    busy: bool,
    bind_error: Option<&str>,
    facts: SwitchFacts,
    r: SwitchNext,
)
    requires
        call_ensures(
            ProxyRuntime::switch_mode_with,
            (rt, config, defer_restart, busy, bind_error, &facts),
            r,
        ),
    ensures
        r is Parked <==> busy,
        busy ==> r == (SwitchNext::Parked { id: old(rt).switch_seq }) && final(rt).pending_switch
            == Some((old(rt).switch_seq, config, defer_restart)) && final(rt).current_config
            == old(rt).current_config && final(rt).switch_seq == old(rt).switch_seq.wrapping_add(1),
        !busy ==> (bind_error matches Some(m) ==> {
            &&& r is Done
            &&& r->outcome == SwitchOutcome::Deferred
            &&& !r->tail.schedule_restart
            &&& r->tail.push_pending_changes
            &&& shows(*final(rt), m@, ErrorCode::OutboundInterfaceUnavailable)
            &&& same_session(old(rt).status, final(rt).status)
            &&& final(rt).restart_deferred
            &&& final(rt).current_config == old(rt).current_config
        }),
        !busy && bind_error is None ==> {
            let running = old(rt).status.running;
            let known = old(rt).current_config is Some;
            let complete = facts.both_readable && (facts.new_is_tun ==> facts.bindings_cover)
                && old(rt).switch_snapshot is Some;
            let decided = running && known && !facts.same_config && complete;
            &&& r is Execute <==> decided && facts.decision == SwitchDecision::HotSwitch
            &&& !running <==> (r is Done && r->outcome == SwitchOutcome::NotRunning)
            &&& (running && known && facts.same_config) <==> (r is Done && r->outcome
                == SwitchOutcome::Unchanged)
            &&& (decided && facts.decision == SwitchDecision::NoOp) <==> (r is Done && r->outcome
                == SwitchOutcome::NoOp)
            &&& (decided && facts.decision == SwitchDecision::Defer) <==> (r is Done && r->outcome
                == SwitchOutcome::Deferred)
            &&& (running && !(known && facts.same_config) && (!known || !complete
                || facts.decision == SwitchDecision::Restart)) <==> (r is Done && r->outcome
                == SwitchOutcome::Restarting)
        },
{
    if !busy {
        if bind_error is Some {
            assert(final(rt).status@.error is Some);
            assert(final(rt).status@.pid == final(rt).status.pid && old(rt).status@.pid == old(
                rt,
            ).status.pid);
        } else {
            let class = choose|class: ClassifiedSwitch|
                classified(*old(rt), facts, class) && #[trigger] switches(
                    *old(rt),
                    *final(rt),
                    class,
                    config,
                    defer_restart,
                    r,
                );
            assert(classified(*old(rt), facts, class));
            assert(switches(*old(rt), *final(rt), class, config, defer_restart, r));
            assert(old(rt).status@.running == old(rt).status.running);
        }
    }
}

/// Where it is known what a change amounts to: setting selectors is left to be done, for the
/// configuration that was asked for; a restart is scheduled exactly where one is announced or the
/// rules cannot be switched; and the configuration counts as applied except where it is only saved
/// or still to be set.
pub proof fn law_what_a_change_leads_to(
    rt: &mut ProxyRuntime,
    class: ClassifiedSwitch,
    config: Json,
    defer_restart: bool,
    r: SwitchNext,
)
    requires
        call_ensures(ProxyRuntime::switch_classified, (rt, class, config, defer_restart), r),
    ensures
        r is Execute <==> class == ClassifiedSwitch::Decided(SwitchDecision::HotSwitch),
        r matches SwitchNext::Execute { config: c } ==> c == config && *final(rt) == *old(rt),
        r is Execute || r is Done,
        class is NotRunning ==> r is Done && r->outcome == SwitchOutcome::NotRunning
            && r->tail.process_deletions && !r->tail.schedule_restart && !final(rt).reconcile_required,
        class is Unchanged ==> r is Done && r->outcome == SwitchOutcome::Unchanged && r->tail.reassert
            && !r->tail.schedule_restart,
        class is Fallback ==> r is Done && r->outcome == SwitchOutcome::Restarting
            && r->tail.schedule_restart,
        class == ClassifiedSwitch::Decided(SwitchDecision::NoOp) ==> r is Done && r->outcome
            == SwitchOutcome::NoOp && r->tail.push_pending_changes,
        class == ClassifiedSwitch::Decided(SwitchDecision::Defer) ==> r is Done && r->outcome
            == SwitchOutcome::Deferred && r->tail.push_pending_changes,
        class == ClassifiedSwitch::Decided(SwitchDecision::Restart) ==> r is Done && r->outcome
            == SwitchOutcome::Restarting && r->tail.schedule_restart
            && r->tail.push_pending_changes,
        r is Done ==> {
            let only_saved = class == ClassifiedSwitch::Decided(SwitchDecision::Defer)
                && defer_restart;
            &&& only_saved ==> final(rt).current_config == old(rt).current_config && final(rt).restart_deferred && !r->tail.schedule_restart
            &&& !only_saved ==> final(rt).current_config is Some && final(rt).current_config->0@
                == config@ && final(rt).restart_deferred == old(rt).restart_deferred
            &&& !r->tail.exit_changed
            &&& r->tail.process_deletions <==> class is NotRunning
            &&& (r->outcome == SwitchOutcome::NoOp || (r->outcome == SwitchOutcome::Deferred
                && !only_saved)) ==> (r->tail.schedule_restart <==> old(
                rt,
            ).custom_rule_files_degraded) && (r->tail.sync_rule_files <==> !old(
                rt,
            ).custom_rule_files_degraded) && r->tail.reassert
            &&& r->outcome == SwitchOutcome::Restarting ==> final(rt).pending_force_restart is None
                && !r->tail.reassert && !r->tail.sync_rule_files
        },
        final(rt).status == old(rt).status,
        final(rt).generation == old(rt).generation,
{
}

/// Selectors that were set count as applied only for the generation and the intent that they were
/// set for; where another has taken over it is told to set them right, and where the core refused
/// it is restarted with the configuration.
pub proof fn law_how_setting_the_selectors_ends(
    rt: &mut ProxyRuntime,
    set: bool,
    generation: u64,
    intent: u64,
    config: Json,
    r: SwitchNext,
)
    requires
        call_ensures(ProxyRuntime::switch_executed, (rt, set, generation, intent, config), r),
    ensures
        r is Done,
        ({
            let current = old(rt).generation == generation && old(rt).status.running && old(
                rt,
            ).intent_generation == intent;
            &&& r->outcome == SwitchOutcome::HotSwitched <==> set && current
            &&& r->outcome == SwitchOutcome::Pending <==> set && !current
            &&& r->outcome == SwitchOutcome::Restarting <==> !set
            &&& set && current ==> {
                &&& final(rt).current_config is Some
                &&& final(rt).current_config->0@ == config@
                &&& !final(rt).reconcile_required
                &&& r->tail.exit_changed
                &&& r->tail.reassert
                &&& r->tail.push_pending_changes
                &&& r->tail.schedule_restart <==> old(rt).custom_rule_files_degraded
            }
            &&& set && !current ==> *final(rt) == (ProxyRuntime {
                reconcile_required: true,
                ..*old(rt)
            }) && !r->tail.schedule_restart && !r->tail.exit_changed
            &&& !set ==> {
                &&& final(rt).current_config == Some(config)
                &&& final(rt).pending_force_restart is None
                &&& r->tail.schedule_restart
                &&& !r->tail.exit_changed
            }
        }),
        final(rt).status == old(rt).status,
{
    assert(old(rt).status@.running == old(rt).status.running);
}

/// A change is classified by what is there: nothing is decided without a core, without a change, or
/// without everything that the decision needs.
pub proof fn law_how_a_change_is_classified(rt: ProxyRuntime, f: SwitchFacts, r: ClassifiedSwitch)
    requires
        call_ensures(ProxyRuntime::classify_switch, (&rt, &f), r),
    ensures
        r is NotRunning <==> !rt.status.running,
        r is Unchanged <==> rt.status.running && rt.current_config is Some && f.same_config,
        r is Decided <==> rt.status.running && rt.current_config is Some && !f.same_config
            && f.both_readable && (f.new_is_tun ==> f.bindings_cover) && rt.switch_snapshot is Some,
        r matches ClassifiedSwitch::Decided(d) ==> d == f.decision,
{
    assert(rt.status@.running == rt.status.running);
}

/// What is said of a change that is only saved: that it asks for a restart exactly where it would
/// not be nothing to do, and what it would do.
pub proof fn law_a_staged_change_says_what_it_would_do(
    rt: ProxyRuntime,
    f: SwitchFacts,
    r: StagedClassification,
)
    requires
        call_ensures(ProxyRuntime::classify_staged, (&rt, &f), r),
    ensures
        !rt.status.running ==> !r.restart_required,
        rt.status.running && rt.current_config is None ==> r.restart_required && r.decision@
            == "restart"@,
        rt.status.running && rt.current_config is Some && f.same_config ==> !r.restart_required,
        rt.status.running && rt.current_config is Some && !f.same_config ==> {
            let complete = f.both_readable && (f.new_is_tun ==> f.bindings_cover)
                && rt.switch_snapshot is Some;
            &&& !complete ==> r.decision@ == "restart"@
            &&& complete ==> r.decision@ == (match f.decision {
                SwitchDecision::HotSwitch => "hotSwitch"@,
                SwitchDecision::NoOp => "noOp"@,
                SwitchDecision::Defer => "defer"@,
                SwitchDecision::Restart => "restart"@,
            })
            &&& r.restart_required <==> !complete || f.decision != SwitchDecision::NoOp
        },
{
    assert(rt.status@.running == rt.status.running);
    reveal_strlit("noOp");
    reveal_strlit("restart");
    reveal_strlit("hotSwitch");
    reveal_strlit("defer");
    assert("noOp"@.len() == 4 && "restart"@.len() == 7 && "hotSwitch"@.len() == 9 && "defer"@.len()
        == 5);
    let c = choose|c: ClassifiedSwitch|
        classified(rt, f, c) && r.decision@ == #[trigger] staged_text(c);
    assert(classified(rt, f, c) && r.decision@ == staged_text(c));
}

/// What counts as applied is the configuration that is given, and a restart that waits then starts
/// it under its own number, while one that is being asked for takes its place.
pub proof fn law_what_counts_as_applied(
    kept: &mut ProxyRuntime,
    replaced: &mut ProxyRuntime,
    config: Json,
)
    requires
        call_ensures(ProxyRuntime::commit_applied, (kept, &config), ()),
        call_ensures(ProxyRuntime::apply_restart, (replaced, config), ()),
    ensures
        final(kept).current_config matches Some(c) && c@ == config@,
        final(kept).pending_force_restart is Some <==> old(kept).pending_force_restart is Some,
        final(kept).pending_force_restart matches Some(q) ==> q.1@ == config@ && q.0 == (old(
            kept,
        ).pending_force_restart->0).0,
        *final(kept) == (ProxyRuntime {
            current_config: final(kept).current_config,
            pending_force_restart: final(kept).pending_force_restart,
            ..*old(kept)
        }),
        final(replaced).current_config == Some(config),
        final(replaced).pending_force_restart is None,
        *final(replaced) == (ProxyRuntime {
            current_config: Some(config),
            pending_force_restart: None,
            ..*old(replaced)
        }),
{
}

/// The holder of a generation and an intent acts exactly while both are the latest and a core runs;
/// registering an intent ends every other.
pub proof fn law_only_the_latest_intent_acts(
    rt: &mut ProxyRuntime,
    intent: u64,
    generation: u64,
    older: u64,
    before: bool,
    after: bool,
)
    requires
        call_ensures(ProxyRuntime::selector_operation_is_current, (old(rt), generation, older), before),
        call_ensures(ProxyRuntime::register_selector_intent, (rt,), intent),
        call_ensures(ProxyRuntime::selector_operation_is_current, (final(rt), generation, older), after),
    ensures
        before <==> old(rt).generation == generation && old(rt).status.running && old(
            rt,
        ).intent_generation == older,
        before ==> !after,
        after <==> old(rt).generation == generation && old(rt).status.running && older == intent,
        *final(rt) == (ProxyRuntime { intent_generation: intent, ..*old(rt) }),
{
    assert(old(rt).status@.running == old(rt).status.running);
    assert(final(rt).status@.running == final(rt).status.running);
}

/// The rules that can be switched are those whose selector the core was given, in their order and
/// as they were.
pub proof fn law_the_rules_that_can_be_switched(
    pending: Vec<RuleTarget>,
    config: CoreConfig,
    r: Vec<RuleTarget>,
    i: int,
    j: int,
)
    requires
        call_ensures(live_rule_targets, (&pending, &config), r),
    ensures
        0 <= i < pending@.len() && 0 <= j < config.outbounds@.len() && config.outbounds@[j].kind@
            == "selector"@ && config.outbounds@[j].tag@ == pending@[i].selector_tag@
            ==> r@.contains(pending@[i]),
        0 <= i < r@.len() ==> pending@.contains(r@[i]) && exists|k: int|
            0 <= k < config.outbounds@.len() && (#[trigger] config.outbounds@[k]).kind@
                == "selector"@ && config.outbounds@[k].tag@ == r@[i].selector_tag@,
        r@.len() <= pending@.len(),
        0 <= i < pending@.len() && is_live_selector(config, pending@[i].selector_tag@)
            ==> r@[pending@.take(i).filter(
            |t: RuleTarget| is_live_selector(config, t.selector_tag@),
        ).len() as int] == pending@[i],
{
    let p = |t: RuleTarget| is_live_selector(config, t.selector_tag@);
    broadcast use vstd::seq_lib::group_filter_ensures;

    assert(r@ == pending@.filter(p));
    if 0 <= i < pending@.len() && 0 <= j < config.outbounds@.len() && config.outbounds@[j].kind@
        == "selector"@ && config.outbounds@[j].tag@ == pending@[i].selector_tag@ {
        assert(config.outbounds@[j].kind@ == "selector"@);
        assert(p(pending@[i]));
        assert(pending@.filter(p).contains(pending@[i]));
    }
    if 0 <= i < r@.len() {
        assert(p(pending@.filter(p)[i]));
        pending@.lemma_filter_contains_rev(p, r@[i]);
        assert(is_live_selector(config, r@[i].selector_tag@));
    }
    if 0 <= i < pending@.len() && is_live_selector(config, pending@[i].selector_tag@) {
        lemma_filtered_place(pending@, p, i);
    }
}

/// What is kept of a list stands behind as many as were kept of those before it.
pub proof fn lemma_filtered_place<A>(s: Seq<A>, p: spec_fn(A) -> bool, i: int)
    requires
        0 <= i < s.len(),
        p(s[i]),
    ensures
        s.take(i).filter(p).len() < s.filter(p).len(),
        s.filter(p)[s.take(i).filter(p).len() as int] == s[i],
    decreases s.len(),
{
    reveal(Seq::filter);
    let u = s.drop_last();
    if i == s.len() - 1 {
        assert(s.take(i) =~= u);
    } else {
        assert(u.take(i) =~= s.take(i));
        lemma_filtered_place(u, p, i);
    }
}

/// The selector of a rule is that of the last entry with its key.
pub proof fn law_the_last_entry_of_a_rule_counts(
    targets: Vec<RuleTarget>,
    key: &str,
    r: Option<&RuleTarget>,
    i: int,
)
    requires
        call_ensures(rule_target_of, (&targets, key), r),
    ensures
        0 <= i < targets@.len() && targets@[i].rule_key@ == key@ && (forall|k: int|
            i < k < targets@.len() ==> (#[trigger] targets@[k]).rule_key@ != key@) ==> (r matches Some(
            t,
        ) && t.selector_tag@ == targets@[i].selector_tag@ && t.member_tag@
            == targets@[i].member_tag@),
        r is None <==> forall|k: int|
            0 <= k < targets@.len() ==> (#[trigger] targets@[k]).rule_key@ != key@,
{
    lemma_targets_by_key(targets@, key@, i);
}

proof fn lemma_targets_by_key(v: Seq<RuleTarget>, key: Seq<char>, i: int)
    ensures
        0 <= i < v.len() && v[i].rule_key@ == key && (forall|k: int|
            i < k < v.len() ==> (#[trigger] v[k]).rule_key@ != key) ==> targets_by_key(
            v,
        ).dom().contains(key) && targets_by_key(v)[key] == (v[i].selector_tag@, v[i].member_tag@),
        !targets_by_key(v).dom().contains(key) <==> forall|k: int|
            0 <= k < v.len() ==> (#[trigger] v[k]).rule_key@ != key,
    decreases v.len(),
{
    if v.len() > 0 {
        let u = v.drop_last();
        lemma_targets_by_key(u, key, i);
        let n = v.len() - 1;
        if v.last().rule_key@ == key {
            assert(v[n].rule_key@ == key);
            if 0 <= i < n && (forall|k: int| i < k < v.len() ==> (#[trigger] v[k]).rule_key@ != key) {
                assert(v[n].rule_key@ != key);
            }
        } else {
            if 0 <= i < v.len() && v[i].rule_key@ == key && (forall|k: int|
                i < k < v.len() ==> (#[trigger] v[k]).rule_key@ != key) {
                assert(i < n && u[i] == v[i]);
                assert forall|k: int| i < k < u.len() implies (#[trigger] u[k]).rule_key@ != key by {
                    assert(v[k].rule_key@ != key);
                }
            }
            if forall|k: int| 0 <= k < v.len() ==> (#[trigger] v[k]).rule_key@ != key {
                assert forall|k: int| 0 <= k < u.len() implies (#[trigger] u[k]).rule_key@ != key by {
                    assert(v[k].rule_key@ != key);
                }
            }
            if forall|k: int| 0 <= k < u.len() ==> (#[trigger] u[k]).rule_key@ != key {
                assert forall|k: int| 0 <= k < v.len() implies (#[trigger] v[k]).rule_key@ != key by {
                    if k < n {
                        assert(u[k].rule_key@ != key);
                    }
                }
            }
        }
    }
}

/// A saved configuration is switched to only under the latest intent, and only where what is saved
/// is known to be that configuration still.
pub proof fn law_only_what_is_still_saved_is_switched_to(
    rt: ProxyRuntime,
    intent: u64,
    saved_is_same: Option<bool>,
    r: bool,
)
    requires
        call_ensures(ProxyRuntime::persisted_switch_is_current, (&rt, intent, saved_is_same), r),
    ensures
        r ==> rt.intent_generation == intent,
        r ==> saved_is_same == Some(true),
        rt.intent_generation == intent && saved_is_same == Some(true) ==> r,
{
}

/// A change of nodes restarts the core only where the configuration says so in so many words.
pub proof fn law_nodes_restart_the_core_only_on_request(config: Json, r: bool)
    requires
        call_ensures(restart_on_node_change, (&config,), r),
    ensures
        r <==> config@.get("restartOnNodeChange"@) == Some(JsonView::Bool(true)),
{
}

/// A configuration whose interface is missing is deferred: that is said in the words that were
/// found, nothing of the running core changes, and only the pending changes are told of.
pub proof fn law_a_missing_interface_defers_the_switch(
    rt: &mut ProxyRuntime,
    message: &str,
    r: SwitchNext,
)
    requires
        call_ensures(ProxyRuntime::switch_bind_failed, (rt, message), r),
    ensures
        r is Done,
        r->outcome == SwitchOutcome::Deferred,
        r->tail.push_pending_changes,
        !r->tail.schedule_restart && !r->tail.process_deletions && !r->tail.reassert,
        !r->tail.sync_rule_files && !r->tail.exit_changed,
        final(rt).restart_deferred,
        crate::runtime::shows(*final(rt), message@, ErrorCode::OutboundInterfaceUnavailable),
        crate::runtime::same_session(old(rt).status, final(rt).status),
        final(rt).current_config == old(rt).current_config,
        final(rt).generation == old(rt).generation,
        final(rt).startup_snapshot == old(rt).startup_snapshot,
        final(rt).pending_force_restart == old(rt).pending_force_restart,
{
    assert(final(rt).status@.pid == final(rt).status.pid && old(rt).status@.pid == old(
        rt,
    ).status.pid);
    assert(final(rt).status@.error == crate::text::opt_view(final(rt).status.error));
}

/// What is kept of a start is what it was made with: the nodes' tables, each in its place, the
/// ports of the probes, and those rules that can be switched.
pub proof fn law_a_snapshot_keeps_what_a_core_was_started_with(
    nodes: NodeTables,
    pending: Vec<RuleTarget>,
    config: CoreConfig,
    ports: Vec<u16>,
    r: SwitchSnapshot,
    without: SwitchSnapshot,
    live: Vec<RuleTarget>,
)
    requires
        call_ensures(
            ProxyRuntime::build_switch_snapshot,
            (nodes, Some(pending), &config, &ports),
            r,
        ),
        call_ensures(ProxyRuntime::build_switch_snapshot, (nodes, None, &config, &ports), without),
        call_ensures(live_rule_targets, (&pending, &config), live),
    ensures
        r.id_to_tag@ == nodes.id_to_tag@,
        r.fingerprints@ == nodes.fingerprints@,
        r.dirty_fingerprints@ == nodes.dirty_fingerprints@,
        r.probe_pool_ports@ == ports@,
        r.rule_target@ == live@,
        without.rule_target@.len() == 0,
        without.id_to_tag@ == nodes.id_to_tag@,
        without.fingerprints@ == nodes.fingerprints@,
        without.dirty_fingerprints@ == nodes.dirty_fingerprints@,
        without.probe_pool_ports@ == ports@,
{
}

} // verus!
