//! A start, step by step: what is done next after each step ended, when it is tried again, and
//! when it yields to an operation that took over.

use vstd::prelude::*;

use crate::core_log::{settle_start_failure, CoreFatalKind};
use crate::json::Json;
use crate::retry::{
    backoff_ms, is_retryable_start_error, main_core_ready_timeout_message, names_lasting_failure,
    start_backoff_delay_ms, timeout_text, StartRetryBudget,
};
use crate::runtime::{failed_status, only_status_differs, shows, ProxyRuntime, SwitchSnapshot};
use crate::status::{ErrorCode, ProxyStatus, StartError, StartErrorView, StatusView};
use crate::text::{decimal, decimal_text, lemma_occurs_between, lowercase_of, occurs_in};

verus! {

/// What a start waits for.
#[derive(Clone, Copy, PartialEq, Eq, Structural, Debug)]
pub enum StartStage {
    /// Reading the configuration and checking the interfaces that it binds to.
    Preflight,
    /// Having the helper that takes over all traffic.
    HelperGate,
    /// Preparing the rule files and the directory.
    Prepare,
    /// Preparing name resolution and the bindings of the nodes.
    Prestart,
    /// Generating the configuration of the core and having it checked.
    Generate,
    /// Looking whether the interfaces of the bindings are still there.
    Bindings,
    /// Finding the core.
    Binary,
    /// Spawning the core.
    Spawn,
    /// The core coming up.
    Ready,
    /// Looking for the virtual interface.
    AdapterProbe,
    /// Judging what was seen of the virtual interface.
    AdapterVerdict,
    /// The core being stopped after it failed.
    Kill,
    /// The pause before the next attempt.
    Backoff,
    /// Looking whether traffic goes through the virtual interface.
    Route,
    /// Writing down the new session.
    Commit,
    /// The core runs.
    Running,
    /// The start is over without a core of its own.
    Over,
}

/// What was found before anything was started.
pub enum Preflight {
    /// The configuration cannot be read.
    Unreadable(String),
    /// An interface that the configuration binds to is not there.
    Unbound(String),
    Passed { via_helper: bool, budget: StartRetryBudget },
}

/// How generating the configuration of the core ended.
pub enum Generated {
    Failed(String),
    /// The core rejects the selected node.
    Blocked { tag: String, detail: String },
    Passed,
}

/// How waiting for the core ended.
#[derive(Clone, Copy, PartialEq, Eq, Structural, Debug)]
pub enum ReadyOutcome {
    Ready,
    Superseded,
    Dead,
    /// The core had not come up when its budget of `budget_ms` was spent. The rest is what the
    /// message about it names.
    Timeout {
        api_port: u16,
        units: usize,
        naive: usize,
        budget_ms: u64,
        estimate_ms: u64,
        per_naive_ms: u64,
    },
}

/// What is made of the virtual interface of a core that came up.
#[derive(Clone, Copy, PartialEq, Eq, Structural, Debug)]
pub enum AdapterVerdict {
    Proceed,
    RetryLeg,
    TerminalNeverAppeared,
    TerminalFlapping,
}

/// Why the core is being stopped.
pub enum KillCause {
    Dead,
    Timeout {
        api_port: u16,
        units: usize,
        naive: usize,
        budget_ms: u64,
        estimate_ms: u64,
        per_naive_ms: u64,
    },
    Adapter(AdapterVerdict),
    /// Traffic does not go through the virtual interface.
    Route(String),
}

/// What a start does next.
pub enum StartAction {
    /// Another operation took over: report the status and leave everything to it.
    Yield,
    Fail(StartError),
    Preflight,
    RunHelperGate,
    PrepareFiles,
    Prestart,
    Generate,
    CheckBindings,
    FindBinary,
    SpawnViaHelper,
    SpawnDirect,
    AwaitReady,
    ProbeAdapter,
    JudgeAdapter,
    KillCore,
    /// Wait so many milliseconds, unless another operation takes over.
    Backoff(u64),
    VerifyRoute,
    Commit,
}

/// The messages that name no detail.
pub struct FixedMessages {
    pub helper_not_installed: String,
    pub helper_gate_aborted: String,
    pub tun_adapter_missing: String,
    pub tun_address_unavailable: String,
}

/// The ports of a session.
#[derive(Clone, Copy, PartialEq, Eq, Structural, Debug)]
pub struct SessionPorts {
    pub mixed_port: u16,
    pub api_port: u16,
    pub update_in_port: u16,
    pub subscription_update_in_port: u16,
}

/// A start under way.
pub struct StartFlow {
    pub my_gen: u64,
    pub via_helper: bool,
    pub budget: StartRetryBudget,
    pub attempt: u32,
    /// The virtual interface has been seen since the start began.
    pub adapter_seen: bool,
    pub pid: u32,
    pub cause: Option<KillCause>,
    pub stage: StartStage,
}

/// The stages that may follow each other. A start may be over at any time.
pub open spec fn stage_follows(a: StartStage, b: StartStage) -> bool {
    ||| b == StartStage::Over
    ||| match a {
        StartStage::Preflight => b == StartStage::HelperGate,
        StartStage::HelperGate => b == StartStage::Prepare,
        StartStage::Prepare => b == StartStage::Prestart,
        StartStage::Prestart => b == StartStage::Generate,
        StartStage::Generate => b == StartStage::Bindings,
        StartStage::Bindings => b == StartStage::Generate || b == StartStage::Binary,
        StartStage::Binary => b == StartStage::Spawn,
        StartStage::Spawn => b == StartStage::Ready || b == StartStage::Backoff,
        StartStage::Ready => b == StartStage::AdapterProbe || b == StartStage::Kill,
        StartStage::AdapterProbe => b == StartStage::AdapterVerdict,
        StartStage::AdapterVerdict => b == StartStage::Route || b == StartStage::Kill,
        StartStage::Kill => b == StartStage::Backoff,
        StartStage::Backoff => b == StartStage::Generate,
        StartStage::Route => b == StartStage::Commit || b == StartStage::Kill,
        StartStage::Commit => b == StartStage::Running,
        StartStage::Running => false,
        StartStage::Over => false,
    }
}

/// The runtime says that it failed with `msg`, and so does the error that is returned.
pub open spec fn fails_with(
    before: ProxyRuntime,
    after: ProxyRuntime,
    a: StartAction,
    msg: Seq<char>,
    code: ErrorCode,
) -> bool {
    &&& a matches StartAction::Fail(e)
    &&& e@ == (StartErrorView { message: msg, code: Some(code) })
    &&& after.status@ == failed_status(msg, code)
    &&& after == (ProxyRuntime { status: after.status, ..before })
}

/// The error that is returned is `msg` alone, and the runtime is left as it is.
pub open spec fn fails_plainly(
    before: ProxyRuntime,
    after: ProxyRuntime,
    a: StartAction,
    msg: Seq<char>,
) -> bool {
    &&& a matches StartAction::Fail(e)
    &&& e@ == (StartErrorView { message: msg, code: None })
    &&& after == before
}

/// The next attempt begins, or yields to an operation that took over.
pub open spec fn next_round(before: StartFlow, after: StartFlow, rt: ProxyRuntime, a: StartAction) -> bool {
    if rt.generation != before.my_gen {
        &&& a is Yield
        &&& after == (StartFlow {
            attempt: (before.attempt + 1) as u32,
            stage: StartStage::Over,
            ..before
        })
    } else {
        &&& a is Generate
        &&& after == (StartFlow {
            attempt: (before.attempt + 1) as u32,
            stage: StartStage::Generate,
            ..before
        })
    }
}

/// Another attempt is in the budget.
pub open spec fn attempts_left(f: StartFlow) -> bool {
    f.attempt <= f.budget.max_retries
}

/// The pause before the next attempt begins.
pub open spec fn backs_off(before: StartFlow, after: StartFlow, a: StartAction) -> bool {
    &&& a matches StartAction::Backoff(d)
    &&& d == backoff_ms(before.budget, before.attempt)
    &&& after == (StartFlow { stage: StartStage::Backoff, cause: after.cause, ..before })
}

/// What is said where the core rejects the selected node.
pub open spec fn blocked_text(tag: Seq<char>, detail: Seq<char>) -> Seq<char> {
    "选中的节点「"@ + tag
        + "」被 sing-box 内核拒收，已跳过起核（请修正该节点或改选其他节点）："@ + detail
}

/// What is said where the virtual interface comes and goes.
pub open spec fn flapping_text(adapter: Seq<char>, attempt: u32) -> Seq<char> {
    "TUN 虚拟网卡 "@ + adapter + " 反复消失（起核期建出后又不见），已重试 "@ + decimal(attempt as nat)
        + " 次仍失败"@
}

/// What is said of a core that ended while it came up, or did not come up in time.
pub open spec fn symptom_text(cause: KillCause) -> Seq<char> {
    match cause {
        KillCause::Timeout { api_port, units, naive, budget_ms, estimate_ms, per_naive_ms } =>
            timeout_text(
                api_port,
                units as nat,
                naive as nat,
                budget_ms,
                estimate_ms,
                per_naive_ms,
            ),
        _ => "sing-box 启动期退出"@,
    }
}

impl StartFlow {
    /// A start begins, unless it has been superseded before it could.
    pub fn begin(rt: &ProxyRuntime, my_gen: u64) -> (r: (Self, StartAction))
        ensures
            r.0.my_gen == my_gen,
            r.0.attempt == 0,
            !r.0.adapter_seen,
            r.0.cause is None,
            rt.generation != my_gen ==> r.1 is Yield && r.0.stage == StartStage::Over,
            rt.generation == my_gen ==> r.1 is Preflight && r.0.stage == StartStage::Preflight,
    {
        let superseded = rt.generation != my_gen;
        let flow = StartFlow {
            my_gen,
            via_helper: false,
            budget: StartRetryBudget { max_retries: 0, delay_ms: 0, exponential_backoff: false },
            attempt: 0,
            adapter_seen: false,
            pid: 0,
            cause: None,
            stage: if superseded {
                StartStage::Over
            } else {
                StartStage::Preflight
            },
        };
        if superseded {
            (flow, StartAction::Yield)
        } else {
            (flow, StartAction::Preflight)
        }
    }

    /// The configuration was read and its bindings were checked.
    pub fn on_preflight(&mut self, rt: &mut ProxyRuntime, p: Preflight) -> (a: StartAction)
        requires
            old(self).stage == StartStage::Preflight,
        ensures
            stage_follows(old(self).stage, final(self).stage),
            match p {
                Preflight::Unreadable(e) => {
                    &&& fails_plainly(
                        *old(rt),
                        *final(rt),
                        a,
                        "配置解析失败（UserConfig）: "@ + e@,
                    )
                    &&& final(self).stage == StartStage::Over
                },
                Preflight::Unbound(m) => {
                    &&& fails_with(
                        *old(rt),
                        *final(rt),
                        a,
                        m@,
                        ErrorCode::OutboundInterfaceUnavailable,
                    )
                    &&& final(self).stage == StartStage::Over
                },
                Preflight::Passed { via_helper, budget } => {
                    &&& a is RunHelperGate
                    &&& *final(rt) == *old(rt)
                    &&& *final(self) == (StartFlow {
                        via_helper,
                        budget,
                        stage: StartStage::HelperGate,
                        ..*old(self)
                    })
                },
            },
    {
        match p {
            Preflight::Unreadable(e) => {
                self.stage = StartStage::Over;
                StartAction::Fail(
                    StartError::plain(
                        "配置解析失败（UserConfig）: ".to_owned().concat(e.as_str()),
                    ),
                )
            },
            Preflight::Unbound(m) => {
                self.stage = StartStage::Over;
                rt.set_error(m.as_str(), ErrorCode::OutboundInterfaceUnavailable);
                StartAction::Fail(StartError::coded(m, ErrorCode::OutboundInterfaceUnavailable))
            },
            Preflight::Passed { via_helper, budget } => {
                self.via_helper = via_helper;
                self.budget = budget;
                self.stage = StartStage::HelperGate;
                StartAction::RunHelperGate
            },
        }
    }

    /// The helper gate was passed, or refused with an error that the runtime says already.
    pub fn on_helper_gate(&mut self, verdict: Result<(), StartError>) -> (a: StartAction)
        requires
            old(self).stage == StartStage::HelperGate,
        ensures
            stage_follows(old(self).stage, final(self).stage),
            match verdict {
                Ok(_) => a is PrepareFiles && *final(self) == (StartFlow {
                    stage: StartStage::Prepare,
                    ..*old(self)
                }),
                Err(e) => a == StartAction::Fail(e) && final(self).stage == StartStage::Over,
            },
    {
        match verdict {
            Ok(_) => {
                self.stage = StartStage::Prepare;
                StartAction::PrepareFiles
            },
            Err(e) => {
                self.stage = StartStage::Over;
                StartAction::Fail(e)
            },
        }
    }

    /// The rule files were written; `made` is how creating the directory of the configuration
    /// ended, with the directory and the error where it failed.
    pub fn on_prepared(&mut self, rt: &ProxyRuntime, made: Result<(), (String, String)>) -> (a:
        StartAction)
        requires
            old(self).stage == StartStage::Prepare,
        ensures
            stage_follows(old(self).stage, final(self).stage),
            match made {
                Ok(_) => a is Prestart && *final(self) == (StartFlow {
                    stage: StartStage::Prestart,
                    ..*old(self)
                }),
                Err(e) => {
                    &&& fails_plainly(
                        *rt,
                        *rt,
                        a,
                        "创建配置目录失败 "@ + e.0@ + ": "@ + e.1@,
                    )
                    &&& final(self).stage == StartStage::Over
                },
            },
    {
        match made {
            Ok(_) => {
                self.stage = StartStage::Prestart;
                StartAction::Prestart
            },
            Err(e) => {
                self.stage = StartStage::Over;
                StartAction::Fail(
                    StartError::plain(
                        "创建配置目录失败 ".to_owned().concat(e.0.as_str()).concat(": ").concat(
                            e.1.as_str(),
                        ),
                    ),
                )
            },
        }
    }

    fn round(&mut self, rt: &ProxyRuntime) -> (a: StartAction)
        requires
            old(self).attempt < u32::MAX,
        ensures
            next_round(*old(self), *final(self), *rt, a),
    {
        self.attempt = self.attempt + 1;
        if rt.generation != self.my_gen {
            self.stage = StartStage::Over;
            StartAction::Yield
        } else {
            self.stage = StartStage::Generate;
            StartAction::Generate
        }
    }

    /// Everything is prepared: the first attempt begins.
    pub fn on_prestarted(&mut self, rt: &ProxyRuntime) -> (a: StartAction)
        requires
            old(self).stage == StartStage::Prestart,
            old(self).attempt < u32::MAX,
        ensures
            stage_follows(old(self).stage, final(self).stage),
            next_round(*old(self), *final(self), *rt, a),
    {
        self.round(rt)
    }

    /// The configuration of the core was generated and checked.
    pub fn on_generated(&mut self, rt: &mut ProxyRuntime, g: Generated) -> (a: StartAction)
        requires
            old(self).stage == StartStage::Generate,
        ensures
            stage_follows(old(self).stage, final(self).stage),
            match g {
                Generated::Failed(e) => fails_plainly(*old(rt), *final(rt), a, e@)
                    && final(self).stage == StartStage::Over,
                Generated::Blocked { tag, detail } => fails_with(
                    *old(rt),
                    *final(rt),
                    a,
                    blocked_text(tag@, detail@),
                    ErrorCode::StartupFailed,
                ) && final(self).stage == StartStage::Over,
                Generated::Passed => a is CheckBindings && *final(rt) == *old(rt) && *final(self)
                    == (StartFlow { stage: StartStage::Bindings, ..*old(self) }),
            },
    {
        match g {
            Generated::Failed(e) => {
                self.stage = StartStage::Over;
                StartAction::Fail(StartError::plain(e))
            },
            Generated::Blocked { tag, detail } => {
                self.stage = StartStage::Over;
                let msg = "选中的节点「".to_owned().concat(tag.as_str()).concat(
                    "」被 sing-box 内核拒收，已跳过起核（请修正该节点或改选其他节点）：",
                ).concat(detail.as_str());
                rt.set_error(msg.as_str(), ErrorCode::StartupFailed);
                StartAction::Fail(StartError::coded(msg, ErrorCode::StartupFailed))
            },
            Generated::Passed => {
                self.stage = StartStage::Bindings;
                StartAction::CheckBindings
            },
        }
    }

    /// `removed` bindings named an interface that is gone: the configuration is generated again
    /// without them, and the attempt does not count.
    pub fn on_bindings(&mut self, rt: &ProxyRuntime, removed: usize) -> (a: StartAction)
        requires
            old(self).stage == StartStage::Bindings,
            old(self).attempt >= 1,
        ensures
            stage_follows(old(self).stage, final(self).stage),
            removed == 0 ==> a is FindBinary && *final(self) == (StartFlow {
                stage: StartStage::Binary,
                ..*old(self)
            }),
            removed > 0 ==> final(self).attempt == old(self).attempt && if rt.generation != old(
                self,
            ).my_gen {
                a is Yield && *final(self) == (StartFlow { stage: StartStage::Over, ..*old(self) })
            } else {
                a is Generate && *final(self) == (StartFlow {
                    stage: StartStage::Generate,
                    ..*old(self)
                })
            },
    {
        if removed > 0 {
            self.attempt = self.attempt.saturating_sub(1);
            return self.round(rt);
        }
        self.stage = StartStage::Binary;
        StartAction::FindBinary
    }

    /// The core was looked for. One that the runtime spawns itself is not spawned where another
    /// operation took over.
    pub fn on_binary(&mut self, rt: &mut ProxyRuntime, found: Result<(), String>) -> (a: StartAction)
        requires
            old(self).stage == StartStage::Binary,
        ensures
            stage_follows(old(self).stage, final(self).stage),
            match found {
                Err(e) => fails_plainly(*old(rt), *final(rt), a, e@) && final(self).stage
                    == StartStage::Over,
                Ok(_) => if old(self).via_helper {
                    &&& a is SpawnViaHelper
                    &&& *final(rt) == *old(rt)
                    &&& *final(self) == (StartFlow { stage: StartStage::Spawn, ..*old(self) })
                } else {
                    &&& *final(rt) == (ProxyRuntime { core_via_helper: false, ..*old(rt) })
                    &&& if old(rt).generation != old(self).my_gen {
                        a is Yield && *final(self) == (StartFlow {
                            stage: StartStage::Over,
                            ..*old(self)
                        })
                    } else {
                        a is SpawnDirect && *final(self) == (StartFlow {
                            stage: StartStage::Spawn,
                            ..*old(self)
                        })
                    }
                },
            },
    {
        match found {
            Err(e) => {
                self.stage = StartStage::Over;
                StartAction::Fail(StartError::plain(e))
            },
            Ok(_) => {
                if self.via_helper {
                    self.stage = StartStage::Spawn;
                    return StartAction::SpawnViaHelper;
                }
                rt.core_via_helper = false;
                if rt.generation != self.my_gen {
                    self.stage = StartStage::Over;
                    StartAction::Yield
                } else {
                    self.stage = StartStage::Spawn;
                    StartAction::SpawnDirect
                }
            },
        }
    }

    /// The helper was asked to spawn the core: `Ok(None)` where another operation took over.
    pub fn on_helper_spawned(&mut self, rt: &mut ProxyRuntime, spawned: Result<Option<u32>, String>) -> (a:
        StartAction)
        requires
            old(self).stage == StartStage::Spawn,
        ensures
            stage_follows(old(self).stage, final(self).stage),
            match spawned {
                Ok(Some(pid)) => a is AwaitReady && *final(rt) == *old(rt) && *final(self) == (
                StartFlow { pid, stage: StartStage::Ready, ..*old(self) }),
                Ok(None) => a is Yield && *final(rt) == *old(rt) && final(self).stage
                    == StartStage::Over,
                Err(e) => fails_with(*old(rt), *final(rt), a, e@, ErrorCode::StartupFailed)
                    && final(self).stage == StartStage::Over,
            },
    {
        match spawned {
            Ok(Some(pid)) => {
                self.pid = pid;
                self.stage = StartStage::Ready;
                StartAction::AwaitReady
            },
            Ok(None) => {
                self.stage = StartStage::Over;
                StartAction::Yield
            },
            Err(e) => {
                self.stage = StartStage::Over;
                rt.set_error(e.as_str(), ErrorCode::StartupFailed);
                StartAction::Fail(StartError::coded(e, ErrorCode::StartupFailed))
            },
        }
    }

    /// The core was spawned, with its process number where it has one, or could not be: then it is
    /// tried again within the budget, unless the failure is a lasting one.
    pub fn on_direct_spawned(&mut self, rt: &mut ProxyRuntime, spawned: Result<Option<u32>, String>) -> (a:
        StartAction)
        requires
            old(self).stage == StartStage::Spawn,
        ensures
            stage_follows(old(self).stage, final(self).stage),
            match spawned {
                Ok(p) => {
                    let pid = match p {
                        Some(n) => n,
                        None => 0,
                    };
                    &&& a is AwaitReady
                    &&& *final(rt) == (ProxyRuntime { pid: Some(pid), ..*old(rt) })
                    &&& *final(self) == (StartFlow { pid, stage: StartStage::Ready, ..*old(self) })
                },
                Err(e) => if attempts_left(*old(self)) && !names_lasting_failure(
                    lowercase_of(e@),
                ) {
                    &&& backs_off(*old(self), *final(self), a)
                    &&& *final(rt) == *old(rt)
                } else {
                    &&& fails_with(*old(rt), *final(rt), a, e@, ErrorCode::StartupFailed)
                    &&& final(self).stage == StartStage::Over
                },
            },
    {
        match spawned {
            Ok(p) => {
                let pid: u32 = match p {
                    Some(n) => n,
                    None => 0,
                };
                self.pid = pid;
                rt.pid = Some(pid);
                self.stage = StartStage::Ready;
                StartAction::AwaitReady
            },
            Err(e) => {
                if self.attempt <= self.budget.max_retries && is_retryable_start_error(e.as_str()) {
                    self.stage = StartStage::Backoff;
                    return StartAction::Backoff(
                        start_backoff_delay_ms(&self.budget, self.attempt),
                    );
                }
                self.stage = StartStage::Over;
                rt.set_error(e.as_str(), ErrorCode::StartupFailed);
                StartAction::Fail(StartError::coded(e, ErrorCode::StartupFailed))
            },
        }
    }

    /// Waiting for the core ended. A core that seems dead because another operation took it down
    /// is left to that operation.
    pub fn on_ready(&mut self, rt: &ProxyRuntime, outcome: ReadyOutcome) -> (a: StartAction)
        requires
            old(self).stage == StartStage::Ready,
        ensures
            stage_follows(old(self).stage, final(self).stage),
            match outcome {
                ReadyOutcome::Ready => a is ProbeAdapter && *final(self) == (StartFlow {
                    stage: StartStage::AdapterProbe,
                    ..*old(self)
                }),
                ReadyOutcome::Superseded => a is Yield && *final(self) == (StartFlow {
                    stage: StartStage::Over,
                    ..*old(self)
                }),
                _ => if rt.generation != old(self).my_gen {
                    a is Yield && *final(self) == (StartFlow {
                        stage: StartStage::Over,
                        ..*old(self)
                    })
                } else {
                    a is KillCore && *final(self) == (StartFlow {
                        cause: Some(ready_cause(outcome)),
                        stage: StartStage::Kill,
                        ..*old(self)
                    })
                },
            },
    {
        match outcome {
            ReadyOutcome::Ready => {
                self.stage = StartStage::AdapterProbe;
                StartAction::ProbeAdapter
            },
            ReadyOutcome::Superseded => {
                self.stage = StartStage::Over;
                StartAction::Yield
            },
            ReadyOutcome::Dead => {
                if rt.generation != self.my_gen {
                    self.stage = StartStage::Over;
                    return StartAction::Yield;
                }
                self.cause = Some(KillCause::Dead);
                self.stage = StartStage::Kill;
                StartAction::KillCore
            },
            ReadyOutcome::Timeout { api_port, units, naive, budget_ms, estimate_ms, per_naive_ms } => {
                if rt.generation != self.my_gen {
                    self.stage = StartStage::Over;
                    return StartAction::Yield;
                }
                self.cause = Some(
                    KillCause::Timeout {
                        api_port,
                        units,
                        naive,
                        budget_ms,
                        estimate_ms,
                        per_naive_ms,
                    },
                );
                self.stage = StartStage::Kill;
                StartAction::KillCore
            },
        }
    }

    /// The virtual interface was looked for. Having been seen once counts for all attempts.
    pub fn on_adapter_probed(&mut self, present: bool) -> (a: StartAction)
        requires
            old(self).stage == StartStage::AdapterProbe,
        ensures
            stage_follows(old(self).stage, final(self).stage),
            a is JudgeAdapter,
            *final(self) == (StartFlow {
                adapter_seen: old(self).adapter_seen || present,
                stage: StartStage::AdapterVerdict,
                ..*old(self)
            }),
    {
        if present {
            self.adapter_seen = true;
        }
        self.stage = StartStage::AdapterVerdict;
        StartAction::JudgeAdapter
    }

    /// What was seen of the virtual interface was judged.
    pub fn on_adapter_verdict(&mut self, rt: &ProxyRuntime, verdict: AdapterVerdict) -> (a:
        StartAction)
        requires
            old(self).stage == StartStage::AdapterVerdict,
        ensures
            stage_follows(old(self).stage, final(self).stage),
            rt.generation != old(self).my_gen ==> a is Yield && *final(self) == (StartFlow {
                stage: StartStage::Over,
                ..*old(self)
            }),
            rt.generation == old(self).my_gen ==> match verdict {
                AdapterVerdict::Proceed => a is VerifyRoute && *final(self) == (StartFlow {
                    stage: StartStage::Route,
                    ..*old(self)
                }),
                _ => a is KillCore && *final(self) == (StartFlow {
                    cause: Some(KillCause::Adapter(verdict)),
                    stage: StartStage::Kill,
                    ..*old(self)
                }),
            },
    {
        if rt.generation != self.my_gen {
            self.stage = StartStage::Over;
            return StartAction::Yield;
        }
        match verdict {
            AdapterVerdict::Proceed => {
                self.stage = StartStage::Route;
                StartAction::VerifyRoute
            },
            _ => {
                self.cause = Some(KillCause::Adapter(verdict));
                self.stage = StartStage::Kill;
                StartAction::KillCore
            },
        }
    }

    /// The failed core was stopped, or could not be. `fatal` is what its log gives away, and
    /// `adapter` is the name of the virtual interface.
    pub fn on_killed(
        &mut self,
        rt: &mut ProxyRuntime,
        killed: Result<(), String>,
        fatal: Option<CoreFatalKind>,
        adapter: &str,
        messages: &FixedMessages,
    ) -> (a: StartAction)
        requires
            old(self).stage == StartStage::Kill,
            old(self).cause is Some,
        ensures
            stage_follows(old(self).stage, final(self).stage),
            match killed {
                Err(e) => fails_plainly(*old(rt), *final(rt), a, e@) && final(self).stage
                    == StartStage::Over,
                Ok(_) => match old(self).cause->0 {
                    KillCause::Route(m) => {
                        &&& fails_with(*old(rt), *final(rt), a, m@, ErrorCode::TunRouteNotCaptured)
                        &&& final(self).stage == StartStage::Over
                    },
                    KillCause::Adapter(AdapterVerdict::RetryLeg) => {
                        &&& backs_off(*old(self), *final(self), a)
                        &&& *final(rt) == *old(rt)
                    },
                    KillCause::Adapter(AdapterVerdict::TerminalNeverAppeared) => {
                        &&& fails_with(
                            *old(rt),
                            *final(rt),
                            a,
                            messages.tun_adapter_missing@,
                            ErrorCode::TunAdapterMissing,
                        )
                        &&& final(self).stage == StartStage::Over
                    },
                    KillCause::Adapter(_) => {
                        &&& fails_with(
                            *old(rt),
                            *final(rt),
                            a,
                            flapping_text(adapter@, old(self).attempt),
                            ErrorCode::StartupFailed,
                        )
                        &&& final(self).stage == StartStage::Over
                    },
                    cause => if attempts_left(*old(self)) {
                        &&& backs_off(*old(self), *final(self), a)
                        &&& *final(rt) == *old(rt)
                    } else {
                        &&& final(self).stage == StartStage::Over
                        &&& if fatal == Some(CoreFatalKind::TunAddressUnavailable) {
                            fails_with(
                                *old(rt),
                                *final(rt),
                                a,
                                messages.tun_address_unavailable@,
                                ErrorCode::TunAddressUnavailable,
                            )
                        } else {
                            fails_with(
                                *old(rt),
                                *final(rt),
                                a,
                                symptom_text(cause),
                                ErrorCode::StartupFailed,
                            )
                        }
                    },
                },
            },
    {
        if let Err(e) = killed {
            self.stage = StartStage::Over;
            return StartAction::Fail(StartError::plain(e));
        }
        let (msg, code) = match self.cause.take() {
            Some(KillCause::Route(m)) => (m, ErrorCode::TunRouteNotCaptured),
            Some(KillCause::Adapter(v)) => match v {
                AdapterVerdict::RetryLeg => {
                    self.stage = StartStage::Backoff;
                    return StartAction::Backoff(
                        start_backoff_delay_ms(&self.budget, self.attempt),
                    );
                },
                AdapterVerdict::TerminalNeverAppeared => (
                    messages.tun_adapter_missing.clone(),
                    ErrorCode::TunAdapterMissing,
                ),
                _ => (
                    "TUN 虚拟网卡 ".to_owned().concat(adapter).concat(
                        " 反复消失（起核期建出后又不见），已重试 ",
                    ).concat(decimal_text(self.attempt as u64).as_str()).concat(" 次仍失败"),
                    ErrorCode::StartupFailed,
                ),
            },
            Some(KillCause::Timeout {
                api_port,
                units,
                naive,
                budget_ms,
                estimate_ms,
                per_naive_ms,
            }) => {
                if self.attempt <= self.budget.max_retries {
                    self.stage = StartStage::Backoff;
                    return StartAction::Backoff(
                        start_backoff_delay_ms(&self.budget, self.attempt),
                    );
                }
                let base = main_core_ready_timeout_message(
                    api_port,
                    units,
                    naive,
                    budget_ms,
                    estimate_ms,
                    per_naive_ms,
                );
                settle_start_failure(base, fatal, messages.tun_address_unavailable.as_str())
            },
            _ => {
                if self.attempt <= self.budget.max_retries {
                    self.stage = StartStage::Backoff;
                    return StartAction::Backoff(
                        start_backoff_delay_ms(&self.budget, self.attempt),
                    );
                }
                settle_start_failure(
                    "sing-box 启动期退出".to_owned(),
                    fatal,
                    messages.tun_address_unavailable.as_str(),
                )
            },
        };
        self.stage = StartStage::Over;
        rt.set_error(msg.as_str(), code);
        StartAction::Fail(StartError::coded(msg, code))
    }

    /// The pause is over, or was interrupted by an operation that took over.
    pub fn on_backoff(&mut self, rt: &ProxyRuntime, interrupted: bool) -> (a: StartAction)
        requires
            old(self).stage == StartStage::Backoff,
            old(self).attempt < u32::MAX,
        ensures
            stage_follows(old(self).stage, final(self).stage),
            interrupted ==> a is Yield && *final(self) == (StartFlow {
                stage: StartStage::Over,
                ..*old(self)
            }),
            !interrupted ==> next_round(*old(self), *final(self), *rt, a),
    {
        if interrupted {
            self.stage = StartStage::Over;
            return StartAction::Yield;
        }
        self.round(rt)
    }

    /// It was looked whether traffic goes through the virtual interface.
    pub fn on_route(&mut self, rt: &ProxyRuntime, captured: Result<(), String>) -> (a: StartAction)
        requires
            old(self).stage == StartStage::Route,
        ensures
            stage_follows(old(self).stage, final(self).stage),
            match captured {
                Ok(_) => a is Commit && *final(self) == (StartFlow {
                    stage: StartStage::Commit,
                    ..*old(self)
                }),
                Err(m) => if rt.generation != old(self).my_gen {
                    a is Yield && *final(self) == (StartFlow {
                        stage: StartStage::Over,
                        ..*old(self)
                    })
                } else {
                    a is KillCore && *final(self) == (StartFlow {
                        cause: Some(KillCause::Route(m)),
                        stage: StartStage::Kill,
                        ..*old(self)
                    })
                },
            },
    {
        match captured {
            Ok(_) => {
                self.stage = StartStage::Commit;
                StartAction::Commit
            },
            Err(m) => {
                if rt.generation != self.my_gen {
                    self.stage = StartStage::Over;
                    return StartAction::Yield;
                }
                self.cause = Some(KillCause::Route(m));
                self.stage = StartStage::Kill;
                StartAction::KillCore
            },
        }
    }

    /// Writes down the new session: the core runs, what it was started with is what counts as
    /// applied, and nothing waits to be applied.
    pub fn commit(
        &mut self,
        rt: &mut ProxyRuntime,
        now_ms: u64,
        ports: SessionPorts,
        config: Json,
        snapshot: SwitchSnapshot,
    ) -> (r: ProxyStatus)
        requires
            old(self).stage == StartStage::Commit,
        ensures
            stage_follows(old(self).stage, final(self).stage),
            *final(self) == (StartFlow { stage: StartStage::Running, ..*old(self) }),
            r@ == session_status(*old(self), now_ms, ports),
            final(rt).status@ == r@,
            final(rt).current_config matches Some(c) && c@ == config@,
            final(rt).startup_snapshot == Some(config),
            *final(rt) == (ProxyRuntime {
                status: final(rt).status,
                current_config: final(rt).current_config,
                startup_snapshot: Some(config),
                switch_snapshot: Some(snapshot),
                restart_deferred: false,
                ..*old(rt)
            }),
    {
        let status = ProxyStatus {
            running: true,
            starting: false,
            pid: self.pid,
            start_time: Some(now_ms),
            uptime: None,
            mixed_port: ports.mixed_port,
            clash_api_port: ports.api_port,
            update_in_port: ports.update_in_port,
            subscription_update_in_port: ports.subscription_update_in_port,
            started_via_helper: self.via_helper,
            error: None,
            error_code: None,
        };
        rt.switch_snapshot = Some(snapshot);
        rt.current_config = Some(config.clone());
        rt.startup_snapshot = Some(config);
        rt.restart_deferred = false;
        rt.status = status.clone();
        self.stage = StartStage::Running;
        status
    }
}

/// Why a core that did not come up is being stopped.
pub open spec fn ready_cause(outcome: ReadyOutcome) -> KillCause {
    match outcome {
        ReadyOutcome::Timeout { api_port, units, naive, budget_ms, estimate_ms, per_naive_ms } =>
            KillCause::Timeout { api_port, units, naive, budget_ms, estimate_ms, per_naive_ms },
        _ => KillCause::Dead,
    }
}

/// The status of the session that a start brought up.
pub open spec fn session_status(f: StartFlow, now_ms: u64, ports: SessionPorts) -> StatusView {
    StatusView {
        running: true,
        starting: false,
        pid: f.pid,
        start_time: Some(now_ms),
        uptime: None,
        mixed_port: ports.mixed_port,
        clash_api_port: ports.api_port,
        update_in_port: ports.update_in_port,
        subscription_update_in_port: ports.subscription_update_in_port,
        started_via_helper: f.via_helper,
        error: None,
        error_code: None,
    }
}

/// The protocols of nodes whose state is followed while the core runs.
#[derive(Clone, Copy, PartialEq, Eq, Structural, Debug)]
pub enum Protocol {
    Tailscale,
    Openconnect,
    OpenvpnClient,
    Other,
}

/// What goes along with a session that came up.
#[derive(Clone, Copy, PartialEq, Eq, Structural, Debug)]
pub struct SessionTasks {
    /// Take over the system's name resolution; otherwise restore it.
    pub take_over_dns: bool,
    pub relay_tailscale: bool,
    pub relay_openconnect: bool,
    pub relay_openvpn: bool,
    /// The relays need to know which node an endpoint belongs to.
    pub endpoint_map: bool,
}

fn has_protocol(protocols: &Vec<Protocol>, p: Protocol) -> (r: bool)
    ensures
        r == protocols@.contains(p),
{
    let mut i: usize = 0;
    while i < protocols.len()
        invariant
            i <= protocols@.len(),
            forall|k: int| 0 <= k < i ==> protocols@[k] != p,
        decreases protocols@.len() - i,
    {
        if protocols[i] == p {
            return true;
        }
        i += 1;
    }
    false
}

/// What goes along with a session, by the protocols of its nodes. `takeover` is the user's choice
/// about the system's name resolution, which is taken over unless the user declined.
pub fn session_tasks(is_tun: bool, takeover: Option<bool>, protocols: &Vec<Protocol>) -> (r:
    SessionTasks)
    ensures
        r.take_over_dns == (is_tun && takeover != Some(false)),
        r.relay_tailscale == protocols@.contains(Protocol::Tailscale),
        r.relay_openconnect == protocols@.contains(Protocol::Openconnect),
        r.relay_openvpn == protocols@.contains(Protocol::OpenvpnClient),
        r.endpoint_map == (r.relay_tailscale || r.relay_openconnect || r.relay_openvpn),
{
    let declined = match takeover {
        Some(b) => !b,
        None => false,
    };
    let relay_tailscale = has_protocol(protocols, Protocol::Tailscale);
    let relay_openconnect = has_protocol(protocols, Protocol::Openconnect);
    let relay_openvpn = has_protocol(protocols, Protocol::OpenvpnClient);
    SessionTasks {
        take_over_dns: is_tun && !declined,
        relay_tailscale,
        relay_openconnect,
        relay_openvpn,
        endpoint_map: relay_tailscale || relay_openconnect || relay_openvpn,
    }
}

/// Are the interfaces looked at once more after the core came up? Only where nodes are bound to
/// one, by inference or by the user.
pub fn look_at_interfaces_again(inferred_candidates: usize, explicit_interfaces: usize) -> (r: bool)
    ensures
        r == (inferred_candidates > 0 || explicit_interfaces > 0),
{
    inferred_candidates > 0 || explicit_interfaces > 0
}

impl ProxyRuntime {
    /// Interfaces that the user bound nodes to were found missing after the core came up: that is
    /// said, and the core goes on.
    pub fn note_unavailable_interfaces(&mut self, diagnostic: Option<&str>)
        ensures
            match diagnostic {
                Some(m) => {
                    &&& final(self).status@ == (StatusView {
                        error: Some(m@),
                        error_code: Some(ErrorCode::OutboundInterfaceUnavailable),
                        ..old(self).status@
                    })
                    &&& *final(self) == (ProxyRuntime { status: final(self).status, ..*old(self) })
                },
                None => *final(self) == *old(self),
            },
    {
        if let Some(m) = diagnostic {
            self.set_nonfatal_error(m, ErrorCode::OutboundInterfaceUnavailable);
        }
    }
}

/// A start that goes into another attempt because its budget allows it stays within the budget:
/// there are never more attempts than retries and one.
pub proof fn law_attempts_stay_within_the_budget(
    before: StartFlow,
    after: StartFlow,
    rt: ProxyRuntime,
    a: StartAction,
)
    requires
        attempts_left(before),
        before.attempt < u32::MAX,
        next_round(before, after, rt, a),
    ensures
        after.attempt <= after.budget.max_retries + 1,
        after.attempt == before.attempt + 1,
{
}

/// A core runs only after all of it has been checked: whatever a start went through before, its
/// last stages are generating the configuration, its bindings, the core, its coming up, the
/// virtual interface and the route, in this order.
pub proof fn law_a_running_core_passed_every_check(path: Seq<StartStage>)
    requires
        path.len() > 0,
        path[0] == StartStage::Preflight,
        path.last() == StartStage::Running,
        forall|i: int| 0 <= i < path.len() - 1 ==> stage_follows(#[trigger] path[i], path[i + 1]),
    ensures
        path.len() >= 14,
        path.subrange(path.len() - 10, path.len() as int) == seq![
            StartStage::Generate,
            StartStage::Bindings,
            StartStage::Binary,
            StartStage::Spawn,
            StartStage::Ready,
            StartStage::AdapterProbe,
            StartStage::AdapterVerdict,
            StartStage::Route,
            StartStage::Commit,
            StartStage::Running,
        ],
{
    let n = path.len() as int;
    assert(n > 1);
    assert(stage_follows(path[n - 2], path[n - 1]));
    assert(path[n - 2] == StartStage::Commit);
    assert(stage_follows(path[n - 3], path[n - 2]));
    assert(path[n - 3] == StartStage::Route);
    assert(stage_follows(path[n - 4], path[n - 3]));
    assert(path[n - 4] == StartStage::AdapterVerdict);
    assert(stage_follows(path[n - 5], path[n - 4]));
    assert(path[n - 5] == StartStage::AdapterProbe);
    assert(stage_follows(path[n - 6], path[n - 5]));
    assert(path[n - 6] == StartStage::Ready);
    assert(stage_follows(path[n - 7], path[n - 6]));
    assert(path[n - 7] == StartStage::Spawn);
    assert(stage_follows(path[n - 8], path[n - 7]));
    assert(path[n - 8] == StartStage::Binary);
    assert(stage_follows(path[n - 9], path[n - 8]));
    assert(path[n - 9] == StartStage::Bindings);
    assert(stage_follows(path[n - 10], path[n - 9]));
    assert(path[n - 10] == StartStage::Generate);
    lemma_generate_needs_four_stages(path, n - 10);
}

proof fn lemma_generate_needs_four_stages(path: Seq<StartStage>, at: int)
    requires
        0 <= at < path.len(),
        path[0] == StartStage::Preflight,
        path[at] == StartStage::Generate,
        forall|i: int| 0 <= i < path.len() - 1 ==> stage_follows(#[trigger] path[i], path[i + 1]),
    ensures
        at >= 4,
{
    assert(at > 0);
    assert(stage_follows(path[0], path[1]));
    if at > 1 {
        assert(stage_follows(path[1], path[2]));
    }
    if at > 2 {
        assert(stage_follows(path[2], path[3]));
    }
}

/// A start keeps who it is for, how it was set up and what it has seen.
pub open spec fn same_start(a: StartFlow, b: StartFlow) -> bool {
    &&& a.my_gen == b.my_gen
    &&& a.via_helper == b.via_helper
    &&& a.budget == b.budget
    &&& a.adapter_seen == b.adapter_seen
}

/// The start failed with this message and this kind, and the runtime, whose core does not run, says
/// the same.
pub open spec fn failed_and_said(
    before: ProxyRuntime,
    after: ProxyRuntime,
    a: StartAction,
    msg: Seq<char>,
    code: ErrorCode,
) -> bool {
    &&& a matches StartAction::Fail(e)
    &&& e.message@ == msg
    &&& e.code == Some(code)
    &&& shows(after, msg, code)
    &&& !after.status.running
    &&& only_status_differs(before, after)
}

/// A core that died or did not come up in time is followed by another attempt as long as the
/// attempts made are no more than the retries, and by the end of the start after that: there are
/// as many attempts as retries and one. The pause is no shorter than the budget's, and nothing is
/// said of a failure that is tried again.
pub proof fn law_a_failed_core_is_tried_again_as_often_as_the_budget_says(
    flow: &mut StartFlow,
    rt: &mut ProxyRuntime,
    killed: Result<(), String>,
    fatal: Option<CoreFatalKind>,
    adapter: &str,
    messages: FixedMessages,
    a: StartAction,
)
    requires
        call_ensures(StartFlow::on_killed, (flow, rt, killed, fatal, adapter, &messages), a),
        killed is Ok,
        old(flow).cause is Some,
        old(flow).cause->0 is Dead || old(flow).cause->0 is Timeout,
    ensures
        old(flow).attempt <= old(flow).budget.max_retries <==> a is Backoff,
        old(flow).attempt > old(flow).budget.max_retries <==> a is Fail,
        a matches StartAction::Backoff(d) ==> {
            &&& d >= old(flow).budget.delay_ms
            &&& !old(flow).budget.exponential_backoff ==> d == old(flow).budget.delay_ms
            &&& final(flow).stage == StartStage::Backoff
            &&& final(flow).attempt == old(flow).attempt
            &&& same_start(*old(flow), *final(flow))
            &&& *final(rt) == *old(rt)
        },
        a is Fail ==> final(flow).stage == StartStage::Over,
        a is Fail && fatal == Some(CoreFatalKind::TunAddressUnavailable) ==> failed_and_said(
            *old(rt),
            *final(rt),
            a,
            messages.tun_address_unavailable@,
            ErrorCode::TunAddressUnavailable,
        ),
        a matches StartAction::Fail(e) ==> (fatal != Some(CoreFatalKind::TunAddressUnavailable)
            ==> e.message@.len() > 0 && failed_and_said(
            *old(rt),
            *final(rt),
            a,
            e.message@,
            ErrorCode::StartupFailed,
        )),
{
    crate::retry::law_backoff_never_shrinks(
        old(flow).budget,
        old(flow).attempt,
        old(flow).attempt,
    );
    if a is Fail {
        assert(final(rt).status@.error is Some);
        reveal_strlit("sing-box 启动期退出");
        reveal_strlit("sing-box 起核超时：管理 API ");
        assert("sing-box 启动期退出"@.len() > 0);
        assert("sing-box 起核超时：管理 API "@.len() > 0);
    }
}

/// A core that could not be stopped ends the start with that error alone. A core whose traffic does
/// not go through the virtual interface, and one whose interface never appeared or comes and goes,
/// end it too, each with its kind; an interface that may still appear is waited for.
pub proof fn law_a_stopped_core_ends_the_start_by_its_cause(
    flow: &mut StartFlow,
    rt: &mut ProxyRuntime,
    killed: Result<(), String>,
    fatal: Option<CoreFatalKind>,
    adapter: &str,
    messages: FixedMessages,
    a: StartAction,
)
    requires
        call_ensures(StartFlow::on_killed, (flow, rt, killed, fatal, adapter, &messages), a),
        old(flow).cause is Some,
    ensures
        killed matches Err(e) ==> {
            &&& a matches StartAction::Fail(x)
            &&& x.message@ == e@
            &&& x.code is None
            &&& *final(rt) == *old(rt)
            &&& final(flow).stage == StartStage::Over
        },
        killed is Ok ==> (old(flow).cause->0 matches KillCause::Route(m) ==> failed_and_said(
            *old(rt),
            *final(rt),
            a,
            m@,
            ErrorCode::TunRouteNotCaptured,
        )),
        killed is Ok && old(flow).cause->0 == KillCause::Adapter(
            AdapterVerdict::TerminalNeverAppeared,
        ) ==> failed_and_said(
            *old(rt),
            *final(rt),
            a,
            messages.tun_adapter_missing@,
            ErrorCode::TunAdapterMissing,
        ),
        killed is Ok && old(flow).cause->0 == KillCause::Adapter(AdapterVerdict::TerminalFlapping)
            ==> a is Fail && failed_and_said(
            *old(rt),
            *final(rt),
            a,
            a->Fail_0.message@,
            ErrorCode::StartupFailed,
        ) && occurs_in(a->Fail_0.message@, adapter@),
        killed is Ok && old(flow).cause->0 == KillCause::Adapter(AdapterVerdict::RetryLeg) ==> {
            &&& a is Backoff
            &&& final(flow).stage == StartStage::Backoff
            &&& final(flow).attempt == old(flow).attempt
            &&& same_start(*old(flow), *final(flow))
            &&& *final(rt) == *old(rt)
        },
        a is Fail ==> final(flow).stage == StartStage::Over,
{
    if a is Fail && killed is Ok {
        assert(final(rt).status@.error is Some);
        if old(flow).cause->0 == KillCause::Adapter(AdapterVerdict::TerminalFlapping) {
            lemma_occurs_between(
                a->Fail_0.message@,
                "TUN 虚拟网卡 "@,
                adapter@,
                " 反复消失（起核期建出后又不见），已重试 "@ + decimal(
                    old(flow).attempt as nat,
                ) + " 次仍失败"@,
            );
        }
    }
}

/// A core that could not be spawned is tried again within the budget unless its message tells of
/// something lasting, and ends the start otherwise with that very message. One that was spawned is
/// waited for, under its number.
pub proof fn law_a_core_that_cannot_be_spawned_is_tried_again(
    flow: &mut StartFlow,
    rt: &mut ProxyRuntime,
    spawned: Result<Option<u32>, String>,
    a: StartAction,
)
    requires
        call_ensures(StartFlow::on_direct_spawned, (flow, rt, spawned), a),
    ensures
        spawned is Ok <==> a is AwaitReady,
        spawned matches Ok(p) ==> {
            &&& final(flow).pid == (match p {
                Some(n) => n,
                None => 0,
            })
            &&& final(flow).stage == StartStage::Ready
            &&& *final(rt) == (ProxyRuntime { pid: Some(final(flow).pid), ..*old(rt) })
        },
        spawned matches Err(e) ==> {
            &&& a is Backoff <==> old(flow).attempt <= old(flow).budget.max_retries
                && !names_lasting_failure(lowercase_of(e@))
            &&& a is Backoff || a is Fail
            &&& a is Backoff ==> *final(rt) == *old(rt) && final(flow).stage == StartStage::Backoff
            &&& a is Fail ==> final(flow).stage == StartStage::Over && failed_and_said(
                *old(rt),
                *final(rt),
                a,
                e@,
                ErrorCode::StartupFailed,
            )
        },
        a !is Fail ==> same_start(*old(flow), *final(flow)) && final(flow).attempt == old(
            flow,
        ).attempt,
{
    if a is Fail {
        assert(final(rt).status@.error is Some);
    }
}

/// What the helper answers decides: its core is waited for under its number, an error is said as it
/// is, and a start that was superseded leaves everything as it is.
pub proof fn law_the_helper_answer_decides(
    flow: &mut StartFlow,
    rt: &mut ProxyRuntime,
    spawned: Result<Option<u32>, String>,
    a: StartAction,
)
    requires
        call_ensures(StartFlow::on_helper_spawned, (flow, rt, spawned), a),
    ensures
        spawned matches Ok(Some(pid)) ==> {
            &&& a is AwaitReady
            &&& final(flow).pid == pid
            &&& final(flow).stage == StartStage::Ready
            &&& same_start(*old(flow), *final(flow))
            &&& final(flow).attempt == old(flow).attempt
            &&& *final(rt) == *old(rt)
        },
        spawned == Ok::<Option<u32>, String>(None) ==> a is Yield && *final(rt) == *old(rt)
            && final(flow).stage == StartStage::Over,
        spawned matches Err(e) ==> final(flow).stage == StartStage::Over && failed_and_said(
            *old(rt),
            *final(rt),
            a,
            e@,
            ErrorCode::StartupFailed,
        ),
{
    if a is Fail {
        assert(final(rt).status@.error is Some);
    }
}

/// Attempts are counted one by one, and one begins exactly where the pause was not interrupted and
/// no other operation has taken over.
pub proof fn law_attempts_are_counted_one_by_one(
    first: &mut StartFlow,
    later: &mut StartFlow,
    rt: ProxyRuntime,
    interrupted: bool,
    a: StartAction,
    b: StartAction,
)
    requires
        old(first).attempt < u32::MAX,
        old(later).attempt < u32::MAX,
        call_ensures(StartFlow::on_prestarted, (first, &rt), a),
        call_ensures(StartFlow::on_backoff, (later, &rt, interrupted), b),
    ensures
        final(first).attempt == old(first).attempt + 1,
        a is Generate <==> rt.generation == old(first).my_gen,
        a is Yield <==> rt.generation != old(first).my_gen,
        final(first).stage == (if a is Generate {
            StartStage::Generate
        } else {
            StartStage::Over
        }),
        same_start(*old(first), *final(first)),
        b is Generate <==> !interrupted && rt.generation == old(later).my_gen,
        b is Yield <==> interrupted || rt.generation != old(later).my_gen,
        b is Generate ==> final(later).attempt == old(later).attempt + 1,
        final(later).stage == (if b is Generate {
            StartStage::Generate
        } else {
            StartStage::Over
        }),
        same_start(*old(later), *final(later)),
{
}

/// A start that could not be completed begins again as often as its budget allows and no more: as
/// long as attempts fail one after the other, the one behind attempt `n` is attempt `n + 1`, it is
/// made exactly where `n` is no more than the retries, and so the last is the retries and one.
pub proof fn law_the_last_attempt_is_the_retries_and_one(
    killing: &mut StartFlow,
    pausing: &mut StartFlow,
    rt: &mut ProxyRuntime,
    rt_later: ProxyRuntime,
    fatal: Option<CoreFatalKind>,
    adapter: &str,
    messages: FixedMessages,
    a: StartAction,
    b: StartAction,
)
    requires
        old(killing).cause is Some,
        old(killing).cause->0 is Dead || old(killing).cause->0 is Timeout,
        old(killing).attempt < u32::MAX,
        call_ensures(
            StartFlow::on_killed,
            (killing, rt, Ok::<(), String>(()), fatal, adapter, &messages),
            a,
        ),
        a is Backoff ==> *old(pausing) == *final(killing),
        a is Backoff ==> call_ensures(StartFlow::on_backoff, (pausing, &rt_later, false), b),
        rt_later.generation == old(killing).my_gen,
    ensures
        old(killing).attempt <= old(killing).budget.max_retries ==> b is Generate && final(pausing).attempt == old(killing).attempt + 1 && final(pausing).attempt <= old(
            killing,
        ).budget.max_retries + 1 && final(pausing).budget == old(killing).budget,
        old(killing).attempt == old(killing).budget.max_retries + 1 ==> a is Fail,
{
}

/// A configuration that cannot be read, and one that binds to an interface that is not there, end
/// the start before anything was done; any other goes on with what was found of it.
pub proof fn law_what_is_found_before_a_start(
    flow: &mut StartFlow,
    rt: &mut ProxyRuntime,
    p: Preflight,
    a: StartAction,
)
    requires
        call_ensures(StartFlow::on_preflight, (flow, rt, p), a),
    ensures
        p matches Preflight::Unreadable(e) ==> {
            &&& a matches StartAction::Fail(x)
            &&& x.code is None
            &&& occurs_in(x.message@, e@)
            &&& *final(rt) == *old(rt)
        },
        p matches Preflight::Unbound(m) ==> failed_and_said(
            *old(rt),
            *final(rt),
            a,
            m@,
            ErrorCode::OutboundInterfaceUnavailable,
        ),
        p matches Preflight::Passed { via_helper, budget } ==> {
            &&& a is RunHelperGate
            &&& final(flow).via_helper == via_helper
            &&& final(flow).budget == budget
            &&& final(flow).my_gen == old(flow).my_gen
            &&& final(flow).attempt == old(flow).attempt
            &&& final(flow).stage == StartStage::HelperGate
            &&& *final(rt) == *old(rt)
        },
        a is Fail ==> final(flow).stage == StartStage::Over,
{
    if p is Unbound {
        assert(final(rt).status@.error is Some);
    }
    if let Preflight::Unreadable(e) = p {
        lemma_occurs_between(
            a->Fail_0.message@,
            "配置解析失败（UserConfig）: "@,
            e@,
            Seq::empty(),
        );
    }
}

/// A start for a generation that is over does not begin, and one that begins has made no attempt.
pub proof fn law_a_start_begins_for_its_generation(
    rt: ProxyRuntime,
    my_gen: u64,
    r: (StartFlow, StartAction),
)
    requires
        call_ensures(StartFlow::begin, (&rt, my_gen), r),
    ensures
        r.1 is Preflight <==> rt.generation == my_gen,
        r.1 is Yield <==> rt.generation != my_gen,
        r.0.my_gen == my_gen,
        r.0.attempt == 0,
        !r.0.adapter_seen,
{
}

/// A step that is refused ends the start with the error as it is, and one that is passed leads to
/// the next step with nothing else changed.
pub proof fn law_the_steps_before_the_first_attempt(
    gate: &mut StartFlow,
    files: &mut StartFlow,
    verdict: Result<(), StartError>,
    made: Result<(), (String, String)>,
    rt: ProxyRuntime,
    a: StartAction,
    b: StartAction,
)
    requires
        call_ensures(StartFlow::on_helper_gate, (gate, verdict), a),
        call_ensures(StartFlow::on_prepared, (files, &rt, made), b),
    ensures
        verdict is Ok ==> a is PrepareFiles && *final(gate) == (StartFlow {
            stage: StartStage::Prepare,
            ..*old(gate)
        }),
        verdict matches Err(e) ==> a == StartAction::Fail(e),
        made is Ok ==> b is Prestart && *final(files) == (StartFlow {
            stage: StartStage::Prestart,
            ..*old(files)
        }),
        made matches Err(e) ==> {
            &&& b matches StartAction::Fail(x)
            &&& x.code is None
            &&& occurs_in(x.message@, e.0@)
            &&& occurs_in(x.message@, e.1@)
        },
{
    if let Err(e) = made {
        let m = b->Fail_0.message@;
        lemma_occurs_between(m, "创建配置目录失败 "@, e.0@, ": "@ + e.1@);
        lemma_occurs_between(m, "创建配置目录失败 "@ + e.0@ + ": "@, e.1@, Seq::empty());
    }
}

/// A configuration that cannot be generated ends the start with that error alone; a selected node
/// that the core rejects ends it with a message that names the node and what the core said.
pub proof fn law_what_is_generated_decides(
    flow: &mut StartFlow,
    rt: &mut ProxyRuntime,
    g: Generated,
    a: StartAction,
)
    requires
        call_ensures(StartFlow::on_generated, (flow, rt, g), a),
    ensures
        g is Passed <==> a is CheckBindings,
        g is Passed ==> *final(rt) == *old(rt) && *final(flow) == (StartFlow {
            stage: StartStage::Bindings,
            ..*old(flow)
        }),
        g matches Generated::Failed(e) ==> {
            &&& a matches StartAction::Fail(x)
            &&& x.message@ == e@
            &&& x.code is None
            &&& *final(rt) == *old(rt)
        },
        g matches Generated::Blocked { tag, detail } ==> {
            &&& a is Fail
            &&& occurs_in(a->Fail_0.message@, tag@)
            &&& occurs_in(a->Fail_0.message@, detail@)
            &&& failed_and_said(
                *old(rt),
                *final(rt),
                a,
                a->Fail_0.message@,
                ErrorCode::StartupFailed,
            )
        },
        a is Fail ==> final(flow).stage == StartStage::Over,
{
    if let Generated::Blocked { tag, detail } = g {
        assert(final(rt).status@.error is Some);
        let m = a->Fail_0.message@;
        let middle = "」被 sing-box 内核拒收，已跳过起核（请修正该节点或改选其他节点）："@;
        lemma_occurs_between(m, "选中的节点「"@, tag@, middle + detail@);
        lemma_occurs_between(m, "选中的节点「"@ + tag@ + middle, detail@, Seq::empty());
    }
}

/// A configuration that had to be generated again because interfaces are gone costs no attempt.
pub proof fn law_a_lost_binding_costs_no_attempt(
    flow: &mut StartFlow,
    rt: ProxyRuntime,
    removed: usize,
    a: StartAction,
)
    requires
        old(flow).attempt >= 1,
        call_ensures(StartFlow::on_bindings, (flow, &rt, removed), a),
    ensures
        final(flow).attempt == old(flow).attempt,
        same_start(*old(flow), *final(flow)),
        a is FindBinary <==> removed == 0,
        a is Generate <==> removed > 0 && rt.generation == old(flow).my_gen,
        a is Yield <==> removed > 0 && rt.generation != old(flow).my_gen,
        a is FindBinary ==> final(flow).stage == StartStage::Binary,
        a is Generate ==> final(flow).stage == StartStage::Generate,
        a is Yield ==> final(flow).stage == StartStage::Over,
{
}

/// A core is spawned by the one who is to spawn it, and the runtime's own not for a start that was
/// superseded.
pub proof fn law_who_spawns_the_core(
    flow: &mut StartFlow,
    rt: &mut ProxyRuntime,
    found: Result<(), String>,
    a: StartAction,
)
    requires
        call_ensures(StartFlow::on_binary, (flow, rt, found), a),
    ensures
        a is SpawnViaHelper <==> found is Ok && old(flow).via_helper,
        a is SpawnDirect <==> found is Ok && !old(flow).via_helper && old(rt).generation == old(
            flow,
        ).my_gen,
        a is Yield <==> found is Ok && !old(flow).via_helper && old(rt).generation != old(
            flow,
        ).my_gen,
        found matches Err(e) ==> {
            &&& a matches StartAction::Fail(x)
            &&& x.message@ == e@
            &&& x.code is None
            &&& *final(rt) == *old(rt)
        },
        a is SpawnDirect ==> !final(rt).core_via_helper,
        a is SpawnViaHelper ==> *final(rt) == *old(rt),
        a is SpawnViaHelper || a is SpawnDirect ==> *final(flow) == (StartFlow {
            stage: StartStage::Spawn,
            ..*old(flow)
        }),
{
}

/// A core that came up goes on to be checked; one that died or took too long is stopped for that
/// very reason, unless another operation took it down.
pub proof fn law_how_waiting_for_the_core_ends(
    flow: &mut StartFlow,
    rt: ProxyRuntime,
    outcome: ReadyOutcome,
    a: StartAction,
)
    requires
        call_ensures(StartFlow::on_ready, (flow, &rt, outcome), a),
    ensures
        a is ProbeAdapter <==> outcome is Ready,
        a is KillCore <==> (outcome is Dead || outcome is Timeout) && rt.generation == old(
            flow,
        ).my_gen,
        a is Yield <==> outcome is Superseded || ((outcome is Dead || outcome is Timeout)
            && rt.generation != old(flow).my_gen),
        a is KillCore && outcome is Dead ==> final(flow).cause == Some(KillCause::Dead),
        a is KillCore ==> (outcome matches ReadyOutcome::Timeout {
            api_port,
            units,
            naive,
            budget_ms,
            estimate_ms,
            per_naive_ms,
        } ==> final(flow).cause == Some(
            KillCause::Timeout { api_port, units, naive, budget_ms, estimate_ms, per_naive_ms },
        )),
        a is KillCore ==> final(flow).stage == StartStage::Kill,
        a is ProbeAdapter ==> final(flow).stage == StartStage::AdapterProbe,
        a is Yield ==> final(flow).stage == StartStage::Over,
        final(flow).attempt == old(flow).attempt,
        final(flow).pid == old(flow).pid,
        same_start(*old(flow), *final(flow)),
{
}

/// A virtual interface that was seen once counts as seen for the whole start, and only what was
/// judged to be in order goes on.
pub proof fn law_the_virtual_interface_is_judged(
    probing: &mut StartFlow,
    judging: &mut StartFlow,
    present: bool,
    rt: ProxyRuntime,
    verdict: AdapterVerdict,
    a: StartAction,
    b: StartAction,
)
    requires
        call_ensures(StartFlow::on_adapter_probed, (probing, present), a),
        call_ensures(StartFlow::on_adapter_verdict, (judging, &rt, verdict), b),
    ensures
        a is JudgeAdapter,
        final(probing).adapter_seen <==> old(probing).adapter_seen || present,
        final(probing).attempt == old(probing).attempt,
        final(probing).budget == old(probing).budget,
        b is Yield <==> rt.generation != old(judging).my_gen,
        b is VerifyRoute <==> rt.generation == old(judging).my_gen && verdict
            == AdapterVerdict::Proceed,
        b is KillCore <==> rt.generation == old(judging).my_gen && verdict
            != AdapterVerdict::Proceed,
        b is KillCore ==> final(judging).cause == Some(KillCause::Adapter(verdict)),
        final(judging).attempt == old(judging).attempt,
        same_start(*old(judging), *final(judging)),
{
}

/// Traffic that goes through the virtual interface lets the session be written down; traffic that
/// does not has the core stopped for that, unless another operation took over.
pub proof fn law_the_route_is_the_last_check(
    flow: &mut StartFlow,
    rt: ProxyRuntime,
    captured: Result<(), String>,
    a: StartAction,
)
    requires
        call_ensures(StartFlow::on_route, (flow, &rt, captured), a),
    ensures
        a is Commit <==> captured is Ok,
        a is KillCore <==> captured is Err && rt.generation == old(flow).my_gen,
        a is Yield <==> captured is Err && rt.generation != old(flow).my_gen,
        a is KillCore ==> (captured matches Err(m) ==> final(flow).cause == Some(
            KillCause::Route(m),
        )),
        final(flow).attempt == old(flow).attempt,
        same_start(*old(flow), *final(flow)),
{
}

/// A session that is written down runs the core that was started, since now, at its ports, and
/// without an error; what it was started with counts as applied, as the start's and for switching,
/// and nothing waits.
pub proof fn law_a_session_is_what_was_started(
    flow: &mut StartFlow,
    rt: &mut ProxyRuntime,
    now_ms: u64,
    ports: SessionPorts,
    config: Json,
    snapshot: SwitchSnapshot,
    r: ProxyStatus,
)
    requires
        call_ensures(StartFlow::commit, (flow, rt, now_ms, ports, config, snapshot), r),
    ensures
        final(rt).status.running,
        !final(rt).status.starting,
        final(rt).status.pid == old(flow).pid,
        final(rt).status.start_time == Some(now_ms),
        final(rt).status.mixed_port == ports.mixed_port,
        final(rt).status.clash_api_port == ports.api_port,
        final(rt).status.update_in_port == ports.update_in_port,
        final(rt).status.subscription_update_in_port == ports.subscription_update_in_port,
        final(rt).status.started_via_helper == old(flow).via_helper,
        final(rt).status.error is None,
        final(rt).status.error_code is None,
        r.running && r.pid == old(flow).pid && r.start_time == Some(now_ms),
        r.error is None && r.error_code is None,
        r.clash_api_port == ports.api_port && r.mixed_port == ports.mixed_port,
        final(rt).startup_snapshot == Some(config),
        final(rt).current_config matches Some(c) && c@ == config@,
        final(rt).switch_snapshot == Some(snapshot),
        !final(rt).restart_deferred,
        final(rt).generation == old(rt).generation,
        final(rt).pid == old(rt).pid,
        final(rt).core_via_helper == old(rt).core_via_helper,
        final(flow).stage == StartStage::Running,
{
    assert(final(rt).status@.pid == final(rt).status.pid);
    assert(r@.pid == r.pid);
}

/// What goes along with a session: name resolution is taken over exactly for a core that takes over
/// all traffic where the user did not decline, and the nodes of each protocol that is followed are.
pub proof fn law_what_goes_along_with_a_session(
    is_tun: bool,
    takeover: Option<bool>,
    protocols: Vec<Protocol>,
    r: SessionTasks,
    i: int,
)
    requires
        call_ensures(session_tasks, (is_tun, takeover, &protocols), r),
    ensures
        r.take_over_dns ==> is_tun && takeover != Some(false),
        is_tun && (takeover is None || takeover == Some(true)) ==> r.take_over_dns,
        0 <= i < protocols@.len() ==> {
            &&& protocols@[i] == Protocol::Tailscale ==> r.relay_tailscale
            &&& protocols@[i] == Protocol::Openconnect ==> r.relay_openconnect
            &&& protocols@[i] == Protocol::OpenvpnClient ==> r.relay_openvpn
        },
        r.relay_tailscale ==> exists|k: int|
            0 <= k < protocols@.len() && protocols@[k] == Protocol::Tailscale,
        r.relay_openconnect ==> exists|k: int|
            0 <= k < protocols@.len() && protocols@[k] == Protocol::Openconnect,
        r.relay_openvpn ==> exists|k: int|
            0 <= k < protocols@.len() && protocols@[k] == Protocol::OpenvpnClient,
        r.endpoint_map <==> r.relay_tailscale || r.relay_openconnect || r.relay_openvpn,
{
}

/// Interfaces are looked at again exactly where nodes are bound to one, and those that are missing
/// then are said in the words that were found, while the session goes on.
pub proof fn law_missing_interfaces_are_said(
    inferred: usize,
    explicit: usize,
    again: bool,
    rt: &mut ProxyRuntime,
    diagnostic: Option<&str>,
)
    requires
        call_ensures(look_at_interfaces_again, (inferred, explicit), again),
        call_ensures(ProxyRuntime::note_unavailable_interfaces, (rt, diagnostic), ()),
    ensures
        !again <==> inferred == 0 && explicit == 0,
        diagnostic is None ==> *final(rt) == *old(rt),
        diagnostic matches Some(m) ==> {
            &&& crate::runtime::shows(*final(rt), m@, ErrorCode::OutboundInterfaceUnavailable)
            &&& crate::runtime::same_session(old(rt).status, final(rt).status)
            &&& crate::runtime::only_status_differs(*old(rt), *final(rt))
        },
{
    assert(final(rt).status@.pid == final(rt).status.pid && old(rt).status@.pid == old(
        rt,
    ).status.pid);
    assert(final(rt).status@.error == crate::text::opt_view(final(rt).status.error));
}

} // verus!
