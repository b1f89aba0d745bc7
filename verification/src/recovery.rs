//! Watching the core, and bringing it back after it ended on its own.

use vstd::prelude::*;

use crate::json::Json;
use crate::peel::opt_str_view;
use crate::process::{identity_verdict, pid_identity_verdict, PidIdentity};
use crate::runtime::{failed_status, only_status_differs, ProxyRuntime};
use crate::status::{ErrorCode, StartError};
use crate::text::{
    contains_text, decimal, decimal_text, lemma_occurs_between, lowercase, lowercase_of, occurs_at,
    occurs_in, opt_view,
};

verus! {

/// The pause between two looks at the core.
pub const CRASH_MONITOR_POLL_MS: u64 = 1000;

/// Every so many looks it is checked that the process is still the same one.
pub const PID_IDENTITY_RECHECK_TICKS: u64 = 10;

/// What was seen of the core.
#[derive(Clone, Copy, PartialEq, Eq, Structural, Debug)]
pub enum ChildObservation {
    Alive,
    Exited,
    /// There is no process on the books.
    Absent,
}

/// The process that the runtime holds itself.
#[derive(Clone, Copy, PartialEq, Eq, Structural, Debug)]
pub enum ChildState {
    Missing,
    Running,
    /// It has ended, or cannot be asked.
    Ended,
}

/// What the helper answers about the core that it manages.
#[derive(Clone, Copy, PartialEq, Eq, Structural, Debug)]
pub enum HelperAnswer {
    Stopped,
    Running { pid: u32, created: Option<u64> },
    /// It does not answer.
    Unavailable,
}

/// What follows a look at the process itself.
#[derive(Clone, Copy, PartialEq, Eq, Structural, Debug)]
pub enum WatchStep {
    Seen(ChildObservation),
    /// The process says too little: ask the helper.
    AskHelper,
}

/// What a watch over the core remembers.
pub struct CrashWatch {
    /// The process and the identity that it had when it was first seen.
    pub identity: Option<(u32, String)>,
    /// The process and the identity that the helper gave it last.
    pub helper_identity: Option<(u32, String)>,
    pub ticks: u64,
}

/// A process and its identity.
pub open spec fn identity_view(i: Option<(u32, String)>) -> Option<(u32, Seq<char>)> {
    match i {
        Some(p) => Some((p.0, p.1@)),
        None => None,
    }
}

/// The identity that the helper gives a process by its time of creation.
pub open spec fn created_token(created: Option<u64>) -> Option<Seq<char>> {
    match created {
        Some(t) => Some(decimal(t as nat)),
        None => None,
    }
}

/// The identity that the helper gives a process by its time of creation.
pub fn helper_identity_token(created: Option<u64>) -> (r: Option<String>)
    ensures
        opt_view(r) == created_token(created),
{
    match created {
        Some(t) => Some(decimal_text(t)),
        None => None,
    }
}

/// The identity that counts as the process's own: the one from before, where it is of the same
/// process, and the one that is read now otherwise.
pub open spec fn baseline_after(
    identity: Option<(u32, Seq<char>)>,
    pid: u32,
    read: Option<Seq<char>>,
) -> Option<(u32, Seq<char>)> {
    if identity is Some && (identity->0).0 == pid {
        identity
    } else {
        match read {
            Some(t) => Some((pid, t)),
            None => None,
        }
    }
}

/// What a look at the process itself says. Every tenth look compares its identity.
pub open spec fn local_step(
    ticks: u64,
    pid: Option<u32>,
    alive: bool,
    baseline: Option<(u32, Seq<char>)>,
    recheck: Option<Seq<char>>,
) -> WatchStep {
    if pid is None {
        WatchStep::Seen(ChildObservation::Absent)
    } else if !alive {
        WatchStep::Seen(ChildObservation::Exited)
    } else {
        let token = match baseline {
            Some(b) => Some(b.1),
            None => None,
        };
        let verdict = if ticks % PID_IDENTITY_RECHECK_TICKS == 0 {
            identity_verdict(token, recheck)
        } else {
            PidIdentity::Match
        };
        if verdict == PidIdentity::Mismatch {
            WatchStep::Seen(ChildObservation::Exited)
        } else if baseline is None || verdict == PidIdentity::Unobservable {
            WatchStep::AskHelper
        } else {
            WatchStep::Seen(ChildObservation::Alive)
        }
    }
}

/// What the helper's answer says about the process `pid`.
pub open spec fn helper_observation(
    known: Option<(u32, Seq<char>)>,
    pid: u32,
    answer: HelperAnswer,
) -> ChildObservation {
    match answer {
        HelperAnswer::Stopped => ChildObservation::Exited,
        HelperAnswer::Unavailable => ChildObservation::Alive,
        HelperAnswer::Running { pid: p, created } => if p != pid {
            ChildObservation::Exited
        } else {
            let base = if known is Some && (known->0).0 == pid {
                Some((known->0).1)
            } else {
                None
            };
            if identity_verdict(base, created_token(created)) == PidIdentity::Mismatch {
                ChildObservation::Exited
            } else {
                ChildObservation::Alive
            }
        },
    }
}

impl CrashWatch {
    /// A watch begins. `started` is the process that the helper started last and its time of
    /// creation.
    pub fn begin(started: Option<(u32, u64)>) -> (r: Self)
        ensures
            r.identity is None,
            r.ticks == 0,
            identity_view(r.helper_identity) == (match started {
                Some(s) => Some((s.0, decimal(s.1 as nat))),
                None => None,
            }),
    {
        let helper_identity = match started {
            Some(s) => Some((s.0, decimal_text(s.1))),
            None => None,
        };
        CrashWatch { identity: None, helper_identity, ticks: 0 }
    }

    /// Another look is due.
    pub fn tick(&mut self)
        requires
            old(self).ticks < u64::MAX,
        ensures
            *final(self) == (CrashWatch { ticks: (old(self).ticks + 1) as u64, ..*old(self) }),
    {
        self.ticks = self.ticks + 1;
    }

    /// A look at the process of a core that the helper manages. `read` is its identity as it was
    /// read for this look, and `recheck` as it was read for the comparison.
    pub fn observe_local(
        &mut self,
        pid: Option<u32>,
        alive: bool,
        read: Option<String>,
        recheck: Option<&str>,
    ) -> (r: WatchStep)
        ensures
            final(self).ticks == old(self).ticks,
            final(self).helper_identity == old(self).helper_identity,
            identity_view(final(self).identity) == (match pid {
                Some(p) if alive => baseline_after(
                    identity_view(old(self).identity),
                    p,
                    opt_view(read),
                ),
                _ => identity_view(old(self).identity),
            }),
            r == local_step(
                old(self).ticks,
                pid,
                alive,
                identity_view(final(self).identity),
                opt_str_view(recheck),
            ),
    {
        let p = match pid {
            Some(p) => p,
            None => {
                return WatchStep::Seen(ChildObservation::Absent);
            },
        };
        if !alive {
            return WatchStep::Seen(ChildObservation::Exited);
        }
        let fresh = match &self.identity {
            Some(b) => b.0 != p,
            None => true,
        };
        if fresh {
            self.identity = match read {
                Some(t) => Some((p, t)),
                None => None,
            };
        }
        let due = self.ticks % PID_IDENTITY_RECHECK_TICKS == 0;
        let verdict = if due {
            let base: Option<&str> = match &self.identity {
                Some(b) => Some(b.1.as_str()),
                None => None,
            };
            pid_identity_verdict(base, recheck)
        } else {
            PidIdentity::Match
        };
        if verdict == PidIdentity::Mismatch {
            return WatchStep::Seen(ChildObservation::Exited);
        }
        if self.identity.is_none() || verdict == PidIdentity::Unobservable {
            return WatchStep::AskHelper;
        }
        WatchStep::Seen(ChildObservation::Alive)
    }

    /// The helper was asked about the process `pid`. What it says of the identity is remembered.
    pub fn observe_helper(&mut self, pid: u32, answer: HelperAnswer) -> (r: ChildObservation)
        ensures
            final(self).ticks == old(self).ticks,
            final(self).identity == old(self).identity,
            r == helper_observation(identity_view(old(self).helper_identity), pid, answer),
            identity_view(final(self).helper_identity) == (match answer {
                HelperAnswer::Running { pid: p, created: Some(t) } if p == pid => Some(
                    (pid, decimal(t as nat)),
                ),
                _ => identity_view(old(self).helper_identity),
            }),
    {
        match answer {
            HelperAnswer::Stopped => ChildObservation::Exited,
            HelperAnswer::Unavailable => ChildObservation::Alive,
            HelperAnswer::Running { pid: p, created } => {
                if p != pid {
                    return ChildObservation::Exited;
                }
                let token = helper_identity_token(created);
                let verdict = {
                    let base: Option<&str> = match &self.helper_identity {
                        Some(b) => if b.0 == pid {
                            Some(b.1.as_str())
                        } else {
                            None
                        },
                        None => None,
                    };
                    let now: Option<&str> = match &token {
                        Some(t) => Some(t.as_str()),
                        None => None,
                    };
                    pid_identity_verdict(base, now)
                };
                if let Some(t) = token {
                    self.helper_identity = Some((pid, t));
                }
                if verdict == PidIdentity::Mismatch {
                    ChildObservation::Exited
                } else {
                    ChildObservation::Alive
                }
            },
        }
    }
}

/// A look at a core that the runtime spawned itself.
pub fn observe_child(child: ChildState) -> (r: ChildObservation)
    ensures
        r == (match child {
            ChildState::Missing => ChildObservation::Absent,
            ChildState::Running => ChildObservation::Alive,
            ChildState::Ended => ChildObservation::Exited,
        }),
{
    match child {
        ChildState::Missing => ChildObservation::Absent,
        ChildState::Running => ChildObservation::Alive,
        ChildState::Ended => ChildObservation::Exited,
    }
}

/// A process that answers and whose identity nobody can tell is taken to be alive: not knowing is
/// no evidence of a crash.
pub proof fn law_not_knowing_is_no_crash(
    ticks: u64,
    pid: u32,
    known: Option<(u32, Seq<char>)>,
    answer: HelperAnswer,
)
    requires
        answer is Unavailable || answer == (HelperAnswer::Running { pid, created: None }),
    ensures
        local_step(ticks, Some(pid), true, None, None) == WatchStep::AskHelper,
        helper_observation(known, pid, answer) == ChildObservation::Alive,
{
}

/// A number that was given to another process does not keep a crash from being found: at the next
/// comparison the identities differ, and the core counts as ended.
pub proof fn law_a_reused_number_is_found(
    ticks: u64,
    pid: u32,
    was: Seq<char>,
    is_now: Seq<char>,
)
    requires
        ticks % PID_IDENTITY_RECHECK_TICKS == 0,
        was != is_now,
    ensures
        local_step(ticks, Some(pid), true, Some((pid, was)), Some(is_now)) == WatchStep::Seen(
            ChildObservation::Exited,
        ),
{
}

/// What is decided about a crash.
#[derive(Clone, Copy, PartialEq, Eq, Structural, Debug)]
pub enum AutoRestartOutcome {
    GiveUp,
    /// It is being dealt with already.
    Dedup,
    AbortedByUser,
    Attempt { backoff_ms: u64 },
}

/// What is decided after the pause.
#[derive(Clone, Copy, PartialEq, Eq, Structural, Debug)]
pub enum RestartFate {
    AbortedByUser,
    /// Another operation took over; `replay` says that its core crashed too.
    Superseded { replay: bool },
    Start,
}

/// What the recovery does next.
#[derive(Clone, Copy, PartialEq, Eq, Structural, Debug)]
pub enum RecoveryNext {
    End,
    /// Have the crash decided on.
    Decide,
    Pause(u64),
    Restart,
    /// Note whether the restart was superseded, and end.
    NoteStart { superseded: bool },
    /// Note that the restart failed, and whether trying again could help.
    NoteFailure { unrecoverable: bool },
}

/// A message, in lower case, of a failure that restarting does not mend.
pub open spec fn names_unrecoverable(lower: Seq<char>) -> bool {
    ||| occurs_in(lower, "权限"@)
    ||| occurs_in(lower, "permission"@)
    ||| occurs_in(lower, "helper_gate_aborted"@)
    ||| occurs_in(lower, "提权助手不可用"@)
    ||| occurs_in(lower, "提权助手引导"@)
    ||| occurs_in(lower, "root_orphan_blocked"@)
    ||| occurs_in(lower, "root 残留"@)
    ||| occurs_in(lower, "clash_api_port_busy"@)
    ||| occurs_in(lower, "clash_api 端口"@)
}

/// Is a message, in lower case, of a failure that restarting does not mend?
pub fn unrecoverable(lower: &str) -> (r: bool)
    ensures
        r == names_unrecoverable(lower@),
{
    contains_text(lower, "权限") || contains_text(lower, "permission") || contains_text(
        lower,
        "helper_gate_aborted",
    ) || contains_text(lower, "提权助手不可用") || contains_text(lower, "提权助手引导")
        || contains_text(lower, "root_orphan_blocked") || contains_text(lower, "root 残留")
        || contains_text(lower, "clash_api_port_busy") || contains_text(lower, "clash_api 端口")
}

/// Is this the message of a failure that restarting does not mend?
pub fn is_unrecoverable_restart_message(message: &str) -> (r: bool)
    ensures
        r == names_unrecoverable(lowercase_of(message@)),
{
    let lower = lowercase(message);
    unrecoverable(lower.as_str())
}

/// The error is one that restarting does not mend, by its kind or by its message.
pub open spec fn is_terminal(e: StartError) -> bool {
    ||| e@.code == Some(ErrorCode::HelperGateAborted)
    ||| e@.code == Some(ErrorCode::HelperNotInstalled)
    ||| names_unrecoverable(lowercase_of(e@.message))
}

/// Is this an error that restarting does not mend?
pub fn is_unrecoverable_restart_error(err: &StartError) -> (r: bool)
    ensures
        r == is_terminal(*err),
{
    let coded = match err.code {
        Some(c) => c == ErrorCode::HelperGateAborted || c == ErrorCode::HelperNotInstalled,
        None => false,
    };
    coded || is_unrecoverable_restart_message(err.message.as_str())
}

/// The runtime has failed with `msg`.
pub open spec fn failed_as(
    before: ProxyRuntime,
    after: ProxyRuntime,
    msg: Seq<char>,
    code: ErrorCode,
) -> bool {
    &&& after.status@ == failed_status(msg, code)
    &&& after == (ProxyRuntime { status: after.status, ..before })
}

impl ProxyRuntime {
    /// The core ended on its own. The configuration that it is brought back with: the applied one,
    /// or else the saved one. Without one it stays down, and that is said.
    pub fn recovery_config(&mut self, saved: Option<Json>) -> (r: Option<Json>)
        ensures
            match old(self).current_config {
                Some(c) => r matches Some(d) && d@ == c@ && *final(self) == *old(self),
                None => {
                    &&& r == saved
                    &&& if saved is Some {
                        *final(self) == *old(self)
                    } else {
                        failed_as(
                            *old(self),
                            *final(self),
                            "sing-box 意外退出，且无可用配置重启 → 放弃自愈"@,
                            ErrorCode::ProcessExited,
                        )
                    }
                },
            },
    {
        if let Some(c) = &self.current_config {
            return Some(c.clone());
        }
        if saved.is_none() {
            self.set_error(
                "sing-box 意外退出，且无可用配置重启 → 放弃自愈",
                ErrorCode::ProcessExited,
            );
        }
        saved
    }

    /// It was decided what is done about the crash. What is said when it is given up depends on
    /// whether restarts are suppressed, which they are while a new core is being tried out.
    pub fn recovery_decided(&mut self, outcome: AutoRestartOutcome) -> (r: RecoveryNext)
        ensures
            match outcome {
                AutoRestartOutcome::GiveUp => {
                    &&& r == RecoveryNext::End
                    &&& failed_as(
                        *old(self),
                        *final(self),
                        if old(self).auto_restart_suppressed {
                            "新内核首次运行即异常退出（换核验证窗口内不自动重启）→ 将尝试回滚到原内核"@
                        } else {
                            "sing-box 反复崩溃，已达自愈上限（3 次/60s）→ 放弃自动重启"@
                        },
                        ErrorCode::AutoRestartFailed,
                    )
                },
                AutoRestartOutcome::Attempt { backoff_ms } => r == RecoveryNext::Pause(backoff_ms)
                    && *final(self) == *old(self),
                _ => r == RecoveryNext::End && *final(self) == *old(self),
            },
    {
        match outcome {
            AutoRestartOutcome::GiveUp => {
                let msg = if self.auto_restart_suppressed {
                    "新内核首次运行即异常退出（换核验证窗口内不自动重启）→ 将尝试回滚到原内核"
                } else {
                    "sing-box 反复崩溃，已达自愈上限（3 次/60s）→ 放弃自动重启"
                };
                self.set_error(msg, ErrorCode::AutoRestartFailed);
                RecoveryNext::End
            },
            AutoRestartOutcome::Attempt { backoff_ms } => RecoveryNext::Pause(backoff_ms),
            _ => RecoveryNext::End,
        }
    }

    /// The pause is over.
    pub fn recovery_fate(fate: RestartFate) -> (r: RecoveryNext)
        ensures
            r == (match fate {
                RestartFate::AbortedByUser => RecoveryNext::End,
                RestartFate::Superseded { replay } => if replay {
                    RecoveryNext::Decide
                } else {
                    RecoveryNext::End
                },
                RestartFate::Start => RecoveryNext::Restart,
            }),
    {
        match fate {
            RestartFate::AbortedByUser => RecoveryNext::End,
            RestartFate::Superseded { replay } => if replay {
                RecoveryNext::Decide
            } else {
                RecoveryNext::End
            },
            RestartFate::Start => RecoveryNext::Restart,
        }
    }

    /// The restart ended: with a core that runs, without one because another operation took over,
    /// or with an error.
    pub fn recovery_restarted(result: Result<bool, &StartError>) -> (r: RecoveryNext)
        ensures
            r == (match result {
                Ok(running) => RecoveryNext::NoteStart { superseded: !running },
                Err(e) => RecoveryNext::NoteFailure { unrecoverable: is_terminal(*e) },
            }),
    {
        match result {
            Ok(running) => RecoveryNext::NoteStart { superseded: !running },
            Err(e) => RecoveryNext::NoteFailure { unrecoverable: is_unrecoverable_restart_error(e) },
        }
    }

    /// The failure of the restart was noted, and it is given up or tried again.
    pub fn recovery_failed(&mut self, give_up: bool, e: &StartError) -> (r: RecoveryNext)
        ensures
            !give_up ==> r == RecoveryNext::Decide && *final(self) == *old(self),
            give_up ==> r == RecoveryNext::End && gives_up_with(*old(self), *final(self), *e),
    {
        if !give_up {
            return RecoveryNext::Decide;
        }
        self.report_auto_restart_giveup(e);
        RecoveryNext::End
    }

    /// Bringing the core back is given up. An error that has a kind of its own has been said
    /// already and is not covered by another.
    pub fn report_auto_restart_giveup(&mut self, e: &StartError)
        ensures
            gives_up_with(*old(self), *final(self), *e),
    {
        if e.code.is_some() {
            return;
        }
        let msg = "sing-box 崩溃自愈重启失败且达上限 → 放弃：".to_owned().concat(
            e.message.as_str(),
        );
        self.set_error(msg.as_str(), ErrorCode::AutoRestartFailed);
    }
}

/// Bringing the core back was given up because of this error.
pub open spec fn gives_up_with(before: ProxyRuntime, after: ProxyRuntime, e: StartError) -> bool {
    if e@.code is Some {
        after == before
    } else {
        failed_as(
            before,
            after,
            "sing-box 崩溃自愈重启失败且达上限 → 放弃："@ + e@.message,
            ErrorCode::AutoRestartFailed,
        )
    }
}

/// An error that names its kind is never hidden behind the general one about automatic restarts.
pub proof fn law_a_named_failure_stays_on_display(
    before: ProxyRuntime,
    after: ProxyRuntime,
    e: StartError,
)
    requires
        gives_up_with(before, after, e),
        e@.code is Some,
    ensures
        after.status@ == before.status@,
{
}

/// A look at the process: none on the books is absent, one that is gone has ended, and one that
/// answers counts as alive where it is known and, at every tenth look, is still the one that it
/// was; where that cannot be told, the helper is asked.
pub proof fn law_what_a_look_at_the_process_says(
    watch: &mut CrashWatch,
    pid: Option<u32>,
    alive: bool,
    read: Option<String>,
    recheck: Option<&str>,
    r: WatchStep,
)
    requires
        call_ensures(CrashWatch::observe_local, (watch, pid, alive, read, recheck), r),
    ensures
        ({
            let same = old(watch).identity is Some && pid is Some && (old(watch).identity->0).0
                == pid->0;
            let token = if same {
                Some((old(watch).identity->0).1@)
            } else if read is Some {
                Some(read->0@)
            } else {
                None
            };
            let compared = old(watch).ticks % 10 == 0;
            let differs = compared && token is Some && recheck is Some && recheck->0@ != token->0;
            let unclear = token is None || (compared && recheck is None);
            &&& pid is None <==> r == WatchStep::Seen(ChildObservation::Absent)
            &&& r == WatchStep::Seen(ChildObservation::Exited) <==> pid is Some && (!alive
                || differs)
            &&& r == WatchStep::AskHelper <==> pid is Some && alive && unclear
            &&& r == WatchStep::Seen(ChildObservation::Alive) <==> pid is Some && alive && !differs
                && !unclear
            &&& pid is Some && alive && token is Some ==> final(watch).identity is Some && (final(watch).identity->0).0 == pid->0 && (final(watch).identity->0).1@ == token->0
            &&& pid is Some && alive && token is None ==> final(watch).identity is None
            &&& pid is None || !alive ==> identity_view(final(watch).identity) == identity_view(
                old(watch).identity,
            )
        }),
        final(watch).ticks == old(watch).ticks,
        final(watch).helper_identity == old(watch).helper_identity,
{
    assert(opt_str_view(recheck) == (match recheck {
        Some(p) => Some(p@),
        None => None,
    }));
    assert(opt_view(read) == (match read {
        Some(p) => Some(p@),
        None => None,
    }));
}

/// What the helper says ends a core only where it manages none, another process, or the same
/// number created at another time; a helper that does not answer ends nothing. The time that it
/// gave for the process is what the next answer is compared with.
pub proof fn law_what_the_helper_says_of_the_process(
    watch: &mut CrashWatch,
    pid: u32,
    answer: HelperAnswer,
    r: ChildObservation,
    t0: u64,
)
    requires
        call_ensures(CrashWatch::observe_helper, (watch, pid, answer), r),
        old(watch).helper_identity is Some ==> (old(watch).helper_identity->0).1@ == decimal(
            t0 as nat,
        ),
    ensures
        answer is Stopped ==> r == ChildObservation::Exited,
        answer is Unavailable ==> r == ChildObservation::Alive,
        answer matches HelperAnswer::Running { pid: p, created } ==> {
            let differs = old(watch).helper_identity is Some && (old(watch).helper_identity->0).0
                == pid && created is Some && created->0 != t0;
            &&& r == ChildObservation::Exited <==> p != pid || differs
            &&& r == ChildObservation::Alive <==> p == pid && !differs
            &&& p == pid && created is Some ==> final(watch).helper_identity is Some && (final(watch).helper_identity->0).0 == pid && (final(watch).helper_identity->0).1@ == decimal(
                created->0 as nat,
            )
            &&& p != pid || created is None ==> identity_view(final(watch).helper_identity)
                == identity_view(old(watch).helper_identity)
        },
        answer !is Running ==> identity_view(final(watch).helper_identity) == identity_view(
            old(watch).helper_identity,
        ),
        final(watch).identity == old(watch).identity,
        final(watch).ticks == old(watch).ticks,
{
    if let HelperAnswer::Running { pid: _, created: Some(t) } = answer {
        if decimal(t as nat) == decimal(t0 as nat) {
            crate::text::law_a_numeral_names_one_number(t as nat, t0 as nat);
        }
    }
}

/// A watch begins with what the helper started last and counts its looks one by one.
pub proof fn law_a_watch_begins_with_what_the_helper_started(
    started: Option<(u32, u64)>,
    r: CrashWatch,
    watch: &mut CrashWatch,
)
    requires
        call_ensures(CrashWatch::begin, (started,), r),
        old(watch).ticks < u64::MAX,
        call_ensures(CrashWatch::tick, (watch,), ()),
    ensures
        r.ticks == 0,
        r.identity is None,
        r.helper_identity is Some <==> started is Some,
        started matches Some(s) ==> (r.helper_identity->0).0 == s.0 && (r.helper_identity->0).1@
            == decimal(s.1 as nat),
        final(watch).ticks == old(watch).ticks + 1,
        final(watch).identity == old(watch).identity,
        final(watch).helper_identity == old(watch).helper_identity,
{
}

/// The process that the runtime holds itself is seen as what it is, and the helper's token is
/// there exactly where the time of creation is.
pub proof fn law_a_child_is_seen_as_it_is(
    child: ChildState,
    r: ChildObservation,
    created: Option<u64>,
    token: Option<String>,
)
    requires
        call_ensures(observe_child, (child,), r),
        call_ensures(helper_identity_token, (created,), token),
    ensures
        child == ChildState::Running <==> r == ChildObservation::Alive,
        child == ChildState::Ended <==> r == ChildObservation::Exited,
        child == ChildState::Missing <==> r == ChildObservation::Absent,
        token is Some <==> created is Some,
        token is Some ==> token->0@ == decimal(created->0 as nat),
{
    assert(opt_view(token) == created_token(created));
}

/// Restarting is no use exactly where the message, in lower case, speaks of a right that is
/// missing, of the helper, of a core that is left over or of the port; or where the error is of a
/// kind that only the user can mend.
pub proof fn law_what_restarting_does_not_mend(
    lower: &str,
    r: bool,
    message: &str,
    by_message: bool,
    err: StartError,
    by_error: bool,
)
    requires
        call_ensures(unrecoverable, (lower,), r),
        call_ensures(is_unrecoverable_restart_message, (message,), by_message),
        call_ensures(is_unrecoverable_restart_error, (&err,), by_error),
    ensures
        r <==> occurs_in(lower@, "权限"@) || occurs_in(lower@, "permission"@) || occurs_in(
            lower@,
            "helper_gate_aborted"@,
        ) || occurs_in(lower@, "提权助手不可用"@) || occurs_in(lower@, "提权助手引导"@) || occurs_in(
            lower@,
            "root_orphan_blocked"@,
        ) || occurs_in(lower@, "root 残留"@) || occurs_in(lower@, "clash_api_port_busy"@)
            || occurs_in(lower@, "clash_api 端口"@),
        lower@ == lowercase_of(message@) ==> r == by_message,
        err.code == Some(ErrorCode::HelperGateAborted) ==> by_error,
        err.code == Some(ErrorCode::HelperNotInstalled) ==> by_error,
        err.message@ == message@ && by_message ==> by_error,
        err.message@ == message@ && by_error && !by_message ==> err.code == Some(
            ErrorCode::HelperGateAborted,
        ) || err.code == Some(ErrorCode::HelperNotInstalled),
{
}

/// A core is brought back with the applied configuration where there is one, and with the saved
/// one otherwise; where there is neither, the proxy has failed.
pub proof fn law_what_a_core_is_brought_back_with(
    rt: &mut ProxyRuntime,
    saved: Option<Json>,
    r: Option<Json>,
)
    requires
        call_ensures(ProxyRuntime::recovery_config, (rt, saved), r),
    ensures
        old(rt).current_config matches Some(c) ==> r is Some && r->0@ == c@,
        old(rt).current_config is None && saved is Some ==> r is Some && r->0@ == saved->0@,
        r is Some ==> *final(rt) == *old(rt),
        r is None <==> old(rt).current_config is None && saved is None,
        r is None ==> !final(rt).status.running && final(rt).status.error is Some && final(rt).status.error_code == Some(ErrorCode::ProcessExited) && only_status_differs(
            *old(rt),
            *final(rt),
        ),
{
    assert(final(rt).status@.running == final(rt).status.running);
    assert(final(rt).status@.error == opt_view(final(rt).status.error));
}

/// A crash is followed by a pause exactly where another attempt was granted, for as long as it was
/// granted for; where it is given up the proxy has failed, and where somebody else deals with it
/// nothing changes. After the pause the core is started exactly where nobody took over.
pub proof fn law_how_bringing_back_goes_on(
    rt: &mut ProxyRuntime,
    outcome: AutoRestartOutcome,
    r: RecoveryNext,
    fate: RestartFate,
    after_pause: RecoveryNext,
)
    requires
        call_ensures(ProxyRuntime::recovery_decided, (rt, outcome), r),
        call_ensures(ProxyRuntime::recovery_fate, (fate,), after_pause),
    ensures
        r is Pause <==> outcome is Attempt,
        outcome matches AutoRestartOutcome::Attempt { backoff_ms } ==> r == RecoveryNext::Pause(
            backoff_ms,
        ),
        r is Pause || r is End,
        outcome is GiveUp ==> !final(rt).status.running && final(rt).status.error is Some && final(rt).status.error_code == Some(ErrorCode::AutoRestartFailed) && only_status_differs(
            *old(rt),
            *final(rt),
        ),
        outcome !is GiveUp ==> *final(rt) == *old(rt),
        after_pause is Restart <==> fate is Start,
        after_pause is Decide <==> fate == (RestartFate::Superseded { replay: true }),
        after_pause is End <==> fate is AbortedByUser || fate == (RestartFate::Superseded {
            replay: false,
        }),
{
    assert(final(rt).status@.running == final(rt).status.running);
    assert(final(rt).status@.error == opt_view(final(rt).status.error));
}

/// Giving up says another thing while a new core is being tried out than when the attempts have
/// run out.
pub proof fn law_giving_up_says_why(
    tried: &mut ProxyRuntime,
    worn: &mut ProxyRuntime,
    r: RecoveryNext,
    q: RecoveryNext,
)
    requires
        old(tried).auto_restart_suppressed,
        !old(worn).auto_restart_suppressed,
        call_ensures(ProxyRuntime::recovery_decided, (tried, AutoRestartOutcome::GiveUp), r),
        call_ensures(ProxyRuntime::recovery_decided, (worn, AutoRestartOutcome::GiveUp), q),
    ensures
        final(tried).status.error is Some,
        final(worn).status.error is Some,
        occurs_in(final(tried).status.error->0@, "回滚"@),
        occurs_in(final(worn).status.error->0@, "上限"@),
        final(tried).status.error->0@ != final(worn).status.error->0@,
{
    let a = "新内核首次运行即异常退出（换核验证窗口内不自动重启）→ 将尝试回滚到原内核"@;
    let b = "sing-box 反复崩溃，已达自愈上限（3 次/60s）→ 放弃自动重启"@;
    reveal_strlit("新内核首次运行即异常退出（换核验证窗口内不自动重启）→ 将尝试回滚到原内核");
    reveal_strlit("sing-box 反复崩溃，已达自愈上限（3 次/60s）→ 放弃自动重启");
    reveal_strlit("回滚");
    reveal_strlit("上限");
    assert(a.subrange(31, 33) =~= "回滚"@);
    assert(occurs_at(a, "回滚"@, 31));
    assert(b.subrange(18, 20) =~= "上限"@);
    assert(occurs_at(b, "上限"@, 18));
    assert(a[0] != b[0]);
    assert(final(tried).status@.error == opt_view(final(tried).status.error));
    assert(final(worn).status@.error == opt_view(final(worn).status.error));
}

/// A restart that ended is noted as what it was: a start, taken over where no core runs after it,
/// or a failure, final where restarting does not mend it. A failure that is not final is decided
/// on again; one that is given up is said unless it names its own kind.
pub proof fn law_how_a_restart_that_ended_is_noted(
    running: bool,
    started: RecoveryNext,
    err: &StartError,
    failed: RecoveryNext,
    terminal: bool,
    rt: &mut ProxyRuntime,
    give_up: bool,
    r: RecoveryNext,
    said: &mut ProxyRuntime,
)
    requires
        call_ensures(ProxyRuntime::recovery_restarted, (Ok(running),), started),
        call_ensures(ProxyRuntime::recovery_restarted, (Err(err),), failed),
        call_ensures(is_unrecoverable_restart_error, (err,), terminal),
        call_ensures(ProxyRuntime::recovery_failed, (rt, give_up, err), r),
        call_ensures(ProxyRuntime::report_auto_restart_giveup, (said, err), ()),
    ensures
        started == (RecoveryNext::NoteStart { superseded: !running }),
        failed == (RecoveryNext::NoteFailure { unrecoverable: terminal }),
        give_up ==> r == RecoveryNext::End,
        !give_up ==> r == RecoveryNext::Decide,
        !give_up || err.code is Some ==> *final(rt) == *old(rt),
        give_up && err.code is None ==> !final(rt).status.running && final(rt).status.error is Some
            && final(rt).status.error_code == Some(ErrorCode::AutoRestartFailed)
            && only_status_differs(*old(rt), *final(rt)) && occurs_in(
            final(rt).status.error->0@,
            err.message@,
        ),
        err.code is Some ==> *final(said) == *old(said),
        err.code is None ==> !final(said).status.running && final(said).status.error is Some
            && final(said).status.error_code == Some(ErrorCode::AutoRestartFailed) && occurs_in(
            final(said).status.error->0@,
            err.message@,
        ) && only_status_differs(*old(said), *final(said)),
{
    let front = "sing-box 崩溃自愈重启失败且达上限 → 放弃："@;
    lemma_occurs_between(front + err.message@, front, err.message@, Seq::empty());
    assert(final(rt).status@.running == final(rt).status.running);
    assert(final(rt).status@.error == opt_view(final(rt).status.error));
    assert(final(said).status@.running == final(said).status.running);
    assert(final(said).status@.error == opt_view(final(said).status.error));
}

} // verus!
