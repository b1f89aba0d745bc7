//! What the runtime says of itself: its status, its errors, its lifecycle events.

use vstd::prelude::*;

use crate::text::opt_view;

verus! {

/// The kinds of failure that the interface tells apart.
#[derive(Clone, Copy, PartialEq, Eq, Structural, Debug)]
pub enum ErrorCode {
    AutoRestartFailed,
    CoreBinaryMismatch,
    ExitMismatch,
    HelperGateAborted,
    HelperNotInstalled,
    OutboundInterfaceUnavailable,
    ProcessExited,
    RootOrphanBlocked,
    RuleResourcesMissing,
    StartupFailed,
    SystemDnsTakeoverFailed,
    TunAdapterMissing,
    TunAddressUnavailable,
    TunRouteNotCaptured,
}

/// Why a start failed. An error without a code names no kind of its own.
#[derive(Debug)]
pub struct StartError {
    pub message: String,
    pub code: Option<ErrorCode>,
}

/// What a start error says.
pub struct StartErrorView {
    pub message: Seq<char>,
    pub code: Option<ErrorCode>,
}

impl View for StartError {
    type V = StartErrorView;

    open spec fn view(&self) -> StartErrorView {
        StartErrorView { message: self.message@, code: self.code }
    }
}

impl StartError {
    /// An error of the kind `code`.
    pub fn coded(message: String, code: ErrorCode) -> (r: Self)
        ensures
            r@ == (StartErrorView { message: message@, code: Some(code) }),
    {
        StartError { message, code: Some(code) }
    }

    /// An error that is only a message.
    pub fn plain(message: String) -> (r: Self)
        ensures
            r@ == (StartErrorView { message: message@, code: None }),
    {
        StartError { message, code: None }
    }
}

/// The state of the proxy as the interface sees it.
#[derive(Debug)]
pub struct ProxyStatus {
    pub running: bool,
    pub starting: bool,
    pub pid: u32,
    pub start_time: Option<u64>,
    pub uptime: Option<u64>,
    pub mixed_port: u16,
    pub clash_api_port: u16,
    pub update_in_port: u16,
    pub subscription_update_in_port: u16,
    pub started_via_helper: bool,
    pub error: Option<String>,
    pub error_code: Option<ErrorCode>,
}

/// What a status says.
pub struct StatusView {
    pub running: bool,
    pub starting: bool,
    pub pid: u32,
    pub start_time: Option<u64>,
    pub uptime: Option<u64>,
    pub mixed_port: u16,
    pub clash_api_port: u16,
    pub update_in_port: u16,
    pub subscription_update_in_port: u16,
    pub started_via_helper: bool,
    pub error: Option<Seq<char>>,
    pub error_code: Option<ErrorCode>,
}

impl View for ProxyStatus {
    type V = StatusView;

    open spec fn view(&self) -> StatusView {
        StatusView {
            running: self.running,
            starting: self.starting,
            pid: self.pid,
            start_time: self.start_time,
            uptime: self.uptime,
            mixed_port: self.mixed_port,
            clash_api_port: self.clash_api_port,
            update_in_port: self.update_in_port,
            subscription_update_in_port: self.subscription_update_in_port,
            started_via_helper: self.started_via_helper,
            error: opt_view(self.error),
            error_code: self.error_code,
        }
    }
}

/// The status of a proxy that does not run.
pub open spec fn idle_status() -> StatusView {
    StatusView {
        running: false,
        starting: false,
        pid: 0,
        start_time: None,
        uptime: None,
        mixed_port: 0,
        clash_api_port: 0,
        update_in_port: 0,
        subscription_update_in_port: 0,
        started_via_helper: false,
        error: None,
        error_code: None,
    }
}

impl Default for ProxyStatus {
    fn default() -> (r: Self)
        ensures
            r@ == idle_status(),
    {
        ProxyStatus {
            running: false,
            starting: false,
            pid: 0,
            start_time: None,
            uptime: None,
            mixed_port: 0,
            clash_api_port: 0,
            update_in_port: 0,
            subscription_update_in_port: 0,
            started_via_helper: false,
            error: None,
            error_code: None,
        }
    }
}

impl Clone for ProxyStatus {
    fn clone(&self) -> (r: Self)
        ensures
            r@ == self@,
    {
        let error = match &self.error {
            Some(e) => Some(e.clone()),
            None => None,
        };
        ProxyStatus {
            running: self.running,
            starting: self.starting,
            pid: self.pid,
            start_time: self.start_time,
            uptime: self.uptime,
            mixed_port: self.mixed_port,
            clash_api_port: self.clash_api_port,
            update_in_port: self.update_in_port,
            subscription_update_in_port: self.subscription_update_in_port,
            started_via_helper: self.started_via_helper,
            error,
            error_code: self.error_code,
        }
    }
}

/// A phase change that the interface is told of.
#[derive(Debug)]
pub struct ProxyLifecycleEvent {
    pub phase: &'static str,
    pub error_code: Option<ErrorCode>,
    pub message: Option<String>,
}

impl ProxyLifecycleEvent {
    /// The core is up.
    pub fn ready() -> (r: Self)
        ensures
            r.phase@ == "ready"@,
            r.error_code is None,
            r.message is None,
    {
        ProxyLifecycleEvent { phase: "ready", error_code: None, message: None }
    }

    /// The core is down.
    pub fn stopped() -> (r: Self)
        ensures
            r.phase@ == "stopped"@,
            r.error_code is None,
            r.message is None,
    {
        ProxyLifecycleEvent { phase: "stopped", error_code: None, message: None }
    }

    /// The start failed with `err`.
    pub fn failed(err: &StartError) -> (r: Self)
        ensures
            r.phase@ == "failed"@,
            r.error_code == err.code,
            opt_view(r.message) == Some(err.message@),
    {
        ProxyLifecycleEvent {
            phase: "failed",
            error_code: err.code,
            message: Some(err.message.clone()),
        }
    }
}

/// An error says its message, and its kind where it has one; what the interface is told of it is
/// the same. Each phase has its own name.
pub proof fn law_an_error_is_told_as_it_is(
    message: String,
    code: ErrorCode,
    coded: StartError,
    plain: StartError,
    told: ProxyLifecycleEvent,
    ready: ProxyLifecycleEvent,
    stopped: ProxyLifecycleEvent,
)
    requires
        call_ensures(StartError::coded, (message, code), coded),
        call_ensures(StartError::plain, (message,), plain),
        call_ensures(ProxyLifecycleEvent::failed, (&coded,), told),
        call_ensures(ProxyLifecycleEvent::ready, (), ready),
        call_ensures(ProxyLifecycleEvent::stopped, (), stopped),
    ensures
        coded.message@ == message@,
        coded.code == Some(code),
        plain.message@ == message@,
        plain.code is None,
        told.error_code == Some(code),
        told.message is Some,
        told.message->0@ == message@,
        ready.error_code is None && ready.message is None,
        stopped.error_code is None && stopped.message is None,
        ready.phase@ != stopped.phase@,
        ready.phase@ != told.phase@,
        stopped.phase@ != told.phase@,
{
    reveal_strlit("ready");
    reveal_strlit("stopped");
    reveal_strlit("failed");
    assert(opt_view(told.message) == (match told.message {
        Some(m) => Some(m@),
        None => None,
    }));
    assert(ready.phase@.len() == 5 && stopped.phase@.len() == 7 && told.phase@.len() == 6);
}

/// A status that is copied says the same in every respect, and a fresh one tells of no core and no
/// error.
pub proof fn law_a_copied_status_says_the_same(s: ProxyStatus, r: ProxyStatus, fresh: ProxyStatus)
    requires
        call_ensures(<ProxyStatus as Clone>::clone, (&s,), r),
        call_ensures(<ProxyStatus as Default>::default, (), fresh),
    ensures
        r.running == s.running && r.starting == s.starting && r.pid == s.pid,
        r.start_time == s.start_time && r.uptime == s.uptime,
        r.mixed_port == s.mixed_port && r.clash_api_port == s.clash_api_port,
        r.update_in_port == s.update_in_port,
        r.subscription_update_in_port == s.subscription_update_in_port,
        r.started_via_helper == s.started_via_helper,
        r.error is Some <==> s.error is Some,
        r.error is Some ==> r.error->0@ == s.error->0@,
        r.error_code == s.error_code,
        !fresh.running && !fresh.starting && fresh.pid == 0,
        fresh.start_time is None && fresh.uptime is None,
        fresh.mixed_port == 0 && fresh.clash_api_port == 0,
        fresh.update_in_port == 0 && fresh.subscription_update_in_port == 0,
        !fresh.started_via_helper && fresh.error is None && fresh.error_code is None,
{
    assert(r@.pid == r.pid && s@.pid == s.pid && fresh@.pid == fresh.pid);
    assert(r@.error == opt_view(r.error) && s@.error == opt_view(s.error));
    assert(fresh@.error == opt_view(fresh.error));
}

} // verus!
