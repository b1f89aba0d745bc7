//! The state of the runtime and the transitions of its lifecycle.

use vstd::prelude::*;

use crate::json::Json;
use crate::status::{idle_status, ErrorCode, ProxyStatus, StatusView};
use crate::text::{chars_of, opt_view, text_of};

verus! {

/// The selector and the member that a routing rule was given when the core was started.
pub struct RuleTarget {
    pub rule_key: String,
    pub selector_tag: String,
    pub member_tag: String,
}

/// What the running core was started with, as far as a switch without restart needs it.
pub struct SwitchSnapshot {
    /// Node identifier to outbound tag.
    pub id_to_tag: Vec<(String, String)>,
    pub rule_target: Vec<RuleTarget>,
    /// Node identifier to the fingerprint of its saved fields.
    pub fingerprints: Vec<(String, String)>,
    /// Node identifier to the fingerprint of the fields that the core was given.
    pub dirty_fingerprints: Vec<(String, String)>,
    pub probe_pool_ports: Vec<u16>,
}

/// How traffic comes to the core.
#[derive(Clone, Copy, PartialEq, Eq, Structural, Debug)]
pub enum ProxyModeType {
    /// The system's proxy is set to the core.
    SystemProxy,
    /// The core takes over all traffic.
    Tun,
    /// The user sets what is to go through the core.
    Manual,
}

/// The state of the runtime.
pub struct ProxyRuntime {
    pub data_dir: String,
    /// What stands between the parts of a path.
    pub separator: char,
    /// The generation of the lifecycle: whoever holds an older one has been superseded.
    pub generation: u64,
    pub status: ProxyStatus,
    /// Starts under way.
    pub start_inflight: u32,
    pub auto_restart_suppressed: bool,
    /// The configuration that the running core was started with.
    pub startup_snapshot: Option<Json>,
    /// The configuration that counts as applied.
    pub current_config: Option<Json>,
    pub switch_snapshot: Option<SwitchSnapshot>,
    /// A saved change waits for the user to apply it.
    pub restart_deferred: bool,
    /// A restart that was asked for, with its number and the configuration to start.
    pub pending_force_restart: Option<(u64, Json)>,
    /// A switch that waits for the lifecycle, with its number and whether it may only be saved.
    pub pending_switch: Option<(u64, Json, bool)>,
    pub force_restart_seq: u64,
    pub switch_seq: u64,
    /// The latest intent on the selectors.
    pub intent_generation: u64,
    /// The selectors of the core may not be what the latest intent asks for.
    pub reconcile_required: bool,
    pub pid: Option<u32>,
    pub core_via_helper: bool,
    pub custom_rule_files_degraded: bool,
    pub helper_upgrade_prompted: bool,
    pub diagnostics: DiagnosticCounters,
}

/// What the running proxy has counted.
#[derive(Clone, Copy, PartialEq, Eq, Structural, Debug)]
pub struct DiagnosticCounters {
    pub start_count: u64,
    pub retry_count: u64,
    pub restart_count: u32,
}

/// How the lifecycle gate let an operation end.
pub enum LifecycleEnd {
    /// Other operations are still under way.
    StillBusy,
    /// The last one ended in a stop: whatever waited is dropped.
    Stopped,
    /// The last one ended and what waited may go on.
    Drained { schedule_restart: bool, replay_switch_id: Option<u64> },
}

/// What follows the end of a lifecycle operation.
pub struct FinishAction {
    pub schedule_restart: bool,
    /// A switch to make again, and whether it may only be saved.
    pub replay: Option<(Json, bool)>,
}

/// `dir` and `name` as one path, on a system whose separator is `separator`. A path without a
/// directory is the name alone. A directory that ends in a separator gets no second one; a slash
/// is one on every system.
pub open spec fn joined(separator: char, dir: Seq<char>, name: Seq<char>) -> Seq<char> {
    if dir.len() == 0 {
        name
    } else if dir.last() == '/' || dir.last() == separator {
        dir + name
    } else {
        dir.push(separator) + name
    }
}

/// `dir` and `name` as one path.
pub fn join(separator: char, dir: &str, name: &str) -> (r: String)
    ensures
        r@ == joined(separator, dir@, name@),
{
    let mut chars = chars_of(dir);
    if chars.len() == 0 {
        return name.to_owned();
    }
    let last: char = chars[chars.len() - 1];
    if last == '/' || last == separator {
        dir.to_owned().concat(name)
    } else {
        chars.push(separator);
        let n: usize = chars.len();
        let front = text_of(&chars, 0, n);
        proof {
            assert(chars@.subrange(0, n as int) =~= chars@);
        }
        front.concat(name)
    }
}

/// The status after the seconds since the start were counted at `now_ms`.
pub open spec fn status_at(s: StatusView, starts: u32, now_ms: u64) -> StatusView {
    StatusView {
        uptime: match s.start_time {
            Some(t0) => Some(
                (if now_ms >= t0 {
                    (now_ms - t0) / 1000
                } else {
                    0
                }) as u64,
            ),
            None => None,
        },
        starting: starts > 0,
        ..s
    }
}

/// The status of a proxy that failed.
pub open spec fn failed_status(msg: Seq<char>, code: ErrorCode) -> StatusView {
    StatusView { error: Some(msg), error_code: Some(code), ..idle_status() }
}

/// The restart numbered `id` is taken, with its configuration; one under another number stays.
pub open spec fn takes_restart(
    before: ProxyRuntime,
    after: ProxyRuntime,
    id: Option<u64>,
    r: Option<Json>,
) -> bool {
    match (before.pending_force_restart, id) {
        (Some(p), Some(want)) if p.0 == want => r == Some(p.1) && after == (ProxyRuntime {
            pending_force_restart: None,
            ..before
        }),
        _ => r is None && after == before,
    }
}

/// The waiting switch numbered `id` is taken; one under another number stays.
pub open spec fn takes_switch(
    before: ProxyRuntime,
    after: ProxyRuntime,
    id: Option<u64>,
    r: Option<(Json, bool)>,
) -> bool {
    match (before.pending_switch, id) {
        (Some(p), Some(want)) if p.0 == want => r == Some((p.1, p.2)) && after == (ProxyRuntime {
            pending_switch: None,
            ..before
        }),
        _ => r is None && after == before,
    }
}

/// The status of a proxy that goes on while something is wrong.
pub open spec fn warned_status(s: StatusView, msg: Seq<char>, code: ErrorCode) -> StatusView {
    StatusView { error: Some(msg), error_code: Some(code), ..s }
}

/// The status after an error of the kind `code` was taken back.
pub open spec fn taken_back(s: StatusView, code: ErrorCode) -> StatusView {
    if s.error_code == Some(code) {
        StatusView { error: None, error_code: None, ..s }
    } else {
        s
    }
}

impl ProxyRuntime {
    /// A runtime whose core does not run.
    pub fn new(data_dir: String, separator: char) -> (r: Self)
        ensures
            r.data_dir == data_dir,
            r.separator == separator,
            r.generation == 0,
            r.status@ == idle_status(),
            r.start_inflight == 0,
            !r.auto_restart_suppressed,
            r.startup_snapshot is None,
            r.current_config is None,
            r.switch_snapshot is None,
            !r.restart_deferred,
            r.pending_force_restart is None,
            r.pending_switch is None,
            r.force_restart_seq == 1,
            r.switch_seq == 1,
            r.intent_generation == 0,
            !r.reconcile_required,
            r.pid is None,
            !r.core_via_helper,
            !r.custom_rule_files_degraded,
            !r.helper_upgrade_prompted,
            r.diagnostics == (DiagnosticCounters {
                start_count: 0,
                retry_count: 0,
                restart_count: 0,
            }),
    {
        ProxyRuntime {
            data_dir,
            separator,
            generation: 0,
            status: ProxyStatus::default(),
            start_inflight: 0,
            auto_restart_suppressed: false,
            startup_snapshot: None,
            current_config: None,
            switch_snapshot: None,
            restart_deferred: false,
            pending_force_restart: None,
            pending_switch: None,
            force_restart_seq: 1,
            switch_seq: 1,
            intent_generation: 0,
            reconcile_required: false,
            pid: None,
            core_via_helper: false,
            custom_rule_files_degraded: false,
            helper_upgrade_prompted: false,
            diagnostics: DiagnosticCounters { start_count: 0, retry_count: 0, restart_count: 0 },
        }
    }

    /// Suppresses automatic restarts, or allows them again.
    pub fn set_auto_restart_suppressed(&mut self, suppressed: bool)
        ensures
            *final(self) == (ProxyRuntime { auto_restart_suppressed: suppressed, ..*old(self) }),
    {
        self.auto_restart_suppressed = suppressed;
    }

    /// The status, as of `now_ms`.
    pub fn status(&self, now_ms: u64) -> (r: ProxyStatus)
        ensures
            r@ == status_at(self.status@, self.start_inflight, now_ms),
    {
        let mut snap = self.status.clone();
        snap.uptime = match snap.start_time {
            Some(t0) => Some(now_ms.saturating_sub(t0) / 1000),
            None => None,
        };
        snap.starting = self.start_inflight > 0;
        snap
    }

    /// The configuration that the running core was started with.
    pub fn running_config_snapshot(&self) -> (r: Option<Json>)
        ensures
            match (r, self.startup_snapshot) {
                (Some(c), Some(s)) => c@ == s@,
                (None, None) => true,
                _ => false,
            },
    {
        match &self.startup_snapshot {
            Some(c) => Some(c.clone()),
            None => None,
        }
    }

    /// The mode that the running core was started in. `snapshot_mode` is the one that the snapshot
    /// of its start names, where it can be read: what has been saved since may name another. `None`
    /// where no core runs or the snapshot names no readable mode.
    pub fn running_proxy_mode_type(&self, snapshot_mode: Option<ProxyModeType>) -> (r: Option<
        ProxyModeType,
    >)
        ensures
            r == (if self.status@.running && self.startup_snapshot is Some {
                snapshot_mode
            } else {
                None
            }),
    {
        if !self.core_running() {
            return None;
        }
        match &self.startup_snapshot {
            Some(_) => snapshot_mode,
            None => None,
        }
    }

    /// What was counted, with the restarts that recovery made.
    pub fn diagnostic_counters(&self, restarts: u32) -> (r: DiagnosticCounters)
        ensures
            r == (DiagnosticCounters { restart_count: restarts, ..self.diagnostics }),
    {
        DiagnosticCounters { restart_count: restarts, ..self.diagnostics }
    }

    /// Is a core up?
    pub fn core_running(&self) -> (r: bool)
        ensures
            r == self.status@.running,
    {
        self.status.running
    }

    /// May a core that writes the Tailscale state be alive?
    pub fn tailscale_writer_alive(&self) -> (r: bool)
        ensures
            r == (self.status@.running || self.core_via_helper || self.pid is Some),
    {
        self.status.running || self.core_via_helper || self.pid.is_some()
    }

    /// The generation of the lifecycle.
    pub fn core_generation(&self) -> (r: u64)
        ensures
            r == self.generation,
    {
        self.generation
    }

    /// Opens a new generation: whoever holds the old one is superseded.
    pub fn bump_generation(&mut self) -> (r: u64)
        ensures
            r != old(self).generation,
            r == old(self).generation.wrapping_add(1),
            *final(self) == (ProxyRuntime { generation: r, ..*old(self) }),
    {
        self.generation = self.generation.wrapping_add(1);
        self.generation
    }

    /// Has the holder of `my_gen` been superseded?
    pub fn stop_superseded(&self, my_gen: u64) -> (r: bool)
        ensures
            r == (self.generation != my_gen),
    {
        self.generation != my_gen
    }

    /// Where the configuration of the core is written.
    pub fn runtime_config_path(&self) -> (r: String)
        ensures
            r@ == joined(self.separator, self.data_dir@, "singbox-runtime.json"@),
    {
        join(self.separator, self.data_dir.as_str(), "singbox-runtime.json")
    }

    /// Where the rules that the user wrote are kept.
    pub fn custom_rules_dir(&self) -> (r: String)
        ensures
            r@ == joined(self.separator, self.data_dir@, "custom-rules"@),
    {
        join(self.separator, self.data_dir.as_str(), "custom-rules")
    }

    /// The proxy has failed: it does not run, and says why.
    pub fn set_error(&mut self, msg: &str, code: ErrorCode)
        ensures
            final(self).status@ == failed_status(msg@, code),
            *final(self) == (ProxyRuntime { status: final(self).status, ..*old(self) }),
    {
        let mut s = ProxyStatus::default();
        s.error = Some(msg.to_owned());
        s.error_code = Some(code);
        self.status = s;
    }

    /// Something is wrong, and the proxy goes on.
    pub fn set_nonfatal_error(&mut self, msg: &str, code: ErrorCode)
        ensures
            final(self).status@ == warned_status(old(self).status@, msg@, code),
            *final(self) == (ProxyRuntime { status: final(self).status, ..*old(self) }),
    {
        self.status.error = Some(msg.to_owned());
        self.status.error_code = Some(code);
    }

    /// Takes an error of the kind `code` back; an error of another kind stays.
    pub fn clear_nonfatal_error_if(&mut self, code: ErrorCode)
        ensures
            final(self).status@ == taken_back(old(self).status@, code),
            *final(self) == (ProxyRuntime { status: final(self).status, ..*old(self) }),
    {
        if let Some(c) = self.status.error_code {
            if c == code {
                self.status.error = None;
                self.status.error_code = None;
            }
        }
    }

    /// The node that is selected in the applied configuration.
    pub fn selected_server_id(&self) -> (r: Option<String>)
        ensures
            opt_view(r) == (match self.current_config {
                Some(c) => nonempty_text(c@.text_at("selectedServerId"@)),
                None => None,
            }),
    {
        match &self.current_config {
            Some(c) => match c.text_at("selectedServerId") {
                Some(s) => if s.as_str().is_empty() {
                    None
                } else {
                    Some(s.clone())
                },
                None => None,
            },
            None => None,
        }
    }

    /// Takes the configuration of the restart numbered `id`.
    pub fn take_force_restart_config(&mut self, id: Option<u64>) -> (r: Option<Json>)
        ensures
            takes_restart(*old(self), *final(self), id, r),
    {
        let due = match (&self.pending_force_restart, id) {
            (Some(p), Some(want)) => p.0 == want,
            _ => false,
        };
        if due {
            match self.pending_force_restart.take() {
                Some(p) => Some(p.1),
                None => None,
            }
        } else {
            None
        }
    }

    /// Takes the waiting switch numbered `id`.
    pub fn take_pending_switch(&mut self, id: Option<u64>) -> (r: Option<(Json, bool)>)
        ensures
            takes_switch(*old(self), *final(self), id, r),
    {
        let due = match (&self.pending_switch, id) {
            (Some(p), Some(want)) => p.0 == want,
            _ => false,
        };
        if due {
            match self.pending_switch.take() {
                Some(p) => Some((p.1, p.2)),
                None => None,
            }
        } else {
            None
        }
    }

    /// A lifecycle operation ended: what was waiting is left to the outermost operation, dropped
    /// by a stop, or handed out.
    pub fn finish_lifecycle(&mut self, end: LifecycleEnd) -> (r: FinishAction)
        ensures
            match end {
                LifecycleEnd::StillBusy => {
                    &&& !r.schedule_restart && r.replay is None
                    &&& *final(self) == *old(self)
                },
                LifecycleEnd::Stopped => {
                    &&& !r.schedule_restart && r.replay is None
                    &&& *final(self) == (ProxyRuntime {
                        pending_force_restart: None,
                        pending_switch: None,
                        ..*old(self)
                    })
                },
                LifecycleEnd::Drained { schedule_restart, replay_switch_id } => {
                    &&& r.schedule_restart == schedule_restart
                    &&& takes_switch(*old(self), *final(self), replay_switch_id, r.replay)
                },
            },
    {
        match end {
            LifecycleEnd::StillBusy => FinishAction { schedule_restart: false, replay: None },
            LifecycleEnd::Stopped => {
                self.pending_force_restart = None;
                self.pending_switch = None;
                FinishAction { schedule_restart: false, replay: None }
            },
            LifecycleEnd::Drained { schedule_restart, replay_switch_id } => {
                let replay = self.take_pending_switch(replay_switch_id);
                FinishAction { schedule_restart, replay }
            },
        }
    }

    /// The configuration that a restart starts: that of the restart it was asked for, or else the
    /// saved one. `None` where neither can be had, and then there is no restart.
    pub fn restart_config(&mut self, force_id: Option<u64>, saved: Option<Json>) -> (r: Option<Json>)
        ensures
            exists|taken: Option<Json>|
                takes_restart(*old(self), *final(self), force_id, taken) && r == (if taken is Some {
                    taken
                } else {
                    saved
                }),
    {
        match self.take_force_restart_config(force_id) {
            Some(c) => Some(c),
            None => saved,
        }
    }
}

/// A text that is there and not empty.
pub open spec fn nonempty_text(s: Option<Seq<char>>) -> Option<Seq<char>> {
    match s {
        Some(t) => if t.len() == 0 {
            None
        } else {
            Some(t)
        },
        None => None,
    }
}

/// A warning can be taken back by its kind and by no other: a status without an error is then as
/// it was, and taking it back twice is taking it back once.
pub proof fn law_a_warning_is_taken_back_by_its_kind(
    s: StatusView,
    msg: Seq<char>,
    code: ErrorCode,
    other: ErrorCode,
)
    ensures
        s.error is None && s.error_code is None ==> taken_back(warned_status(s, msg, code), code)
            == s,
        other != code ==> taken_back(warned_status(s, msg, code), other) == warned_status(
            s,
            msg,
            code,
        ),
        taken_back(taken_back(s, code), code) == taken_back(s, code),
        warned_status(s, msg, code).running == s.running,
{
}

/// The runtime shows this error.
pub open spec fn shows(rt: ProxyRuntime, msg: Seq<char>, code: ErrorCode) -> bool {
    rt.status.error matches Some(e) && e@ == msg && rt.status.error_code == Some(code)
}

/// Nothing but the status has changed.
pub open spec fn only_status_differs(before: ProxyRuntime, after: ProxyRuntime) -> bool {
    after == (ProxyRuntime { status: after.status, ..before })
}

/// Two statuses tell of the same core: its process, its ports and since when it runs.
pub open spec fn same_session(a: ProxyStatus, b: ProxyStatus) -> bool {
    &&& a.running == b.running
    &&& a.starting == b.starting
    &&& a.pid == b.pid
    &&& a.start_time == b.start_time
    &&& a.uptime == b.uptime
    &&& a.mixed_port == b.mixed_port
    &&& a.clash_api_port == b.clash_api_port
    &&& a.update_in_port == b.update_in_port
    &&& a.subscription_update_in_port == b.subscription_update_in_port
    &&& a.started_via_helper == b.started_via_helper
}

/// A failure is shown with its message and its kind, and no core runs any more; a warning is shown
/// so too, and the core is the one that ran before.
pub proof fn law_a_failure_ends_the_session_and_a_warning_does_not(
    failed: &mut ProxyRuntime,
    warned: &mut ProxyRuntime,
    msg: &str,
    code: ErrorCode,
)
    requires
        call_ensures(ProxyRuntime::set_error, (failed, msg, code), ()),
        call_ensures(ProxyRuntime::set_nonfatal_error, (warned, msg, code), ()),
    ensures
        shows(*final(failed), msg@, code),
        !final(failed).status.running,
        !final(failed).status.starting,
        final(failed).status.pid == 0,
        final(failed).status.start_time is None,
        final(failed).status.mixed_port == 0,
        final(failed).status.clash_api_port == 0,
        !final(failed).status.started_via_helper,
        only_status_differs(*old(failed), *final(failed)),
        shows(*final(warned), msg@, code),
        same_session(old(warned).status, final(warned).status),
        only_status_differs(*old(warned), *final(warned)),
{
    assert(final(failed).status@.error == Some(msg@));
    assert(final(warned).status@.error == Some(msg@));
    assert(final(warned).status@.pid == old(warned).status@.pid);
}

/// Taking an error back by its kind leaves no error where it was of that kind, and leaves any other
/// as it is; the core is not touched.
pub proof fn law_only_errors_of_a_kind_are_taken_back(rt: &mut ProxyRuntime, code: ErrorCode)
    requires
        call_ensures(ProxyRuntime::clear_nonfatal_error_if, (rt, code), ()),
    ensures
        old(rt).status.error_code == Some(code) ==> final(rt).status.error is None
            && final(rt).status.error_code is None,
        old(rt).status.error_code != Some(code) ==> final(rt).status.error_code == old(
            rt,
        ).status.error_code && opt_view(final(rt).status.error) == opt_view(old(rt).status.error),
        same_session(old(rt).status, final(rt).status),
        only_status_differs(*old(rt), *final(rt)),
{
    assert(final(rt).status@.error == opt_view(final(rt).status.error));
    assert(final(rt).status@.pid == final(rt).status.pid);
    assert(old(rt).status@.pid == old(rt).status.pid);
}

/// What is told of the status is what is recorded of it, but for two things: a start is under way
/// exactly where one is counted, and the seconds since the core came up are counted from then,
/// never below zero.
pub proof fn law_a_status_counts_the_seconds_since_the_start(rt: ProxyRuntime, now_ms: u64, r: ProxyStatus)
    requires
        call_ensures(ProxyRuntime::status, (&rt, now_ms), r),
    ensures
        r.starting <==> rt.start_inflight > 0,
        rt.status.start_time is None ==> r.uptime is None,
        rt.status.start_time matches Some(t) ==> {
            &&& r.uptime is Some
            &&& now_ms >= t ==> r.uptime->0 * 1000 <= now_ms - t < (r.uptime->0 + 1) * 1000
            &&& now_ms < t ==> r.uptime == Some(0u64)
        },
        r.running == rt.status.running,
        r.pid == rt.status.pid,
        r.start_time == rt.status.start_time,
        r.mixed_port == rt.status.mixed_port,
        r.clash_api_port == rt.status.clash_api_port,
        r.update_in_port == rt.status.update_in_port,
        r.subscription_update_in_port == rt.status.subscription_update_in_port,
        r.started_via_helper == rt.status.started_via_helper,
        opt_view(r.error) == opt_view(rt.status.error),
        r.error_code == rt.status.error_code,
{
    assert(r@.pid == r.pid && rt.status@.pid == rt.status.pid);
}

/// A waiting restart is handed out with its own configuration exactly to the one who names its
/// number, and is then gone; to anyone else nothing is handed out and it goes on waiting.
pub proof fn law_a_waiting_restart_is_handed_out_once(rt: &mut ProxyRuntime, id: Option<u64>, r: Option<Json>)
    requires
        call_ensures(ProxyRuntime::take_force_restart_config, (rt, id), r),
    ensures
        r is Some <==> id is Some && old(rt).pending_force_restart is Some && (old(
            rt,
        ).pending_force_restart->0).0 == id->0,
        r matches Some(c) ==> old(rt).pending_force_restart == Some((id->0, c))
            && final(rt).pending_force_restart is None,
        r is None ==> final(rt).pending_force_restart == old(rt).pending_force_restart,
        *final(rt) == (ProxyRuntime {
            pending_force_restart: final(rt).pending_force_restart,
            ..*old(rt)
        }),
{
}

/// A waiting switch is handed out as it was asked for exactly to the one who names its number, and
/// is then gone; to anyone else nothing is handed out and it goes on waiting.
pub proof fn law_a_waiting_switch_is_handed_out_once(
    rt: &mut ProxyRuntime,
    id: Option<u64>,
    r: Option<(Json, bool)>,
)
    requires
        call_ensures(ProxyRuntime::take_pending_switch, (rt, id), r),
    ensures
        r is Some <==> id is Some && old(rt).pending_switch is Some && (old(
            rt,
        ).pending_switch->0).0 == id->0,
        r matches Some(c) ==> old(rt).pending_switch == Some((id->0, c.0, c.1))
            && final(rt).pending_switch is None,
        r is None ==> final(rt).pending_switch == old(rt).pending_switch,
        *final(rt) == (ProxyRuntime { pending_switch: final(rt).pending_switch, ..*old(rt) }),
{
}

/// When an operation of the lifecycle ends, what waited is dropped by a stop, kept while others are
/// under way, and otherwise the switch that is named is handed out, once, while a restart that
/// waits is kept.
pub proof fn law_what_waits_for_the_lifecycle(rt: &mut ProxyRuntime, end: LifecycleEnd, r: FinishAction)
    requires
        call_ensures(ProxyRuntime::finish_lifecycle, (rt, end), r),
    ensures
        end is StillBusy ==> !r.schedule_restart && r.replay is None && *final(rt) == *old(rt),
        end is Stopped ==> {
            &&& !r.schedule_restart
            &&& r.replay is None
            &&& final(rt).pending_switch is None
            &&& final(rt).pending_force_restart is None
        },
        end matches LifecycleEnd::Drained { schedule_restart, replay_switch_id } ==> {
            &&& r.schedule_restart == schedule_restart
            &&& final(rt).pending_force_restart == old(rt).pending_force_restart
            &&& r.replay is Some <==> replay_switch_id is Some && old(rt).pending_switch is Some
                && (old(rt).pending_switch->0).0 == replay_switch_id->0
            &&& r.replay matches Some(c) ==> old(rt).pending_switch == Some(
                (replay_switch_id->0, c.0, c.1),
            ) && final(rt).pending_switch is None
            &&& r.replay is None ==> final(rt).pending_switch == old(rt).pending_switch
        },
        *final(rt) == (ProxyRuntime {
            pending_switch: final(rt).pending_switch,
            pending_force_restart: final(rt).pending_force_restart,
            ..*old(rt)
        }),
{
}

/// A restart starts the configuration that it was asked for with, where it is the one that is
/// named, and what is saved otherwise.
pub proof fn law_a_restart_has_a_configuration(
    rt: &mut ProxyRuntime,
    id: Option<u64>,
    saved: Option<Json>,
    r: Option<Json>,
)
    requires
        call_ensures(ProxyRuntime::restart_config, (rt, id, saved), r),
    ensures
        old(rt).pending_force_restart matches Some(p) ==> (id == Some(p.0) ==> r == Some(p.1)
            && final(rt).pending_force_restart is None),
        !(old(rt).pending_force_restart matches Some(p) && id == Some(p.0)) ==> r == saved
            && *final(rt) == *old(rt),
{
}

/// Everyone who held a generation before is superseded by a new one, and by nothing else.
pub proof fn law_a_new_generation_supersedes_the_old(
    rt: &mut ProxyRuntime,
    g: u64,
    holder: u64,
    superseded: bool,
)
    requires
        call_ensures(ProxyRuntime::bump_generation, (rt,), g),
        call_ensures(ProxyRuntime::stop_superseded, (final(rt), holder), superseded),
    ensures
        holder == g ==> !superseded,
        holder == old(rt).generation ==> superseded,
        g == (if old(rt).generation == u64::MAX {
            0
        } else {
            old(rt).generation + 1
        }),
        *final(rt) == (ProxyRuntime { generation: g, ..*old(rt) }),
{
}

/// A path leads into its directory: it begins with the directory and ends with the name, and
/// between them there is one separator that is no part of the name.
pub proof fn law_a_path_leads_into_its_directory(separator: char, dir: &str, name: &str, r: String)
    requires
        call_ensures(join, (separator, dir, name), r),
    ensures
        dir@.len() == 0 ==> r@ == name@,
        dir@.len() > 0 ==> {
            &&& r@.take(dir@.len() as int) == dir@
            &&& r@.skip(r@.len() - name@.len()) == name@
            &&& r@[r@.len() - name@.len() - 1] == '/' || r@[r@.len() - name@.len() - 1] == separator
            &&& dir@.len() + name@.len() <= r@.len() <= dir@.len() + name@.len() + 1
            &&& r@.len() == dir@.len() + name@.len() <==> dir@.last() == '/' || dir@.last()
                == separator
        },
{
    if dir@.len() > 0 {
        assert(r@.take(dir@.len() as int) =~= dir@);
        assert(r@.skip(r@.len() - name@.len()) =~= name@);
    }
}

/// The node that is selected is named by the applied configuration, and an empty name is none.
pub proof fn law_the_selection_is_that_of_the_applied_configuration(rt: ProxyRuntime, r: Option<String>)
    requires
        call_ensures(ProxyRuntime::selected_server_id, (&rt,), r),
    ensures
        r matches Some(id) ==> {
            &&& id@.len() > 0
            &&& rt.current_config is Some
            &&& rt.current_config->0@.text_at("selectedServerId"@) == Some(id@)
        },
        r is None ==> (rt.current_config matches Some(c) ==> (c@.text_at(
            "selectedServerId"@,
        ) matches Some(t) ==> t.len() == 0)),
{
}

/// What the runtime tells of itself: a mode only where a core runs and the snapshot of its start
/// names one; a writer of the Tailscale state wherever a core may be alive; the snapshot and the
/// counts as they are; and its files beside each other in its directory.
pub proof fn law_what_the_runtime_tells_of_itself(
    rt: ProxyRuntime,
    mode: Option<ProxyModeType>,
    r_mode: Option<ProxyModeType>,
    up: bool,
    writer: bool,
    generation: u64,
    restarts: u32,
    counters: DiagnosticCounters,
    snapshot: Option<Json>,
)
    requires
        call_ensures(ProxyRuntime::running_proxy_mode_type, (&rt, mode), r_mode),
        call_ensures(ProxyRuntime::core_running, (&rt,), up),
        call_ensures(ProxyRuntime::tailscale_writer_alive, (&rt,), writer),
        call_ensures(ProxyRuntime::core_generation, (&rt,), generation),
        call_ensures(ProxyRuntime::diagnostic_counters, (&rt, restarts), counters),
        call_ensures(ProxyRuntime::running_config_snapshot, (&rt,), snapshot),
    ensures
        up <==> rt.status.running,
        r_mode is Some <==> rt.status.running && rt.startup_snapshot is Some && mode is Some,
        r_mode is Some ==> r_mode == mode,
        rt.status.running || rt.core_via_helper || rt.pid is Some ==> writer,
        writer ==> rt.status.running || rt.core_via_helper || rt.pid is Some,
        generation == rt.generation,
        counters.restart_count == restarts,
        counters.start_count == rt.diagnostics.start_count,
        counters.retry_count == rt.diagnostics.retry_count,
        snapshot is Some <==> rt.startup_snapshot is Some,
        snapshot is Some ==> snapshot->0@ == rt.startup_snapshot->0@,
{
    assert(rt.status@.running == rt.status.running);
}

/// The runtime keeps its files in its directory, each under a name of its own.
pub proof fn law_the_files_of_the_runtime(
    rt: ProxyRuntime,
    dir: &str,
    config: String,
    rules: String,
    config_joined: String,
    rules_joined: String,
)
    requires
        call_ensures(ProxyRuntime::runtime_config_path, (&rt,), config),
        call_ensures(ProxyRuntime::custom_rules_dir, (&rt,), rules),
        dir@ == rt.data_dir@,
        call_ensures(join, (rt.separator, dir, "singbox-runtime.json"), config_joined),
        call_ensures(join, (rt.separator, dir, "custom-rules"), rules_joined),
    ensures
        config@ == config_joined@,
        rules@ == rules_joined@,
        config@.len() != rules@.len(),
{
    reveal_strlit("singbox-runtime.json");
    reveal_strlit("custom-rules");
    assert("singbox-runtime.json"@.len() == 20 && "custom-rules"@.len() == 12);
}

/// A runtime begins without a core, without anything that waits, and with nothing counted; and
/// suppressing restarts changes nothing else.
pub proof fn law_a_runtime_begins_idle(
    data_dir: String,
    separator: char,
    r: ProxyRuntime,
    rt: &mut ProxyRuntime,
    suppressed: bool,
)
    requires
        call_ensures(ProxyRuntime::new, (data_dir, separator), r),
        call_ensures(ProxyRuntime::set_auto_restart_suppressed, (rt, suppressed), ()),
    ensures
        r.data_dir@ == data_dir@ && r.separator == separator,
        !r.status.running && !r.status.starting && r.status.pid == 0,
        r.status.error is None && r.status.error_code is None,
        r.start_inflight == 0 && r.generation == 0 && r.intent_generation == 0,
        r.startup_snapshot is None && r.current_config is None && r.switch_snapshot is None,
        r.pending_force_restart is None && r.pending_switch is None,
        !r.restart_deferred && !r.reconcile_required && !r.auto_restart_suppressed,
        r.pid is None && !r.core_via_helper && !r.helper_upgrade_prompted,
        !r.custom_rule_files_degraded,
        r.diagnostics.start_count == 0 && r.diagnostics.retry_count == 0
            && r.diagnostics.restart_count == 0,
        final(rt).auto_restart_suppressed == suppressed,
        *final(rt) == (ProxyRuntime {
            auto_restart_suppressed: final(rt).auto_restart_suppressed,
            ..*old(rt)
        }),
{
    assert(r.status@.pid == r.status.pid);
    assert(r.status@.error == opt_view(r.status.error));
}

} // verus!
