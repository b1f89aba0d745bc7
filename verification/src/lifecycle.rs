//! Starting, stopping and restarting: the order of the steps, and who yields to whom.

use vstd::prelude::*;

use crate::runtime::ProxyRuntime;
use crate::status::{idle_status, ProxyLifecycleEvent, ProxyStatus, StartError};
use crate::text::opt_view;

verus! {

/// What a start request does next.
#[derive(Clone, Copy, PartialEq, Eq, Structural, Debug)]
pub enum StartEntry {
    /// Another request took over: report the status and do nothing.
    Yield,
    /// Go on; `sweep` asks to sweep stale cores first.
    Proceed { sweep: bool },
}

/// What a start request leaves to do once the start itself is over.
pub struct StartSettlement {
    /// The core is up for this request: tell of the pending changes.
    pub push_pending_changes: bool,
    /// The phase to tell of.
    pub event: Option<ProxyLifecycleEvent>,
}

/// The steps of a stop at which it looks whether another operation took over.
#[derive(Clone, Copy, PartialEq, Eq, Structural, Debug)]
pub enum StopPoint {
    /// The Tailscale state is held.
    GateHeld,
    /// The core was told to go.
    CoreKilled,
    /// The exit routes were cleared.
    RoutesCleared,
    /// The system's name resolution was restored.
    DnsRestored,
}

/// What a stop does next.
pub enum StopNext {
    /// Another operation took over: leave everything as it is.
    Yield,
    KillCore,
    /// The core could not be stopped.
    Fail(String),
    ClearRoutes,
    /// Forget the session and restore the system's name resolution.
    ResetSession,
    /// Tell that the core is down.
    Done,
}

/// A step of a stop.
pub struct StopStep {
    /// The core is gone, so the Tailscale state is to be released, whoever goes on.
    pub release_tailscale_states: bool,
    pub next: StopNext,
}

/// What a restart cleans up between the two cores.
#[derive(Clone, Copy, PartialEq, Eq, Structural, Debug)]
pub struct RestartCleanup {
    pub clear_system_proxy: bool,
    /// Wait until the route of the retiring interface is gone.
    pub wait_for_route: bool,
}

/// A runtime whose stop is complete.
pub open spec fn stopped_from(before: ProxyRuntime, after: ProxyRuntime) -> bool {
    &&& after.status@ == idle_status()
    &&& after == (ProxyRuntime {
        status: after.status,
        startup_snapshot: None,
        restart_deferred: false,
        pending_force_restart: None,
        switch_snapshot: None,
        ..before
    })
}

/// A stop at `point` leads from `before` to `after` and goes on with `r`.
pub open spec fn stops(
    before: ProxyRuntime,
    after: ProxyRuntime,
    my_gen: u64,
    point: StopPoint,
    kill: Result<(), String>,
    r: StopStep,
) -> bool {
    &&& r.release_tailscale_states == (point == StopPoint::CoreKilled && kill is Ok)
    &&& if before.generation != my_gen {
        r.next is Yield && after == before
    } else {
        match point {
            StopPoint::GateHeld => r.next is KillCore && after == before,
            StopPoint::CoreKilled => after == before && match kill {
                Ok(_) => r.next is ClearRoutes,
                Err(e) => r.next == StopNext::Fail(e),
            },
            StopPoint::RoutesCleared => r.next is ResetSession && after == before,
            StopPoint::DnsRestored => r.next is Done && stopped_from(before, after),
        }
    }
}

/// The start of this generation ended with a core that runs and is still ours.
pub open spec fn start_committed(
    rt: ProxyRuntime,
    result: Result<ProxyStatus, StartError>,
    my_gen: u64,
) -> bool {
    &&& result matches Ok(s)
    &&& s@.running
    &&& rt.generation == my_gen
}

impl ProxyRuntime {
    /// A start was asked for: it counts as under way and opens a generation of its own.
    pub fn begin_start(&mut self) -> (my_gen: u64)
        ensures
            my_gen == old(self).generation.wrapping_add(1),
            *final(self) == (ProxyRuntime {
                generation: my_gen,
                start_inflight: old(self).start_inflight.wrapping_add(1),
                ..*old(self)
            }),
    {
        self.start_inflight = self.start_inflight.wrapping_add(1);
        self.bump_generation()
    }

    /// A start is no longer under way.
    pub fn end_start(&mut self)
        ensures
            *final(self) == (ProxyRuntime {
                start_inflight: old(self).start_inflight.wrapping_sub(1),
                ..*old(self)
            }),
    {
        self.start_inflight = self.start_inflight.wrapping_sub(1);
    }

    /// The start holds the Tailscale state: does it go on?
    pub fn start_admitted(&self, my_gen: u64, sweep_disabled: bool) -> (r: StartEntry)
        ensures
            r == (if self.generation != my_gen {
                StartEntry::Yield
            } else {
                StartEntry::Proceed { sweep: !sweep_disabled }
            }),
    {
        if self.generation != my_gen {
            StartEntry::Yield
        } else {
            StartEntry::Proceed { sweep: !sweep_disabled }
        }
    }

    /// Is it for this start to take back what it set up? It is where it failed and no other
    /// operation has taken over; whoever has, sets up and takes back on its own.
    pub fn failed_start_cleans_up(&self, my_gen: u64, result: &Result<ProxyStatus, StartError>) -> (r:
        bool)
        ensures
            r == (result is Err && self.generation == my_gen),
    {
        result.is_err() && self.generation == my_gen
    }

    /// The start is over: it is no longer under way, and the interface is told of a core that came
    /// up for this generation or of the failure.
    pub fn settle_start(
        &mut self,
        my_gen: u64,
        result: &Result<ProxyStatus, StartError>,
    ) -> (r: StartSettlement)
        ensures
            *final(self) == (ProxyRuntime {
                start_inflight: old(self).start_inflight.wrapping_sub(1),
                ..*old(self)
            }),
            r.push_pending_changes == start_committed(*old(self), *result, my_gen),
            match *result {
                Ok(_) => if start_committed(*old(self), *result, my_gen) {
                    &&& r.event matches Some(e)
                    &&& e.phase@ == "ready"@
                    &&& e.error_code is None
                    &&& e.message is None
                } else {
                    r.event is None
                },
                Err(err) => {
                    &&& r.event matches Some(e)
                    &&& e.phase@ == "failed"@
                    &&& e.error_code == err@.code
                    &&& opt_view(e.message) == Some(err@.message)
                },
            },
    {
        let committed = match result {
            Ok(s) => s.running && self.generation == my_gen,
            Err(_) => false,
        };
        self.end_start();
        let event = match result {
            Ok(_) => if committed {
                Some(ProxyLifecycleEvent::ready())
            } else {
                None
            },
            Err(e) => Some(ProxyLifecycleEvent::failed(e)),
        };
        StartSettlement {
            push_pending_changes: committed,
            event,
        }
    }

    /// A stop has come to `point`. Where another operation has taken over, the stop leaves the
    /// runtime as it is. `kill` is how the order to stop the core ended.
    pub fn stop_step(&mut self, my_gen: u64, point: StopPoint, kill: Result<(), String>) -> (r:
        StopStep)
        ensures
            stops(*old(self), *final(self), my_gen, point, kill, r),
    {
        let release = match point {
            StopPoint::CoreKilled => kill.is_ok(),
            _ => false,
        };
        if self.stop_superseded(my_gen) {
            return StopStep { release_tailscale_states: release, next: StopNext::Yield };
        }
        let next = match point {
            StopPoint::GateHeld => StopNext::KillCore,
            StopPoint::CoreKilled => match kill {
                Ok(_) => StopNext::ClearRoutes,
                Err(e) => StopNext::Fail(e),
            },
            StopPoint::RoutesCleared => StopNext::ResetSession,
            StopPoint::DnsRestored => {
                self.status = ProxyStatus::default();
                self.startup_snapshot = None;
                self.restart_deferred = false;
                self.pending_force_restart = None;
                self.switch_snapshot = None;
                StopNext::Done
            },
        };
        StopStep { release_tailscale_states: release, next }
    }

    /// What a restart cleans up between the two cores. `leaves_system_proxy` says that the old core
    /// served the system's proxy setting and the new one does not; the modes are `None` where they
    /// cannot be read.
    pub fn restart_cleanup(
        stop_completed: bool,
        leaves_system_proxy: bool,
        old_is_tun: Option<bool>,
        new_is_tun: Option<bool>,
    ) -> (r: RestartCleanup)
        ensures
            r.clear_system_proxy == (stop_completed && leaves_system_proxy),
            r.wait_for_route == (stop_completed && old_is_tun == Some(true) && new_is_tun == Some(
                true,
            )),
    {
        let old_tun = match old_is_tun {
            Some(b) => b,
            None => false,
        };
        let new_tun = match new_is_tun {
            Some(b) => b,
            None => false,
        };
        RestartCleanup {
            clear_system_proxy: stop_completed && leaves_system_proxy,
            wait_for_route: stop_completed && old_tun && new_tun,
        }
    }
}

/// A stop that was superseded changes nothing of the runtime, whichever steps it still makes. Only
/// the last step of a stop that is still current writes, and after it the core does not run.
pub proof fn law_stop_writes_only_when_current(
    before: ProxyRuntime,
    after: ProxyRuntime,
    my_gen: u64,
    point: StopPoint,
    kill: Result<(), String>,
    r: StopStep,
)
    requires
        stops(before, after, my_gen, point, kill, r),
    ensures
        before.generation != my_gen ==> after == before && r.next is Yield,
        after != before ==> point == StopPoint::DnsRestored && before.generation == my_gen
            && !after.status@.running,
        after.generation == before.generation,
        after.current_config == before.current_config,
        r.next is Done ==> !after.status@.running && after.startup_snapshot is None,
{
}

/// A start opens a generation of its own, counts as under way until it ends, and whoever held an
/// older generation yields.
pub proof fn law_a_start_takes_over(
    rt: &mut ProxyRuntime,
    my_gen: u64,
    ended: &mut ProxyRuntime,
    other: u64,
    sweep_disabled: bool,
    r: StartEntry,
)
    requires
        call_ensures(ProxyRuntime::begin_start, (rt,), my_gen),
        *old(ended) == *final(rt),
        call_ensures(ProxyRuntime::end_start, (ended,), ()),
        call_ensures(ProxyRuntime::start_admitted, (final(rt), other, sweep_disabled), r),
    ensures
        my_gen != old(rt).generation,
        final(rt).generation == my_gen,
        old(rt).start_inflight < u32::MAX ==> final(rt).start_inflight == old(rt).start_inflight
            + 1,
        final(rt).status == old(rt).status,
        final(rt).current_config == old(rt).current_config,
        final(ended).start_inflight == old(rt).start_inflight,
        final(ended).generation == my_gen,
        r == StartEntry::Yield <==> other != my_gen,
        other == my_gen ==> r == (StartEntry::Proceed { sweep: !sweep_disabled }),
{
}

/// A start that is over is no longer under way. A core that runs is told of exactly where the
/// start is still current, and a failure always, with its own message and kind; only a failed start
/// that is current takes back what it set up.
pub proof fn law_how_a_start_is_settled(
    rt: &mut ProxyRuntime,
    my_gen: u64,
    result: Result<ProxyStatus, StartError>,
    r: StartSettlement,
    cleans: bool,
)
    requires
        call_ensures(ProxyRuntime::failed_start_cleans_up, (old(rt), my_gen, &result), cleans),
        call_ensures(ProxyRuntime::settle_start, (rt, my_gen, &result), r),
    ensures
        cleans <==> result is Err && old(rt).generation == my_gen,
        old(rt).start_inflight > 0 ==> final(rt).start_inflight == old(rt).start_inflight - 1,
        final(rt).status == old(rt).status,
        final(rt).generation == old(rt).generation,
        ({
            let up = result is Ok && result->Ok_0.running && old(rt).generation == my_gen;
            &&& r.push_pending_changes <==> up
            &&& result is Ok ==> (r.event is Some <==> up)
            &&& up ==> r.event->0.phase@ == "ready"@ && r.event->0.message is None
                && r.event->0.error_code is None
            &&& result matches Err(e) ==> {
                &&& r.event is Some
                &&& r.event->0.phase@ == "failed"@
                &&& r.event->0.error_code == e.code
                &&& r.event->0.message is Some
                &&& r.event->0.message->0@ == e.message@
            }
        }),
{
    if r.event is Some {
        assert(opt_view(r.event->0.message) == (match r.event->0.message {
            Some(m) => Some(m@),
            None => None,
        }));
    }
}

/// A stop that is current goes through its steps in their order, and one that is not yields at
/// each of them and changes nothing. The Tailscale state is released exactly where the core was
/// stopped, whoever goes on; a core that could not be stopped ends the stop with the reason.
pub proof fn law_a_stop_goes_through_its_steps(
    rt: &mut ProxyRuntime,
    my_gen: u64,
    point: StopPoint,
    kill: Result<(), String>,
    r: StopStep,
)
    requires
        call_ensures(ProxyRuntime::stop_step, (rt, my_gen, point, kill), r),
    ensures
        ({
            let current = old(rt).generation == my_gen;
            &&& r.release_tailscale_states <==> point == StopPoint::CoreKilled && kill is Ok
            &&& r.next is Yield <==> !current
            &&& r.next is KillCore <==> current && point == StopPoint::GateHeld
            &&& r.next is ClearRoutes <==> current && point == StopPoint::CoreKilled && kill is Ok
            &&& r.next is Fail <==> current && point == StopPoint::CoreKilled && kill is Err
            &&& r.next matches StopNext::Fail(e) ==> e@ == kill->Err_0@
            &&& r.next is ResetSession <==> current && point == StopPoint::RoutesCleared
            &&& r.next is Done <==> current && point == StopPoint::DnsRestored
            &&& r.next !is Done ==> *final(rt) == *old(rt)
            &&& r.next is Done ==> {
                &&& !final(rt).status.running
                &&& !final(rt).status.starting
                &&& final(rt).status.error is None
                &&& final(rt).status.error_code is None
                &&& final(rt).status.pid == 0
                &&& final(rt).status.start_time is None
                &&& final(rt).startup_snapshot is None
                &&& final(rt).switch_snapshot is None
                &&& final(rt).pending_force_restart is None
                &&& !final(rt).restart_deferred
                &&& final(rt).current_config == old(rt).current_config
                &&& final(rt).pending_switch == old(rt).pending_switch
                &&& final(rt).generation == old(rt).generation
            }
        }),
{
    assert(final(rt).status@.pid == final(rt).status.pid);
    assert(final(rt).status@.error == opt_view(final(rt).status.error));
}

/// Between two cores nothing is cleaned up unless the stop was complete; then the system's proxy is
/// cleared where it is left, and the route is waited for between two cores that take over all
/// traffic.
pub proof fn law_what_is_cleaned_up_between_two_cores(
    completed: bool,
    leaves: bool,
    old_tun: Option<bool>,
    new_tun: Option<bool>,
    r: RestartCleanup,
)
    requires
        call_ensures(ProxyRuntime::restart_cleanup, (completed, leaves, old_tun, new_tun), r),
    ensures
        !completed ==> !r.clear_system_proxy && !r.wait_for_route,
        completed ==> (r.clear_system_proxy <==> leaves),
        completed ==> (r.wait_for_route <==> old_tun == Some(true) && new_tun == Some(true)),
{
}

} // verus!
