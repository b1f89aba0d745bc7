//! Waiting for a core to come up: what counts as alive, and what is counted.

use vstd::prelude::*;

use crate::recovery::ChildState;
use crate::runtime::ProxyRuntime;
use crate::start_flow::ReadyOutcome;

verus! {

/// How long a look at the core's port may take.
pub const READY_PROBE_TIMEOUT_MS: u64 = 250;

/// A wait for a core. Which process is looked at is settled when the wait begins.
pub struct ReadyWait {
    pub my_gen: u64,
    pub via_helper: bool,
    pub helper_pid: Option<u32>,
    pub port_polls: u32,
    pub alive_probes: u32,
    pub alive_probe_us: u64,
    pub retries: u32,
}

impl ReadyWait {
    /// A wait begins.
    pub fn begin(rt: &ProxyRuntime, my_gen: u64) -> (r: Self)
        ensures
            r.my_gen == my_gen,
            r.via_helper == rt.core_via_helper,
            r.helper_pid == (if rt.core_via_helper {
                rt.pid
            } else {
                None
            }),
            r.port_polls == 0,
            r.alive_probes == 0,
            r.alive_probe_us == 0,
            r.retries == 0,
    {
        ReadyWait {
            my_gen,
            via_helper: rt.core_via_helper,
            helper_pid: if rt.core_via_helper {
                rt.pid
            } else {
                None
            },
            port_polls: 0,
            alive_probes: 0,
            alive_probe_us: 0,
            retries: 0,
        }
    }

    /// The core was probed, which took `took_us`. `helper_pid_alive` is what probing the helper's
    /// process said, and `child` the state of the runtime's own. Is the core alive?
    pub fn probed(&mut self, helper_pid_alive: bool, child: ChildState, took_us: u64) -> (alive: bool)
        ensures
            alive == (if old(self).via_helper {
                old(self).helper_pid is Some && helper_pid_alive
            } else {
                child == ChildState::Running
            }),
            *final(self) == (ReadyWait {
                alive_probes: old(self).alive_probes.wrapping_add(1),
                alive_probe_us: old(self).alive_probe_us.wrapping_add(took_us),
                ..*old(self)
            }),
    {
        self.alive_probes = self.alive_probes.wrapping_add(1);
        self.alive_probe_us = self.alive_probe_us.wrapping_add(took_us);
        if self.via_helper {
            self.helper_pid.is_some() && helper_pid_alive
        } else {
            child == ChildState::Running
        }
    }

    /// The port of the core is looked at.
    pub fn polled(&mut self)
        ensures
            *final(self) == (ReadyWait {
                port_polls: old(self).port_polls.wrapping_add(1),
                ..*old(self)
            }),
    {
        self.port_polls = self.port_polls.wrapping_add(1);
    }

    /// The core is not up yet and is waited for on.
    pub fn retried(&mut self)
        ensures
            *final(self) == (ReadyWait { retries: old(self).retries.wrapping_add(1), ..*old(self) }),
    {
        self.retries = self.retries.wrapping_add(1);
    }

    /// Has another operation taken over?
    pub fn superseded(&self, rt: &ProxyRuntime) -> (r: bool)
        ensures
            r == (rt.generation != self.my_gen),
    {
        rt.generation != self.my_gen
    }

    /// The wait is over. Only that of a core which came up is counted; the retries that it took.
    pub fn finish(self, outcome: ReadyOutcome) -> (r: Option<u32>)
        ensures
            r == (if outcome == ReadyOutcome::Ready {
                Some(self.retries)
            } else {
                None
            }),
    {
        if outcome == ReadyOutcome::Ready {
            Some(self.retries)
        } else {
            None
        }
    }
}

/// A core counts as alive by the process that the wait began with: the helper's where it started
/// the core, and the runtime's own otherwise. The other one does not count.
pub proof fn law_a_wait_looks_at_its_own_process(
    rt: ProxyRuntime,
    my_gen: u64,
    begun: ReadyWait,
    wait: &mut ReadyWait,
    helper_alive: bool,
    child: ChildState,
    took: u64,
    alive: bool,
)
    requires
        call_ensures(ReadyWait::begin, (&rt, my_gen), begun),
        call_ensures(ReadyWait::probed, (wait, helper_alive, child, took), alive),
    ensures
        begun.my_gen == my_gen,
        begun.via_helper == rt.core_via_helper,
        rt.core_via_helper ==> begun.helper_pid == rt.pid,
        begun.port_polls == 0 && begun.alive_probes == 0 && begun.alive_probe_us == 0
            && begun.retries == 0,
        old(wait).via_helper ==> (alive <==> helper_alive && old(wait).helper_pid is Some),
        !old(wait).via_helper ==> (alive <==> child == ChildState::Running),
        old(wait).alive_probes < u32::MAX ==> final(wait).alive_probes == old(wait).alive_probes + 1,
        old(wait).alive_probe_us + took <= u64::MAX ==> final(wait).alive_probe_us == old(
            wait,
        ).alive_probe_us + took,
        final(wait).port_polls == old(wait).port_polls,
        final(wait).retries == old(wait).retries,
        final(wait).my_gen == old(wait).my_gen,
        final(wait).via_helper == old(wait).via_helper,
        final(wait).helper_pid == old(wait).helper_pid,
{
}

/// Looks and retries are counted one by one and apart, and only a core that came up has its
/// retries counted.
pub proof fn law_a_wait_counts_one_by_one(
    looked: &mut ReadyWait,
    tried: &mut ReadyWait,
    wait: ReadyWait,
    outcome: ReadyOutcome,
    r: Option<u32>,
    rt: ProxyRuntime,
    over: bool,
)
    requires
        call_ensures(ReadyWait::polled, (looked,), ()),
        call_ensures(ReadyWait::retried, (tried,), ()),
        call_ensures(ReadyWait::finish, (wait, outcome), r),
        call_ensures(ReadyWait::superseded, (&wait, &rt), over),
    ensures
        old(looked).port_polls < u32::MAX ==> *final(looked) == (ReadyWait {
            port_polls: (old(looked).port_polls + 1) as u32,
            ..*old(looked)
        }),
        old(tried).retries < u32::MAX ==> *final(tried) == (ReadyWait {
            retries: (old(tried).retries + 1) as u32,
            ..*old(tried)
        }),
        r is Some <==> outcome == ReadyOutcome::Ready,
        r is Some ==> r->0 == wait.retries,
        over <==> rt.generation != wait.my_gen,
{
}

} // verus!
