//! Changes of the network: following them, waiting until they have settled, and closing what they
//! left open.

use vstd::arithmetic::power2::{lemma2_to64, lemma_pow2_strictly_increases, lemma_pow2_unfold, pow2};
use vstd::prelude::*;

use crate::platform::Platform;
use crate::runtime::{only_status_differs, same_session, shows, ProxyRuntime};
use crate::status::{ErrorCode, StatusView};
use crate::text::{lemma_occurs_between, occurs_in, opt_view, same_texts, views};

verus! {

/// Changes within this time of each other count as one.
pub const NETWORK_WATCHER_DEBOUNCE_MS: u64 = 1500;

/// The longest pause before the watcher is started again.
pub const NETWORK_WATCHER_RESTART_MAX_SECS: u64 = 30;

/// A watcher that ran this long has not failed in a row.
pub const NETWORK_WATCHER_STABLE_MS: u64 = 60000;

/// The pause before connections from before the start are closed.
pub const CONNECTION_FLUSH_DELAY_MS: u64 = 1500;

/// How often the pause doubles after so many failures in a row.
pub open spec fn restart_doublings(failures: u32) -> nat {
    if failures <= 1 {
        0
    } else if failures > 6 {
        5
    } else {
        (failures - 1) as nat
    }
}

/// The pause in seconds before the watcher is started again after so many failures in a row.
pub open spec fn restart_delay(failures: u32) -> nat {
    let d = pow2(restart_doublings(failures));
    if d > NETWORK_WATCHER_RESTART_MAX_SECS {
        NETWORK_WATCHER_RESTART_MAX_SECS as nat
    } else {
        d
    }
}

/// The pause in seconds before the watcher is started again.
pub fn network_watcher_restart_delay(consecutive_failures: u32) -> (r: u64)
    ensures
        r == restart_delay(consecutive_failures),
{
    let mut left: u32 = if consecutive_failures <= 1 {
        0
    } else if consecutive_failures > 6 {
        5
    } else {
        consecutive_failures - 1
    };
    let ghost total = restart_doublings(consecutive_failures);
    let mut delay: u64 = 1;
    proof {
        lemma2_to64();
    }
    while left > 0
        invariant
            left <= total <= 5,
            delay == pow2((total - left) as nat),
        decreases left,
    {
        proof {
            lemma_pow2_unfold((total - left + 1) as nat);
            lemma2_to64();
            if total - left < 5 {
                lemma_pow2_strictly_increases((total - left) as nat, 5);
            }
        }
        delay = delay * 2;
        left -= 1;
    }
    if delay > NETWORK_WATCHER_RESTART_MAX_SECS {
        NETWORK_WATCHER_RESTART_MAX_SECS
    } else {
        delay
    }
}

/// The pause is at least a second and at most half a minute, and never shorter after more failures.
pub proof fn law_restart_delay_is_bounded_and_grows(fewer: u32, more: u32)
    requires
        fewer <= more,
    ensures
        1 <= restart_delay(fewer) <= restart_delay(more) <= NETWORK_WATCHER_RESTART_MAX_SECS,
{
    let a = restart_doublings(fewer);
    let b = restart_doublings(more);
    lemma2_to64();
    if a < b {
        lemma_pow2_strictly_increases(a, b);
    }
    if 0 < a {
        lemma_pow2_strictly_increases(0, a);
    }
}

/// The failures in a row after the watcher ended having run for `ran_ms`.
pub fn next_failure_count(consecutive_failures: u32, ran_ms: u64) -> (r: u32)
    ensures
        r == (if ran_ms >= NETWORK_WATCHER_STABLE_MS {
            1
        } else if consecutive_failures == u32::MAX {
            u32::MAX as int
        } else {
            consecutive_failures + 1
        }),
{
    if ran_ms >= NETWORK_WATCHER_STABLE_MS {
        1
    } else {
        consecutive_failures.saturating_add(1)
    }
}

/// The command whose output tells of changes.
pub struct WatchCommand {
    pub program: String,
    pub args: Vec<String>,
}

/// The words of a command line, separated by spaces.
pub open spec fn spaced(words: Seq<Seq<char>>) -> Seq<char>
    decreases words.len(),
{
    if words.len() == 0 {
        Seq::empty()
    } else if words.len() == 1 {
        words[0]
    } else {
        spaced(words.drop_last()) + " "@ + words.last()
    }
}

fn spaced_text(words: &Vec<String>) -> (r: String)
    ensures
        r@ == spaced(views(words@)),
{
    let mut out: String = String::new();
    let mut i: usize = 0;
    while i < words.len()
        invariant
            i <= words@.len(),
            out@ == spaced(views(words@).take(i as int)),
        decreases words@.len() - i,
    {
        assert(views(words@).take(i + 1).drop_last() =~= views(words@).take(i as int));
        if i == 0 {
            out = words[0].clone();
        } else {
            out = out.concat(" ").concat(words[i].as_str());
        }
        i += 1;
    }
    assert(views(words@).take(i as int) =~= views(words@));
    out
}

/// Where changes of the network are told of.
pub enum WatchSource {
    /// A command that prints them.
    Command(WatchCommand),
    /// The system, which is asked to tell of them.
    Subscription,
    /// Nowhere.
    Nowhere,
}

/// Where changes are told of on this platform. `ip_program` is where the command of Linux is.
pub fn watch_source(platform: Platform, ip_program: &str) -> (r: WatchSource)
    ensures
        match platform {
            Platform::Linux => {
                &&& r matches WatchSource::Command(c)
                &&& c.program@ == ip_program@
                &&& views(c.args@) == seq!["monitor"@, "link"@, "address"@, "route"@, "label"@]
            },
            Platform::Mac => {
                &&& r matches WatchSource::Command(c)
                &&& c.program@ == "route"@
                &&& views(c.args@) == seq!["-n"@, "monitor"@]
            },
            Platform::Win => r is Subscription,
            Platform::Other => r is Nowhere,
        },
{
    match platform {
        Platform::Linux => {
            let mut args: Vec<String> = Vec::new();
            args.push("monitor".to_owned());
            args.push("link".to_owned());
            args.push("address".to_owned());
            args.push("route".to_owned());
            args.push("label".to_owned());
            assert(views(args@) =~= seq!["monitor"@, "link"@, "address"@, "route"@, "label"@]);
            WatchSource::Command(WatchCommand { program: ip_program.to_owned(), args })
        },
        Platform::Mac => {
            let mut args: Vec<String> = Vec::new();
            args.push("-n".to_owned());
            args.push("monitor".to_owned());
            assert(views(args@) =~= seq!["-n"@, "monitor"@]);
            WatchSource::Command(WatchCommand { program: "route".to_owned(), args })
        },
        Platform::Win => WatchSource::Subscription,
        Platform::Other => WatchSource::Nowhere,
    }
}

/// Why a subscription ended.
pub enum SubscriptionEnd {
    NotSubscribed(String),
    Closed,
}

impl SubscriptionEnd {
    /// What is said when the subscription ended.
    pub open spec fn text(self) -> Seq<char> {
        match self {
            SubscriptionEnd::NotSubscribed(e) => "订阅 Windows 接口/路由变化失败："@ + e@,
            SubscriptionEnd::Closed => "Windows IP 接口事件流已关闭"@,
        }
    }

    /// What is said when the subscription ended.
    pub fn message(&self) -> (r: String)
        ensures
            r@ == self.text(),
    {
        match self {
            SubscriptionEnd::NotSubscribed(e) => "订阅 Windows 接口/路由变化失败：".to_owned().concat(
                e.as_str(),
            ),
            SubscriptionEnd::Closed => "Windows IP 接口事件流已关闭".to_owned(),
        }
    }
}

/// Why a watcher ended.
pub enum WatchEnd {
    SpawnFailed(String),
    NoOutput,
    /// The output ended; the exit of the process in words.
    OutputEnded(String),
    ReadFailed(String),
}

impl WatchCommand {
    /// What is said when the watcher ended.
    pub open spec fn end_text(self, end: WatchEnd) -> Seq<char> {
        match end {
            WatchEnd::SpawnFailed(e) => "起 `"@ + self.program@ + " "@ + spaced(views(self.args@))
                + "` 失败："@ + e@,
            WatchEnd::NoOutput => "`"@ + self.program@ + "` 未提供 stdout"@,
            WatchEnd::OutputEnded(s) => "`"@ + self.program@ + "` 输出流 EOF（status="@ + s@ + "）"@,
            WatchEnd::ReadFailed(e) => "读取 `"@ + self.program@ + "` 事件流失败："@ + e@,
        }
    }

    /// What is said when the watcher ended.
    pub fn end_message(&self, end: &WatchEnd) -> (r: String)
        ensures
            r@ == self.end_text(*end),
    {
        match end {
            WatchEnd::SpawnFailed(e) => {
                let args = spaced_text(&self.args);
                "起 `".to_owned().concat(self.program.as_str()).concat(" ").concat(
                    args.as_str(),
                ).concat("` 失败：").concat(e.as_str())
            },
            WatchEnd::NoOutput => "`".to_owned().concat(self.program.as_str()).concat(
                "` 未提供 stdout",
            ),
            WatchEnd::OutputEnded(s) => "`".to_owned().concat(self.program.as_str()).concat(
                "` 输出流 EOF（status=",
            ).concat(s.as_str()).concat("）"),
            WatchEnd::ReadFailed(e) => "读取 `".to_owned().concat(self.program.as_str()).concat(
                "` 事件流失败：",
            ).concat(e.as_str()),
        }
    }
}

/// What collects changes until none has come in for a while.
pub struct ChangeWindow {
    /// When the collected changes are due, in milliseconds.
    pub deadline: Option<u64>,
}

impl ChangeWindow {
    /// Nothing has been collected.
    pub fn new() -> (r: Self)
        ensures
            r.deadline is None,
    {
        ChangeWindow { deadline: None }
    }

    /// Something happened at `now_ms`: whatever was collected waits on.
    pub fn observed(&mut self, now_ms: u64, event: bool)
        requires
            now_ms + NETWORK_WATCHER_DEBOUNCE_MS <= u64::MAX,
        ensures
            final(self).deadline == (if event {
                Some((now_ms + NETWORK_WATCHER_DEBOUNCE_MS) as u64)
            } else {
                old(self).deadline
            }),
    {
        if event {
            self.deadline = Some(now_ms + NETWORK_WATCHER_DEBOUNCE_MS);
        }
    }

    /// The wait is over: what was collected is dealt with now.
    pub fn elapsed(&mut self)
        ensures
            final(self).deadline is None,
    {
        self.deadline = None;
    }
}

/// What a change of the network leads to.
#[derive(Clone, Copy, PartialEq, Eq, Structural, Debug)]
pub enum NetworkChangeNext {
    /// The bindings of the nodes are planned anew by a restart.
    ScheduleRestart,
    /// What depends on the network is asked again.
    ScheduleRefresh,
}

/// What the runtime remembers of the interfaces that nodes are bound to.
pub struct BindingState {
    /// The interfaces as they were last seen, in an opaque form.
    pub fingerprint: Option<String>,
    /// The interfaces that the user bound nodes to and that were missing.
    pub unavailable: Vec<String>,
}

/// The interfaces as they are seen now.
pub struct InterfacesSeen {
    pub fingerprint: String,
    pub unavailable: Vec<String>,
    /// What is said of those that are missing.
    pub diagnostic: String,
}

/// The applied configuration, as far as a change of the network concerns it.
#[derive(Clone, Copy, PartialEq, Eq, Structural, Debug)]
pub struct BindingNeeds {
    pub is_tun: bool,
    /// It has nodes whose binding is inferred.
    pub has_inferred_bindings: bool,
}

/// The interfaces that are missing now. Where they could not be looked at, those from before.
pub open spec fn missing_now(state: BindingState, seen: Option<InterfacesSeen>) -> Seq<Seq<char>> {
    match seen {
        Some(s) => views(s.unavailable@),
        None => views(state.unavailable@),
    }
}

/// What a change of the network leads to.
pub open spec fn network_change_next(
    state: BindingState,
    needs: Option<BindingNeeds>,
    seen: Option<InterfacesSeen>,
    inferred_changed: bool,
) -> NetworkChangeNext {
    match needs {
        Some(n) => if missing_now(state, seen).len() == 0 && (state.unavailable@.len() > 0 || (
        n.is_tun && n.has_inferred_bindings && inferred_changed)) {
            NetworkChangeNext::ScheduleRestart
        } else {
            NetworkChangeNext::ScheduleRefresh
        },
        None => NetworkChangeNext::ScheduleRefresh,
    }
}

/// The status after the missing interfaces were looked at.
pub open spec fn status_after_look(
    state: BindingState,
    seen: Option<InterfacesSeen>,
    s: StatusView,
) -> StatusView {
    match seen {
        Some(o) => if views(o.unavailable@) == views(state.unavailable@) {
            s
        } else if o.unavailable@.len() > 0 {
            StatusView {
                error: Some(o.diagnostic@),
                error_code: Some(ErrorCode::OutboundInterfaceUnavailable),
                ..s
            }
        } else if s.error_code == Some(ErrorCode::OutboundInterfaceUnavailable) {
            StatusView { error: None, error_code: None, ..s }
        } else {
            s
        },
        None => s,
    }
}

/// What is remembered after a change of the network.
pub open spec fn binding_state_follows(
    before: BindingState,
    after: BindingState,
    seen: Option<InterfacesSeen>,
) -> bool {
    match seen {
        Some(o) => after.fingerprint == Some(o.fingerprint) && after.unavailable == o.unavailable,
        None => after == before,
    }
}

impl ProxyRuntime {
    /// The network has changed. `needs` is what the applied configuration needs, where it can be
    /// read, and `seen` are the interfaces, where they could be looked at.
    /// An interface that the user bound nodes to and that is missing is said, and its coming back
    /// takes that back and restarts the core; with none missing, a change of what bindings were
    /// inferred from restarts it too.
    pub fn handle_network_change(
        &mut self,
        state: &mut BindingState,
        needs: Option<BindingNeeds>,
        seen: Option<InterfacesSeen>,
        inferred_changed: bool,
    ) -> (r: NetworkChangeNext)
        ensures
            r == network_change_next(*old(state), needs, seen, inferred_changed),
            match needs {
                Some(_) => {
                    &&& binding_state_follows(*old(state), *final(state), seen)
                    &&& final(self).status@ == status_after_look(
                        *old(state),
                        seen,
                        old(self).status@,
                    )
                    &&& *final(self) == (ProxyRuntime {
                        status: final(self).status,
                        ..*old(self)
                    })
                },
                None => *final(self) == *old(self) && *final(state) == *old(state),
            },
    {
        let n = match needs {
            Some(n) => n,
            None => {
                return NetworkChangeNext::ScheduleRefresh;
            },
        };
        let missing_before = state.unavailable.len() > 0;
        if let Some(o) = seen {
            if !same_texts(&o.unavailable, &state.unavailable) {
                if o.unavailable.len() == 0 {
                    self.clear_nonfatal_error_if(ErrorCode::OutboundInterfaceUnavailable);
                } else {
                    self.set_nonfatal_error(
                        o.diagnostic.as_str(),
                        ErrorCode::OutboundInterfaceUnavailable,
                    );
                }
            }
            state.fingerprint = Some(o.fingerprint);
            state.unavailable = o.unavailable;
        }
        if state.unavailable.len() > 0 {
            return NetworkChangeNext::ScheduleRefresh;
        }
        if missing_before || (n.is_tun && n.has_inferred_bindings && inferred_changed) {
            NetworkChangeNext::ScheduleRestart
        } else {
            NetworkChangeNext::ScheduleRefresh
        }
    }
}

/// A core is never restarted into a network that lacks an interface it is bound to.
pub proof fn law_no_restart_while_an_interface_is_missing(
    state: BindingState,
    needs: Option<BindingNeeds>,
    seen: Option<InterfacesSeen>,
    inferred_changed: bool,
)
    requires
        missing_now(state, seen).len() > 0,
    ensures
        network_change_next(state, needs, seen, inferred_changed)
            == NetworkChangeNext::ScheduleRefresh,
{
}

/// One loss of interfaces restarts the core once: the change after which they are back restarts
/// it, and the same observation again does not.
pub proof fn law_a_recovery_restarts_once(
    before: BindingState,
    after: BindingState,
    needs: BindingNeeds,
    seen: InterfacesSeen,
)
    requires
        before.unavailable@.len() > 0,
        seen.unavailable@.len() == 0,
        binding_state_follows(before, after, Some(seen)),
    ensures
        network_change_next(before, Some(needs), Some(seen), false)
            == NetworkChangeNext::ScheduleRestart,
        network_change_next(after, Some(needs), Some(seen), false)
            == NetworkChangeNext::ScheduleRefresh,
{
}

/// What holds up those who wait for the network to settle.
pub struct NetworkSettleGate {
    pub pending: u32,
}

impl NetworkSettleGate {
    /// Nothing holds up anyone.
    pub fn new() -> (r: Self)
        ensures
            r.pending == 0,
    {
        NetworkSettleGate { pending: 0 }
    }

    /// Something begins that changes the network.
    pub fn begin(&mut self)
        requires
            old(self).pending < u32::MAX,
        ensures
            final(self).pending == old(self).pending + 1,
    {
        self.pending = self.pending + 1;
    }

    /// It has ended. `true` where it was the last, and those who wait are woken.
    pub fn end(&mut self) -> (wake: bool)
        requires
            old(self).pending > 0,
        ensures
            final(self).pending == old(self).pending - 1,
            wake == (final(self).pending == 0),
    {
        self.pending = self.pending - 1;
        self.pending == 0
    }

    /// How much holds them up.
    pub fn pending(&self) -> (r: u32)
        ensures
            r == self.pending,
    {
        self.pending
    }

    /// Has the network settled?
    pub fn is_settled(&self) -> (r: bool)
        ensures
            r == (self.pending == 0),
    {
        self.pending == 0
    }
}

/// How closing the connections from before the start ended, or why it was not begun.
#[derive(Debug)]
pub enum FlushOutcome {
    SkippedNotTun,
    SkippedSuperseded,
    SkippedCoreStopped,
    ConnectFailed(String),
    SnapshotTimeout,
    CallFailed(String),
    Flushed { closed: usize, failed: usize },
}

/// How closing the connections goes on.
pub enum FlushNext {
    End(FlushOutcome),
    /// Connect to the core.
    Connect,
    /// Close its connections.
    Close,
}

/// What the core answered when asked to close its connections.
pub enum FlushReply {
    Closed { closed: usize, failed: usize },
    SnapshotTimeout,
    Failed(String),
}

impl ProxyRuntime {
    /// May the connections from before the start be closed? Only those of a core that takes over
    /// all traffic, is of this generation and runs.
    pub fn flush_admitted(&self, is_tun: bool, my_gen: u64) -> (r: FlushNext)
        ensures
            r == (if !is_tun {
                FlushNext::End(FlushOutcome::SkippedNotTun)
            } else if self.generation != my_gen {
                FlushNext::End(FlushOutcome::SkippedSuperseded)
            } else if !self.status@.running {
                FlushNext::End(FlushOutcome::SkippedCoreStopped)
            } else {
                FlushNext::Connect
            }),
    {
        if !is_tun {
            return FlushNext::End(FlushOutcome::SkippedNotTun);
        }
        if self.generation != my_gen {
            return FlushNext::End(FlushOutcome::SkippedSuperseded);
        }
        if !self.core_running() {
            return FlushNext::End(FlushOutcome::SkippedCoreStopped);
        }
        FlushNext::Connect
    }

    /// The core was connected to, or could not be. Another core may answer at its port by now, so
    /// the generation counts once more.
    pub fn flush_connected(&self, my_gen: u64, connected: Result<(), String>) -> (r: FlushNext)
        ensures
            r == (match connected {
                Err(e) => FlushNext::End(FlushOutcome::ConnectFailed(e)),
                Ok(_) => if self.generation != my_gen {
                    FlushNext::End(FlushOutcome::SkippedSuperseded)
                } else {
                    FlushNext::Close
                },
            }),
    {
        match connected {
            Err(e) => FlushNext::End(FlushOutcome::ConnectFailed(e)),
            Ok(_) => if self.generation != my_gen {
                FlushNext::End(FlushOutcome::SkippedSuperseded)
            } else {
                FlushNext::Close
            },
        }
    }
}

/// How closing the connections ended.
pub fn flush_replied(reply: FlushReply) -> (r: FlushOutcome)
    ensures
        r == (match reply {
            FlushReply::Closed { closed, failed } => FlushOutcome::Flushed { closed, failed },
            FlushReply::SnapshotTimeout => FlushOutcome::SnapshotTimeout,
            FlushReply::Failed(e) => FlushOutcome::CallFailed(e),
        }),
{
    match reply {
        FlushReply::Closed { closed, failed } => FlushOutcome::Flushed { closed, failed },
        FlushReply::SnapshotTimeout => FlushOutcome::SnapshotTimeout,
        FlushReply::Failed(e) => FlushOutcome::CallFailed(e),
    }
}

/// The pause is a second after the first failure and doubles with each further one up to half a
/// minute, where it stays.
pub proof fn law_the_pause_doubles_up_to_half_a_minute(
    failures: u32,
    r: u64,
    next: u64,
    first: u64,
    none: u64,
)
    requires
        1 <= failures < u32::MAX,
        call_ensures(network_watcher_restart_delay, (failures,), r),
        call_ensures(network_watcher_restart_delay, ((failures + 1) as u32,), next),
        call_ensures(network_watcher_restart_delay, (1,), first),
        call_ensures(network_watcher_restart_delay, (0,), none),
    ensures
        first == 1,
        none == 1,
        r <= 15 ==> next == 2 * r,
        r > 15 ==> next == 30,
{
    lemma2_to64();
}

/// A watcher that ran for a minute has failed once; any other has failed once more than before.
pub proof fn law_a_long_run_forgets_the_failures(failures: u32, ran_ms: u64, r: u32)
    requires
        call_ensures(next_failure_count, (failures, ran_ms), r),
    ensures
        ran_ms >= 60000 ==> r == 1,
        ran_ms < 60000 && failures < u32::MAX ==> r == failures + 1,
        ran_ms < 60000 && failures == u32::MAX ==> r == failures,
{
}

/// Changes are told of by a command on two platforms, by the system on one, and nowhere else; the
/// command is the platform's own, and on one of them the program that was found.
pub proof fn law_where_changes_are_told_of(platform: Platform, ip: &str, r: WatchSource)
    requires
        call_ensures(watch_source, (platform, ip), r),
    ensures
        r is Command <==> platform == Platform::Linux || platform == Platform::Mac,
        r is Subscription <==> platform == Platform::Win,
        r is Nowhere <==> platform == Platform::Other,
        platform == Platform::Linux ==> r->Command_0.program@ == ip@ && views(
            r->Command_0.args@,
        ).contains("monitor"@) && views(r->Command_0.args@).contains("route"@) && views(
            r->Command_0.args@,
        ).contains("address"@) && views(r->Command_0.args@).contains("link"@),
        platform == Platform::Mac ==> r->Command_0.program@ == "route"@ && views(
            r->Command_0.args@,
        ).contains("monitor"@),
{
    if platform == Platform::Linux {
        let a = views(r->Command_0.args@);
        assert(a[0] == "monitor"@ && a[1] == "link"@ && a[2] == "address"@ && a[3] == "route"@);
    }
    if platform == Platform::Mac {
        let a = views(r->Command_0.args@);
        assert(a[1] == "monitor"@);
    }
}

/// What is said when a watcher or a subscription ended names the program and the reason.
pub proof fn law_the_end_of_a_watch_is_explained(
    command: WatchCommand,
    end: WatchEnd,
    r: String,
    over: SubscriptionEnd,
    q: String,
)
    requires
        call_ensures(WatchCommand::end_message, (&command, &end), r),
        call_ensures(SubscriptionEnd::message, (&over,), q),
    ensures
        occurs_in(r@, command.program@),
        end matches WatchEnd::SpawnFailed(e) ==> occurs_in(r@, e@),
        end matches WatchEnd::OutputEnded(e) ==> occurs_in(r@, e@),
        end matches WatchEnd::ReadFailed(e) ==> occurs_in(r@, e@),
        over matches SubscriptionEnd::NotSubscribed(e) ==> occurs_in(q@, e@),
{
    match end {
        WatchEnd::SpawnFailed(e) => {
            lemma_both_named(
                "起 `"@,
                command.program@,
                " "@ + spaced(views(command.args@)) + "` 失败："@,
                e@,
                Seq::empty(),
            );
            assert(r@ =~= "起 `"@ + command.program@ + (" "@ + spaced(views(command.args@))
                + "` 失败："@) + e@ + Seq::empty());
        },
        WatchEnd::NoOutput => {
            lemma_occurs_between(r@, "`"@, command.program@, "` 未提供 stdout"@);
        },
        WatchEnd::OutputEnded(e) => {
            lemma_both_named("`"@, command.program@, "` 输出流 EOF（status="@, e@, "）"@);
        },
        WatchEnd::ReadFailed(e) => {
            lemma_both_named("读取 `"@, command.program@, "` 事件流失败："@, e@, Seq::empty());
            assert(r@ =~= "读取 `"@ + command.program@ + "` 事件流失败："@ + e@ + Seq::empty());
        },
    }
    if let SubscriptionEnd::NotSubscribed(e) = over {
        lemma_occurs_between(q@, "订阅 Windows 接口/路由变化失败："@, e@, Seq::empty());
    }
}

proof fn lemma_both_named(a: Seq<char>, x: Seq<char>, b: Seq<char>, y: Seq<char>, c: Seq<char>)
    ensures
        occurs_in(a + x + b + y + c, x),
        occurs_in(a + x + b + y + c, y),
{
    lemma_occurs_between(a + x + b + y + c, a, x, b + y + c);
    lemma_occurs_between(a + x + b + y + c, a + x + b, y, c);
}

/// Every change puts off what was collected by the same time, nothing else does, and once it was
/// dealt with nothing is collected.
pub proof fn law_changes_are_collected_until_none_comes(
    w: &mut ChangeWindow,
    now_ms: u64,
    event: bool,
    over: &mut ChangeWindow,
    fresh: ChangeWindow,
)
    requires
        now_ms + 1500 <= u64::MAX,
        call_ensures(ChangeWindow::observed, (w, now_ms, event), ()),
        call_ensures(ChangeWindow::elapsed, (over,), ()),
        call_ensures(ChangeWindow::new, (), fresh),
    ensures
        event ==> final(w).deadline is Some && final(w).deadline->0 == now_ms + 1500,
        !event ==> final(w).deadline == old(w).deadline,
        final(over).deadline is None,
        fresh.deadline is None,
{
}

/// A change of the network restarts the core exactly where no interface that it is bound to is
/// missing now and one was, or where what the bindings of a core that takes over all traffic were
/// inferred from has changed. Interfaces that have gone missing are said, those that are back take
/// that back, and what was seen is remembered; without a readable configuration nothing changes.
pub proof fn law_what_a_change_of_the_network_leads_to(
    rt: &mut ProxyRuntime,
    state: &mut BindingState,
    needs: Option<BindingNeeds>,
    seen: Option<InterfacesSeen>,
    inferred: bool,
    r: NetworkChangeNext,
)
    requires
        call_ensures(ProxyRuntime::handle_network_change, (rt, state, needs, seen, inferred), r),
    ensures
        ({
            let missing = if seen is Some {
                seen->0.unavailable@.len()
            } else {
                old(state).unavailable@.len()
            };
            let was = old(state).unavailable@.len() > 0;
            let replan = needs is Some && needs->0.is_tun && needs->0.has_inferred_bindings
                && inferred;
            &&& r == NetworkChangeNext::ScheduleRestart <==> needs is Some && missing == 0 && (was
                || replan)
            &&& needs is None || seen is None ==> *final(rt) == *old(rt) || (final(rt).status@
                == old(rt).status@ && only_status_differs(*old(rt), *final(rt)))
            &&& needs is None || seen is None ==> *final(state) == *old(state)
            &&& needs is Some && seen is Some ==> {
                &&& final(state).fingerprint == Some(seen->0.fingerprint)
                &&& final(state).unavailable == seen->0.unavailable
            }
            &&& needs is Some && seen is Some && missing > 0 && views(seen->0.unavailable@)
                != views(old(state).unavailable@) ==> shows(
                *final(rt),
                seen->0.diagnostic@,
                ErrorCode::OutboundInterfaceUnavailable,
            )
            &&& needs is Some && seen is Some && missing == 0 && was && old(rt).status.error_code
                == Some(ErrorCode::OutboundInterfaceUnavailable) ==> final(rt).status.error is None
                && final(rt).status.error_code is None
            &&& missing == 0 && old(rt).status.error_code != Some(
                ErrorCode::OutboundInterfaceUnavailable,
            ) ==> final(rt).status.error_code == old(rt).status.error_code && opt_view(
                final(rt).status.error,
            ) == opt_view(old(rt).status.error)
            &&& same_session(old(rt).status, final(rt).status)
            &&& only_status_differs(*old(rt), *final(rt))
        }),
{
    assert(final(rt).status@.pid == final(rt).status.pid && old(rt).status@.pid == old(
        rt,
    ).status.pid);
    assert(final(rt).status@.error == opt_view(final(rt).status.error));
    assert(old(rt).status@.error == opt_view(old(rt).status.error));
    if seen is Some {
        assert(views(seen->0.unavailable@).len() == seen->0.unavailable@.len());
    }
    assert(views(old(state).unavailable@).len() == old(state).unavailable@.len());
}

/// The network has settled exactly where everything that began has ended, and the last to end is
/// the one that wakes those who wait.
pub proof fn law_the_last_to_end_wakes(
    a: &mut NetworkSettleGate,
    b: &mut NetworkSettleGate,
    wake: bool,
    settled_before: bool,
    settled_after: bool,
    fresh: NetworkSettleGate,
    count: u32,
)
    requires
        old(a).pending < u32::MAX,
        call_ensures(NetworkSettleGate::begin, (a,), ()),
        old(b).pending > 0,
        call_ensures(NetworkSettleGate::end, (b,), wake),
        call_ensures(NetworkSettleGate::is_settled, (final(a),), settled_before),
        call_ensures(NetworkSettleGate::is_settled, (final(b),), settled_after),
        call_ensures(NetworkSettleGate::new, (), fresh),
        call_ensures(NetworkSettleGate::pending, (final(a),), count),
    ensures
        final(a).pending == old(a).pending + 1,
        !settled_before,
        final(b).pending == old(b).pending - 1,
        wake <==> old(b).pending == 1,
        settled_after <==> wake,
        fresh.pending == 0,
        count == old(a).pending + 1,
{
}

/// Connections are closed only of a core that takes over all traffic, is of this generation and
/// runs, and only where that generation is still current once it has been connected to. Each way
/// not to has its own outcome, and the core's reply is the outcome.
pub proof fn law_when_connections_are_closed(
    rt: ProxyRuntime,
    is_tun: bool,
    my_gen: u64,
    r: FlushNext,
    connected: Result<(), String>,
    q: FlushNext,
    reply: FlushReply,
    outcome: FlushOutcome,
)
    requires
        call_ensures(ProxyRuntime::flush_admitted, (&rt, is_tun, my_gen), r),
        call_ensures(ProxyRuntime::flush_connected, (&rt, my_gen, connected), q),
        call_ensures(flush_replied, (reply,), outcome),
    ensures
        r is Connect <==> is_tun && rt.generation == my_gen && rt.status.running,
        r is Connect || r is End,
        r == FlushNext::End(FlushOutcome::SkippedNotTun) <==> !is_tun,
        r == FlushNext::End(FlushOutcome::SkippedSuperseded) <==> is_tun && rt.generation != my_gen,
        r == FlushNext::End(FlushOutcome::SkippedCoreStopped) <==> is_tun && rt.generation
            == my_gen && !rt.status.running,
        q is Close <==> connected is Ok && rt.generation == my_gen,
        connected matches Err(e) ==> q == FlushNext::End(FlushOutcome::ConnectFailed(e)),
        connected is Ok && rt.generation != my_gen ==> q == FlushNext::End(
            FlushOutcome::SkippedSuperseded,
        ),
        reply matches FlushReply::Closed { closed, failed } ==> outcome == (FlushOutcome::Flushed {
            closed,
            failed,
        }),
        reply is SnapshotTimeout ==> outcome is SnapshotTimeout,
        reply matches FlushReply::Failed(e) ==> outcome == FlushOutcome::CallFailed(e),
{
    assert(rt.status@.running == rt.status.running);
}

} // verus!
