//! The processes of cores: which are alive, which are ours, and stopping them.

use vstd::prelude::*;

use crate::peel::opt_str_view;
use crate::runtime::{failed_status, only_status_differs, same_session, shows, ProxyRuntime};
use crate::status::{ErrorCode, ProxyStatus, StartError, StartErrorView, StatusView};
use crate::text::{
    chars_at, chars_of, decimal, decimal_text, is_space, lemma_occurs_between, occurs_at, occurs_in,
    opt_view, same_text, space,
    text_of, trim, trimmed, views,
};

verus! {

/// How long a core may take to end before it is killed.
pub const STOP_GRACE_MS: u64 = 5000;

/// How long a core that was left over may take to end before it is killed.
pub const STALE_KILL_GRACE_MS: u64 = 1500;

/// How probing a process with an empty signal ended.
#[derive(Clone, Copy, PartialEq, Eq, Structural, Debug)]
pub enum ProbeResult {
    Delivered,
    /// The process belongs to someone else.
    NotPermitted,
    NoSuchProcess,
    OtherError,
}

/// How the identity of a process compares with what it was.
#[derive(Clone, Copy, PartialEq, Eq, Structural, Debug)]
pub enum PidIdentity {
    Match,
    Mismatch,
    Unobservable,
}

/// What the helper says of the core that it manages.
pub enum ManagedCoreStatus {
    Stopped,
    Running { pid: u32, created: Option<u64>, image: Option<String> },
}

/// The number of a process as the system takes it. Numbers that stand for groups of processes, and
/// those that do not fit, are none.
pub fn checked_pid(pid: u32) -> (r: Option<i32>)
    ensures
        r == (if 1 <= pid <= 0x7fff_ffff {
            Some(pid as i32)
        } else {
            None
        }),
{
    if pid >= 1 && pid <= 0x7fff_ffff {
        Some(pid as i32)
    } else {
        None
    }
}

/// Is a process alive that was probed so? Only an answer that there is none says that it is not.
pub fn alive_from_probe(r: ProbeResult) -> (alive: bool)
    ensures
        alive == (r != ProbeResult::NoSuchProcess),
{
    match r {
        ProbeResult::NoSuchProcess => false,
        _ => true,
    }
}

/// The words of a text, that is what white space separates.
pub open spec fn words(s: Seq<char>) -> Seq<Seq<char>>
    decreases s.len(),
{
    if s.len() == 0 {
        Seq::empty()
    } else {
        let before = words(s.drop_last());
        if is_space(s.last()) {
            before
        } else if s.len() == 1 || is_space(s[s.len() - 2]) {
            before.push(seq![s.last()])
        } else {
            before.drop_last().push(before.last().push(s.last()))
        }
    }
}

/// The last place of a character in a text.
pub open spec fn last_place(s: Seq<char>, c: char, i: int) -> bool {
    &&& 0 <= i < s.len()
    &&& s[i] == c
    &&& forall|k: int| i < k < s.len() ==> s[k] != c
}

/// The start time in a process's status line: the twentieth word behind the last closing bracket,
/// the name of the process in the brackets being free to hold anything.
pub open spec fn start_time_of(stat: Seq<char>) -> Option<Seq<char>> {
    if exists|i: int| last_place(stat, ')', i) {
        let i = choose|i: int| last_place(stat, ')', i);
        let w = words(stat.skip(i + 1));
        if w.len() > 19 {
            Some(w[19])
        } else {
            None
        }
    } else {
        None
    }
}

/// The start time in a process's status line.
pub fn parse_proc_stat_starttime(stat: &str) -> (r: Option<String>)
    ensures
        opt_view(r) == start_time_of(stat@),
{
    let v = chars_of(stat);
    let mut end: usize = v.len();
    while end > 0 && v[end - 1] != ')'
        invariant
            end <= v@.len(),
            forall|k: int| end <= k < v@.len() ==> v@[k] != ')',
        decreases end,
    {
        end -= 1;
    }
    if end == 0 {
        assert forall|i: int| !last_place(stat@, ')', i) by {}
        return None;
    }
    proof {
        assert(last_place(stat@, ')', end - 1));
        let i = choose|i: int| last_place(stat@, ')', i);
        if i < end - 1 {
            assert(stat@[end - 1] != ')');
        }
        if i > end - 1 {
            assert(stat@[i] != ')');
        }
        assert(stat@.skip(end as int).take(0) =~= Seq::empty());
    }
    let ghost tail = v@.skip(end as int);
    let mut found: Vec<String> = Vec::new();
    let mut word = String::new();
    let mut in_word = false;
    let mut i: usize = end;
    while i < v.len()
        invariant
            end <= i <= v@.len(),
            tail == v@.skip(end as int),
            in_word == (i > end && !is_space(v@[i - 1])),
            words(tail.take(i - end)) == (if in_word {
                views(found@).push(word@)
            } else {
                views(found@)
            }),
            !in_word ==> word@.len() == 0,
        decreases v@.len() - i,
    {
        let ghost t = tail.take(i - end + 1);
        assert(t.drop_last() =~= tail.take(i - end));
        assert(t.last() == v@[i as int]);
        let ghost before = found@;
        if space(v[i]) {
            if in_word {
                found.push(word);
                word = String::new();
                assert(views(found@) =~= words(tail.take(i - end)));
            }
            in_word = false;
        } else {
            if in_word {
                assert(t[t.len() - 2] == v@[i - 1]);
                assert(views(found@).push(word@).drop_last() =~= views(found@));
            } else {
                if i > end {
                    assert(t[t.len() - 2] == v@[i - 1]);
                }
                assert(word@.push(v@[i as int]) =~= seq![v@[i as int]]);
            }
            word.push(v[i]);
            in_word = true;
        }
        i += 1;
    }
    if in_word {
        let ghost before = views(found@);
        let ghost last = word@;
        found.push(word);
        assert(views(found@) =~= before.push(last));
    }
    assert(tail.take(i - end) =~= tail);
    if found.len() > 19 {
        assert(views(found@)[19] == found@[19]@);
        Some(found[19].clone())
    } else {
        None
    }
}

/// How two identities compare. Where one is not known, nothing can be said.
pub open spec fn identity_verdict(baseline: Option<Seq<char>>, current: Option<Seq<char>>) -> PidIdentity {
    match (baseline, current) {
        (Some(a), Some(b)) => if a == b {
            PidIdentity::Match
        } else {
            PidIdentity::Mismatch
        },
        _ => PidIdentity::Unobservable,
    }
}

/// How two identities compare.
pub fn pid_identity_verdict(baseline: Option<&str>, current: Option<&str>) -> (r: PidIdentity)
    ensures
        r == identity_verdict(
            opt_str_view(baseline),
            opt_str_view(current),
        ),
{
    match (baseline, current) {
        (Some(a), Some(b)) => if same_text(a, b) {
            PidIdentity::Match
        } else {
            PidIdentity::Mismatch
        },
        _ => PidIdentity::Unobservable,
    }
}

/// An identity that cannot be read is never taken for another process.
pub proof fn law_an_unknown_identity_is_no_mismatch(
    baseline: Option<Seq<char>>,
    current: Option<Seq<char>>,
)
    requires
        baseline is None || current is None,
    ensures
        identity_verdict(baseline, current) == PidIdentity::Unobservable,
{
}

/// What the system marks the path of a running file with that was deleted.
pub open spec fn without_deleted_mark(s: Seq<char>) -> Seq<char> {
    let mark = " (deleted)"@;
    if mark.len() <= s.len() && occurs_at(s, mark, s.len() - mark.len()) {
        s.take(s.len() - mark.len())
    } else {
        s
    }
}

/// The path of a running file, without the mark of one that was deleted.
pub fn running_exe_path(link: &str) -> (r: String)
    ensures
        r@ == without_deleted_mark(link@),
{
    let v = chars_of(link);
    let mark = chars_of(" (deleted)");
    if mark.len() <= v.len() && chars_at(&v, &mark, v.len() - mark.len()) {
        let end: usize = v.len() - mark.len();
        assert(v@.subrange(0, end as int) =~= link@.take(end as int));
        return text_of(&v, 0, end);
    }
    link.to_owned()
}

/// What the list of processes says of one of them. A process that has just ended may be listed
/// with nothing said of it.
pub fn listed_value(printed: &str) -> (r: Option<String>)
    ensures
        opt_view(r) == (if trimmed(printed@).len() == 0 {
            None
        } else {
            Some(trimmed(printed@))
        }),
{
    let value = trim(printed);
    if value.as_str().is_empty() {
        None
    } else {
        Some(value)
    }
}

/// The first line of a text, without white space around it.
pub open spec fn first_line(s: Seq<char>) -> Seq<char> {
    if exists|i: int| first_feed(s, i) {
        trimmed(s.take(choose|i: int| first_feed(s, i)))
    } else {
        trimmed(s)
    }
}

/// The first line feed stands at `i`.
pub open spec fn first_feed(s: Seq<char>, i: int) -> bool {
    &&& 0 <= i < s.len()
    &&& s[i] == '\n'
    &&& forall|k: int| 0 <= k < i ==> s[k] != '\n'
}

/// What a core says of its version: the first line of what it prints, where it could be asked.
pub fn core_version_first_line(printed: Option<&str>) -> (r: String)
    ensures
        r@ == (match printed {
            Some(s) => first_line(s@),
            None => Seq::empty(),
        }),
{
    let s = match printed {
        Some(s) => s,
        None => {
            return String::new();
        },
    };
    let v = chars_of(s);
    let mut i: usize = 0;
    while i < v.len() && v[i] != '\n'
        invariant
            i <= v@.len(),
            forall|k: int| 0 <= k < i ==> v@[k] != '\n',
        decreases v@.len() - i,
    {
        i += 1;
    }
    proof {
        if i < v@.len() {
            assert(first_feed(s@, i as int));
            let j = choose|j: int| first_feed(s@, j);
            if j < i {
                assert(v@[j] != '\n');
            }
            if j > i {
                assert(s@[i as int] != '\n');
            }
            assert(s@.take(i as int) =~= v@.subrange(0, i as int));
        } else {
            assert(v@.subrange(0, i as int) =~= s@);
            assert forall|j: int| !first_feed(s@, j) by {}
        }
    }
    let line = text_of(&v, 0, i);
    trim(line.as_str())
}

/// The file that the helper runs for the process `want_pid`, where it says so.
pub fn image_from_managed_status(status: &ManagedCoreStatus, want_pid: u32) -> (r: Option<String>)
    ensures
        opt_view(r) == (match *status {
            ManagedCoreStatus::Running { pid, created: _, image } => if pid == want_pid {
                opt_view(image)
            } else {
                None
            },
            ManagedCoreStatus::Stopped => None,
        }),
{
    match status {
        ManagedCoreStatus::Running { pid, created: _, image } => {
            if *pid != want_pid {
                return None;
            }
            match image {
                Some(s) => Some(s.clone()),
                None => None,
            }
        },
        ManagedCoreStatus::Stopped => None,
    }
}

/// How the core is stopped.
#[derive(Clone, Copy, PartialEq, Eq, Structural, Debug)]
pub enum KillPlan {
    /// By the helper, which is told the process that is meant.
    ViaHelper { intended: Option<u32> },
    /// There is no core.
    Nothing,
    /// The process has ended: only its end is to be taken note of.
    Reap,
    /// It is asked to end, and killed where it does not in time.
    Escalate { pid: u32 },
}

/// May what was found of a running core's file still be said? Only while that core runs.
pub open spec fn still_the_core(current_gen: u64, expected_gen: u64, status: StatusView, pid: u32) -> bool {
    current_gen == expected_gen && status.running && status.pid == pid
}

/// May what was found of a running core's file still be said?
pub fn attestation_commit_allowed(
    current_generation: u64,
    expected_generation: u64,
    status: &ProxyStatus,
    pid: u32,
) -> (r: bool)
    ensures
        r == still_the_core(current_generation, expected_generation, status@, pid),
{
    current_generation == expected_generation && status.running && status.pid == pid
}

/// Numbers in a row.
pub open spec fn numbers_in_a_row(pids: Seq<u32>, separator: Seq<char>) -> Seq<char>
    decreases pids.len(),
{
    if pids.len() == 0 {
        Seq::empty()
    } else if pids.len() == 1 {
        decimal(pids[0] as nat)
    } else {
        numbers_in_a_row(pids.drop_last(), separator) + separator + decimal(pids.last() as nat)
    }
}

fn join_numbers(pids: &Vec<u32>, separator: &str) -> (r: String)
    ensures
        r@ == numbers_in_a_row(pids@, separator@),
{
    let mut out = String::new();
    let mut i: usize = 0;
    while i < pids.len()
        invariant
            i <= pids@.len(),
            out@ == numbers_in_a_row(pids@.take(i as int), separator@),
        decreases pids@.len() - i,
    {
        let ghost t = pids@.take(i + 1);
        assert(t.drop_last() =~= pids@.take(i as int));
        assert(t.last() == pids@[i as int]);
        let n = decimal_text(pids[i] as u64);
        if i > 0 {
            out.append(separator);
        } else {
            assert(out@ + n@ =~= n@);
        }
        out.append(n.as_str());
        i += 1;
    }
    assert(pids@.take(i as int) =~= pids@);
    out
}

/// What is said of cores that were left over and cannot be stopped.
pub open spec fn orphans_text(pids: Seq<u32>) -> Seq<char> {
    "上次遗留的 sing-box 核（pid ["@ + numbers_in_a_row(pids, ", "@)
        + "]）以管理员权限运行且无法清理，它占用着内核缓存文件，任何模式都无法启动。请安装/修复 Helper 后重试，或手动执行：sudo kill -9 "@
        + numbers_in_a_row(pids, " "@)
}

/// The processes that are still alive.
pub fn survivors(pids: &Vec<u32>, alive: &Vec<bool>) -> (r: Vec<u32>)
    requires
        pids@.len() == alive@.len(),
    ensures
        r@ == alive_of(pids@, alive@),
{
    let mut out: Vec<u32> = Vec::new();
    let mut i: usize = 0;
    while i < pids.len()
        invariant
            i <= pids@.len() == alive@.len(),
            out@ == alive_of(pids@.take(i as int), alive@.take(i as int)),
        decreases pids@.len() - i,
    {
        assert(pids@.take(i + 1).drop_last() =~= pids@.take(i as int));
        assert(alive@.take(i + 1).drop_last() =~= alive@.take(i as int));
        if alive[i] {
            out.push(pids[i]);
        }
        i += 1;
    }
    assert(pids@.take(i as int) =~= pids@);
    assert(alive@.take(i as int) =~= alive@);
    out
}

/// The processes that are still alive, in order.
pub open spec fn alive_of(pids: Seq<u32>, alive: Seq<bool>) -> Seq<u32>
    decreases pids.len(),
{
    if pids.len() == 0 || alive.len() != pids.len() {
        Seq::empty()
    } else if alive.last() {
        alive_of(pids.drop_last(), alive.drop_last()).push(pids.last())
    } else {
        alive_of(pids.drop_last(), alive.drop_last())
    }
}

/// How sweeping the cores that were left over goes on.
pub enum SweepNext {
    /// There is nothing to sweep, or nothing left.
    Clean,
    /// Ask these to end, and kill those that do not in time.
    Signal(Vec<u32>),
    /// These belong to the administrator: have the helper sweep them.
    AskHelper(Vec<u32>),
    /// These cannot be swept, and nothing can be started.
    Blocked(StartError),
}

/// How a core is stopped: by the helper where it was asked to start one, and otherwise by its
/// parent.
pub open spec fn plan_to_kill(rt: ProxyRuntime, child: Option<Option<u32>>) -> KillPlan {
    if rt.core_via_helper {
        KillPlan::ViaHelper { intended: rt.pid }
    } else {
        match child {
            None => KillPlan::Nothing,
            Some(None) => KillPlan::Reap,
            Some(Some(pid)) => if pid == 0 {
                KillPlan::Reap
            } else {
                KillPlan::Escalate { pid }
            },
        }
    }
}

/// The runtime while the helper is asked to start a core.
pub open spec fn spawn_begun(rt: ProxyRuntime) -> ProxyRuntime {
    ProxyRuntime { core_via_helper: true, ..rt }
}

/// The runtime after the helper answered.
pub open spec fn spawn_recorded(rt: ProxyRuntime, started: Result<u32, String>) -> ProxyRuntime {
    match started {
        Ok(pid) => ProxyRuntime { pid: Some(pid), ..rt },
        Err(_) => ProxyRuntime { core_via_helper: false, ..rt },
    }
}

impl ProxyRuntime {
    /// How the core is stopped. `child` is the process that the runtime holds itself, with its
    /// number where it has not ended.
    pub fn kill_plan(&self, child: Option<Option<u32>>) -> (r: KillPlan)
        ensures
            r == plan_to_kill(*self, child),
    {
        if self.core_via_helper {
            return KillPlan::ViaHelper { intended: self.pid };
        }
        match child {
            None => KillPlan::Nothing,
            Some(None) => KillPlan::Reap,
            Some(Some(pid)) => if pid == 0 {
                KillPlan::Reap
            } else {
                KillPlan::Escalate { pid }
            },
        }
    }

    /// The core that the runtime held itself has ended.
    pub fn core_reaped(&mut self)
        ensures
            *final(self) == (ProxyRuntime { pid: None, ..*old(self) }),
    {
        self.pid = None;
    }

    /// The helper has stopped the process `intended`. Where another one is on the books by now,
    /// the books belong to a new session and are left alone.
    pub fn clear_helper_core_bookkeeping(&mut self, intended: Option<u32>)
        ensures
            *final(self) == (if old(self).pid is Some && old(self).pid != intended {
                *old(self)
            } else {
                ProxyRuntime { pid: None, core_via_helper: false, ..*old(self) }
            }),
    {
        let other = match (self.pid, intended) {
            (Some(a), Some(b)) => a != b,
            (Some(_), None) => true,
            (None, _) => false,
        };
        if other {
            return;
        }
        self.pid = None;
        self.core_via_helper = false;
    }

    /// The processes that a sweep leaves alone: the core that is managed, and those that measure
    /// or sign in at the moment.
    pub fn sweep_exclusions(&self, measuring: &Vec<u32>, signing_in: &Vec<u32>) -> (r: Vec<u32>)
        ensures
            r@ == (match self.pid {
                Some(p) => seq![p],
                None => Seq::empty(),
            }) + measuring@ + signing_in@,
    {
        let mut out: Vec<u32> = Vec::new();
        if let Some(p) = self.pid {
            out.push(p);
        }
        out.extend_from_slice(measuring.as_slice());
        out.extend_from_slice(signing_in.as_slice());
        out
    }

    /// Cores that were left over are looked for. `victims` is `None` where the file of the core
    /// is not known, and then none can be told from others.
    pub fn sweep_begin(victims: Option<Vec<u32>>) -> (r: SweepNext)
        ensures
            match victims {
                None => r is Clean,
                Some(v) => if v@.len() == 0 {
                    r is Clean
                } else {
                    r == SweepNext::Signal(v)
                },
            },
    {
        match victims {
            None => SweepNext::Clean,
            Some(v) => if v.len() == 0 {
                SweepNext::Clean
            } else {
                SweepNext::Signal(v)
            },
        }
    }

    /// They were asked to end and killed. `left` are those that are still alive.
    pub fn sweep_signalled(&mut self, left: Vec<u32>, helper_installed: bool) -> (r: SweepNext)
        ensures
            if left@.len() == 0 {
                r is Clean && *final(self) == *old(self)
            } else if helper_installed {
                r == SweepNext::AskHelper(left) && *final(self) == *old(self)
            } else {
                sweep_blocked(*old(self), *final(self), left@, r)
            },
    {
        if left.len() == 0 {
            return SweepNext::Clean;
        }
        if helper_installed {
            return SweepNext::AskHelper(left);
        }
        self.block_on_orphans(&left)
    }

    /// The helper swept them, or could not. `still_alive` are those of `left` that are alive after
    /// it said that it had, and `None` where it failed.
    pub fn sweep_escalated(&mut self, left: &Vec<u32>, still_alive: Option<Vec<u32>>) -> (r:
        SweepNext)
        ensures
            if still_alive matches Some(v) && v@.len() == 0 {
                r is Clean && *final(self) == *old(self)
            } else {
                sweep_blocked(*old(self), *final(self), left@, r)
            },
    {
        if let Some(v) = still_alive {
            if v.len() == 0 {
                return SweepNext::Clean;
            }
        }
        self.block_on_orphans(left)
    }

    fn block_on_orphans(&mut self, left: &Vec<u32>) -> (r: SweepNext)
        ensures
            sweep_blocked(*old(self), *final(self), left@, r),
    {
        let msg = "上次遗留的 sing-box 核（pid [".to_owned().concat(join_numbers(left, ", ").as_str()).concat(
            "]）以管理员权限运行且无法清理，它占用着内核缓存文件，任何模式都无法启动。请安装/修复 Helper 后重试，或手动执行：sudo kill -9 ",
        ).concat(join_numbers(left, " ").as_str());
        self.set_error(msg.as_str(), ErrorCode::RootOrphanBlocked);
        SweepNext::Blocked(StartError::coded(msg, ErrorCode::RootOrphanBlocked))
    }

    /// The file of the running core was looked at. `alarm` is what is wrong with it, where
    /// something is; what was found of a core that runs no longer is dropped.
    pub fn attest_running_core_binary(&mut self, my_gen: u64, pid: u32, alarm: Option<&str>)
        ensures
            match alarm {
                Some(m) if still_the_core(
                    old(self).generation,
                    my_gen,
                    old(self).status@,
                    pid,
                ) => {
                    &&& final(self).status@ == (StatusView {
                        error: Some(m@),
                        error_code: Some(ErrorCode::CoreBinaryMismatch),
                        ..old(self).status@
                    })
                    &&& *final(self) == (ProxyRuntime { status: final(self).status, ..*old(self) })
                },
                _ => *final(self) == *old(self),
            },
    {
        if !attestation_commit_allowed(self.generation, my_gen, &self.status, pid) {
            return;
        }
        if let Some(m) = alarm {
            self.set_nonfatal_error(m, ErrorCode::CoreBinaryMismatch);
        }
    }

    /// The helper is about to spawn the core. `false` where another operation took over.
    pub fn helper_spawn_admitted(&self, my_gen: u64) -> (r: bool)
        ensures
            r == (self.generation == my_gen),
    {
        self.generation == my_gen
    }

    /// The helper is asked to spawn the core, so the core counts as the helper's.
    pub fn helper_spawn_begins(&mut self)
        ensures
            *final(self) == spawn_begun(*old(self)),
    {
        self.core_via_helper = true;
    }

    /// The helper spawned the core, or could not.
    pub fn helper_spawned(&mut self, started: Result<u32, String>) -> (r: Result<u32, String>)
        ensures
            r == started,
            *final(self) == spawn_recorded(*old(self), started),
    {
        match started {
            Ok(pid) => {
                self.pid = Some(pid);
                Ok(pid)
            },
            Err(e) => {
                self.core_via_helper = false;
                Err(e)
            },
        }
    }

    /// The core that the helper spawned was probed. One that is not alive is nobody's core.
    pub fn helper_core_probed(&mut self, pid: u32, alive: bool) -> (r: Result<u32, String>)
        ensures
            alive ==> r == Ok::<u32, String>(pid) && *final(self) == *old(self),
            !alive ==> {
                &&& r matches Err(m)
                &&& m@ == "helper 报告已启动但进程不存在（pid="@ + decimal(pid as nat) + "）"@
                &&& *final(self) == (ProxyRuntime {
                    pid: None,
                    core_via_helper: false,
                    ..*old(self)
                })
            },
    {
        if alive {
            return Ok(pid);
        }
        self.core_via_helper = false;
        self.pid = None;
        Err(
            "helper 报告已启动但进程不存在（pid=".to_owned().concat(
                decimal_text(pid as u64).as_str(),
            ).concat("）"),
        )
    }
}

/// Nothing can be started because of these processes, and that is said.
pub open spec fn sweep_blocked(
    before: ProxyRuntime,
    after: ProxyRuntime,
    left: Seq<u32>,
    r: SweepNext,
) -> bool {
    &&& r matches SweepNext::Blocked(e)
    &&& e@ == (StartErrorView {
        message: orphans_text(left),
        code: Some(ErrorCode::RootOrphanBlocked),
    })
    &&& after.status@ == failed_status(orphans_text(left), ErrorCode::RootOrphanBlocked)
    &&& after == (ProxyRuntime { status: after.status, ..before })
}

/// No core of the helper is ever lost: from the moment the helper is asked to start one, a stop
/// goes through the helper, and once it has answered the stop names the core that it started.
pub proof fn law_a_core_of_the_helper_is_stopped_by_it(
    rt: ProxyRuntime,
    pid: u32,
    child: Option<Option<u32>>,
)
    ensures
        plan_to_kill(spawn_begun(rt), child) is ViaHelper,
        plan_to_kill(spawn_recorded(spawn_begun(rt), Ok(pid)), child) == (KillPlan::ViaHelper {
            intended: Some(pid),
        }),
{
}

/// A number of a process is taken as it is where it names one process, and is none otherwise; a
/// process is gone only where the system says that there is none.
pub proof fn law_only_an_answer_says_that_a_process_is_gone(
    pid: u32,
    r: Option<i32>,
    probe: ProbeResult,
    alive: bool,
)
    requires
        call_ensures(checked_pid, (pid,), r),
        call_ensures(alive_from_probe, (probe,), alive),
    ensures
        r is Some <==> pid > 0 && pid < 0x8000_0000,
        r matches Some(p) ==> p > 0 && p as int == pid as int,
        !alive <==> probe == ProbeResult::NoSuchProcess,
{
}

/// Two identities are the same exactly where both are known and read the same, and differ exactly
/// where both are known and do not.
pub proof fn law_identities_are_told_apart_where_both_are_known(
    baseline: Option<&str>,
    current: Option<&str>,
    r: PidIdentity,
)
    requires
        call_ensures(pid_identity_verdict, (baseline, current), r),
    ensures
        r == PidIdentity::Match <==> baseline is Some && current is Some && baseline->0@
            == current->0@,
        r == PidIdentity::Mismatch <==> baseline is Some && current is Some && baseline->0@
            != current->0@,
        r == PidIdentity::Unobservable <==> baseline is None || current is None,
{
    assert(opt_str_view(baseline) == (match baseline {
        Some(p) => Some(p@),
        None => None,
    }));
    assert(opt_str_view(current) == (match current {
        Some(p) => Some(p@),
        None => None,
    }));
}

/// How many words begin among the first `n` characters of a text.
pub open spec fn words_begun(s: Seq<char>, n: int) -> nat
    decreases n,
{
    if n <= 0 || n > s.len() {
        0
    } else {
        words_begun(s, n - 1) + (if !is_space(s[n - 1]) && (n == 1 || is_space(s[n - 2])) {
            1nat
        } else {
            0nat
        })
    }
}

/// The start time is the word before which nineteen words begin behind the last closing bracket,
/// whatever stands before that bracket and whatever follows the word.
pub proof fn law_the_start_time_is_the_twentieth_word(
    stat: &str,
    r: Option<String>,
    front: Seq<char>,
    lead: Seq<char>,
    word: Seq<char>,
    tail: Seq<char>,
)
    requires
        call_ensures(parse_proc_stat_starttime, (stat,), r),
        stat@ == front.push(')') + (lead + word + tail),
        forall|k: int| 0 <= k < (lead + word + tail).len() ==> (lead + word + tail)[k] != ')',
        lead.len() > 0 && is_space(lead.last()),
        words_begun(lead, lead.len() as int) == 19,
        word.len() > 0,
        forall|k: int| 0 <= k < word.len() ==> !is_space(#[trigger] word[k]),
        tail.len() == 0 || is_space(tail[0]),
    ensures
        r is Some,
        r->0@ == word,
{
    let s = stat@;
    let rest = lead + word + tail;
    let at = front.len() as int;
    assert(s[at] == ')');
    assert forall|k: int| at < k < s.len() implies s[k] != ')' by {
        assert(s[k] == rest[k - at - 1]);
    }
    assert(last_place(s, ')', at));
    let i = choose|i: int| last_place(s, ')', i);
    assert(last_place(s, ')', i));
    assert(i == at) by {
        if i < at {
            assert(s[at] != ')');
        }
        if at < i {
            assert(s[i] != ')');
        }
    }
    assert(s.skip(i + 1) =~= rest);
    lemma_words_counted(lead);
    lemma_word_appended(lead, word);
    lemma_words_stay(lead + word, tail);
    assert(words(lead + word)[19] == word);
    assert(opt_view(r) == start_time_of(s));
}

proof fn lemma_words_counted(s: Seq<char>)
    ensures
        words(s).len() == words_begun(s, s.len() as int),
        s.len() > 0 && !is_space(s.last()) ==> words(s).len() > 0,
    decreases s.len(),
{
    if s.len() > 0 {
        lemma_words_counted(s.drop_last());
        lemma_words_begun_front(s, s.len() - 1);
        if s.len() > 1 {
            assert(s.drop_last().last() == s[s.len() - 2]);
        }
    }
}

proof fn lemma_words_begun_front(s: Seq<char>, n: int)
    requires
        s.len() > 0,
        0 <= n <= s.len() - 1,
    ensures
        words_begun(s.drop_last(), n) == words_begun(s, n),
    decreases n,
{
    if n > 0 {
        lemma_words_begun_front(s, n - 1);
        assert(s.drop_last()[n - 1] == s[n - 1]);
        if n > 1 {
            assert(s.drop_last()[n - 2] == s[n - 2]);
        }
    }
}

proof fn lemma_word_appended(lead: Seq<char>, word: Seq<char>)
    requires
        lead.len() > 0 && is_space(lead.last()),
        word.len() > 0,
        forall|k: int| 0 <= k < word.len() ==> !is_space(#[trigger] word[k]),
    ensures
        words(lead + word) == words(lead).push(word),
    decreases word.len(),
{
    let s = lead + word;
    assert(s.last() == word.last());
    assert(!is_space(word[word.len() - 1]));
    if word.len() == 1 {
        assert(s.drop_last() =~= lead);
        assert(s[s.len() - 2] == lead.last());
        assert(seq![s.last()] =~= word);
    } else {
        let w = word.drop_last();
        assert forall|k: int| 0 <= k < w.len() implies !is_space(#[trigger] w[k]) by {
            assert(w[k] == word[k]);
        }
        lemma_word_appended(lead, w);
        assert(s.drop_last() =~= lead + w);
        assert(s[s.len() - 2] == word[word.len() - 2]);
        assert(words(lead).push(w).drop_last() =~= words(lead));
        assert(w.push(word.last()) =~= word);
    }
}

proof fn lemma_words_stay(a: Seq<char>, b: Seq<char>)
    requires
        b.len() == 0 || is_space(b[0]),
    ensures
        words(a + b).len() >= words(a).len(),
        b.len() > 0 && !is_space(b.last()) ==> words(a + b).len() > words(a).len(),
        forall|i: int| 0 <= i < words(a).len() ==> words(a + b)[i] == #[trigger] words(a)[i],
    decreases b.len(),
{
    if b.len() == 0 {
        assert(a + b =~= a);
    } else {
        let s = a + b;
        lemma_words_stay(a, b.drop_last());
        assert(s.drop_last() =~= a + b.drop_last());
        assert(s.last() == b.last());
        if !is_space(b.last()) {
            assert(b.len() > 1);
            assert(s[s.len() - 2] == b[b.len() - 2]);
            assert(b.drop_last().last() == b[b.len() - 2]);
        }
    }
}

/// There is no start time in a line without a closing bracket.
pub proof fn law_a_line_without_a_bracket_has_no_start_time(stat: &str, r: Option<String>)
    requires
        call_ensures(parse_proc_stat_starttime, (stat,), r),
        forall|k: int| 0 <= k < stat@.len() ==> stat@[k] != ')',
    ensures
        r is None,
{
    assert(opt_view(r) == start_time_of(stat@));
    assert(opt_view(r) is None);
}

/// The mark of a deleted file is taken off the end of a path, once, and nothing else is.
pub proof fn law_the_mark_of_a_deleted_file_is_taken_off(
    link: &str,
    r: String,
    path: Seq<char>,
)
    requires
        call_ensures(running_exe_path, (link,), r),
    ensures
        link@ == path + " (deleted)"@ ==> r@ == path,
        r@ == link@ || link@ == r@ + " (deleted)"@,
{
    let mark = " (deleted)"@;
    let s = link@;
    if s == path + mark {
        assert(s.subrange(path.len() as int, s.len() as int) =~= mark);
        assert(s.take(s.len() - mark.len()) =~= path);
    }
    if mark.len() <= s.len() && occurs_at(s, mark, s.len() - mark.len()) {
        assert(s =~= s.take(s.len() - mark.len()) + s.subrange(
            s.len() - mark.len(),
            s.len() as int,
        ));
    }
}

/// A core's version is what stands before the first line feed, without white space around it, and
/// nothing where the core could not be asked; and a listed value is what was printed, where that
/// is more than white space.
pub proof fn law_a_version_is_the_first_line(
    printed: &str,
    r: String,
    unasked: String,
    line: Seq<char>,
    rest: Seq<char>,
    value: Option<String>,
)
    requires
        call_ensures(core_version_first_line, (Some(printed),), r),
        call_ensures(core_version_first_line, (None,), unasked),
        call_ensures(listed_value, (printed,), value),
        forall|k: int| 0 <= k < line.len() ==> #[trigger] line[k] != '\n',
    ensures
        printed@ == line.push('\n') + rest ==> r@ == trimmed(line),
        printed@ == line ==> r@ == trimmed(line),
        unasked@.len() == 0,
        value is Some <==> trimmed(printed@).len() > 0,
        value is Some ==> value->0@ == trimmed(printed@),
{
    let s = printed@;
    assert(opt_view(value) == (match value {
        Some(v) => Some(v@),
        None => None,
    }));
    if s == line.push('\n') + rest {
        let at = line.len() as int;
        assert(s[at] == '\n');
        assert forall|k: int| 0 <= k < at implies s[k] != '\n' by {
            assert(s[k] == line[k]);
        }
        assert(first_feed(s, at));
        let i = choose|i: int| first_feed(s, i);
        assert(first_feed(s, i));
        assert(i == at) by {
            if i < at {
                assert(s[i] != '\n');
            }
            if at < i {
                assert(s[at] != '\n');
            }
        }
        assert(s.take(i) =~= line);
    }
    if s == line && exists|i: int| first_feed(s, i) {
        let i = choose|i: int| first_feed(s, i);
        assert(line[i] != '\n');
    }
}

/// The helper's file is said of the process that was asked for and of no other.
pub proof fn law_a_file_is_said_of_its_process(
    status: ManagedCoreStatus,
    want: u32,
    r: Option<String>,
)
    requires
        call_ensures(image_from_managed_status, (&status, want), r),
    ensures
        r is Some ==> status is Running && status->pid == want && status->image is Some && r->0@
            == status->image->0@,
        status is Running && status->pid == want && status->image is Some ==> r is Some,
{
    assert(opt_view(r) == (match r {
        Some(v) => Some(v@),
        None => None,
    }));
}

/// A core is stopped by whoever started it: by the helper, which is told the process on the books,
/// or by its parent, which asks a process that has a number and only notes one that has ended.
pub proof fn law_a_core_is_stopped_by_whoever_started_it(
    rt: ProxyRuntime,
    child: Option<Option<u32>>,
    r: KillPlan,
)
    requires
        call_ensures(ProxyRuntime::kill_plan, (&rt, child), r),
    ensures
        rt.core_via_helper ==> r == (KillPlan::ViaHelper { intended: rt.pid }),
        !rt.core_via_helper ==> r !is ViaHelper,
        r is Nothing <==> !rt.core_via_helper && child is None,
        child matches Some(Some(pid)) ==> (!rt.core_via_helper && pid > 0 ==> r == (
        KillPlan::Escalate { pid })),
        r matches KillPlan::Escalate { pid } ==> pid > 0 && child == Some(Some(pid)),
        !rt.core_via_helper && child == Some(None::<u32>) ==> r is Reap,
{
}

/// The books are cleared of the process that was stopped and never of another: where a new one is
/// on them by now they are left alone.
pub proof fn law_the_books_are_cleared_of_what_was_stopped(
    rt: &mut ProxyRuntime,
    intended: Option<u32>,
    reaped: &mut ProxyRuntime,
)
    requires
        call_ensures(ProxyRuntime::clear_helper_core_bookkeeping, (rt, intended), ()),
        call_ensures(ProxyRuntime::core_reaped, (reaped,), ()),
    ensures
        old(rt).pid is Some && old(rt).pid != intended ==> *final(rt) == *old(rt),
        old(rt).pid is None || old(rt).pid == intended ==> {
            &&& final(rt).pid is None
            &&& !final(rt).core_via_helper
            &&& *final(rt) == (ProxyRuntime {
                pid: final(rt).pid,
                core_via_helper: final(rt).core_via_helper,
                ..*old(rt)
            })
        },
        final(reaped).pid is None,
        *final(reaped) == (ProxyRuntime { pid: final(reaped).pid, ..*old(reaped) }),
{
}

/// A sweep leaves alone the core that is managed and every process that measures or signs in.
pub proof fn law_a_sweep_leaves_alone_what_is_ours(
    rt: ProxyRuntime,
    measuring: Vec<u32>,
    signing_in: Vec<u32>,
    r: Vec<u32>,
    i: int,
)
    requires
        call_ensures(ProxyRuntime::sweep_exclusions, (&rt, &measuring, &signing_in), r),
    ensures
        rt.pid matches Some(p) ==> r@.contains(p),
        0 <= i < measuring@.len() ==> r@.contains(measuring@[i]),
        0 <= i < signing_in@.len() ==> r@.contains(signing_in@[i]),
        0 <= i < r@.len() ==> rt.pid == Some(r@[i]) || measuring@.contains(r@[i])
            || signing_in@.contains(r@[i]),
{
    let own: Seq<u32> = match rt.pid {
        Some(p) => seq![p],
        None => Seq::empty(),
    };
    let n = own.len() as int;
    let m = measuring@.len() as int;
    if rt.pid is Some {
        assert(r@[0] == rt.pid->0);
    }
    if 0 <= i < m {
        assert(r@[n + i] == measuring@[i]);
    }
    if 0 <= i < signing_in@.len() {
        assert(r@[n + m + i] == signing_in@[i]);
    }
    if 0 <= i < r@.len() {
        if n <= i < n + m {
            assert(r@[i] == measuring@[i - n]);
        }
        if n + m <= i {
            assert(r@[i] == signing_in@[i - n - m]);
        }
    }
}

/// How many of the first `n` are alive.
pub open spec fn alive_before(alive: Seq<bool>, n: int) -> nat
    decreases n,
{
    if n <= 0 || n > alive.len() {
        0
    } else {
        alive_before(alive, n - 1) + (if alive[n - 1] {
            1nat
        } else {
            0nat
        })
    }
}

/// Every process that is alive survives, in its order, and no other does.
pub proof fn law_whoever_is_alive_survives(
    pids: Vec<u32>,
    alive: Vec<bool>,
    r: Vec<u32>,
    i: int,
)
    requires
        pids@.len() == alive@.len(),
        call_ensures(survivors, (&pids, &alive), r),
    ensures
        r@.len() == alive_before(alive@, alive@.len() as int),
        0 <= i < pids@.len() && alive@[i] ==> {
            let at = alive_before(alive@, i) as int;
            at < r@.len() && r@[at] == pids@[i]
        },
{
    lemma_alive_places(pids@, alive@, i);
}

proof fn lemma_alive_places(pids: Seq<u32>, alive: Seq<bool>, i: int)
    requires
        pids.len() == alive.len(),
    ensures
        alive_of(pids, alive).len() == alive_before(alive, alive.len() as int),
        0 <= i < pids.len() && alive[i] ==> {
            let at = alive_before(alive, i) as int;
            at < alive_of(pids, alive).len() && alive_of(pids, alive)[at] == pids[i]
        },
    decreases pids.len(),
{
    if pids.len() > 0 {
        let front = alive.drop_last();
        lemma_alive_places(pids.drop_last(), front, i);
        lemma_alive_before_front(alive, alive.len() - 1);
        if 0 <= i < front.len() {
            lemma_alive_before_front(alive, i);
            assert(front[i] == alive[i]);
            assert(pids.drop_last()[i] == pids[i]);
        }
    }
}

proof fn lemma_alive_before_front(alive: Seq<bool>, n: int)
    requires
        alive.len() > 0,
        0 <= n <= alive.len() - 1,
    ensures
        alive_before(alive.drop_last(), n) == alive_before(alive, n),
    decreases n,
{
    if n > 0 {
        lemma_alive_before_front(alive, n - 1);
        assert(alive.drop_last()[n - 1] == alive[n - 1]);
    }
}

/// A sweep asks those that were found to end, then has the helper sweep those that are left; where
/// nobody is left it is clean, and where the helper is missing, fails or leaves somebody alive the
/// start is blocked, which is said with the number of every process that is in the way.
pub proof fn law_a_sweep_ends_clean_or_blocked(
    victims: Option<Vec<u32>>,
    begun: SweepNext,
    rt: &mut ProxyRuntime,
    left: Vec<u32>,
    helper_installed: bool,
    r: SweepNext,
    swept: &mut ProxyRuntime,
    still: Option<Vec<u32>>,
    q: SweepNext,
    i: int,
)
    requires
        call_ensures(ProxyRuntime::sweep_begin, (victims,), begun),
        call_ensures(ProxyRuntime::sweep_signalled, (rt, left, helper_installed), r),
        call_ensures(ProxyRuntime::sweep_escalated, (swept, &left, still), q),
    ensures
        begun is Clean <==> victims is None || victims->0@.len() == 0,
        begun !is Clean ==> begun == SweepNext::Signal(victims->0),
        r is Clean <==> left@.len() == 0,
        r is AskHelper <==> left@.len() > 0 && helper_installed,
        r matches SweepNext::AskHelper(v) ==> v@ == left@,
        r is Blocked <==> left@.len() > 0 && !helper_installed,
        r !is Blocked ==> *final(rt) == *old(rt),
        r matches SweepNext::Blocked(e) ==> {
            &&& e.code == Some(ErrorCode::RootOrphanBlocked)
            &&& shows(*final(rt), e.message@, ErrorCode::RootOrphanBlocked)
            &&& !final(rt).status.running
            &&& only_status_differs(*old(rt), *final(rt))
            &&& 0 <= i < left@.len() ==> occurs_in(e.message@, decimal(left@[i] as nat))
        },
        q is Clean <==> still is Some && still->0@.len() == 0,
        q is Blocked <==> still is None || still->0@.len() > 0,
        q is Clean ==> *final(swept) == *old(swept),
        q matches SweepNext::Blocked(e) ==> {
            &&& e.code == Some(ErrorCode::RootOrphanBlocked)
            &&& shows(*final(swept), e.message@, ErrorCode::RootOrphanBlocked)
            &&& !final(swept).status.running
            &&& only_status_differs(*old(swept), *final(swept))
            &&& 0 <= i < left@.len() ==> occurs_in(e.message@, decimal(left@[i] as nat))
        },
{
    assert(final(rt).status@.running == final(rt).status.running);
    assert(final(rt).status@.error == opt_view(final(rt).status.error));
    assert(final(swept).status@.running == final(swept).status.running);
    assert(final(swept).status@.error == opt_view(final(swept).status.error));
    if 0 <= i < left@.len() {
        lemma_orphan_is_named(left@, i);
    }
}

proof fn lemma_orphan_is_named(pids: Seq<u32>, i: int)
    requires
        0 <= i < pids.len(),
    ensures
        occurs_in(orphans_text(pids), decimal(pids[i] as nat)),
{
    let row = numbers_in_a_row(pids, ", "@);
    let x = decimal(pids[i] as nat);
    lemma_number_in_a_row(pids, ", "@, i);
    let at = choose|at: int| #[trigger] occurs_at(row, x, at);
    let front = row.subrange(0, at);
    let back = row.subrange(at + x.len(), row.len() as int);
    assert(row =~= front + x + back);
    lemma_inside_a_message(
        "上次遗留的 sing-box 核（pid ["@,
        front,
        x,
        back,
        "]）以管理员权限运行且无法清理，它占用着内核缓存文件，任何模式都无法启动。请安装/修复 Helper 后重试，或手动执行：sudo kill -9 "@,
        numbers_in_a_row(pids, " "@),
    );
}

proof fn lemma_inside_a_message(
    open: Seq<char>,
    front: Seq<char>,
    x: Seq<char>,
    back: Seq<char>,
    more: Seq<char>,
    end: Seq<char>,
)
    ensures
        occurs_in(open + (front + x + back) + more + end, x),
{
    lemma_occurs_between(
        open + (front + x + back) + more + end,
        open + front,
        x,
        back + more + end,
    );
}

proof fn lemma_number_in_a_row(pids: Seq<u32>, separator: Seq<char>, i: int)
    requires
        0 <= i < pids.len(),
    ensures
        occurs_in(numbers_in_a_row(pids, separator), decimal(pids[i] as nat)),
    decreases pids.len(),
{
    let row = numbers_in_a_row(pids, separator);
    let x = decimal(pids[i] as nat);
    if pids.len() == 1 {
        lemma_occurs_between(row, Seq::empty(), x, Seq::empty());
    } else {
        let before = numbers_in_a_row(pids.drop_last(), separator);
        if i == pids.len() - 1 {
            lemma_occurs_between(row, before + separator, x, Seq::empty());
        } else {
            lemma_number_in_a_row(pids.drop_last(), separator, i);
            assert(pids.drop_last()[i] == pids[i]);
            let at = choose|at: int| #[trigger] occurs_at(before, x, at);
            let front = before.subrange(0, at);
            let back = before.subrange(at + x.len(), before.len() as int);
            assert(before =~= front + x + back);
            let last = decimal(pids.last() as nat);
            assert(row =~= front + x + (back + separator + last));
            lemma_occurs_between(row, front, x, back + separator + last);
        }
    }
}

/// What was found of a core's file is said exactly while that very core runs, in the words that it
/// was found in, and the session goes on.
pub proof fn law_a_wrong_file_is_said_of_the_running_core(
    rt: &mut ProxyRuntime,
    my_gen: u64,
    pid: u32,
    alarm: Option<&str>,
    allowed: bool,
    now: u64,
    status: ProxyStatus,
)
    requires
        call_ensures(attestation_commit_allowed, (now, my_gen, &status, pid), allowed),
        call_ensures(ProxyRuntime::attest_running_core_binary, (rt, my_gen, pid, alarm), ()),
    ensures
        allowed <==> now == my_gen && status.running && status.pid == pid,
        ({
            let said = alarm is Some && old(rt).generation == my_gen && old(rt).status.running
                && old(rt).status.pid == pid;
            &&& !said ==> *final(rt) == *old(rt)
            &&& said ==> {
                &&& shows(*final(rt), alarm->0@, ErrorCode::CoreBinaryMismatch)
                &&& same_session(old(rt).status, final(rt).status)
                &&& only_status_differs(*old(rt), *final(rt))
            }
        }),
{
    assert(status@.running == status.running && status@.pid == status.pid);
    assert(old(rt).status@.running == old(rt).status.running && old(rt).status@.pid == old(
        rt,
    ).status.pid);
    assert(final(rt).status@.pid == final(rt).status.pid);
    assert(final(rt).status@.error == opt_view(final(rt).status.error));
}

/// A core that the helper is asked for counts as the helper's from then on; the number that it
/// answers is on the books, and a core that it could not start, or that is not alive, is nobody's.
pub proof fn law_how_the_helper_spawns_a_core(
    rt: ProxyRuntime,
    my_gen: u64,
    admitted: bool,
    begun: &mut ProxyRuntime,
    spawned: &mut ProxyRuntime,
    started: Result<u32, String>,
    r: Result<u32, String>,
    probed: &mut ProxyRuntime,
    pid: u32,
    alive: bool,
    q: Result<u32, String>,
)
    requires
        call_ensures(ProxyRuntime::helper_spawn_admitted, (&rt, my_gen), admitted),
        call_ensures(ProxyRuntime::helper_spawn_begins, (begun,), ()),
        call_ensures(ProxyRuntime::helper_spawned, (spawned, started), r),
        call_ensures(ProxyRuntime::helper_core_probed, (probed, pid, alive), q),
    ensures
        admitted <==> rt.generation == my_gen,
        final(begun).core_via_helper,
        *final(begun) == (ProxyRuntime { core_via_helper: true, ..*old(begun) }),
        r == started,
        started matches Ok(p) ==> *final(spawned) == (ProxyRuntime { pid: Some(p), ..*old(spawned) }),
        started is Err ==> *final(spawned) == (ProxyRuntime {
            core_via_helper: false,
            ..*old(spawned)
        }),
        q is Ok <==> alive,
        q matches Ok(p) ==> p == pid && *final(probed) == *old(probed),
        q matches Err(m) ==> occurs_in(m@, decimal(pid as nat)) && *final(probed) == (ProxyRuntime {
            pid: None,
            core_via_helper: false,
            ..*old(probed)
        }),
{
    lemma_occurs_between(
        "helper 报告已启动但进程不存在（pid="@ + decimal(pid as nat) + "）"@,
        "helper 报告已启动但进程不存在（pid="@,
        decimal(pid as nat),
        "）"@,
    );
}

/// A line with fewer than twenty words behind its last closing bracket has no start time.
pub proof fn law_a_short_line_has_no_start_time(
    stat: &str,
    r: Option<String>,
    front: Seq<char>,
    rest: Seq<char>,
)
    requires
        call_ensures(parse_proc_stat_starttime, (stat,), r),
        stat@ == front.push(')') + rest,
        forall|k: int| 0 <= k < rest.len() ==> #[trigger] rest[k] != ')',
    ensures
        r is Some <==> words_begun(rest, rest.len() as int) >= 20,
{
    let s = stat@;
    let at = front.len() as int;
    assert(s[at] == ')');
    assert forall|k: int| at < k < s.len() implies s[k] != ')' by {
        assert(s[k] == rest[k - at - 1]);
    }
    assert(last_place(s, ')', at));
    let i = choose|i: int| last_place(s, ')', i);
    assert(last_place(s, ')', i));
    assert(i == at) by {
        if i < at {
            assert(s[at] != ')');
        }
        if at < i {
            assert(s[i] != ')');
        }
    }
    assert(s.skip(i + 1) =~= rest);
    lemma_words_counted(rest);
    assert(opt_view(r) == start_time_of(s));
}

} // verus!
