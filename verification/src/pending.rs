//! What has been saved and not applied yet.

use vstd::prelude::*;

use crate::json::{Json, JsonView};
use crate::lifecycle::stopped_from;
use crate::runtime::ProxyRuntime;
use crate::selection::{has_server, server_ids};
use crate::table::{lookup, table_get, table_view};
use crate::text::{
    insert_sorted, lemma_sorted_lists_equal, same_text, strictly_sorted, text_in_list, views,
};

verus! {

/// The nodes that were added, changed and removed since the core was started, and whether a change
/// waits for the user to apply it.
pub struct PendingChangesSummary {
    pub added: Vec<String>,
    pub modified: Vec<String>,
    pub removed: Vec<String>,
    pub restart_deferred: bool,
}

/// How applying what was saved begins.
#[derive(Debug)]
pub struct ApplyPending {
    /// What the user is told: `"applied"`, `"deferred"` or `"skipped"`.
    pub answer: &'static str,
    /// The number under which a restart waits, where one does.
    pub force_restart_id: Option<u64>,
    /// The lifecycle is to restart once it is idle.
    pub mark_restart_pending: bool,
    pub schedule_restart: bool,
    /// Deletions that waited for the core to be down are made.
    pub process_deletions: bool,
}

/// The node is in both configurations and its fingerprint has changed. A fingerprint that is not
/// known is no change.
pub open spec fn is_modified(
    snap: JsonView,
    current: JsonView,
    snap_prints: Seq<(Seq<char>, Seq<char>)>,
    current_prints: Seq<(Seq<char>, Seq<char>)>,
    id: Seq<char>,
) -> bool {
    &&& has_server(snap, id)
    &&& has_server(current, id)
    &&& match (table_get(snap_prints, id), table_get(current_prints, id)) {
        (Some(a), Some(b)) => a != b,
        _ => false,
    }
}

/// What a summary says of the changes from `snap` to `current`.
pub open spec fn summarizes(
    s: PendingChangesSummary,
    snap: JsonView,
    current: JsonView,
    snap_prints: Seq<(Seq<char>, Seq<char>)>,
    current_prints: Seq<(Seq<char>, Seq<char>)>,
) -> bool {
    &&& strictly_sorted(views(s.added@))
    &&& strictly_sorted(views(s.modified@))
    &&& strictly_sorted(views(s.removed@))
    &&& forall|id: Seq<char>| #[trigger]
        views(s.added@).contains(id) <==> has_server(current, id) && !has_server(snap, id)
    &&& forall|id: Seq<char>| #[trigger]
        views(s.removed@).contains(id) <==> has_server(snap, id) && !has_server(current, id)
    &&& forall|id: Seq<char>| #[trigger]
        views(s.modified@).contains(id) <==> is_modified(
            snap,
            current,
            snap_prints,
            current_prints,
            id,
        )
}

/// The fingerprints that the running core was started with.
pub open spec fn started_prints(rt: ProxyRuntime) -> Seq<(Seq<char>, Seq<char>)> {
    match rt.switch_snapshot {
        Some(s) => table_view(s.fingerprints@),
        None => Seq::empty(),
    }
}

fn without(a: &Vec<String>, b: &Vec<String>) -> (r: Vec<String>)
    ensures
        strictly_sorted(views(r@)),
        forall|t: Seq<char>| #[trigger]
            views(r@).contains(t) <==> views(a@).contains(t) && !views(b@).contains(t),
{
    let mut out: Vec<String> = Vec::new();
    assert(views(out@).len() == 0);
    let mut i: usize = 0;
    while i < a.len()
        invariant
            i <= a@.len(),
            strictly_sorted(views(out@)),
            forall|t: Seq<char>| #[trigger]
                views(out@).contains(t) <==> views(a@).take(i as int).contains(t) && !views(
                    b@,
                ).contains(t),
        decreases a@.len() - i,
    {
        let ghost before = out@;
        let ghost s = a@[i as int]@;
        if !text_in_list(b, a[i].as_str()) {
            insert_sorted(&mut out, a[i].as_str());
        }
        i += 1;
        proof {
            lemma_take_contains(views(a@), i - 1);
            assert(views(a@)[i - 1] == s);
        }
    }
    assert(views(a@).take(i as int) =~= views(a@));
    out
}

proof fn lemma_take_contains(s: Seq<Seq<char>>, i: int)
    requires
        0 <= i < s.len(),
    ensures
        forall|t: Seq<char>| #[trigger]
            s.take(i + 1).contains(t) <==> s.take(i).contains(t) || t == s[i],
{
    let a = s.take(i);
    let b = s.take(i + 1);
    assert forall|t: Seq<char>| #[trigger] b.contains(t) <==> a.contains(t) || t == s[i] by {
        if b.contains(t) {
            let k = choose|k: int| 0 <= k < b.len() && b[k] == t;
            if k < i {
                assert(a[k] == t);
            }
        }
        if a.contains(t) {
            let k = choose|k: int| 0 <= k < a.len() && a[k] == t;
            assert(b[k] == t);
        }
        assert(b[i] == s[i]);
    }
}

/// `r` is what has been saved and not applied yet. Without a core there is nothing to apply.
pub open spec fn reports(
    rt: ProxyRuntime,
    current: Option<JsonView>,
    current_prints: Seq<(Seq<char>, Seq<char>)>,
    r: PendingChangesSummary,
) -> bool {
    match rt.startup_snapshot {
        None => {
            &&& r.added@.len() == 0
            &&& r.modified@.len() == 0
            &&& r.removed@.len() == 0
            &&& !r.restart_deferred
        },
        Some(snap) => {
            &&& r.restart_deferred == rt.restart_deferred
            &&& match current {
                Some(c) => summarizes(r, snap@, c, started_prints(rt), current_prints),
                None => {
                    &&& r.added@.len() == 0
                    &&& r.modified@.len() == 0
                    &&& r.removed@.len() == 0
                },
            }
        },
    }
}

impl ProxyRuntime {
    /// What has been saved and not applied yet. `current` is the saved configuration, where it can
    /// be read; where it cannot, nothing has changed. `current_prints` are the fingerprints of its
    /// nodes.
    pub fn pending_changes(
        &self,
        current: Option<&Json>,
        current_prints: &Vec<(String, String)>,
    ) -> (r: PendingChangesSummary)
        ensures
            reports(
                *self,
                match current {
                    Some(c) => Some(c@),
                    None => None,
                },
                table_view(current_prints@),
                r,
            ),
    {
        let snap = match &self.startup_snapshot {
            Some(s) => s,
            None => {
                return PendingChangesSummary {
                    added: Vec::new(),
                    modified: Vec::new(),
                    removed: Vec::new(),
                    restart_deferred: false,
                };
            },
        };
        let current = match current {
            Some(c) => c,
            None => {
                return PendingChangesSummary {
                    added: Vec::new(),
                    modified: Vec::new(),
                    removed: Vec::new(),
                    restart_deferred: self.restart_deferred,
                };
            },
        };
        let old_ids = server_ids(snap);
        let new_ids = server_ids(current);
        let added = without(&new_ids, &old_ids);
        let removed = without(&old_ids, &new_ids);
        let mut modified: Vec<String> = Vec::new();
        assert(views(modified@).len() == 0);
        let mut i: usize = 0;
        while i < old_ids.len()
            invariant
                i <= old_ids@.len(),
                strictly_sorted(views(modified@)),
                forall|id: Seq<char>| #[trigger]
                    views(old_ids@).contains(id) <==> has_server(snap@, id),
                forall|id: Seq<char>| #[trigger]
                    views(new_ids@).contains(id) <==> has_server(current@, id),
                forall|id: Seq<char>| #[trigger]
                    views(modified@).contains(id) <==> views(old_ids@).take(i as int).contains(id)
                        && is_modified(
                        snap@,
                        current@,
                        started_prints(*self),
                        table_view(current_prints@),
                        id,
                    ),
            decreases old_ids@.len() - i,
        {
            let id = old_ids[i].as_str();
            assert(views(old_ids@)[i as int] == id@);
            assert(views(old_ids@).contains(id@));
            let old_print = match &self.switch_snapshot {
                Some(s) => lookup(&s.fingerprints, id),
                None => None,
            };
            let changed = match (old_print, lookup(current_prints, id)) {
                (Some(a), Some(b)) => !same_text(a.as_str(), b.as_str()),
                _ => false,
            };
            let present = text_in_list(&new_ids, id);
            if changed && present {
                insert_sorted(&mut modified, id);
            }
            i += 1;
            proof {
                lemma_take_contains(views(old_ids@), i - 1);
            }
        }
        assert(views(old_ids@).take(i as int) =~= views(old_ids@));
        PendingChangesSummary { added, modified, removed, restart_deferred: self.restart_deferred }
    }

    /// Applies what was saved, by a restart. `saved` is the saved configuration, where it can be
    /// read. While the lifecycle is busy the restart waits for it; without a core that runs there
    /// is nothing to restart.
    pub fn apply_pending(&mut self, saved: Option<Json>, busy: bool) -> (r: ApplyPending)
        ensures
            match saved {
                None => {
                    &&& r.answer@ == "skipped"@
                    &&& r.force_restart_id is None
                    &&& !r.mark_restart_pending && !r.schedule_restart && !r.process_deletions
                    &&& *final(self) == *old(self)
                },
                Some(config) => if busy || old(self).status@.running {
                    &&& r.answer@ == (if busy {
                        "deferred"@
                    } else {
                        "applied"@
                    })
                    &&& r.force_restart_id == Some(old(self).force_restart_seq)
                    &&& r.mark_restart_pending == busy
                    &&& r.schedule_restart == !busy
                    &&& !r.process_deletions
                    &&& asks_for_restart(*old(self), *final(self), config)
                } else {
                    &&& r.answer@ == "skipped"@
                    &&& r.force_restart_id is None
                    &&& !r.mark_restart_pending && !r.schedule_restart
                    &&& r.process_deletions
                    &&& *final(self) == (ProxyRuntime {
                        force_restart_seq: old(self).force_restart_seq.wrapping_add(1),
                        ..*old(self)
                    })
                },
            },
    {
        let config = match saved {
            Some(c) => c,
            None => {
                return ApplyPending {
                    answer: "skipped",
                    force_restart_id: None,
                    mark_restart_pending: false,
                    schedule_restart: false,
                    process_deletions: false,
                };
            },
        };
        let id: u64 = self.force_restart_seq;
        self.force_restart_seq = id.wrapping_add(1);
        if busy {
            self.pending_force_restart = Some((id, config));
            return ApplyPending {
                answer: "deferred",
                force_restart_id: Some(id),
                mark_restart_pending: true,
                schedule_restart: false,
                process_deletions: false,
            };
        }
        if !self.core_running() {
            return ApplyPending {
                answer: "skipped",
                force_restart_id: None,
                mark_restart_pending: false,
                schedule_restart: false,
                process_deletions: true,
            };
        }
        self.pending_force_restart = Some((id, config));
        ApplyPending {
            answer: "applied",
            force_restart_id: Some(id),
            mark_restart_pending: false,
            schedule_restart: true,
            process_deletions: false,
        }
    }
}

/// A restart waits under the next number, with this configuration.
pub open spec fn asks_for_restart(before: ProxyRuntime, after: ProxyRuntime, config: Json) -> bool {
    after == (ProxyRuntime {
        force_restart_seq: before.force_restart_seq.wrapping_add(1),
        pending_force_restart: Some((before.force_restart_seq, config)),
        ..before
    })
}

/// A restart that was asked for starts the configuration that it was asked for with.
pub proof fn law_a_restart_starts_what_it_was_asked_for(
    before: ProxyRuntime,
    waiting: ProxyRuntime,
    after: ProxyRuntime,
    config: Json,
    r: Option<Json>,
)
    requires
        asks_for_restart(before, waiting, config),
        crate::runtime::takes_restart(waiting, after, Some(before.force_restart_seq), r),
    ensures
        r == Some(config),
        after.pending_force_restart is None,
{
}

/// No node is named twice in a summary: what was added, changed and removed are different nodes.
pub proof fn law_a_node_has_one_change(
    s: PendingChangesSummary,
    snap: JsonView,
    current: JsonView,
    snap_prints: Seq<(Seq<char>, Seq<char>)>,
    current_prints: Seq<(Seq<char>, Seq<char>)>,
    id: Seq<char>,
)
    requires
        summarizes(s, snap, current, snap_prints, current_prints),
    ensures
        !(views(s.added@).contains(id) && views(s.modified@).contains(id)),
        !(views(s.added@).contains(id) && views(s.removed@).contains(id)),
        !(views(s.modified@).contains(id) && views(s.removed@).contains(id)),
{
}

/// Where nothing was saved since the core was started, nothing is pending.
pub proof fn law_an_unchanged_configuration_has_no_changes(
    s: PendingChangesSummary,
    snap: JsonView,
    prints: Seq<(Seq<char>, Seq<char>)>,
)
    requires
        summarizes(s, snap, snap, prints, prints),
    ensures
        s.added@.len() == 0,
        s.modified@.len() == 0,
        s.removed@.len() == 0,
{
    if s.added@.len() > 0 {
        assert(views(s.added@).contains(views(s.added@)[0]));
    }
    if s.modified@.len() > 0 {
        assert(views(s.modified@).contains(views(s.modified@)[0]));
    }
    if s.removed@.len() > 0 {
        assert(views(s.removed@).contains(views(s.removed@)[0]));
    }
}

/// Two summaries of the same changes name the same nodes in the same order.
pub proof fn law_a_summary_is_determined(
    s: PendingChangesSummary,
    t: PendingChangesSummary,
    snap: JsonView,
    current: JsonView,
    snap_prints: Seq<(Seq<char>, Seq<char>)>,
    current_prints: Seq<(Seq<char>, Seq<char>)>,
)
    requires
        summarizes(s, snap, current, snap_prints, current_prints),
        summarizes(t, snap, current, snap_prints, current_prints),
    ensures
        views(s.added@) == views(t.added@),
        views(s.modified@) == views(t.modified@),
        views(s.removed@) == views(t.removed@),
{
    lemma_sorted_lists_equal(views(s.added@), views(t.added@));
    lemma_sorted_lists_equal(views(s.modified@), views(t.modified@));
    lemma_sorted_lists_equal(views(s.removed@), views(t.removed@));
}

/// A deletion that waited for the core to be down.
pub enum DeferredDeletion {
    /// A rule resource that a rule may refer to again by now.
    RuleResource { referenced: bool },
    /// The state of a Tailscale node; `Some(true)` says that its identifier is no safe name, and
    /// `Some(false)` that deleting it failed otherwise.
    TailscaleState { failure: Option<bool> },
    /// Anything else, which is deleted as it is.
    Other,
}

/// What becomes of a deletion that waited.
#[derive(Clone, Copy, PartialEq, Eq, Structural, Debug)]
pub enum DeletionStep {
    /// It is settled without deleting anything.
    Settled,
    /// Delete it; how that ends is how the entry ends.
    Delete,
    /// It is kept for another time.
    Retry,
}

/// What becomes of a deletion that waited: what is in use again is kept, and a name that cannot be
/// deleted safely is forgotten rather than tried again and again.
pub fn deferred_deletion_step(entry: &DeferredDeletion) -> (r: DeletionStep)
    ensures
        r == (match *entry {
            DeferredDeletion::RuleResource { referenced } => if referenced {
                DeletionStep::Settled
            } else {
                DeletionStep::Delete
            },
            DeferredDeletion::TailscaleState { failure } => match failure {
                None => DeletionStep::Settled,
                Some(unsafe_name) => if unsafe_name {
                    DeletionStep::Settled
                } else {
                    DeletionStep::Retry
                },
            },
            DeferredDeletion::Other => DeletionStep::Delete,
        }),
{
    match entry {
        DeferredDeletion::RuleResource { referenced } => if *referenced {
            DeletionStep::Settled
        } else {
            DeletionStep::Delete
        },
        DeferredDeletion::TailscaleState { failure } => match failure {
            None => DeletionStep::Settled,
            Some(unsafe_name) => if *unsafe_name {
                DeletionStep::Settled
            } else {
                DeletionStep::Retry
            },
        },
        DeferredDeletion::Other => DeletionStep::Delete,
    }
}

/// Where the saved configuration cannot be read, no change is told of, whatever fingerprints its
/// nodes are said to have.
pub proof fn law_an_unreadable_configuration_has_no_changes(
    rt: ProxyRuntime,
    current_prints: Seq<(Seq<char>, Seq<char>)>,
    r: PendingChangesSummary,
)
    requires
        reports(rt, None, current_prints, r),
    ensures
        r.added@.len() == 0,
        r.modified@.len() == 0,
        r.removed@.len() == 0,
{
}

/// Once a stop is complete nothing waits to be applied, whatever has been saved.
pub proof fn law_a_stopped_core_has_no_pending_changes(
    before: ProxyRuntime,
    after: ProxyRuntime,
    current: Option<JsonView>,
    current_prints: Seq<(Seq<char>, Seq<char>)>,
    r: PendingChangesSummary,
)
    requires
        stopped_from(before, after),
        reports(after, current, current_prints, r),
    ensures
        r.added@.len() == 0,
        r.modified@.len() == 0,
        r.removed@.len() == 0,
        !r.restart_deferred,
        after.pending_force_restart is None,
{
}

/// What is pending is told by the nodes: added are those that are saved and were not started with,
/// removed those that were started with and are not saved, and changed those in both whose
/// fingerprints are known and differ. Nothing is pending without a core or without a readable
/// configuration, and whether a change waits is as it is remembered.
pub proof fn law_what_is_pending_is_told_by_the_nodes(
    rt: ProxyRuntime,
    current: Json,
    prints: Vec<(String, String)>,
    r: PendingChangesSummary,
    started: Json,
    was: Vec<String>,
    is_now: Vec<String>,
    id: Seq<char>,
)
    requires
        call_ensures(ProxyRuntime::pending_changes, (&rt, Some(&current), &prints), r),
        rt.startup_snapshot == Some(started),
        call_ensures(server_ids, (&started,), was),
        call_ensures(server_ids, (&current,), is_now),
    ensures
        r.restart_deferred == rt.restart_deferred,
        views(r.added@).contains(id) <==> views(is_now@).contains(id) && !views(was@).contains(id),
        views(r.removed@).contains(id) <==> views(was@).contains(id) && !views(is_now@).contains(
            id,
        ),
        ({
            let before = if rt.switch_snapshot is Some {
                table_get(table_view(rt.switch_snapshot->0.fingerprints@), id)
            } else {
                None
            };
            let after = table_get(table_view(prints@), id);
            views(r.modified@).contains(id) <==> views(was@).contains(id) && views(
                is_now@,
            ).contains(id) && before is Some && after is Some && before != after
        }),
{
    assert(views(was@).contains(id) <==> has_server(started@, id));
    assert(views(is_now@).contains(id) <==> has_server(current@, id));
    assert(summarizes(r, started@, current@, started_prints(rt), table_view(prints@)));
}

/// Without a core nothing is pending, whatever has been saved; with one whose saved configuration
/// cannot be read, only that a change waits.
pub proof fn law_nothing_is_pending_without_a_core(
    rt: ProxyRuntime,
    current: Option<&Json>,
    prints: Vec<(String, String)>,
    r: PendingChangesSummary,
)
    requires
        call_ensures(ProxyRuntime::pending_changes, (&rt, current, &prints), r),
    ensures
        rt.startup_snapshot is None || current is None ==> r.added@.len() == 0 && r.removed@.len()
            == 0 && r.modified@.len() == 0,
        r.restart_deferred <==> rt.startup_snapshot is Some && rt.restart_deferred,
{
}

/// Applying asks for a restart exactly where a configuration was read and a core runs or is being
/// dealt with, and then what the restart starts is that configuration; it waits while the lifecycle
/// is busy. Otherwise it is skipped, and deletions are made where no core runs.
pub proof fn law_applying_restarts_with_what_was_saved(
    rt: &mut ProxyRuntime,
    saved: Option<Json>,
    busy: bool,
    r: ApplyPending,
    later: &mut ProxyRuntime,
    other: Option<Json>,
    started: Option<Json>,
)
    requires
        call_ensures(ProxyRuntime::apply_pending, (rt, saved, busy), r),
        *old(later) == *final(rt),
        call_ensures(ProxyRuntime::restart_config, (later, r.force_restart_id, other), started),
    ensures
        ({
            let asked = saved is Some && (busy || old(rt).status.running);
            &&& r.force_restart_id is Some <==> asked
            &&& asked ==> started == saved && final(later).pending_force_restart is None
            &&& r.schedule_restart <==> asked && !busy
            &&& r.mark_restart_pending <==> asked && busy
            &&& r.process_deletions <==> saved is Some && !asked
            &&& !asked ==> final(rt).pending_force_restart == old(rt).pending_force_restart
                && r.answer@ == "skipped"@
            &&& asked && busy ==> r.answer@ == "deferred"@
            &&& asked && !busy ==> r.answer@ == "applied"@
            &&& saved is None ==> *final(rt) == *old(rt)
            &&& final(rt).status == old(rt).status
            &&& final(rt).current_config == old(rt).current_config
            &&& final(rt).generation == old(rt).generation
        }),
{
    assert(old(rt).status@.running == old(rt).status.running);
}

/// Two restarts that are asked for one after the other wait under different numbers, so that the
/// first one's number does not take the second one's configuration.
pub proof fn law_each_restart_has_its_own_number(
    first: &mut ProxyRuntime,
    second: &mut ProxyRuntime,
    a: Json,
    b: Json,
    r: ApplyPending,
    q: ApplyPending,
)
    requires
        call_ensures(ProxyRuntime::apply_pending, (first, Some(a), true), r),
        *old(second) == *final(first),
        call_ensures(ProxyRuntime::apply_pending, (second, Some(b), true), q),
    ensures
        r.force_restart_id is Some,
        q.force_restart_id is Some,
        r.force_restart_id != q.force_restart_id,
        final(second).pending_force_restart == Some((q.force_restart_id->0, b)),
{
}

/// A deletion that waited is made where nothing speaks against it: what is in use again is kept, a
/// state that is gone or whose name is unsafe is settled, and only a failure of another kind is
/// tried again.
pub proof fn law_what_becomes_of_a_deletion(entry: DeferredDeletion, r: DeletionStep)
    requires
        call_ensures(deferred_deletion_step, (&entry,), r),
    ensures
        r == DeletionStep::Retry <==> entry == (DeferredDeletion::TailscaleState {
            failure: Some(false),
        }),
        r == DeletionStep::Delete <==> entry is Other || entry == (DeferredDeletion::RuleResource {
            referenced: false,
        }),
        r == DeletionStep::Settled <==> entry == (DeferredDeletion::RuleResource {
            referenced: true,
        }) || entry == (DeferredDeletion::TailscaleState { failure: None }) || entry == (
        DeferredDeletion::TailscaleState { failure: Some(true) }),
{
}

} // verus!
