//! Which network profiles match: asked of the core by name queries, and known only as long as the
//! network has not changed since.

use vstd::prelude::*;

use crate::text::same_text;

verus! {

/// The pause between two rounds of queries.
pub const CANARY_PROBE_INTERVAL_MS: u64 = 5000;

/// How long an answer is waited for.
pub const CANARY_QUERY_TIMEOUT_MS: u64 = 800;

/// The number that a query carries and its answer repeats.
pub const CANARY_QUERY_ID: u16 = 0x4e50;

/// A profile and the name that is asked to find out whether it matches.
pub struct NetworkCanary {
    pub profile_id: String,
    pub domain: String,
}

/// The profiles of a session and the port that answers about them.
pub struct NetworkCanaryPlan {
    pub port: u16,
    pub canaries: Vec<NetworkCanary>,
}

impl Clone for NetworkCanary {
    fn clone(&self) -> (r: Self)
        ensures
            r == *self,
    {
        NetworkCanary { profile_id: self.profile_id.clone(), domain: self.domain.clone() }
    }
}

/// What is known of each profile, by its identifier: whether it matches, or nothing.
pub open spec fn match_map(v: Seq<(String, Option<bool>)>) -> Map<Seq<char>, Option<bool>>
    decreases v.len(),
{
    if v.len() == 0 {
        Map::empty()
    } else {
        match_map(v.drop_last()).insert(v.last().0@, v.last().1)
    }
}

/// Something is known of some profile.
pub open spec fn anything_known(m: Map<Seq<char>, Option<bool>>) -> bool {
    exists|k: Seq<char>| #[trigger] m.dom().contains(k) && m[k] is Some
}

/// The same profiles, with nothing known of them.
pub open spec fn forgotten(m: Map<Seq<char>, Option<bool>>) -> Map<Seq<char>, Option<bool>> {
    m.map_values(|v: Option<bool>| None)
}

/// The profiles of a plan, with nothing known of them.
pub open spec fn unknown_of(canaries: Seq<NetworkCanary>) -> Map<Seq<char>, Option<bool>>
    decreases canaries.len(),
{
    if canaries.len() == 0 {
        Map::empty()
    } else {
        unknown_of(canaries.drop_last()).insert(canaries.last().profile_id@, None)
    }
}

/// The profiles of a plan, where there is one, with nothing known of them.
pub open spec fn unknown_of_plan(plan: Option<NetworkCanaryPlan>) -> Map<
    Seq<char>,
    Option<bool>,
> {
    match plan {
        Some(p) => unknown_of(p.canaries@),
        None => Map::empty(),
    }
}

/// The profiles whose matching is followed. Every session and every change of the network opens a
/// round of its own.
pub struct NetworkCanaryState {
    pub session: u64,
    pub round: u64,
    pub plan: Option<NetworkCanaryPlan>,
    pub matches: Vec<(String, Option<bool>)>,
}

/// A new session begins.
pub open spec fn arms(
    before: NetworkCanaryState,
    after: NetworkCanaryState,
    plan: Option<NetworkCanaryPlan>,
    changed: bool,
) -> bool {
    &&& after.session == before.session.wrapping_add(1)
    &&& after.round == before.round.wrapping_add(1)
    &&& after.plan == plan
    &&& match_map(after.matches@) == unknown_of_plan(plan)
    &&& changed == (anything_known(match_map(before.matches@)) || match_map(before.matches@)
        != match_map(after.matches@))
}

/// The session ends.
pub open spec fn disarms(before: NetworkCanaryState, after: NetworkCanaryState, changed: bool) -> bool {
    &&& after.session == before.session.wrapping_add(1)
    &&& after.round == before.round.wrapping_add(1)
    &&& after.plan is None
    &&& match_map(after.matches@) == Map::<Seq<char>, Option<bool>>::empty()
    &&& changed == (match_map(before.matches@) != Map::<Seq<char>, Option<bool>>::empty())
}

/// The network changed, and nothing is known any more.
pub open spec fn invalidates(
    before: NetworkCanaryState,
    after: NetworkCanaryState,
    changed: bool,
) -> bool {
    &&& after.session == before.session
    &&& after.round == before.round.wrapping_add(1)
    &&& after.plan == before.plan
    &&& match_map(after.matches@) == forgotten(match_map(before.matches@))
    &&& changed == anything_known(match_map(before.matches@))
}

/// The results of a round come in. Those of an earlier round are dropped.
pub open spec fn records(
    before: NetworkCanaryState,
    after: NetworkCanaryState,
    round: u64,
    results: Seq<(String, Option<bool>)>,
    changed: bool,
) -> bool {
    if before.round != round {
        !changed && after == before
    } else {
        &&& changed == (match_map(before.matches@) != match_map(results))
        &&& match_map(after.matches@) == match_map(results)
        &&& after.session == before.session
        &&& after.round == before.round
        &&& after.plan == before.plan
    }
}

/// Whether a profile matches, as far as a table knows.
pub open spec fn known_in(m: Map<Seq<char>, Option<bool>>, id: Seq<char>) -> Option<bool> {
    if m.dom().contains(id) {
        m[id]
    } else {
        None
    }
}

/// What the holder of this session asks next: the round, the port and the profiles.
pub open spec fn target_of(state: NetworkCanaryState, session: u64) -> Option<
    (u64, u16, Seq<NetworkCanary>),
> {
    match state.plan {
        Some(p) if state.session == session => Some((state.round, p.port, p.canaries@)),
        _ => None,
    }
}

/// One change of the state.
pub enum CanaryStep {
    Arm { plan: Option<NetworkCanaryPlan> },
    Disarm,
    Invalidate,
    Record { round: u64, results: Seq<(String, Option<bool>)> },
}

/// The step leads from one state to the other.
pub open spec fn leads(before: NetworkCanaryState, after: NetworkCanaryState, step: CanaryStep) -> bool {
    match step {
        CanaryStep::Arm { plan } => exists|changed: bool| arms(before, after, plan, changed),
        CanaryStep::Disarm => exists|changed: bool| disarms(before, after, changed),
        CanaryStep::Invalidate => exists|changed: bool| invalidates(before, after, changed),
        CanaryStep::Record { round, results } => exists|changed: bool|
            records(before, after, round, results, changed),
    }
}

/// The states that the steps lead through, one after the other.
pub open spec fn runs(states: Seq<NetworkCanaryState>, steps: Seq<CanaryStep>) -> bool {
    &&& states.len() == steps.len() + 1
    &&& forall|i: int| 0 <= i < steps.len() ==> leads(states[i], states[i + 1], #[trigger] steps[i])
}

/// How many of the steps begin another round.
pub open spec fn rounds_begun(steps: Seq<CanaryStep>) -> nat
    decreases steps.len(),
{
    if steps.len() == 0 {
        0
    } else {
        rounds_begun(steps.drop_last()) + if steps.last() is Record {
            0nat
        } else {
            1nat
        }
    }
}

/// How many of the steps begin or end a session.
pub open spec fn sessions_changed(steps: Seq<CanaryStep>) -> nat
    decreases steps.len(),
{
    if steps.len() == 0 {
        0
    } else {
        sessions_changed(steps.drop_last()) + if steps.last() is Arm || steps.last() is Disarm {
            1nat
        } else {
            0nat
        }
    }
}

/// The step that began the session which has not ended since.
pub open spec fn begun_by(steps: Seq<CanaryStep>) -> Option<int>
    decreases steps.len(),
{
    if steps.len() == 0 {
        None
    } else {
        match steps.last() {
            CanaryStep::Arm { .. } => Some(steps.len() - 1),
            CanaryStep::Disarm => None,
            _ => begun_by(steps.drop_last()),
        }
    }
}

fn known_of(v: &Vec<(String, Option<bool>)>, id: &str) -> (r: Option<Option<bool>>)
    ensures
        r == (if match_map(v@).dom().contains(id@) {
            Some(match_map(v@)[id@])
        } else {
            None
        }),
{
    let mut i: usize = v.len();
    assert(v@.take(i as int) =~= v@);
    while i > 0
        invariant
            i <= v@.len(),
            match_map(v@).dom().contains(id@) == match_map(v@.take(i as int)).dom().contains(id@),
            match_map(v@).dom().contains(id@) ==> match_map(v@)[id@] == match_map(
                v@.take(i as int),
            )[id@],
        decreases i,
    {
        let ghost t = v@.take(i as int);
        assert(t.drop_last() =~= v@.take(i - 1));
        assert(t.last() == v@[i - 1]);
        if same_text(v[i - 1].0.as_str(), id) {
            return Some(v[i - 1].1);
        }
        i -= 1;
    }
    None
}

/// A profile is known of in a table where an entry of the table names it.
proof fn lemma_map_keys(v: Seq<(String, Option<bool>)>, k: Seq<char>)
    ensures
        match_map(v).dom().contains(k) <==> exists|i: int|
            0 <= i < v.len() && (#[trigger] v[i]).0@ == k,
    decreases v.len(),
{
    if v.len() > 0 {
        let u = v.drop_last();
        lemma_map_keys(u, k);
        if match_map(u).dom().contains(k) {
            let i = choose|i: int| 0 <= i < u.len() && (#[trigger] u[i]).0@ == k;
            assert(v[i].0@ == k);
        }
        if v.last().0@ == k {
            assert(v[v.len() - 1].0@ == k);
        }
        if exists|i: int| 0 <= i < v.len() && (#[trigger] v[i]).0@ == k {
            let i = choose|i: int| 0 <= i < v.len() && (#[trigger] v[i]).0@ == k;
            if i < u.len() {
                assert(u[i].0@ == k);
            }
        }
    }
}

fn agrees(a: &Vec<(String, Option<bool>)>, b: &Vec<(String, Option<bool>)>) -> (r: bool)
    ensures
        r == (forall|k: Seq<char>| #[trigger]
            match_map(a@).dom().contains(k) ==> match_map(b@).dom().contains(k) && match_map(b@)[k]
                == match_map(a@)[k]),
{
    let mut i: usize = 0;
    while i < a.len()
        invariant
            i <= a@.len(),
            forall|j: int|
                0 <= j < i ==> match_map(b@).dom().contains((#[trigger] a@[j]).0@) && match_map(
                    b@,
                )[a@[j].0@] == match_map(a@)[a@[j].0@],
        decreases a@.len() - i,
    {
        proof {
            lemma_map_keys(a@, a@[i as int].0@);
            assert(a@[i as int].0@ == a@[i as int].0@);
        }
        let mine = known_of(a, a[i].0.as_str());
        let theirs = known_of(b, a[i].0.as_str());
        let same = match (mine, theirs) {
            (Some(x), Some(y)) => match (x, y) {
                (Some(p), Some(q)) => p == q,
                (None, None) => true,
                _ => false,
            },
            _ => false,
        };
        if !same {
            assert(match_map(a@).dom().contains(a@[i as int].0@));
            return false;
        }
        i += 1;
    }
    assert forall|k: Seq<char>| #[trigger] match_map(a@).dom().contains(k) implies match_map(
        b@,
    ).dom().contains(k) && match_map(b@)[k] == match_map(a@)[k] by {
        lemma_map_keys(a@, k);
        let j = choose|j: int| 0 <= j < a@.len() && (#[trigger] a@[j]).0@ == k;
        assert(a@[j].0@ == k);
    }
    true
}

fn same_matches(a: &Vec<(String, Option<bool>)>, b: &Vec<(String, Option<bool>)>) -> (r: bool)
    ensures
        r == (match_map(a@) == match_map(b@)),
{
    let there = agrees(a, b);
    let back = agrees(b, a);
    proof {
        if there && back {
            assert(match_map(a@) =~= match_map(b@));
        }
    }
    there && back
}

fn known_at_all(v: &Vec<(String, Option<bool>)>) -> (r: bool)
    ensures
        r == anything_known(match_map(v@)),
{
    let mut i: usize = 0;
    while i < v.len()
        invariant
            i <= v@.len(),
            forall|j: int| 0 <= j < i ==> match_map(v@)[(#[trigger] v@[j]).0@] is None,
        decreases v@.len() - i,
    {
        proof {
            lemma_map_keys(v@, v@[i as int].0@);
            assert(v@[i as int].0@ == v@[i as int].0@);
        }
        match known_of(v, v[i].0.as_str()) {
            Some(Some(_)) => {
                assert(match_map(v@).dom().contains(v@[i as int].0@));
                return true;
            },
            _ => {},
        }
        i += 1;
    }
    assert forall|k: Seq<char>| #[trigger] match_map(v@).dom().contains(k) implies match_map(v@)[k]
        is None by {
        lemma_map_keys(v@, k);
        let j = choose|j: int| 0 <= j < v@.len() && (#[trigger] v@[j]).0@ == k;
        assert(match_map(v@)[v@[j].0@] is None);
    }
    false
}

/// What a round of queries says: each profile with the answer about it.
pub fn probe_results(canaries: &Vec<NetworkCanary>, answers: &Vec<Option<bool>>) -> (r: Vec<
    (String, Option<bool>),
>)
    requires
        canaries@.len() == answers@.len(),
    ensures
        r@.len() == canaries@.len(),
        forall|i: int|
            0 <= i < r@.len() ==> (#[trigger] r@[i]).0@ == canaries@[i].profile_id@ && r@[i].1
                == answers@[i],
{
    let mut out: Vec<(String, Option<bool>)> = Vec::new();
    let mut i: usize = 0;
    while i < canaries.len()
        invariant
            i <= canaries@.len() == answers@.len(),
            out@.len() == i,
            forall|k: int|
                0 <= k < i ==> (#[trigger] out@[k]).0@ == canaries@[k].profile_id@ && out@[k].1
                    == answers@[k],
        decreases canaries@.len() - i,
    {
        out.push((canaries[i].profile_id.clone(), answers[i]));
        i += 1;
    }
    out
}

impl Default for NetworkCanaryState {
    fn default() -> (r: Self)
        ensures
            r.session == 0,
            r.round == 0,
            r.plan is None,
            r.matches@.len() == 0,
    {
        NetworkCanaryState { session: 0, round: 0, plan: None, matches: Vec::new() }
    }
}

impl NetworkCanaryState {
    /// A new session begins: nothing is known of its profiles yet. The number of the session, and
    /// whether what can be seen has changed.
    pub fn arm(&mut self, plan: Option<NetworkCanaryPlan>) -> (r: (u64, bool))
        ensures
            r.0 == final(self).session,
            arms(*old(self), *final(self), plan, r.1),
    {
        self.session = self.session.wrapping_add(1);
        self.round = self.round.wrapping_add(1);
        let mut fresh: Vec<(String, Option<bool>)> = Vec::new();
        if let Some(p) = &plan {
            let mut i: usize = 0;
            while i < p.canaries.len()
                invariant
                    i <= p.canaries@.len(),
                    match_map(fresh@) == unknown_of(p.canaries@.take(i as int)),
                decreases p.canaries@.len() - i,
            {
                let ghost t = p.canaries@.take(i + 1);
                assert(t.drop_last() =~= p.canaries@.take(i as int));
                assert(t.last() == p.canaries@[i as int]);
                let ghost before = fresh@;
                fresh.push((p.canaries[i].profile_id.clone(), None));
                assert(fresh@.drop_last() =~= before);
                i += 1;
            }
            assert(p.canaries@.take(i as int) =~= p.canaries@);
        }
        let changed = known_at_all(&self.matches) || !same_matches(&self.matches, &fresh);
        self.matches = fresh;
        self.plan = plan;
        (self.session, changed)
    }

    /// The session ends: its profiles are forgotten. Whether what can be seen has changed.
    pub fn disarm(&mut self) -> (changed: bool)
        ensures
            disarms(*old(self), *final(self), changed),
    {
        self.session = self.session.wrapping_add(1);
        self.round = self.round.wrapping_add(1);
        self.plan = None;
        let changed = self.matches.len() > 0;
        proof {
            if self.matches@.len() > 0 {
                let k = self.matches@[0].0@;
                lemma_map_keys(self.matches@, k);
                assert(match_map(self.matches@).dom().contains(k));
            }
        }
        self.matches = Vec::new();
        changed
    }

    /// The network changed: nothing is known any more of the session's profiles. Whether what can
    /// be seen has changed.
    pub fn invalidate(&mut self) -> (changed: bool)
        ensures
            invalidates(*old(self), *final(self), changed),
    {
        self.round = self.round.wrapping_add(1);
        let changed = known_at_all(&self.matches);
        let mut fresh: Vec<(String, Option<bool>)> = Vec::new();
        let mut i: usize = 0;
        assert(match_map(fresh@) =~= forgotten(match_map(self.matches@.take(0))));
        while i < self.matches.len()
            invariant
                i <= self.matches@.len(),
                match_map(fresh@) == forgotten(match_map(self.matches@.take(i as int))),
            decreases self.matches@.len() - i,
        {
            let ghost t = self.matches@.take(i + 1);
            assert(t.drop_last() =~= self.matches@.take(i as int));
            assert(t.last() == self.matches@[i as int]);
            let ghost before = fresh@;
            fresh.push((self.matches[i].0.clone(), None));
            assert(fresh@.drop_last() =~= before);
            assert(match_map(fresh@) =~= forgotten(match_map(t)));
            i += 1;
        }
        assert(self.matches@.take(i as int) =~= self.matches@);
        self.matches = fresh;
        changed
    }

    /// Whether a profile matches, where that is known.
    pub fn matched(&self, profile_id: &str) -> (r: Option<bool>)
        ensures
            r == known_in(match_map(self.matches@), profile_id@),
    {
        match known_of(&self.matches, profile_id) {
            Some(m) => m,
            None => None,
        }
    }

    /// What the holder of this session asks next: the round, the port and the profiles. `None`
    /// where the session is over or has no plan.
    pub fn target(&self, session: u64) -> (r: Option<(u64, u16, Vec<NetworkCanary>)>)
        ensures
            match r {
                Some(t) => target_of(*self, session) == Some((t.0, t.1, t.2@)),
                None => target_of(*self, session) is None,
            },
    {
        if self.session != session {
            return None;
        }
        match &self.plan {
            Some(p) => {
                let mut out: Vec<NetworkCanary> = Vec::new();
                let mut i: usize = 0;
                while i < p.canaries.len()
                    invariant
                        i <= p.canaries@.len(),
                        out@ == p.canaries@.take(i as int),
                    decreases p.canaries@.len() - i,
                {
                    out.push(p.canaries[i].clone());
                    i += 1;
                    assert(p.canaries@.take(i as int) =~= p.canaries@.take(i - 1).push(
                        p.canaries@[i - 1],
                    ));
                }
                assert(p.canaries@.take(i as int) =~= p.canaries@);
                Some((self.round, p.port, out))
            },
            None => None,
        }
    }

    /// The results of a round came in. Whether what can be seen has changed.
    pub fn record(&mut self, round: u64, results: Vec<(String, Option<bool>)>) -> (changed: bool)
        ensures
            records(*old(self), *final(self), round, results@, changed),
    {
        if self.round != round {
            return false;
        }
        let changed = !same_matches(&self.matches, &results);
        self.matches = results;
        changed
    }
}

/// The rounds and sessions are numbered on, from one number to the next.
proof fn lemma_numbered_on(states: Seq<NetworkCanaryState>, steps: Seq<CanaryStep>)
    requires
        runs(states, steps),
    ensures
        states.last().round as int == (states[0].round + rounds_begun(steps))
            % 0x1_0000_0000_0000_0000,
        states.last().session as int == (states[0].session + sessions_changed(steps))
            % 0x1_0000_0000_0000_0000,
    decreases steps.len(),
{
    if steps.len() > 0 {
        let front = steps.drop_last();
        let upto = states.drop_last();
        assert forall|i: int| 0 <= i < front.len() implies leads(
            upto[i],
            upto[i + 1],
            #[trigger] front[i],
        ) by {
            assert(leads(states[i], states[i + 1], steps[i]));
        }
        lemma_numbered_on(upto, front);
        let n = front.len() as int;
        assert(leads(states[n], states[n + 1], steps[n]));
        assert(upto.last() == states[n]);
    }
}

/// Results that were asked for before the network changed, or before the session ended or was
/// replaced, are never written, however often that happened since: what they say is of another
/// round. (The numbers of the rounds come round after 2^64 changes.)
pub proof fn law_results_from_before_a_change_are_dropped(
    states: Seq<NetworkCanaryState>,
    steps: Seq<CanaryStep>,
    after: NetworkCanaryState,
    results: Seq<(String, Option<bool>)>,
    changed: bool,
    id: Seq<char>,
)
    requires
        runs(states, steps),
        0 < rounds_begun(steps) < 0x1_0000_0000_0000_0000,
        records(states.last(), after, states[0].round, results, changed),
    ensures
        !changed,
        after == states.last(),
        known_in(match_map(after.matches@), id) == known_in(
            match_map(states.last().matches@),
            id,
        ),
{
    lemma_numbered_on(states, steps);
}

/// Results of the round that is still going on are written: what they say of a profile is then
/// what is known of it, and what can be seen has changed exactly where they say something else
/// than was known.
pub proof fn law_results_of_the_round_are_kept(
    states: Seq<NetworkCanaryState>,
    steps: Seq<CanaryStep>,
    after: NetworkCanaryState,
    results: Seq<(String, Option<bool>)>,
    changed: bool,
    id: Seq<char>,
)
    requires
        runs(states, steps),
        rounds_begun(steps) == 0,
        records(states.last(), after, states[0].round, results, changed),
    ensures
        known_in(match_map(after.matches@), id) == known_in(match_map(results), id),
        changed <==> match_map(states.last().matches@) != match_map(results),
{
    lemma_numbered_on(states, steps);
}

/// There is something to ask exactly for the session that was begun last, where it has not ended
/// and was given a plan; and what is asked is that plan.
pub proof fn law_the_session_begun_last_is_asked_for(
    states: Seq<NetworkCanaryState>,
    steps: Seq<CanaryStep>,
    session: u64,
)
    requires
        runs(states, steps),
        states[0].plan is None,
    ensures
        target_of(states.last(), session) == (match begun_by(steps) {
            Some(i) => match steps[i]->plan {
                Some(p) if states[i + 1].session == session => Some(
                    (states.last().round, p.port, p.canaries@),
                ),
                _ => None,
            },
            None => None,
        }),
{
    lemma_begun_by(states, steps);
}

proof fn lemma_begun_by(states: Seq<NetworkCanaryState>, steps: Seq<CanaryStep>)
    requires
        runs(states, steps),
        states[0].plan is None,
    ensures
        match begun_by(steps) {
            Some(i) => {
                &&& 0 <= i < steps.len()
                &&& steps[i] is Arm
                &&& states.last().plan == steps[i]->plan
                &&& states.last().session == states[i + 1].session
            },
            None => states.last().plan is None,
        },
    decreases steps.len(),
{
    if steps.len() > 0 {
        let front = steps.drop_last();
        let upto = states.drop_last();
        assert forall|i: int| 0 <= i < front.len() implies leads(
            upto[i],
            upto[i + 1],
            #[trigger] front[i],
        ) by {
            assert(leads(states[i], states[i + 1], steps[i]));
        }
        lemma_begun_by(upto, front);
        let n = front.len() as int;
        assert(leads(states[n], states[n + 1], steps[n]));
        assert(upto.last() == states[n]);
    }
}

/// A session that has ended or been replaced has nothing left to ask, however many followed it.
/// (The numbers of the sessions come round after 2^64 changes.)
pub proof fn law_a_replaced_session_asks_nothing(
    states: Seq<NetworkCanaryState>,
    steps: Seq<CanaryStep>,
)
    requires
        runs(states, steps),
        0 < sessions_changed(steps) < 0x1_0000_0000_0000_0000,
    ensures
        target_of(states.last(), states[0].session) is None,
{
    lemma_numbered_on(states, steps);
}

/// Nothing is known of any profile right after a session began, the network changed or the session
/// ended.
pub proof fn law_a_new_round_begins_unknown(
    before: NetworkCanaryState,
    after: NetworkCanaryState,
    plan: Option<NetworkCanaryPlan>,
    changed: bool,
    id: Seq<char>,
)
    requires
        arms(before, after, plan, changed) || disarms(before, after, changed) || invalidates(
            before,
            after,
            changed,
        ),
        match_map(after.matches@).dom().contains(id),
    ensures
        match_map(after.matches@)[id] is None,
{
    if arms(before, after, plan, changed) {
        if let Some(p) = plan {
            lemma_unknown(p.canaries@, id);
        }
    }
}

proof fn lemma_unknown(canaries: Seq<NetworkCanary>, id: Seq<char>)
    requires
        unknown_of(canaries).dom().contains(id),
    ensures
        unknown_of(canaries)[id] is None,
    decreases canaries.len(),
{
    if canaries.len() > 0 && canaries.last().profile_id@ != id {
        lemma_unknown(canaries.drop_last(), id);
    }
}

/// The first dot stands at `i`.
pub open spec fn first_dot(b: Seq<u8>, i: int) -> bool {
    &&& 0 <= i < b.len()
    &&& b[i] == 46
    &&& forall|k: int| 0 <= k < i ==> b[k] != 46
}

/// A name without the dots at its end.
pub open spec fn without_end_dots(b: Seq<u8>) -> Seq<u8>
    decreases b.len(),
{
    if b.len() > 0 && b.last() == 46 {
        without_end_dots(b.drop_last())
    } else {
        b
    }
}

/// The labels of a name that dots separate, each behind the low byte of its length.
pub open spec fn labels(b: Seq<u8>) -> Seq<u8>
    decreases b.len(),
{
    if exists|i: int| first_dot(b, i) {
        let i = choose|i: int| first_dot(b, i);
        if 0 <= i < b.len() {
            seq![(i % 256) as u8] + b.take(i) + labels(b.skip(i + 1))
        } else {
            Seq::empty()
        }
    } else {
        seq![(b.len() % 256) as u8] + b
    }
}

/// A query for the address of `name`, numbered `id`: one question, recursion desired.
pub open spec fn query_packet(id: u16, name: Seq<u8>) -> Seq<u8> {
    seq![(id / 256) as u8, (id % 256) as u8, 1u8, 0, 0, 1, 0, 0, 0, 0, 0, 0] + labels(
        without_end_dots(name),
    ) + seq![0u8, 0, 1, 0, 1]
}

proof fn lemma_first_dot_unique(b: Seq<u8>, i: int, j: int)
    requires
        first_dot(b, i),
        first_dot(b, j),
    ensures
        i == j,
{
    if i < j {
        assert(b[i] != 46);
    }
    if j < i {
        assert(b[j] != 46);
    }
}

fn low_byte(n: usize) -> (r: u8)
    ensures
        r == (n % 256) as u8,
{
    (n % 256) as u8
}

/// A query for the address of `domain`, numbered `id`.
pub fn dns_query(id: u16, domain: &str) -> (r: Vec<u8>)
    ensures
        r@ == query_packet(id, vstd::utf8::encode_utf8(domain@)),
{
    let b = domain.as_bytes();
    let mut end: usize = b.len();
    assert(b@.take(end as int) =~= b@);
    while end > 0 && b[end - 1] == 46
        invariant
            end <= b@.len(),
            without_end_dots(b@.take(end as int)) == without_end_dots(b@),
        decreases end,
    {
        assert(b@.take(end as int).drop_last() =~= b@.take(end - 1));
        assert(b@.take(end as int).last() == b@[end - 1]);
        end -= 1;
    }
    let ghost name = b@.take(end as int);
    assert(name == without_end_dots(b@)) by {
        if end > 0 {
            assert(name.last() == b@[end - 1]);
        }
    }
    let mut out: Vec<u8> = Vec::new();
    out.push((id / 256) as u8);
    out.push((id % 256) as u8);
    out.push(1);
    out.push(0);
    out.push(0);
    out.push(1);
    out.push(0);
    out.push(0);
    out.push(0);
    out.push(0);
    out.push(0);
    out.push(0);
    let ghost head = out@;
    assert(head =~= seq![(id / 256) as u8, (id % 256) as u8, 1u8, 0, 0, 1, 0, 0, 0, 0, 0, 0]);
    let mut from: usize = 0;
    let mut more = true;
    assert(name.skip(0) =~= name);
    while more
        invariant
            from <= end <= b@.len(),
            name == b@.take(end as int),
            more ==> out@ + labels(name.skip(from as int)) == head + labels(name),
            !more ==> out@ == head + labels(name),
        decreases end - from + (if more {
            1int
        } else {
            0int
        }),
    {
        let ghost rest = name.skip(from as int);
        let mut at: usize = from;
        while at < end && b[at] != 46
            invariant
                from <= at <= end <= b@.len(),
                name == b@.take(end as int),
                forall|k: int| from <= k < at ==> b@[k] != 46,
            decreases end - at,
        {
            at += 1;
        }
        let ghost so_far = out@;
        out.push(low_byte(at - from));
        let mut k: usize = from;
        while k < at
            invariant
                from <= k <= at <= end <= b@.len(),
                name == b@.take(end as int),
                rest == name.skip(from as int),
                out@ == so_far + (seq![((at - from) % 256) as u8] + rest.take(k - from)),
            decreases at - k,
        {
            out.push(b[k]);
            k += 1;
            assert(rest.take(k - from) =~= rest.take(k - 1 - from).push(b@[k - 1]));
        }
        if at < end {
            proof {
                assert(first_dot(rest, at - from)) by {
                    assert(rest[at - from] == b@[at as int]);
                    assert forall|j: int| 0 <= j < at - from implies rest[j] != 46 by {
                        assert(rest[j] == b@[from + j]);
                    }
                }
                let i = choose|i: int| first_dot(rest, i);
                lemma_first_dot_unique(rest, at - from, i);
                assert(rest.skip(at - from + 1) =~= name.skip(at + 1));
                assert(out@ + labels(name.skip(at + 1)) =~= so_far + labels(rest));
            }
            from = at + 1;
        } else {
            proof {
                assert forall|i: int| !first_dot(rest, i) by {
                    if 0 <= i < rest.len() {
                        assert(rest[i] == b@[from + i]);
                    }
                }
                assert(rest.take(at - from) =~= rest);
                assert(out@ =~= so_far + labels(rest));
            }
            more = false;
        }
    }
    out.push(0);
    out.push(0);
    out.push(1);
    out.push(0);
    out.push(1);
    assert(out@ =~= query_packet(id, b@));
    out
}

/// Two bytes as a number, the first being the high one.
pub open spec fn pair(hi: u8, lo: u8) -> int {
    hi * 256 + lo
}

/// What an answer says about a profile. A reply that is cut short, that answers another query or
/// that is no answer says nothing; an address says that it matches, a name that does not exist
/// says that it does not, and anything else says nothing.
pub open spec fn answer_of(id: u16, reply: Seq<u8>) -> Option<bool> {
    if reply.len() < 12 || pair(reply[0], reply[1]) != id || reply[2] < 128 {
        None
    } else if reply[3] % 16 == 0 && pair(reply[6], reply[7]) > 0 {
        Some(true)
    } else if reply[3] % 16 == 3 {
        Some(false)
    } else {
        None
    }
}

/// What an answer says about a profile.
pub fn parse_canary_answer(id: u16, reply: &[u8]) -> (r: Option<bool>)
    ensures
        r == answer_of(id, reply@),
{
    if reply.len() < 12 {
        return None;
    }
    let number: u16 = reply[0] as u16 * 256 + reply[1] as u16;
    if number != id || reply[2] < 128 {
        return None;
    }
    let answers: u16 = reply[6] as u16 * 256 + reply[7] as u16;
    let code: u8 = reply[3] % 16;
    if code == 0 && answers > 0 {
        Some(true)
    } else if code == 3 {
        Some(false)
    } else {
        None
    }
}

/// A reply that does not repeat the number of the query never counts.
pub proof fn law_only_the_own_answer_counts(id: u16, reply: Seq<u8>)
    requires
        reply.len() >= 2,
        pair(reply[0], reply[1]) != id,
    ensures
        answer_of(id, reply) is None,
{
}

proof fn lemma_last_entry(v: Seq<(String, Option<bool>)>, i: int)
    requires
        0 <= i < v.len(),
        forall|k: int| i < k < v.len() ==> (#[trigger] v[k]).0@ != v[i].0@,
    ensures
        match_map(v).dom().contains(v[i].0@),
        match_map(v)[v[i].0@] == v[i].1,
    decreases v.len(),
{
    if i < v.len() - 1 {
        let t = v.drop_last();
        assert(t[i] == v[i]);
        assert forall|k: int| i < k < t.len() implies (#[trigger] t[k]).0@ != t[i].0@ by {
            assert(t[k] == v[k]);
        }
        lemma_last_entry(t, i);
        assert(v[v.len() - 1].0@ != v[i].0@);
    }
}

/// What is known of a profile is what its last entry says, and nothing where it has none.
pub proof fn law_the_last_entry_of_a_profile_counts(
    state: NetworkCanaryState,
    id: &str,
    r: Option<bool>,
    i: int,
)
    requires
        call_ensures(NetworkCanaryState::matched, (&state, id), r),
    ensures
        (forall|k: int| 0 <= k < state.matches@.len() ==> (#[trigger] state.matches@[k]).0@ != id@)
            ==> r is None,
        0 <= i < state.matches@.len() && state.matches@[i].0@ == id@ && (forall|k: int|
            i < k < state.matches@.len() ==> (#[trigger] state.matches@[k]).0@ != id@) ==> r
            == state.matches@[i].1,
{
    let v = state.matches@;
    lemma_map_keys(v, id@);
    if 0 <= i < v.len() && v[i].0@ == id@ && (forall|k: int|
        i < k < v.len() ==> (#[trigger] v[k]).0@ != id@) {
        lemma_last_entry(v, i);
    }
}

/// The results of the current round become what is known, profile by profile, and those of any
/// other round change nothing. Where no change is told of, every profile is known as it was.
pub proof fn law_only_the_current_round_is_recorded(
    state: &mut NetworkCanaryState,
    round: u64,
    results: Vec<(String, Option<bool>)>,
    changed: bool,
    id: &str,
    before: Option<bool>,
    after: Option<bool>,
    i: int,
)
    requires
        call_ensures(NetworkCanaryState::record, (state, round, results), changed),
        call_ensures(NetworkCanaryState::matched, (old(state), id), before),
        call_ensures(NetworkCanaryState::matched, (final(state), id), after),
    ensures
        round != old(state).round ==> !changed && *final(state) == *old(state),
        round == old(state).round && 0 <= i < results@.len() && results@[i].0@ == id@ && (forall|
            k: int,
        |
            i < k < results@.len() ==> (#[trigger] results@[k]).0@ != id@) ==> after
            == results@[i].1,
        round == old(state).round && (forall|k: int|
            0 <= k < results@.len() ==> (#[trigger] results@[k]).0@ != id@) ==> after is None,
        !changed ==> after == before,
        before != after ==> changed,
        final(state).session == old(state).session,
        final(state).round == old(state).round,
        final(state).plan == old(state).plan,
{
    lemma_map_keys(results@, id@);
    if 0 <= i < results@.len() && results@[i].0@ == id@ && (forall|k: int|
        i < k < results@.len() ==> (#[trigger] results@[k]).0@ != id@) {
        lemma_last_entry(results@, i);
    }
}

/// A session that begins, a change of the network and a session that ends each open another round
/// in which nothing is known; what was known before is then told of as a change. A change of the
/// network keeps the session and its plan, the others open another session.
pub proof fn law_a_new_round_knows_nothing(
    armed: &mut NetworkCanaryState,
    plan: Option<NetworkCanaryPlan>,
    r: (u64, bool),
    ended: &mut NetworkCanaryState,
    ended_changed: bool,
    lost: &mut NetworkCanaryState,
    lost_changed: bool,
    id: &str,
    a: Option<bool>,
    b: Option<bool>,
    c: Option<bool>,
    a0: Option<bool>,
    b0: Option<bool>,
    c0: Option<bool>,
)
    requires
        call_ensures(NetworkCanaryState::arm, (armed, plan), r),
        call_ensures(NetworkCanaryState::disarm, (ended,), ended_changed),
        call_ensures(NetworkCanaryState::invalidate, (lost,), lost_changed),
        call_ensures(NetworkCanaryState::matched, (final(armed), id), a),
        call_ensures(NetworkCanaryState::matched, (final(ended), id), b),
        call_ensures(NetworkCanaryState::matched, (final(lost), id), c),
        call_ensures(NetworkCanaryState::matched, (old(armed), id), a0),
        call_ensures(NetworkCanaryState::matched, (old(ended), id), b0),
        call_ensures(NetworkCanaryState::matched, (old(lost), id), c0),
    ensures
        a is None && b is None && c is None,
        a0 is Some ==> r.1,
        b0 is Some ==> ended_changed,
        c0 is Some ==> lost_changed,
        r.0 == final(armed).session,
        final(armed).session != old(armed).session && final(armed).round != old(armed).round,
        final(ended).session != old(ended).session && final(ended).round != old(ended).round,
        final(lost).session == old(lost).session && final(lost).round != old(lost).round,
        final(armed).plan == plan,
        final(ended).plan is None,
        final(lost).plan == old(lost).plan,
        old(ended).matches@.len() == 0 ==> !ended_changed,
        old(ended).matches@.len() > 0 ==> ended_changed,
        (forall|k: int|
            0 <= k < old(lost).matches@.len() ==> (#[trigger] old(lost).matches@[k]).1 is None)
            ==> !lost_changed,
{
    let m = match_map(final(armed).matches@);
    if m.dom().contains(id@) && plan is Some {
        lemma_unknown(plan->0.canaries@, id@);
    }
    if a0 is Some {
        assert(match_map(old(armed).matches@).dom().contains(id@) && match_map(
            old(armed).matches@,
        )[id@] is Some);
    }
    if c0 is Some {
        assert(match_map(old(lost).matches@).dom().contains(id@) && match_map(
            old(lost).matches@,
        )[id@] is Some);
    }
    let v = old(ended).matches@;
    if v.len() == 0 {
        assert(match_map(v) =~= Map::<Seq<char>, Option<bool>>::empty());
    } else {
        lemma_map_keys(v, v[0].0@);
        assert(v[0].0@ == v[0].0@);
        assert(match_map(v).dom().contains(v[0].0@));
    }
    let w = old(lost).matches@;
    if (forall|k: int| 0 <= k < w.len() ==> (#[trigger] w[k]).1 is None) {
        lemma_all_unknown(w);
    }
}

proof fn lemma_all_unknown(v: Seq<(String, Option<bool>)>)
    requires
        forall|k: int| 0 <= k < v.len() ==> (#[trigger] v[k]).1 is None,
    ensures
        !anything_known(match_map(v)),
    decreases v.len(),
{
    if v.len() > 0 {
        let t = v.drop_last();
        assert forall|k: int| 0 <= k < t.len() implies (#[trigger] t[k]).1 is None by {
            assert(t[k] == v[k]);
        }
        lemma_all_unknown(t);
        assert(v[v.len() - 1].1 is None);
        let m = match_map(v);
        if anything_known(m) {
            let k = choose|k: Seq<char>| #[trigger] m.dom().contains(k) && m[k] is Some;
            assert(match_map(t).dom().contains(k) && match_map(t)[k] is Some);
        }
    }
}

/// A session asks exactly while it is the current one and has a plan: the current round, at the
/// plan's port, about the plan's profiles; and what it is answered is noted profile by profile.
pub proof fn law_a_session_asks_about_its_plan(
    state: NetworkCanaryState,
    session: u64,
    r: Option<(u64, u16, Vec<NetworkCanary>)>,
    canaries: Vec<NetworkCanary>,
    answers: Vec<Option<bool>>,
    results: Vec<(String, Option<bool>)>,
    i: int,
    fresh: NetworkCanaryState,
)
    requires
        call_ensures(NetworkCanaryState::target, (&state, session), r),
        canaries@.len() == answers@.len(),
        call_ensures(probe_results, (&canaries, &answers), results),
        call_ensures(<NetworkCanaryState as Default>::default, (), fresh),
    ensures
        r is Some <==> state.plan is Some && state.session == session,
        r is Some ==> (r->0).0 == state.round && (r->0).1 == state.plan->0.port && (r->0).2@
            == state.plan->0.canaries@,
        results@.len() == canaries@.len(),
        0 <= i < canaries@.len() ==> results@[i].0@ == canaries@[i].profile_id@ && results@[i].1
            == answers@[i],
        fresh.plan is None && fresh.matches@.len() == 0 && fresh.session == 0 && fresh.round == 0,
{
}

/// A query carries its number and asks one question with recursion; its name is written label by
/// label, each behind its length, and ended by an empty one. Dots at the end of a name make no
/// difference.
pub proof fn law_a_query_writes_its_name_label_by_label(
    id: u16,
    domain: &str,
    r: Vec<u8>,
    rest: &str,
    q: Vec<u8>,
    label: Seq<u8>,
)
    requires
        call_ensures(dns_query, (id, domain), r),
        call_ensures(dns_query, (id, rest), q),
        forall|k: int| 0 <= k < label.len() ==> #[trigger] label[k] != 46,
        label.len() < 256,
    ensures
        r@.len() >= 17,
        r@[0] * 256 + r@[1] == id,
        r@.subrange(2, 12) == seq![1u8, 0, 0, 1, 0, 0, 0, 0, 0, 0],
        r@.skip(r@.len() - 5) == seq![0u8, 0, 1, 0, 1],
        vstd::utf8::encode_utf8(domain@) == label && label.len() > 0 ==> r@.skip(12) == seq![
            label.len() as u8,
        ] + label + seq![0u8, 0, 1, 0, 1],
        vstd::utf8::encode_utf8(domain@) == label.push(46) + vstd::utf8::encode_utf8(rest@)
            && vstd::utf8::encode_utf8(rest@).len() > 0 && vstd::utf8::encode_utf8(rest@).last()
            != 46 ==> r@.skip(12) == seq![label.len() as u8] + label + q@.skip(12),
        vstd::utf8::encode_utf8(domain@) == vstd::utf8::encode_utf8(rest@).push(46) ==> r@ == q@,
{
    let name = vstd::utf8::encode_utf8(domain@);
    let other = vstd::utf8::encode_utf8(rest@);
    let end = seq![0u8, 0, 1, 0, 1];
    let head = seq![(id / 256) as u8, (id % 256) as u8, 1u8, 0, 0, 1, 0, 0, 0, 0, 0, 0];
    let body = labels(without_end_dots(name));
    assert(r@ == head + body + end);
    assert(r@.skip(12) =~= body + end);
    assert(q@.skip(12) =~= labels(without_end_dots(other)) + end);
    assert(r@.subrange(2, 12) =~= seq![1u8, 0, 0, 1, 0, 0, 0, 0, 0, 0]);
    assert(r@.skip(r@.len() - 5) =~= end);
    assert((id / 256) * 256 + id % 256 == id);
    assert(r@[0] == (id / 256) as u8 && r@[1] == (id % 256) as u8);
    if name == label && label.len() > 0 {
        assert(label[label.len() - 1] != 46);
        assert(without_end_dots(name) == label);
        if exists|i: int| first_dot(label, i) {
            let i = choose|i: int| first_dot(label, i);
            assert(label[i] != 46);
        }
    }
    if name == label.push(46) + other && other.len() > 0 && other.last() != 46 {
        assert(name.last() == other.last());
        assert(without_end_dots(name) == name && without_end_dots(other) == other);
        let n = label.len() as int;
        assert(name[n] == 46);
        assert forall|k: int| 0 <= k < n implies name[k] != 46 by {
            assert(name[k] == label[k]);
        }
        assert(first_dot(name, n));
        let i = choose|i: int| first_dot(name, i);
        lemma_first_dot_unique(name, i, n);
        assert(name.take(n) =~= label);
        assert(name.skip(n + 1) =~= other);
        assert(body == seq![label.len() as u8] + label + labels(other));
        assert(body + end =~= seq![label.len() as u8] + label + (labels(other) + end));
    }
    if name == other.push(46) {
        assert(name.drop_last() =~= other);
    }
    lemma_labels_not_empty(without_end_dots(name));
}

proof fn lemma_labels_not_empty(b: Seq<u8>)
    ensures
        labels(b).len() > 0,
{
    if exists|i: int| first_dot(b, i) {
        let i = choose|i: int| first_dot(b, i);
        assert(first_dot(b, i));
    }
}

/// A reply counts only where it is whole, carries the query's number and is an answer; then an
/// address says that the profile matches, and a name that does not exist that it does not. Any
/// other reply says nothing.
pub proof fn law_what_a_reply_says(id: u16, reply: &[u8], r: Option<bool>)
    requires
        call_ensures(parse_canary_answer, (id, reply), r),
    ensures
        ({
            let b = reply@;
            let counts = b.len() >= 12 && b[0] * 256 + b[1] == id && b[2] >= 128;
            let code = (b[3] % 16) as int;
            let answers = b[6] * 256 + b[7];
            &&& !counts ==> r is None
            &&& counts ==> (r == Some(true) <==> code == 0 && answers > 0)
            &&& counts ==> (r == Some(false) <==> code == 3)
        }),
{
}

} // verus!
