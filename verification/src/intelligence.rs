//! The autonomous agent's vocabulary (decisions, remediation actions and
//! their results, state updates) and its state manager: the rolling history
//! of system snapshots and the counters of what the agent did.
use vstd::prelude::*;
use crate::history::{keep_last, filter_marked_spec, BoundedHistory};

verus! {

/// The most snapshots the state manager keeps.
pub const MAX_HISTORY_SIZE: usize = 1000;

/// How long snapshots are kept, in hours.
pub const STATE_RETENTION_HOURS: i64 = 24;

/// A point in time: seconds since the Unix epoch and the nanoseconds within
/// that second (which exceed 999_999_999 only within a leap second).
pub type Stamp = (i64, u32);

/// `a` is strictly later than `b`.
pub open spec fn stamp_after(a: Stamp, b: Stamp) -> bool {
    a.0 > b.0 || (a.0 == b.0 && a.1 > b.1)
}

/// Whether `a` is strictly later than `b`.
pub fn is_after(a: Stamp, b: Stamp) -> (r: bool)
    ensures
        r == stamp_after(a, b),
        a.0 < b.0 ==> !r,
        a.0 > b.0 ==> r,
        a.0 == b.0 ==> (r <==> a.1 > b.1),
{
    a.0 > b.0 || (a.0 == b.0 && a.1 > b.1)
}

/// Stamps are ordered by second first and by nanosecond within a second:
/// the order is strict (never both ways, never a stamp after itself),
/// transitive and total, a stamp from an earlier second is never after one
/// from a later second, and for nanoseconds within a second it is the order
/// of the total nanoseconds since the epoch.
pub proof fn lemma_stamp_order(a: Stamp, b: Stamp, c: Stamp)
    ensures
        !(stamp_after(a, b) && stamp_after(b, a)),
        !stamp_after(a, a),
        stamp_after(a, b) && stamp_after(b, c) ==> stamp_after(a, c),
        stamp_after(a, b) || stamp_after(b, a) || a == b,
        a.0 < b.0 ==> !stamp_after(a, b),
        a.0 > b.0 ==> stamp_after(a, b),
        a.1 < 1_000_000_000 && b.1 < 1_000_000_000 ==> (stamp_after(a, b) <==> a.0
            * 1_000_000_000int + a.1 > b.0 * 1_000_000_000int + b.1),
{
    if a.1 < 1_000_000_000 && b.1 < 1_000_000_000 {
        if a.0 > b.0 {
            assert(a.0 * 1_000_000_000int >= b.0 * 1_000_000_000int + 1_000_000_000) by (
            nonlinear_arith)
                requires
                    a.0 > b.0,
            ;
        } else if a.0 < b.0 {
            assert(b.0 * 1_000_000_000int >= a.0 * 1_000_000_000int + 1_000_000_000) by (
            nonlinear_arith)
                requires
                    a.0 < b.0,
            ;
        }
    }
}

/// Action to fix a problem.
#[derive(Debug, Clone, PartialEq, Eq)]
pub enum RemediationAction {
    KillProcess { pid: u32, name: String },
    RestartService { name: String },
    CleanDisk { path: String },
    ThrottleCpu,
    RestartApplication { name: String },
}

/// Decision made by the decision engine.
#[derive(Debug, Clone, PartialEq, Eq)]
pub enum Decision {
    AutoFix(RemediationAction),
    NotifyUser(String),
    Observe,
}

/// Result of a remediation action.
#[derive(Debug, Clone, PartialEq, Eq)]
pub struct RemediationResult {
    pub success: bool,
    pub message: String,
    pub metrics_before: String,
    pub metrics_after: String,
}

/// What is recorded of a remediation that was attempted: a success with its
/// result, or a failure with its reason.
#[derive(Debug, Clone, PartialEq, Eq)]
pub enum RemediationOutcome {
    Success(RemediationResult),
    Failure(String),
}

/// The outcome to record for an attempted remediation: a result that
/// reports success is a success; a result that reports no success is a
/// failure with the result's message; an error is a failure with the error.
pub fn remediation_outcome(attempt: Result<RemediationResult, String>) -> (o: RemediationOutcome)
    ensures
        match attempt {
            Ok(res) => if res.success {
                o == RemediationOutcome::Success(res)
            } else {
                o == RemediationOutcome::Failure(res.message)
            },
            Err(e) => o == RemediationOutcome::Failure(e),
        },
{
    match attempt {
        Ok(res) => if res.success {
            RemediationOutcome::Success(res)
        } else {
            RemediationOutcome::Failure(res.message)
        },
        Err(e) => RemediationOutcome::Failure(e),
    }
}

/// Current state of the agent.
#[derive(Debug, Clone, PartialEq, Eq)]
pub struct AgentState {
    pub is_learning: bool,
    pub problems_detected: usize,
    pub problems_fixed: usize,
    pub uptime_seconds: u64,
    pub last_action: Option<String>,
}

/// State update event.
pub enum StateUpdate {
    ProblemDetected,
    ProblemFixed,
    ActionExecuted(String),
    LearningStarted,
    LearningCompleted,
}

/// The agent's own counters and flags.
pub struct AgentStateInternal {
    pub is_learning: bool,
    pub problems_detected: usize,
    pub problems_fixed: usize,
    pub last_action: Option<String>,
}

/// What an update does to the agent's counters and flags.
pub open spec fn apply_update(s: AgentStateInternal, u: StateUpdate) -> AgentStateInternal {
    match u {
        StateUpdate::ProblemDetected => AgentStateInternal {
            problems_detected: (s.problems_detected + 1) as usize,
            ..s
        },
        StateUpdate::ProblemFixed => AgentStateInternal {
            problems_fixed: (s.problems_fixed + 1) as usize,
            ..s
        },
        StateUpdate::ActionExecuted(a) => AgentStateInternal { last_action: Some(a), ..s },
        StateUpdate::LearningStarted => AgentStateInternal { is_learning: true, ..s },
        StateUpdate::LearningCompleted => AgentStateInternal { is_learning: false, ..s },
    }
}

/// An update can be applied: the counter it raises is not at its maximum.
pub open spec fn update_fits(s: AgentStateInternal, u: StateUpdate) -> bool {
    match u {
        StateUpdate::ProblemDetected => s.problems_detected < usize::MAX,
        StateUpdate::ProblemFixed => s.problems_fixed < usize::MAX,
        _ => true,
    }
}

/// The snapshots of `s` taken strictly after `cutoff`, in order.
pub open spec fn retained<S>(s: Seq<(Stamp, S)>, cutoff: Stamp) -> Seq<(Stamp, S)>
    decreases s.len(),
{
    if s.len() == 0 {
        Seq::empty()
    } else if stamp_after(s.last().0, cutoff) {
        retained(s.drop_last(), cutoff).push(s.last())
    } else {
        retained(s.drop_last(), cutoff)
    }
}

/// Cleanup keeps exactly the snapshots taken after the cutoff: every kept
/// snapshot was held before and is after the cutoff, every held snapshot
/// after the cutoff is kept, nothing is added, and where every snapshot is
/// after the cutoff the history is unchanged.
pub proof fn lemma_retained_members<S>(s: Seq<(Stamp, S)>, cutoff: Stamp)
    ensures
        forall|x: (Stamp, S)| #[trigger]
            retained(s, cutoff).contains(x) <==> (s.contains(x) && stamp_after(x.0, cutoff)),
        retained(s, cutoff).len() <= s.len(),
        (forall|i: int| 0 <= i < s.len() ==> stamp_after(#[trigger] s[i].0, cutoff)) ==> retained(
            s,
            cutoff,
        ) == s,
        (forall|i: int| 0 <= i < s.len() ==> !stamp_after(#[trigger] s[i].0, cutoff)) ==> retained(
            s,
            cutoff,
        ).len() == 0,
    decreases s.len(),
{
    if s.len() > 0 {
        let s2 = s.drop_last();
        lemma_retained_members(s2, cutoff);
        let r2 = retained(s2, cutoff);
        assert forall|x: (Stamp, S)| #[trigger]
            retained(s, cutoff).contains(x) <==> (s.contains(x) && stamp_after(x.0, cutoff)) by {
            if s.contains(x) {
                let k = choose|k: int| 0 <= k < s.len() && s[k] == x;
                if k < s.len() - 1 {
                    assert(s2[k] == x);
                    assert(s2.contains(x));
                }
            }
            if s2.contains(x) {
                let k = choose|k: int| 0 <= k < s2.len() && s2[k] == x;
                assert(s[k] == x);
            }
            if stamp_after(s.last().0, cutoff) {
                let r = r2.push(s.last());
                assert(r[r.len() - 1] == s.last());
                if r2.contains(x) {
                    let k = choose|k: int| 0 <= k < r2.len() && r2[k] == x;
                    assert(r[k] == x);
                }
                if r.contains(x) {
                    let k = choose|k: int| 0 <= k < r.len() && r[k] == x;
                    if k < r2.len() {
                        assert(r2[k] == x);
                    }
                }
            }
            assert(s[s.len() - 1] == s.last());
        }
        if forall|i: int| 0 <= i < s.len() ==> stamp_after(#[trigger] s[i].0, cutoff) {
            assert forall|i: int| 0 <= i < s2.len() implies stamp_after(#[trigger] s2[i].0, cutoff) by {
                assert(s2[i] == s[i]);
            }
            assert(stamp_after(s[s.len() - 1].0, cutoff));
            assert(s2.push(s.last()) =~= s);
        }
        if forall|i: int| 0 <= i < s.len() ==> !stamp_after(#[trigger] s[i].0, cutoff) {
            assert forall|i: int| 0 <= i < s2.len() implies !stamp_after(#[trigger] s2[i].0, cutoff) by {
                assert(s2[i] == s[i]);
            }
            assert(!stamp_after(s[s.len() - 1].0, cutoff));
        }
    } else {
        assert(retained(s, cutoff) =~= Seq::<(Stamp, S)>::empty());
    }
}

/// Filtering by marks that say "taken after the cutoff" keeps the snapshots
/// taken after the cutoff.
proof fn lemma_marks_retained<S>(s: Seq<(Stamp, S)>, marks: Seq<bool>, cutoff: Stamp)
    requires
        marks.len() == s.len(),
        forall|i: int| 0 <= i < s.len() ==> marks[i] == stamp_after(#[trigger] s[i].0, cutoff),
    ensures
        filter_marked_spec(s, marks) == retained(s, cutoff),
    decreases s.len(),
{
    if s.len() > 0 {
        let s2 = s.drop_last();
        let m2 = marks.drop_last();
        assert forall|i: int| 0 <= i < s2.len() implies m2[i] == stamp_after(#[trigger] s2[i].0, cutoff) by {
            assert(s2[i] == s[i]);
        }
        lemma_marks_retained(s2, m2, cutoff);
        assert(marks.last() == stamp_after(s[s.len() - 1].0, cutoff));
    }
}

/// Manages system state: the history of snapshots of type `S`, each with the
/// time it was taken, and the agent's counters.  `K` is the knowledge store.
pub struct StateManager<S, K> {
    history: BoundedHistory<(Stamp, S)>,
    current_state: AgentStateInternal,
    knowledge: K,
    start_time: Stamp,
}

impl<S, K> StateManager<S, K> {
    /// The snapshots held, oldest first, each with the time it was taken.
    pub closed spec fn history(&self) -> Seq<(Stamp, S)> {
        self.history@
    }

    /// The agent's counters and flags.
    pub closed spec fn current(&self) -> AgentStateInternal {
        self.current_state
    }

    /// The knowledge store.
    pub closed spec fn knowledge_store(&self) -> K {
        self.knowledge
    }

    /// When the agent started.
    pub closed spec fn started(&self) -> Stamp {
        self.start_time
    }

    /// The history holds at most `MAX_HISTORY_SIZE` snapshots.
    pub closed spec fn wf(&self) -> bool {
        &&& self.history.wf()
        &&& self.history.capacity_spec() == MAX_HISTORY_SIZE
    }

    /// A state manager with no history and zeroed counters, started at `start_time`.
    pub fn new(knowledge: K, start_time: Stamp) -> (r: Self)
        ensures
            r.wf(),
            r.history().len() == 0,
            r.started() == start_time,
            r.knowledge_store() == knowledge,
            r.current() == (AgentStateInternal {
                is_learning: false,
                problems_detected: 0,
                problems_fixed: 0,
                last_action: None,
            }),
    {
        StateManager {
            history: BoundedHistory::new(MAX_HISTORY_SIZE),
            current_state: AgentStateInternal {
                is_learning: false,
                problems_detected: 0,
                problems_fixed: 0,
                last_action: None,
            },
            knowledge,
            start_time,
        }
    }

    /// Records a snapshot taken at `timestamp`, dropping the oldest one where
    /// `MAX_HISTORY_SIZE` are held.
    pub fn record_snapshot(&mut self, timestamp: Stamp, snapshot: S)
        requires
            old(self).wf(),
        ensures
            final(self).wf(),
            final(self).history() == keep_last(
                old(self).history().push((timestamp, snapshot)),
                MAX_HISTORY_SIZE as nat,
            ),
            final(self).current() == old(self).current(),
            final(self).started() == old(self).started(),
            final(self).knowledge_store() == old(self).knowledge_store(),
    {
        self.history.push((timestamp, snapshot));
    }

    /// The agent state, with the given time since start in seconds (taken
    /// over as `u64`, as `as` does).
    pub fn get_current_state(&self, uptime_seconds: i64) -> (r: AgentState)
        ensures
            r.is_learning == self.current().is_learning,
            r.problems_detected == self.current().problems_detected,
            r.problems_fixed == self.current().problems_fixed,
            r.uptime_seconds == uptime_seconds as u64,
            r.last_action == self.current().last_action,
    {
        AgentState {
            is_learning: self.current_state.is_learning,
            problems_detected: self.current_state.problems_detected,
            problems_fixed: self.current_state.problems_fixed,
            uptime_seconds: uptime_seconds as u64,
            last_action: match &self.current_state.last_action {
                Some(a) => Some(a.clone()),
                None => None,
            },
        }
    }

    /// Applies an update to the agent's counters and flags.
    pub fn update_state(&mut self, update: StateUpdate)
        requires
            update_fits(old(self).current(), update),
        ensures
            final(self).current() == apply_update(old(self).current(), update),
            final(self).history() == old(self).history(),
            final(self).started() == old(self).started(),
            final(self).knowledge_store() == old(self).knowledge_store(),
            final(self).wf() == old(self).wf(),
    {
        match update {
            StateUpdate::ProblemDetected => {
                self.current_state.problems_detected = self.current_state.problems_detected + 1;
            },
            StateUpdate::ProblemFixed => {
                self.current_state.problems_fixed = self.current_state.problems_fixed + 1;
            },
            StateUpdate::ActionExecuted(action) => {
                self.current_state.last_action = Some(action);
            },
            StateUpdate::LearningStarted => {
                self.current_state.is_learning = true;
            },
            StateUpdate::LearningCompleted => {
                self.current_state.is_learning = false;
            },
        }
    }

    /// Drops the snapshots taken `STATE_RETENTION_HOURS` or more before
    /// `now`, keeping the others in order, and returns how many were dropped.
    pub fn cleanup_old_data(&mut self, now: Stamp) -> (removed: usize)
        requires
            old(self).wf(),
            now.0 >= i64::MIN + STATE_RETENTION_HOURS * 3600,
        ensures
            final(self).wf(),
            final(self).history() == retained(
                old(self).history(),
                ((now.0 - STATE_RETENTION_HOURS * 3600) as i64, now.1),
            ),
            removed == old(self).history().len() - final(self).history().len(),
            final(self).current() == old(self).current(),
            final(self).started() == old(self).started(),
            final(self).knowledge_store() == old(self).knowledge_store(),
    {
        let cutoff: Stamp = (now.0 - STATE_RETENTION_HOURS * 3600, now.1);
        let ghost h = self.history@;
        let items = self.history.items();
        let n = items.len();
        let mut marks: Vec<bool> = Vec::new();
        let mut i: usize = 0;
        while i < n
            invariant
                n == h.len(),
                items@ == h,
                i <= n,
                marks@.len() == i,
                forall|j: int| 0 <= j < i ==> marks@[j] == stamp_after(#[trigger] h[j].0, cutoff),
            decreases n - i,
        {
            marks.push(is_after(items[i].0, cutoff));
            i = i + 1;
        }
        proof {
            lemma_marks_retained(h, marks@, cutoff);
        }
        self.history.retain_marked(&marks)
    }

    /// The newest `count` snapshots (or all, where fewer are held), newest first.
    pub fn get_recent_snapshots(&self, count: usize) -> (r: Vec<&S>)
        ensures
            r@.len() == if count < self.history().len() {
                count as int
            } else {
                self.history().len() as int
            },
            forall|i: int|
                0 <= i < r@.len() ==> *(#[trigger] r@[i]) == self.history()[self.history().len() - 1
                    - i].1,
    {
        let recent = self.history.recent(count);
        let mut out: Vec<&S> = Vec::new();
        let mut i: usize = 0;
        while i < recent.len()
            invariant
                i <= recent@.len(),
                out@.len() == i,
                forall|j: int| 0 <= j < i ==> *(#[trigger] out@[j]) == (*recent@[j]).1,
            decreases recent@.len() - i,
        {
            out.push(&recent[i].1);
            i = i + 1;
        }
        out
    }

    /// The knowledge store.
    pub fn knowledge(&self) -> (r: &K)
        ensures
            *r == self.knowledge_store(),
    {
        &self.knowledge
    }

    /// When the agent started.
    pub fn start_time(&self) -> (r: Stamp)
        ensures
            r == self.started(),
    {
        self.start_time
    }

    /// The number of snapshots held.
    pub fn history_len(&self) -> (r: usize)
        ensures
            r == self.history().len(),
    {
        self.history.len()
    }
}

/// The counters only grow: an update never lowers the number of problems
/// detected or fixed, and raises at most one of them, by one.
pub proof fn lemma_counters_monotone(s: AgentStateInternal, u: StateUpdate)
    requires
        update_fits(s, u),
    ensures
        apply_update(s, u).problems_detected >= s.problems_detected,
        apply_update(s, u).problems_fixed >= s.problems_fixed,
        apply_update(s, u).problems_detected + apply_update(s, u).problems_fixed
            <= s.problems_detected + s.problems_fixed + 1,
{
}

/// Every snapshot that a cleanup keeps was taken after the cutoff, and none
/// taken after it is dropped.
pub proof fn lemma_retained_exact<S>(s: Seq<(Stamp, S)>, cutoff: Stamp)
    ensures
        forall|i: int|
            0 <= i < retained(s, cutoff).len() ==> stamp_after(#[trigger] retained(s, cutoff)[i].0, cutoff),
        forall|i: int|
            0 <= i < s.len() && stamp_after(#[trigger] s[i].0, cutoff) ==> retained(s, cutoff).contains(s[i]),
    decreases s.len(),
{
    if s.len() > 0 {
        let r = retained(s.drop_last(), cutoff);
        lemma_retained_exact(s.drop_last(), cutoff);
        assert forall|i: int| 0 <= i < s.len() && stamp_after(#[trigger] s[i].0, cutoff) implies retained(s, cutoff).contains(s[i]) by {
            if i < s.len() - 1 {
                assert(s.drop_last()[i] == s[i]);
                let j = choose|j: int| 0 <= j < r.len() && r[j] == s[i];
                if stamp_after(s.last().0, cutoff) {
                    assert(retained(s, cutoff)[j] == s[i]);
                }
            } else {
                assert(retained(s, cutoff)[r.len() as int] == s[i]);
            }
        }
    }
}

/// Cleaning up twice with the same cutoff drops nothing the second time.
pub proof fn lemma_retained_idempotent<S>(s: Seq<(Stamp, S)>, cutoff: Stamp)
    ensures
        retained(retained(s, cutoff), cutoff) == retained(s, cutoff),
    decreases s.len(),
{
    if s.len() > 0 {
        lemma_retained_idempotent(s.drop_last(), cutoff);
        let r = retained(s.drop_last(), cutoff);
        if stamp_after(s.last().0, cutoff) {
            assert(r.push(s.last()).drop_last() =~= r);
        }
    }
}

} // verus!
