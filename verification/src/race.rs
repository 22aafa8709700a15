use vstd::prelude::*;

use crate::address::CandidateAddress;
use crate::error::RaceError;

verus! {

/// What one connection worker reports back to the coordinator: which worker
/// it is (the index of its candidate address), and whether its single
/// connection attempt succeeded.
#[derive(Clone, Copy, Debug, PartialEq, Eq, Structural)]
pub struct WorkerReport {
    /// Index of the worker, and of its candidate address, in the race.
    pub worker: usize,
    /// Whether the connection attempt succeeded.
    pub connected: bool,
}

/// What the coordinator decides to do with one report, in arrival order.
#[derive(Clone, Copy, Debug, PartialEq, Eq, Structural)]
pub enum CoordinatorAction {
    /// The first success: hand this worker's connection to the response
    /// handler. Issued at most once per race.
    DeliverWinner,
    /// A success after the race is decided: close the connection unread.
    DiscardConnection,
    /// The last outstanding worker failed and no success ever arrived:
    /// the race as a whole has failed.
    ReportAllFailed,
    /// Nothing is decided by this report: keep waiting for the rest.
    KeepWaiting,
}

/// The coordinator of one race: it consumes the workers' reports one by one,
/// in the order they arrive, and decides what to do with each.
pub struct RaceCoordinator {
    /// Workers that have not reported yet.
    pub pending: usize,
    /// Whether a success has already been delivered.
    pub decided: bool,
}

/// Whether some report among the first `i` (in arrival order) was a success:
/// after those `i` reports the race is decided.
pub open spec fn decided_before(s: Seq<WorkerReport>, i: int) -> bool {
    exists|j: int| 0 <= j < i && s[j].connected
}

/// Whether any report in the race was a success.
pub open spec fn has_success(s: Seq<WorkerReport>) -> bool {
    decided_before(s, s.len() as int)
}

/// The arrival position of the first successful report.
/// Meaningful only when `has_success(s)`.
pub open spec fn first_success(s: Seq<WorkerReport>) -> int
    decreases s.len(),
{
    if s.len() == 0 {
        0
    } else if s[0].connected {
        0
    } else {
        1 + first_success(s.drop_first())
    }
}

/// The action the coordinator takes on the `i`-th report in arrival order:
/// the first success is delivered, every later success is discarded, and the
/// last failure of an undecided race reports overall failure.
pub open spec fn spec_action(s: Seq<WorkerReport>, i: int) -> CoordinatorAction {
    if s[i].connected {
        if decided_before(s, i) {
            CoordinatorAction::DiscardConnection
        } else {
            CoordinatorAction::DeliverWinner
        }
    } else if i == s.len() - 1 && !decided_before(s, i) {
        CoordinatorAction::ReportAllFailed
    } else {
        CoordinatorAction::KeepWaiting
    }
}

/// The outcome of a race over the reports in arrival order: the worker index
/// of the first success, or overall failure when no report is a success.
pub open spec fn race_outcome(s: Seq<WorkerReport>) -> Result<usize, RaceError> {
    if has_success(s) {
        Ok(s[first_success(s)].worker)
    } else {
        Err(RaceError::AllCandidatesFailed)
    }
}

/// Decides how many workers a race over these candidates gets: one per
/// candidate, and a host that resolved to no candidate at all is a
/// resolution failure before any worker exists.
pub fn plan_race(candidates: &Vec<CandidateAddress>) -> (r: Result<usize, RaceError>)
    ensures
        candidates@.len() == 0 ==> r == Err::<usize, RaceError>(RaceError::Resolution),
        candidates@.len() > 0 ==> r == Ok::<usize, RaceError>(candidates.len()),
{
    if candidates.len() == 0 {
        Err(RaceError::Resolution)
    } else {
        Ok(candidates.len())
    }
}

impl RaceCoordinator {
    /// Starts a race that waits on `workers` connection workers.
    pub fn start(workers: usize) -> (r: RaceCoordinator)
        requires
            workers >= 1,
        ensures
            r.pending == workers,
            !r.decided,
    {
        RaceCoordinator { pending: workers, decided: false }
    }

    /// Consumes one worker's report and decides what to do with it: the
    /// first success wins, later successes are discarded unread, failures
    /// are absorbed unless this was the last report of an undecided race.
    pub fn on_report(&mut self, report: WorkerReport) -> (action: CoordinatorAction)
        requires
            old(self).pending >= 1,
        ensures
            final(self).pending == old(self).pending - 1,
            final(self).decided == (old(self).decided || report.connected),
            report.connected && !old(self).decided ==> action == CoordinatorAction::DeliverWinner,
            report.connected && old(self).decided ==> action
                == CoordinatorAction::DiscardConnection,
            !report.connected && !old(self).decided && old(self).pending == 1 ==> action
                == CoordinatorAction::ReportAllFailed,
            !report.connected && (old(self).decided || old(self).pending > 1) ==> action
                == CoordinatorAction::KeepWaiting,
    {
        self.pending = self.pending - 1;
        if report.connected {
            if self.decided {
                CoordinatorAction::DiscardConnection
            } else {
                self.decided = true;
                CoordinatorAction::DeliverWinner
            }
        } else {
            if self.pending == 0 && !self.decided {
                CoordinatorAction::ReportAllFailed
            } else {
                CoordinatorAction::KeepWaiting
            }
        }
    }
}

/// One report decides the race exactly when it is a success or an earlier
/// one was.
proof fn lemma_decided_step(s: Seq<WorkerReport>, i: int)
    requires
        0 <= i < s.len(),
    ensures
        decided_before(s, i + 1) <==> (decided_before(s, i) || s[i].connected),
{
    if decided_before(s, i + 1) {
        let j = choose|j: int| 0 <= j < i + 1 && s[j].connected;
        if j < i {
            assert(decided_before(s, i));
        }
    }
    if s[i].connected {
        assert(0 <= i < i + 1 && s[i].connected);
        assert(decided_before(s, i + 1));
    }
    if decided_before(s, i) {
        let j = choose|j: int| 0 <= j < i && s[j].connected;
        assert(0 <= j < i + 1 && s[j].connected);
        assert(decided_before(s, i + 1));
    }
}

/// `first_success` really is the arrival position of a success that no
/// success precedes.
proof fn lemma_first_success_props(s: Seq<WorkerReport>)
    requires
        has_success(s),
    ensures
        0 <= first_success(s) < s.len(),
        s[first_success(s)].connected,
        !decided_before(s, first_success(s)),
    decreases s.len(),
{
    if s.len() == 0 {
        assert(!has_success(s));
    } else if s[0].connected {
        assert(first_success(s) == 0);
    } else {
        let t = s.drop_first();
        let j = choose|j: int| 0 <= j < s.len() && s[j].connected;
        assert(j != 0);
        assert(t[j - 1] == s[j]);
        assert(0 <= j - 1 < t.len() && t[j - 1].connected);
        assert(has_success(t));
        lemma_first_success_props(t);
        let f = first_success(t);
        assert(first_success(s) == 1 + f);
        assert(s[1 + f] == t[f]);
        assert(!decided_before(s, 1 + f)) by {
            if decided_before(s, 1 + f) {
                let k = choose|k: int| 0 <= k < 1 + f && s[k].connected;
                assert(k != 0);
                assert(t[k - 1] == s[k]);
                assert(0 <= k - 1 < f && t[k - 1].connected);
                assert(decided_before(t, f));
            }
        }
    }
}

/// A success that no success precedes stands exactly at `first_success`.
proof fn lemma_first_success_unique(s: Seq<WorkerReport>, i: int)
    requires
        0 <= i < s.len(),
        s[i].connected,
        !decided_before(s, i),
    ensures
        has_success(s),
        first_success(s) == i,
{
    assert(0 <= i < s.len() && s[i].connected);
    assert(has_success(s));
    lemma_first_success_props(s);
    let f = first_success(s);
    if f < i {
        assert(0 <= f < i && s[f].connected);
        assert(decided_before(s, i));
    }
    if i < f {
        assert(0 <= i < f && s[i].connected);
        assert(decided_before(s, f));
    }
}

/// Consumes the reports of one race in arrival order, through the
/// coordinator, and returns the race's outcome: the worker index of the
/// first success, or overall failure when every worker failed. The loop
/// consumes one report per step, so a race over finitely many workers
/// cannot hang.
pub fn run_race(reports: &Vec<WorkerReport>) -> (r: Result<usize, RaceError>)
    requires
        reports@.len() >= 1,
    ensures
        r == race_outcome(reports@),
{
    let ghost s = reports@;
    let mut coord = RaceCoordinator::start(reports.len());
    let mut winner: Option<usize> = None;
    let mut i: usize = 0;
    while i < reports.len()
        invariant
            s == reports@,
            1 <= s.len(),
            i <= s.len(),
            coord.pending == s.len() - i,
            coord.decided == decided_before(s, i as int),
            winner is Some <==> decided_before(s, i as int),
            winner matches Some(w) ==> has_success(s) && w == s[first_success(s)].worker,
        decreases s.len() - i,
    {
        let report = reports[i];
        proof {
            lemma_decided_step(s, i as int);
            if report.connected && !decided_before(s, i as int) {
                lemma_first_success_unique(s, i as int);
            }
        }
        let action = coord.on_report(report);
        if matches!(action, CoordinatorAction::DeliverWinner) {
            winner = Some(report.worker);
        }
        i = i + 1;
    }
    match winner {
        Some(w) => Ok(w),
        None => Err(RaceError::AllCandidatesFailed),
    }
}

/// Consumes the reports of one race in arrival order and returns what the
/// coordinator did with each: the action for the `i`-th report is exactly
/// `spec_action` at `i`.
pub fn race_actions(reports: &Vec<WorkerReport>) -> (actions: Vec<CoordinatorAction>)
    requires
        reports@.len() >= 1,
    ensures
        actions@.len() == reports@.len(),
        forall|i: int| 0 <= i < reports@.len() ==> actions@[i] == spec_action(reports@, i),
{
    let ghost s = reports@;
    let mut coord = RaceCoordinator::start(reports.len());
    let mut actions: Vec<CoordinatorAction> = Vec::new();
    let mut i: usize = 0;
    while i < reports.len()
        invariant
            s == reports@,
            1 <= s.len(),
            i <= s.len(),
            coord.pending == s.len() - i,
            coord.decided == decided_before(s, i as int),
            actions@.len() == i,
            forall|j: int| 0 <= j < i ==> actions@[j] == spec_action(s, j),
        decreases s.len() - i,
    {
        let report = reports[i];
        proof {
            lemma_decided_step(s, i as int);
        }
        let action = coord.on_report(report);
        assert(action == spec_action(s, i as int));
        actions.push(action);
        i = i + 1;
    }
    actions
}

/// A race with exactly one reachable candidate is won by that candidate's
/// worker, whatever its arrival position among the reports.
pub proof fn lemma_lone_success_wins(s: Seq<WorkerReport>, i: int)
    requires
        s.len() >= 1,
        0 <= i < s.len(),
        s[i].connected,
        forall|j: int| 0 <= j < s.len() && j != i ==> !s[j].connected,
    ensures
        race_outcome(s) == Ok::<usize, RaceError>(s[i].worker),
{
    assert(!decided_before(s, i)) by {
        if decided_before(s, i) {
            let j = choose|j: int| 0 <= j < i && s[j].connected;
            assert(!s[j].connected);
        }
    }
    lemma_first_success_unique(s, i);
}

/// A race in which every candidate fails reports overall failure, and the
/// coordinator's action on the last report is exactly that overall failure.
pub proof fn lemma_all_fail(s: Seq<WorkerReport>)
    requires
        s.len() >= 1,
        forall|j: int| 0 <= j < s.len() ==> !s[j].connected,
    ensures
        race_outcome(s) == Err::<usize, RaceError>(RaceError::AllCandidatesFailed),
        spec_action(s, s.len() - 1) == CoordinatorAction::ReportAllFailed,
{
    assert(!has_success(s)) by {
        if has_success(s) {
            let j = choose|j: int| 0 <= j < s.len() && s[j].connected;
            assert(!s[j].connected);
        }
    }
    assert(!decided_before(s, s.len() - 1)) by {
        if decided_before(s, s.len() - 1) {
            let j = choose|j: int| 0 <= j < s.len() - 1 && s[j].connected;
            assert(!s[j].connected);
        }
    }
}

/// At-most-once delivery: no two reports are both delivered to the response
/// handler, however many of them are successes.
pub proof fn lemma_at_most_one_delivery(s: Seq<WorkerReport>, i: int, j: int)
    requires
        0 <= i < s.len(),
        0 <= j < s.len(),
        spec_action(s, i) == CoordinatorAction::DeliverWinner,
        spec_action(s, j) == CoordinatorAction::DeliverWinner,
    ensures
        i == j,
{
    if i < j {
        assert(0 <= i < j && s[i].connected);
        assert(decided_before(s, j));
    }
    if j < i {
        assert(0 <= j < i && s[j].connected);
        assert(decided_before(s, i));
    }
}

/// Every success after the race is decided is discarded, never delivered
/// and never read.
pub proof fn lemma_later_success_discarded(s: Seq<WorkerReport>, i: int)
    requires
        0 <= i < s.len(),
        s[i].connected,
        decided_before(s, i),
    ensures
        spec_action(s, i) == CoordinatorAction::DiscardConnection,
{
}

/// When any report is a success, the first of them is delivered: together
/// with at-most-once delivery, exactly one connection reaches the response
/// handler.
pub proof fn lemma_winner_delivered(s: Seq<WorkerReport>)
    requires
        has_success(s),
    ensures
        0 <= first_success(s) < s.len(),
        spec_action(s, first_success(s)) == CoordinatorAction::DeliverWinner,
{
    lemma_first_success_props(s);
}

} // verus!
