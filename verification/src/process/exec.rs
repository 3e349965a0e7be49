//! What the executing treatments report of the runs of commands.
//!
//! An executor runs a command and reports on the treatment's outputs:
//! `started`, `completed` or `failed`, an `error` message, an `exit` code,
//! and `finished`. The local executor decides these from how the process
//! ended; the treatments that run a stream of commands stop at the first
//! command that failed.
use vstd::prelude::*;
use crate::batch::{lemma_until_stop, until_stop};

verus! {

/// How a run of a command ended, as the executor saw it.
pub enum RunOutcome {
    /// The process ran and ended; its exit code if it has one, and whether
    /// its status is a success.
    Exited { code: Option<i32>, success: bool },
    /// The process was launched but waiting for its status failed.
    StatusError(String),
    /// The process could not be launched.
    LaunchError(String),
}

/// What an executor reports of one run, output by output.
pub struct RunReport {
    pub started: bool,
    pub completed: bool,
    pub failed: bool,
    pub error: Option<String>,
    pub exit: Option<Option<i32>>,
    pub finished: bool,
}

/// The state of a treatment that runs a stream of commands one after the
/// other: whether `started` is still to be sent, and whether every run so
/// far went right.
#[derive(Clone, Copy)]
pub struct SequenceState {
    pub first: bool,
    pub success: bool,
}

/// What the treatment sends after one run, and whether it runs the next
/// command.
pub struct SequenceStep {
    pub send_started: bool,
    pub error: Option<String>,
    pub exit: Option<Option<i32>>,
    pub go_on: bool,
}

/// The state before the first command.
pub fn sequence_start() -> (r: SequenceState)
    ensures
        r.first,
        r.success,
{
    SequenceState { first: true, success: true }
}

/// One run of the sequence: `started` is sent for the first run that
/// reports it, the error message and the exit code are passed on, and the
/// sequence stops after a run that failed.
pub fn sequence_step(state: SequenceState, report: &RunReport) -> (r: (SequenceState, SequenceStep))
    ensures
        r.1.send_started == (state.first && report.started),
        r.0.first == (state.first && !report.started),
        r.0.success == (state.success && !report.failed),
        r.1.error == report.error,
        r.1.exit == report.exit,
        r.1.go_on == r.0.success,
{
    let send_started = state.first && report.started;
    let next = SequenceState {
        first: state.first && !report.started,
        success: state.success && !report.failed,
    };
    let error = match &report.error {
        Some(m) => Some(m.clone()),
        None => None,
    };
    (next, SequenceStep { send_started, error, exit: report.exit, go_on: next.success })
}

/// What the treatment sends once no command is left to run: `completed` if
/// every run went right, else `failed`; `finished` in either case.
pub fn sequence_end(state: SequenceState) -> (r: (bool, bool, bool))
    ensures
        r.0 == state.success,
        r.1 == !state.success,
        r.2,
{
    (state.success, !state.success, true)
}

/// All that a treatment running a stream of commands sends.
pub struct SequenceOutputs {
    pub started: bool,
    pub errors: Vec<String>,
    pub exits: Vec<Option<i32>>,
    pub runs: usize,
    pub completed: bool,
    pub failed: bool,
    pub finished: bool,
}

/// The number of reports up to and including the first that failed (all of
/// them where none did).
pub open spec fn runs_until_failure(reports: Seq<RunReport>) -> int {
    until_stop(reports, |r: RunReport| r.failed)
}

/// The error messages of the first `n` reports, in order.
pub open spec fn errors_of(reports: Seq<RunReport>, n: int) -> Seq<Seq<char>>
    decreases n,
{
    if n <= 0 {
        Seq::empty()
    } else {
        match reports[n - 1].error {
            Some(m) => errors_of(reports, n - 1).push(m@),
            None => errors_of(reports, n - 1),
        }
    }
}

/// The exit codes of the first `n` reports, in order.
pub open spec fn exits_of(reports: Seq<RunReport>, n: int) -> Seq<Option<i32>>
    decreases n,
{
    if n <= 0 {
        Seq::empty()
    } else {
        match reports[n - 1].exit {
            Some(c) => exits_of(reports, n - 1).push(c),
            None => exits_of(reports, n - 1),
        }
    }
}

/// The view of a list of strings.
pub open spec fn texts_view(v: Seq<String>) -> Seq<Seq<char>> {
    v.map_values(|s: String| s@)
}

proof fn lemma_runs_until_failure(reports: Seq<RunReport>)
    ensures
        0 <= runs_until_failure(reports) <= reports.len(),
        forall|k: int| 0 <= k < runs_until_failure(reports) - 1 ==> !(#[trigger] reports[k]).failed,
        runs_until_failure(reports) < reports.len() ==> runs_until_failure(reports) > 0
            && reports[runs_until_failure(reports) - 1].failed,
        runs_until_failure(reports) == reports.len() && reports.len() > 0 ==> (
        reports[reports.len() - 1].failed || forall|k: int|
            0 <= k < reports.len() ==> !(#[trigger] reports[k]).failed),
{
    lemma_until_stop(reports, |r: RunReport| r.failed);
}

/// What a treatment running a stream of commands (`exec`, and `spawn`
/// whose runs are reported by `spawn_out`) sends, given the reports of the
/// runs the commands would make: it runs them in order up to and including
/// the first that failed.
pub fn exec(reports: &Vec<RunReport>) -> (r: SequenceOutputs)
    ensures
        r.runs == runs_until_failure(reports@),
        r.started <==> exists|k: int| 0 <= k < r.runs && (#[trigger] reports@[k]).started,
        texts_view(r.errors@) == errors_of(reports@, r.runs as int),
        r.exits@ == exits_of(reports@, r.runs as int),
        r.completed <==> forall|k: int| 0 <= k < r.runs ==> !(#[trigger] reports@[k]).failed,
        r.failed == !r.completed,
        r.finished,
{
    proof {
        lemma_runs_until_failure(reports@);
    }
    let ghost all = reports@;
    let mut state = sequence_start();
    let mut started = false;
    let mut errors: Vec<String> = Vec::new();
    let mut exits: Vec<Option<i32>> = Vec::new();
    let mut runs: usize = 0;
    while runs < reports.len() && state.success
        invariant
            runs <= all.len(),
            all == reports@,
            state.success <==> forall|k: int| 0 <= k < runs ==> !(#[trigger] all[k]).failed,
            state.first == !started,
            started <==> exists|k: int| 0 <= k < runs && (#[trigger] all[k]).started,
            texts_view(errors@) == errors_of(all, runs as int),
            exits@ == exits_of(all, runs as int),
            state.success ==> runs <= runs_until_failure(all),
            !state.success ==> runs == runs_until_failure(all),
            0 <= runs_until_failure(all) <= all.len(),
            forall|k: int| 0 <= k < runs_until_failure(all) - 1 ==> !(#[trigger] all[k]).failed,
            runs_until_failure(all) < all.len() ==> runs_until_failure(all) > 0
                && all[runs_until_failure(all) - 1].failed,
            runs_until_failure(all) == all.len() && all.len() > 0 ==> (all[all.len() - 1].failed
                || forall|k: int| 0 <= k < all.len() ==> !(#[trigger] all[k]).failed),
        decreases all.len() - runs,
    {
        let ghost before_errors = errors@;
        let (next, step) = sequence_step(state, &reports[runs]);
        if step.send_started {
            started = true;
        }
        match step.error {
            Some(m) => {
                errors.push(m);
                assert(texts_view(errors@) =~= texts_view(before_errors).push(m@));
            },
            None => {},
        }
        match step.exit {
            Some(c) => exits.push(c),
            None => {},
        }
        state = next;
        runs = runs + 1;
        proof {
            if state.success {
                assert forall|k: int| 0 <= k < runs implies !(#[trigger] all[k]).failed by {}
            }
            if started {
                if !(exists|k: int| 0 <= k < runs - 1 && (#[trigger] all[k]).started) {
                    assert(all[runs - 1].started);
                }
            }
        }
    }
    let (completed, failed, finished) = sequence_end(state);
    SequenceOutputs { started, errors, exits, runs, completed, failed, finished }
}

} // verus!
