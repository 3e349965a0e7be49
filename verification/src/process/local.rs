//! The local executor: what it sets on a subprocess for an environment, and
//! what it reports of a run.
use vstd::prelude::*;
use crate::data::{StringMap, pairs_view};
use super::environment::{Environment, expand_variables, expanded};
use super::exec::{RunOutcome, RunReport};

verus! {

/// What is set on a subprocess for an environment: whether the inherited
/// variables are cleared, the working directory, and the variables.
pub struct ProcessEnvironment {
    pub clear_env: bool,
    pub working_directory: Option<String>,
    pub variables: Vec<(String, String)>,
}

/// The variables an environment sets, each value expanded against the
/// parent's variables where the environment asks for it.
pub open spec fn variables_set(env: Environment, parent: Seq<(Seq<char>, Seq<char>)>) -> Seq<
    (Seq<char>, Seq<char>),
> {
    if env.expand_variables {
        env.variables.view().map_values(|e: (Seq<char>, Seq<char>)| (e.0, expanded(e.1, parent)))
    } else {
        env.variables.view()
    }
}

/// What the local executor reports of a run when it executes or spawns a
/// command with its input and outputs.
pub open spec fn exec_report(outcome: RunOutcome) -> RunReport {
    match outcome {
        RunOutcome::Exited { code, success } => RunReport {
            started: true,
            completed: true,
            failed: false,
            error: None,
            exit: Some(code),
            finished: true,
        },
        RunOutcome::StatusError(m) => RunReport {
            started: true,
            completed: false,
            failed: true,
            error: Some(m),
            exit: None,
            finished: true,
        },
        RunOutcome::LaunchError(m) => RunReport {
            started: false,
            completed: false,
            failed: true,
            error: Some(m),
            exit: None,
            finished: true,
        },
    }
}

/// The executor that runs commands as processes of the local machine.
pub struct LocalExecutorEngine {}

impl LocalExecutorEngine {
    /// The report of the local executor when it executes a command: `completed` with the exit code once the process
    /// ended, whatever its code; `failed` with the message where it could not be
    /// launched or waited for.
    pub fn exec(&self, outcome: RunOutcome) -> (r: RunReport)
        ensures
            r == exec_report(outcome),
            r.finished,
            r.started <==> !(outcome is LaunchError),
            r.completed <==> outcome is Exited,
            r.failed <==> !(outcome is Exited),
            match outcome {
                RunOutcome::Exited { code, success } => r.exit == Some(code) && r.error is None,
                RunOutcome::StatusError(m) => r.exit is None && r.error == Some(m),
                RunOutcome::LaunchError(m) => r.exit is None && r.error == Some(m),
            },
    {
        match outcome {
            RunOutcome::Exited { code, success } => RunReport {
                started: true,
                completed: true,
                failed: false,
                error: None,
                exit: Some(code),
                finished: true,
            },
            RunOutcome::StatusError(m) => RunReport {
                started: true,
                completed: false,
                failed: true,
                error: Some(m),
                exit: None,
                finished: true,
            },
            RunOutcome::LaunchError(m) => RunReport {
                started: false,
                completed: false,
                failed: true,
                error: Some(m),
                exit: None,
                finished: true,
            },
        }
    }

    /// The report of the local executor when it spawns a command with its
    /// outputs only (`spawn_out`, which the `spawn` treatment uses): as when it
    /// executes it. A process that ended is `completed`, with its exit code,
    /// even where it failed in its own logic; only a process that could not
    /// be launched or waited for is `failed`.
    pub fn spawn_out(&self, outcome: RunOutcome) -> (r: RunReport)
        ensures
            r == exec_report(outcome),
            r.completed <==> outcome is Exited,
            r.failed <==> !(outcome is Exited),
    {
        self.exec(outcome)
    }

    /// The report of the local executor when it spawns a command with its
    /// input and outputs (`spawn`): as when it executes it.
    pub fn spawn(&self, outcome: RunOutcome) -> (r: RunReport)
        ensures
            r == exec_report(outcome),
    {
        self.exec(outcome)
    }

    /// What the local executor sets on a subprocess for `env`, given the
    /// variables of the parent process.
    pub fn manage_env(env: &Environment, parent: &StringMap) -> (r: ProcessEnvironment)
        ensures
            r.clear_env == env.clear_env,
            r.working_directory == env.working_directory,
            pairs_view(r.variables@) == variables_set(*env, parent.view()),
    {
        let mut variables: Vec<(String, String)> = Vec::new();
        let n = env.variables.entries.len();
        let mut i: usize = 0;
        while i < n
            invariant
                i <= n,
                n == env.variables.entries@.len(),
                pairs_view(variables@) == variables_set(*env, parent.view()).subrange(0, i as int),
            decreases n - i,
        {
            let ghost before = variables@;
            let name = env.variables.entries[i].0.clone();
            let value = if env.expand_variables {
                expand_variables(env.variables.entries[i].1.as_str(), parent)
            } else {
                env.variables.entries[i].1.clone()
            };
            variables.push((name, value));
            assert(env.variables.view()[i as int] == (
                env.variables.entries@[i as int].0@,
                env.variables.entries@[i as int].1@,
            ));
            assert(pairs_view(variables@) =~= pairs_view(before).push((variables@[i as int].0@, variables@[i as int].1@)));
            assert(pairs_view(variables@) =~= variables_set(*env, parent.view()).subrange(0, i + 1));
            i = i + 1;
        }
        assert(variables_set(*env, parent.view()).subrange(0, n as int) =~= variables_set(
            *env,
            parent.view(),
        ));
        ProcessEnvironment {
            clear_env: env.clear_env,
            working_directory: env.working_directory.clone(),
            variables,
        }
    }
}

} // verus!
