use melodium_libs::data::StringMap;
use melodium_libs::process::command::{checked_raw_commands, command, command_from_words, raw_command, raw_commands};
use melodium_libs::process::environment::{environment, expand_variables, map_environment, map_full_environment};
use melodium_libs::process::local::LocalExecutorEngine;
use melodium_libs::process::exec::{self, sequence_end, sequence_start, sequence_step, RunOutcome, RunReport};

fn map(pairs: &[(&str, &str)]) -> StringMap {
    StringMap { entries: pairs.iter().map(|(k, v)| (k.to_string(), v.to_string())).collect() }
}

#[test]
fn command_from_parts() {
    let c = command("ls".to_string(), vec!["-l".to_string()]);
    assert_eq!(c.command, "ls");
    assert_eq!(c.arguments, vec!["-l".to_string()]);
}

#[test]
fn raw_command_splits_like_a_shell() {
    let c = raw_command("cp -r 'my dir' \"other dir\"").unwrap();
    assert_eq!(c.command, "cp");
    assert_eq!(c.arguments, vec!["-r".to_string(), "my dir".to_string(), "other dir".to_string()]);
    assert!(raw_command("echo 'unclosed").is_none());
    assert!(raw_command("").is_none());
    assert!(raw_command("   ").is_none());
}

#[test]
fn command_from_split_words() {
    assert!(command_from_words(vec![]).is_none());
    let c = command_from_words(vec!["a".to_string(), "b".to_string(), "c".to_string()]).unwrap();
    assert_eq!(c.command, "a");
    assert_eq!(c.arguments, vec!["b".to_string(), "c".to_string()]);
}

#[test]
fn raw_commands_all_or_nothing() {
    let good = vec!["ls -l".to_string(), "pwd".to_string()];
    let cs = raw_commands(&good);
    assert_eq!(cs.len(), 2);
    assert_eq!(cs[1].command, "pwd");
    assert_eq!(checked_raw_commands(&good).unwrap().len(), 2);
    let bad = vec!["ls".to_string(), "echo \"open".to_string()];
    assert!(raw_commands(&bad).is_empty());
    assert!(checked_raw_commands(&bad).is_none());
    let empty_line = vec!["ls".to_string(), "".to_string()];
    assert!(raw_commands(&empty_line).is_empty());
    assert!(checked_raw_commands(&empty_line).is_none());
    assert_eq!(checked_raw_commands(&vec![]).unwrap().len(), 0);
}

#[test]
fn variable_expansion() {
    let parent = map(&[("HOME", "/home/me"), ("USER", "me")]);
    assert_eq!(expand_variables("${HOME}/bin", &parent), "/home/me/bin");
    assert_eq!(expand_variables("${USER}@${HOME}", &parent), "me@/home/me");
    assert_eq!(expand_variables("[${MISSING}]", &parent), "[]");
    assert_eq!(expand_variables("$HOME and ${1X} and ${HOME", &parent), "$HOME and ${1X} and ${HOME");
    assert_eq!(expand_variables("$${HOME}", &parent), "$/home/me");
    assert_eq!(expand_variables("no references", &parent), "no references");
}

#[test]
fn environments() {
    let e = environment(map(&[("A", "1")]), Some("/tmp".to_string()), true, false);
    assert!(e.expand_variables && !e.clear_env);
    assert_eq!(e.working_directory, Some("/tmp".to_string()));
    let e = map_environment(map(&[]), true, false, None);
    assert!(e.clear_env);
    assert!(map_full_environment(Some(map(&[])), None, false, false).is_none());
    assert!(map_full_environment(Some(map(&[])), Some(None), false, false).is_some());
}

#[test]
fn managed_environment_expands_only_when_asked() {
    let parent = map(&[("HOME", "/root")]);
    let e = environment(map(&[("PATH", "${HOME}/bin")]), None, true, true);
    let p = LocalExecutorEngine::manage_env(&e, &parent);
    assert!(p.clear_env);
    assert_eq!(p.variables, vec![("PATH".to_string(), "/root/bin".to_string())]);
    let e = environment(map(&[("PATH", "${HOME}/bin")]), Some("/w".to_string()), false, false);
    let p = LocalExecutorEngine::manage_env(&e, &parent);
    assert_eq!(p.working_directory, Some("/w".to_string()));
    assert_eq!(p.variables, vec![("PATH".to_string(), "${HOME}/bin".to_string())]);
}

#[test]
fn local_executor_reports() {
    let r = LocalExecutorEngine {}.exec(RunOutcome::Exited { code: Some(3), success: false });
    assert!(r.started && r.completed && !r.failed && r.finished);
    assert_eq!(r.exit, Some(Some(3)));
    let r = LocalExecutorEngine {}.spawn_out(RunOutcome::Exited { code: Some(3), success: false });
    assert!(r.started && r.completed && !r.failed);
    assert_eq!(r.exit, Some(Some(3)));
    let r = LocalExecutorEngine {}.spawn_out(RunOutcome::Exited { code: Some(0), success: true });
    assert!(r.completed && !r.failed);
    let r = LocalExecutorEngine {}.exec(RunOutcome::LaunchError("not found".to_string()));
    assert!(!r.started && r.failed && r.finished);
    assert_eq!(r.error, Some("not found".to_string()));
    let r = LocalExecutorEngine {}.spawn(RunOutcome::StatusError("lost".to_string()));
    assert!(r.started && r.failed);
    assert_eq!(r.exit, None);
}

fn report(failed: bool, code: Option<i32>) -> RunReport {
    RunReport {
        started: true,
        completed: !failed,
        failed,
        error: if failed { Some("boom".to_string()) } else { None },
        exit: code.map(Some),
        finished: true,
    }
}

#[test]
fn sequence_stops_at_first_failure() {
    let out = exec::exec(&vec![report(false, Some(0)), report(true, None), report(false, Some(1))]);
    assert_eq!(out.runs, 2);
    assert!(out.started);
    assert!(out.failed && !out.completed && out.finished);
    assert_eq!(out.errors, vec!["boom".to_string()]);
    assert_eq!(out.exits, vec![Some(0)]);
    let out = exec::exec(&vec![report(false, Some(0)), report(false, Some(2))]);
    assert_eq!(out.runs, 2);
    assert!(out.completed && !out.failed);
    assert_eq!(out.exits, vec![Some(0), Some(2)]);
    let out = exec::exec(&vec![]);
    assert_eq!(out.runs, 0);
    assert!(!out.started && out.completed);
}

#[test]
fn spawn_runs_on_after_a_command_fails_in_its_own_logic() {
    let engine = LocalExecutorEngine {};
    let reports = vec![
        engine.spawn_out(RunOutcome::Exited { code: Some(1), success: false }),
        engine.spawn_out(RunOutcome::Exited { code: Some(0), success: true }),
    ];
    let out = exec::exec(&reports);
    assert_eq!(out.runs, 2);
    assert_eq!(out.exits, vec![Some(1), Some(0)]);
    assert!(out.completed && !out.failed && out.finished);
    let reports = vec![
        engine.spawn_out(RunOutcome::LaunchError("no such file".to_string())),
        engine.spawn_out(RunOutcome::Exited { code: Some(0), success: true }),
    ];
    let out = exec::exec(&reports);
    assert_eq!(out.runs, 1);
    assert!(out.failed && !out.completed);
}

#[test]
fn sequence_sends_started_once() {
    let s = sequence_start();
    let (s, step) = sequence_step(s, &report(false, Some(0)));
    assert!(step.send_started && step.go_on);
    let (s, step) = sequence_step(s, &report(false, Some(0)));
    assert!(!step.send_started && step.go_on);
    let (s, step) = sequence_step(s, &report(true, None));
    assert!(!step.go_on);
    assert_eq!(sequence_end(s), (false, true, true));
}
