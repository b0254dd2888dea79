use jjq::engine::{Action, Event, RunItem, RunResult};
use jjq::jj::JjOutput;
use jjq::queue::{last_id_text, next_id};
use jjq::trailers::extract_trailers;

fn jj_ok(stdout: &str) -> Event {
    Event::Jj(JjOutput { args: Vec::new(), success: true, stdout: stdout.to_string(), stderr: String::new() })
}

fn jj_ok_err(stderr: &str) -> Event {
    Event::Jj(JjOutput { args: Vec::new(), success: true, stdout: String::new(), stderr: stderr.to_string() })
}

fn strs(v: &[&str]) -> Vec<String> {
    v.iter().map(|s| s.to_string()).collect()
}

fn jj_args(a: Action) -> Vec<String> {
    match a {
        Action::Jj(v) => v,
        _ => panic!("expected a jj invocation"),
    }
}

fn batch(a: Action) -> Vec<Vec<String>> {
    match a {
        Action::Batch(cs) => cs.into_iter().map(|c| c.args).collect(),
        _ => panic!("expected a batch"),
    }
}

fn finish(a: Action) -> (Result<RunResult, jjq::exit_codes::ExitError>, Option<String>, bool) {
    match a {
        Action::Finish { result, forget, keep_dir } => (result, forget, keep_dir),
        _ => panic!("expected the end of the run"),
    }
}

fn failure_message(r: &Result<RunResult, jjq::exit_codes::ExitError>) -> Option<(i32, String)> {
    match r {
        Ok(RunResult::Failure(code, msg)) => Some((*code, msg.clone())),
        _ => None,
    }
}

fn blocked_message(r: &Result<RunResult, jjq::exit_codes::ExitError>) -> Option<(i32, String)> {
    match r {
        Ok(RunResult::Blocked(code, msg)) => Some((*code, msg.clone())),
        _ => None,
    }
}

/// Drives a run of item `queue_name` up to the conflict query in its workspace.
fn up_to_conflict_query(m: &mut RunItem, queue_names: &str, id_text: &str, strategy: &str) {
    assert_eq!(
        jj_args(m.step(Event::Begin)),
        strs(&["--color=never", "bookmark", "list", "-r", "bookmarks(glob:\"jjq/queue/??????\")", "-T", "name ++ \"\\n\""])
    );
    assert!(matches!(m.step(jj_ok(queue_names)), Action::ReadConfig));
    let a = m.step(Event::Config {
        trunk: Some("main".to_string()),
        check: Some("true".to_string()),
        strategy: Some(strategy.to_string()),
    });
    assert!(matches!(a, Action::TryRunLock));
    assert_eq!(
        jj_args(m.step(Event::Lock(true))),
        strs(&["--color=never", "log", "-r", "bookmarks(exact:main)", "--no-graph", "-T", "commit_id"])
    );
    let q = format!("bookmarks(exact:jjq/queue/{})", id_text);
    assert_eq!(
        jj_args(m.step(jj_ok("trunk0\n"))),
        strs(&["--color=never", "log", "-r", &q, "--no-graph", "-T", "change_id.short() ++ \" \" ++ commit_id"])
    );
    assert_eq!(
        jj_args(m.step(jj_ok("kxyz c0ffee\n"))),
        strs(&["--color=never", "log", "-r", &q, "--no-graph", "-T", "description"])
    );
    assert!(matches!(m.step(jj_ok("add f1\n")), Action::CreateWorkspaceDir));
    let run = format!("jjq-run-{}", id_text);
    let a = m.step(Event::WorkspaceDir("/tmp/ws".to_string()));
    if strategy == "merge" {
        assert_eq!(
            jj_args(a),
            strs(&["--color=never", "workspace", "add", "-r", "bookmarks(exact:main)", "-r", &q, "--name", &run, "/tmp/ws"])
        );
    } else {
        assert_eq!(jj_args(a), strs(&["--color=never", "duplicate", &format!("bookmarks(exact:main)..{}", q), "--onto", "bookmarks(exact:main)"]));
        assert_eq!(
            jj_args(m.step(jj_ok_err("Duplicated c0ffee as dupa 9999 add f1\n"))),
            strs(&["--color=never", "workspace", "add", "-r", "dupa", "--name", &run, "/tmp/ws"])
        );
    }
    match m.step(jj_ok("")) {
        Action::RecordAndEnter { path, .. } => assert_eq!(path, "/tmp/ws"),
        _ => panic!("expected the workspace to be recorded"),
    }
    if strategy == "rebase" {
        let parent = format!("{}@-", run);
        assert_eq!(
            jj_args(m.step(Event::Done)),
            strs(&["--color=never", "log", "-r", &parent, "--no-graph", "-T", "change_id.short()"])
        );
        assert_eq!(jj_args(m.step(jj_ok("dupa\n"))), strs(&["--color=never", "edit", "dupa"]));
        assert_eq!(
            jj_args(m.step(jj_ok(""))),
            strs(&["--color=never", "log", "-r", &format!("{}@", run), "--no-graph", "-T", "if(conflict, \"yes\")"])
        );
    } else {
        assert_eq!(
            jj_args(m.step(Event::Done)),
            strs(&["--color=never", "log", "-r", &format!("{}@", run), "--no-graph", "-T", "if(conflict, \"yes\")"])
        );
    }
}

/// From the conflict query to the check passing and trunk being read again.
fn up_to_recheck(m: &mut RunItem, id_text: &str) {
    let run = format!("jjq-run-{}@", id_text);
    assert_eq!(
        jj_args(m.step(jj_ok(""))),
        strs(&["--color=never", "diff", "--from", "bookmarks(exact:main)", "--to", &run, "--summary"])
    );
    let wip = jj_args(m.step(jj_ok("A f1.txt\n")));
    assert_eq!(wip[1], "desc");
    assert!(wip[5].starts_with("WIP: attempting merge "));
    match m.step(jj_ok("")) {
        Action::RunCheck { command } => assert_eq!(command, "true"),
        _ => panic!("expected the check to run"),
    }
    assert_eq!(
        jj_args(m.step(Event::CheckExit(true))),
        strs(&["--color=never", "log", "-r", "bookmarks(exact:main)", "--no-graph", "-T", "commit_id"])
    );
}

#[test]
fn clean_merge_lands_on_trunk() {
    let mut m = RunItem::new(false);
    up_to_conflict_query(&mut m, "jjq/queue/000001\n", "000001", "merge");
    up_to_recheck(&mut m, "000001");
    assert_eq!(jj_args(m.step(jj_ok("trunk0\n"))), strs(&["--color=never", "log", "-r", "@", "--no-graph", "-T", "change_id.short()"]));
    let cmds = batch(m.step(jj_ok("landed1\n")));
    assert_eq!(cmds[0], strs(&["--color=never", "bookmark", "move", "--from", "trunk0", "--to", "@", "main"]));
    assert_eq!(cmds[1], strs(&["--color=never", "bookmark", "delete", "jjq/queue/000001"]));
    assert_eq!(cmds[2], strs(&["--color=never", "desc", "-r", "@", "-m", "Success: merge 1"]));
    let (r, forget, keep) = finish(m.step(Event::BatchDone(Ok(()))));
    assert!(matches!(r, Ok(RunResult::Success)));
    assert_eq!(forget.as_deref(), Some("jjq-run-000001"));
    assert!(!keep);
    assert_eq!(m.landed, "landed1");
}

#[test]
fn rebase_lands_the_original_change_after_moving_trunk() {
    let mut m = RunItem::new(true);
    up_to_conflict_query(&mut m, "jjq/queue/000004\n", "000004", "rebase");
    up_to_recheck(&mut m, "000004");
    assert!(matches!(m.step(jj_ok("trunk0\n")), Action::LeaveWorkspace));
    let cmds = batch(m.step(Event::Done));
    assert_eq!(cmds[0], strs(&["--color=never", "rebase", "-b", "kxyz", "-d", "bookmarks(exact:main)"]));
    assert_eq!(cmds[1], strs(&["--color=never", "bookmark", "move", "--allow-protected", "--from", "trunk0", "--to", "kxyz", "main"]));
    assert_eq!(cmds[2], strs(&["--color=never", "bookmark", "delete", "jjq/queue/000004"]));
    assert_eq!(cmds[3], strs(&["--color=never", "desc", "-r", "kxyz", "-m", "add f1\n\njjq-sequence: 000004\njjq-strategy: rebase"]));
    assert_eq!(cmds[4], strs(&["--color=never", "abandon", "dupa"]));
    let (r, _, _) = finish(m.step(Event::BatchDone(Ok(()))));
    assert!(matches!(r, Ok(RunResult::Success)));
}

#[test]
fn failed_check_marks_the_item_failed_and_keeps_the_workspace() {
    let mut m = RunItem::new(false);
    up_to_conflict_query(&mut m, "jjq/queue/000001\n", "000001", "merge");
    let _ = m.step(jj_ok(""));
    let _ = m.step(jj_ok("A f1.txt\n"));
    let _ = m.step(jj_ok(""));
    assert!(matches!(m.step(Event::CheckExit(false)), Action::ShowFailedLog));
    let cmds = batch(m.step(Event::Done));
    assert_eq!(cmds[0], strs(&["--color=never", "bookmark", "delete", "jjq/queue/000001"]));
    assert_eq!(cmds[1], strs(&["--color=never", "bookmark", "create", "-r", "jjq-run-000001@", "jjq/failed/000001"]));
    let desc = &cmds[2][5];
    let t = extract_trailers(desc);
    assert_eq!(t.get("candidate").as_deref(), Some("kxyz"));
    assert_eq!(t.get("candidate-commit").as_deref(), Some("c0ffee"));
    assert_eq!(t.get("trunk").as_deref(), Some("trunk0"));
    assert_eq!(t.get("workspace").as_deref(), Some("/tmp/ws"));
    assert_eq!(t.get("failure").as_deref(), Some("check"));
    assert_eq!(t.get("strategy").as_deref(), Some("merge"));
    let (r, forget, keep) = finish(m.step(Event::BatchDone(Ok(()))));
    assert_eq!(failure_message(&r), Some((1, "merge 1 check failed".to_string())));
    assert!(forget.is_none());
    assert!(keep);
}

#[test]
fn conflicting_candidate_is_marked_failed() {
    let mut m = RunItem::new(false);
    up_to_conflict_query(&mut m, "jjq/queue/000002\njjq/queue/000003\n", "000002", "merge");
    let cmds = batch(m.step(jj_ok("yes")));
    assert_eq!(cmds.len(), 3);
    assert_eq!(cmds[1], strs(&["--color=never", "bookmark", "create", "-r", "jjq-run-000002@", "jjq/failed/000002"]));
    assert!(cmds[2][5].starts_with("Failed: merge 2 (conflicts)\n\n"));
    let (r, _, keep) = finish(m.step(Event::BatchDone(Ok(()))));
    assert_eq!(failure_message(&r), Some((1, "merge 2 has conflicts".to_string())));
    assert!(keep);
}

#[test]
fn trunk_moving_during_the_check_leaves_the_queue_entry() {
    let mut m = RunItem::new(false);
    up_to_conflict_query(&mut m, "jjq/queue/000001\n", "000001", "rebase");
    up_to_recheck(&mut m, "000001");
    let cmds = batch(m.step(jj_ok("trunk1\n")));
    assert_eq!(cmds, vec![strs(&["--color=never", "abandon", "dupa"])]);
    assert!(m.trunk_moved && !m.queue_deleted);
    let (r, forget, keep) = finish(m.step(Event::BatchDone(Ok(()))));
    assert_eq!(failure_message(&r), Some((1, "trunk moved during run".to_string())));
    assert_eq!(forget.as_deref(), Some("jjq-run-000001"));
    assert!(!keep);
}

#[test]
fn empty_candidate_is_skipped() {
    let mut m = RunItem::new(false);
    up_to_conflict_query(&mut m, "jjq/queue/000001\n", "000001", "merge");
    let _ = m.step(jj_ok(""));
    let cmds = batch(m.step(jj_ok("")));
    assert_eq!(cmds, vec![strs(&["--color=never", "bookmark", "delete", "jjq/queue/000001"])]);
    let (r, forget, _) = finish(m.step(Event::BatchDone(Ok(()))));
    assert!(matches!(r, Ok(RunResult::Skipped)));
    assert_eq!(forget.as_deref(), Some("jjq-run-000001"));
}

#[test]
fn second_runner_without_the_lock_changes_nothing() {
    let mut m = RunItem::new(false);
    let _ = m.step(Event::Begin);
    let _ = m.step(jj_ok("jjq/queue/000001\n"));
    let _ = m.step(Event::Config { trunk: None, check: Some("true".to_string()), strategy: None });
    let (r, forget, _) = finish(m.step(Event::Lock(false)));
    assert_eq!(blocked_message(&r), Some((1, "run lock unavailable".to_string())));
    assert!(forget.is_none());
    assert!(!m.mutated && !m.queue_deleted);
}

#[test]
fn test_run_empty_queue() {
    let mut m = RunItem::new(false);
    let _ = m.step(Event::Begin);
    let (r, _, _) = finish(m.step(jj_ok("")));
    assert!(matches!(r, Ok(RunResult::Empty)));
}

#[test]
fn unconfigured_check_fails_before_the_lock() {
    let mut m = RunItem::new(false);
    let _ = m.step(Event::Begin);
    let _ = m.step(jj_ok("jjq/queue/000001\n"));
    let (r, _, _) = finish(m.step(Event::Config { trunk: None, check: None, strategy: None }));
    assert_eq!(blocked_message(&r), Some((1, "check_command not configured".to_string())));
    assert!(!m.mutated);
}

#[test]
fn unexpected_event_ends_the_run() {
    let mut m = RunItem::new(false);
    let (r, _, _) = finish(m.step(Event::Done));
    assert!(r.is_err());
}

#[test]
fn test_full_workflow_with_prs() {
    let mut text = "0".to_string();
    let mut ids = Vec::new();
    for _ in 0..4 {
        let id = next_id(&text).ok().unwrap();
        ids.push(format!("jjq: revision 'pr{}' queued at {}", id, id));
        text = last_id_text(id);
    }
    assert_eq!(ids[0], "jjq: revision 'pr1' queued at 1");
    assert_eq!(ids[3], "jjq: revision 'pr4' queued at 4");
    let mut m = RunItem::new(false);
    up_to_conflict_query(&mut m, "jjq/queue/000002\njjq/queue/000003\njjq/queue/000004\n", "000002", "merge");
    let _ = m.step(jj_ok("yes\n"));
    let (r, _, _) = finish(m.step(Event::BatchDone(Ok(()))));
    assert_eq!(failure_message(&r), Some((1, "merge 2 has conflicts".to_string())));
}

#[test]
fn rebase_of_a_candidate_already_on_trunk_is_skipped() {
    let mut m = RunItem::new(false);
    let _ = m.step(Event::Begin);
    let _ = m.step(jj_ok("jjq/queue/000003\n"));
    let _ = m.step(Event::Config { trunk: None, check: Some("true".to_string()), strategy: Some("rebase".to_string()) });
    let _ = m.step(Event::Lock(true));
    let _ = m.step(jj_ok("trunk0\n"));
    let _ = m.step(jj_ok("kxyz c0ffee\n"));
    let _ = m.step(jj_ok("landed earlier\n"));
    let _ = m.step(Event::WorkspaceDir("/tmp/ws".to_string()));
    let cmds = batch(m.step(jj_ok_err("Nothing changed.\n")));
    assert_eq!(cmds, vec![strs(&["--color=never", "bookmark", "delete", "jjq/queue/000003"])]);
    let (r, forget, keep) = finish(m.step(Event::BatchDone(Ok(()))));
    assert!(matches!(r, Ok(RunResult::Skipped)));
    assert!(forget.is_none());
    assert!(!keep);
}
