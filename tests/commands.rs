use jjq::commands::{
    config_display_value, doctor_summary, find_by_change_id, follow_step, log_filter_hides_metadata,
    should_show_log_hint, already_queued_error, build_failed_item, build_queue_item, failed_to_clear, first_line,
    is_jjq_workspace, jjq_workspaces, lookup_workspace_path, not_found_error, plan_queue_push,
    setup_log_filter, QueueEntry, RunTally, TallyStep,
};
use jjq::config::Strategy;
use jjq::engine::RunResult;
use jjq::trailers::failure_description;
use jjq::runlog::sentinel_line;

fn entry(id: u32, change: &str, commit: &str) -> QueueEntry {
    QueueEntry { id, change_id: change.to_string(), commit_id: commit.to_string() }
}

#[test]
fn test_multiple_push_same_revision() {
    let entries = vec![entry(1, "kmain", "c1")];
    let id = plan_queue_push("kmain", "c1", &entries).err().unwrap();
    let msg = format!("revision already queued at {}", id);
    assert!(msg.contains("already queued at 1"), "should reject duplicate: {}", msg);
    assert_eq!(already_queued_error().code, 10);
}

#[test]
fn push_replaces_older_commits_of_the_same_change() {
    let entries = vec![entry(1, "ka", "c1"), entry(2, "kb", "c2"), entry(3, "ka", "c3")];
    assert_eq!(plan_queue_push("ka", "c9", &entries).ok(), Some(vec![1, 3]));
    assert_eq!(plan_queue_push("kz", "c9", &entries).ok(), Some(vec![]));
    assert_eq!(plan_queue_push("ka", "c3", &entries).err(), Some(3));
}

#[test]
fn push_clears_failed_entries_of_the_same_change() {
    let d1 = failure_description(1, "check", "kfb", "c1", "t0", "/tmp/w1", Strategy::Merge);
    let d2 = failure_description(2, "check", "kother", "c2", "t0", "/tmp/w2", Strategy::Merge);
    let failed = vec![(1, format!("{}\n", d1)), (2, d2), (3, "unrelated\n".to_string())];
    assert_eq!(failed_to_clear("kfb", &failed), vec![1]);
    assert_eq!(failed_to_clear("knone", &failed), Vec::<u32>::new());
}

fn feed(t: &mut RunTally, results: Vec<RunResult>, stop: bool) -> TallyStep {
    for r in results {
        match t.record(&r, stop) {
            TallyStep::Continue => {}
            other => return other,
        }
    }
    panic!("run --all did not end");
}

#[test]
fn run_all_merges_three_in_order() {
    let mut t = RunTally::new();
    match feed(&mut t, vec![RunResult::Success, RunResult::Success, RunResult::Success, RunResult::Empty], false) {
        TallyStep::Done(Some(m), Ok(())) => assert_eq!(m, "processed 3 item(s)"),
        _ => panic!("expected a clean summary"),
    }
}

#[test]
fn run_all_partial_failure_exits_with_two() {
    let mut t = RunTally::new();
    let fail = RunResult::Failure(1, "merge 2 has conflicts".to_string());
    match feed(&mut t, vec![RunResult::Success, fail, RunResult::Success, RunResult::Empty], false) {
        TallyStep::Done(Some(m), Err(e)) => {
            assert_eq!(m, "processed 2 item(s), 1 failed");
            assert_eq!(e.code, 2);
            assert_eq!(e.message, "processed 2 item(s), 1 failed");
        }
        _ => panic!("expected a partial failure"),
    }
}

#[test]
fn run_all_stops_on_first_failure_when_asked() {
    let mut t = RunTally::new();
    let fail = RunResult::Failure(1, "merge 2 has conflicts".to_string());
    match feed(&mut t, vec![RunResult::Success, fail, RunResult::Success], true) {
        TallyStep::Stop(Some(m), e) => {
            assert_eq!(m, "processed 1 item(s) before failure");
            assert_eq!(e.code, 1);
            assert_eq!(e.message, "merge 2 has conflicts");
        }
        _ => panic!("expected a stop"),
    }
    assert_eq!(t.merged, 1);
}

#[test]
fn run_all_reports_skipped_items_and_quiet_empty_runs() {
    let mut t = RunTally::new();
    match feed(&mut t, vec![RunResult::Success, RunResult::Skipped, RunResult::Empty], false) {
        TallyStep::Done(Some(m), Ok(())) => assert_eq!(m, "processed 1 item(s), 1 skipped (empty)"),
        _ => panic!("expected a summary"),
    }
    let mut t = RunTally::new();
    assert!(matches!(feed(&mut t, vec![RunResult::Empty], false), TallyStep::Done(None, Ok(()))));
}

#[test]
fn test_clean_no_workspaces() {
    assert!(jjq_workspaces("default: qpvuntsm 1234 (empty)\n").is_empty());
    assert!(jjq_workspaces("").is_empty());
}

#[test]
fn queue_workspaces_are_recognised_by_name() {
    let listing = "default: abc\njjq-run-000002: def\njjq4242: x\njjq: y\nother: z\n";
    assert_eq!(jjq_workspaces(listing), vec!["jjq-run-000002".to_string(), "jjq4242".to_string()]);
    assert!(is_jjq_workspace("jjq-config-12"));
    assert!(!is_jjq_workspace("jjq"));
    assert!(!is_jjq_workspace("main"));
}

#[test]
fn log_filter_is_composed_once() {
    assert_eq!(setup_log_filter(None).as_deref(), Some("~ ::jjq/_/_"));
    assert_eq!(setup_log_filter(Some("mine()".to_string())).as_deref(), Some("(mine()) ~ ::jjq/_/_"));
    assert_eq!(setup_log_filter(Some("x ~ ::jjq/_/_".to_string())), None);
}

#[test]
fn status_records_come_from_descriptions_and_trailers() {
    let q = build_queue_item(1, "kx".to_string(), "c1".to_string(), "will fail check\n\nbody\n");
    assert_eq!(q.description, "will fail check");
    let d = failure_description(1, "check", "kx", "c1", "t0", "/tmp/w", Strategy::Rebase);
    let f = build_failed_item(1, &d, Some("will fail check\n".to_string()));
    assert_eq!(f.candidate_change_id, "kx");
    assert_eq!(f.candidate_commit_id, "c1");
    assert_eq!(f.trunk_commit_id, "t0");
    assert_eq!(f.workspace_path, "/tmp/w");
    assert_eq!(f.failure_reason, "check");
    assert_eq!(f.description, "will fail check");
    assert_eq!(first_line(""), "");
}

#[test]
fn workspace_path_comes_from_the_metadata_file() {
    assert_eq!(lookup_workspace_path(Some(" /tmp/w \n".to_string()), None, 1).as_deref(), Some("/tmp/w"));
    assert_eq!(lookup_workspace_path(Some("  ".to_string()), None, 1), None);
    assert_eq!(lookup_workspace_path(None, None, 1), None);
}

#[test]
fn workspace_path_falls_back_to_the_metadata_history() {
    let history = "Sequence-Id: 3\nWorkspace: /tmp/three\n\n---\nconfig: set strategy\n\n---\nSequence-Id: 2\nWorkspace:  /tmp/two \n\n---\n";
    assert_eq!(lookup_workspace_path(None, Some(history.to_string()), 2).as_deref(), Some("/tmp/two"));
    assert_eq!(lookup_workspace_path(Some("".to_string()), Some(history.to_string()), 3).as_deref(), Some("/tmp/three"));
    assert_eq!(lookup_workspace_path(None, Some(history.to_string()), 4), None);
    assert_eq!(lookup_workspace_path(Some("/tmp/file".to_string()), Some(history.to_string()), 2).as_deref(), Some("/tmp/file"));
}

#[test]
fn test_delete_not_found() {
    let e = not_found_error(999);
    assert_eq!(format!("jjq: {}", e.message), "jjq: item 999 not found in queue or failed");
}

#[test]
fn init_offers_main_then_master_as_trunk() {
    let b = |v: &[&str]| v.iter().map(|s| s.to_string()).collect::<Vec<String>>();
    assert_eq!(jjq::commands::default_trunk(&b(&["dev", "master", "main"])), Some("main"));
    assert_eq!(jjq::commands::default_trunk(&b(&["dev", "master"])), Some("master"));
    assert_eq!(jjq::commands::default_trunk(&b(&["dev"])), None);
}

#[test]
fn log_hint_is_shown_once_on_a_terminal_or_when_forced() {
    let none: Option<String> = None;
    let hidden = Some("~ ::jjq/_/_".to_string());
    assert!(should_show_log_hint(false, true, &none, true, false));
    assert!(should_show_log_hint(true, false, &none, true, false));
    assert!(!should_show_log_hint(false, false, &none, true, false));
    assert!(!should_show_log_hint(true, true, &hidden, true, false));
    assert!(!should_show_log_hint(true, true, &none, true, true));
    assert!(!should_show_log_hint(true, true, &none, false, false));
    assert!(log_filter_hides_metadata(&hidden));
    assert!(!log_filter_hides_metadata(&Some("mine()".to_string())));
}

#[test]
fn doctor_summarises_failures_and_warnings() {
    assert_eq!(doctor_summary(0, 0), "all checks passed");
    assert_eq!(doctor_summary(2, 0), "2 failure(s)");
    assert_eq!(doctor_summary(0, 1), "1 warning(s)");
    assert_eq!(doctor_summary(1, 3), "1 failure(s), 3 warning(s)");
}

#[test]
fn items_are_found_by_candidate_change_id() {
    let d = failure_description(5, "check", "kfail", "c5", "t0", "/tmp/w5", Strategy::Merge);
    let queued = vec![(1, Some("ka".to_string())), (2, None), (3, Some("kb".to_string()))];
    let failed = vec![(6, None), (5, Some(d))];
    assert_eq!(find_by_change_id("kb", &queued, &failed), Some((3, true)));
    assert_eq!(find_by_change_id("kfail", &queued, &failed), Some((5, false)));
    assert_eq!(find_by_change_id("kz", &queued, &failed), None);
}

#[test]
fn config_values_show_their_defaults() {
    assert_eq!(config_display_value("trunk_bookmark", None).ok().as_deref(), Some("main"));
    assert_eq!(config_display_value("check_command", None).ok().as_deref(), Some(""));
    assert_eq!(config_display_value("check_command", Some("make".to_string())).ok().as_deref(), Some("make"));
    assert_eq!(config_display_value("strategy", None).ok().as_deref(), Some("merge"));
    assert_eq!(config_display_value("strategy", Some("rebase".to_string())).ok().as_deref(), Some("rebase"));
    assert!(config_display_value("strategy", Some("x".to_string())).is_err());
    assert_eq!(config_display_value("nope", None).err().unwrap().code, 10);
}

#[test]
fn follow_prints_new_lines_and_stops_at_the_sentinel() {
    let step = follow_step(10, 30, "a\nb\n", true);
    assert_eq!(step.lines, vec!["a".to_string(), "b".to_string()]);
    assert!(!step.stop);
    assert_eq!(step.offset, 30);
    let step = follow_step(10, 60, &format!("c\n{}\nd\n", sentinel_line(0)), true);
    assert_eq!(step.lines, vec!["c".to_string()]);
    assert!(step.stop);
    let step = follow_step(30, 30, "", false);
    assert!(step.stop && step.lines.is_empty());
    let step = follow_step(30, 30, "", true);
    assert!(!step.stop);
    let step = follow_step(50, 5, "new\n", true);
    assert_eq!(step.lines, vec!["new".to_string()]);
    assert_eq!(step.offset, 5);
}

#[test]
fn run_all_ends_when_an_item_cannot_be_taken_up() {
    let mut t = RunTally::new();
    match t.record(&RunResult::Blocked(1, "run lock unavailable".to_string()), false) {
        TallyStep::Stop(None, e) => {
            assert_eq!(e.code, 1);
            assert_eq!(e.message, "run lock unavailable");
        }
        _ => panic!("expected run --all to stop"),
    }
}
