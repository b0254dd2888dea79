use jjq::config::Strategy;
use jjq::jj::JjOutput;
use jjq::push::{push, PushAction, PushEvent, PushItem};
use jjq::trailers::failure_description;

fn ok(stdout: &str) -> PushEvent {
    PushEvent::Jj(JjOutput { args: Vec::new(), success: true, stdout: stdout.to_string(), stderr: String::new() })
}

fn ok_err(stderr: &str) -> PushEvent {
    PushEvent::Jj(JjOutput { args: Vec::new(), success: true, stdout: String::new(), stderr: stderr.to_string() })
}

fn strs(v: &[&str]) -> Vec<String> {
    v.iter().map(|s| s.to_string()).collect()
}

fn jj(a: PushAction) -> Vec<String> {
    match a {
        PushAction::Jj(v) => v,
        _ => panic!("expected a jj invocation"),
    }
}

/// Resolves `fb` to (kfb, c2) with trunk `main`, then reads the queue listing.
fn through_queue(p: &mut PushItem, queue: &str) -> PushAction {
    assert_eq!(
        jj(p.step(PushEvent::Begin)),
        strs(&["--color=never", "log", "-r", "fb", "--no-graph", "-T", "change_id.short() ++ \" \" ++ commit_id"])
    );
    assert!(matches!(p.step(ok("kfb c2\n")), PushAction::ReadTrunk));
    assert_eq!(
        jj(p.step(PushEvent::Trunk(None))),
        strs(&["--color=never", "bookmark", "list", "-r", "bookmarks(exact:main)", "-T", "name"])
    );
    let _ = jj(p.step(ok("main\n")));
    p.step(ok(queue))
}

/// From the failed-bookmark listing (given as `failed_list`) through the
/// probe and the initialisation check, up to the request for an ID.
fn through_probe(p: &mut PushItem, failed_list: &str, failed_descriptions: &[String]) {
    let mut a = p.step(ok(failed_list));
    for d in failed_descriptions {
        let _ = jj(a);
        a = p.step(ok(d));
    }
    assert_eq!(jj(a), strs(&["--color=never", "new", "--no-edit", "-r", "main", "-r", "fb"]));
    assert_eq!(
        jj(p.step(ok_err("Created new commit probe123 abcd (empty)\n"))),
        strs(&["--color=never", "log", "-r", "probe123", "--no-graph", "-T", "if(conflict, \"yes\")"])
    );
    assert_eq!(jj(p.step(ok(""))), strs(&["--color=never", "abandon", "probe123"]));
    assert!(matches!(p.step(ok("")), PushAction::CheckInitialized));
    assert!(matches!(p.step(PushEvent::Initialized(true)), PushAction::AllocateId));
}

#[test]
fn re_push_after_failure_clears_the_failed_entry() {
    let mut p = push("fb");
    let _ = jj(through_queue(&mut p, ""));
    let d = failure_description(1, "check", "kfb", "c1", "t0", "/tmp/w", Strategy::Rebase);
    through_probe(&mut p, "jjq/failed/000001\n", &[format!("{}\n", d)]);
    assert!(!p.deleted);
    match p.step(PushEvent::Allocated(2)) {
        PushAction::Delete { commands, ids, failed } => assert!(commands.is_empty() && ids.is_empty() && !failed),
        _ => panic!("expected the queue side"),
    }
    match p.step(PushEvent::Deleted(Ok(()))) {
        PushAction::Delete { commands, ids, failed } => {
            assert!(failed);
            assert_eq!(ids, vec![1]);
            assert_eq!(commands[0].args, strs(&["--color=never", "bookmark", "delete", "jjq/failed/000001"]));
        }
        _ => panic!("expected the failed entry to be cleared"),
    }
    assert_eq!(
        jj(p.step(PushEvent::Deleted(Ok(())))),
        strs(&["--color=never", "bookmark", "create", "-r", "fb", "jjq/queue/000002"])
    );
    assert!(matches!(p.step(ok("")), PushAction::Finish(Ok(2))));
}

#[test]
fn pushing_a_queued_commit_again_is_refused_without_changes() {
    let mut p = push("fb");
    let _ = through_queue(&mut p, "jjq/queue/000001\n");
    match p.step(ok("kfb c2\n")) {
        PushAction::Finish(Err(e)) => {
            assert_eq!(e.code, 10);
            assert_eq!(e.message, "revision already queued");
        }
        _ => panic!("expected a refusal"),
    }
    assert_eq!(p.id, 1);
    assert!(!p.mutated && !p.deleted);
}

#[test]
fn a_newer_commit_of_a_queued_change_replaces_it() {
    let mut p = push("fb");
    let _ = through_queue(&mut p, "jjq/queue/000001\njjq/queue/000002\n");
    let _ = jj(p.step(ok("kfb c1\n")));
    let _ = jj(p.step(ok("kother c9\n")));
    through_probe(&mut p, "", &[]);
    match p.step(PushEvent::Allocated(3)) {
        PushAction::Delete { commands, ids, failed } => {
            assert!(!failed);
            assert_eq!(ids, vec![1]);
            assert_eq!(commands[0].args, strs(&["--color=never", "bookmark", "delete", "jjq/queue/000001"]));
        }
        _ => panic!("expected the stale entry to be replaced"),
    }
}

#[test]
fn a_failing_push_keeps_the_entries_it_would_replace() {
    let mut p = push("fb");
    let _ = through_queue(&mut p, "jjq/queue/000001\n");
    let _ = jj(p.step(ok("kfb c1\n")));
    let _ = jj(p.step(ok("")));
    let _ = jj(p.step(ok_err("Created new commit probe9 abcd\n")));
    let _ = jj(p.step(ok("yes")));
    assert!(matches!(p.step(ok("")), PushAction::Finish(Err(_))));
    assert!(!p.deleted);
    assert_eq!(p.replace, vec![1]);
}

#[test]
fn the_probe_is_abandoned_even_when_the_conflict_query_fails() {
    let mut p = push("fb");
    let _ = jj(through_queue(&mut p, ""));
    let _ = jj(p.step(ok("")));
    let _ = jj(p.step(ok_err("Created new commit probe9 abcd\n")));
    let failed = PushEvent::Jj(JjOutput { args: Vec::new(), success: false, stdout: String::new(), stderr: "boom".to_string() });
    assert_eq!(jj(p.step(failed)), strs(&["--color=never", "abandon", "probe9"]));
    assert!(matches!(p.step(ok("")), PushAction::Finish(Err(_))));
}

#[test]
fn a_conflicting_revision_is_refused() {
    let mut p = push("fb");
    let _ = jj(through_queue(&mut p, ""));
    let _ = jj(p.step(ok("")));
    let _ = jj(p.step(ok_err("Created new commit probe9 abcd\n")));
    let _ = jj(p.step(ok("yes")));
    match p.step(ok("")) {
        PushAction::Finish(Err(e)) => {
            assert_eq!(e.code, 1);
            assert_eq!(e.message, "revision conflicts with trunk");
        }
        _ => panic!("expected a conflict"),
    }
}

#[test]
fn a_missing_trunk_is_a_usage_error() {
    let mut p = push("fb");
    let _ = p.step(PushEvent::Begin);
    let _ = p.step(ok("kfb c2\n"));
    let _ = p.step(PushEvent::Trunk(Some("trunk".to_string())));
    match p.step(ok("")) {
        PushAction::Finish(Err(e)) => {
            assert_eq!(e.code, 10);
            assert_eq!(e.message, "trunk bookmark 'trunk' not found");
        }
        _ => panic!("expected a usage error"),
    }
}

#[test]
fn pushing_before_init_is_refused() {
    let mut p = push("fb");
    let _ = jj(through_queue(&mut p, ""));
    let _ = jj(p.step(ok("")));
    let _ = jj(p.step(ok_err("Created new commit probe9 abcd\n")));
    let _ = jj(p.step(ok("")));
    let _ = p.step(ok(""));
    match p.step(PushEvent::Initialized(false)) {
        PushAction::Finish(Err(e)) => assert_eq!(e.message, "jjq is not initialized. Run 'jjq init' first."),
        _ => panic!("expected the initialisation error"),
    }
    assert!(!p.deleted);
}
