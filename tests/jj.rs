use jjq::jj::{
    bookmark_exists, bookmark_list_glob, bookmark_list_glob_args, bookmark_move, config_get,
    duplicate_onto, duplicate_onto_args, exact_bookmark, has_conflicts, new_rev, new_rev_args,
    repo_root, resolve_revset, resolve_revset_full, run_quiet, supports_allow_protected,
    trees_match, verify_repo, workspace_add, workspace_forget, ForgetStep, JjError, JjOutput,
};

fn out(success: bool, stdout: &str, stderr: &str) -> JjOutput {
    JjOutput { args: Vec::new(), success, stdout: stdout.to_string(), stderr: stderr.to_string() }
}

fn strs(v: &[&str]) -> Vec<String> {
    v.iter().map(|s| s.to_string()).collect()
}

#[test]
fn arguments_disable_colour_and_follow_each_operation() {
    assert_eq!(
        bookmark_list_glob_args("jjq/queue/??????"),
        strs(&["--color=never", "bookmark", "list", "-r", "bookmarks(glob:\"jjq/queue/??????\")", "-T", "name ++ \"\\n\""])
    );
    assert_eq!(exact_bookmark("main"), "bookmarks(exact:main)");
    assert_eq!(
        bookmark_move("main", "abc", "@", true),
        strs(&["--color=never", "bookmark", "move", "--allow-protected", "--from", "abc", "--to", "@", "main"])
    );
    assert_eq!(
        bookmark_move("main", "abc", "@", false),
        strs(&["--color=never", "bookmark", "move", "--from", "abc", "--to", "@", "main"])
    );
    assert_eq!(
        new_rev_args(&strs(&["main", "f1"])),
        strs(&["--color=never", "new", "--no-edit", "-r", "main", "-r", "f1"])
    );
    assert_eq!(
        workspace_add("/tmp/w", "jjq-run-000001", &strs(&["a", "b"])),
        strs(&["--color=never", "workspace", "add", "-r", "a", "-r", "b", "--name", "jjq-run-000001", "/tmp/w"])
    );
    assert_eq!(
        duplicate_onto_args("q", "t"),
        strs(&["--color=never", "duplicate", "t..q", "--onto", "t"])
    );
}

#[test]
fn resolve_requires_exactly_one_revision() {
    assert_eq!(resolve_revset("r", &out(true, "kxyz\n", "")).ok(), Some("kxyz".to_string()));
    assert!(matches!(resolve_revset("r", &out(true, "  \n", "")), Err(JjError::NotFound(_))));
    assert!(matches!(resolve_revset("r", &out(false, "", "boom")), Err(JjError::NotFound(_))));
    assert!(matches!(resolve_revset("r", &out(true, "a\nb\n", "")), Err(JjError::Ambiguous(_))));
    let e = resolve_revset("all()", &out(true, "a\nb", "")).err().unwrap();
    assert_eq!(e.message(), "revset 'all()' resolves to multiple revisions");
    let full = resolve_revset_full("r", &out(true, "kxyz 0123abcd\n", "")).ok().unwrap();
    assert_eq!(full, ("kxyz".to_string(), "0123abcd".to_string()));
    assert_eq!(
        resolve_revset_full("r", &out(true, "kxyz\n", "")).err().unwrap().message(),
        "unexpected output format from jj log"
    );
}

#[test]
fn announcements_of_new_and_duplicated_commits_are_read() {
    let o = out(true, "", "Working copy now at: x\nCreated new commit xopxuxzw 1234abcd (empty) (no description set)\n");
    assert_eq!(new_rev(&o).ok(), Some("xopxuxzw".to_string()));
    assert!(matches!(new_rev(&out(true, "", "nothing here\n")), Err(JjError::Protocol(_))));
    let mut failed = out(false, "", " failed \n");
    failed.args = strs(&["--color=never", "new", "--no-edit", "-r", "main"]);
    assert!(matches!(new_rev(&failed), Err(JjError::Tool(ref s)) if s == "jj new --no-edit -r main failed: failed"));
    assert_eq!(
        new_rev(&out(true, "", "nothing here\n")).err().unwrap().message(),
        "failed to parse change ID from jj new output: nothing here\n"
    );
    let d = out(true, "", "Duplicated 1111 as aaaa 2222 one\nDuplicated 3333 as bbbb 4444 two\n");
    assert_eq!(duplicate_onto(&d).ok(), Some(strs(&["aaaa", "bbbb"])));
    assert_eq!(duplicate_onto(&out(true, "", "Nothing changed.\n")).ok(), Some(Vec::new()));
}

#[test]
fn simple_queries_read_their_output() {
    assert_eq!(config_get(&out(true, " ~ ::x \n", "")), Some("~ ::x".to_string()));
    assert_eq!(config_get(&out(false, "", "not set")), None);
    assert!(verify_repo(&out(true, "/r\n", "")).is_ok());
    assert_eq!(verify_repo(&out(false, "", "")).err().unwrap().message(), "not in a jj repository");
    assert_eq!(repo_root(&out(true, "/repo\n", "")).ok(), Some("/repo".to_string()));
    assert_eq!(bookmark_exists(&out(true, "main\n", "")).ok(), Some(true));
    assert_eq!(bookmark_exists(&out(true, "\n", "")).ok(), Some(false));
    assert_eq!(has_conflicts(&out(true, "yes", "")).ok(), Some(true));
    assert_eq!(has_conflicts(&out(true, "", "")).ok(), Some(false));
    assert_eq!(trees_match(&out(true, "", "")).ok(), Some(true));
    assert_eq!(trees_match(&out(true, "M f.txt\n", "")).ok(), Some(false));
    assert_eq!(
        bookmark_list_glob(&out(true, "jjq/queue/000001\n\njjq/queue/000002\n", "")).ok(),
        Some(strs(&["jjq/queue/000001", "jjq/queue/000002"]))
    );
    assert!(supports_allow_protected(&out(true, "  --allow-protected  Allow...", "")));
    assert!(!supports_allow_protected(&out(true, "--from", "")));
    assert!(run_quiet(&out(true, "", "")).is_ok());
}

#[test]
fn forgetting_a_stale_workspace_updates_it_first() {
    assert!(matches!(workspace_forget(&out(true, "", "")), ForgetStep::Done));
    assert!(matches!(
        workspace_forget(&out(false, "", "Error: The working copy is stale")),
        ForgetStep::UpdateStaleThenRetry
    ));
    let mut missing = out(false, "", "No such workspace\n");
    missing.args = strs(&["--color=never", "workspace", "forget", "jjq-run-000001"]);
    assert!(matches!(
        workspace_forget(&missing),
        ForgetStep::Failed(JjError::Tool(ref s)) if s == "jj workspace forget jjq-run-000001 failed: No such workspace"
    ));
}

#[test]
fn a_failed_invocation_names_its_arguments() {
    let mut o = out(false, "", "  Error: no such revision\n");
    o.args = strs(&["--color=never", "log", "-r", "x"]);
    assert_eq!(jjq::jj::run_ok(&o).err().unwrap().message(), "jj log -r x failed: Error: no such revision");
    o.args = strs(&["root"]);
    assert_eq!(run_quiet(&o).err().unwrap().message(), "jj root failed: Error: no such revision");
}
