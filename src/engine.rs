//! The run engine: how one queue item is taken from the queue to trunk or to
//! the failed list. It is a state machine: each call of [`RunItem::step`] takes
//! what the last action produced and says what to do next; the caller performs
//! the action (runs `jj`, takes the lock, runs the check) and reports back.
use vstd::prelude::*;
use crate::config::{get_strategy, get_trunk_bookmark, Strategy};
use crate::exit_codes::{ExitError, CONFLICT};
use crate::jj::{
    single_result, space_index, Single,
    abandon, bookmark_create, bookmark_delete, bookmark_list_glob, bookmark_list_glob_args,
    bookmark_move, describe, duplicate_onto, duplicate_onto_args, edit, exact_bookmark,
    exact_revset, get_commit_id, get_commit_id_args, get_description, has_conflicts,
    has_conflicts_args, rebase_branch_onto, resolve_revset, resolve_revset_args,
    resolve_revset_full, resolve_revset_full_args, run_ok, trees_match, trees_match_args,
    workspace_add, JjError, JjOutput,
};
use crate::queue::{
    failed_bookmark, failed_prefix, format_seq_id, matched_ids, next_item, queue_bookmark,
    queue_prefix, seq_id_text,
};
use crate::text::{push_decimal, push_str, string_of, string_views, trim_str, dec, chars_of, chars_equal, trimmed};
use crate::trailers::{failure_description, failure_text};

verus! {

/// One `jj` invocation of a batch; a failure of one that must succeed ends the batch.
pub struct Command {
    pub args: Vec<String>,
    pub must_succeed: bool,
}

/// How the processing of one item ended.
pub enum RunResult {
    Success,
    Empty,
    Skipped,
    Failure(i32, String),
    /// The item was not taken up: the run lock is held elsewhere, or no check
    /// command is configured. Nothing was changed. `run` reports it as a
    /// failure with this code and message; `run --all` stops on it, since every
    /// further attempt would meet the same.
    Blocked(i32, String),
}

/// What the caller does next.
pub enum Action {
    /// Run `jj` with these arguments and report its output.
    Jj(Vec<String>),
    /// Read `trunk_bookmark`, `check_command` and `strategy` under the config lock.
    ReadConfig,
    /// Try, without blocking, to take the `run` lock.
    TryRunLock,
    /// Create a fresh temporary directory for the run workspace.
    CreateWorkspaceDir,
    /// Record the workspace path of item `id` on the metadata branch, then change
    /// into the workspace directory.
    RecordAndEnter { id: u32, path: String },
    /// Run the check command in the current directory and report whether it exited 0.
    RunCheck { command: String },
    /// Print the run log, without its sentinel lines, to standard error.
    ShowFailedLog,
    /// Change back to the original directory.
    LeaveWorkspace,
    /// Run these invocations in order and report the first failure of one that
    /// must succeed.
    Batch(Vec<Command>),
    /// Change back to the original directory, forget the workspace if one is
    /// named, keep the workspace directory when asked, release the run lock, and
    /// return the result.
    Finish { result: Result<RunResult, ExitError>, forget: Option<String>, keep_dir: bool },
}

/// What the last action produced.
pub enum Event {
    Begin,
    Jj(JjOutput),
    Config { trunk: Option<String>, check: Option<String>, strategy: Option<String> },
    Lock(bool),
    WorkspaceDir(String),
    CheckExit(bool),
    Done,
    BatchDone(Result<(), JjError>),
}

#[derive(Clone, Copy, PartialEq, Eq, Structural, Debug)]
pub enum Phase {
    Start,
    AwaitQueue,
    AwaitConfig,
    AwaitLock,
    AwaitTrunkId,
    AwaitCandidate,
    AwaitDescription,
    AwaitDir,
    AwaitDuplicates,
    AwaitWorkspaceAdded,
    AwaitEntered,
    AwaitParent,
    AwaitEdit,
    AwaitConflicts,
    AwaitMarkFailed,
    AwaitTrees,
    AwaitEmptyCleanup,
    AwaitWip,
    AwaitCheck,
    AwaitLogShown,
    AwaitRecheck,
    AwaitTrunkMovedCleanup,
    AwaitLanded,
    AwaitMergeBatch,
    AwaitLeftForRebase,
    AwaitRebaseBatch,
    Finished,
}

/// The processing of one queue item.
pub struct RunItem {
    pub phase: Phase,
    /// Whether `jj bookmark move` takes `--allow-protected`.
    pub allow_protected: bool,
    pub id: u32,
    pub trunk: String,
    pub check_command: String,
    pub strategy: Strategy,
    pub trunk_commit_id: String,
    pub candidate_change_id: String,
    pub candidate_commit_id: String,
    pub candidate_description: String,
    pub workspace_path: String,
    pub duplicates: Vec<String>,
    pub failure_reason: String,
    /// The change ID that trunk was moved to.
    pub landed: String,
    /// Some command that changes the repository has been issued.
    pub mutated: bool,
    /// The deletion of the queue bookmark has been issued.
    pub queue_deleted: bool,
    /// Trunk was seen to move while the check ran.
    pub trunk_moved: bool,
}

pub open spec fn command_view(c: Command) -> (Seq<Seq<char>>, bool) {
    (string_views(c.args@), c.must_succeed)
}

pub open spec fn batch_view(cs: Seq<Command>) -> Seq<(Seq<Seq<char>>, bool)> {
    cs.map_values(|c: Command| command_view(c))
}

pub open spec fn queue_name(id: u32) -> Seq<char> {
    queue_prefix() + seq_id_text(id as nat)
}

pub open spec fn failed_name(id: u32) -> Seq<char> {
    failed_prefix() + seq_id_text(id as nat)
}

/// The name of the run workspace of item `id`: `jjq-run-NNNNNN`.
pub open spec fn run_name(id: u32) -> Seq<char> {
    "jjq-run-"@ + seq_id_text(id as nat)
}

/// The workspace's head revision: `jjq-run-NNNNNN@`.
pub open spec fn run_head(id: u32) -> Seq<char> {
    run_name(id) + "@"@
}

/// The workspace of a merge: a new commit whose parents are trunk and the
/// candidate.
pub open spec fn merge_workspace_args(m: RunItem, path: Seq<char>) -> Seq<Seq<char>> {
    seq!["--color=never"@, "workspace"@, "add"@] + crate::jj::parent_flags(
        seq![exact_revset(m.trunk@), exact_revset(queue_name(m.id))],
    ) + seq!["--name"@, run_name(m.id), path]
}

/// The duplication of the candidate's chain onto trunk, for a rebase.
pub open spec fn duplicate_args(m: RunItem) -> Seq<Seq<char>> {
    seq![
        "--color=never"@,
        "duplicate"@,
        exact_revset(m.trunk@) + ".."@ + exact_revset(queue_name(m.id)),
        "--onto"@,
        exact_revset(m.trunk@),
    ]
}

/// The strategy a configured value names (merge when none is set).
pub open spec fn strategy_of(v: Option<String>) -> Option<Strategy> {
    match v {
        None => Some(Strategy::Merge),
        Some(s) => if s@ == "merge"@ {
            Some(Strategy::Merge)
        } else if s@ == "rebase"@ {
            Some(Strategy::Rebase)
        } else {
            None
        },
    }
}

/// The query for the change and commit IDs of the queued candidate.
pub open spec fn candidate_query(m: RunItem) -> Seq<Seq<char>> {
    seq![
        "--color=never"@,
        "log"@,
        "-r"@,
        exact_revset(queue_name(m.id)),
        "--no-graph"@,
        "-T"@,
        "change_id.short() ++ \" \" ++ commit_id"@,
    ]
}

/// The query for the queued candidate's description.
pub open spec fn description_query(m: RunItem) -> Seq<Seq<char>> {
    seq![
        "--color=never"@,
        "log"@,
        "-r"@,
        exact_revset(queue_name(m.id)),
        "--no-graph"@,
        "-T"@,
        "description"@,
    ]
}

/// The workspace of a rebase: its head is a new commit on the tip duplicate.
pub open spec fn rebase_workspace_args(m: RunItem, tip: Seq<char>) -> Seq<Seq<char>> {
    seq!["--color=never"@, "workspace"@, "add"@] + crate::jj::parent_flags(seq![tip]) + seq![
        "--name"@,
        run_name(m.id),
        m.workspace_path@,
    ]
}

/// The conflict query of the workspace head.
pub open spec fn conflicts_query(id: u32) -> Seq<Seq<char>> {
    seq![
        "--color=never"@,
        "log"@,
        "-r"@,
        run_head(id),
        "--no-graph"@,
        "-T"@,
        "if(conflict, \"yes\")"@,
    ]
}

/// The query for the change ID of the workspace head's parent (the tip duplicate).
pub open spec fn parent_query(id: u32) -> Seq<Seq<char>> {
    seq![
        "--color=never"@,
        "log"@,
        "-r"@,
        run_name(id) + "@-"@,
        "--no-graph"@,
        "-T"@,
        "change_id.short()"@,
    ]
}

/// The comparison of trunk's tree with the workspace head's.
pub open spec fn trees_query(m: RunItem) -> Seq<Seq<char>> {
    seq![
        "--color=never"@,
        "diff"@,
        "--from"@,
        exact_revset(m.trunk@),
        "--to"@,
        run_head(m.id),
        "--summary"@,
    ]
}

/// The description of the workspace head while its check runs.
pub open spec fn wip_view(id: u32) -> Seq<Seq<char>> {
    seq!["--color=never"@, "desc"@, "-r"@, run_head(id), "-m"@, "WIP: attempting merge "@ + dec(id as nat)]
}

/// The query for the commit that trunk points at.
pub open spec fn trunk_commit_args(m: RunItem) -> Seq<Seq<char>> {
    seq!["--color=never"@, "log"@, "-r"@, exact_revset(m.trunk@), "--no-graph"@, "-T"@, "commit_id"@]
}

pub open spec fn delete_args(name: Seq<char>) -> Seq<Seq<char>> {
    seq!["--color=never"@, "bookmark"@, "delete"@, name]
}

pub open spec fn move_args(name: Seq<char>, from: Seq<char>, to: Seq<char>, allow: bool) -> Seq<
    Seq<char>,
> {
    seq!["--color=never"@, "bookmark"@, "move"@] + (if allow {
        seq!["--allow-protected"@]
    } else {
        seq![]
    }) + seq!["--from"@, from, "--to"@, to, name]
}

pub open spec fn is_queue_delete(c: (Seq<Seq<char>>, bool), id: u32) -> bool {
    c.0 == delete_args(queue_name(id))
}

pub open spec fn is_bookmark_move(c: (Seq<Seq<char>>, bool)) -> bool {
    c.0.len() >= 3 && c.0[1] == "bookmark"@ && c.0[2] == "move"@
}

/// The commands that mark item `id` failed: delete its queue bookmark, create its
/// failed bookmark at the workspace head, and describe that head with the
/// failure trailers.
pub open spec fn mark_failed_view(id: u32, description: Seq<char>) -> Seq<(Seq<Seq<char>>, bool)> {
    seq![
        (delete_args(queue_name(id)), true),
        (seq!["--color=never"@, "bookmark"@, "create"@, "-r"@, run_head(id), failed_name(id)], true),
        (seq!["--color=never"@, "desc"@, "-r"@, run_head(id), "-m"@, description], true),
    ]
}

/// What the failure description of this item says for the given reason.
pub open spec fn failure_of(m: RunItem, reason: Seq<char>) -> Seq<char> {
    failure_text(
        m.id as nat,
        reason,
        m.candidate_change_id@,
        m.candidate_commit_id@,
        m.trunk_commit_id@,
        m.workspace_path@,
        m.strategy,
    )
}

/// The commands that land a merge: move trunk from the commit seen at dequeue to
/// the workspace head, then delete the queue bookmark, then describe the landed
/// commit.
pub open spec fn merge_land_view(m: RunItem) -> Seq<(Seq<Seq<char>>, bool)> {
    seq![
        (move_args(m.trunk@, m.trunk_commit_id@, "@"@, m.allow_protected), true),
        (delete_args(queue_name(m.id)), true),
        (seq!["--color=never"@, "desc"@, "-r"@, "@"@, "-m"@, "Success: merge "@ + dec(m.id as nat)], true),
    ]
}

pub open spec fn abandon_views(ids: Seq<String>, must: bool) -> Seq<(Seq<Seq<char>>, bool)> {
    ids.map_values(|d: String| (seq!["--color=never"@, "abandon"@, d@], must))
}

/// The description of a commit landed by rebase: its own, trimmed, then the
/// sequence and strategy trailers.
pub open spec fn landed_description(original: Seq<char>, id: u32) -> Seq<char> {
    trimmed(original) + "\n\njjq-sequence: "@ + seq_id_text(id as nat) + "\njjq-strategy: rebase"@
}

/// The commands that land by rebase: rebase the original candidate onto trunk,
/// move trunk from the commit seen at dequeue to it, delete the queue bookmark,
/// describe it, and abandon the tested duplicates.
pub open spec fn rebase_land_view(m: RunItem) -> Seq<(Seq<Seq<char>>, bool)> {
    seq![
        (seq!["--color=never"@, "rebase"@, "-b"@, m.candidate_change_id@, "-d"@, exact_revset(m.trunk@)], true),
        (move_args(m.trunk@, m.trunk_commit_id@, m.candidate_change_id@, m.allow_protected), true),
        (delete_args(queue_name(m.id)), true),
        (seq!["--color=never"@, "desc"@, "-r"@, m.candidate_change_id@, "-m"@, landed_description(m.candidate_description@, m.id)], true),
    ] + abandon_views(m.duplicates@, true)
}

fn owned_str(s: &str) -> (r: String)
    ensures
        r@ == s@,
{
    crate::text::owned(s)
}

/// The sequence IDs that a listing of queue bookmarks names.
pub open spec fn listed_queue_ids(stdout: Seq<char>) -> Seq<u32> {
    matched_ids(crate::jj::nonempty_lines(crate::text::lines_of(stdout)), queue_prefix())
}

/// The run takes the lowest queued ID, or ends with `Empty` when none is queued.
pub open spec fn fifo_choice(stdout: Seq<char>, m: RunItem, r: Action) -> bool {
    let ids = listed_queue_ids(stdout);
    if ids.len() == 0 {
        r matches Action::Finish { result: Ok(RunResult::Empty), .. }
    } else {
        &&& r is ReadConfig
        &&& ids.contains(m.id)
        &&& forall|i: int| 0 <= i < ids.len() ==> m.id <= #[trigger] ids[i]
    }
}

pub open spec fn failure_result(r: Action, msg: Seq<char>) -> bool {
    r matches Action::Finish { result: Ok(RunResult::Failure(code, s)), .. } && code == CONFLICT
        && s@ == msg
}

/// What the candidate query yields: its change and commit IDs are recorded.
pub open spec fn candidate_read(success: bool, stdout: Seq<char>, m: RunItem, r: Action) -> bool {
    match single_result(success, stdout) {
        Single::Found(t) => space_index(t) < t.len() ==> m.candidate_change_id@ == t.take(
            space_index(t) as int,
        ) && m.candidate_commit_id@ == t.skip(space_index(t) as int + 1) && m.phase
            == Phase::AwaitDescription,
        _ => true,
    }
}

/// An empty candidate ends `Skipped`; its workspace, when one was made, is forgotten.
pub open spec fn skipped_result(m: RunItem, r: Action) -> bool {
    &&& r matches Action::Finish { result: Ok(RunResult::Skipped), keep_dir: false, .. }
    &&& (m.strategy == Strategy::Rebase && m.duplicates.len() == 0) ==> (r matches Action::Finish {
        forget: None,
        ..
    })
    &&& !(m.strategy == Strategy::Rebase && m.duplicates.len() == 0) ==> (r matches Action::Finish {
        forget: Some(n),
        ..
    } && n@ == run_name(m.id))
}

/// With trunk where it was, a merge asks which commit the workspace head is
/// and a rebase first leaves the workspace.
pub open spec fn unchanged_trunk_next(old: RunItem, new: RunItem, r: Action) -> bool {
    match old.strategy {
        Strategy::Merge => new.phase == Phase::AwaitLanded && (r matches Action::Jj(args)
            && string_views(args@) == seq![
            "--color=never"@,
            "log"@,
            "-r"@,
            "@"@,
            "--no-graph"@,
            "-T"@,
            "change_id.short()"@,
        ]),
        Strategy::Rebase => new.phase == Phase::AwaitLeftForRebase && r is LeaveWorkspace,
    }
}

/// The run ends without taking the item up, with nothing to clean.
pub open spec fn blocked_result(r: Action, msg: Seq<char>) -> bool {
    r matches Action::Finish { result: Ok(RunResult::Blocked(code, s)), forget: None, keep_dir: false }
        && code == CONFLICT && s@ == msg
}

/// The data a run gathers, each piece in its own phase.
pub open spec fn same_data(a: RunItem, b: RunItem) -> bool {
    &&& a.id == b.id
    &&& a.allow_protected == b.allow_protected
    &&& a.trunk == b.trunk
    &&& a.check_command == b.check_command
    &&& a.strategy == b.strategy
    &&& a.trunk_commit_id == b.trunk_commit_id
    &&& a.candidate_change_id == b.candidate_change_id
    &&& a.candidate_commit_id == b.candidate_commit_id
    &&& a.candidate_description == b.candidate_description
    &&& a.workspace_path == b.workspace_path
    &&& a.duplicates == b.duplicates
}

impl RunItem {
    /// Phases reached before the run lock is held.
    pub open spec fn before_lock(self) -> bool {
        self.phase == Phase::Start || self.phase == Phase::AwaitQueue || self.phase
            == Phase::AwaitConfig || self.phase == Phase::AwaitLock
    }

    /// Phases in which the queue bookmark is still in place.
    pub open spec fn queue_in_place(self) -> bool {
        !(self.phase == Phase::AwaitMarkFailed || self.phase == Phase::AwaitEmptyCleanup
            || self.phase == Phase::AwaitMergeBatch || self.phase == Phase::AwaitRebaseBatch
            || self.phase == Phase::AwaitTrunkMovedCleanup || self.phase == Phase::Finished)
    }

    /// Nothing is changed before the run lock is held, and a run that saw trunk
    /// move never deletes the queue bookmark.
    pub open spec fn wf(self) -> bool {
        &&& self.before_lock() ==> !self.mutated
        &&& self.queue_in_place() ==> !self.queue_deleted
        &&& self.trunk_moved ==> !self.queue_deleted
        &&& self.trunk_moved ==> (self.phase == Phase::AwaitTrunkMovedCleanup || self.phase
            == Phase::Finished)
    }

    /// A machine about to process the next queue item.
    pub fn new(allow_protected: bool) -> (r: RunItem)
        ensures
            r.phase == Phase::Start,
            r.allow_protected == allow_protected,
            !r.mutated && !r.queue_deleted && !r.trunk_moved,
            r.wf(),
    {
        RunItem {
            phase: Phase::Start,
            allow_protected,
            id: 0,
            trunk: String::new(),
            check_command: String::new(),
            strategy: Strategy::Merge,
            trunk_commit_id: String::new(),
            candidate_change_id: String::new(),
            candidate_commit_id: String::new(),
            candidate_description: String::new(),
            workspace_path: String::new(),
            duplicates: Vec::new(),
            failure_reason: String::new(),
            landed: String::new(),
            mutated: false,
            queue_deleted: false,
            trunk_moved: false,
        }
    }

    fn fail(&mut self, e: JjError) -> (r: Action)
        requires
            old(self).wf(),
            !old(self).before_lock(),
        ensures
            final(self).phase == Phase::Finished,
            final(self).mutated == old(self).mutated,
            final(self).queue_deleted == old(self).queue_deleted,
            final(self).trunk_moved == old(self).trunk_moved,
            final(self).id == old(self).id,
            same_data(*final(self), *old(self)),
            final(self).wf(),
            r matches Action::Finish { result: Err(_), forget: None, keep_dir: false },
    {
        self.phase = Phase::Finished;
        let m = e.message();
        Action::Finish { result: Err(ExitError::new(CONFLICT, m)), forget: None, keep_dir: false }
    }

    fn finish_before_lock(&mut self, result: Result<RunResult, ExitError>) -> (r: Action)
        requires
            old(self).wf(),
            old(self).before_lock(),
        ensures
            final(self).phase == Phase::Finished,
            !final(self).mutated,
            final(self).queue_deleted == old(self).queue_deleted,
            final(self).trunk_moved == old(self).trunk_moved,
            final(self).id == old(self).id,
            same_data(*final(self), *old(self)),
            final(self).wf(),
            r == (Action::Finish { result, forget: None, keep_dir: false }),
    {
        self.phase = Phase::Finished;
        Action::Finish { result, forget: None, keep_dir: false }
    }

    fn unexpected(&mut self) -> (r: Action)
        requires
            old(self).wf(),
        ensures
            final(self).phase == Phase::Finished,
            final(self).mutated == old(self).mutated,
            final(self).queue_deleted == old(self).queue_deleted,
            final(self).trunk_moved == old(self).trunk_moved,
            final(self).id == old(self).id,
            same_data(*final(self), *old(self)),
            final(self).wf(),
            r matches Action::Finish { result: Err(_), .. },
    {
        self.phase = Phase::Finished;
        let mut m: Vec<char> = Vec::new();
        push_str(&mut m, "run engine received an unexpected event");
        Action::Finish {
            result: Err(ExitError::new(CONFLICT, string_of(&m))),
            forget: None,
            keep_dir: false,
        }
    }

    fn queue_bookmark_revset(&self) -> (r: String)
        ensures
            r@ == exact_revset(queue_name(self.id)),
    {
        let q = queue_bookmark(self.id);
        exact_bookmark(q.as_str())
    }

    fn trunk_revset(&self) -> (r: String)
        ensures
            r@ == exact_revset(self.trunk@),
    {
        exact_bookmark(self.trunk.as_str())
    }

    fn run_name_string(&self) -> (r: String)
        ensures
            r@ == run_name(self.id),
    {
        let mut v: Vec<char> = Vec::new();
        push_str(&mut v, "jjq-run-");
        let s = format_seq_id(self.id);
        push_str(&mut v, s.as_str());
        string_of(&v)
    }

    fn run_head_string(&self) -> (r: String)
        ensures
            r@ == run_head(self.id),
    {
        let mut v: Vec<char> = Vec::new();
        push_str(&mut v, "jjq-run-");
        let s = format_seq_id(self.id);
        push_str(&mut v, s.as_str());
        push_str(&mut v, "@");
        proof {
            assert(v@ =~= run_head(self.id));
        }
        string_of(&v)
    }

    fn message_id(prefix: &str, id: u32) -> (r: String)
        ensures
            r@ == prefix@ + dec(id as nat),
    {
        let mut v: Vec<char> = Vec::new();
        push_str(&mut v, prefix);
        push_decimal(&mut v, id as u64);
        string_of(&v)
    }

    fn message_with_id(prefix: &str, id: u32, suffix: &str) -> (r: String)
        ensures
            r@ == prefix@ + dec(id as nat) + suffix@,
    {
        let mut v: Vec<char> = Vec::new();
        push_str(&mut v, prefix);
        push_decimal(&mut v, id as u64);
        push_str(&mut v, suffix);
        string_of(&v)
    }

    fn abandons(ids: &Vec<String>, must: bool) -> (r: Vec<Command>)
        ensures
            batch_view(r@) == abandon_views(ids@, must),
    {
        let mut out: Vec<Command> = Vec::new();
        let mut k: usize = 0;
        while k < ids.len()
            invariant
                k <= ids@.len(),
                batch_view(out@) == abandon_views(ids@.take(k as int), must),
            decreases ids@.len() - k,
        {
            let c = Command { args: abandon(ids[k].as_str()), must_succeed: must };
            let ghost before = out@;
            out.push(c);
            proof {
                assert(batch_view(out@) =~= batch_view(before).push(command_view(c)));
                assert(ids@.take(k + 1) =~= ids@.take(k as int).push(ids@[k as int]));
                assert(abandon_views(ids@.take(k + 1), must) =~= abandon_views(
                    ids@.take(k as int),
                    must,
                ).push((seq!["--color=never"@, "abandon"@, ids@[k as int]@], must)));
            }
            k = k + 1;
        }
        proof {
            assert(ids@.take(k as int) =~= ids@);
        }
        out
    }

    /// The commands that mark this item failed for `reason`.
    fn mark_failed(&mut self, reason: &str) -> (r: Vec<Command>)
        requires
            !old(self).trunk_moved,
        ensures
            batch_view(r@) == mark_failed_view(old(self).id, failure_of(*old(self), reason@)),
            final(self).id == old(self).id,
            final(self).phase == old(self).phase,
            final(self).trunk_moved == old(self).trunk_moved,
            final(self).queue_deleted,
            final(self).mutated,
            same_data(*final(self), *old(self)),
    {
        let q = queue_bookmark(self.id);
        let f = failed_bookmark(self.id);
        let head = self.run_head_string();
        let d = failure_description(
            self.id,
            reason,
            self.candidate_change_id.as_str(),
            self.candidate_commit_id.as_str(),
            self.trunk_commit_id.as_str(),
            self.workspace_path.as_str(),
            self.strategy,
        );
        let mut out: Vec<Command> = Vec::new();
        out.push(Command { args: bookmark_delete(q.as_str()), must_succeed: true });
        out.push(Command { args: bookmark_create(f.as_str(), head.as_str()), must_succeed: true });
        out.push(Command { args: describe(head.as_str(), d.as_str()), must_succeed: true });
        proof {
            assert(batch_view(out@) =~= mark_failed_view(
                self.id,
                failure_of(*old(self), reason@),
            ));
        }
        self.queue_deleted = true;
        self.mutated = true;
        out
    }

    /// Flags only rise, and each piece of data changes only in the phase that
    /// gathers it.
    pub open spec fn keeps(self, old: RunItem) -> bool {
        &&& old.queue_deleted ==> self.queue_deleted
        &&& old.mutated ==> self.mutated
        &&& self.id == old.id
        &&& self.allow_protected == old.allow_protected
        &&& self.wf()
        &&& old.phase != Phase::AwaitConfig ==> (self.trunk == old.trunk && self.check_command
            == old.check_command && self.strategy == old.strategy)
        &&& old.phase != Phase::AwaitTrunkId ==> self.trunk_commit_id == old.trunk_commit_id
        &&& old.phase != Phase::AwaitCandidate ==> (self.candidate_change_id
            == old.candidate_change_id && self.candidate_commit_id == old.candidate_commit_id)
        &&& old.phase != Phase::AwaitDescription ==> self.candidate_description
            == old.candidate_description
        &&& old.phase != Phase::AwaitDir ==> self.workspace_path == old.workspace_path
        &&& old.phase != Phase::AwaitDuplicates ==> self.duplicates == old.duplicates
    }

    fn begin(&mut self) -> (r: Action)
        requires
            old(self).wf(),
            old(self).phase == Phase::Start,
        ensures
            r matches Action::Jj(args) && string_views(args@) == crate::push::listing_view(
                "jjq/queue/??????"@,
            ),
            final(self).keeps(*old(self)),
            final(self).phase == Phase::AwaitQueue,
            final(self).mutated == old(self).mutated,
    {
        self.phase = Phase::AwaitQueue;
        Action::Jj(bookmark_list_glob_args("jjq/queue/??????"))
    }

    fn on_queue(&mut self, out: &JjOutput) -> (r: Action)
        requires
            old(self).wf(),
            old(self).phase == Phase::AwaitQueue,
        ensures
            out.success ==> fifo_choice(out.stdout@, *final(self), r),
            final(self).wf(),
            final(self).mutated == old(self).mutated,
            !final(self).queue_deleted,
            final(self).phase == Phase::AwaitConfig || final(self).phase == Phase::Finished,
    {
        match bookmark_list_glob(out) {
            Err(e) => {
                let m = e.message();
                self.finish_before_lock(Err(ExitError::new(CONFLICT, m)))
            },
            Ok(names) => match next_item(&names) {
                None => self.finish_before_lock(Ok(RunResult::Empty)),
                Some(id) => {
                    self.id = id;
                    self.phase = Phase::AwaitConfig;
                    Action::ReadConfig
                },
            },
        }
    }

    fn on_config(&mut self, trunk: Option<String>, check: Option<String>, strategy: Option<String>) -> (r: Action)
        requires
            old(self).wf(),
            old(self).phase == Phase::AwaitConfig,
        ensures
            (check is Some && strategy_of(strategy) is Some) ==> final(self).phase
                == Phase::AwaitLock && r is TryRunLock && final(self).check_command@
                == check->Some_0@ && final(self).strategy == strategy_of(strategy)->Some_0
                && final(self).trunk@ == (match trunk {
                Some(t) => t@,
                None => "main"@,
            }),
            final(self).keeps(*old(self)),
            final(self).mutated == old(self).mutated,
            final(self).phase == Phase::AwaitLock || final(self).phase == Phase::Finished,
            check.is_none() ==> blocked_result(r, "check_command not configured"@),
    {
        let t = get_trunk_bookmark(trunk);
        let c = match check {
            None => {
                let m = owned_str("check_command not configured");
                return self.finish_before_lock(Ok(RunResult::Blocked(CONFLICT, m)));
            },
            Some(c) => c,
        };
        let st = match get_strategy(strategy) {
            Err(e) => return self.finish_before_lock(Err(e)),
            Ok(s) => s,
        };
        self.trunk = t;
        self.check_command = c;
        self.strategy = st;
        self.phase = Phase::AwaitLock;
        Action::TryRunLock
    }

    fn on_lock(&mut self, acquired: bool) -> (r: Action)
        requires
            old(self).wf(),
            old(self).phase == Phase::AwaitLock,
        ensures
            final(self).keeps(*old(self)),
            !acquired ==> blocked_result(r, "run lock unavailable"@) && !final(self).mutated && !final(self).queue_deleted && final(self).phase == Phase::Finished,
            acquired ==> final(self).phase == Phase::AwaitTrunkId && final(self).mutated
                == old(self).mutated && (r matches Action::Jj(args) && string_views(args@)
                == trunk_commit_args(*old(self))),
    {
        if !acquired {
            let m = owned_str("run lock unavailable");
            return self.finish_before_lock(Ok(RunResult::Blocked(CONFLICT, m)));
        }
        self.phase = Phase::AwaitTrunkId;
        let t = self.trunk_revset();
        Action::Jj(get_commit_id_args(t.as_str()))
    }

    fn on_trunk_id(&mut self, out: &JjOutput) -> (r: Action)
        requires
            old(self).wf(),
            old(self).phase == Phase::AwaitTrunkId,
        ensures
            out.success ==> final(self).phase == Phase::AwaitCandidate && (r matches Action::Jj(args)
                && string_views(args@) == candidate_query(*old(self))),
            final(self).keeps(*old(self)),
            final(self).mutated == old(self).mutated,
            out.success ==> final(self).trunk_commit_id@ == trimmed(out.stdout@),
    {
        match get_commit_id(out) {
            Err(e) => self.fail(e),
            Ok(c) => {
                self.trunk_commit_id = c;
                self.phase = Phase::AwaitCandidate;
                let q = self.queue_bookmark_revset();
                Action::Jj(resolve_revset_full_args(q.as_str()))
            },
        }
    }

    fn on_candidate(&mut self, out: &JjOutput) -> (r: Action)
        requires
            old(self).wf(),
            old(self).phase == Phase::AwaitCandidate,
        ensures
            crate::jj::resolved_pair(out.success, out.stdout@) is Some ==> (r matches Action::Jj(args)
                && string_views(args@) == description_query(*old(self))),
            final(self).keeps(*old(self)),
            final(self).mutated == old(self).mutated,
            candidate_read(out.success, out.stdout@, *final(self), r),
    {
        let q = self.queue_bookmark_revset();
        match resolve_revset_full(q.as_str(), out) {
            Err(e) => self.fail(e),
            Ok(pair) => {
                self.candidate_change_id = pair.0;
                self.candidate_commit_id = pair.1;
                self.phase = Phase::AwaitDescription;
                Action::Jj(get_description(q.as_str()))
            },
        }
    }

    fn on_description(&mut self, out: &JjOutput) -> (r: Action)
        requires
            old(self).wf(),
            old(self).phase == Phase::AwaitDescription,
        ensures
            r is CreateWorkspaceDir,
            out.success ==> final(self).candidate_description@ == out.stdout@,
            final(self).keeps(*old(self)),
            final(self).mutated == old(self).mutated,
            final(self).phase == Phase::AwaitDir,
    {
        self.candidate_description = match run_ok(out) {
            Ok(d) => d,
            Err(_) => String::new(),
        };
        self.phase = Phase::AwaitDir;
        Action::CreateWorkspaceDir
    }

    fn on_dir(&mut self, path: String) -> (r: Action)
        requires
            old(self).wf(),
            old(self).phase == Phase::AwaitDir,
        ensures
            final(self).keeps(*old(self)),
            final(self).workspace_path@ == path@,
            old(self).strategy == Strategy::Merge ==> (r matches Action::Jj(args) && string_views(
                args@,
            ) == merge_workspace_args(*old(self), path@)),
            old(self).strategy == Strategy::Rebase ==> (r matches Action::Jj(args) && string_views(
                args@,
            ) == duplicate_args(*old(self))),
    {
        self.workspace_path = path;
        self.mutated = true;
        let t = self.trunk_revset();
        let q = self.queue_bookmark_revset();
        let name = self.run_name_string();
        match self.strategy {
            Strategy::Merge => {
                let mut parents: Vec<String> = Vec::new();
                parents.push(t);
                parents.push(q);
                proof {
                    assert(string_views(parents@) =~= seq![
                        exact_revset(old(self).trunk@),
                        exact_revset(queue_name(old(self).id)),
                    ]);
                }
                self.phase = Phase::AwaitWorkspaceAdded;
                Action::Jj(workspace_add(self.workspace_path.as_str(), name.as_str(), &parents))
            },
            Strategy::Rebase => {
                self.phase = Phase::AwaitDuplicates;
                Action::Jj(duplicate_onto_args(q.as_str(), t.as_str()))
            },
        }
    }

    fn on_duplicates(&mut self, out: &JjOutput) -> (r: Action)
        requires
            old(self).wf(),
            old(self).phase == Phase::AwaitDuplicates,
        ensures
            (out.success && crate::jj::duplicated_ids(crate::text::lines_of(out.stderr@)).len()
                > 0) ==> final(self).phase == Phase::AwaitWorkspaceAdded && string_views(
                final(self).duplicates@,
            ) == crate::jj::duplicated_ids(crate::text::lines_of(out.stderr@)) && (r matches Action::Jj(
                args,
            ) && string_views(args@) == rebase_workspace_args(
                *old(self),
                final(self).duplicates@.last()@,
            )),
            final(self).keeps(*old(self)),
            (out.success && crate::jj::duplicated_ids(crate::text::lines_of(out.stderr@)).len()
                == 0) ==> final(self).phase == Phase::AwaitEmptyCleanup && (r matches Action::Batch(
                cs,
            ) && batch_view(cs@) == seq![(delete_args(queue_name(old(self).id)), true)]),
    {
        match duplicate_onto(out) {
            Err(e) => self.fail(e),
            Ok(ids) => {
                proof {
                    assert(string_views(ids@).len() == ids@.len());
                }
                if ids.len() == 0 {
                    let q = queue_bookmark(self.id);
                    let mut cs: Vec<Command> = Vec::new();
                    cs.push(Command { args: bookmark_delete(q.as_str()), must_succeed: true });
                    proof {
                        assert(batch_view(cs@) =~= seq![(delete_args(queue_name(old(self).id)), true)]);
                    }
                    self.duplicates = ids;
                    self.queue_deleted = true;
                    self.phase = Phase::AwaitEmptyCleanup;
                    return Action::Batch(cs);
                }
                let tip = ids[ids.len() - 1].clone();
                self.duplicates = ids;
                let name = self.run_name_string();
                let mut parents: Vec<String> = Vec::new();
                parents.push(tip);
                proof {
                    assert(string_views(parents@) =~= seq![self.duplicates@.last()@]);
                }
                self.phase = Phase::AwaitWorkspaceAdded;
                Action::Jj(workspace_add(self.workspace_path.as_str(), name.as_str(), &parents))
            },
        }
    }

    fn on_workspace_added(&mut self, out: &JjOutput) -> (r: Action)
        requires
            old(self).wf(),
            old(self).phase == Phase::AwaitWorkspaceAdded,
        ensures
            out.success ==> final(self).phase == Phase::AwaitEntered && (r matches Action::RecordAndEnter {
                id,
                path,
            } && id == old(self).id && path@ == old(self).workspace_path@),
            final(self).keeps(*old(self)),
    {
        if !out.success {
            let e = match run_ok(out) {
                Err(e) => e,
                Ok(_) => JjError::NotRepo,
            };
            return self.fail(e);
        }
        self.phase = Phase::AwaitEntered;
        let p = self.workspace_path.clone();
        Action::RecordAndEnter { id: self.id, path: p }
    }

    fn on_entered(&mut self) -> (r: Action)
        requires
            old(self).wf(),
            old(self).phase == Phase::AwaitEntered,
        ensures
            old(self).strategy == Strategy::Merge ==> final(self).phase == Phase::AwaitConflicts && (r matches Action::Jj(
                args,
            ) && string_views(args@) == conflicts_query(old(self).id)),
            old(self).strategy == Strategy::Rebase ==> final(self).phase == Phase::AwaitParent && (r matches Action::Jj(
                args,
            ) && string_views(args@) == parent_query(old(self).id)),
            final(self).keeps(*old(self)),
    {
        match self.strategy {
            Strategy::Merge => {
                self.phase = Phase::AwaitConflicts;
                let h = self.run_head_string();
                Action::Jj(has_conflicts_args(h.as_str()))
            },
            Strategy::Rebase => {
                self.phase = Phase::AwaitParent;
                let mut v: Vec<char> = Vec::new();
                let name = self.run_name_string();
                push_str(&mut v, name.as_str());
                push_str(&mut v, "@-");
                let rs = string_of(&v);
                Action::Jj(resolve_revset_args(rs.as_str()))
            },
        }
    }

    fn on_parent(&mut self, out: &JjOutput) -> (r: Action)
        requires
            old(self).wf(),
            old(self).phase == Phase::AwaitParent,
        ensures
            (single_result(out.success, out.stdout@) is Found) ==> final(self).phase
                == Phase::AwaitEdit && (r matches Action::Jj(args) && string_views(args@) == seq![
                "--color=never"@,
                "edit"@,
                single_result(out.success, out.stdout@)->Found_0,
            ]),
            final(self).keeps(*old(self)),
    {
        let name = self.run_name_string();
        let mut v: Vec<char> = Vec::new();
        push_str(&mut v, name.as_str());
        push_str(&mut v, "@-");
        let rs = string_of(&v);
        match resolve_revset(rs.as_str(), out) {
            Err(e) => self.fail(e),
            Ok(p) => {
                self.phase = Phase::AwaitEdit;
                Action::Jj(edit(p.as_str()))
            },
        }
    }

    fn on_edit(&mut self, out: &JjOutput) -> (r: Action)
        requires
            old(self).wf(),
            old(self).phase == Phase::AwaitEdit,
        ensures
            out.success ==> final(self).phase == Phase::AwaitConflicts && (r matches Action::Jj(args)
                && string_views(args@) == conflicts_query(old(self).id)),
            final(self).keeps(*old(self)),
    {
        match run_ok(out) {
            Err(e) => self.fail(e),
            Ok(_) => {
                self.phase = Phase::AwaitConflicts;
                let h = self.run_head_string();
                Action::Jj(has_conflicts_args(h.as_str()))
            },
        }
    }

    fn on_conflicts(&mut self, out: &JjOutput) -> (r: Action)
        requires
            old(self).wf(),
            old(self).phase == Phase::AwaitConflicts,
        ensures
            (out.success && trimmed(out.stdout@).len() == 0) ==> final(self).phase
                == Phase::AwaitTrees && (r matches Action::Jj(args) && string_views(args@)
                == trees_query(*old(self))),
            final(self).keeps(*old(self)),
            out.success && trimmed(out.stdout@).len() > 0 ==> final(self).phase
                == Phase::AwaitMarkFailed && (r matches Action::Batch(cs) && batch_view(cs@)
                == mark_failed_view(old(self).id, failure_of(*old(self), "conflicts"@))),
    {
        match has_conflicts(out) {
            Err(e) => self.fail(e),
            Ok(true) => {
                let reason = owned_str("conflicts");
                let cs = self.mark_failed("conflicts");
                self.failure_reason = reason;
                self.phase = Phase::AwaitMarkFailed;
                Action::Batch(cs)
            },
            Ok(false) => {
                self.phase = Phase::AwaitTrees;
                let t = self.trunk_revset();
                let h = self.run_head_string();
                Action::Jj(trees_match_args(t.as_str(), h.as_str()))
            },
        }
    }

    fn on_mark_failed(&mut self, done: Result<(), JjError>) -> (r: Action)
        requires
            old(self).wf(),
            old(self).phase == Phase::AwaitMarkFailed,
        ensures
            final(self).keeps(*old(self)),
            final(self).phase == Phase::Finished,
            done.is_ok() ==> (r matches Action::Finish { result: Ok(RunResult::Failure(code, _)), forget: None, keep_dir: true } && code == CONFLICT),
    {
        match done {
            Err(e) => self.fail(e),
            Ok(()) => {
                let conflicts = owned_str("conflicts");
                let msg = if self.failure_reason == conflicts {
                    Self::message_with_id("merge ", self.id, " has conflicts")
                } else {
                    Self::message_with_id("merge ", self.id, " check failed")
                };
                self.phase = Phase::Finished;
                Action::Finish {
                    result: Ok(RunResult::Failure(CONFLICT, msg)),
                    forget: None,
                    keep_dir: true,
                }
            },
        }
    }

    fn on_trees(&mut self, out: &JjOutput) -> (r: Action)
        requires
            old(self).wf(),
            old(self).phase == Phase::AwaitTrees,
        ensures
            (out.success && trimmed(out.stdout@).len() > 0) ==> final(self).phase == Phase::AwaitWip
                && (r matches Action::Jj(args) && string_views(args@) == wip_view(old(self).id)),
            final(self).keeps(*old(self)),
            out.success && trimmed(out.stdout@).len() == 0 ==> final(self).phase
                == Phase::AwaitEmptyCleanup && (r matches Action::Batch(cs) && batch_view(cs@)
                == seq![(delete_args(queue_name(old(self).id)), true)] + abandon_views(
                old(self).duplicates@,
                false,
            )),
    {
        match trees_match(out) {
            Err(e) => self.fail(e),
            Ok(true) => {
                let q = queue_bookmark(self.id);
                let mut cs: Vec<Command> = Vec::new();
                cs.push(Command { args: bookmark_delete(q.as_str()), must_succeed: true });
                let ghost first = batch_view(cs@);
                let mut rest = Self::abandons(&self.duplicates, false);
                cs.append(&mut rest);
                proof {
                    assert(batch_view(cs@) =~= first + abandon_views(old(self).duplicates@, false));
                }
                self.queue_deleted = true;
                self.mutated = true;
                self.phase = Phase::AwaitEmptyCleanup;
                Action::Batch(cs)
            },
            Ok(false) => {
                self.phase = Phase::AwaitWip;
                let h = self.run_head_string();
                let m = Self::message_id("WIP: attempting merge ", self.id);
                Action::Jj(describe(h.as_str(), m.as_str()))
            },
        }
    }

    fn on_empty_cleanup(&mut self, done: Result<(), JjError>) -> (r: Action)
        requires
            old(self).wf(),
            old(self).phase == Phase::AwaitEmptyCleanup,
        ensures
            final(self).keeps(*old(self)),
            final(self).phase == Phase::Finished,
            done.is_ok() ==> skipped_result(*old(self), r),
    {
        match done {
            Err(e) => self.fail(e),
            Ok(()) => {
                self.phase = Phase::Finished;
                let no_workspace = match self.strategy {
                    Strategy::Rebase => self.duplicates.len() == 0,
                    Strategy::Merge => false,
                };
                let forget = if no_workspace {
                    None
                } else {
                    Some(self.run_name_string())
                };
                Action::Finish { result: Ok(RunResult::Skipped), forget, keep_dir: false }
            },
        }
    }

    fn on_wip(&mut self, out: &JjOutput) -> (r: Action)
        requires
            old(self).wf(),
            old(self).phase == Phase::AwaitWip,
        ensures
            out.success ==> final(self).phase == Phase::AwaitCheck,
            final(self).keeps(*old(self)),
            out.success ==> (r matches Action::RunCheck { command } && command@ == old(
                self,
            ).check_command@),
    {
        match run_ok(out) {
            Err(e) => self.fail(e),
            Ok(_) => {
                self.phase = Phase::AwaitCheck;
                let c = self.check_command.clone();
                Action::RunCheck { command: c }
            },
        }
    }

    fn on_check(&mut self, passed: bool) -> (r: Action)
        requires
            old(self).wf(),
            old(self).phase == Phase::AwaitCheck,
        ensures
            final(self).keeps(*old(self)),
            !passed ==> r == Action::ShowFailedLog && final(self).phase == Phase::AwaitLogShown,
            passed ==> final(self).phase == Phase::AwaitRecheck && (r matches Action::Jj(args)
                && string_views(args@) == trunk_commit_args(*old(self))),
    {
        if !passed {
            self.phase = Phase::AwaitLogShown;
            Action::ShowFailedLog
        } else {
            self.phase = Phase::AwaitRecheck;
            let t = self.trunk_revset();
            Action::Jj(get_commit_id_args(t.as_str()))
        }
    }

    fn on_log_shown(&mut self) -> (r: Action)
        requires
            old(self).wf(),
            old(self).phase == Phase::AwaitLogShown,
        ensures
            final(self).keeps(*old(self)),
            r matches Action::Batch(cs) && batch_view(cs@) == mark_failed_view(
                old(self).id,
                failure_of(*old(self), "check"@),
            ),
            final(self).phase == Phase::AwaitMarkFailed,
    {
        let reason = owned_str("check");
        let cs = self.mark_failed("check");
        self.failure_reason = reason;
        self.phase = Phase::AwaitMarkFailed;
        Action::Batch(cs)
    }

    fn on_recheck(&mut self, out: &JjOutput) -> (r: Action)
        requires
            old(self).wf(),
            old(self).phase == Phase::AwaitRecheck,
        ensures
            final(self).keeps(*old(self)),
            final(self).queue_deleted == old(self).queue_deleted,
            out.success && trimmed(out.stdout@) != old(self).trunk_commit_id@ ==> final(self).trunk_moved && (r matches Action::Batch(cs) && batch_view(cs@) == abandon_views(
                old(self).duplicates@,
                false,
            )),
            out.success && trimmed(out.stdout@) != old(self).trunk_commit_id@ ==> final(self).phase
                == Phase::AwaitTrunkMovedCleanup,
            out.success && trimmed(out.stdout@) == old(self).trunk_commit_id@ ==> !final(self).trunk_moved
                && unchanged_trunk_next(*old(self), *final(self), r),
    {
        match get_commit_id(out) {
            Err(e) => self.fail(e),
            Ok(current) => {
                let a = chars_of(current.as_str());
                let b = chars_of(self.trunk_commit_id.as_str());
                if !chars_equal(&a, &b) {
                    let cs = Self::abandons(&self.duplicates, false);
                    self.trunk_moved = true;
                    self.phase = Phase::AwaitTrunkMovedCleanup;
                    Action::Batch(cs)
                } else {
                    match self.strategy {
                        Strategy::Merge => {
                            self.phase = Phase::AwaitLanded;
                            Action::Jj(resolve_revset_args("@"))
                        },
                        Strategy::Rebase => {
                            self.phase = Phase::AwaitLeftForRebase;
                            Action::LeaveWorkspace
                        },
                    }
                }
            },
        }
    }

    fn on_trunk_moved_cleanup(&mut self) -> (r: Action)
        requires
            old(self).wf(),
            old(self).phase == Phase::AwaitTrunkMovedCleanup,
        ensures
            final(self).keeps(*old(self)),
            final(self).queue_deleted == old(self).queue_deleted,
            failure_result(r, "trunk moved during run"@),
            r matches Action::Finish { forget: Some(n), keep_dir: false, .. } && n@ == run_name(
                old(self).id,
            ),
    {
        self.phase = Phase::Finished;
        let name = self.run_name_string();
        let m = owned_str("trunk moved during run");
        Action::Finish { result: Ok(RunResult::Failure(CONFLICT, m)), forget: Some(name), keep_dir: false }
    }

    fn on_landed(&mut self, out: &JjOutput) -> (r: Action)
        requires
            old(self).wf(),
            old(self).phase == Phase::AwaitLanded,
        ensures
            final(self).keeps(*old(self)),
            r matches Action::Batch(cs) ==> batch_view(cs@) == merge_land_view(*old(self)),
            (single_result(out.success, out.stdout@) is Found) ==> (r matches Action::Batch(cs)
                && batch_view(cs@) == merge_land_view(*old(self))) && final(self).phase
                == Phase::AwaitMergeBatch,
    {
        match resolve_revset("@", out) {
            Err(e) => self.fail(e),
            Ok(landed) => {
                let mv = bookmark_move(
                    self.trunk.as_str(),
                    self.trunk_commit_id.as_str(),
                    "@",
                    self.allow_protected,
                );
                let q = queue_bookmark(self.id);
                let m = Self::message_id("Success: merge ", self.id);
                proof {
                    assert(m@ =~= "Success: merge "@ + dec(self.id as nat));
                }
                let mut cs: Vec<Command> = Vec::new();
                cs.push(Command { args: mv, must_succeed: true });
                cs.push(Command { args: bookmark_delete(q.as_str()), must_succeed: true });
                cs.push(Command { args: describe("@", m.as_str()), must_succeed: true });
                proof {
                    assert(batch_view(cs@) =~= merge_land_view(*old(self)));
                }
                self.landed = landed;
                self.queue_deleted = true;
                self.mutated = true;
                self.phase = Phase::AwaitMergeBatch;
                Action::Batch(cs)
            },
        }
    }

    fn on_left_for_rebase(&mut self) -> (r: Action)
        requires
            old(self).wf(),
            old(self).phase == Phase::AwaitLeftForRebase,
        ensures
            final(self).keeps(*old(self)),
            r matches Action::Batch(cs) && batch_view(cs@) == rebase_land_view(*old(self)),
    {
        let t = self.trunk_revset();
        let q = queue_bookmark(self.id);
        let mut d: Vec<char> = Vec::new();
        let body = trim_str(self.candidate_description.as_str());
        push_str(&mut d, body.as_str());
        push_str(&mut d, "\n\njjq-sequence: ");
        let padded = format_seq_id(self.id);
        push_str(&mut d, padded.as_str());
        push_str(&mut d, "\njjq-strategy: rebase");
        let desc = string_of(&d);
        let mut cs: Vec<Command> = Vec::new();
        cs.push(Command {
            args: rebase_branch_onto(self.candidate_change_id.as_str(), t.as_str()),
            must_succeed: true,
        });
        cs.push(Command {
            args: bookmark_move(
                self.trunk.as_str(),
                self.trunk_commit_id.as_str(),
                self.candidate_change_id.as_str(),
                self.allow_protected,
            ),
            must_succeed: true,
        });
        cs.push(Command { args: bookmark_delete(q.as_str()), must_succeed: true });
        cs.push(Command {
            args: describe(self.candidate_change_id.as_str(), desc.as_str()),
            must_succeed: true,
        });
        let ghost head = batch_view(cs@);
        let mut rest = Self::abandons(&self.duplicates, true);
        cs.append(&mut rest);
        proof {
            assert(desc@ =~= landed_description(old(self).candidate_description@, old(self).id));
            assert(batch_view(cs@) =~= head + abandon_views(old(self).duplicates@, true));
            assert(batch_view(cs@) =~= rebase_land_view(*old(self)));
        }
        self.landed = self.candidate_change_id.clone();
        self.queue_deleted = true;
        self.mutated = true;
        self.phase = Phase::AwaitRebaseBatch;
        Action::Batch(cs)
    }

    fn on_land_batch(&mut self, done: Result<(), JjError>) -> (r: Action)
        requires
            old(self).wf(),
            old(self).phase == Phase::AwaitMergeBatch || old(self).phase == Phase::AwaitRebaseBatch,
        ensures
            final(self).keeps(*old(self)),
            final(self).phase == Phase::Finished,
            done.is_ok() ==> (r matches Action::Finish { result: Ok(RunResult::Success), forget: Some(n), keep_dir: false } && n@ == run_name(old(self).id)),
    {
        match done {
            Err(e) => self.fail(e),
            Ok(()) => {
                self.phase = Phase::Finished;
                let name = self.run_name_string();
                Action::Finish { result: Ok(RunResult::Success), forget: Some(name), keep_dir: false }
            },
        }
    }

    /// Takes what the last action produced and returns the next action. An
    /// event that the current phase does not expect ends the run with an error.
    pub fn step(&mut self, ev: Event) -> (r: Action)
        requires
            old(self).wf(),
        ensures
            final(self).wf(),
            old(self).phase != Phase::AwaitQueue ==> final(self).keeps(*old(self)),
            old(self).queue_deleted ==> final(self).queue_deleted,
            old(self).mutated ==> final(self).mutated,
            old(self).phase == Phase::Finished ==> (r matches Action::Finish { result: Err(_), .. }),
            (old(self).phase == Phase::Start && ev is Begin) ==> final(self).phase
                == Phase::AwaitQueue && (r matches Action::Jj(args) && string_views(args@)
                == crate::push::listing_view("jjq/queue/??????"@)),
            (old(self).phase == Phase::AwaitConfig && ev is Config && ev->Config_check is Some
                && strategy_of(ev->Config_strategy) is Some) ==> final(self).phase == Phase::AwaitLock
                && r is TryRunLock && final(self).check_command@ == ev->Config_check->Some_0@
                && final(self).strategy == strategy_of(ev->Config_strategy)->Some_0 && final(self).trunk@
                == (match ev->Config_trunk {
                Some(t) => t@,
                None => "main"@,
            }),
            (old(self).phase == Phase::AwaitTrunkId && ev is Jj && ev->Jj_0.success) ==> final(self).phase
                == Phase::AwaitCandidate && (r matches Action::Jj(args) && string_views(args@)
                == candidate_query(*old(self))),
            (old(self).phase == Phase::AwaitCandidate && ev is Jj && crate::jj::resolved_pair(
                ev->Jj_0.success,
                ev->Jj_0.stdout@,
            ) is Some) ==> final(self).phase == Phase::AwaitDescription && (r matches Action::Jj(args)
                && string_views(args@) == description_query(*old(self))),
            (old(self).phase == Phase::AwaitDescription && ev is Jj) ==> final(self).phase
                == Phase::AwaitDir && r is CreateWorkspaceDir && (ev->Jj_0.success ==> final(self).candidate_description@
                == ev->Jj_0.stdout@),
            (old(self).phase == Phase::AwaitDuplicates && ev is Jj && ev->Jj_0.success
                && crate::jj::duplicated_ids(crate::text::lines_of(ev->Jj_0.stderr@)).len() > 0)
                ==> final(self).phase == Phase::AwaitWorkspaceAdded && string_views(final(self).duplicates@)
                == crate::jj::duplicated_ids(crate::text::lines_of(ev->Jj_0.stderr@)) && (r matches Action::Jj(
                args,
            ) && string_views(args@) == rebase_workspace_args(
                *old(self),
                final(self).duplicates@.last()@,
            )),
            (old(self).phase == Phase::AwaitWorkspaceAdded && ev is Jj && ev->Jj_0.success) ==> final(self).phase
                == Phase::AwaitEntered && (r matches Action::RecordAndEnter { id, path } && id
                == old(self).id && path@ == old(self).workspace_path@),
            (old(self).phase == Phase::AwaitEntered && ev == Event::Done && old(self).strategy
                == Strategy::Merge) ==> final(self).phase == Phase::AwaitConflicts && (r matches Action::Jj(
                args,
            ) && string_views(args@) == conflicts_query(old(self).id)),
            (old(self).phase == Phase::AwaitEntered && ev == Event::Done && old(self).strategy
                == Strategy::Rebase) ==> final(self).phase == Phase::AwaitParent && (r matches Action::Jj(
                args,
            ) && string_views(args@) == parent_query(old(self).id)),
            (old(self).phase == Phase::AwaitParent && ev is Jj && single_result(
                ev->Jj_0.success,
                ev->Jj_0.stdout@,
            ) is Found) ==> final(self).phase == Phase::AwaitEdit && (r matches Action::Jj(args)
                && string_views(args@) == seq![
                "--color=never"@,
                "edit"@,
                single_result(ev->Jj_0.success, ev->Jj_0.stdout@)->Found_0,
            ]),
            (old(self).phase == Phase::AwaitEdit && ev is Jj && ev->Jj_0.success) ==> final(self).phase
                == Phase::AwaitConflicts && (r matches Action::Jj(args) && string_views(args@)
                == conflicts_query(old(self).id)),
            (old(self).phase == Phase::AwaitConflicts && ev is Jj && ev->Jj_0.success && trimmed(
                ev->Jj_0.stdout@,
            ).len() == 0) ==> final(self).phase == Phase::AwaitTrees && (r matches Action::Jj(args)
                && string_views(args@) == trees_query(*old(self))),
            (old(self).phase == Phase::AwaitTrees && ev is Jj && ev->Jj_0.success && trimmed(
                ev->Jj_0.stdout@,
            ).len() > 0) ==> final(self).phase == Phase::AwaitWip && (r matches Action::Jj(args)
                && string_views(args@) == wip_view(old(self).id)),
            (old(self).phase == Phase::AwaitWip && ev is Jj && ev->Jj_0.success) ==> final(self).phase
                == Phase::AwaitCheck,
            (old(self).phase == Phase::AwaitCheck && ev == Event::CheckExit(true)) ==> final(self).phase
                == Phase::AwaitRecheck,
            (old(self).phase == Phase::AwaitQueue && ev is Jj && ev->Jj_0.success) ==> fifo_choice(
                ev->Jj_0.stdout@,
                *final(self),
                r,
            ),
            (old(self).phase == Phase::AwaitConfig && ev is Config && ev->Config_check is None)
                ==> blocked_result(r, "check_command not configured"@) && !final(self).mutated,
            (old(self).phase == Phase::AwaitLock && ev == Event::Lock(false)) ==> blocked_result(
                r,
                "run lock unavailable"@,
            ) && !final(self).mutated && !final(self).queue_deleted && final(self).phase
                == Phase::Finished,
            (old(self).phase == Phase::AwaitLock && ev == Event::Lock(true)) ==> (r matches Action::Jj(
                args,
            ) && string_views(args@) == trunk_commit_args(*old(self))),
            (old(self).phase == Phase::AwaitTrunkId && ev is Jj && ev->Jj_0.success) ==> final(self).trunk_commit_id@ == trimmed(ev->Jj_0.stdout@),
            (old(self).phase == Phase::AwaitCandidate && ev is Jj) ==> candidate_read(
                ev->Jj_0.success,
                ev->Jj_0.stdout@,
                *final(self),
                r,
            ),
            (old(self).phase == Phase::AwaitDir && ev is WorkspaceDir && old(self).strategy
                == Strategy::Merge) ==> (r matches Action::Jj(args) && string_views(args@)
                == merge_workspace_args(*old(self), ev->WorkspaceDir_0@)),
            (old(self).phase == Phase::AwaitDir && ev is WorkspaceDir && old(self).strategy
                == Strategy::Rebase) ==> (r matches Action::Jj(args) && string_views(args@)
                == duplicate_args(*old(self))),
            (old(self).phase == Phase::AwaitDuplicates && ev is Jj && ev->Jj_0.success
                && crate::jj::duplicated_ids(crate::text::lines_of(ev->Jj_0.stderr@)).len() == 0)
                ==> final(self).phase == Phase::AwaitEmptyCleanup && (r matches Action::Batch(cs)
                && batch_view(cs@) == seq![(delete_args(queue_name(old(self).id)), true)]),
            (old(self).phase == Phase::AwaitConflicts && ev is Jj && ev->Jj_0.success && trimmed(
                ev->Jj_0.stdout@,
            ).len() > 0) ==> final(self).phase == Phase::AwaitMarkFailed && (r matches Action::Batch(
                cs,
            ) && batch_view(cs@) == mark_failed_view(
                old(self).id,
                failure_of(*old(self), "conflicts"@),
            )),
            (old(self).phase == Phase::AwaitMarkFailed && ev == Event::BatchDone(Ok(()))) ==> (r matches Action::Finish {
                result: Ok(RunResult::Failure(code, _)),
                forget: None,
                keep_dir: true,
            } && code == CONFLICT),
            (old(self).phase == Phase::AwaitTrees && ev is Jj && ev->Jj_0.success && trimmed(
                ev->Jj_0.stdout@,
            ).len() == 0) ==> final(self).phase == Phase::AwaitEmptyCleanup && (r matches Action::Batch(
                cs,
            ) && batch_view(cs@) == seq![(delete_args(queue_name(old(self).id)), true)]
                + abandon_views(old(self).duplicates@, false)),
            (old(self).phase == Phase::AwaitEmptyCleanup && ev == Event::BatchDone(Ok(())))
                ==> skipped_result(*old(self), r),
            (old(self).phase == Phase::AwaitWip && ev is Jj && ev->Jj_0.success) ==> (r matches Action::RunCheck {
                command,
            } && command@ == old(self).check_command@),
            (old(self).phase == Phase::AwaitCheck && ev == Event::CheckExit(false)) ==> r
                == Action::ShowFailedLog,
            (old(self).phase == Phase::AwaitCheck && ev == Event::CheckExit(true)) ==> (r matches Action::Jj(
                args,
            ) && string_views(args@) == trunk_commit_args(*old(self))),
            (old(self).phase == Phase::AwaitLogShown && ev == Event::Done) ==> final(self).phase
                == Phase::AwaitMarkFailed && (r matches Action::Batch(cs) && batch_view(cs@)
                == mark_failed_view(old(self).id, failure_of(*old(self), "check"@))),
            (old(self).phase == Phase::AwaitRecheck && ev is Jj && ev->Jj_0.success && trimmed(
                ev->Jj_0.stdout@,
            ) != old(self).trunk_commit_id@) ==> final(self).trunk_moved && !final(self).queue_deleted
                && final(self).phase == Phase::AwaitTrunkMovedCleanup && (r matches Action::Batch(
                cs,
            ) && batch_view(cs@) == abandon_views(old(self).duplicates@, false)),
            (old(self).phase == Phase::AwaitRecheck && ev is Jj && ev->Jj_0.success && trimmed(
                ev->Jj_0.stdout@,
            ) == old(self).trunk_commit_id@) ==> unchanged_trunk_next(*old(self), *final(self), r),
            old(self).phase == Phase::AwaitTrunkMovedCleanup ==> failure_result(
                r,
                "trunk moved during run"@,
            ) && (r matches Action::Finish { forget: Some(n), keep_dir: false, .. } && n@
                == run_name(old(self).id)),
            (old(self).phase == Phase::AwaitLanded && r is Batch) ==> batch_view(r->Batch_0@)
                == merge_land_view(*old(self)),
            (old(self).phase == Phase::AwaitLanded && ev is Jj && single_result(
                ev->Jj_0.success,
                ev->Jj_0.stdout@,
            ) is Found) ==> final(self).phase == Phase::AwaitMergeBatch && (r matches Action::Batch(
                cs,
            ) && batch_view(cs@) == merge_land_view(*old(self))),
            (old(self).phase == Phase::AwaitLeftForRebase && ev == Event::Done) ==> (r matches Action::Batch(
                cs,
            ) && batch_view(cs@) == rebase_land_view(*old(self))),
            ((old(self).phase == Phase::AwaitMergeBatch || old(self).phase
                == Phase::AwaitRebaseBatch) && ev == Event::BatchDone(Ok(()))) ==> (r matches Action::Finish {
                result: Ok(RunResult::Success),
                forget: Some(n),
                keep_dir: false,
            } && n@ == run_name(old(self).id)),
    {
        match self.phase {
            Phase::Start => match ev {
                Event::Begin => self.begin(),
                _ => self.unexpected(),
            },
            Phase::AwaitQueue => match ev {
                Event::Jj(out) => self.on_queue(&out),
                _ => self.unexpected(),
            },
            Phase::AwaitConfig => match ev {
                Event::Config { trunk, check, strategy } => self.on_config(trunk, check, strategy),
                _ => self.unexpected(),
            },
            Phase::AwaitLock => match ev {
                Event::Lock(b) => self.on_lock(b),
                _ => self.unexpected(),
            },
            Phase::AwaitTrunkId => match ev {
                Event::Jj(out) => self.on_trunk_id(&out),
                _ => self.unexpected(),
            },
            Phase::AwaitCandidate => match ev {
                Event::Jj(out) => self.on_candidate(&out),
                _ => self.unexpected(),
            },
            Phase::AwaitDescription => match ev {
                Event::Jj(out) => self.on_description(&out),
                _ => self.unexpected(),
            },
            Phase::AwaitDir => match ev {
                Event::WorkspaceDir(path) => self.on_dir(path),
                _ => self.unexpected(),
            },
            Phase::AwaitDuplicates => match ev {
                Event::Jj(out) => self.on_duplicates(&out),
                _ => self.unexpected(),
            },
            Phase::AwaitWorkspaceAdded => match ev {
                Event::Jj(out) => self.on_workspace_added(&out),
                _ => self.unexpected(),
            },
            Phase::AwaitEntered => match ev {
                Event::Done => self.on_entered(),
                _ => self.unexpected(),
            },
            Phase::AwaitParent => match ev {
                Event::Jj(out) => self.on_parent(&out),
                _ => self.unexpected(),
            },
            Phase::AwaitEdit => match ev {
                Event::Jj(out) => self.on_edit(&out),
                _ => self.unexpected(),
            },
            Phase::AwaitConflicts => match ev {
                Event::Jj(out) => self.on_conflicts(&out),
                _ => self.unexpected(),
            },
            Phase::AwaitMarkFailed => match ev {
                Event::BatchDone(d) => self.on_mark_failed(d),
                _ => self.unexpected(),
            },
            Phase::AwaitTrees => match ev {
                Event::Jj(out) => self.on_trees(&out),
                _ => self.unexpected(),
            },
            Phase::AwaitEmptyCleanup => match ev {
                Event::BatchDone(d) => self.on_empty_cleanup(d),
                _ => self.unexpected(),
            },
            Phase::AwaitWip => match ev {
                Event::Jj(out) => self.on_wip(&out),
                _ => self.unexpected(),
            },
            Phase::AwaitCheck => match ev {
                Event::CheckExit(ok) => self.on_check(ok),
                _ => self.unexpected(),
            },
            Phase::AwaitLogShown => match ev {
                Event::Done => self.on_log_shown(),
                _ => self.unexpected(),
            },
            Phase::AwaitRecheck => match ev {
                Event::Jj(out) => self.on_recheck(&out),
                _ => self.unexpected(),
            },
            Phase::AwaitTrunkMovedCleanup => self.on_trunk_moved_cleanup(),
            Phase::AwaitLanded => match ev {
                Event::Jj(out) => self.on_landed(&out),
                _ => self.unexpected(),
            },
            Phase::AwaitMergeBatch => match ev {
                Event::BatchDone(d) => self.on_land_batch(d),
                _ => self.unexpected(),
            },
            Phase::AwaitLeftForRebase => match ev {
                Event::Done => self.on_left_for_rebase(),
                _ => self.unexpected(),
            },
            Phase::AwaitRebaseBatch => match ev {
                Event::BatchDone(d) => self.on_land_batch(d),
                _ => self.unexpected(),
            },
            Phase::Finished => self.unexpected(),
        }
    }
}

/// Mutual exclusion: until the run lock is held, a run issues nothing that
/// changes the repository, so a run that is refused the lock (and ends with
/// `run lock unavailable`, see [`RunItem::step`]) leaves the queue as it found it.
pub proof fn lemma_no_change_before_lock(m: RunItem)
    requires
        m.wf(),
        m.before_lock(),
    ensures
        !m.mutated,
        !m.queue_deleted,
{
}

/// Compare-and-swap safety: a run that saw trunk move while its check ran never
/// issues the deletion of the queue bookmark; what it issues instead only
/// abandons its duplicates, neither deleting the queue bookmark nor moving a
/// bookmark.
pub proof fn lemma_trunk_moved_keeps_queue(m: RunItem)
    requires
        m.wf(),
        m.trunk_moved,
    ensures
        !m.queue_deleted,
        forall|i: int|
            0 <= i < abandon_views(m.duplicates@, false).len() ==> !is_queue_delete(
                #[trigger] abandon_views(m.duplicates@, false)[i],
                m.id,
            ) && !is_bookmark_move(abandon_views(m.duplicates@, false)[i]),
{
    reveal_strlit("abandon");
    reveal_strlit("bookmark");
    assert forall|i: int| 0 <= i < abandon_views(m.duplicates@, false).len() implies !is_queue_delete(
        #[trigger] abandon_views(m.duplicates@, false)[i],
        m.id,
    ) && !is_bookmark_move(abandon_views(m.duplicates@, false)[i]) by {
        let c = abandon_views(m.duplicates@, false)[i];
        assert(c.0.len() == 3);
        assert(c.0[1] == "abandon"@);
        assert("abandon"@.len() != "bookmark"@.len());
    }
}

/// Crash safety: when an item lands, trunk is moved before the queue bookmark
/// is deleted, so a crash between the two leaves a queue entry whose change is
/// already on trunk (which the next run finds empty and skips).
pub proof fn lemma_trunk_moves_before_queue_deleted(m: RunItem)
    ensures
        is_bookmark_move(merge_land_view(m)[0]),
        is_queue_delete(merge_land_view(m)[1], m.id),
        !is_queue_delete(merge_land_view(m)[0], m.id),
        is_bookmark_move(rebase_land_view(m)[1]),
        is_queue_delete(rebase_land_view(m)[2], m.id),
        !is_queue_delete(rebase_land_view(m)[0], m.id),
        !is_queue_delete(rebase_land_view(m)[1], m.id),
{
    reveal_strlit("bookmark");
    reveal_strlit("move");
    reveal_strlit("delete");
    reveal_strlit("rebase");
    let a = merge_land_view(m)[0].0;
    assert(a[1] == "bookmark"@ && a[2] == "move"@);
    assert(a.len() >= 8);
    let b = rebase_land_view(m)[1].0;
    assert(rebase_land_view(m)[1] == (move_args(
        m.trunk@,
        m.trunk_commit_id@,
        m.candidate_change_id@,
        m.allow_protected,
    ), true));
    assert(b[1] == "bookmark"@ && b[2] == "move"@);
    assert(rebase_land_view(m)[2] == (delete_args(queue_name(m.id)), true));
    assert(rebase_land_view(m)[0].0.len() == 6);
    assert(b.len() >= 8);
}

} // verus!
