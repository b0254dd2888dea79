//! Enqueuing a revision: resolve it, make the push idempotent over existing
//! entries, refuse it when it conflicts with trunk, then allocate an ID and
//! create the queue bookmark. Like the run engine, a state machine: the caller
//! performs each action and reports back.
//!
//! The entries that the push replaces (queued entries of the same change) and
//! clears (failed entries of the same change) are only deleted once the push is
//! sure to go ahead: after the conflict pre-check, the initialisation check and
//! the allocation of its ID. A push that fails before that leaves them all.
use vstd::prelude::*;
use crate::commands::{
    already_queued_error, failed_of_change, failed_to_clear, plan_queue_push, push_conflict_error,
    queued_commit, same_change, QueueEntry,
};
use crate::config::{get_trunk_bookmark, require_initialized};
use crate::engine::{batch_view, failed_name, queue_name, Command};
use crate::exit_codes::{ExitError, CONFLICT, USAGE};
use crate::jj::{
    abandon, bookmark_create, bookmark_delete, bookmark_exists, bookmark_exists_args,
    bookmark_list_glob, bookmark_list_glob_args, exact_bookmark, get_description, has_conflicts,
    has_conflicts_args, new_rev, new_rev_args, resolve_revset_full, resolve_revset_full_args,
    run_ok, run_quiet, JjError, JjOutput,
};
use crate::queue::{extract_id_from_bookmark, failed_bookmark, queue_bookmark};
use crate::text::{lines_of, owned, push_str, string_of, string_views, trimmed};

verus! {

/// What the caller of a push does next.
pub enum PushAction {
    /// Run `jj` with these arguments and report its output.
    Jj(Vec<String>),
    /// Read the configured trunk bookmark.
    ReadTrunk,
    /// Run these deletions in order; `ids` are the entries they remove, queued
    /// ones being replaced, or failed ones (when `failed`) being cleared.
    Delete { commands: Vec<Command>, ids: Vec<u32>, failed: bool },
    /// Report whether the queue is initialised.
    CheckInitialized,
    /// Allocate the next sequence ID.
    AllocateId,
    /// The push is over: the sequence ID it was queued at, or why it was not.
    Finish(Result<u32, ExitError>),
}

/// What the last push action produced.
pub enum PushEvent {
    Begin,
    Jj(JjOutput),
    Trunk(Option<String>),
    Deleted(Result<(), JjError>),
    Initialized(bool),
    Allocated(u32),
}

#[derive(Clone, Copy, PartialEq, Eq, Structural, Debug)]
pub enum PushPhase {
    Start,
    AwaitResolved,
    AwaitTrunk,
    AwaitTrunkExists,
    AwaitQueueList,
    AwaitQueueEntry,
    AwaitFailedList,
    AwaitFailedEntry,
    AwaitProbe,
    AwaitConflictAnswer,
    AwaitAbandoned,
    AwaitInitialized,
    AwaitId,
    AwaitReplaced,
    AwaitCleared,
    AwaitCreated,
    Finished,
}

/// The push of one revision.
pub struct PushItem {
    pub phase: PushPhase,
    pub revset: String,
    pub change_id: String,
    pub commit_id: String,
    pub trunk: String,
    /// The bookmarks being read, and how many of them have been.
    pub pending: Vec<String>,
    pub next: usize,
    /// The queued entries read.
    pub entries: Vec<QueueEntry>,
    /// The failed entries read, with their descriptions.
    pub failed: Vec<(u32, String)>,
    /// The queued entries to replace and the failed entries to clear.
    pub replace: Vec<u32>,
    pub clear: Vec<u32>,
    pub probe: String,
    /// What the conflict query of the probe said.
    pub conflicts: Option<Result<bool, JjError>>,
    pub id: u32,
    /// Some command that changes the repository has been issued.
    pub mutated: bool,
    /// Some deletion of an entry has been issued.
    pub deleted: bool,
}

/// The deletion of each named bookmark, in order.
pub open spec fn deletions_view(names: Seq<Seq<char>>) -> Seq<(Seq<Seq<char>>, bool)> {
    names.map_values(|n: Seq<char>| (seq!["--color=never"@, "bookmark"@, "delete"@, n], true))
}

pub open spec fn queue_names(ids: Seq<u32>) -> Seq<Seq<char>> {
    ids.map_values(|i: u32| queue_name(i))
}

pub open spec fn failed_names(ids: Seq<u32>) -> Seq<Seq<char>> {
    ids.map_values(|i: u32| failed_name(i))
}

pub open spec fn abandon_view(rev: Seq<char>) -> Seq<Seq<char>> {
    seq!["--color=never"@, "abandon"@, rev]
}

/// The end of the queue scan: an entry of the same commit refuses the push;
/// otherwise the entries of the same change are to be replaced and the failed
/// bookmarks are listed next.
pub open spec fn queue_scan_end(m: PushItem, a: PushAction) -> bool {
    match queued_commit(m.entries@, m.commit_id@) {
        Some(id) => m.id == id && m.phase == PushPhase::Finished && (a matches PushAction::Finish(
            Err(e),
        ) && e.code == USAGE && e.message@ == "revision already queued"@),
        None => m.replace@ == same_change(m.entries@, m.change_id@) && m.phase
            == PushPhase::AwaitFailedList && (a matches PushAction::Jj(args) && string_views(args@)
            == seq![
            "--color=never"@,
            "bookmark"@,
            "list"@,
            "-r"@,
            "bookmarks(glob:\""@ + "jjq/failed/??????"@ + "\")"@,
            "-T"@,
            "name ++ \"\\n\""@,
        ]),
    }
}

/// The end of the failed scan: the failed entries of the same change are to be
/// cleared, and the probe merge of trunk and the revision is created.
pub open spec fn failed_scan_end(m: PushItem, a: PushAction) -> bool {
    &&& m.clear@ == failed_of_change(m.failed@, m.change_id@)
    &&& m.phase == PushPhase::AwaitProbe
    &&& a matches PushAction::Jj(args) && string_views(args@) == seq![
        "--color=never"@,
        "new"@,
        "--no-edit"@,
    ] + crate::jj::parent_flags(seq![m.trunk@, m.revset@])
}

/// While a scan is under way, the next bookmark's target is queried with `template`.
pub open spec fn reading_next(m: PushItem, a: PushAction, template: Seq<char>) -> bool {
    &&& m.next < m.pending@.len()
    &&& a matches PushAction::Jj(args) && string_views(args@) == seq![
        "--color=never"@,
        "log"@,
        "-r"@,
        crate::jj::exact_revset(m.pending@[m.next as int]@),
        "--no-graph"@,
        "-T"@,
        template,
    ]
}

pub open spec fn resolve_template() -> Seq<char> {
    "change_id.short() ++ \" \" ++ commit_id"@
}

/// The listing of the bookmarks that match `pattern`.
pub open spec fn listing_view(pattern: Seq<char>) -> Seq<Seq<char>> {
    seq![
        "--color=never"@,
        "bookmark"@,
        "list"@,
        "-r"@,
        "bookmarks(glob:\""@ + pattern + "\")"@,
        "-T"@,
        "name ++ \"\\n\""@,
    ]
}

fn usage_error(prefix: &str, name: &str, suffix: &str) -> (r: ExitError)
    ensures
        r.code == USAGE,
        r.message@ == prefix@ + name@ + suffix@,
{
    let mut m: Vec<char> = Vec::new();
    push_str(&mut m, prefix);
    push_str(&mut m, name);
    push_str(&mut m, suffix);
    ExitError::new(USAGE, string_of(&m))
}

fn jj_failure(e: JjError) -> (r: ExitError)
    ensures
        r.code == CONFLICT,
        r.message@ == e.message_text(),
{
    let m = e.message();
    ExitError::new(CONFLICT, m)
}

/// The deletions of the queue bookmarks (or, when `failed`, the failed
/// bookmarks) of the given IDs.
fn deletions(ids: &Vec<u32>, failed: bool) -> (cs: Vec<Command>)
    ensures
        batch_view(cs@) == deletions_view(
            if failed {
                failed_names(ids@)
            } else {
                queue_names(ids@)
            },
        ),
{
    let ghost names = if failed {
        failed_names(ids@)
    } else {
        queue_names(ids@)
    };
    let mut cs: Vec<Command> = Vec::new();
    let mut k: usize = 0;
    while k < ids.len()
        invariant
            k <= ids@.len(),
            names == (if failed {
                failed_names(ids@)
            } else {
                queue_names(ids@)
            }),
            batch_view(cs@) == deletions_view(names.take(k as int)),
        decreases ids@.len() - k,
    {
        let b = if failed {
            failed_bookmark(ids[k])
        } else {
            queue_bookmark(ids[k])
        };
        let ghost before = cs@;
        cs.push(Command { args: bookmark_delete(b.as_str()), must_succeed: true });
        proof {
            assert(names[k as int] == b@);
            assert(names.take(k + 1) =~= names.take(k as int).push(b@));
            assert(batch_view(cs@) =~= batch_view(before).push(
                (seq!["--color=never"@, "bookmark"@, "delete"@, b@], true),
            ));
            assert(deletions_view(names.take(k + 1)) =~= deletions_view(names.take(k as int)).push(
                (seq!["--color=never"@, "bookmark"@, "delete"@, b@], true),
            ));
        }
        k = k + 1;
    }
    proof {
        assert(names.take(k as int) =~= names);
    }
    cs
}

/// Starts the push of `revset`.
pub fn push(revset: &str) -> (r: PushItem)
    ensures
        r.phase == PushPhase::Start,
        r.revset@ == revset@,
        !r.mutated,
        !r.deleted,
{
    PushItem {
        phase: PushPhase::Start,
        revset: owned(revset),
        change_id: String::new(),
        commit_id: String::new(),
        trunk: String::new(),
        pending: Vec::new(),
        next: 0,
        entries: Vec::new(),
        failed: Vec::new(),
        replace: Vec::new(),
        clear: Vec::new(),
        probe: String::new(),
        conflicts: None,
        id: 0,
        mutated: false,
        deleted: false,
    }
}

impl PushItem {
    /// Phases in which the push has not yet changed anything.
    pub open spec fn scanning(self) -> bool {
        self.phase == PushPhase::Start || self.phase == PushPhase::AwaitResolved || self.phase
            == PushPhase::AwaitTrunk || self.phase == PushPhase::AwaitTrunkExists || self.phase
            == PushPhase::AwaitQueueList || self.phase == PushPhase::AwaitQueueEntry
            || self.phase == PushPhase::AwaitFailedList || self.phase
            == PushPhase::AwaitFailedEntry || self.phase == PushPhase::AwaitProbe
    }

    /// Phases in which entries may have been deleted.
    pub open spec fn deleting(self) -> bool {
        self.phase == PushPhase::AwaitReplaced || self.phase == PushPhase::AwaitCleared
            || self.phase == PushPhase::AwaitCreated || self.phase == PushPhase::Finished
    }

    /// Nothing is changed while scanning, and no entry is deleted before the
    /// push is sure to go ahead.
    pub open spec fn wf(self) -> bool {
        &&& self.scanning() ==> !self.mutated
        &&& !self.deleting() ==> !self.deleted
        &&& (self.phase == PushPhase::AwaitQueueEntry || self.phase == PushPhase::AwaitFailedEntry)
            ==> self.next < self.pending@.len()
    }

    /// Everything but the phase.
    pub open spec fn same_fields(self, o: PushItem) -> bool {
        &&& self.revset == o.revset && self.change_id == o.change_id && self.commit_id == o.commit_id
        &&& self.trunk == o.trunk && self.entries == o.entries && self.failed == o.failed
        &&& self.replace == o.replace && self.clear == o.clear && self.id == o.id
        &&& self.mutated == o.mutated && self.deleted == o.deleted && self.probe == o.probe
        &&& self.pending == o.pending && self.next == o.next
    }

    fn finish(&mut self, r: Result<u32, ExitError>) -> (a: PushAction)
        ensures
            final(self).same_fields(*old(self)),
            final(self).phase == PushPhase::Finished,
            final(self).mutated == old(self).mutated,
            final(self).deleted == old(self).deleted,
            final(self).probe == old(self).probe,
            final(self).id == old(self).id,
            a == PushAction::Finish(r),
    {
        self.phase = PushPhase::Finished;
        PushAction::Finish(r)
    }

    fn unexpected(&mut self) -> (a: PushAction)
        ensures
            final(self).probe == old(self).probe,
            final(self).phase == PushPhase::Finished,
            final(self).mutated == old(self).mutated,
            final(self).deleted == old(self).deleted,
            a matches PushAction::Finish(Err(_)),
    {
        let e = usage_error("push received an unexpected event", "", "");
        self.finish(Err(e))
    }

    /// Asks for the next queue bookmark's IDs, or ends the queue scan.
    fn next_queue_entry(&mut self) -> (a: PushAction)
        requires
            old(self).phase == PushPhase::AwaitQueueEntry || old(self).phase
                == PushPhase::AwaitQueueList,
            !old(self).mutated,
            !old(self).deleted,
        ensures
            !final(self).mutated,
            !final(self).deleted,
            final(self).phase == PushPhase::AwaitQueueEntry ==> reading_next(
                *final(self),
                a,
                resolve_template(),
            ),
            final(self).pending == old(self).pending,
            final(self).next == old(self).next,
            final(self).phase == PushPhase::AwaitQueueEntry || queue_scan_end(*final(self), a),
            final(self).phase == PushPhase::AwaitQueueEntry || final(self).phase
                == PushPhase::Finished || final(self).phase == PushPhase::AwaitFailedList,
            final(self).change_id == old(self).change_id,
            final(self).commit_id == old(self).commit_id,
            final(self).entries == old(self).entries,
            final(self).revset == old(self).revset,
            final(self).trunk == old(self).trunk,
    {
        if self.next < self.pending.len() {
            self.phase = PushPhase::AwaitQueueEntry;
            let rs = exact_bookmark(self.pending[self.next].as_str());
            return PushAction::Jj(resolve_revset_full_args(rs.as_str()));
        }
        match plan_queue_push(self.change_id.as_str(), self.commit_id.as_str(), &self.entries) {
            Err(id) => {
                self.id = id;
                self.finish(Err(already_queued_error()))
            },
            Ok(replace) => {
                self.replace = replace;
                self.phase = PushPhase::AwaitFailedList;
                PushAction::Jj(bookmark_list_glob_args("jjq/failed/??????"))
            },
        }
    }

    /// Asks for the next failed bookmark's description, or ends the failed scan.
    fn next_failed_entry(&mut self) -> (a: PushAction)
        requires
            old(self).phase == PushPhase::AwaitFailedEntry || old(self).phase
                == PushPhase::AwaitFailedList,
            !old(self).mutated,
            !old(self).deleted,
        ensures
            !final(self).mutated,
            !final(self).deleted,
            final(self).phase == PushPhase::AwaitFailedEntry ==> reading_next(
                *final(self),
                a,
                "description"@,
            ),
            final(self).pending == old(self).pending,
            final(self).next == old(self).next,
            final(self).failed == old(self).failed,
            final(self).phase == PushPhase::AwaitFailedEntry || failed_scan_end(*final(self), a),
            final(self).replace == old(self).replace,
            final(self).revset == old(self).revset,
            final(self).trunk == old(self).trunk,
    {
        if self.next < self.pending.len() {
            self.phase = PushPhase::AwaitFailedEntry;
            let rs = exact_bookmark(self.pending[self.next].as_str());
            return PushAction::Jj(get_description(rs.as_str()));
        }
        self.clear = failed_to_clear(self.change_id.as_str(), &self.failed);
        let mut parents: Vec<String> = Vec::new();
        parents.push(self.trunk.clone());
        parents.push(self.revset.clone());
        proof {
            assert(string_views(parents@) =~= seq![self.trunk@, self.revset@]);
        }
        self.phase = PushPhase::AwaitProbe;
        PushAction::Jj(new_rev_args(&parents))
    }

    /// Takes what the last action produced and returns the next action.
    pub fn step(&mut self, ev: PushEvent) -> (a: PushAction)
        requires
            old(self).wf(),
        ensures
            final(self).wf(),
            (!old(self).deleting() && old(self).phase != PushPhase::AwaitId) ==> final(self).deleted
                == old(self).deleted,
            (old(self).scanning() && a matches PushAction::Finish(_)) ==> !final(self).mutated,
            (old(self).phase == PushPhase::Start && ev is Begin) ==> final(self).phase
                == PushPhase::AwaitResolved && (a matches PushAction::Jj(args) && string_views(args@)
                == seq![
                "--color=never"@,
                "log"@,
                "-r"@,
                old(self).revset@,
                "--no-graph"@,
                "-T"@,
                resolve_template(),
            ]),
            (old(self).phase == PushPhase::AwaitResolved && ev is Jj && crate::jj::resolved_pair(
                ev->Jj_0.success,
                ev->Jj_0.stdout@,
            ) is Some) ==> ({
                let p = crate::jj::resolved_pair(ev->Jj_0.success, ev->Jj_0.stdout@)->Some_0;
                &&& final(self).change_id@ == p.0 && final(self).commit_id@ == p.1
                &&& final(self).phase == PushPhase::AwaitTrunk && a is ReadTrunk
            }),
            (old(self).phase == PushPhase::AwaitTrunk && ev is Trunk) ==> final(self).trunk@ == (
            match ev->Trunk_0 {
                Some(t) => t@,
                None => "main"@,
            }) && final(self).phase == PushPhase::AwaitTrunkExists && (a matches PushAction::Jj(args)
                && string_views(args@) == seq![
                "--color=never"@,
                "bookmark"@,
                "list"@,
                "-r"@,
                crate::jj::exact_revset(final(self).trunk@),
                "-T"@,
                "name"@,
            ]),
            (old(self).phase == PushPhase::AwaitTrunkExists && ev is Jj && ev->Jj_0.success
                && trimmed(ev->Jj_0.stdout@).len() > 0) ==> final(self).phase
                == PushPhase::AwaitQueueList && (a matches PushAction::Jj(args) && string_views(args@)
                == listing_view("jjq/queue/??????"@)),
            (old(self).phase == PushPhase::AwaitTrunkExists && ev is Jj && ev->Jj_0.success
                && trimmed(ev->Jj_0.stdout@).len() == 0) ==> (a matches PushAction::Finish(Err(e))
                && e.code == USAGE && e.message@ == "trunk bookmark '"@ + old(self).trunk@
                + "' not found"@),
            (old(self).phase == PushPhase::AwaitQueueList && ev is Jj && ev->Jj_0.success) ==> ({
                &&& string_views(final(self).pending@) == crate::jj::nonempty_lines(
                    lines_of(ev->Jj_0.stdout@),
                )
                &&& final(self).entries@.len() == 0
                &&& (final(self).phase == PushPhase::AwaitQueueEntry && reading_next(
                    *final(self),
                    a,
                    resolve_template(),
                )) || queue_scan_end(*final(self), a)
            }),
            (old(self).phase == PushPhase::AwaitQueueEntry && ev is Jj && crate::jj::resolved_pair(
                ev->Jj_0.success,
                ev->Jj_0.stdout@,
            ) is Some) ==> ({
                let p = crate::jj::resolved_pair(ev->Jj_0.success, ev->Jj_0.stdout@)->Some_0;
                &&& final(self).entries@.len() == old(self).entries@.len() + 1
                &&& final(self).entries@.drop_last() == old(self).entries@
                &&& final(self).entries@.last().change_id@ == p.0
                &&& final(self).entries@.last().commit_id@ == p.1
                &&& (final(self).phase == PushPhase::AwaitQueueEntry && reading_next(
                    *final(self),
                    a,
                    resolve_template(),
                )) || queue_scan_end(*final(self), a)
            }),
            (old(self).phase == PushPhase::AwaitFailedList && ev is Jj && ev->Jj_0.success) ==> ({
                &&& string_views(final(self).pending@) == crate::jj::nonempty_lines(
                    lines_of(ev->Jj_0.stdout@),
                )
                &&& final(self).failed@.len() == 0
                &&& (final(self).phase == PushPhase::AwaitFailedEntry && reading_next(
                    *final(self),
                    a,
                    "description"@,
                )) || failed_scan_end(*final(self), a)
            }),
            (old(self).phase == PushPhase::AwaitFailedEntry && ev is Jj && ev->Jj_0.success) ==> ({
                &&& final(self).failed@.len() == old(self).failed@.len() + 1
                &&& final(self).failed@.drop_last() == old(self).failed@
                &&& final(self).failed@.last().1@ == ev->Jj_0.stdout@
                &&& (final(self).phase == PushPhase::AwaitFailedEntry && reading_next(
                    *final(self),
                    a,
                    "description"@,
                )) || failed_scan_end(*final(self), a)
            }),
            ((old(self).phase == PushPhase::AwaitQueueList || old(self).phase
                == PushPhase::AwaitQueueEntry || old(self).phase == PushPhase::AwaitFailedList
                || old(self).phase == PushPhase::AwaitFailedEntry) && ev is Jj
                && !ev->Jj_0.success) ==> (a matches PushAction::Finish(Err(e)) && e.code == CONFLICT),
            (old(self).phase == PushPhase::AwaitProbe && ev is Jj && ev->Jj_0.success
                && crate::jj::first_created(lines_of(ev->Jj_0.stderr@)) is Some) ==> final(self).probe@
                == crate::jj::first_created(lines_of(ev->Jj_0.stderr@))->Some_0 && final(self).phase
                == PushPhase::AwaitConflictAnswer && (a matches PushAction::Jj(args) && string_views(
                args@,
            ) == seq![
                "--color=never"@,
                "log"@,
                "-r"@,
                final(self).probe@,
                "--no-graph"@,
                "-T"@,
                "if(conflict, \"yes\")"@,
            ]),
            old(self).phase == PushPhase::AwaitConflictAnswer ==> (a matches PushAction::Jj(args)
                && string_views(args@) == abandon_view(old(self).probe@)),
            (old(self).phase == PushPhase::AwaitAbandoned && old(self).conflicts == Some(
                Ok::<bool, JjError>(true),
            ) && ev is Jj && ev->Jj_0.success) ==> (a matches PushAction::Finish(Err(e)) && e.code
                == CONFLICT && e.message@ == "revision conflicts with trunk"@) && !final(self).deleted,
            (old(self).phase == PushPhase::AwaitAbandoned && old(self).conflicts == Some(
                Ok::<bool, JjError>(false),
            ) && ev is Jj && ev->Jj_0.success) ==> a is CheckInitialized,
            (old(self).phase == PushPhase::AwaitInitialized && ev == PushEvent::Initialized(false))
                ==> (a matches PushAction::Finish(Err(e)) && e.code == USAGE) && !final(self).deleted,
            (old(self).phase == PushPhase::AwaitInitialized && ev == PushEvent::Initialized(true))
                ==> a is AllocateId,
            (old(self).phase == PushPhase::AwaitId && ev is Allocated) ==> final(self).id
                == ev->Allocated_0 && final(self).phase == PushPhase::AwaitReplaced && (a matches PushAction::Delete {
                commands,
                ids,
                failed,
            } && !failed && ids@ == old(self).replace@ && batch_view(commands@) == deletions_view(
                queue_names(old(self).replace@),
            )),
            (old(self).phase == PushPhase::AwaitReplaced && ev == PushEvent::Deleted(Ok(()))) ==> (a matches PushAction::Delete {
                commands,
                ids,
                failed,
            } && failed && ids@ == old(self).clear@ && batch_view(commands@) == deletions_view(
                failed_names(old(self).clear@),
            )) && final(self).id == old(self).id,
            (old(self).phase == PushPhase::AwaitCleared && ev == PushEvent::Deleted(Ok(()))) ==> (a matches PushAction::Jj(
                args,
            ) && string_views(args@) == seq![
                "--color=never"@,
                "bookmark"@,
                "create"@,
                "-r"@,
                old(self).revset@,
                queue_name(old(self).id),
            ]) && final(self).id == old(self).id,
            (old(self).phase == PushPhase::AwaitCreated && ev is Jj && ev->Jj_0.success) ==> a
                == PushAction::Finish(Ok::<u32, ExitError>(old(self).id)),
            old(self).phase == PushPhase::Finished ==> (a matches PushAction::Finish(Err(_))),
    {
        match self.phase {
            PushPhase::Start => match ev {
                PushEvent::Begin => {
                    self.phase = PushPhase::AwaitResolved;
                    PushAction::Jj(resolve_revset_full_args(self.revset.as_str()))
                },
                _ => self.unexpected(),
            },
            PushPhase::AwaitResolved => match ev {
                PushEvent::Jj(out) => match resolve_revset_full(self.revset.as_str(), &out) {
                    Err(e) => {
                        let m = e.message();
                        self.finish(Err(ExitError::new(USAGE, m)))
                    },
                    Ok(pair) => {
                        self.change_id = pair.0;
                        self.commit_id = pair.1;
                        self.phase = PushPhase::AwaitTrunk;
                        PushAction::ReadTrunk
                    },
                },
                _ => self.unexpected(),
            },
            PushPhase::AwaitTrunk => match ev {
                PushEvent::Trunk(t) => {
                    self.trunk = get_trunk_bookmark(t);
                    self.phase = PushPhase::AwaitTrunkExists;
                    PushAction::Jj(bookmark_exists_args(self.trunk.as_str()))
                },
                _ => self.unexpected(),
            },
            PushPhase::AwaitTrunkExists => match ev {
                PushEvent::Jj(out) => match bookmark_exists(&out) {
                    Err(e) => self.finish(Err(jj_failure(e))),
                    Ok(false) => {
                        let e = usage_error("trunk bookmark '", self.trunk.as_str(), "' not found");
                        self.finish(Err(e))
                    },
                    Ok(true) => {
                        self.phase = PushPhase::AwaitQueueList;
                        PushAction::Jj(bookmark_list_glob_args("jjq/queue/??????"))
                    },
                },
                _ => self.unexpected(),
            },
            PushPhase::AwaitQueueList => match ev {
                PushEvent::Jj(out) => match bookmark_list_glob(&out) {
                    Err(e) => self.finish(Err(jj_failure(e))),
                    Ok(names) => {
                        self.pending = names;
                        self.next = 0;
                        self.entries = Vec::new();
                        self.next_queue_entry()
                    },
                },
                _ => self.unexpected(),
            },
            PushPhase::AwaitQueueEntry => match ev {
                PushEvent::Jj(out) => {
                    if self.next >= self.pending.len() {
                        return self.unexpected();
                    }
                    let rs = exact_bookmark(self.pending[self.next].as_str());
                    match resolve_revset_full(rs.as_str(), &out) {
                        Err(e) => self.finish(Err(jj_failure(e))),
                        Ok(pair) => {
                            let id = extract_id_from_bookmark(self.pending[self.next].as_str());
                            self.next = self.next + 1;
                            self.entries.push(QueueEntry { id, change_id: pair.0, commit_id: pair.1 });
                            self.next_queue_entry()
                        },
                    }
                },
                _ => self.unexpected(),
            },
            PushPhase::AwaitFailedList => match ev {
                PushEvent::Jj(out) => match bookmark_list_glob(&out) {
                    Err(e) => self.finish(Err(jj_failure(e))),
                    Ok(names) => {
                        self.pending = names;
                        self.next = 0;
                        self.failed = Vec::new();
                        self.next_failed_entry()
                    },
                },
                _ => self.unexpected(),
            },
            PushPhase::AwaitFailedEntry => match ev {
                PushEvent::Jj(out) => {
                    if self.next >= self.pending.len() {
                        return self.unexpected();
                    }
                    match run_ok(&out) {
                        Err(e) => self.finish(Err(jj_failure(e))),
                        Ok(desc) => {
                            let id = extract_id_from_bookmark(self.pending[self.next].as_str());
                            self.next = self.next + 1;
                            self.failed.push((id, desc));
                            self.next_failed_entry()
                        },
                    }
                },
                _ => self.unexpected(),
            },
            PushPhase::AwaitProbe => match ev {
                PushEvent::Jj(out) => match new_rev(&out) {
                    Err(e) => self.finish(Err(jj_failure(e))),
                    Ok(probe) => {
                        self.probe = probe;
                        self.mutated = true;
                        self.phase = PushPhase::AwaitConflictAnswer;
                        PushAction::Jj(has_conflicts_args(self.probe.as_str()))
                    },
                },
                _ => self.unexpected(),
            },
            PushPhase::AwaitConflictAnswer => {
                let answer = match ev {
                    PushEvent::Jj(out) => has_conflicts(&out),
                    _ => Err(JjError::Protocol(owned("no answer to the conflict query"))),
                };
                self.conflicts = Some(answer);
                self.phase = PushPhase::AwaitAbandoned;
                PushAction::Jj(abandon(self.probe.as_str()))
            },
            PushPhase::AwaitAbandoned => {
                let abandoned = match ev {
                    PushEvent::Jj(out) => run_quiet(&out),
                    _ => Err(JjError::Protocol(owned("no answer to the abandon"))),
                };
                match self.conflicts.take() {
                    Some(Err(e)) => self.finish(Err(jj_failure(e))),
                    Some(Ok(c)) => match abandoned {
                        Err(e) => self.finish(Err(jj_failure(e))),
                        Ok(()) => if c {
                            self.finish(Err(push_conflict_error()))
                        } else {
                            self.phase = PushPhase::AwaitInitialized;
                            PushAction::CheckInitialized
                        },
                    },
                    None => self.unexpected(),
                }
            },
            PushPhase::AwaitInitialized => match ev {
                PushEvent::Initialized(b) => match require_initialized(b) {
                    Err(e) => self.finish(Err(e)),
                    Ok(()) => {
                        self.phase = PushPhase::AwaitId;
                        PushAction::AllocateId
                    },
                },
                _ => self.unexpected(),
            },
            PushPhase::AwaitId => match ev {
                PushEvent::Allocated(id) => {
                    self.id = id;
                    let cs = deletions(&self.replace, false);
                    let ids = self.replace.clone();
                    proof {
                        assert(ids@ =~= self.replace@);
                    }
                    self.deleted = true;
                    self.phase = PushPhase::AwaitReplaced;
                    PushAction::Delete { commands: cs, ids, failed: false }
                },
                _ => self.unexpected(),
            },
            PushPhase::AwaitReplaced => match ev {
                PushEvent::Deleted(Err(e)) => self.finish(Err(jj_failure(e))),
                PushEvent::Deleted(Ok(())) => {
                    let cs = deletions(&self.clear, true);
                    let ids = self.clear.clone();
                    proof {
                        assert(ids@ =~= self.clear@);
                    }
                    self.phase = PushPhase::AwaitCleared;
                    PushAction::Delete { commands: cs, ids, failed: true }
                },
                _ => self.unexpected(),
            },
            PushPhase::AwaitCleared => match ev {
                PushEvent::Deleted(Err(e)) => self.finish(Err(jj_failure(e))),
                PushEvent::Deleted(Ok(())) => {
                    self.phase = PushPhase::AwaitCreated;
                    let q = queue_bookmark(self.id);
                    PushAction::Jj(bookmark_create(q.as_str(), self.revset.as_str()))
                },
                _ => self.unexpected(),
            },
            PushPhase::AwaitCreated => match ev {
                PushEvent::Jj(out) => match run_quiet(&out) {
                    Err(e) => self.finish(Err(jj_failure(e))),
                    Ok(()) => {
                        let id = self.id;
                        self.finish(Ok(id))
                    },
                },
                _ => self.unexpected(),
            },
            PushPhase::Finished => self.unexpected(),
        }
    }
}

} // verus!
