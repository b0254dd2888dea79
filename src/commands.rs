//! The decisions behind the commands: what `push` does with existing entries,
//! how `run --all` counts and ends, what `status` shows, which workspaces are
//! the queue's own, and how the `jj log` filter is extended.
use vstd::prelude::*;
use crate::engine::RunResult;
use crate::exit_codes::{ExitError, CONFLICT, PARTIAL, USAGE};
use crate::text::{
    chars_of, chunk_views, contains_text, contains_str, dec, has_prefix, lines_of, push_decimal,
    push_str, slice_chars, split_lines, split_words, string_of, words_of,
};
use crate::trailers::{extract_trailers, trailer_lookup, trailers_of};
use crate::config::JJQ_BOOKMARK;

verus! {

/// A queued entry as `push` sees it: its sequence ID and the change and commit
/// IDs its bookmark points at.
pub struct QueueEntry {
    pub id: u32,
    pub change_id: String,
    pub commit_id: String,
}

/// The first entry that already queues this commit.
pub open spec fn queued_commit(entries: Seq<QueueEntry>, commit_id: Seq<char>) -> Option<u32>
    decreases entries.len(),
{
    if entries.len() == 0 {
        None
    } else if entries[0].commit_id@ == commit_id {
        Some(entries[0].id)
    } else {
        queued_commit(entries.drop_first(), commit_id)
    }
}

/// The entries of the same change, in order: these are replaced.
pub open spec fn same_change(entries: Seq<QueueEntry>, change_id: Seq<char>) -> Seq<u32>
    decreases entries.len(),
{
    if entries.len() == 0 {
        seq![]
    } else if entries.last().change_id@ == change_id {
        same_change(entries.drop_last(), change_id).push(entries.last().id)
    } else {
        same_change(entries.drop_last(), change_id)
    }
}

/// What `push` does with the queued entries: refuse when one already queues the
/// same commit (giving its ID), else replace those of the same change.
pub fn plan_queue_push(change_id: &str, commit_id: &str, entries: &Vec<QueueEntry>) -> (r: Result<
    Vec<u32>,
    u32,
>)
    ensures
        match queued_commit(entries@, commit_id@) {
            Some(id) => r == Err::<Vec<u32>, u32>(id),
            None => r matches Ok(v) && v@ == same_change(entries@, change_id@),
        },
{
    let cm = chars_of(commit_id);
    let ch = chars_of(change_id);
    let mut i: usize = 0;
    proof {
        assert(entries@.skip(0) =~= entries@);
    }
    while i < entries.len()
        invariant
            i <= entries@.len(),
            cm@ == commit_id@,
            queued_commit(entries@, commit_id@) == queued_commit(entries@.skip(i as int), commit_id@),
        decreases entries@.len() - i,
    {
        let c = chars_of(entries[i].commit_id.as_str());
        proof {
            assert(entries@.skip(i as int)[0] == entries@[i as int]);
            assert(entries@.skip(i as int).drop_first() =~= entries@.skip(i + 1));
        }
        if crate::text::chars_equal(&c, &cm) {
            return Err(entries[i].id);
        }
        i = i + 1;
    }
    proof {
        assert(entries@.skip(i as int) =~= Seq::<QueueEntry>::empty());
    }
    let mut out: Vec<u32> = Vec::new();
    let mut k: usize = 0;
    proof {
        assert(entries@.take(0) =~= Seq::<QueueEntry>::empty());
    }
    while k < entries.len()
        invariant
            k <= entries@.len(),
            ch@ == change_id@,
            out@ == same_change(entries@.take(k as int), change_id@),
        decreases entries@.len() - k,
    {
        let c = chars_of(entries[k].change_id.as_str());
        proof {
            let t = entries@.take(k + 1);
            assert(t.drop_last() =~= entries@.take(k as int));
            assert(t.last() == entries@[k as int]);
        }
        if crate::text::chars_equal(&c, &ch) {
            out.push(entries[k].id);
        }
        k = k + 1;
    }
    proof {
        assert(entries@.take(k as int) =~= entries@);
    }
    Ok(out)
}

/// The failed entries whose `jjq-candidate` trailer names this change: these are
/// cleared.
pub open spec fn failed_of_change(failed: Seq<(u32, String)>, change_id: Seq<char>) -> Seq<u32>
    decreases failed.len(),
{
    if failed.len() == 0 {
        seq![]
    } else if trailer_lookup(trailers_of(lines_of(failed.last().1@)), "candidate"@) == Some(
        change_id,
    ) {
        failed_of_change(failed.drop_last(), change_id).push(failed.last().0)
    } else {
        failed_of_change(failed.drop_last(), change_id)
    }
}

/// Which failed entries `push` clears, from each entry's ID and description.
pub fn failed_to_clear(change_id: &str, failed: &Vec<(u32, String)>) -> (r: Vec<u32>)
    ensures
        r@ == failed_of_change(failed@, change_id@),
{
    let ch = chars_of(change_id);
    let mut out: Vec<u32> = Vec::new();
    let mut k: usize = 0;
    proof {
        assert(failed@.take(0) =~= Seq::<(u32, String)>::empty());
    }
    while k < failed.len()
        invariant
            k <= failed@.len(),
            ch@ == change_id@,
            out@ == failed_of_change(failed@.take(k as int), change_id@),
        decreases failed@.len() - k,
    {
        let ts = extract_trailers(failed[k].1.as_str());
        let cand = ts.get("candidate");
        proof {
            let t = failed@.take(k + 1);
            assert(t.drop_last() =~= failed@.take(k as int));
            assert(t.last() == failed@[k as int]);
        }
        match cand {
            Some(c) => {
                let cc = chars_of(c.as_str());
                if crate::text::chars_equal(&cc, &ch) {
                    out.push(failed[k].0);
                }
            },
            None => {},
        }
        k = k + 1;
    }
    proof {
        assert(failed@.take(k as int) =~= failed@);
    }
    out
}

proof fn lemma_same_change_member(entries: Seq<QueueEntry>, change_id: Seq<char>, i: int)
    requires
        0 <= i < entries.len(),
        entries[i].change_id@ == change_id,
    ensures
        same_change(entries, change_id).contains(entries[i].id),
    decreases entries.len(),
{
    let prev = same_change(entries.drop_last(), change_id);
    if i == entries.len() - 1 {
        assert(same_change(entries, change_id) == prev.push(entries[i].id));
        assert(same_change(entries, change_id)[prev.len() as int] == entries[i].id);
    } else {
        assert(entries.drop_last()[i] == entries[i]);
        lemma_same_change_member(entries.drop_last(), change_id, i);
        let j = choose|j: int| 0 <= j < prev.len() && prev[j] == entries[i].id;
        if entries.last().change_id@ == change_id {
            assert(same_change(entries, change_id)[j] == entries[i].id);
        }
    }
}

proof fn lemma_queued_commit_found(entries: Seq<QueueEntry>, commit_id: Seq<char>, i: int)
    requires
        0 <= i < entries.len(),
        entries[i].commit_id@ == commit_id,
    ensures
        queued_commit(entries, commit_id).is_some(),
    decreases entries.len(),
{
    if entries[0].commit_id@ != commit_id {
        assert(entries.drop_first()[i - 1] == entries[i]);
        lemma_queued_commit_found(entries.drop_first(), commit_id, i - 1);
    }
}

proof fn lemma_queued_commit_none(entries: Seq<QueueEntry>, commit_id: Seq<char>)
    requires
        forall|i: int| 0 <= i < entries.len() ==> entries[i].commit_id@ != commit_id,
    ensures
        queued_commit(entries, commit_id).is_none(),
    decreases entries.len(),
{
    if entries.len() > 0 {
        assert forall|i: int| 0 <= i < entries.drop_first().len() implies entries.drop_first()[
            i
        ].commit_id@ != commit_id by {
            assert(entries.drop_first()[i] == entries[i + 1]);
        }
        lemma_queued_commit_none(entries.drop_first(), commit_id);
    }
}

/// Pushing is idempotent: a commit that is already queued is refused, and a
/// newer commit of a queued change replaces every queue entry of that change.
pub proof fn lemma_push_idempotent(entries: Seq<QueueEntry>, change_id: Seq<char>, commit_id: Seq<char>)
    ensures
        (exists|i: int| 0 <= i < entries.len() && entries[i].commit_id@ == commit_id)
            <==> queued_commit(entries, commit_id).is_some(),
        forall|i: int|
            0 <= i < entries.len() && #[trigger] entries[i].change_id@ == change_id
                ==> same_change(entries, change_id).contains(entries[i].id),
{
    if exists|i: int| 0 <= i < entries.len() && entries[i].commit_id@ == commit_id {
        let i = choose|i: int| 0 <= i < entries.len() && entries[i].commit_id@ == commit_id;
        lemma_queued_commit_found(entries, commit_id, i);
    } else {
        lemma_queued_commit_none(entries, commit_id);
    }
    assert forall|i: int|
        0 <= i < entries.len() && #[trigger] entries[i].change_id@ == change_id implies same_change(
        entries,
        change_id,
    ).contains(entries[i].id) by {
        lemma_same_change_member(entries, change_id, i);
    }
}

/// A push's failed entry is cleared when its candidate trailer names the change
/// being pushed.
pub proof fn lemma_push_clears_failed(failed: Seq<(u32, String)>, change_id: Seq<char>, i: int)
    requires
        0 <= i < failed.len(),
        trailer_lookup(trailers_of(lines_of(failed[i].1@)), "candidate"@) == Some(change_id),
    ensures
        failed_of_change(failed, change_id).contains(failed[i].0),
    decreases failed.len(),
{
    let prev = failed_of_change(failed.drop_last(), change_id);
    if i == failed.len() - 1 {
        assert(failed_of_change(failed, change_id)[prev.len() as int] == failed[i].0);
    } else {
        assert(failed.drop_last()[i] == failed[i]);
        lemma_push_clears_failed(failed.drop_last(), change_id, i);
        let j = choose|j: int| 0 <= j < prev.len() && prev[j] == failed[i].0;
        assert(failed_of_change(failed, change_id)[j] == failed[i].0);
    }
}

/// Counts of `run --all`.
pub struct RunTally {
    pub merged: u32,
    pub failed: u32,
    pub skipped: u32,
}

/// What `run --all` does after one item.
pub enum TallyStep {
    /// Process the next item.
    Continue,
    /// Stop at this failure: print the message, if any, and end with the error.
    Stop(Option<String>, ExitError),
    /// The queue is empty: print the summary, if any, and end with the result.
    Done(Option<String>, Result<(), ExitError>),
}

pub open spec fn processed_text(merged: nat) -> Seq<char> {
    "processed "@ + dec(merged) + " item(s)"@
}

pub open spec fn bump(n: u32) -> u32 {
    if n < u32::MAX {
        (n + 1) as u32
    } else {
        n
    }
}

/// How `run --all` ends once the queue is empty: no summary when nothing was
/// processed; a partial failure when an item failed; otherwise how many items
/// were merged and skipped.
pub open spec fn summary_ok(t: RunTally, m: Option<String>, res: Result<(), ExitError>) -> bool {
    if t.merged == 0 && t.failed == 0 && t.skipped == 0 {
        m.is_none() && res.is_ok()
    } else if t.failed > 0 {
        (m matches Some(s) && s@ == processed_text(t.merged as nat) + ", "@ + dec(t.failed as nat)
            + " failed"@) && (res matches Err(e) && e.code == PARTIAL && e.message@ == m->Some_0@)
    } else if t.skipped > 0 {
        (m matches Some(s) && s@ == processed_text(t.merged as nat) + ", "@ + dec(
            t.skipped as nat,
        ) + " skipped (empty)"@) && res.is_ok()
    } else {
        (m matches Some(s) && s@ == processed_text(t.merged as nat)) && res.is_ok()
    }
}

impl RunTally {
    pub fn new() -> (r: RunTally)
        ensures
            r.merged == 0 && r.failed == 0 && r.skipped == 0,
    {
        RunTally { merged: 0, failed: 0, skipped: 0 }
    }

    /// The summary once the queue is empty.
    pub fn summary(&self) -> (r: (Option<String>, Result<(), ExitError>))
        ensures
            summary_ok(*self, r.0, r.1),
    {
        if self.merged == 0 && self.failed == 0 && self.skipped == 0 {
            return (None, Ok(()));
        }
        let mut m: Vec<char> = Vec::new();
        push_str(&mut m, "processed ");
        push_decimal(&mut m, self.merged as u64);
        push_str(&mut m, " item(s)");
        if self.failed > 0 {
            push_str(&mut m, ", ");
            push_decimal(&mut m, self.failed as u64);
            push_str(&mut m, " failed");
            let text = string_of(&m);
            let e = ExitError::new(PARTIAL, string_of(&m));
            proof {
                assert(m@ =~= processed_text(self.merged as nat) + ", "@ + dec(self.failed as nat)
                    + " failed"@);
            }
            return (Some(text), Err(e));
        }
        if self.skipped > 0 {
            push_str(&mut m, ", ");
            push_decimal(&mut m, self.skipped as u64);
            push_str(&mut m, " skipped (empty)");
            proof {
                assert(m@ =~= processed_text(self.merged as nat) + ", "@ + dec(self.skipped as nat)
                    + " skipped (empty)"@);
            }
        }
        (Some(string_of(&m)), Ok(()))
    }

    /// Counts one item's result and says whether `run --all` goes on. An item
    /// that could not be taken up at all (run lock held, no check command) ends
    /// the loop, since every further attempt would meet the same.
    pub fn record(&mut self, result: &RunResult, stop_on_failure: bool) -> (r: TallyStep)
        ensures
            result is Success ==> r is Continue && final(self).merged == bump(old(self).merged)
                && final(self).failed == old(self).failed && final(self).skipped == old(self).skipped,
            result is Skipped ==> r is Continue && final(self).skipped == bump(old(self).skipped)
                && final(self).merged == old(self).merged && final(self).failed == old(self).failed,
            result is Empty ==> *final(self) == *old(self) && (r matches TallyStep::Done(m, res)
                && summary_ok(*old(self), m, res)),
            (result is Failure && !stop_on_failure) ==> r is Continue && final(self).failed
                == bump(old(self).failed) && final(self).merged == old(self).merged
                && final(self).skipped == old(self).skipped,
            (result is Failure && stop_on_failure) ==> (r matches TallyStep::Stop(m, e) && e.code
                == CONFLICT && e.message@ == result->Failure_1@ && (old(self).merged > 0 ==> (m
                matches Some(t) && t@ == processed_text(old(self).merged as nat)
                + " before failure"@)) && (old(self).merged == 0 ==> m.is_none())),
            result is Blocked ==> (r matches TallyStep::Stop(m, e) && m.is_none() && e.code
                == result->Blocked_0 && e.message@ == result->Blocked_1@),
    {
        match result {
            RunResult::Success => {
                if self.merged < u32::MAX {
                    self.merged = self.merged + 1;
                }
                TallyStep::Continue
            },
            RunResult::Skipped => {
                if self.skipped < u32::MAX {
                    self.skipped = self.skipped + 1;
                }
                TallyStep::Continue
            },
            RunResult::Empty => {
                let (m, res) = self.summary();
                TallyStep::Done(m, res)
            },
            RunResult::Blocked(code, msg) => {
                let c = chars_of(msg.as_str());
                TallyStep::Stop(None, ExitError::new(*code, string_of(&c)))
            },
            RunResult::Failure(_, msg) => {
                if stop_on_failure {
                    let note = if self.merged > 0 {
                        let mut m: Vec<char> = Vec::new();
                        push_str(&mut m, "processed ");
                        push_decimal(&mut m, self.merged as u64);
                        push_str(&mut m, " item(s)");
                        push_str(&mut m, " before failure");
                        proof {
                            assert(m@ =~= processed_text(self.merged as nat) + " before failure"@);
                        }
                        Some(string_of(&m))
                    } else {
                        None
                    };
                    let c = chars_of(msg.as_str());
                    TallyStep::Stop(note, ExitError::new(CONFLICT, string_of(&c)))
                } else {
                    if self.failed < u32::MAX {
                        self.failed = self.failed + 1;
                    }
                    TallyStep::Continue
                }
            },
        }
    }
}

/// Whether a workspace belongs to the queue: `jjq-` names, and bare `jjq<n>` ones.
pub open spec fn jjq_workspace(name: Seq<char>) -> bool {
    "jjq-"@.is_prefix_of(name) || ("jjq"@.is_prefix_of(name) && name.len() > 3)
}

/// Whether a workspace name is one of the queue's own.
pub fn is_jjq_workspace(name: &str) -> (r: bool)
    ensures
        r == jjq_workspace(name@),
{
    let n = chars_of(name);
    let a = chars_of("jjq-");
    let b = chars_of("jjq");
    has_prefix(&n, &a) || (has_prefix(&n, &b) && n.len() > 3)
}

/// `s` without its trailing `:` characters.
pub open spec fn strip_colons(s: Seq<char>) -> Seq<char>
    decreases s.len(),
{
    if s.len() > 0 && s.last() == ':' {
        strip_colons(s.drop_last())
    } else {
        s
    }
}

/// The workspace named on a line of `jj workspace list`: its first word without
/// trailing colons (empty for a blank line).
pub open spec fn listed_workspace(line: Seq<char>) -> Seq<char> {
    let w = words_of(line);
    if w.len() == 0 {
        seq![]
    } else {
        strip_colons(w[0])
    }
}

/// The queue's own workspaces, in the order listed.
pub open spec fn jjq_workspaces_of(ls: Seq<Seq<char>>) -> Seq<Seq<char>>
    decreases ls.len(),
{
    if ls.len() == 0 {
        seq![]
    } else if jjq_workspace(listed_workspace(ls.last())) {
        jjq_workspaces_of(ls.drop_last()).push(listed_workspace(ls.last()))
    } else {
        jjq_workspaces_of(ls.drop_last())
    }
}

fn listed_name(line: &Vec<char>) -> (r: Vec<char>)
    ensures
        r@ == listed_workspace(line@),
{
    let w = split_words(line);
    if w.len() == 0 {
        return Vec::new();
    }
    let first = &w[0];
    let mut k: usize = first.len();
    proof {
        assert(first@.subrange(0, k as int) =~= first@);
    }
    while k > 0 && first[k - 1] == ':'
        invariant
            k <= first@.len(),
            strip_colons(first@) == strip_colons(first@.subrange(0, k as int)),
        decreases k,
    {
        proof {
            let t = first@.subrange(0, k as int);
            assert(t.last() == first@[k - 1]);
            assert(t.drop_last() =~= first@.subrange(0, k - 1));
        }
        k = k - 1;
    }
    proof {
        let t = first@.subrange(0, k as int);
        if k > 0 {
            assert(t.last() == first@[k - 1]);
        }
    }
    slice_chars(first, 0, k)
}

/// The queue's own workspaces named in a `jj workspace list` listing.
pub fn jjq_workspaces(listing: &str) -> (r: Vec<String>)
    ensures
        crate::text::string_views(r@) == jjq_workspaces_of(lines_of(listing@)),
{
    let cs = chars_of(listing);
    let lines = split_lines(&cs);
    let ghost ls = chunk_views(lines@);
    let mut out: Vec<String> = Vec::new();
    let mut i: usize = 0;
    proof {
        assert(ls.take(0) =~= Seq::<Seq<char>>::empty());
        assert(crate::text::string_views(out@) =~= Seq::<Seq<char>>::empty());
    }
    while i < lines.len()
        invariant
            i <= lines@.len(),
            ls == chunk_views(lines@),
            ls == lines_of(listing@),
            crate::text::string_views(out@) == jjq_workspaces_of(ls.take(i as int)),
        decreases lines@.len() - i,
    {
        proof {
            let u = ls.take(i + 1);
            assert(u.drop_last() =~= ls.take(i as int));
            assert(u.last() == lines@[i as int]@);
        }
        let name = listed_name(&lines[i]);
        let s = string_of(&name);
        if is_jjq_workspace(s.as_str()) {
            let ghost before = out@;
            out.push(s);
            proof {
                assert(crate::text::string_views(out@) =~= crate::text::string_views(before).push(
                    s@,
                ));
            }
        }
        i = i + 1;
    }
    proof {
        assert(ls.take(i as int) =~= ls);
    }
    out
}

/// The value to give `revsets.log` so that `jj log` hides the metadata branch,
/// composed with the current filter; nothing when the filter already does.
pub fn setup_log_filter(current: Option<String>) -> (r: Option<String>)
    ensures
        match current {
            None => r matches Some(v) && v@ == "~ ::"@ + JJQ_BOOKMARK@,
            Some(c) => if contains_text(c@, JJQ_BOOKMARK@) {
                r.is_none()
            } else {
                r matches Some(v) && v@ == "("@ + c@ + ") "@ + "~ ::"@ + JJQ_BOOKMARK@
            },
        },
{
    let mut exclude: Vec<char> = Vec::new();
    push_str(&mut exclude, "~ ::");
    push_str(&mut exclude, JJQ_BOOKMARK);
    match current {
        None => Some(string_of(&exclude)),
        Some(c) => {
            if contains_str(c.as_str(), JJQ_BOOKMARK) {
                None
            } else {
                let mut v: Vec<char> = Vec::new();
                push_str(&mut v, "(");
                push_str(&mut v, c.as_str());
                push_str(&mut v, ") ");
                crate::text::push_chars(&mut v, &exclude);
                proof {
                    assert(v@ =~= "("@ + c@ + ") "@ + "~ ::"@ + JJQ_BOOKMARK@);
                }
                Some(string_of(&v))
            }
        },
    }
}

/// The first line of a description, empty when it has none.
pub open spec fn first_line_of(d: Seq<char>) -> Seq<char> {
    if lines_of(d).len() > 0 {
        lines_of(d)[0]
    } else {
        seq![]
    }
}

/// The first line of a description.
pub fn first_line(description: &str) -> (r: String)
    ensures
        r@ == first_line_of(description@),
{
    let cs = chars_of(description);
    let lines = split_lines(&cs);
    proof {
        assert(chunk_views(lines@).len() == lines@.len());
    }
    if lines.len() > 0 {
        proof {
            assert(chunk_views(lines@)[0] == lines@[0]@);
        }
        string_of(&lines[0])
    } else {
        String::new()
    }
}

/// A queued item as `status` shows it.
pub struct QueueItem {
    pub id: u32,
    pub change_id: String,
    pub commit_id: String,
    pub description: String,
}

/// A failed item as `status` shows it, drawn from its failure trailers.
pub struct FailedItem {
    pub id: u32,
    pub candidate_change_id: String,
    pub candidate_commit_id: String,
    pub description: String,
    pub trunk_commit_id: String,
    pub workspace_path: String,
    pub failure_reason: String,
}

/// The status record of a queued item: the first line of its description.
pub fn build_queue_item(id: u32, change_id: String, commit_id: String, description: &str) -> (r:
    QueueItem)
    ensures
        r.id == id,
        r.change_id@ == change_id@,
        r.commit_id@ == commit_id@,
        r.description@ == first_line_of(description@),
{
    let d = first_line(description);
    QueueItem { id, change_id, commit_id, description: d }
}

pub open spec fn trailer_or_empty(desc: Seq<char>, key: Seq<char>) -> Seq<char> {
    match trailer_lookup(trailers_of(lines_of(desc)), key) {
        Some(v) => v,
        None => seq![],
    }
}

fn trailer_value(ts: &crate::trailers::Trailers, key: &str) -> (r: String)
    ensures
        r@ == match trailer_lookup(ts@, key@) {
            Some(v) => v,
            None => seq![],
        },
{
    match ts.get(key) {
        Some(v) => v,
        None => String::new(),
    }
}

/// The status record of a failed item, from the description of its failed
/// bookmark's target and, when the candidate could be looked up, the candidate's
/// own description (of which the first line is shown).
pub fn build_failed_item(id: u32, failed_description: &str, candidate_description: Option<String>) -> (r:
    FailedItem)
    ensures
        r.id == id,
        r.candidate_change_id@ == trailer_or_empty(failed_description@, "candidate"@),
        r.candidate_commit_id@ == trailer_or_empty(failed_description@, "candidate-commit"@),
        r.trunk_commit_id@ == trailer_or_empty(failed_description@, "trunk"@),
        r.workspace_path@ == trailer_or_empty(failed_description@, "workspace"@),
        r.failure_reason@ == trailer_or_empty(failed_description@, "failure"@),
        r.description@ == match candidate_description {
            Some(d) => first_line_of(d@),
            None => seq![],
        },
{
    let ts = extract_trailers(failed_description);
    let description = match candidate_description {
        Some(d) => first_line(d.as_str()),
        None => String::new(),
    };
    FailedItem {
        id,
        candidate_change_id: trailer_value(&ts, "candidate"),
        candidate_commit_id: trailer_value(&ts, "candidate-commit"),
        description,
        trunk_commit_id: trailer_value(&ts, "trunk"),
        workspace_path: trailer_value(&ts, "workspace"),
        failure_reason: trailer_value(&ts, "failure"),
    }
}

/// The path on the first `Workspace: <path>` line of a block, trimmed.
pub open spec fn workspace_line(block: Seq<Seq<char>>) -> Option<Seq<char>>
    decreases block.len(),
{
    if block.len() == 0 {
        None
    } else if "Workspace: "@.is_prefix_of(block[0]) {
        Some(crate::text::trimmed(block[0].skip("Workspace: "@.len() as int)))
    } else {
        workspace_line(block.drop_first())
    }
}

/// What a block of a metadata description says of the workspace, when the
/// block names the sequence ID (`needle`).
pub open spec fn block_path(block: Seq<Seq<char>>, needle: Seq<char>) -> Option<Seq<char>> {
    if exists|i: int| 0 <= i < block.len() && contains_text(#[trigger] block[i], needle) {
        workspace_line(block)
    } else {
        None
    }
}

/// The workspace path that the first matching block of the metadata history
/// records; blocks are separated by `---` lines, and `block` holds the lines of
/// the current block read so far.
pub open spec fn history_path(ls: Seq<Seq<char>>, block: Seq<Seq<char>>, needle: Seq<char>) -> Option<
    Seq<char>,
>
    decreases ls.len(),
{
    if ls.len() == 0 {
        block_path(block, needle)
    } else if ls[0] == "---"@ {
        match block_path(block, needle) {
            Some(p) => Some(p),
            None => history_path(ls.drop_first(), seq![], needle),
        }
    } else {
        history_path(ls.drop_first(), block.push(ls[0]), needle)
    }
}

/// The text that names sequence ID `id` in a metadata description.
pub open spec fn sequence_needle(id: u32) -> Seq<char> {
    "Sequence-Id: "@ + dec(id as nat)
}

fn any_line_contains(block: &Vec<Vec<char>>, needle: &Vec<char>) -> (r: bool)
    ensures
        r == exists|i: int| 0 <= i < block@.len() && contains_text(#[trigger] chunk_views(block@)[i], needle@),
{
    let ghost b = chunk_views(block@);
    let mut i: usize = 0;
    while i < block.len()
        invariant
            i <= block@.len(),
            b == chunk_views(block@),
            forall|j: int| 0 <= j < i ==> !contains_text(#[trigger] b[j], needle@),
        decreases block@.len() - i,
    {
        proof {
            assert(b[i as int] == block@[i as int]@);
        }
        if crate::text::contains_chars(&block[i], needle) {
            return true;
        }
        i = i + 1;
    }
    false
}

fn block_path_exec(block: &Vec<Vec<char>>, needle: &Vec<char>) -> (r: Option<String>)
    ensures
        match block_path(chunk_views(block@), needle@) {
            Some(p) => r matches Some(s) && s@ == p,
            None => r.is_none(),
        },
{
    let ghost b = chunk_views(block@);
    if !any_line_contains(block, needle) {
        return None;
    }
    proof {
        assert(block_path(b, needle@) == workspace_line(b));
    }
    let p = chars_of("Workspace: ");
    let mut k: usize = 0;
    proof {
        assert(b.skip(0) =~= b);
    }
    while k < block.len()
        invariant
            k <= block@.len(),
            b == chunk_views(block@),
            p@ == "Workspace: "@,
            block_path(b, needle@) == workspace_line(b),
            workspace_line(b) == workspace_line(b.skip(k as int)),
        decreases block@.len() - k,
    {
        proof {
            assert(b.skip(k as int)[0] == block@[k as int]@);
            assert(b.skip(k as int).drop_first() =~= b.skip(k + 1));
        }
        if has_prefix(&block[k], &p) {
            let rest = slice_chars(&block[k], p.len(), block[k].len());
            let t = crate::text::trim_chars(&rest);
            proof {
                assert(rest@ =~= block@[k as int]@.skip("Workspace: "@.len() as int));
            }
            return Some(string_of(&t));
        }
        k = k + 1;
    }
    proof {
        assert(b.skip(k as int) =~= Seq::<Seq<char>>::empty());
    }
    None
}

/// The workspace path recorded for a failed item: the trimmed contents of its
/// `workspace/NNNNNN` metadata file when that file could be read and is not
/// blank; otherwise what the metadata history (the descriptions of the metadata
/// branch's commits, each followed by a `---` line) records next to
/// `Sequence-Id: N`.
pub fn lookup_workspace_path(recorded: Option<String>, history: Option<String>, id: u32) -> (r:
    Option<String>)
    ensures
        match recorded {
            Some(f) if crate::text::trimmed(f@).len() > 0 => r matches Some(p) && p@
                == crate::text::trimmed(f@),
            _ => match history {
                Some(h) => match history_path(lines_of(h@), seq![], sequence_needle(id)) {
                    Some(p) => r matches Some(s) && s@ == p,
                    None => r.is_none(),
                },
                None => r.is_none(),
            },
        },
{
    match &recorded {
        Some(f) => {
            let p = crate::text::trim_str(f.as_str());
            if p.as_str().unicode_len() > 0 {
                return Some(p);
            }
        },
        None => {},
    }
    let h = match history {
        Some(h) => h,
        None => return None,
    };
    let mut needle: Vec<char> = Vec::new();
    push_str(&mut needle, "Sequence-Id: ");
    push_decimal(&mut needle, id as u64);
    let cs = chars_of(h.as_str());
    let lines = split_lines(&cs);
    let sep = chars_of("---");
    let ghost ls = chunk_views(lines@);
    let mut block: Vec<Vec<char>> = Vec::new();
    let mut i: usize = 0;
    proof {
        assert(ls.skip(0) =~= ls);
        assert(chunk_views(block@) =~= Seq::<Seq<char>>::empty());
    }
    while i < lines.len()
        invariant
            i <= lines@.len(),
            ls == chunk_views(lines@),
            ls == lines_of(h@),
            sep@ == "---"@,
            needle@ == sequence_needle(id),
            history == Some(h),
            match recorded {
                Some(f) => crate::text::trimmed(f@).len() == 0,
                None => true,
            },
            history_path(ls, seq![], needle@) == history_path(
                ls.skip(i as int),
                chunk_views(block@),
                needle@,
            ),
        decreases lines@.len() - i,
    {
        let ghost rest = ls.skip(i as int);
        proof {
            assert(rest[0] == lines@[i as int]@);
            assert(rest.drop_first() =~= ls.skip(i + 1));
        }
        if crate::text::chars_equal(&lines[i], &sep) {
            match block_path_exec(&block, &needle) {
                Some(p) => return Some(p),
                None => {},
            }
            block = Vec::new();
            proof {
                assert(chunk_views(block@) =~= Seq::<Seq<char>>::empty());
            }
        } else {
            let line = slice_chars(&lines[i], 0, lines[i].len());
            let ghost before = chunk_views(block@);
            block.push(line);
            proof {
                assert(line@ =~= lines@[i as int]@);
                assert(chunk_views(block@) =~= before.push(lines@[i as int]@));
            }
        }
        i = i + 1;
    }
    proof {
        assert(ls.skip(i as int) =~= Seq::<Seq<char>>::empty());
    }
    block_path_exec(&block, &needle)
}

/// The error of `push` when the revision is already queued.
pub fn already_queued_error() -> (r: ExitError)
    ensures
        r.code == USAGE,
        r.message@ == "revision already queued"@,
{
    ExitError::new(USAGE, crate::text::owned("revision already queued"))
}

/// The error of `push` when the revision conflicts with trunk.
pub fn push_conflict_error() -> (r: ExitError)
    ensures
        r.code == CONFLICT,
        r.message@ == "revision conflicts with trunk"@,
{
    ExitError::new(CONFLICT, crate::text::owned("revision conflicts with trunk"))
}

/// The error of `delete` and `status` for an ID that is neither queued nor failed.
pub fn not_found_error(id: u32) -> (r: ExitError)
    ensures
        r.code == CONFLICT,
        r.message@ == "item "@ + dec(id as nat) + " not found in queue or failed"@,
{
    let mut m: Vec<char> = Vec::new();
    push_str(&mut m, "item ");
    push_decimal(&mut m, id as u64);
    push_str(&mut m, " not found in queue or failed");
    ExitError::new(CONFLICT, string_of(&m))
}

fn has_name(names: &Vec<String>, name: &str) -> (r: bool)
    ensures
        r == exists|i: int| 0 <= i < names@.len() && #[trigger] names@[i]@ == name@,
{
    let want = chars_of(name);
    let mut i: usize = 0;
    while i < names.len()
        invariant
            i <= names@.len(),
            want@ == name@,
            forall|j: int| 0 <= j < i ==> #[trigger] names@[j]@ != name@,
        decreases names@.len() - i,
    {
        let c = chars_of(names[i].as_str());
        if crate::text::chars_equal(&c, &want) {
            return true;
        }
        i = i + 1;
    }
    false
}

/// The trunk that `init` offers by default: `main` when that bookmark exists,
/// else `master` when it does, else none.
pub fn default_trunk(bookmarks: &Vec<String>) -> (r: Option<&'static str>)
    ensures
        (exists|i: int| 0 <= i < bookmarks@.len() && #[trigger] bookmarks@[i]@ == "main"@) ==> (r
            matches Some(t) && t@ == "main"@),
        !(exists|i: int| 0 <= i < bookmarks@.len() && #[trigger] bookmarks@[i]@ == "main"@) ==> ((
        exists|i: int| 0 <= i < bookmarks@.len() && #[trigger] bookmarks@[i]@ == "master"@) ==> (r
            matches Some(t) && t@ == "master"@)),
        !(exists|i: int| 0 <= i < bookmarks@.len() && #[trigger] bookmarks@[i]@ == "main"@) && !(
        exists|i: int| 0 <= i < bookmarks@.len() && #[trigger] bookmarks@[i]@ == "master"@) ==> r.is_none(),
{
    if has_name(bookmarks, "main") {
        Some("main")
    } else if has_name(bookmarks, "master") {
        Some("master")
    } else {
        None
    }
}

/// Whether the `jj log` filter already hides the metadata branch.
pub fn log_filter_hides_metadata(current: &Option<String>) -> (r: bool)
    ensures
        r == (current matches Some(c) && contains_text(c@, JJQ_BOOKMARK@)),
{
    match current {
        Some(c) => contains_str(c.as_str(), JJQ_BOOKMARK),
        None => false,
    }
}

/// Whether to show the one-time hint about hiding the metadata branch from
/// `jj log`: on a terminal (or when forced), while the filter does not hide it,
/// in an initialised repository where the hint has not been shown yet.
pub fn should_show_log_hint(
    forced: bool,
    terminal: bool,
    current_filter: &Option<String>,
    initialized: bool,
    already_shown: bool,
) -> (r: bool)
    ensures
        r == ((forced || terminal) && !(current_filter matches Some(c) && contains_text(
            c@,
            JJQ_BOOKMARK@,
        )) && initialized && !already_shown),
{
    (forced || terminal) && !log_filter_hides_metadata(current_filter) && initialized
        && !already_shown
}

/// The last line of `doctor`: `all checks passed`, or the counts of failures
/// and warnings.
pub fn doctor_summary(fails: u32, warns: u32) -> (r: String)
    ensures
        r@ == (if fails == 0 && warns == 0 {
            "all checks passed"@
        } else if warns == 0 {
            dec(fails as nat) + " failure(s)"@
        } else if fails == 0 {
            dec(warns as nat) + " warning(s)"@
        } else {
            dec(fails as nat) + " failure(s)"@ + ", "@ + dec(warns as nat) + " warning(s)"@
        }),
{
    let mut m: Vec<char> = Vec::new();
    if fails == 0 && warns == 0 {
        push_str(&mut m, "all checks passed");
        return string_of(&m);
    }
    if fails > 0 {
        push_decimal(&mut m, fails as u64);
        push_str(&mut m, " failure(s)");
    }
    if fails > 0 && warns > 0 {
        push_str(&mut m, ", ");
    }
    if warns > 0 {
        push_decimal(&mut m, warns as u64);
        push_str(&mut m, " warning(s)");
    }
    proof {
        if fails > 0 && warns > 0 {
            assert(m@ =~= dec(fails as nat) + " failure(s)"@ + ", "@ + dec(warns as nat)
                + " warning(s)"@);
        }
    }
    string_of(&m)
}

/// The first queued item whose change ID (where it could be resolved) is `change_id`.
pub open spec fn queued_with_change(queue: Seq<(u32, Option<String>)>, change_id: Seq<char>) -> Option<u32>
    decreases queue.len(),
{
    if queue.len() == 0 {
        None
    } else if queue[0].1 matches Some(c) && c@ == change_id {
        Some(queue[0].0)
    } else {
        queued_with_change(queue.drop_first(), change_id)
    }
}

/// The first failed item whose description (where it could be read) has a
/// `jjq-candidate` trailer naming `change_id`.
pub open spec fn failed_with_change(failed: Seq<(u32, Option<String>)>, change_id: Seq<char>) -> Option<u32>
    decreases failed.len(),
{
    if failed.len() == 0 {
        None
    } else if failed[0].1 matches Some(d) && trailer_lookup(trailers_of(lines_of(d@)), "candidate"@)
        == Some(change_id) {
        Some(failed[0].0)
    } else {
        failed_with_change(failed.drop_first(), change_id)
    }
}

/// Finds an item by its candidate's change ID: a queued one first (with the
/// change ID each queue bookmark resolved to), else a failed one (with each
/// failed bookmark's description). The flag says whether it is queued.
pub fn find_by_change_id(
    change_id: &str,
    queue: &Vec<(u32, Option<String>)>,
    failed: &Vec<(u32, Option<String>)>,
) -> (r: Option<(u32, bool)>)
    ensures
        match queued_with_change(queue@, change_id@) {
            Some(id) => r == Some((id, true)),
            None => match failed_with_change(failed@, change_id@) {
                Some(id) => r == Some((id, false)),
                None => r.is_none(),
            },
        },
{
    let want = chars_of(change_id);
    let mut i: usize = 0;
    proof {
        assert(queue@.skip(0) =~= queue@);
    }
    while i < queue.len()
        invariant
            i <= queue@.len(),
            want@ == change_id@,
            queued_with_change(queue@, change_id@) == queued_with_change(queue@.skip(i as int), change_id@),
        decreases queue@.len() - i,
    {
        proof {
            assert(queue@.skip(i as int)[0] == queue@[i as int]);
            assert(queue@.skip(i as int).drop_first() =~= queue@.skip(i + 1));
        }
        match &queue[i].1 {
            Some(c) => {
                let cc = chars_of(c.as_str());
                if crate::text::chars_equal(&cc, &want) {
                    return Some((queue[i].0, true));
                }
            },
            None => {},
        }
        i = i + 1;
    }
    proof {
        assert(queue@.skip(i as int) =~= Seq::<(u32, Option<String>)>::empty());
    }
    let mut k: usize = 0;
    proof {
        assert(failed@.skip(0) =~= failed@);
    }
    while k < failed.len()
        invariant
            k <= failed@.len(),
            want@ == change_id@,
            queued_with_change(queue@, change_id@).is_none(),
            failed_with_change(failed@, change_id@) == failed_with_change(failed@.skip(k as int), change_id@),
        decreases failed@.len() - k,
    {
        proof {
            assert(failed@.skip(k as int)[0] == failed@[k as int]);
            assert(failed@.skip(k as int).drop_first() =~= failed@.skip(k + 1));
        }
        match &failed[k].1 {
            Some(d) => {
                let ts = extract_trailers(d.as_str());
                match ts.get("candidate") {
                    Some(c) => {
                        let cc = chars_of(c.as_str());
                        if crate::text::chars_equal(&cc, &want) {
                            return Some((failed[k].0, false));
                        }
                    },
                    None => {},
                }
            },
            None => {},
        }
        k = k + 1;
    }
    proof {
        assert(failed@.skip(k as int) =~= Seq::<(u32, Option<String>)>::empty());
    }
    None
}

/// The value that `config <key>` shows, from the value stored for it (none when
/// unset or not initialised): the trunk defaults to `main`, an unset check
/// command shows as empty, and the strategy defaults to `merge`.
pub fn config_display_value(key: &str, stored: Option<String>) -> (r: Result<String, ExitError>)
    ensures
        !crate::config::valid_key(key@) ==> (r matches Err(e) && e.code == USAGE
            && e.message@ == crate::config::unknown_key_message(key@)),
        key@ == "trunk_bookmark"@ ==> (r matches Ok(v) && v@ == match stored {
            Some(s) => s@,
            None => "main"@,
        }),
        key@ == "check_command"@ ==> (r matches Ok(v) && v@ == match stored {
            Some(s) => s@,
            None => seq![],
        }),
        (key@ == "strategy"@ && (stored is None || stored->Some_0@ == "merge"@)) ==> (r matches Ok(v) && v@ == "merge"@),
        (key@ == "strategy"@ && (stored matches Some(s) && s@ == "rebase"@)) ==> (r matches Ok(v) && v@ == "rebase"@),
        (key@ == "strategy"@ && (stored matches Some(s) && s@ != "merge"@ && s@ != "rebase"@)) ==> r is Err,
{
    proof {
        reveal_strlit("trunk_bookmark");
        reveal_strlit("check_command");
        reveal_strlit("strategy");
        assert("trunk_bookmark"@[0] != "check_command"@[0]);
        assert("trunk_bookmark"@[0] != "strategy"@[0]);
        assert("check_command"@[0] != "strategy"@[0]);
    }
    let k = chars_of(key);
    let t = chars_of("trunk_bookmark");
    let c = chars_of("check_command");
    let st = chars_of("strategy");
    if crate::text::chars_equal(&k, &t) {
        Ok(crate::config::get_trunk_bookmark(stored))
    } else if crate::text::chars_equal(&k, &c) {
        match stored {
            Some(v) => Ok(v),
            None => Ok(String::new()),
        }
    } else if crate::text::chars_equal(&k, &st) {
        match crate::config::get_strategy(stored) {
            Ok(s) => Ok(crate::text::owned(s.as_str())),
            Err(e) => Err(e),
        }
    } else {
        match crate::config::validate_set(key, "") {
            Err(e) => Err(e),
            Ok(()) => Err(ExitError::new(USAGE, String::new())),
        }
    }
}

/// What `tail --follow` does after one poll of the log.
pub struct FollowStep {
    /// Lines to print, in order.
    pub lines: Vec<String>,
    /// Whether to stop following.
    pub stop: bool,
    /// The byte offset to read from next.
    pub offset: u64,
}

/// Decides one poll of `tail --follow`: `appended` is what the log holds past
/// `offset` (when it grew; after a truncation the whole log), `file_len` its
/// length now. New lines are printed up to a sentinel line, which ends the
/// follow; a log that did not grow ends it once the runner is no longer active.
pub fn follow_step(offset: u64, file_len: u64, appended: &str, runner_active: bool) -> (r: FollowStep)
    ensures
        ({
            let start = if file_len < offset { 0 } else { offset };
            if file_len > start {
                let ls = lines_of(appended@);
                &&& r.offset == file_len
                &&& r.stop == exists|i: int| 0 <= i < ls.len() && crate::runlog::is_sentinel_text(#[trigger] ls[i])
                &&& r.stop ==> r.lines@.len() < ls.len() && crate::runlog::is_sentinel_text(ls[r.lines@.len() as int])
                &&& !r.stop ==> r.lines@.len() == ls.len()
                &&& forall|i: int| 0 <= i < r.lines@.len() ==> !crate::runlog::is_sentinel_text(#[trigger] r.lines@[i]@)
                &&& crate::text::string_views(r.lines@) =~= ls.take(r.lines@.len() as int)
            } else {
                &&& r.offset == start
                &&& r.lines@.len() == 0
                &&& r.stop == !runner_active
            }
        }),
{
    let start = if file_len < offset { 0 } else { offset };
    if file_len <= start {
        return FollowStep { lines: Vec::new(), stop: !runner_active, offset: start };
    }
    let cs = chars_of(appended);
    let lines = split_lines(&cs);
    let p = chars_of(crate::runlog::SENTINEL_PREFIX);
    let ghost ls = chunk_views(lines@);
    let mut out: Vec<String> = Vec::new();
    let mut i: usize = 0;
    while i < lines.len()
        invariant
            i <= lines@.len(),
            ls == chunk_views(lines@),
            ls == lines_of(appended@),
            p@ == crate::runlog::SENTINEL_PREFIX@,
            start == (if file_len < offset { 0 } else { offset }),
            file_len > start,
            out@.len() == i,
            crate::text::string_views(out@) =~= ls.take(i as int),
            forall|j: int| 0 <= j < i ==> !crate::runlog::is_sentinel_text(#[trigger] ls[j]),
        decreases lines@.len() - i,
    {
        proof {
            assert(ls[i as int] == lines@[i as int]@);
        }
        if has_prefix(&lines[i], &p) {
            proof {
                assert(crate::runlog::is_sentinel_text(ls[i as int]));
                assert(exists|j: int| 0 <= j < ls.len() && crate::runlog::is_sentinel_text(#[trigger] ls[j]));
                assert forall|j: int| 0 <= j < out@.len() implies !crate::runlog::is_sentinel_text(#[trigger] out@[j]@) by {
                    assert(crate::text::string_views(out@)[j] == out@[j]@);
                }
            }
            return FollowStep { lines: out, stop: true, offset: file_len };
        }
        let s = string_of(&lines[i]);
        let ghost before = out@;
        out.push(s);
        proof {
            assert(crate::text::string_views(out@) =~= crate::text::string_views(before).push(s@));
            assert(ls.take(i + 1) =~= ls.take(i as int).push(ls[i as int]));
        }
        i = i + 1;
    }
    proof {
        assert forall|j: int| 0 <= j < out@.len() implies !crate::runlog::is_sentinel_text(#[trigger] out@[j]@) by {
            assert(crate::text::string_views(out@)[j] == out@[j]@);
        }
    }
    FollowStep { lines: out, stop: false, offset: file_len }
}

} // verus!
