//! The run log: its place, the sentinel line that closes each run, and which of
//! its lines are shown.
use vstd::prelude::*;
use crate::text::{
    chars_of, chunk_views, dec, has_prefix, lines_of, no_newline, push_decimal,
    push_str, split_lines, string_of,
};
use crate::queue::lemma_dec_len;

verus! {

/// Prefix that identifies sentinel lines in the log.
pub const SENTINEL_PREFIX: &'static str = "--- jjq: run complete";

/// How many lines of the log are shown when not all are asked for.
pub const TAIL_LINES: usize = 20;

/// An exit status in decimal, with a minus sign when negative.
pub open spec fn signed_dec(n: int) -> Seq<char> {
    if n < 0 {
        seq!['-'] + dec((-n) as nat)
    } else {
        dec(n as nat)
    }
}

pub open spec fn sentinel_text(exit_code: int) -> Seq<char> {
    SENTINEL_PREFIX@ + " (exit "@ + signed_dec(exit_code) + ") ---"@
}

/// The line that closes a run's log: `--- jjq: run complete (exit N) ---`.
pub fn sentinel_line(exit_code: i32) -> (r: String)
    ensures
        r@ == sentinel_text(exit_code as int),
        SENTINEL_PREFIX@.is_prefix_of(r@),
{
    let mut out: Vec<char> = Vec::new();
    push_str(&mut out, SENTINEL_PREFIX);
    push_str(&mut out, " (exit ");
    if exit_code < 0 {
        out.push('-');
        let m: u64 = (0 - (exit_code as i64)) as u64;
        push_decimal(&mut out, m);
    } else {
        push_decimal(&mut out, exit_code as u64);
    }
    push_str(&mut out, ") ---");
    proof {
        assert(out@ =~= sentinel_text(exit_code as int));
        assert(out@.subrange(0, SENTINEL_PREFIX@.len() as int) =~= SENTINEL_PREFIX@);
    }
    string_of(&out)
}

/// The sentinel line is one line and is recognised as a sentinel, whatever the
/// exit status: a log closed by it ends with a line of the form
/// `--- jjq: run complete (exit N) ---`, `N` an optionally negative integer.
pub proof fn lemma_sentinel_framing(exit_code: i32)
    ensures
        no_newline(sentinel_text(exit_code as int)),
        is_sentinel_text(sentinel_text(exit_code as int)),
        lines_of(sentinel_text(exit_code as int) + seq!['\n']) == seq![
            sentinel_text(exit_code as int),
        ],
{
    reveal_strlit("--- jjq: run complete");
    reveal_strlit(" (exit ");
    reveal_strlit(") ---");
    let t = sentinel_text(exit_code as int);
    let n: nat = if exit_code < 0 {
        (-(exit_code as int)) as nat
    } else {
        exit_code as nat
    };
    lemma_dec_len(n);
    let d = signed_dec(exit_code as int);
    assert(forall|i: int| 0 <= i < d.len() ==> d[i] != '\n') by {
        assert forall|i: int| 0 <= i < d.len() implies d[i] != '\n' by {
            if exit_code < 0 {
                if i > 0 {
                    assert(d[i] == dec(n)[i - 1]);
                }
            } else {
                assert(d[i] == dec(n)[i]);
            }
        }
    }
    let a = SENTINEL_PREFIX@;
    let b = " (exit "@;
    let c = ") ---"@;
    assert(forall|i: int| 0 <= i < a.len() ==> a[i] != '\n');
    assert(forall|i: int| 0 <= i < b.len() ==> b[i] != '\n');
    assert(forall|i: int| 0 <= i < c.len() ==> c[i] != '\n');
    assert forall|i: int| 0 <= i < t.len() implies t[i] != '\n' by {
        if i < a.len() {
            assert(t[i] == a[i]);
        } else if i < a.len() + b.len() {
            assert(t[i] == b[i - a.len()]);
        } else if i < a.len() + b.len() + d.len() {
            assert(t[i] == d[i - a.len() - b.len()]);
        } else {
            assert(t[i] == c[i - a.len() - b.len() - d.len()]);
        }
    }
    assert(t.subrange(0, a.len() as int) =~= a);
    crate::text::lemma_lines_line_then_rest(seq![], t, seq![]);
    assert(t + seq!['\n'] + Seq::<char>::empty() =~= t + seq!['\n']);
    assert(Seq::<char>::empty() + t =~= t);
    assert(t.last() == '-');
    assert(crate::text::lines_from(Seq::<char>::empty(), Seq::<char>::empty())
        == Seq::<Seq<char>>::empty());
    assert(seq![t] + Seq::<Seq<char>>::empty() =~= seq![t]);
}

pub open spec fn is_sentinel_text(line: Seq<char>) -> bool {
    SENTINEL_PREFIX@.is_prefix_of(line)
}

/// Whether a log line is a sentinel line.
pub fn is_sentinel(line: &str) -> (r: bool)
    ensures
        r == is_sentinel_text(line@),
{
    let cs = chars_of(line);
    let p = chars_of(SENTINEL_PREFIX);
    has_prefix(&cs, &p)
}

/// The lines that are not sentinels, in order.
pub open spec fn visible(ls: Seq<Seq<char>>) -> Seq<Seq<char>>
    decreases ls.len(),
{
    if ls.len() == 0 {
        seq![]
    } else if is_sentinel_text(ls.last()) {
        visible(ls.drop_last())
    } else {
        visible(ls.drop_last()).push(ls.last())
    }
}

pub open spec fn string_views(v: Seq<String>) -> Seq<Seq<char>> {
    v.map_values(|s: String| s@)
}

/// The lines of a log that are shown to the user: all but the sentinel lines.
pub fn visible_log_lines(contents: &str) -> (r: Vec<String>)
    ensures
        string_views(r@) == visible(lines_of(contents@)),
{
    let cs = chars_of(contents);
    let lines = split_lines(&cs);
    let p = chars_of(SENTINEL_PREFIX);
    let ghost ls = chunk_views(lines@);
    let mut out: Vec<String> = Vec::new();
    let mut i: usize = 0;
    proof {
        assert(ls.take(0) =~= Seq::<Seq<char>>::empty());
        assert(string_views(out@) =~= Seq::<Seq<char>>::empty());
    }
    while i < lines.len()
        invariant
            i <= lines@.len(),
            ls == chunk_views(lines@),
            ls == lines_of(contents@),
            p@ == SENTINEL_PREFIX@,
            string_views(out@) == visible(ls.take(i as int)),
        decreases lines@.len() - i,
    {
        proof {
            let u = ls.take(i + 1);
            assert(u.drop_last() =~= ls.take(i as int));
            assert(u.last() == lines@[i as int]@);
        }
        if !has_prefix(&lines[i], &p) {
            let s = string_of(&lines[i]);
            let ghost before = out@;
            out.push(s);
            proof {
                assert(string_views(out@) =~= string_views(before).push(s@));
            }
        }
        i = i + 1;
    }
    proof {
        assert(ls.take(i as int) =~= ls);
    }
    out
}

/// Where the shown part of `n` visible lines starts: all of them, or the last
/// twenty.
pub fn tail_start(n: usize, all: bool) -> (r: usize)
    ensures
        r == (if all || n <= TAIL_LINES {
            0
        } else {
            n - TAIL_LINES
        }),
{
    if all || n <= TAIL_LINES {
        0
    } else {
        n - TAIL_LINES
    }
}

/// The lines of a log that `tail` shows: the visible ones, or only the last
/// twenty of them unless all are asked for.
pub fn tail_lines(contents: &str, all: bool) -> (r: Vec<String>)
    ensures
        ({
            let v = visible(lines_of(contents@));
            string_views(r@) == v.skip(
                if all || v.len() <= 20 {
                    0
                } else {
                    v.len() - 20
                },
            )
        }),
{
    let v = visible_log_lines(contents);
    let start = tail_start(v.len(), all);
    let mut out: Vec<String> = Vec::new();
    let mut k: usize = start;
    proof {
        assert(string_views(v@).skip(start as int).take(0) =~= string_views(out@));
    }
    while k < v.len()
        invariant
            start <= k <= v@.len(),
            string_views(out@) == string_views(v@).skip(start as int).take(k - start),
        decreases v@.len() - k,
    {
        let s = v[k].clone();
        let ghost before = out@;
        out.push(s);
        proof {
            let w = string_views(v@).skip(start as int);
            assert(s@ == string_views(v@)[k as int]);
            assert(w[k - start] == string_views(v@)[k as int]);
            assert(string_views(out@) =~= string_views(before).push(s@));
            assert(w.take(k + 1 - start) =~= w.take(k - start).push(w[k - start]));
        }
        k = k + 1;
    }
    proof {
        assert(string_views(v@).skip(start as int).take(k - start) =~= string_views(v@).skip(
            start as int,
        ));
    }
    out
}

/// Whether a log already holds a sentinel line, that is, whether its run is over.
pub fn log_finished(contents: &str) -> (r: bool)
    ensures
        r == exists|i: int|
            0 <= i < lines_of(contents@).len() && is_sentinel_text(#[trigger] lines_of(
                contents@,
            )[i]),
{
    let cs = chars_of(contents);
    let lines = split_lines(&cs);
    let p = chars_of(SENTINEL_PREFIX);
    let ghost ls = chunk_views(lines@);
    let mut i: usize = 0;
    while i < lines.len()
        invariant
            i <= lines@.len(),
            ls == chunk_views(lines@),
            ls == lines_of(contents@),
            p@ == SENTINEL_PREFIX@,
            forall|j: int| 0 <= j < i ==> !is_sentinel_text(#[trigger] ls[j]),
        decreases lines@.len() - i,
    {
        if has_prefix(&lines[i], &p) {
            proof {
                assert(ls[i as int] == lines@[i as int]@);
            }
            return true;
        }
        proof {
            assert(ls[i as int] == lines@[i as int]@);
        }
        i = i + 1;
    }
    false
}

/// The run log's path under a repository root.
pub fn log_path(repo_root: &str) -> (r: String)
    ensures
        r@ == repo_root@ + "/.jj/jjq-run.log"@,
{
    let mut out: Vec<char> = Vec::new();
    push_str(&mut out, repo_root);
    push_str(&mut out, "/.jj/jjq-run.log");
    string_of(&out)
}

pub open spec fn duration_text(secs: nat) -> Seq<char> {
    if secs < 60 {
        dec(secs) + seq!['s']
    } else {
        dec(secs / 60) + seq!['m', ' '] + dec(secs % 60) + seq!['s']
    }
}

/// Elapsed time for progress lines: `Xs` under a minute, else `Nm Xs`.
pub fn format_duration(secs: u64) -> (r: String)
    ensures
        r@ == duration_text(secs as nat),
{
    let mut out: Vec<char> = Vec::new();
    if secs < 60 {
        push_decimal(&mut out, secs);
        out.push('s');
    } else {
        push_decimal(&mut out, secs / 60);
        out.push('m');
        out.push(' ');
        push_decimal(&mut out, secs % 60);
        out.push('s');
    }
    proof {
        assert(out@ =~= duration_text(secs as nat));
    }
    string_of(&out)
}

} // verus!
