//! Failure trailers: the `jjq-<key>: <value>` lines that a failed entry's
//! description carries, how they are written and how they are read back.
use vstd::prelude::*;
use crate::config::Strategy;
use crate::text::{
    chars_equal, chars_of, dec, has_prefix, lemma_lines_last, lemma_lines_line_then_rest,
    lemma_trimmed_unchanged, lines_of, unicode_whitespace, no_newline, push_chars, push_decimal, push_str, slice_chars,
    split_lines, string_of, lines_from, trim_chars, trimmed, chunk_views,
};
use crate::queue::lemma_dec_len;

verus! {

/// Index of the first `": "` in `s`, or `s.len()` when there is none.
pub open spec fn sep_index(s: Seq<char>) -> nat
    decreases s.len(),
{
    if s.len() < 2 {
        s.len()
    } else if s[0] == ':' && s[1] == ' ' {
        0
    } else {
        1 + sep_index(s.drop_first())
    }
}

/// The trailer that a line holds: after `jjq-`, the key up to the first `": "`,
/// and the rest, trimmed, as the value.
pub open spec fn trailer_of(line: Seq<char>) -> Option<(Seq<char>, Seq<char>)> {
    if "jjq-"@.is_prefix_of(line) {
        let rest = line.skip("jjq-"@.len() as int);
        let i = sep_index(rest);
        if i < rest.len() {
            Some((rest.take(i as int), trimmed(rest.skip(i as int + 2))))
        } else {
            None
        }
    } else {
        None
    }
}

/// The trailers of the given lines, in order.
pub open spec fn trailers_of(lines: Seq<Seq<char>>) -> Seq<(Seq<char>, Seq<char>)>
    decreases lines.len(),
{
    if lines.len() == 0 {
        seq![]
    } else {
        let prev = trailers_of(lines.drop_last());
        match trailer_of(lines.last()) {
            Some(t) => prev.push(t),
            None => prev,
        }
    }
}

/// The value of `key`: that of its last trailer, as when they are gathered into a map.
pub open spec fn trailer_lookup(ts: Seq<(Seq<char>, Seq<char>)>, key: Seq<char>) -> Option<
    Seq<char>,
>
    decreases ts.len(),
{
    if ts.len() == 0 {
        None
    } else if ts.last().0 == key {
        Some(ts.last().1)
    } else {
        trailer_lookup(ts.drop_last(), key)
    }
}

/// The trailers of a commit description, in the order of its lines.
pub struct Trailers {
    pub entries: Vec<(String, String)>,
}

impl View for Trailers {
    type V = Seq<(Seq<char>, Seq<char>)>;

    open spec fn view(&self) -> Seq<(Seq<char>, Seq<char>)> {
        self.entries@.map_values(|p: (String, String)| (p.0@, p.1@))
    }
}

impl Trailers {
    /// The value of `key`, the last one where it occurs more than once.
    pub fn get(&self, key: &str) -> (r: Option<String>)
        ensures
            match trailer_lookup(self@, key@) {
                Some(v) => r matches Some(s) && s@ == v,
                None => r.is_none(),
            },
    {
        let k = chars_of(key);
        let mut found: Option<String> = None;
        let mut i: usize = 0;
        proof {
            assert(self@.take(0) =~= Seq::<(Seq<char>, Seq<char>)>::empty());
        }
        while i < self.entries.len()
            invariant
                i <= self.entries@.len(),
                k@ == key@,
                match trailer_lookup(self@.take(i as int), key@) {
                    Some(v) => found matches Some(s) && s@ == v,
                    None => found.is_none(),
                },
            decreases self.entries@.len() - i,
        {
            let e = &self.entries[i];
            let ek = chars_of(e.0.as_str());
            proof {
                let t = self@.take(i + 1);
                assert(t.drop_last() =~= self@.take(i as int));
                assert(t.last() == (e.0@, e.1@));
            }
            if chars_equal(&ek, &k) {
                found = Some(e.1.clone());
            }
            i = i + 1;
        }
        proof {
            assert(self@.take(i as int) =~= self@);
        }
        found
    }
}

/// Position of the first `": "` in `s`.
fn find_sep(s: &Vec<char>) -> (r: usize)
    ensures
        r == sep_index(s@),
        r <= s@.len(),
        r < s@.len() ==> r + 2 <= s@.len(),
{
    let mut k: usize = 0;
    proof {
        assert(s@.skip(0) =~= s@);
    }
    while s.len() > 0 && k < s.len() - 1 && !(s[k] == ':' && s[k + 1] == ' ')
        invariant
            k <= s@.len(),
            k + sep_index(s@.skip(k as int)) == sep_index(s@),
        decreases s@.len() - k,
    {
        proof {
            let t = s@.skip(k as int);
            assert(t[0] == s@[k as int] && t[1] == s@[k + 1]);
            assert(t.drop_first() =~= s@.skip(k + 1));
        }
        k = k + 1;
    }
    proof {
        let t = s@.skip(k as int);
        if k + 1 < s@.len() {
            assert(t[0] == s@[k as int] && t[1] == s@[k + 1]);
        }
    }
    if s.len() > 0 && k < s.len() - 1 {
        k
    } else {
        s.len()
    }
}

fn line_trailer(line: &Vec<char>, prefix: &Vec<char>) -> (r: Option<(String, String)>)
    requires
        prefix@ == "jjq-"@,
    ensures
        match trailer_of(line@) {
            Some(t) => r matches Some(p) && p.0@ == t.0 && p.1@ == t.1,
            None => r.is_none(),
        },
{
    if !has_prefix(line, prefix) {
        return None;
    }
    let rest = slice_chars(line, prefix.len(), line.len());
    proof {
        assert(rest@ =~= line@.skip("jjq-"@.len() as int));
    }
    let i = find_sep(&rest);
    if i >= rest.len() {
        return None;
    }
    let key = slice_chars(&rest, 0, i);
    let raw = slice_chars(&rest, i + 2, rest.len());
    let value = trim_chars(&raw);
    proof {
        assert(key@ =~= rest@.take(i as int));
        assert(raw@ =~= rest@.skip(i + 2));
    }
    Some((string_of(&key), string_of(&value)))
}

/// Collects every `jjq-<key>: <value>` line of a commit description.
pub fn extract_trailers(description: &str) -> (r: Trailers)
    ensures
        r@ == trailers_of(lines_of(description@)),
{
    let cs = chars_of(description);
    let lines = split_lines(&cs);
    let prefix = chars_of("jjq-");
    let ghost ls = chunk_views(lines@);
    let mut entries: Vec<(String, String)> = Vec::new();
    let mut i: usize = 0;
    proof {
        assert(ls.take(0) =~= Seq::<Seq<char>>::empty());
    }
    while i < lines.len()
        invariant
            i <= lines@.len(),
            ls == chunk_views(lines@),
            ls == lines_of(description@),
            prefix@ == "jjq-"@,
            entries@.map_values(|p: (String, String)| (p.0@, p.1@)) == trailers_of(
                ls.take(i as int),
            ),
        decreases lines@.len() - i,
    {
        let t = line_trailer(&lines[i], &prefix);
        proof {
            let u = ls.take(i + 1);
            assert(u.drop_last() =~= ls.take(i as int));
            assert(u.last() == lines@[i as int]@);
        }
        match t {
            Some(p) => {
                let ghost before = entries@;
                entries.push(p);
                proof {
                    assert(entries@.map_values(|p: (String, String)| (p.0@, p.1@))
                        =~= before.map_values(|p: (String, String)| (p.0@, p.1@)).push(
                        (entries@.last().0@, entries@.last().1@),
                    ));
                }
            },
            None => {},
        }
        i = i + 1;
    }
    proof {
        assert(ls.take(i as int) =~= ls);
    }
    Trailers { entries }
}

/// Lines joined with `\n` between them.
pub open spec fn join_lines(ls: Seq<Seq<char>>) -> Seq<char>
    decreases ls.len(),
{
    if ls.len() == 0 {
        seq![]
    } else if ls.len() == 1 {
        ls[0]
    } else {
        ls[0] + seq!['\n'] + join_lines(ls.drop_first())
    }
}

pub open spec fn trailer_line(key: Seq<char>, value: Seq<char>) -> Seq<char> {
    "jjq-"@ + key + seq![':', ' '] + value
}

/// The lines of a failed entry's description.
pub open spec fn failure_lines(
    id: nat,
    reason: Seq<char>,
    candidate_change_id: Seq<char>,
    candidate_commit_id: Seq<char>,
    trunk_commit_id: Seq<char>,
    workspace_path: Seq<char>,
    strategy: Strategy,
) -> Seq<Seq<char>> {
    seq![
        "Failed: merge "@ + dec(id) + seq![' ', '('] + reason + seq![')'],
        seq![],
        trailer_line("candidate"@, candidate_change_id),
        trailer_line("candidate-commit"@, candidate_commit_id),
        trailer_line("trunk"@, trunk_commit_id),
        trailer_line("workspace"@, workspace_path),
        trailer_line("failure"@, reason),
        trailer_line("strategy"@, strategy.name()),
    ]
}

pub open spec fn failure_text(
    id: nat,
    reason: Seq<char>,
    candidate_change_id: Seq<char>,
    candidate_commit_id: Seq<char>,
    trunk_commit_id: Seq<char>,
    workspace_path: Seq<char>,
    strategy: Strategy,
) -> Seq<char> {
    join_lines(
        failure_lines(
            id,
            reason,
            candidate_change_id,
            candidate_commit_id,
            trunk_commit_id,
            workspace_path,
            strategy,
        ),
    )
}

proof fn lemma_join_unfold(ls: Seq<Seq<char>>, k: int)
    requires
        0 <= k < ls.len() - 1,
    ensures
        join_lines(ls.skip(k)) == ls[k] + seq!['\n'] + join_lines(ls.skip(k + 1)),
{
    assert(ls.skip(k).drop_first() =~= ls.skip(k + 1));
}

fn trailer_line_chars(key: &str, value: &str) -> (r: Vec<char>)
    ensures
        r@ == trailer_line(key@, value@),
{
    let mut out: Vec<char> = Vec::new();
    push_str(&mut out, "jjq-");
    push_str(&mut out, key);
    out.push(':');
    out.push(' ');
    push_str(&mut out, value);
    proof {
        assert(out@ =~= trailer_line(key@, value@));
    }
    out
}

/// Joins lines with `\n` between them.
pub fn join_line_chunks(ls: &Vec<Vec<char>>) -> (r: Vec<char>)
    requires
        ls@.len() >= 1,
    ensures
        r@ == join_lines(chunk_views(ls@)),
{
    let ghost v = chunk_views(ls@);
    let mut out: Vec<char> = Vec::new();
    push_chars(&mut out, &ls[0]);
    proof {
        assert(out@ =~= v[0]);
        assert(v.skip(0) =~= v);
        if v.len() > 1 {
            lemma_join_unfold(v, 0);
        } else {
            assert(join_lines(v) == v[0]);
        }
    }
    let mut i: usize = 1;
    while i < ls.len()
        invariant
            1 <= i <= ls@.len(),
            v == chunk_views(ls@),
            i < ls@.len() ==> out@ + seq!['\n'] + join_lines(v.skip(i as int)) == join_lines(v),
            i == ls@.len() ==> out@ == join_lines(v),
        decreases ls@.len() - i,
    {
        let ghost before = out@;
        out.push('\n');
        push_chars(&mut out, &ls[i]);
        proof {
            assert(out@ =~= before + seq!['\n'] + v[i as int]);
            if i + 1 < ls@.len() {
                lemma_join_unfold(v, i as int);
                assert(before + seq!['\n'] + join_lines(v.skip(i as int)) =~= out@ + seq!['\n']
                    + join_lines(v.skip(i + 1)));
            } else {
                assert(v.skip(i as int).len() == 1);
                assert(v.skip(i as int)[0] == v[i as int]);
                assert(join_lines(v.skip(i as int)) == v[i as int]);
            }
        }
        i = i + 1;
    }
    out
}

/// The description of a failed entry: a summary line, a blank line, and the six
/// trailers `candidate`, `candidate-commit`, `trunk`, `workspace`, `failure` and
/// `strategy`.
pub fn failure_description(
    id: u32,
    reason: &str,
    candidate_change_id: &str,
    candidate_commit_id: &str,
    trunk_commit_id: &str,
    workspace_path: &str,
    strategy: Strategy,
) -> (r: String)
    ensures
        r@ == failure_text(
            id as nat,
            reason@,
            candidate_change_id@,
            candidate_commit_id@,
            trunk_commit_id@,
            workspace_path@,
            strategy,
        ),
{
    let ghost want = failure_lines(
        id as nat,
        reason@,
        candidate_change_id@,
        candidate_commit_id@,
        trunk_commit_id@,
        workspace_path@,
        strategy,
    );
    let mut first: Vec<char> = Vec::new();
    push_str(&mut first, "Failed: merge ");
    push_decimal(&mut first, id as u64);
    first.push(' ');
    first.push('(');
    push_str(&mut first, reason);
    first.push(')');
    proof {
        assert(first@ =~= want[0]);
    }
    let mut ls: Vec<Vec<char>> = Vec::new();
    ls.push(first);
    ls.push(Vec::new());
    ls.push(trailer_line_chars("candidate", candidate_change_id));
    ls.push(trailer_line_chars("candidate-commit", candidate_commit_id));
    ls.push(trailer_line_chars("trunk", trunk_commit_id));
    ls.push(trailer_line_chars("workspace", workspace_path));
    ls.push(trailer_line_chars("failure", reason));
    ls.push(trailer_line_chars("strategy", strategy.as_str()));
    proof {
        assert(chunk_views(ls@) =~= want);
    }
    let out = join_line_chunks(&ls);
    string_of(&out)
}

/// A field that can stand in a trailer and be read back unchanged: one line,
/// without leading or trailing whitespace.
pub open spec fn trailer_safe(v: Seq<char>) -> bool {
    &&& no_newline(v)
    &&& v.len() > 0 ==> (!unicode_whitespace(v[0]) && !unicode_whitespace(v.last()))
}

pub open spec fn line_ok(l: Seq<char>) -> bool {
    no_newline(l) && !(l.len() > 0 && l.last() == '\r')
}

proof fn lemma_lines_of_join(ls: Seq<Seq<char>>)
    requires
        ls.len() >= 1,
        forall|i: int| 0 <= i < ls.len() ==> line_ok(#[trigger] ls[i]),
        ls.last().len() > 0,
    ensures
        lines_of(join_lines(ls)) == ls,
        lines_of(join_lines(ls) + seq!['\n']) == ls,
    decreases ls.len(),
{
    let e = Seq::<char>::empty();
    assert(line_ok(ls[0]));
    assert(e + ls[0] =~= ls[0]);
    if ls.len() == 1 {
        lemma_lines_last(e, ls[0]);
        lemma_lines_line_then_rest(e, ls[0], e);
        assert(ls[0] + seq!['\n'] + e =~= ls[0] + seq!['\n']);
        assert(lines_from(e, e) == Seq::<Seq<char>>::empty());
        assert(seq![ls[0]] + Seq::<Seq<char>>::empty() =~= ls);
        assert(seq![ls[0]] =~= ls);
    } else {
        let rest = ls.drop_first();
        assert forall|i: int| 0 <= i < rest.len() implies line_ok(#[trigger] rest[i]) by {
            assert(rest[i] == ls[i + 1]);
        }
        lemma_lines_of_join(rest);
        lemma_lines_line_then_rest(e, ls[0], join_lines(rest));
        lemma_lines_line_then_rest(e, ls[0], join_lines(rest) + seq!['\n']);
        assert(join_lines(ls) + seq!['\n'] =~= ls[0] + seq!['\n'] + (join_lines(rest) + seq![
            '\n',
        ]));
        assert(seq![ls[0]] + rest =~= ls);
    }
}

proof fn lemma_sep_index_key(k: Seq<char>, v: Seq<char>)
    requires
        forall|i: int| 0 <= i < k.len() ==> k[i] != ':',
    ensures
        sep_index(k + seq![':', ' '] + v) == k.len(),
    decreases k.len(),
{
    let s = k + seq![':', ' '] + v;
    if k.len() == 0 {
        assert(s[0] == ':' && s[1] == ' ');
    } else {
        assert(s[0] == k[0]);
        assert(s.drop_first() =~= k.drop_first() + seq![':', ' '] + v);
        lemma_sep_index_key(k.drop_first(), v);
    }
}

proof fn lemma_trailer_line(k: Seq<char>, v: Seq<char>)
    requires
        forall|i: int| 0 <= i < k.len() ==> k[i] != ':',
        trailer_safe(v),
    ensures
        trailer_of(trailer_line(k, v)) == Some((k, v)),
{
    let line = trailer_line(k, v);
    let n = "jjq-"@.len() as int;
    assert(line.subrange(0, n) =~= "jjq-"@);
    let rest = line.skip(n);
    assert(rest =~= k + seq![':', ' '] + v);
    lemma_sep_index_key(k, v);
    assert(rest.take(k.len() as int) =~= k);
    assert(rest.skip(k.len() as int + 2) =~= v);
    lemma_trimmed_unchanged(v);
}

proof fn lemma_trailers_of_push(ls: Seq<Seq<char>>, l: Seq<char>)
    ensures
        trailers_of(ls.push(l)) == match trailer_of(l) {
            Some(t) => trailers_of(ls).push(t),
            None => trailers_of(ls),
        },
{
    assert(ls.push(l).drop_last() =~= ls);
}

proof fn lemma_no_newline_concat(a: Seq<char>, b: Seq<char>)
    requires
        no_newline(a),
        no_newline(b),
    ensures
        no_newline(a + b),
{
    assert forall|i: int| 0 <= i < (a + b).len() implies (a + b)[i] != '\n' by {
        if i < a.len() {
            assert((a + b)[i] == a[i]);
        } else {
            assert((a + b)[i] == b[i - a.len()]);
        }
    }
}

/// Failure trailers round-trip: reading the trailers back from a failed entry's
/// description, as written or with the line break that `jj` appends, recovers
/// exactly the six fields, provided each field is one line without leading or
/// trailing whitespace (which reading trims away).
pub proof fn lemma_failure_trailers_round_trip(
    id: u32,
    reason: Seq<char>,
    candidate_change_id: Seq<char>,
    candidate_commit_id: Seq<char>,
    trunk_commit_id: Seq<char>,
    workspace_path: Seq<char>,
    strategy: Strategy,
    description: Seq<char>,
)
    requires
        trailer_safe(reason),
        trailer_safe(candidate_change_id),
        trailer_safe(candidate_commit_id),
        trailer_safe(trunk_commit_id),
        trailer_safe(workspace_path),
        ({
            let t = failure_text(
                id as nat,
                reason,
                candidate_change_id,
                candidate_commit_id,
                trunk_commit_id,
                workspace_path,
                strategy,
            );
            description == t || description == t + seq!['\n']
        }),
    ensures
        ({
            let ts = trailers_of(lines_of(description));
            &&& trailer_lookup(ts, "candidate"@) == Some(candidate_change_id)
            &&& trailer_lookup(ts, "candidate-commit"@) == Some(candidate_commit_id)
            &&& trailer_lookup(ts, "trunk"@) == Some(trunk_commit_id)
            &&& trailer_lookup(ts, "workspace"@) == Some(workspace_path)
            &&& trailer_lookup(ts, "failure"@) == Some(reason)
            &&& trailer_lookup(ts, "strategy"@) == Some(strategy.name())
        }),
{
    reveal_strlit("jjq-");
    reveal_strlit("Failed: merge ");
    reveal_strlit("candidate");
    reveal_strlit("candidate-commit");
    reveal_strlit("trunk");
    reveal_strlit("workspace");
    reveal_strlit("failure");
    reveal_strlit("strategy");
    reveal_strlit("merge");
    reveal_strlit("rebase");
    let ls = failure_lines(
        id as nat,
        reason,
        candidate_change_id,
        candidate_commit_id,
        trunk_commit_id,
        workspace_path,
        strategy,
    );
    let kc = "candidate"@;
    let km = "candidate-commit"@;
    let kt = "trunk"@;
    let kw = "workspace"@;
    let kf = "failure"@;
    let ks = "strategy"@;
    let sn = strategy.name();
    assert(trailer_safe(sn));
    assert(forall|i: int| 0 <= i < kc.len() ==> kc[i] != ':' && kc[i] != '\n');
    assert(forall|i: int| 0 <= i < km.len() ==> km[i] != ':' && km[i] != '\n');
    assert(forall|i: int| 0 <= i < kt.len() ==> kt[i] != ':' && kt[i] != '\n');
    assert(forall|i: int| 0 <= i < kw.len() ==> kw[i] != ':' && kw[i] != '\n');
    assert(forall|i: int| 0 <= i < kf.len() ==> kf[i] != ':' && kf[i] != '\n');
    assert(forall|i: int| 0 <= i < ks.len() ==> ks[i] != ':' && ks[i] != '\n');
    assert(no_newline("jjq-"@));
    assert(no_newline("Failed: merge "@));
    // every line is a single line
    lemma_dec_len(id as nat);
    assert(no_newline(dec(id as nat)));
    assert(no_newline(seq![' ', '(']));
    assert(no_newline(seq![')']));
    assert(no_newline(seq![':', ' ']));
    lemma_no_newline_concat("Failed: merge "@, dec(id as nat));
    lemma_no_newline_concat("Failed: merge "@ + dec(id as nat), seq![' ', '(']);
    lemma_no_newline_concat("Failed: merge "@ + dec(id as nat) + seq![' ', '('], reason);
    lemma_no_newline_concat(
        "Failed: merge "@ + dec(id as nat) + seq![' ', '('] + reason,
        seq![')'],
    );
    assert forall|k: Seq<char>, v: Seq<char>|
        no_newline(k) && trailer_safe(v) implies line_ok(#[trigger] trailer_line(k, v)) by {
        lemma_no_newline_concat("jjq-"@, k);
        lemma_no_newline_concat("jjq-"@ + k, seq![':', ' ']);
        lemma_no_newline_concat("jjq-"@ + k + seq![':', ' '], v);
        if v.len() == 0 {
            assert(trailer_line(k, v).last() == ' ');
        } else {
            assert(trailer_line(k, v).last() == v.last());
        }
    }
    assert(line_ok(ls[0]));
    assert(line_ok(ls[1]));
    assert(line_ok(ls[2]));
    assert(line_ok(ls[3]));
    assert(line_ok(ls[4]));
    assert(line_ok(ls[5]));
    assert(line_ok(ls[6]));
    assert(line_ok(ls[7]));
    assert(forall|i: int| 0 <= i < ls.len() ==> line_ok(#[trigger] ls[i]));
    lemma_lines_of_join(ls);
    assert(lines_of(description) == ls);
    // which lines are trailers
    let l0 = ls[0];
    if "jjq-"@.is_prefix_of(l0) {
        assert(l0.subrange(0, 4)[0] == l0[0]);
    }
    assert(trailer_of(l0).is_none());
    assert(trailer_of(ls[1]).is_none());
    lemma_trailer_line(kc, candidate_change_id);
    lemma_trailer_line(km, candidate_commit_id);
    lemma_trailer_line(kt, trunk_commit_id);
    lemma_trailer_line(kw, workspace_path);
    lemma_trailer_line(kf, reason);
    lemma_trailer_line(ks, sn);
    let e = Seq::<Seq<char>>::empty();
    assert(ls =~= e.push(ls[0]).push(ls[1]).push(ls[2]).push(ls[3]).push(ls[4]).push(
        ls[5],
    ).push(ls[6]).push(ls[7]));
    lemma_trailers_of_push(e, ls[0]);
    lemma_trailers_of_push(e.push(ls[0]), ls[1]);
    lemma_trailers_of_push(e.push(ls[0]).push(ls[1]), ls[2]);
    lemma_trailers_of_push(e.push(ls[0]).push(ls[1]).push(ls[2]), ls[3]);
    lemma_trailers_of_push(e.push(ls[0]).push(ls[1]).push(ls[2]).push(ls[3]), ls[4]);
    lemma_trailers_of_push(e.push(ls[0]).push(ls[1]).push(ls[2]).push(ls[3]).push(ls[4]), ls[5]);
    lemma_trailers_of_push(
        e.push(ls[0]).push(ls[1]).push(ls[2]).push(ls[3]).push(ls[4]).push(ls[5]),
        ls[6],
    );
    lemma_trailers_of_push(
        e.push(ls[0]).push(ls[1]).push(ls[2]).push(ls[3]).push(ls[4]).push(ls[5]).push(ls[6]),
        ls[7],
    );
    assert(trailers_of(e) == Seq::<(Seq<char>, Seq<char>)>::empty());
    let ts = trailers_of(ls);
    assert(ts =~= seq![
        (kc, candidate_change_id),
        (km, candidate_commit_id),
        (kt, trunk_commit_id),
        (kw, workspace_path),
        (kf, reason),
        (ks, sn),
    ]);
    assert(kc[0] != kw[0]);
    assert(kc != kw);
    assert(ts.drop_last() =~= ts.take(5));
    assert(ts.take(5).drop_last() =~= ts.take(4));
    assert(ts.take(4).drop_last() =~= ts.take(3));
    assert(ts.take(3).drop_last() =~= ts.take(2));
    assert(ts.take(2).drop_last() =~= ts.take(1));
    assert(ks != kf && ks != kw && ks != kt && ks != km && ks != kc);
    assert(kf != kw && kf != kt && kf != km && kf != kc);
    assert(kw != kt && kw != km);
    assert(kt != km && kt != kc);
    assert(km != kc);
    let t5 = ts.take(5);
    let t4 = ts.take(4);
    let t3 = ts.take(3);
    let t2 = ts.take(2);
    let t1 = ts.take(1);
    assert(trailer_lookup(ts, ks) == Some(sn));
    assert(trailer_lookup(t5, kf) == Some(reason));
    assert(trailer_lookup(ts, kf) == Some(reason));
    assert(trailer_lookup(t4, kw) == Some(workspace_path));
    assert(trailer_lookup(t5, kw) == Some(workspace_path));
    assert(trailer_lookup(ts, kw) == Some(workspace_path));
    assert(trailer_lookup(t3, kt) == Some(trunk_commit_id));
    assert(trailer_lookup(t4, kt) == Some(trunk_commit_id));
    assert(trailer_lookup(t5, kt) == Some(trunk_commit_id));
    assert(trailer_lookup(ts, kt) == Some(trunk_commit_id));
    assert(trailer_lookup(t2, km) == Some(candidate_commit_id));
    assert(trailer_lookup(t3, km) == Some(candidate_commit_id));
    assert(trailer_lookup(t4, km) == Some(candidate_commit_id));
    assert(trailer_lookup(t5, km) == Some(candidate_commit_id));
    assert(trailer_lookup(ts, km) == Some(candidate_commit_id));
    assert(trailer_lookup(t1, kc) == Some(candidate_change_id));
    assert(trailer_lookup(t2, kc) == Some(candidate_change_id));
    assert(trailer_lookup(t3, kc) == Some(candidate_change_id));
    assert(trailer_lookup(t4, kc) == Some(candidate_change_id));
    assert(trailer_lookup(t5, kc) == Some(candidate_change_id));
    assert(trailer_lookup(ts, kc) == Some(candidate_change_id));
}

} // verus!
