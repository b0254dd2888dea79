//! The `jj` adapter: the argument list of each `jj` invocation (colour always
//! off) and the reading of what it printed. Running the process is the caller's
//! part; it hands back a [`JjOutput`].
use vstd::prelude::*;
use crate::text::{
    chars_equal, chars_of, chunk_views, contains_text, contains_str, lines_of, no_newline,
    push_str, split_lines, split_words, string_of, string_views, trim_chars, trimmed, words_of,
    slice_chars,
};

verus! {

/// What a finished `jj` invocation reported.
pub struct JjOutput {
    /// The arguments `jj` was run with.
    pub args: Vec<String>,
    pub success: bool,
    pub stdout: String,
    pub stderr: String,
}

/// Why a `jj` operation failed.
pub enum JjError {
    /// `jj root` failed: the current directory is not in a repository.
    NotRepo,
    /// The revset matched nothing.
    NotFound(String),
    /// The revset matched more than one revision where one was required.
    Ambiguous(String),
    /// `jj` printed something this adapter cannot read; the message says what.
    Protocol(String),
    /// `jj` exited non-zero; the message names the invocation and holds its
    /// standard error, trimmed.
    Tool(String),
}

impl JjError {
    pub open spec fn message_text(&self) -> Seq<char> {
        match self {
            JjError::NotRepo => "not in a jj repository"@,
            JjError::NotFound(r) => "revset '"@ + r@ + "' not found"@,
            JjError::Ambiguous(r) => "revset '"@ + r@ + "' resolves to multiple revisions"@,
            JjError::Protocol(s) => s@,
            JjError::Tool(s) => s@,
        }
    }

    /// The message shown to the user.
    pub fn message(&self) -> (r: String)
        ensures
            r@ == self.message_text(),
    {
        let mut m: Vec<char> = Vec::new();
        match self {
            JjError::NotRepo => push_str(&mut m, "not in a jj repository"),
            JjError::NotFound(r) => {
                push_str(&mut m, "revset '");
                push_str(&mut m, r.as_str());
                push_str(&mut m, "' not found");
            },
            JjError::Ambiguous(r) => {
                push_str(&mut m, "revset '");
                push_str(&mut m, r.as_str());
                push_str(&mut m, "' resolves to multiple revisions");
            },
            JjError::Protocol(s) => push_str(&mut m, s.as_str()),
            JjError::Tool(s) => push_str(&mut m, s.as_str()),
        }
        string_of(&m)
    }
}

fn push_arg(v: &mut Vec<String>, s: &str)
    ensures
        string_views(final(v)@) == string_views(old(v)@).push(s@),
{
    let c = chars_of(s);
    let a = string_of(&c);
    v.push(a);
    proof {
        assert(string_views(v@) =~= string_views(old(v)@).push(s@));
    }
}

fn command(first: &str) -> (r: Vec<String>)
    ensures
        string_views(r@) == seq!["--color=never"@, first@],
{
    let mut v: Vec<String> = Vec::new();
    proof {
        assert(string_views(v@) =~= Seq::<Seq<char>>::empty());
    }
    push_arg(&mut v, "--color=never");
    push_arg(&mut v, first);
    proof {
        assert(string_views(v@) =~= seq!["--color=never"@, first@]);
    }
    v
}

/// The revset of the revision a bookmark points at: `bookmarks(exact:NAME)`.
pub open spec fn exact_revset(name: Seq<char>) -> Seq<char> {
    "bookmarks(exact:"@ + name + ")"@
}

/// `bookmarks(exact:NAME)`.
pub fn exact_bookmark(name: &str) -> (r: String)
    ensures
        r@ == exact_revset(name@),
{
    let mut m: Vec<char> = Vec::new();
    push_str(&mut m, "bookmarks(exact:");
    push_str(&mut m, name);
    push_str(&mut m, ")");
    string_of(&m)
}

/// `jj config get KEY`.
pub fn config_get_args(key: &str) -> (r: Vec<String>)
    ensures
        string_views(r@) == seq!["--color=never"@, "config"@, "get"@, key@],
{
    let mut v = command("config");
    push_arg(&mut v, "get");
    push_arg(&mut v, key);
    v
}

/// A `jj config get`: the value, trimmed, when it is set.
pub fn config_get(out: &JjOutput) -> (r: Option<String>)
    ensures
        out.success ==> (r matches Some(s) && s@ == trimmed(out.stdout@)),
        !out.success ==> r.is_none(),
{
    if out.success {
        let c = chars_of(out.stdout.as_str());
        let t = trim_chars(&c);
        Some(string_of(&t))
    } else {
        None
    }
}

/// `jj config set --repo KEY VALUE`.
pub fn config_set_repo(key: &str, value: &str) -> (r: Vec<String>)
    ensures
        string_views(r@) == seq!["--color=never"@, "config"@, "set"@, "--repo"@, key@, value@],
{
    let mut v = command("config");
    push_arg(&mut v, "set");
    push_arg(&mut v, "--repo");
    push_arg(&mut v, key);
    push_arg(&mut v, value);
    v
}

/// The arguments separated by single spaces.
pub open spec fn joined(ss: Seq<Seq<char>>) -> Seq<char>
    decreases ss.len(),
{
    if ss.len() == 0 {
        seq![]
    } else if ss.len() == 1 {
        ss[0]
    } else {
        joined(ss.drop_last()) + seq![' '] + ss.last()
    }
}

/// The arguments as the user would type them: without the colour setting.
pub open spec fn shown_args(args: Seq<Seq<char>>) -> Seq<Seq<char>> {
    if args.len() > 0 && args[0] == "--color=never"@ {
        args.drop_first()
    } else {
        args
    }
}

/// The message of a failed invocation: `jj <args> failed: <stderr>`.
pub open spec fn tool_text(out: JjOutput) -> Seq<char> {
    "jj "@ + joined(shown_args(string_views(out.args@))) + " failed: "@ + trimmed(out.stderr@)
}

fn join_args(v: &Vec<String>, from: usize) -> (r: Vec<char>)
    requires
        from <= v@.len(),
    ensures
        r@ == joined(string_views(v@).skip(from as int)),
{
    let ghost sv = string_views(v@);
    let mut out: Vec<char> = Vec::new();
    let mut k: usize = from;
    proof {
        assert(sv.subrange(from as int, from as int) =~= Seq::<Seq<char>>::empty());
    }
    while k < v.len()
        invariant
            from <= k <= v@.len(),
            sv == string_views(v@),
            out@ == joined(sv.subrange(from as int, k as int)),
        decreases v@.len() - k,
    {
        let ghost before = out@;
        let ghost t = sv.subrange(from as int, k + 1);
        proof {
            assert(t.drop_last() =~= sv.subrange(from as int, k as int));
            assert(t.last() == v@[k as int]@);
        }
        if k > from {
            out.push(' ');
        }
        let a = chars_of(v[k].as_str());
        crate::text::push_chars(&mut out, &a);
        proof {
            if k == from {
                assert(t.len() == 1);
                assert(out@ =~= t[0]);
            } else {
                assert(out@ =~= before + seq![' '] + t.last());
            }
        }
        k = k + 1;
    }
    proof {
        assert(sv.subrange(from as int, k as int) =~= sv.skip(from as int));
    }
    out
}

fn tool_error(out: &JjOutput) -> (r: JjError)
    ensures
        r matches JjError::Tool(e) && e@ == tool_text(*out),
{
    let sv = &out.args;
    let first_is_colour = sv.len() > 0 && {
        let a = chars_of(sv[0].as_str());
        let b = chars_of("--color=never");
        crate::text::chars_equal(&a, &b)
    };
    let from: usize = if first_is_colour { 1 } else { 0 };
    let j = join_args(sv, from);
    proof {
        assert(string_views(sv@).skip(from as int) =~= shown_args(string_views(sv@)));
    }
    let mut m: Vec<char> = Vec::new();
    push_str(&mut m, "jj ");
    crate::text::push_chars(&mut m, &j);
    push_str(&mut m, " failed: ");
    let c = chars_of(out.stderr.as_str());
    let t = trim_chars(&c);
    crate::text::push_chars(&mut m, &t);
    JjError::Tool(string_of(&m))
}

/// The standard output of an invocation that must succeed.
pub fn run_ok(out: &JjOutput) -> (r: Result<String, JjError>)
    ensures
        out.success ==> (r matches Ok(s) && s@ == out.stdout@),
        !out.success ==> (r matches Err(JjError::Tool(e)) && e@ == tool_text(*out)),
{
    if out.success {
        let c = chars_of(out.stdout.as_str());
        Ok(string_of(&c))
    } else {
        Err(tool_error(out))
    }
}

/// An invocation that must succeed and whose output is not needed.
pub fn run_quiet(out: &JjOutput) -> (r: Result<(), JjError>)
    ensures
        out.success <==> r.is_ok(),
        !out.success ==> (r matches Err(JjError::Tool(e)) && e@ == tool_text(*out)),
{
    if out.success {
        Ok(())
    } else {
        Err(tool_error(out))
    }
}

/// `jj root`.
pub fn root_args() -> (r: Vec<String>)
    ensures
        string_views(r@) == seq!["--color=never"@, "root"@],
{
    command("root")
}

/// A `jj root` run to check that the current directory is in a repository.
pub fn verify_repo(out: &JjOutput) -> (r: Result<(), JjError>)
    ensures
        out.success <==> r.is_ok(),
        !out.success ==> (r matches Err(JjError::NotRepo)),
{
    if out.success {
        Ok(())
    } else {
        Err(JjError::NotRepo)
    }
}

/// A `jj root`: the repository's root directory.
pub fn repo_root(out: &JjOutput) -> (r: Result<String, JjError>)
    ensures
        out.success ==> (r matches Ok(s) && s@ == trimmed(out.stdout@)),
        !out.success ==> (r matches Err(JjError::Tool(e)) && e@ == tool_text(*out)),
{
    if out.success {
        let c = chars_of(out.stdout.as_str());
        let t = trim_chars(&c);
        Ok(string_of(&t))
    } else {
        Err(tool_error(out))
    }
}

/// `jj bookmark list -r bookmarks(exact:NAME) -T name`.
pub fn bookmark_exists_args(name: &str) -> (r: Vec<String>)
    ensures
        string_views(r@) == seq![
            "--color=never"@,
            "bookmark"@,
            "list"@,
            "-r"@,
            exact_revset(name@),
            "-T"@,
            "name"@,
        ],
{
    let mut v = command("bookmark");
    push_arg(&mut v, "list");
    push_arg(&mut v, "-r");
    let rs = exact_bookmark(name);
    push_arg(&mut v, rs.as_str());
    push_arg(&mut v, "-T");
    push_arg(&mut v, "name");
    v
}

/// Whether output that must succeed printed anything but whitespace.
fn printed_something(out: &JjOutput) -> (r: Result<bool, JjError>)
    ensures
        out.success ==> r == Ok::<bool, JjError>(trimmed(out.stdout@).len() > 0),
        !out.success ==> (r matches Err(JjError::Tool(e)) && e@ == tool_text(*out)),
{
    if out.success {
        let c = chars_of(out.stdout.as_str());
        let t = trim_chars(&c);
        Ok(t.len() > 0)
    } else {
        Err(tool_error(out))
    }
}

/// A bookmark listing for one name: whether the bookmark exists.
pub fn bookmark_exists(out: &JjOutput) -> (r: Result<bool, JjError>)
    ensures
        out.success ==> r == Ok::<bool, JjError>(trimmed(out.stdout@).len() > 0),
        !out.success ==> (r matches Err(JjError::Tool(e)) && e@ == tool_text(*out)),
{
    printed_something(out)
}

/// `jj bookmark create -r REV NAME`.
pub fn bookmark_create(name: &str, rev: &str) -> (r: Vec<String>)
    ensures
        string_views(r@) == seq!["--color=never"@, "bookmark"@, "create"@, "-r"@, rev@, name@],
{
    let mut v = command("bookmark");
    push_arg(&mut v, "create");
    push_arg(&mut v, "-r");
    push_arg(&mut v, rev);
    push_arg(&mut v, name);
    v
}

/// `jj bookmark delete NAME`.
pub fn bookmark_delete(name: &str) -> (r: Vec<String>)
    ensures
        string_views(r@) == seq!["--color=never"@, "bookmark"@, "delete"@, name@],
{
    let mut v = command("bookmark");
    push_arg(&mut v, "delete");
    push_arg(&mut v, name);
    v
}

/// `jj bookmark move -h`, whose help tells whether `--allow-protected` exists.
pub fn supports_allow_protected_args() -> (r: Vec<String>)
    ensures
        string_views(r@) == seq!["--color=never"@, "bookmark"@, "move"@, "-h"@],
{
    let mut v = command("bookmark");
    push_arg(&mut v, "move");
    push_arg(&mut v, "-h");
    v
}

/// Whether the help of `jj bookmark move` mentions `allow-protected`.
pub fn supports_allow_protected(out: &JjOutput) -> (r: bool)
    ensures
        r == contains_text(out.stdout@, "allow-protected"@),
{
    contains_str(out.stdout.as_str(), "allow-protected")
}

/// `jj bookmark move [--allow-protected] --from FROM --to TO NAME`: moves the
/// bookmark only if it is at `from`.
pub fn bookmark_move(name: &str, from: &str, to: &str, allow_protected: bool) -> (r: Vec<
    String,
>)
    ensures
        string_views(r@) == seq!["--color=never"@, "bookmark"@, "move"@] + (if allow_protected {
            seq!["--allow-protected"@]
        } else {
            seq![]
        }) + seq!["--from"@, from@, "--to"@, to@, name@],
{
    let mut v = command("bookmark");
    push_arg(&mut v, "move");
    let ghost head = string_views(v@);
    if allow_protected {
        push_arg(&mut v, "--allow-protected");
    }
    let ghost mid = string_views(v@);
    push_arg(&mut v, "--from");
    push_arg(&mut v, from);
    push_arg(&mut v, "--to");
    push_arg(&mut v, to);
    push_arg(&mut v, name);
    proof {
        assert(string_views(v@) =~= mid + seq!["--from"@, from@, "--to"@, to@, name@]);
        assert(mid =~= seq!["--color=never"@, "bookmark"@, "move"@] + (if allow_protected {
            seq!["--allow-protected"@]
        } else {
            seq![]
        }));
    }
    v
}

/// `jj bookmark list -r bookmarks(glob:"PATTERN") -T 'name ++ "\n"'`.
pub fn bookmark_list_glob_args(pattern: &str) -> (r: Vec<String>)
    ensures
        string_views(r@) == seq![
            "--color=never"@,
            "bookmark"@,
            "list"@,
            "-r"@,
            "bookmarks(glob:\""@ + pattern@ + "\")"@,
            "-T"@,
            "name ++ \"\\n\""@,
        ],
{
    let mut v = command("bookmark");
    push_arg(&mut v, "list");
    push_arg(&mut v, "-r");
    let mut g: Vec<char> = Vec::new();
    push_str(&mut g, "bookmarks(glob:\"");
    push_str(&mut g, pattern);
    push_str(&mut g, "\")");
    let gs = string_of(&g);
    push_arg(&mut v, gs.as_str());
    push_arg(&mut v, "-T");
    push_arg(&mut v, "name ++ \"\\n\"");
    v
}

/// `jj bookmark list -T 'name ++ "\n"'`: every local bookmark.
pub fn list_bookmarks() -> (r: Vec<String>)
    ensures
        string_views(r@) == seq!["--color=never"@, "bookmark"@, "list"@, "-T"@, "name ++ \"\\n\""@],
{
    let mut v = command("bookmark");
    push_arg(&mut v, "list");
    push_arg(&mut v, "-T");
    push_arg(&mut v, "name ++ \"\\n\"");
    v
}

/// The lines that are not empty, in order.
pub open spec fn nonempty_lines(ls: Seq<Seq<char>>) -> Seq<Seq<char>>
    decreases ls.len(),
{
    if ls.len() == 0 {
        seq![]
    } else if ls.last().len() == 0 {
        nonempty_lines(ls.drop_last())
    } else {
        nonempty_lines(ls.drop_last()).push(ls.last())
    }
}

/// A bookmark listing: the names it printed, one per line.
pub fn bookmark_list_glob(out: &JjOutput) -> (r: Result<Vec<String>, JjError>)
    ensures
        out.success ==> (r matches Ok(v) && string_views(v@) == nonempty_lines(
            lines_of(out.stdout@),
        )),
        !out.success ==> (r matches Err(JjError::Tool(e)) && e@ == tool_text(*out)),
{
    if !out.success {
        return Err(tool_error(out));
    }
    let cs = chars_of(out.stdout.as_str());
    let lines = split_lines(&cs);
    let ghost ls = chunk_views(lines@);
    let mut names: Vec<String> = Vec::new();
    let mut i: usize = 0;
    proof {
        assert(ls.take(0) =~= Seq::<Seq<char>>::empty());
        assert(string_views(names@) =~= Seq::<Seq<char>>::empty());
    }
    while i < lines.len()
        invariant
            i <= lines@.len(),
            ls == chunk_views(lines@),
            ls == lines_of(out.stdout@),
            string_views(names@) == nonempty_lines(ls.take(i as int)),
        decreases lines@.len() - i,
    {
        proof {
            let u = ls.take(i + 1);
            assert(u.drop_last() =~= ls.take(i as int));
            assert(u.last() == lines@[i as int]@);
        }
        if lines[i].len() > 0 {
            let s = string_of(&lines[i]);
            let ghost before = names@;
            names.push(s);
            proof {
                assert(string_views(names@) =~= string_views(before).push(s@));
            }
        }
        i = i + 1;
    }
    proof {
        assert(ls.take(i as int) =~= ls);
    }
    Ok(names)
}

/// `jj log -r REVSET --no-graph -T change_id.short()`.
pub fn resolve_revset_args(revset: &str) -> (r: Vec<String>)
    ensures
        string_views(r@) == seq![
            "--color=never"@,
            "log"@,
            "-r"@,
            revset@,
            "--no-graph"@,
            "-T"@,
            "change_id.short()"@,
        ],
{
    let mut v = command("log");
    push_arg(&mut v, "-r");
    push_arg(&mut v, revset);
    push_arg(&mut v, "--no-graph");
    push_arg(&mut v, "-T");
    push_arg(&mut v, "change_id.short()");
    v
}

/// What a query for exactly one revision found.
pub enum Single {
    Found(Seq<char>),
    Missing,
    Several,
}

/// A query for exactly one revision: its trimmed output, unless the query
/// failed or printed nothing (missing) or printed several lines.
pub open spec fn single_result(success: bool, stdout: Seq<char>) -> Single {
    let t = trimmed(stdout);
    if !success || t.len() == 0 {
        Single::Missing
    } else if !no_newline(t) {
        Single::Several
    } else {
        Single::Found(t)
    }
}

fn single(revset: &str, out: &JjOutput) -> (r: Result<Vec<char>, JjError>)
    ensures
        match single_result(out.success, out.stdout@) {
            Single::Found(t) => r matches Ok(v) && v@ == t,
            Single::Missing => r matches Err(JjError::NotFound(x)) && x@ == revset@,
            Single::Several => r matches Err(JjError::Ambiguous(x)) && x@ == revset@,
        },
{
    let c = chars_of(out.stdout.as_str());
    let t = trim_chars(&c);
    if !out.success || t.len() == 0 {
        return Err(JjError::NotFound(crate::text::owned(revset)));
    }
    let mut k: usize = 0;
    while k < t.len()
        invariant
            k <= t@.len(),
            t@ == trimmed(out.stdout@),
            out.success && t@.len() > 0,
            forall|i: int| 0 <= i < k ==> t@[i] != '\n',
        decreases t@.len() - k,
    {
        if t[k] == '\n' {
            proof {
                assert(!no_newline(t@));
            }
            return Err(JjError::Ambiguous(crate::text::owned(revset)));
        }
        k = k + 1;
    }
    Ok(t)
}

/// A `jj log` for one revision's short change ID.
pub fn resolve_revset(revset: &str, out: &JjOutput) -> (r: Result<String, JjError>)
    ensures
        match single_result(out.success, out.stdout@) {
            Single::Found(t) => r matches Ok(v) && v@ == t,
            Single::Missing => r matches Err(JjError::NotFound(x)) && x@ == revset@,
            Single::Several => r matches Err(JjError::Ambiguous(x)) && x@ == revset@,
        },
{
    match single(revset, out) {
        Ok(t) => Ok(string_of(&t)),
        Err(e) => Err(e),
    }
}

/// `jj log -r REVSET --no-graph -T 'change_id.short() ++ " " ++ commit_id'`.
pub fn resolve_revset_full_args(revset: &str) -> (r: Vec<String>)
    ensures
        string_views(r@) == seq![
            "--color=never"@,
            "log"@,
            "-r"@,
            revset@,
            "--no-graph"@,
            "-T"@,
            "change_id.short() ++ \" \" ++ commit_id"@,
        ],
{
    let mut v = command("log");
    push_arg(&mut v, "-r");
    push_arg(&mut v, revset);
    push_arg(&mut v, "--no-graph");
    push_arg(&mut v, "-T");
    push_arg(&mut v, "change_id.short() ++ \" \" ++ commit_id");
    v
}

/// Index of the first space in `s`, or `s.len()` when there is none.
pub open spec fn space_index(s: Seq<char>) -> nat
    decreases s.len(),
{
    if s.len() == 0 {
        0
    } else if s[0] == ' ' {
        0
    } else {
        1 + space_index(s.drop_first())
    }
}

/// The change and commit IDs that a query of one revision's
/// `change_id.short() ++ " " ++ commit_id` yields, when it yields them.
pub open spec fn resolved_pair(success: bool, stdout: Seq<char>) -> Option<(Seq<char>, Seq<char>)> {
    match single_result(success, stdout) {
        Single::Found(t) => if space_index(t) < t.len() {
            Some((t.take(space_index(t) as int), t.skip(space_index(t) as int + 1)))
        } else {
            None
        },
        _ => None,
    }
}

fn find_space(s: &Vec<char>) -> (r: usize)
    ensures
        r == space_index(s@),
        r <= s@.len(),
{
    let mut k: usize = 0;
    proof {
        assert(s@.skip(0) =~= s@);
    }
    while k < s.len() && s[k] != ' '
        invariant
            k <= s@.len(),
            k + space_index(s@.skip(k as int)) == space_index(s@),
        decreases s@.len() - k,
    {
        proof {
            assert(s@.skip(k as int)[0] == s@[k as int]);
            assert(s@.skip(k as int).drop_first() =~= s@.skip(k + 1));
        }
        k = k + 1;
    }
    proof {
        if k < s@.len() {
            assert(s@.skip(k as int)[0] == s@[k as int]);
        }
    }
    k
}

/// A `jj log` for one revision's change ID and commit ID, separated by a space.
pub fn resolve_revset_full(revset: &str, out: &JjOutput) -> (r: Result<(String, String), JjError>)
    ensures
        match single_result(out.success, out.stdout@) {
            Single::Found(t) => if space_index(t) < t.len() {
                r matches Ok(p) && p.0@ == t.take(space_index(t) as int) && p.1@ == t.skip(
                    space_index(t) as int + 1,
                )
            } else {
                r matches Err(JjError::Protocol(x)) && x@ == "unexpected output format from jj log"@
            },
            Single::Missing => r matches Err(JjError::NotFound(x)) && x@ == revset@,
            Single::Several => r matches Err(JjError::Ambiguous(x)) && x@ == revset@,
        },
{
    let t = match single(revset, out) {
        Ok(t) => t,
        Err(e) => return Err(e),
    };
    let i = find_space(&t);
    if i >= t.len() {
        return Err(JjError::Protocol(crate::text::owned("unexpected output format from jj log")));
    }
    let a = slice_chars(&t, 0, i);
    let b = slice_chars(&t, i + 1, t.len());
    proof {
        assert(a@ =~= t@.take(i as int));
        assert(b@ =~= t@.skip(i + 1));
    }
    Ok((string_of(&a), string_of(&b)))
}

/// `jj log -r REVSET --no-graph -T TEMPLATE`.
fn log_template(revset: &str, template: &str) -> (r: Vec<String>)
    ensures
        string_views(r@) == seq![
            "--color=never"@,
            "log"@,
            "-r"@,
            revset@,
            "--no-graph"@,
            "-T"@,
            template@,
        ],
{
    let mut v = command("log");
    push_arg(&mut v, "-r");
    push_arg(&mut v, revset);
    push_arg(&mut v, "--no-graph");
    push_arg(&mut v, "-T");
    push_arg(&mut v, template);
    v
}

/// `jj log -r REVSET --no-graph -T commit_id`.
pub fn get_commit_id_args(revset: &str) -> (r: Vec<String>)
    ensures
        string_views(r@) == seq![
            "--color=never"@,
            "log"@,
            "-r"@,
            revset@,
            "--no-graph"@,
            "-T"@,
            "commit_id"@,
        ],
{
    log_template(revset, "commit_id")
}

/// A `jj log` for a commit ID: the ID, trimmed.
pub fn get_commit_id(out: &JjOutput) -> (r: Result<String, JjError>)
    ensures
        out.success ==> (r matches Ok(s) && s@ == trimmed(out.stdout@)),
        !out.success ==> (r matches Err(JjError::Tool(e)) && e@ == tool_text(*out)),
{
    repo_root(out)
}

/// `jj log -r REVSET --no-graph -T description`: the full description, read with
/// [`run_ok`].
pub fn get_description(revset: &str) -> (r: Vec<String>)
    ensures
        string_views(r@) == seq![
            "--color=never"@,
            "log"@,
            "-r"@,
            revset@,
            "--no-graph"@,
            "-T"@,
            "description"@,
        ],
{
    log_template(revset, "description")
}

/// `jj log -r REVSET --no-graph -T 'if(conflict, "yes")'`.
pub fn has_conflicts_args(revset: &str) -> (r: Vec<String>)
    ensures
        string_views(r@) == seq![
            "--color=never"@,
            "log"@,
            "-r"@,
            revset@,
            "--no-graph"@,
            "-T"@,
            "if(conflict, \"yes\")"@,
        ],
{
    log_template(revset, "if(conflict, \"yes\")")
}

/// The conflict query: the revision has conflicts when anything was printed.
pub fn has_conflicts(out: &JjOutput) -> (r: Result<bool, JjError>)
    ensures
        out.success ==> r == Ok::<bool, JjError>(trimmed(out.stdout@).len() > 0),
        !out.success ==> (r matches Err(JjError::Tool(e)) && e@ == tool_text(*out)),
{
    printed_something(out)
}

/// `jj diff --from A --to B --summary`: lists the paths whose contents differ.
pub fn trees_match_args(rev_a: &str, rev_b: &str) -> (r: Vec<String>)
    ensures
        string_views(r@) == seq![
            "--color=never"@,
            "diff"@,
            "--from"@,
            rev_a@,
            "--to"@,
            rev_b@,
            "--summary"@,
        ],
{
    let mut v = command("diff");
    push_arg(&mut v, "--from");
    push_arg(&mut v, rev_a);
    push_arg(&mut v, "--to");
    push_arg(&mut v, rev_b);
    push_arg(&mut v, "--summary");
    v
}

/// The tree comparison: the trees are identical when no path is listed.
pub fn trees_match(out: &JjOutput) -> (r: Result<bool, JjError>)
    ensures
        out.success ==> r == Ok::<bool, JjError>(trimmed(out.stdout@).len() == 0),
        !out.success ==> (r matches Err(JjError::Tool(e)) && e@ == tool_text(*out)),
{
    match printed_something(out) {
        Ok(b) => Ok(!b),
        Err(e) => Err(e),
    }
}

/// `-r P` for each parent `P`, in order.
pub open spec fn parent_flags(ps: Seq<Seq<char>>) -> Seq<Seq<char>>
    decreases ps.len(),
{
    if ps.len() == 0 {
        seq![]
    } else {
        parent_flags(ps.drop_last()) + seq!["-r"@, ps.last()]
    }
}

fn push_parents(v: &mut Vec<String>, parents: &Vec<String>)
    ensures
        string_views(final(v)@) == string_views(old(v)@) + parent_flags(string_views(parents@)),
{
    let ghost head = string_views(v@);
    let ghost ps = string_views(parents@);
    let mut k: usize = 0;
    proof {
        assert(ps.take(0) =~= Seq::<Seq<char>>::empty());
        assert(head + parent_flags(ps.take(0)) =~= head);
    }
    while k < parents.len()
        invariant
            k <= parents@.len(),
            ps == string_views(parents@),
            head == string_views(old(v)@),
            string_views(v@) == head + parent_flags(ps.take(k as int)),
        decreases parents@.len() - k,
    {
        let ghost before = string_views(v@);
        push_arg(v, "-r");
        push_arg(v, parents[k].as_str());
        proof {
            let t = ps.take(k + 1);
            assert(t.drop_last() =~= ps.take(k as int));
            assert(t.last() == parents@[k as int]@);
            assert(string_views(v@) =~= head + parent_flags(t));
        }
        k = k + 1;
    }
    proof {
        assert(ps.take(k as int) =~= ps);
    }
}

/// `jj new --no-edit -r A -r B ...`: a new revision that does not become the
/// working copy.
pub fn new_rev_args(parents: &Vec<String>) -> (r: Vec<String>)
    ensures
        string_views(r@) == seq!["--color=never"@, "new"@, "--no-edit"@] + parent_flags(
            string_views(parents@),
        ),
{
    let mut v = command("new");
    push_arg(&mut v, "--no-edit");
    push_parents(&mut v, parents);
    v
}

/// The change ID that a line `Created new commit <id> ...` announces.
pub open spec fn created_change_id(line: Seq<char>) -> Option<Seq<char>> {
    let w = words_of(line);
    if w.len() >= 4 && w[0] == "Created"@ && w[1] == "new"@ && w[2] == "commit"@ {
        Some(w[3])
    } else {
        None
    }
}

/// The first announcement of a created commit among the lines.
pub open spec fn first_created(ls: Seq<Seq<char>>) -> Option<Seq<char>>
    decreases ls.len(),
{
    if ls.len() == 0 {
        None
    } else {
        match created_change_id(ls[0]) {
            Some(c) => Some(c),
            None => first_created(ls.drop_first()),
        }
    }
}

fn word_is(w: &Vec<Vec<char>>, i: usize, lit: &str) -> (r: bool)
    requires
        i < w@.len(),
    ensures
        r == (w@[i as int]@ == lit@),
{
    let l = chars_of(lit);
    chars_equal(&w[i], &l)
}

fn line_created(line: &Vec<char>) -> (r: Option<String>)
    ensures
        match created_change_id(line@) {
            Some(c) => r matches Some(s) && s@ == c,
            None => r.is_none(),
        },
{
    let w = split_words(line);
    proof {
        assert(chunk_views(w@).len() == w@.len());
    }
    if w.len() >= 4 && word_is(&w, 0, "Created") && word_is(&w, 1, "new") && word_is(
        &w,
        2,
        "commit",
    ) {
        Some(string_of(&w[3]))
    } else {
        None
    }
}

/// A `jj new`: the change ID of the revision it created, which `jj` announces on
/// standard error as `Created new commit <id> ...`.
pub fn new_rev(out: &JjOutput) -> (r: Result<String, JjError>)
    ensures
        !out.success ==> (r matches Err(JjError::Tool(e)) && e@ == tool_text(*out)),
        out.success ==> match first_created(lines_of(out.stderr@)) {
            Some(c) => r matches Ok(s) && s@ == c,
            None => r matches Err(JjError::Protocol(x)) && x@
                == "failed to parse change ID from jj new output: "@ + out.stderr@,
        },
{
    if !out.success {
        return Err(tool_error(out));
    }
    let cs = chars_of(out.stderr.as_str());
    let lines = split_lines(&cs);
    let ghost ls = chunk_views(lines@);
    let mut i: usize = 0;
    proof {
        assert(ls.skip(0) =~= ls);
    }
    while i < lines.len()
        invariant
            i <= lines@.len(),
            ls == chunk_views(lines@),
            ls == lines_of(out.stderr@),
            out.success,
            first_created(ls) == first_created(ls.skip(i as int)),
        decreases lines@.len() - i,
    {
        proof {
            assert(ls.skip(i as int)[0] == lines@[i as int]@);
            assert(ls.skip(i as int).drop_first() =~= ls.skip(i + 1));
        }
        match line_created(&lines[i]) {
            Some(c) => return Ok(c),
            None => {},
        }
        i = i + 1;
    }
    proof {
        assert(ls.skip(i as int) =~= Seq::<Seq<char>>::empty());
    }
    let mut m: Vec<char> = Vec::new();
    push_str(&mut m, "failed to parse change ID from jj new output: ");
    push_str(&mut m, out.stderr.as_str());
    Err(JjError::Protocol(string_of(&m)))
}

/// `jj desc -r REV -m MESSAGE`.
pub fn describe(rev: &str, message: &str) -> (r: Vec<String>)
    ensures
        string_views(r@) == seq!["--color=never"@, "desc"@, "-r"@, rev@, "-m"@, message@],
{
    let mut v = command("desc");
    push_arg(&mut v, "-r");
    push_arg(&mut v, rev);
    push_arg(&mut v, "-m");
    push_arg(&mut v, message);
    v
}

/// `jj abandon REV`.
pub fn abandon(rev: &str) -> (r: Vec<String>)
    ensures
        string_views(r@) == seq!["--color=never"@, "abandon"@, rev@],
{
    let mut v = command("abandon");
    push_arg(&mut v, rev);
    v
}

/// `jj edit REV`.
pub fn edit(rev: &str) -> (r: Vec<String>)
    ensures
        string_views(r@) == seq!["--color=never"@, "edit"@, rev@],
{
    let mut v = command("edit");
    push_arg(&mut v, rev);
    v
}

/// `jj rebase -b SOURCE -d DESTINATION`: the source's branch, up to the
/// destination, onto the destination.
pub fn rebase_branch_onto(source: &str, destination: &str) -> (r: Vec<String>)
    ensures
        string_views(r@) == seq!["--color=never"@, "rebase"@, "-b"@, source@, "-d"@, destination@],
{
    let mut v = command("rebase");
    push_arg(&mut v, "-b");
    push_arg(&mut v, source);
    push_arg(&mut v, "-d");
    push_arg(&mut v, destination);
    v
}

/// `jj duplicate DESTINATION..REVSET --onto DESTINATION`.
pub fn duplicate_onto_args(revset: &str, destination: &str) -> (r: Vec<String>)
    ensures
        string_views(r@) == seq![
            "--color=never"@,
            "duplicate"@,
            destination@ + ".."@ + revset@,
            "--onto"@,
            destination@,
        ],
{
    let mut v = command("duplicate");
    let mut range: Vec<char> = Vec::new();
    push_str(&mut range, destination);
    push_str(&mut range, "..");
    push_str(&mut range, revset);
    let rs = string_of(&range);
    push_arg(&mut v, rs.as_str());
    push_arg(&mut v, "--onto");
    push_arg(&mut v, destination);
    v
}

/// The new change ID that a line `Duplicated <hash> as <id> ...` announces.
pub open spec fn duplicated_id(line: Seq<char>) -> Option<Seq<char>> {
    let w = words_of(line);
    if w.len() >= 4 && w[0] == "Duplicated"@ && w[2] == "as"@ {
        Some(w[3])
    } else {
        None
    }
}

/// Every announced duplicate, in order.
pub open spec fn duplicated_ids(ls: Seq<Seq<char>>) -> Seq<Seq<char>>
    decreases ls.len(),
{
    if ls.len() == 0 {
        seq![]
    } else {
        match duplicated_id(ls.last()) {
            Some(c) => duplicated_ids(ls.drop_last()).push(c),
            None => duplicated_ids(ls.drop_last()),
        }
    }
}

fn line_duplicated(line: &Vec<char>) -> (r: Option<String>)
    ensures
        match duplicated_id(line@) {
            Some(c) => r matches Some(s) && s@ == c,
            None => r.is_none(),
        },
{
    let w = split_words(line);
    if w.len() >= 4 && word_is(&w, 0, "Duplicated") && word_is(&w, 2, "as") {
        Some(string_of(&w[3]))
    } else {
        None
    }
}

/// A `jj duplicate`: the new change IDs in order, the last being the duplicate
/// of the tip; `jj` announces one per line on standard error. None when there
/// was nothing to duplicate (the candidate is already on the destination).
pub fn duplicate_onto(out: &JjOutput) -> (r: Result<Vec<String>, JjError>)
    ensures
        !out.success ==> (r matches Err(JjError::Tool(e)) && e@ == tool_text(*out)),
        out.success ==> (r matches Ok(v) && string_views(v@) == duplicated_ids(
            lines_of(out.stderr@),
        )),
{
    if !out.success {
        return Err(tool_error(out));
    }
    let cs = chars_of(out.stderr.as_str());
    let lines = split_lines(&cs);
    let ghost ls = chunk_views(lines@);
    let mut ids: Vec<String> = Vec::new();
    let mut i: usize = 0;
    proof {
        assert(ls.take(0) =~= Seq::<Seq<char>>::empty());
        assert(string_views(ids@) =~= Seq::<Seq<char>>::empty());
    }
    while i < lines.len()
        invariant
            i <= lines@.len(),
            ls == chunk_views(lines@),
            ls == lines_of(out.stderr@),
            string_views(ids@) == duplicated_ids(ls.take(i as int)),
        decreases lines@.len() - i,
    {
        proof {
            let u = ls.take(i + 1);
            assert(u.drop_last() =~= ls.take(i as int));
            assert(u.last() == lines@[i as int]@);
        }
        match line_duplicated(&lines[i]) {
            Some(c) => {
                let ghost before = ids@;
                ids.push(c);
                proof {
                    assert(string_views(ids@) =~= string_views(before).push(ids@.last()@));
                }
            },
            None => {},
        }
        i = i + 1;
    }
    proof {
        assert(ls.take(i as int) =~= ls);
    }
    Ok(ids)
}

/// `jj file show PATH -r REV`, read with [`run_ok`].
pub fn file_show(path: &str, rev: &str) -> (r: Vec<String>)
    ensures
        string_views(r@) == seq!["--color=never"@, "file"@, "show"@, path@, "-r"@, rev@],
{
    let mut v = command("file");
    push_arg(&mut v, "show");
    push_arg(&mut v, path);
    push_arg(&mut v, "-r");
    push_arg(&mut v, rev);
    v
}

/// `jj workspace add -r A ... --name NAME PATH`.
pub fn workspace_add(path: &str, name: &str, parents: &Vec<String>) -> (r: Vec<String>)
    ensures
        string_views(r@) == seq!["--color=never"@, "workspace"@, "add"@] + parent_flags(
            string_views(parents@),
        ) + seq!["--name"@, name@, path@],
{
    let mut v = command("workspace");
    push_arg(&mut v, "add");
    push_parents(&mut v, parents);
    let ghost mid = string_views(v@);
    push_arg(&mut v, "--name");
    push_arg(&mut v, name);
    push_arg(&mut v, path);
    proof {
        assert(string_views(v@) =~= mid + seq!["--name"@, name@, path@]);
    }
    v
}

/// `jj workspace forget NAME`.
pub fn workspace_forget_args(name: &str) -> (r: Vec<String>)
    ensures
        string_views(r@) == seq!["--color=never"@, "workspace"@, "forget"@, name@],
{
    let mut v = command("workspace");
    push_arg(&mut v, "forget");
    push_arg(&mut v, name);
    v
}

/// `jj workspace update-stale`.
pub fn update_stale_args() -> (r: Vec<String>)
    ensures
        string_views(r@) == seq!["--color=never"@, "workspace"@, "update-stale"@],
{
    let mut v = command("workspace");
    push_arg(&mut v, "update-stale");
    v
}

/// What to do after a `jj workspace forget`.
pub enum ForgetStep {
    /// The workspace is forgotten.
    Done,
    /// The working copy is stale: run `jj workspace update-stale` once, then
    /// forget again, this time as an invocation that must succeed.
    UpdateStaleThenRetry,
    /// Forgetting failed for another reason.
    Failed(JjError),
}

/// Reads a `jj workspace forget`, recovering from a stale working copy.
pub fn workspace_forget(out: &JjOutput) -> (r: ForgetStep)
    ensures
        out.success ==> r matches ForgetStep::Done,
        !out.success && contains_text(out.stderr@, "stale"@) ==> r matches ForgetStep::UpdateStaleThenRetry,
        !out.success && !contains_text(out.stderr@, "stale"@) ==> (r matches ForgetStep::Failed(
            JjError::Tool(e),
        ) && e@ == tool_text(*out)),
{
    if out.success {
        ForgetStep::Done
    } else if contains_str(out.stderr.as_str(), "stale") {
        ForgetStep::UpdateStaleThenRetry
    } else {
        ForgetStep::Failed(tool_error(out))
    }
}

/// `jj workspace list`, read with [`run_ok`].
pub fn workspace_list() -> (r: Vec<String>)
    ensures
        string_views(r@) == seq!["--color=never"@, "workspace"@, "list"@],
{
    let mut v = command("workspace");
    push_arg(&mut v, "list");
    v
}

/// `jj log` of the descriptions of the metadata branch's last hundred commits,
/// each followed by a `---` line; read with [`run_ok`].
pub fn metadata_history_args() -> (r: Vec<String>)
    ensures
        string_views(r@) == seq![
            "--color=never"@,
            "log"@,
            "-r"@,
            "ancestors(bookmarks(exact:\"jjq/_/_\"), 100)"@,
            "--no-graph"@,
            "-T"@,
            "description ++ \"\\n---\\n\""@,
        ],
{
    log_template("ancestors(bookmarks(exact:\"jjq/_/_\"), 100)", "description ++ \"\\n---\\n\"")
}

} // verus!
