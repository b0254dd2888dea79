//! Configuration keys, their defaults, and the landing strategy.
use vstd::prelude::*;
use crate::text::{chars_equal, chars_of, push_str, string_of};
use crate::exit_codes::{ExitError, USAGE};

verus! {

/// The metadata bookmark.
pub const JJQ_BOOKMARK: &'static str = "jjq/_/_";

/// The trunk bookmark used when none is configured.
pub const DEFAULT_TRUNK_BOOKMARK: &'static str = "main";

/// How a candidate that passed its check is landed on trunk.
#[derive(Clone, Copy, PartialEq, Eq, Structural, Debug)]
pub enum Strategy {
    Merge,
    Rebase,
}

/// The strategy of a repository whose configuration names none.
pub const DEFAULT_STRATEGY: Strategy = Strategy::Merge;

impl Strategy {
    pub open spec fn name(self) -> Seq<char> {
        match self {
            Strategy::Merge => "merge"@,
            Strategy::Rebase => "rebase"@,
        }
    }

    /// The strategy's name as written in configuration.
    pub fn as_str(&self) -> (r: &'static str)
        ensures
            r@ == self.name(),
    {
        match self {
            Strategy::Merge => "merge",
            Strategy::Rebase => "rebase",
        }
    }

    /// The strategy that `s` names, if any.
    pub fn from_name(s: &str) -> (r: Option<Strategy>)
        ensures
            r == (if s@ == "merge"@ {
                Some(Strategy::Merge)
            } else if s@ == "rebase"@ {
                Some(Strategy::Rebase)
            } else {
                None
            }),
    {
        let cs = chars_of(s);
        let m = chars_of("merge");
        let b = chars_of("rebase");
        if chars_equal(&cs, &m) {
            Some(Strategy::Merge)
        } else if chars_equal(&cs, &b) {
            Some(Strategy::Rebase)
        } else {
            None
        }
    }
}

pub open spec fn valid_key(key: Seq<char>) -> bool {
    key == "trunk_bookmark"@ || key == "check_command"@ || key == "strategy"@
}

/// Whether `key` is one of the recognised configuration keys.
pub fn is_valid_key(key: &str) -> (r: bool)
    ensures
        r == valid_key(key@),
{
    let cs = chars_of(key);
    let a = chars_of("trunk_bookmark");
    let b = chars_of("check_command");
    let c = chars_of("strategy");
    chars_equal(&cs, &a) || chars_equal(&cs, &b) || chars_equal(&cs, &c)
}

pub open spec fn unknown_key_message(key: Seq<char>) -> Seq<char> {
    "unknown config key: "@ + key + "\nvalid keys: trunk_bookmark, check_command, strategy"@
}

pub open spec fn invalid_strategy_message(value: Seq<char>) -> Seq<char> {
    "invalid value for strategy: "@ + value + "\nvalid values: rebase, merge"@
}

/// Checks a `config <key> <value>` write before anything is changed: the key must
/// be recognised, and a strategy must name one.
pub fn validate_set(key: &str, value: &str) -> (r: Result<(), ExitError>)
    ensures
        r.is_ok() <==> (valid_key(key@) && (key@ == "strategy"@ ==> (value@ == "merge"@ || value@
            == "rebase"@))),
        r matches Err(e) ==> e.code == USAGE && e.message@ == (if !valid_key(key@) {
            unknown_key_message(key@)
        } else {
            invalid_strategy_message(value@)
        }),
{
    if !is_valid_key(key) {
        let mut m: Vec<char> = Vec::new();
        push_str(&mut m, "unknown config key: ");
        push_str(&mut m, key);
        push_str(&mut m, "\nvalid keys: trunk_bookmark, check_command, strategy");
        return Err(ExitError::new(USAGE, string_of(&m)));
    }
    let cs = chars_of(key);
    let st = chars_of("strategy");
    if chars_equal(&cs, &st) && Strategy::from_name(value).is_none() {
        let mut m: Vec<char> = Vec::new();
        push_str(&mut m, "invalid value for strategy: ");
        push_str(&mut m, value);
        push_str(&mut m, "\nvalid values: rebase, merge");
        return Err(ExitError::new(USAGE, string_of(&m)));
    }
    Ok(())
}

/// The configured value, or `default` where none is set.
pub fn get_or_default(value: Option<String>, default: &str) -> (r: String)
    ensures
        r@ == match value {
            Some(v) => v@,
            None => default@,
        },
{
    match value {
        Some(v) => v,
        None => {
            let d = chars_of(default);
            string_of(&d)
        },
    }
}

/// The trunk bookmark: the configured value, `main` by default.
pub fn get_trunk_bookmark(value: Option<String>) -> (r: String)
    ensures
        r@ == match value {
            Some(v) => v@,
            None => "main"@,
        },
{
    get_or_default(value, DEFAULT_TRUNK_BOOKMARK)
}

/// The landing strategy: the configured one, `merge` where none is set; a value
/// that names no strategy is an error.
pub fn get_strategy(value: Option<String>) -> (r: Result<Strategy, ExitError>)
    ensures
        match value {
            None => r == Ok::<Strategy, ExitError>(Strategy::Merge),
            Some(v) => if v@ == "merge"@ {
                r == Ok::<Strategy, ExitError>(Strategy::Merge)
            } else if v@ == "rebase"@ {
                r == Ok::<Strategy, ExitError>(Strategy::Rebase)
            } else {
                r matches Err(e) && e.message@ == "invalid strategy value: "@ + v@
            },
        },
{
    match value {
        None => Ok(DEFAULT_STRATEGY),
        Some(v) => match Strategy::from_name(v.as_str()) {
            Some(s) => Ok(s),
            None => {
                let mut m: Vec<char> = Vec::new();
                push_str(&mut m, "invalid strategy value: ");
                push_str(&mut m, v.as_str());
                Err(ExitError::new(crate::exit_codes::CONFLICT, string_of(&m)))
            },
        },
    }
}

/// The error for a command that needs an initialised repository.
pub fn require_initialized(initialized: bool) -> (r: Result<(), ExitError>)
    ensures
        r.is_ok() == initialized,
        r matches Err(e) ==> e.code == USAGE && e.message@
            == "jjq is not initialized. Run 'jjq init' first."@,
{
    if initialized {
        Ok(())
    } else {
        let mut m: Vec<char> = Vec::new();
        push_str(&mut m, "jjq is not initialized. Run 'jjq init' first.");
        Err(ExitError::new(USAGE, string_of(&m)))
    }
}

/// The `jj` query that tells whether the queue is initialised, that is, whether
/// the metadata bookmark exists (read with `jj::bookmark_exists`).
pub fn is_initialized_args() -> (r: Vec<String>)
    ensures
        crate::text::string_views(r@) == seq![
            "--color=never"@,
            "bookmark"@,
            "list"@,
            "-r"@,
            crate::jj::exact_revset(JJQ_BOOKMARK@),
            "-T"@,
            "name"@,
        ],
{
    crate::jj::bookmark_exists_args(JJQ_BOOKMARK)
}

} // verus!
