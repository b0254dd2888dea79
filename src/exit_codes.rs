//! Process exit codes and the error that carries one.
use vstd::prelude::*;

verus! {

/// A handled operational failure: a conflict, a failed check, trunk moved, a lock held.
pub const CONFLICT: i32 = 1;

/// `run --all` finished with at least one failure.
pub const PARTIAL: i32 = 2;

/// Bad arguments, not initialised, unknown key, invalid sequence ID.
pub const USAGE: i32 = 10;

/// An error that decides the process's exit code.
pub struct ExitError {
    pub code: i32,
    pub message: String,
}

impl ExitError {
    pub fn new(code: i32, message: String) -> (r: ExitError)
        ensures
            r.code == code,
            r.message@ == message@,
    {
        ExitError { code, message }
    }
}

} // verus!
