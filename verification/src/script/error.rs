//! A script error always carries the line where it happened, so the duel
//! screen can point at the offending line without spending the turn.

use vstd::prelude::*;

verus! {

#[derive(Debug, Clone, PartialEq)]
pub struct ScriptError {
    pub line: usize,
    pub message: String,
}

impl ScriptError {
    pub fn new(line: usize, message: String) -> (r: ScriptError)
        ensures
            r.line == line,
            r.message == message,
    {
        ScriptError { line, message }
    }
}

} // verus!
