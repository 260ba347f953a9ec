//! Options shared by the commands.
use vstd::prelude::*;
use crate::text::{chars_of, string_of, push_str, str_eq, lowercase, to_lowercase};

verus! {

/// What to do when a deployment step fails.
#[derive(Debug, Clone, Copy, PartialEq, Eq, Structural)]
pub enum FailureAction {
    Rollback,
    Ignore,
    Error,
}

/// The action that a lower-case name selects, or the error that names the
/// value as it was given (`given`).
pub open spec fn failure_action_of(lower: Seq<char>, given: Seq<char>) -> Result<FailureAction, Seq<char>> {
    if lower == "rollback"@ {
        Ok(FailureAction::Rollback)
    } else if lower == "ignore"@ {
        Ok(FailureAction::Ignore)
    } else if lower == "error"@ {
        Ok(FailureAction::Error)
    } else {
        Err("Unknown failure action: "@ + given)
    }
}

pub open spec fn action_result_view(r: Result<FailureAction, String>) -> Result<FailureAction, Seq<char>> {
    match r {
        Ok(a) => Ok(a),
        Err(m) => Err(m@),
    }
}

impl FailureAction {
    /// The action that the lower-case form `lower` of `given` selects.
    pub fn from_lowercase(lower: &str, given: &str) -> (r: Result<FailureAction, String>)
        ensures
            action_result_view(r) == failure_action_of(lower@, given@),
    {
        if str_eq(lower, "rollback") {
            Ok(FailureAction::Rollback)
        } else if str_eq(lower, "ignore") {
            Ok(FailureAction::Ignore)
        } else if str_eq(lower, "error") {
            Ok(FailureAction::Error)
        } else {
            let mut t = chars_of("Unknown failure action: ");
            push_str(&mut t, given);
            Err(string_of(t.as_slice()))
        }
    }

    /// The action named by `s`, whatever its case.
    pub fn parse(s: &str) -> (r: Result<FailureAction, String>)
        ensures
            action_result_view(r) == failure_action_of(lowercase(s@), s@),
    {
        let lower = to_lowercase(s);
        FailureAction::from_lowercase(lower.as_str(), s)
    }
}

impl std::str::FromStr for FailureAction {
    type Err = String;

    fn from_str(s: &str) -> (r: Result<FailureAction, String>)
        ensures
            action_result_view(r) == failure_action_of(lowercase(s@), s@),
    {
        FailureAction::parse(s)
    }
}

} // verus!
