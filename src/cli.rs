//! Command options shared by the stack commands.

use vstd::prelude::*;
use crate::text::{lower_of, lowercase, owned, push_str};

verus! {

/// What to do when a resource fails.
#[derive(Debug, Clone, Copy, PartialEq, Eq, Structural)]
pub enum FailureAction {
    Rollback,
    Ignore,
    Error,
}

/// The action a lowercase name denotes.
pub open spec fn failure_action_named(t: Seq<char>) -> Option<FailureAction> {
    if t == "rollback"@ {
        Some(FailureAction::Rollback)
    } else if t == "ignore"@ {
        Some(FailureAction::Ignore)
    } else if t == "error"@ {
        Some(FailureAction::Error)
    } else {
        None
    }
}

impl FailureAction {
    /// The action a lowercase name denotes.
    pub fn from_lowered(t: &str) -> (r: Option<FailureAction>)
        ensures
            r == failure_action_named(t@),
    {
        let v = crate::text::chars_of(t);
        if crate::text::same_chars(&v, &crate::text::chars_of("rollback")) {
            Some(FailureAction::Rollback)
        } else if crate::text::same_chars(&v, &crate::text::chars_of("ignore")) {
            Some(FailureAction::Ignore)
        } else if crate::text::same_chars(&v, &crate::text::chars_of("error")) {
            Some(FailureAction::Error)
        } else {
            None
        }
    }

    /// The action `s` names, ignoring case.
    pub fn parse(s: &str) -> (r: Result<FailureAction, String>)
        ensures
            match r {
                Ok(a) => failure_action_named(lower_of(s@)) == Some(a),
                Err(m) => failure_action_named(lower_of(s@)) is None && m@ == "Unknown failure action: "@
                    + s@,
            },
    {
        let lowered = lowercase(s);
        match FailureAction::from_lowered(lowered.as_str()) {
            Some(a) => Ok(a),
            None => {
                let mut m = owned("Unknown failure action: ");
                push_str(&mut m, s);
                Err(m)
            },
        }
    }
}

impl std::str::FromStr for FailureAction {
    type Err = String;

    fn from_str(s: &str) -> Result<FailureAction, String> {
        FailureAction::parse(s)
    }
}

} // verus!
