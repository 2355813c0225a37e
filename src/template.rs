//! Errors of template handling, of the engine and of contexts together.

use vstd::prelude::*;
use crate::context::ContextError;
use crate::engine::TemplateError as EngineTemplateError;
use crate::text::owned;

verus! {

/// An error of the engine, of a context, or another one.
#[derive(Debug, PartialEq, Eq)]
pub enum TemplateError {
    Engine(EngineTemplateError),
    Context(ContextError),
    Other(String),
}

impl TemplateError {
    /// An error with a message of its own.
    pub fn other(msg: &str) -> (r: TemplateError)
        ensures
            r matches TemplateError::Other(m) && m@ == msg@,
    {
        TemplateError::Other(owned(msg))
    }
}

} // verus!
