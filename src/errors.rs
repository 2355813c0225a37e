//! Error types that gather the library's errors.

use vstd::prelude::*;
use crate::exports::ExportError;
use crate::manifest::ManifestError;
use crate::queries::QueryError;

verus! {

/// An error of resource handling.
#[derive(Debug, PartialEq, Eq)]
pub enum ResourceError {
    Manifest(ManifestError),
    Query(QueryError),
    Export(ExportError),
    Io(String),
    Other(String),
}

/// An error of the program around the library.
#[derive(Debug, PartialEq, Eq)]
pub enum AppError {
    /// The query engine's binary was not found.
    BinaryNotFound,
    CommandFailed(String),
    IoError(String),
}

/// The engine binary's path, where a search found one.
pub fn get_binary_path_with_error(found: Option<String>) -> (r: Result<String, AppError>)
    ensures
        match found {
            Some(p) => r == Ok::<String, AppError>(p),
            None => r == Err::<String, AppError>(AppError::BinaryNotFound),
        },
{
    match found {
        Some(p) => Ok(p),
        None => Err(AppError::BinaryNotFound),
    }
}

} // verus!
