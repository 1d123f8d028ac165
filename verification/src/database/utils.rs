//! Helpers for what the store answers.

use crate::error::InternalError;
use vstd::prelude::*;

verus! {

/// Turns "no such row" into "nothing": a lookup that may find nothing is
/// no failure when it finds nothing. Every other failure stays one.
pub fn map_not_found_as_none<T>(result: Result<T, InternalError>) -> (mapped: Result<
    Option<T>,
    InternalError,
>)
    ensures
        mapped == match result {
            Ok(row) => Ok::<Option<T>, InternalError>(Some(row)),
            Err(InternalError::RowNotFound) => Ok(None),
            Err(e) => Err(e),
        },
{
    match result {
        Ok(row) => Ok(Some(row)),
        Err(e) => {
            if matches!(e, InternalError::RowNotFound) {
                Ok(None)
            } else {
                Err(e)
            }
        },
    }
}

} // verus!
