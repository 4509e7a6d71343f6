use vstd::prelude::*;
use crate::error::Error;

verus! {

/// Turns an absent value into [`Error::Absent`] and hands a present one
/// through unchanged.
pub fn get<S>(option: Option<S>) -> (r: Result<S, Error>)
    ensures
        match option {
            Some(value) => r == Ok::<S, Error>(value),
            None => r matches Err(Error::Absent),
        },
{
    match option {
        Some(value) => Ok(value),
        None => Err(Error::Absent),
    }
}

} // verus!
