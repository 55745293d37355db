//! What a fallible function answered, with text in place of strings.

use vstd::prelude::*;

verus! {

/// An answer by its model, or the text of the refusal.
pub open spec fn outcome<T: View>(r: Result<T, String>) -> Result<T::V, Seq<char>> {
    match r {
        Ok(value) => Ok(value@),
        Err(message) => Err(message@),
    }
}

/// What an option holds, by its model.
pub open spec fn held<T: View>(o: Option<T>) -> Option<T::V> {
    match o {
        Some(value) => Some(value@),
        None => None,
    }
}

/// An answer that may hold nothing, or the text of the refusal.
pub open spec fn optional_outcome<T: View>(r: Result<Option<T>, String>) -> Result<
    Option<T::V>,
    Seq<char>,
> {
    match r {
        Ok(value) => Ok(held(value)),
        Err(message) => Err(message@),
    }
}

/// Acceptance, unless there is a refusal.
pub open spec fn verdict(refusal: Option<Seq<char>>) -> Result<(), Seq<char>> {
    match refusal {
        Some(message) => Err(message),
        None => Ok(()),
    }
}

} // verus!
