//! The store kept in an ejdb database.
use vstd::prelude::*;

verus! {

/// Deleting a configuration is not supported by this store: nothing is deleted.
pub fn delete_calmerge(_url: &String) -> (r: Option<String>)
    ensures
        r is None,
{
    None
}

} // verus!
