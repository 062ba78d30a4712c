//! Macro management.
use vstd::prelude::*;

use crate::text::owned;

verus! {

/// The answer to a delete, given how many rows the delete removed: none
/// removed is "not found".
pub fn delete_reply(removed: Result<usize, String>) -> (reply: Result<(), String>)
    ensures
        match removed {
            Ok(n) => if n > 0 {
                reply is Ok
            } else {
                reply is Err && reply->Err_0@ == "not found"@
            },
            Err(e) => reply is Err && reply->Err_0@ == e@,
        },
{
    match removed {
        Ok(n) => if n > 0 {
            Ok(())
        } else {
            Err(owned("not found"))
        },
        Err(e) => Err(e),
    }
}

} // verus!
