//! Small helpers shared by the table, code and toc modules.

use vstd::prelude::*;

verus! {

/// Checks that an identifier is usable: any non-empty string is accepted.
pub fn validate_id(id: &str) -> (r: Result<(), String>)
    ensures
        r is Ok <==> id@.len() > 0,
        r is Err ==> r->Err_0@ == "ID cannot be empty"@,
{
    if id.unicode_len() == 0 {
        Err(String::from_str("ID cannot be empty"))
    } else {
        Ok(())
    }
}

} // verus!
