//! Checks on the text that a caller hands to the engine.
use vstd::prelude::*;
use crate::error::{Error, ErrorKind, make_error};
use crate::text::chars_of;

verus! {

/// Every query text is accepted.
pub fn check_query(query: &str) -> (r: Result<(), Error>)
    ensures
        r is Ok,
{
    Ok(())
}

/// A parameter to be put into a query must not hold a semicolon, which
/// would end the statement and start another.
pub fn check_query_param(param: &str) -> (r: Result<(), Error>)
    ensures
        r is Ok <==> !param@.contains(';'),
        r is Err ==> r->Err_0@ == ErrorKind::Security,
{
    let cs = chars_of(param);
    let mut i: usize = 0;
    while i < cs.len()
        invariant
            cs@ == param@,
            i <= cs@.len(),
            forall|k: int| 0 <= k < i ==> cs@[k] != ';',
        decreases cs@.len() - i,
    {
        if cs[i] == ';' {
            return Err(make_error(ErrorKind::Security, "found ; in query param"));
        }
        i += 1;
    }
    Ok(())
}

} // verus!
