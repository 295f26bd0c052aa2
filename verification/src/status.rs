use vstd::prelude::*;

verus! {

/// An HTTP status code counts as a success when it lies in the 2xx class.
pub open spec fn spec_is_ok_status(code: u16) -> bool {
    200 <= code && code < 300
}

/// Whether `code` is a 2xx status.
pub fn is_ok_status(code: u16) -> (r: bool)
    ensures
        r == spec_is_ok_status(code),
{
    code / 100 == 2
}

/// Law: exactly the hundred codes from 200 to 299 count as successes.
pub proof fn law_ok_status_range(code: u16)
    ensures
        spec_is_ok_status(code) <==> (199 < code && code < 300),
        spec_is_ok_status(code) <==> code / 100 == 2,
{
}

} // verus!
