use vstd::prelude::*;

verus! {

/// True when an HTTP status code is in the success class (200 to 299).
pub open spec fn is_success_code(code: u16) -> bool {
    200 <= code && code < 300
}

/// Tells whether `code` is a success status, as HTTP defines the 2xx class.
pub fn is_success_status(code: u16) -> (r: bool)
    ensures
        r == is_success_code(code),
{
    200 <= code && code < 300
}

} // verus!
