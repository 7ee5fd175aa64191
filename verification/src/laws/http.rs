//! Laws of the status of a response.

use vstd::prelude::*;

use crate::http::{check_status, refusal, status_line};

verus! {

/// A response passes if and only if its code is one of the two hundreds; any other
/// is told of with its status.
pub proof fn law_check_status(code: u16, passed: Result<(), String>)
    requires
        100 <= code <= 999,
        call_ensures(check_status, (code,), passed),
    ensures
        passed is Ok <==> 200 <= code <= 299,
        passed matches Err(message) ==> message@ == "HTTP "@ + status_line(code),
{
}

/// The message on a refusal holds the status whole.
pub proof fn law_refusal(line: &str, message: String)
    requires
        call_ensures(refusal, (line,), message),
    ensures
        message@ == "HTTP "@ + line@,
{
}

} // verus!
