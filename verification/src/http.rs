//! What the client makes of the status of an HTTP response.

use vstd::prelude::*;

verus! {

/// How `http` writes a status: its three digits, a space and its standard
/// phrase.
pub uninterp spec fn status_line(code: u16) -> Seq<char>;

/// Makes a `reqwest::StatusCode` of the code and calls its `to_string`, which
/// is defined for the codes from 100 to 999. What it writes is named
/// [`status_line`].
#[verifier::external_body]
pub(crate) fn status_text(code: u16) -> (line: String)
    requires
        100 <= code <= 999,
    ensures
        line@ == status_line(code),
{
    reqwest::StatusCode::from_u16(code).unwrap().to_string()
}

/// The codes that stand for success.
pub open spec fn is_success(code: u16) -> bool {
    200 <= code < 300
}

/// The message that tells of a response without success, given its status as
/// text.
pub open spec fn refusal_text(line: Seq<char>) -> Seq<char> {
    "HTTP "@ + line
}

/// Writes [`refusal_text`].
pub fn refusal(line: &str) -> (message: String)
    ensures
        message@ == refusal_text(line@),
{
    "HTTP ".to_owned().concat(line)
}

/// Lets a response pass if its status stands for success.
pub fn check_status(code: u16) -> (passed: Result<(), String>)
    requires
        100 <= code <= 999,
    ensures
        match passed {
            Ok(_) => is_success(code),
            Err(message) => !is_success(code) && message@ == refusal_text(status_line(code)),
        },
{
    if 200 <= code && code < 300 {
        Ok(())
    } else {
        let line = status_text(code);
        Err(refusal(line.as_str()))
    }
}

} // verus!
