//! The lines in which messages travel between the server and a client:
//! one message a line.
use crate::text::{trim, trimmed};
use vstd::prelude::*;
use vstd::string::StringExecFns;

verus! {

/// The line that carries the message `json`: the text, then a carriage
/// return and a line feed.
pub fn frame(json: &str) -> (line: String)
    ensures
        line@ == json@ + "\r\n"@,
{
    json.to_owned().concat("\r\n")
}

/// The message that the line `line` carries: the line without the white
/// space at its two ends, the line end among it.
pub fn unframe(line: &str) -> (json: String)
    ensures
        json@ == trimmed(line@),
{
    trim(line).to_owned()
}

} // verus!
