//! The sending side: one command out, one reply line back.
//!
//! A request is the arguments shell-quoted, joined with single spaces and
//! terminated by a newline. The reply must be exactly one newline-terminated
//! line; the client strips the newline and, for the generated per-command
//! stubs, checks that the service echoed the expected command name.

use vstd::prelude::*;
use crate::errors::SendError;
use crate::tokenizer::{join_quoted, push_char, spec_join_quoted};

verus! {

/// Render one request line: the arguments quoted, space-joined and
/// newline-terminated.
pub fn encode_request(args: &Vec<String>) -> (r: String)
    ensures
        r@ == spec_join_quoted(args.deep_view()) + seq!['\n'],
{
    let mut out = join_quoted(args);
    push_char(&mut out, '\n');
    out
}

/// Accept a raw reply: strip the trailing newline, or report its absence
/// as a protocol violation.
pub fn parse_reply(line: String) -> (r: Result<String, SendError>)
    ensures
        if line@.len() > 0 && line@.last() == '\n' {
            r matches Ok(s) && s@ == line@.drop_last()
        } else {
            r matches Err(e) && e is MissingNewline
        },
{
    let n = line.as_str().unicode_len();
    if n == 0 {
        return Err(SendError::MissingNewline);
    }
    let last = line.as_str().get_char(n - 1);
    if last != '\n' {
        return Err(SendError::MissingNewline);
    }
    let body = line.as_str().substring_char(0, n - 1);
    proof {
        assert(line@.drop_last() =~= line@.subrange(0, n - 1));
    }
    Ok(String::from_str(body))
}

/// Check the echoed reply against the expected command name: the reply is
/// handed back on a match, and classified as a wrong reply otherwise.
pub fn check_reply(expected: &String, received: String) -> (r: Result<String, SendError>)
    ensures
        if received@ == expected@ {
            r matches Ok(s) && s@ == received@
        } else {
            r matches Err(e) && (e matches SendError::WrongReply {
                expected: exp,
                received: rcv,
            } && exp@ == expected@ && rcv@ == received@)
        },
{
    if received == *expected {
        Ok(received)
    } else {
        Err(SendError::WrongReply { expected: expected.clone(), received })
    }
}

} // verus!
