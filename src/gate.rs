//! How an answer to the overwrite question is read. The console itself, and
//! the lock that lets one worker at a time use it, belong to the caller.
use vstd::prelude::*;
use crate::text::{ascii_lower, chars_of};

verus! {

/// What came back from the interactive input after a prompt.
#[derive(Clone, Debug)]
pub enum Reply {
    /// One line of input, without its line break.
    Line(String),
    /// The input has ended.
    End,
    /// The input could not be read.
    Unreadable,
}

/// What a reply means for the file in question.
#[derive(Clone, Copy, Debug, PartialEq, Eq, Structural)]
pub enum Verdict {
    /// Overwrite the existing output.
    Accept,
    /// Leave the existing output alone.
    Decline,
    /// The reply is neither yes nor no: ask again.
    AskAgain,
}

/// A line that starts with `y` or `Y` accepts, one that starts with `n` or
/// `N` declines, any other line asks again; an input that has ended or
/// cannot be read declines.
pub open spec fn verdict_of(reply: Reply) -> Verdict {
    match reply {
        Reply::Line(s) => {
            if s@.len() > 0 && ascii_lower(s@[0]) == 'y' {
                Verdict::Accept
            } else if s@.len() > 0 && ascii_lower(s@[0]) == 'n' {
                Verdict::Decline
            } else {
                Verdict::AskAgain
            }
        },
        Reply::End => Verdict::Decline,
        Reply::Unreadable => Verdict::Decline,
    }
}

/// Reads the meaning of `reply`.
pub fn interpret_reply(reply: &Reply) -> (r: Verdict)
    ensures
        r == verdict_of(*reply),
{
    match reply {
        Reply::Line(s) => {
            let v = chars_of(s.as_str());
            if v.len() == 0 {
                Verdict::AskAgain
            } else if v[0] == 'y' || v[0] == 'Y' {
                Verdict::Accept
            } else if v[0] == 'n' || v[0] == 'N' {
                Verdict::Decline
            } else {
                Verdict::AskAgain
            }
        },
        Reply::End => Verdict::Decline,
        Reply::Unreadable => Verdict::Decline,
    }
}

} // verus!
