//! What the library knows of HTTP: the status of an answer, and what can come
//! of a request. Sending is the caller's business.

use vstd::prelude::*;
use crate::errors::NetworkError;

verus! {

/// Whether an HTTP status counts as success: 200 to 299.
pub open spec fn status_ok(status: u16) -> bool {
    200 <= status < 300
}

/// Whether an HTTP status counts as success.
pub fn is_success(status: u16) -> (ok: bool)
    ensures
        ok == status_ok(status),
    no_unwind
{
    status >= 200 && status < 300
}

/// What came of a request.
#[derive(Debug, Clone, PartialEq, Eq)]
pub enum Reply {
    /// The server answered.
    Answer { status: u16, body: String },
    /// The request could not be sent, or the answer could not be read.
    Failed,
    /// No answer came in time.
    TimedOut,
}

/// A `Reply` with texts as sequences of characters.
pub enum ReplyView {
    Answer { status: u16, body: Seq<char> },
    Failed,
    TimedOut,
}

impl View for Reply {
    type V = ReplyView;

    open spec fn view(&self) -> ReplyView {
        match self {
            Reply::Answer { status, body } => ReplyView::Answer { status: *status, body: body@ },
            Reply::Failed => ReplyView::Failed,
            Reply::TimedOut => ReplyView::TimedOut,
        }
    }
}

/// What an answer means where only its status matters: a success, or the
/// failure that stands for what came instead.
pub open spec fn reply_check(reply: ReplyView) -> Result<(), NetworkError> {
    match reply {
        ReplyView::Answer { status, body } => if status_ok(status) {
            Ok(())
        } else {
            Err(NetworkError::HttpStatus(status))
        },
        ReplyView::Failed => Err(NetworkError::Transport),
        ReplyView::TimedOut => Err(NetworkError::Timeout),
    }
}

/// Takes what came of a request of which only the status matters.
pub fn check_reply(reply: &Reply) -> (r: Result<(), NetworkError>)
    ensures
        r == reply_check(reply@),
{
    match reply {
        Reply::Answer { status, body } => if is_success(*status) {
            Ok(())
        } else {
            Err(NetworkError::HttpStatus(*status))
        },
        Reply::Failed => Err(NetworkError::Transport),
        Reply::TimedOut => Err(NetworkError::Timeout),
    }
}

} // verus!
