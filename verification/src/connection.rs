//! The per-connection state machine.
//!
//! One connection reads lines, buffers them while their quoting is still
//! open, and hands each completely tokenized request to the dispatcher.
//! A blank request runs nothing and is not an error. The buffer is cleared
//! only by successful tokenization; an open quote keeps the buffered text,
//! with a newline appended, so a continuation line can complete the quoted
//! argument. The line that most recently failed to tokenize is remembered
//! and becomes the connection's result if the session ends before a later
//! line completes it.

use vstd::prelude::*;
use crate::errors::IpcError;
use crate::tokenizer::{push_char, spec_tokenize, tokenize, Tokenized};

verus! {

/// What one incoming line amounts to.
pub enum LineOutcome {
    /// The buffer tokenized to nothing: run no command, send no reply.
    Ignored,
    /// The buffer tokenized to a request: dispatch these words.
    Command(Vec<String>),
    /// The buffer still holds an open quote: read another line.
    NeedMore,
}

/// The mutable state of one accepted connection.
pub struct Connection {
    /// Text carried over from lines whose quoting is still open.
    pub buf: String,
    /// The last line that failed to tokenize, if no later line completed it.
    pub pending_error: Option<String>,
}

impl Connection {
    /// A fresh connection: nothing buffered, nothing failed.
    pub fn new() -> (r: Connection)
        ensures
            r.buf@ == Seq::<char>::empty(),
            r.pending_error is None,
    {
        Connection { buf: String::new(), pending_error: None }
    }

    /// Take in one line read from the peer. The line joins the buffered
    /// text; if the whole buffer tokenizes, the buffer is cleared and the
    /// words are handed back; otherwise the buffer keeps everything plus a
    /// newline, and the connection waits for a continuation line.
    pub fn on_line(&mut self, line: &str) -> (r: LineOutcome)
        ensures
            match spec_tokenize(old(self).buf@ + line@) {
                Some(toks) => {
                    &&& final(self).buf@ == Seq::<char>::empty()
                    &&& final(self).pending_error is None
                    &&& if toks.len() == 0 {
                        r is Ignored
                    } else {
                        r matches LineOutcome::Command(words) && words.deep_view() == toks
                    }
                },
                None => {
                    &&& r is NeedMore
                    &&& final(self).buf@ == old(self).buf@ + line@ + seq!['\n']
                    &&& final(self).pending_error matches Some(l) && l@ == line@
                },
            },
    {
        self.buf.append(line);
        match tokenize(self.buf.as_str()) {
            Tokenized::Complete(words) => {
                self.buf = String::new();
                self.pending_error = None;
                if words.len() == 0 {
                    LineOutcome::Ignored
                } else {
                    LineOutcome::Command(words)
                }
            },
            Tokenized::Incomplete => {
                push_char(&mut self.buf, '\n');
                self.pending_error = Some(String::from_str(line));
                LineOutcome::NeedMore
            },
        }
    }

    /// The connection's result when the session ends without a transport
    /// error: clean, unless some line never tokenized, in which case that
    /// failure is the result. A peer reset ends the session this same way,
    /// so a reset on a clean buffer reports nothing.
    pub fn session_result(self) -> (r: Option<IpcError>)
        ensures
            match self.pending_error {
                None => r is None,
                Some(l) => r matches Some(e) && (e matches IpcError::Tokenize(t) && t@ == l@),
            },
    {
        match self.pending_error {
            None => None,
            Some(l) => Some(IpcError::Tokenize(l)),
        }
    }

    /// The connection's result when a read fails for any reason other than
    /// a peer reset: the transport error, fatal to this connection.
    pub fn read_failure(self, error_text: String) -> (r: IpcError)
        ensures
            r matches IpcError::Io(m) && m@ == error_text@,
    {
        IpcError::Io(error_text)
    }
}

/// Frame one reply: exactly the reply text, newline-terminated.
pub fn encode_reply(line: &str) -> (r: String)
    ensures
        r@ == line@ + seq!['\n'],
{
    let mut out = String::from_str(line);
    push_char(&mut out, '\n');
    out
}

} // verus!
