//! Error taxonomy of the control plane.
//!
//! Failures while serving a connection are either protocol data (sent back
//! as a reply line, the connection continues) or terminal for the
//! connection; the variants record which input caused them. The client has
//! its own, smaller set of failures.

use vstd::prelude::*;
use crate::tokenizer::push_char;

verus! {

/// A failure on the serving side of the control plane.
#[derive(Debug)]
pub enum IpcError {
    /// A command argument could not be parsed as its declared type.
    ArgParse(String),
    /// A transport read or write failed; the text of the underlying error.
    Io(String),
    /// A command needed the shared context before it was ready.
    MissingContext,
    /// A reply did not end in a newline.
    MissingNewline,
    /// A command line never tokenized; holds the last offending line.
    Tokenize(String),
    /// The first word of a request named no registered command.
    UnknownCommand(Vec<String>),
}

/// A failure on the sending side of the control plane.
#[derive(Debug)]
pub enum SendError {
    /// A transport connect, read or write failed; the underlying error text.
    Io(String),
    /// The reply did not end in a newline.
    MissingNewline,
    /// The service replied, but not with the expected echo.
    WrongReply {
        /// The reply that was expected.
        expected: String,
        /// The reply that arrived.
        received: String,
    },
}

/// Words joined by single spaces, with no quoting.
pub open spec fn spec_join_space(args: Seq<Seq<char>>) -> Seq<char>
    decreases args.len(),
{
    if args.len() == 0 {
        Seq::empty()
    } else if args.len() == 1 {
        args[0]
    } else {
        args[0] + seq![' '] + spec_join_space(args.drop_first())
    }
}

/// Appending one more word appends a space (when nonempty) and the word.
proof fn lemma_join_space_snoc(args: Seq<Seq<char>>, a: Seq<char>)
    ensures
        args.len() == 0 ==> spec_join_space(args.push(a)) == a,
        args.len() > 0 ==> spec_join_space(args.push(a)) == spec_join_space(args) + seq![' '] + a,
    decreases args.len(),
{
    let w = args.push(a);
    if args.len() == 0 {
        assert(w.len() == 1);
        assert(w[0] == a);
    } else {
        assert(w[0] == args[0]);
        assert(w.drop_first() =~= args.drop_first().push(a));
        lemma_join_space_snoc(args.drop_first(), a);
        if args.len() == 1 {
            assert(spec_join_space(w) == args[0] + seq![' '] + a);
        } else {
            assert(args[0] + seq![' '] + (spec_join_space(args.drop_first()) + seq![' '] + a)
                =~= (args[0] + seq![' '] + spec_join_space(args.drop_first())) + seq![' '] + a);
        }
    }
}

/// Join words with single spaces, without quoting (used to show an offending
/// token list in an error message).
pub fn join_space(args: &Vec<String>) -> (r: String)
    ensures
        r@ == spec_join_space(args.deep_view()),
{
    let mut out = String::new();
    proof {
        assert(args.deep_view().take(0) =~= Seq::<Seq<char>>::empty());
    }
    for i in 0..args.len()
        invariant
            out@ == spec_join_space(args.deep_view().take(i as int)),
    {
        if i > 0 {
            push_char(&mut out, ' ');
        }
        out.append(args[i].as_str());
        proof {
            let pre = args.deep_view().take(i as int);
            let ext = args.deep_view().take(i + 1);
            assert(ext =~= pre.push(args.deep_view()[i as int]));
            lemma_join_space_snoc(pre, args.deep_view()[i as int]);
        }
    }
    proof {
        assert(args.deep_view().take(args.len() as int) =~= args.deep_view());
    }
    out
}

/// The message text of a serving-side failure.
pub open spec fn spec_ipc_error_message(e: IpcError) -> Seq<char> {
    match e {
        IpcError::ArgParse(msg) => "error parsing IPC command argument: "@ + msg@,
        IpcError::Io(msg) => msg@,
        IpcError::MissingContext => "shared context not available yet"@,
        IpcError::MissingNewline => "the reply to an IPC command did not end in a newline"@,
        IpcError::Tokenize(line) => "failed to parse IPC command line: "@ + line@,
        IpcError::UnknownCommand(args) => "unknown command: "@ + spec_join_space(args.deep_view()),
    }
}

impl IpcError {
    /// Render this failure as a single human-readable line.
    pub fn message(&self) -> (r: String)
        ensures
            r@ == spec_ipc_error_message(*self),
    {
        match self {
            IpcError::ArgParse(msg) => {
                let mut out = String::from_str("error parsing IPC command argument: ");
                out.append(msg.as_str());
                out
            },
            IpcError::Io(msg) => msg.clone(),
            IpcError::MissingContext => String::from_str("shared context not available yet"),
            IpcError::MissingNewline => String::from_str(
                "the reply to an IPC command did not end in a newline",
            ),
            IpcError::Tokenize(line) => {
                let mut out = String::from_str("failed to parse IPC command line: ");
                out.append(line.as_str());
                out
            },
            IpcError::UnknownCommand(args) => {
                let mut out = String::from_str("unknown command: ");
                let rest = join_space(args);
                out.append(rest.as_str());
                out
            },
        }
    }
}

/// The message text of a sending-side failure.
pub open spec fn spec_send_error_message(e: SendError) -> Seq<char> {
    match e {
        SendError::Io(msg) => msg@,
        SendError::MissingNewline => "the reply to an IPC command did not end in a newline"@,
        SendError::WrongReply { expected, received } => "unexpected IPC command reply: expected "@
            + expected@ + ", received "@ + received@,
    }
}

impl SendError {
    /// Render this failure as a single human-readable line.
    pub fn message(&self) -> (r: String)
        ensures
            r@ == spec_send_error_message(*self),
    {
        match self {
            SendError::Io(msg) => msg.clone(),
            SendError::MissingNewline => String::from_str(
                "the reply to an IPC command did not end in a newline",
            ),
            SendError::WrongReply { expected, received } => {
                let mut out = String::from_str("unexpected IPC command reply: expected ");
                out.append(expected.as_str());
                out.append(", received ");
                out.append(received.as_str());
                out
            },
        }
    }
}

} // verus!
