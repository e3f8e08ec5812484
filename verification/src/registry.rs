//! The command registry and the dispatch decision.
//!
//! A registry maps a command name to the declared kinds of its positional
//! arguments. Registration happens once at startup; afterwards the registry
//! only resolves incoming token lists: unknown names terminate the
//! connection, argument-parsing failures become a reply, and a well-formed
//! request yields the command index and its parsed arguments, ready for the
//! host's handler.

use vstd::prelude::*;
use crate::errors::IpcError;
use crate::numbers::{int_literal_value, is_int_literal, parse_i64};
use crate::ready_cell::ReadyCell;
use crate::tokenizer::push_char;

verus! {

/// A character allowed in a command name: a letter, a digit or a hyphen.
pub open spec fn is_name_char(c: char) -> bool {
    (97 <= c as u32 <= 122) || (65 <= c as u32 <= 90) || (48 <= c as u32 <= 57) || c == '-'
}

/// A well-formed command name: nonempty, letters, digits and hyphens only.
pub open spec fn is_command_name(s: Seq<char>) -> bool {
    s.len() > 0 && forall|i: int| 0 <= i < s.len() ==> is_name_char(#[trigger] s[i])
}

/// A character allowed in an identifier argument.
pub open spec fn is_ident_char(c: char) -> bool {
    is_name_char(c) || c == '_'
}

/// A well-formed identifier argument.
pub open spec fn is_ident(s: Seq<char>) -> bool {
    s.len() > 0 && forall|i: int| 0 <= i < s.len() ==> is_ident_char(#[trigger] s[i])
}

/// A handler identifier rendered as a command name: underscores become
/// hyphens, all other characters stand for themselves.
pub open spec fn spec_kebab(s: Seq<char>) -> Seq<char> {
    s.map_values(
        |c: char|
            if c == '_' {
                '-'
            } else {
                c
            },
    )
}

/// Render a handler identifier as its command name, with hyphens in place
/// of underscores.
pub fn kebab_case(s: &str) -> (r: String)
    ensures
        r@ == spec_kebab(s@),
{
    let n = s.unicode_len();
    let mut out = String::new();
    proof {
        assert(out@ =~= spec_kebab(s@.take(0)));
    }
    for i in 0..n
        invariant
            n == s@.len(),
            out@ == spec_kebab(s@.take(i as int)),
    {
        let c = s.get_char(i);
        if c == '_' {
            push_char(&mut out, '-');
        } else {
            push_char(&mut out, c);
        }
        proof {
            assert(out@ =~= spec_kebab(s@.take(i + 1)));
        }
    }
    proof {
        assert(s@.take(n as int) =~= s@);
    }
    out
}

/// Decide whether a string is a well-formed command name.
pub fn check_command_name(s: &str) -> (r: bool)
    ensures
        r == is_command_name(s@),
{
    let n = s.unicode_len();
    if n == 0 {
        return false;
    }
    for i in 0..n
        invariant
            n == s@.len(),
            forall|j: int| 0 <= j < i ==> is_name_char(#[trigger] s@[j]),
    {
        let c = s.get_char(i);
        let cu = c as u32;
        let ok = (97 <= cu && cu <= 122) || (65 <= cu && cu <= 90) || (48 <= cu && cu <= 57) || c
            == '-';
        if !ok {
            assert(!is_name_char(s@[i as int]));
            return false;
        }
    }
    true
}

/// Decide whether a string is a well-formed identifier argument.
pub fn check_ident(s: &str) -> (r: bool)
    ensures
        r == is_ident(s@),
{
    let n = s.unicode_len();
    if n == 0 {
        return false;
    }
    for i in 0..n
        invariant
            n == s@.len(),
            forall|j: int| 0 <= j < i ==> is_ident_char(#[trigger] s@[j]),
    {
        let c = s.get_char(i);
        let cu = c as u32;
        let ok = (97 <= cu && cu <= 122) || (65 <= cu && cu <= 90) || (48 <= cu && cu <= 57) || c
            == '-' || c == '_';
        if !ok {
            assert(!is_ident_char(s@[i as int]));
            return false;
        }
    }
    true
}

/// The declared kind of one positional argument.
#[derive(Clone, Copy, PartialEq, Eq, Structural, Debug)]
pub enum ArgKind {
    /// Any token, taken verbatim.
    Str,
    /// A decimal integer fitting in an `i64`.
    Int,
    /// An identifier: letters, digits, hyphens and underscores.
    Ident,
}

/// One parsed positional argument, as handed to a handler.
pub enum ArgValue {
    /// A verbatim token.
    Str(String),
    /// A parsed integer.
    Int(i64),
    /// A validated identifier.
    Ident(String),
}

/// A token is acceptable for the declared kind.
pub open spec fn arg_ok(kind: ArgKind, tok: Seq<char>) -> bool {
    match kind {
        ArgKind::Str => true,
        ArgKind::Int => is_int_literal(tok) && i64::MIN <= int_literal_value(tok) <= i64::MAX,
        ArgKind::Ident => is_ident(tok),
    }
}

/// A parsed value is exactly what the declared kind makes of the token.
pub open spec fn arg_matches(kind: ArgKind, tok: Seq<char>, v: ArgValue) -> bool {
    match (kind, v) {
        (ArgKind::Str, ArgValue::Str(s)) => s@ == tok,
        (ArgKind::Int, ArgValue::Int(n)) => is_int_literal(tok) && n == int_literal_value(tok),
        (ArgKind::Ident, ArgValue::Ident(s)) => s@ == tok && is_ident(tok),
        _ => false,
    }
}

/// Every token parses as its declared kind, and the counts agree.
pub open spec fn args_ok(kinds: Seq<ArgKind>, toks: Seq<Seq<char>>) -> bool {
    kinds.len() == toks.len() && forall|j: int|
        0 <= j < kinds.len() ==> arg_ok(#[trigger] kinds[j], toks[j])
}

/// Parse one token as the declared kind.
pub fn parse_arg(kind: ArgKind, tok: &String) -> (r: Option<ArgValue>)
    ensures
        match r {
            Some(v) => arg_ok(kind, tok@) && arg_matches(kind, tok@, v),
            None => !arg_ok(kind, tok@),
        },
{
    match kind {
        ArgKind::Str => Some(ArgValue::Str(tok.clone())),
        ArgKind::Int => match parse_i64(tok.as_str()) {
            Some(n) => Some(ArgValue::Int(n)),
            None => None,
        },
        ArgKind::Ident => {
            if check_ident(tok.as_str()) {
                Some(ArgValue::Ident(tok.clone()))
            } else {
                None
            }
        },
    }
}

/// The detail text for one token that failed to parse as its declared kind.
pub open spec fn spec_bad_kind_message(kind: ArgKind, tok: Seq<char>) -> Seq<char> {
    match kind {
        ArgKind::Str => Seq::empty(),
        ArgKind::Int => "invalid integer argument: "@ + tok,
        ArgKind::Ident => "invalid identifier argument: "@ + tok,
    }
}

/// The detail text of the first argument that fails to parse.
pub open spec fn spec_reject_detail(kinds: Seq<ArgKind>, toks: Seq<Seq<char>>) -> Seq<char>
    decreases kinds.len(),
{
    if kinds.len() == 0 || toks.len() == 0 {
        Seq::empty()
    } else if !arg_ok(kinds[0], toks[0]) {
        spec_bad_kind_message(kinds[0], toks[0])
    } else {
        spec_reject_detail(kinds.drop_first(), toks.drop_first())
    }
}

/// The detail text when a token list does not parse against the declared
/// kinds: either the counts disagree, or the first failing argument.
pub open spec fn spec_reject_detail_full(kinds: Seq<ArgKind>, toks: Seq<Seq<char>>) -> Seq<char> {
    if kinds.len() != toks.len() {
        "wrong number of arguments"@
    } else {
        spec_reject_detail(kinds, toks)
    }
}

/// When the first failure is at position `j`, the detail text is that
/// argument's message.
proof fn lemma_reject_detail_at(kinds: Seq<ArgKind>, toks: Seq<Seq<char>>, j: int)
    requires
        kinds.len() == toks.len(),
        0 <= j < kinds.len(),
        forall|k: int| 0 <= k < j ==> arg_ok(#[trigger] kinds[k], toks[k]),
        !arg_ok(kinds[j], toks[j]),
    ensures
        spec_reject_detail(kinds, toks) == spec_bad_kind_message(kinds[j], toks[j]),
    decreases j,
{
    if j == 0 {
    } else {
        let ks = kinds.drop_first();
        let ts = toks.drop_first();
        assert(forall|k: int| 0 <= k < j - 1 ==> arg_ok(#[trigger] ks[k], ts[k])) by {
            assert(forall|k: int| 0 <= k < ks.len() ==> #[trigger] ks[k] == kinds[k + 1]);
            assert(forall|k: int| 0 <= k < ts.len() ==> #[trigger] ts[k] == toks[k + 1]);
        }
        assert(ks[j - 1] == kinds[j]);
        assert(ts[j - 1] == toks[j]);
        lemma_reject_detail_at(ks, ts, j - 1);
    }
}

/// What the dispatcher decided to do with one tokenized request.
pub enum Decision {
    /// The first token names no registered command: the connection ends
    /// with this error as its result.
    Terminate(IpcError),
    /// The arguments did not parse: reply with this error's message and
    /// keep the connection open.
    Reject {
        /// The registered command the request named.
        cmd: usize,
        /// The argument-parsing failure to report.
        error: IpcError,
    },
    /// The request is well formed: run this command's handler on these
    /// parsed arguments.
    Run {
        /// The registered command the request named.
        cmd: usize,
        /// The parsed arguments, one per declared kind.
        args: Vec<ArgValue>,
    },
}

/// One registered command: its name and its declared argument kinds.
pub struct CommandSpec {
    /// The command name as it appears on the wire.
    pub name: String,
    /// The declared kinds of the positional arguments, in order.
    pub arg_kinds: Vec<ArgKind>,
}

/// The command registry: a table of registered commands, unique by name.
pub struct Registry {
    /// The registered commands, in registration order.
    pub commands: Vec<CommandSpec>,
}

impl Registry {
    /// Well-formed: every name is a valid command name and no two commands
    /// share one.
    pub open spec fn wf(self) -> bool {
        &&& forall|i: int|
            0 <= i < self.commands@.len() ==> is_command_name(#[trigger] self.commands@[i].name@)
        &&& forall|i: int, j: int|
            0 <= i < j < self.commands@.len() ==> self.commands@[i].name@
                != self.commands@[j].name@
    }

    /// Some registered command has this name.
    pub open spec fn contains_name(self, name: Seq<char>) -> bool {
        exists|i: int| 0 <= i < self.commands@.len() && #[trigger] self.commands@[i].name@ == name
    }

    /// An empty registry.
    pub fn new() -> (r: Registry)
        ensures
            r.wf(),
            r.commands@.len() == 0,
    {
        Registry { commands: Vec::new() }
    }

    /// Find the registered command with this name.
    pub fn lookup(&self, name: &str) -> (r: Option<usize>)
        ensures
            match r {
                Some(i) => i < self.commands@.len() && self.commands@[i as int].name@ == name@,
                None => forall|i: int|
                    0 <= i < self.commands@.len() ==> (#[trigger] self.commands@[i].name@)
                        != name@,
            },
{
        let key = String::from_str(name);
        for i in 0..self.commands.len()
            invariant
                key@ == name@,
                forall|j: int| 0 <= j < i ==> (#[trigger] self.commands@[j].name@) != name@,
        {
            if self.commands[i].name == key {
                return Some(i);
            }
        }
        None
    }

    /// Register a handler once at startup. The handler identifier is
    /// rendered as its kebab-case command name; registration is refused
    /// (and the registry unchanged) when that name is not a well-formed
    /// command name or is already taken.
    pub fn register(&mut self, name: &str, arg_kinds: Vec<ArgKind>) -> (added: bool)
        requires
            old(self).wf(),
        ensures
            final(self).wf(),
            added == (is_command_name(spec_kebab(name@)) && !old(self).contains_name(
                spec_kebab(name@),
            )),
            added ==> {
                &&& final(self).commands@.len() == old(self).commands@.len() + 1
                &&& forall|i: int|
                    0 <= i < old(self).commands@.len() ==> final(self).commands@[i] == old(
                        self,
                    ).commands@[i]
                &&& final(self).commands@.last().name@ == spec_kebab(name@)
                &&& final(self).commands@.last().arg_kinds@ == arg_kinds@
            },
            !added ==> *final(self) == *old(self),
    {
        let kn = kebab_case(name);
        if !check_command_name(kn.as_str()) {
            return false;
        }
        match self.lookup(kn.as_str()) {
            Some(_) => false,
            None => {
                self.commands.push(CommandSpec { name: kn, arg_kinds });
                true
            },
        }
    }
    /// Resolve one tokenized request: unknown names are terminal, argument
    /// failures become a reply, a well-formed request is ready to run.
    pub fn decide(&self, tokens: &Vec<String>) -> (r: Decision)
        requires
            self.wf(),
            tokens@.len() > 0,
        ensures
            match r {
                Decision::Terminate(e) => {
                    &&& !self.contains_name(tokens.deep_view()[0])
                    &&& e matches IpcError::UnknownCommand(ts) && ts.deep_view()
                        == tokens.deep_view()
                },
                Decision::Reject { cmd, error } => {
                    &&& cmd < self.commands@.len()
                    &&& self.commands@[cmd as int].name@ == tokens.deep_view()[0]
                    &&& !args_ok(
                        self.commands@[cmd as int].arg_kinds@,
                        tokens.deep_view().drop_first(),
                    )
                    &&& error matches IpcError::ArgParse(d) && d@ == spec_reject_detail_full(
                        self.commands@[cmd as int].arg_kinds@,
                        tokens.deep_view().drop_first(),
                    )
                },
                Decision::Run { cmd, args } => {
                    &&& cmd < self.commands@.len()
                    &&& self.commands@[cmd as int].name@ == tokens.deep_view()[0]
                    &&& args_ok(
                        self.commands@[cmd as int].arg_kinds@,
                        tokens.deep_view().drop_first(),
                    )
                    &&& args@.len() == self.commands@[cmd as int].arg_kinds@.len()
                    &&& forall|j: int|
                        0 <= j < args@.len() ==> arg_matches(
                            self.commands@[cmd as int].arg_kinds@[j],
                            tokens.deep_view().drop_first()[j],
                            #[trigger] args@[j],
                        )
                },
            },
    {
        let ghost rest = tokens.deep_view().drop_first();
        match self.lookup(tokens[0].as_str()) {
            None => Decision::Terminate(IpcError::UnknownCommand(clone_strings(tokens))),
            Some(i) => {
                let ghost kinds = self.commands@[i as int].arg_kinds@;
                let n_kinds = self.commands[i].arg_kinds.len();
                if tokens.len() - 1 != n_kinds {
                    Decision::Reject {
                        cmd: i,
                        error: IpcError::ArgParse(
                            String::from_str("wrong number of arguments"),
                        ),
                    }
                } else {
                    let mut args: Vec<ArgValue> = Vec::new();
                    let mut j: usize = 0;
                    while j < n_kinds
                        invariant
                            self.wf(),
                            i < self.commands@.len(),
                            self.commands@[i as int].name@ == tokens.deep_view()[0],
                            kinds == self.commands@[i as int].arg_kinds@,
                            rest == tokens.deep_view().drop_first(),
                            n_kinds == kinds.len(),
                            tokens@.len() == n_kinds + 1,
                            rest.len() == n_kinds,
                            0 <= j <= n_kinds,
                            args@.len() == j,
                            forall|k: int|
                                0 <= k < j ==> arg_ok(#[trigger] kinds[k], rest[k]),
                            forall|k: int|
                                0 <= k < j ==> arg_matches(
                                    kinds[k],
                                    rest[k],
                                    #[trigger] args@[k],
                                ),
                        decreases n_kinds - j,
                    {
                        let kind = self.commands[i].arg_kinds[j];
                        proof {
                            assert(rest[j as int] == tokens.deep_view()[j + 1]);
                        }
                        match parse_arg(kind, &tokens[j + 1]) {
                            Some(v) => {
                                args.push(v);
                            },
                            None => {
                                proof {
                                    assert(!arg_ok(kinds[j as int], rest[j as int]));
                                    assert(!args_ok(kinds, rest));
                                    lemma_reject_detail_at(kinds, rest, j as int);
                                }
                                let detail = bad_kind_message(kind, &tokens[j + 1]);
                                return Decision::Reject {
                                    cmd: i,
                                    error: IpcError::ArgParse(detail),
                                };
                            },
                        }
                        j = j + 1;
                    }
                    Decision::Run { cmd: i, args }
                }
            },
        }
    }

    /// The reply line for a command that ran: its own name on success, the
    /// handler's failure text otherwise.
    pub fn reply_for(&self, cmd: usize, result: Result<(), String>) -> (r: String)
        requires
            cmd < self.commands@.len(),
        ensures
            match result {
                Ok(u) => r@ == self.commands@[cmd as int].name@,
                Err(m) => r@ == m@,
            },
    {
        match result {
            Ok(u) => self.commands[cmd].name.clone(),
            Err(m) => m,
        }
    }
}

/// The shared context a command handler runs with: the ready-cell's value
/// if it is available, and a command failure — not an indefinite wait —
/// when the producer has not filled it yet.
pub fn require_context<T>(cell: &ReadyCell<T>) -> (r: Result<&T, IpcError>)
    ensures
        match r {
            Ok(v) => cell.is_ready() && *v == cell.spec_value(),
            Err(e) => !cell.is_ready() && e is MissingContext,
        },
{
    match cell.try_get() {
        Some(v) => Ok(v),
        None => Err(IpcError::MissingContext),
    }
}

/// The detail text for one failed argument, as an owned string.
fn bad_kind_message(kind: ArgKind, tok: &String) -> (r: String)
    ensures
        r@ == spec_bad_kind_message(kind, tok@),
{
    match kind {
        ArgKind::Str => String::new(),
        ArgKind::Int => {
            let mut out = String::from_str("invalid integer argument: ");
            out.append(tok.as_str());
            out
        },
        ArgKind::Ident => {
            let mut out = String::from_str("invalid identifier argument: ");
            out.append(tok.as_str());
            out
        },
    }
}

/// Copy a token list, preserving every word.
fn clone_strings(v: &Vec<String>) -> (r: Vec<String>)
    ensures
        r.deep_view() == v.deep_view(),
{
    let mut out: Vec<String> = Vec::new();
    for k in 0..v.len()
        invariant
            out@.len() == k,
            forall|j: int| 0 <= j < k ==> #[trigger] out@[j]@ == v@[j]@,
    {
        out.push(v[k].clone());
    }
    proof {
        assert(out.deep_view() =~= v.deep_view());
    }
    out
}

} // verus!
