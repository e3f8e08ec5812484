//! Shell-style tokenization of command lines.
//!
//! A request line is split into words at unquoted whitespace. Single quotes
//! make every character up to the closing quote literal; double quotes do the
//! same except that a backslash escapes the following character; outside
//! quotes a backslash escapes the following character. A line whose quoting
//! is not yet closed (or that ends in a bare backslash) is not malformed: it
//! needs more input, and the caller may append a continuation line.
//!
//! The inverse direction, [`quote`], renders one argument so that
//! tokenization recovers it exactly; [`lemma_tokenize_join_quoted`] proves
//! that round trip for every argument sequence.

use vstd::prelude::*;

verus! {

/// Lexer mode: where in the quoting grammar the scan currently stands.
#[derive(Clone, Copy, PartialEq, Eq, Structural, Debug)]
pub enum LexMode {
    /// Between words: whitespace is skipped, any other character opens a word.
    Between,
    /// Inside an unquoted word.
    Word,
    /// After a backslash outside quotes: the next character is literal.
    Esc,
    /// Inside single quotes.
    Single,
    /// Inside double quotes.
    Double,
    /// After a backslash inside double quotes: the next character is literal.
    DoubleEsc,
}

/// The whitespace characters that separate words.
pub open spec fn is_space(c: char) -> bool {
    c == ' ' || c == '\t' || c == '\n' || c == '\r'
}

/// Full lexer state: mode, the word being accumulated, the words finished.
pub struct LexState {
    /// Current mode.
    pub mode: LexMode,
    /// The word accumulated so far; empty whenever `mode` is `Between`.
    pub cur: Seq<char>,
    /// The words already finished, in order.
    pub toks: Seq<Seq<char>>,
}

/// The state in which scanning a line begins.
pub open spec fn lex_init() -> LexState {
    LexState { mode: LexMode::Between, cur: Seq::empty(), toks: Seq::empty() }
}

/// One step of the lexer: consume character `c` in state `st`.
pub open spec fn lex_step(st: LexState, c: char) -> LexState {
    match st.mode {
        LexMode::Between => {
            if is_space(c) {
                st
            } else if c == '\'' {
                LexState { mode: LexMode::Single, ..st }
            } else if c == '"' {
                LexState { mode: LexMode::Double, ..st }
            } else if c == '\\' {
                LexState { mode: LexMode::Esc, ..st }
            } else {
                LexState { mode: LexMode::Word, cur: st.cur.push(c), ..st }
            }
        },
        LexMode::Word => {
            if is_space(c) {
                LexState { mode: LexMode::Between, cur: Seq::empty(), toks: st.toks.push(st.cur) }
            } else if c == '\'' {
                LexState { mode: LexMode::Single, ..st }
            } else if c == '"' {
                LexState { mode: LexMode::Double, ..st }
            } else if c == '\\' {
                LexState { mode: LexMode::Esc, ..st }
            } else {
                LexState { mode: LexMode::Word, cur: st.cur.push(c), ..st }
            }
        },
        LexMode::Esc => LexState { mode: LexMode::Word, cur: st.cur.push(c), ..st },
        LexMode::Single => {
            if c == '\'' {
                LexState { mode: LexMode::Word, ..st }
            } else {
                LexState { cur: st.cur.push(c), ..st }
            }
        },
        LexMode::Double => {
            if c == '"' {
                LexState { mode: LexMode::Word, ..st }
            } else if c == '\\' {
                LexState { mode: LexMode::DoubleEsc, ..st }
            } else {
                LexState { cur: st.cur.push(c), ..st }
            }
        },
        LexMode::DoubleEsc => LexState { mode: LexMode::Double, cur: st.cur.push(c), ..st },
    }
}

/// Run the lexer over a whole character sequence.
pub open spec fn lex_seq(st: LexState, s: Seq<char>) -> LexState
    decreases s.len(),
{
    if s.len() == 0 {
        st
    } else {
        lex_seq(lex_step(st, s[0]), s.drop_first())
    }
}

/// Close the scan: a state between words or inside an unquoted word yields
/// the token list; any state still inside a quote or escape needs more input.
pub open spec fn lex_finish(st: LexState) -> Option<Seq<Seq<char>>> {
    match st.mode {
        LexMode::Between => Some(st.toks),
        LexMode::Word => Some(st.toks.push(st.cur)),
        _ => None,
    }
}

/// What tokenizing a line means: `Some(words)` on balanced quoting,
/// `None` when the line ends inside a quote or escape.
pub open spec fn spec_tokenize(s: Seq<char>) -> Option<Seq<Seq<char>>> {
    lex_finish(lex_seq(lex_init(), s))
}

/// A character that needs no quoting: neither whitespace nor a quoting
/// character.
pub open spec fn is_plain(c: char) -> bool {
    !is_space(c) && c != '\'' && c != '"' && c != '\\'
}

/// Every character of the sequence is plain.
pub open spec fn all_plain(s: Seq<char>) -> bool {
    forall|i: int| 0 <= i < s.len() ==> is_plain(#[trigger] s[i])
}

/// The body of a single-quoted rendering: each character stands for itself,
/// except that a single quote becomes `'\''` (close, escaped quote, reopen).
pub open spec fn quote_inner(s: Seq<char>) -> Seq<char>
    decreases s.len(),
{
    if s.len() == 0 {
        Seq::empty()
    } else {
        (if s[0] == '\'' {
            seq!['\'', '\\', '\'', '\'']
        } else {
            seq![s[0]]
        }) + quote_inner(s.drop_first())
    }
}

/// Render one argument so that tokenization recovers it exactly: a nonempty
/// all-plain argument stands for itself, anything else is single-quoted.
pub open spec fn spec_quote(s: Seq<char>) -> Seq<char> {
    if s.len() > 0 && all_plain(s) {
        s
    } else {
        seq!['\''] + quote_inner(s) + seq!['\'']
    }
}

/// Render an argument list as one request line: quoted words joined by
/// single spaces.
pub open spec fn spec_join_quoted(args: Seq<Seq<char>>) -> Seq<char>
    decreases args.len(),
{
    if args.len() == 0 {
        Seq::empty()
    } else if args.len() == 1 {
        spec_quote(args[0])
    } else {
        spec_quote(args[0]) + seq![' '] + spec_join_quoted(args.drop_first())
    }
}

/// Outcome of tokenizing a buffer.
pub enum Tokenized {
    /// The buffer held balanced quoting and splits into these words.
    Complete(Vec<String>),
    /// The buffer ends inside a quote or escape; a further line may close it.
    Incomplete,
}

/// The lexer processes a concatenation by processing each part in turn.
pub proof fn lemma_lex_seq_app(st: LexState, a: Seq<char>, b: Seq<char>)
    ensures
        lex_seq(st, a + b) == lex_seq(lex_seq(st, a), b),
    decreases a.len(),
{
    if a.len() == 0 {
        assert(a + b =~= b);
    } else {
        assert((a + b)[0] == a[0]);
        assert((a + b).drop_first() =~= a.drop_first() + b);
        lemma_lex_seq_app(lex_step(st, a[0]), a.drop_first(), b);
    }
}

/// Processing a single character is a single lexer step.
pub proof fn lemma_lex_seq_one(st: LexState, c: char)
    ensures
        lex_seq(st, seq![c]) == lex_step(st, c),
{
    reveal_with_fuel(lex_seq, 2);
    assert(seq![c].drop_first() =~= Seq::<char>::empty());
    assert(seq![c][0] == c);
}

/// Extending the scanned prefix by one character applies one lexer step.
pub proof fn lemma_lex_seq_snoc(st: LexState, s: Seq<char>, i: int)
    requires
        0 <= i < s.len(),
    ensures
        lex_seq(st, s.take(i + 1)) == lex_step(lex_seq(st, s.take(i)), s[i]),
{
    assert(s.take(i + 1) =~= s.take(i) + seq![s[i]]);
    lemma_lex_seq_app(st, s.take(i), seq![s[i]]);
    lemma_lex_seq_one(lex_seq(st, s.take(i)), s[i]);
}

/// Relies on `String::push`: appends the given character to the string.
#[verifier::external_body]
pub(crate) fn push_char(s: &mut String, c: char)
    ensures
        final(s)@ == old(s)@ + seq![c],
{
    s.push(c);
}

/// Split a buffer into shell-style words, or report that its quoting is
/// still open so that a continuation line may complete it.
pub fn tokenize(s: &str) -> (r: Tokenized)
    ensures
        match r {
            Tokenized::Complete(toks) => spec_tokenize(s@) == Some(toks.deep_view()),
            Tokenized::Incomplete => spec_tokenize(s@) is None,
        },
{
    let n = s.unicode_len();
    let mut mode = LexMode::Between;
    let mut cur = String::new();
    let mut toks: Vec<String> = Vec::new();
    proof {
        assert(s@.take(0) =~= Seq::<char>::empty());
        assert(toks.deep_view() =~= Seq::<Seq<char>>::empty());
    }
    for i in 0..n
        invariant
            n == s@.len(),
            lex_seq(lex_init(), s@.take(i as int)).mode == mode,
            lex_seq(lex_init(), s@.take(i as int)).cur == cur@,
            lex_seq(lex_init(), s@.take(i as int)).toks == toks.deep_view(),
    {
        let c = s.get_char(i);
        proof {
            lemma_lex_seq_snoc(lex_init(), s@, i as int);
        }
        let ghost prev = LexState { mode: mode, cur: cur@, toks: toks.deep_view() };
        match mode {
            LexMode::Between | LexMode::Word => {
                let in_word = match mode {
                    LexMode::Word => true,
                    _ => false,
                };
                if c == ' ' || c == '\t' || c == '\n' || c == '\r' {
                    if in_word {
                        toks.push(cur);
                        cur = String::new();
                        mode = LexMode::Between;
                    }
                } else if c == '\'' {
                    mode = LexMode::Single;
                } else if c == '"' {
                    mode = LexMode::Double;
                } else if c == '\\' {
                    mode = LexMode::Esc;
                } else {
                    push_char(&mut cur, c);
                    mode = LexMode::Word;
                }
            },
            LexMode::Esc => {
                push_char(&mut cur, c);
                mode = LexMode::Word;
            },
            LexMode::Single => {
                if c == '\'' {
                    mode = LexMode::Word;
                } else {
                    push_char(&mut cur, c);
                }
            },
            LexMode::Double => {
                if c == '"' {
                    mode = LexMode::Word;
                } else if c == '\\' {
                    mode = LexMode::DoubleEsc;
                } else {
                    push_char(&mut cur, c);
                }
            },
            LexMode::DoubleEsc => {
                push_char(&mut cur, c);
                mode = LexMode::Double;
            },
        }
        proof {
            let next = lex_step(prev, s@[i as int]);
            assert(next.mode == mode);
            assert(next.cur =~= cur@);
            assert(next.toks =~= toks.deep_view());
        }
    }
    proof {
        assert(s@.take(n as int) =~= s@);
    }
    match mode {
        LexMode::Between => Tokenized::Complete(toks),
        LexMode::Word => {
            let ghost before = toks.deep_view();
            toks.push(cur);
            proof {
                assert(toks.deep_view() =~= before.push(cur@));
            }
            Tokenized::Complete(toks)
        },
        _ => Tokenized::Incomplete,
    }
}

/// Inside a word, a run of plain characters extends the current word and
/// nothing else.
proof fn lemma_lex_plain_word(st: LexState, s: Seq<char>)
    requires
        st.mode == LexMode::Word,
        all_plain(s),
    ensures
        lex_seq(st, s) == (LexState { mode: LexMode::Word, cur: st.cur + s, toks: st.toks }),
    decreases s.len(),
{
    if s.len() == 0 {
        assert(st.cur + s =~= st.cur);
    } else {
        assert(is_plain(s[0]));
        let st1 = lex_step(st, s[0]);
        assert(st1 == (LexState { mode: LexMode::Word, cur: st.cur.push(s[0]), toks: st.toks }));
        assert(all_plain(s.drop_first())) by {
            assert(forall|i: int|
                0 <= i < s.drop_first().len() ==> #[trigger] s.drop_first()[i] == s[i + 1]);
        }
        lemma_lex_plain_word(st1, s.drop_first());
        assert(st.cur.push(s[0]) + s.drop_first() =~= st.cur + s);
    }
}

/// Inside single quotes, the quoted rendering of `s` appends exactly `s` to
/// the current word and returns to the single-quote mode.
proof fn lemma_lex_quote_inner(st: LexState, s: Seq<char>)
    requires
        st.mode == LexMode::Single,
    ensures
        lex_seq(st, quote_inner(s)) == (LexState {
            mode: LexMode::Single,
            cur: st.cur + s,
            toks: st.toks,
        }),
    decreases s.len(),
{
    if s.len() == 0 {
        assert(st.cur + s =~= st.cur);
    } else {
        let chunk = if s[0] == '\'' {
            seq!['\'', '\\', '\'', '\'']
        } else {
            seq![s[0]]
        };
        lemma_lex_seq_app(st, chunk, quote_inner(s.drop_first()));
        let stc = lex_seq(st, chunk);
        if s[0] == '\'' {
            let q = '\'';
            let bs = '\\';
            let c1 = seq![bs, q, q];
            let c2 = seq![q, q];
            let c3 = seq![q];
            assert(chunk[0] == q);
            assert(chunk.drop_first() =~= c1);
            assert(c1[0] == bs);
            assert(c1.drop_first() =~= c2);
            assert(c2[0] == q);
            assert(c2.drop_first() =~= c3);
            assert(c3[0] == q);
            assert(c3.drop_first() =~= Seq::<char>::empty());
            reveal_with_fuel(lex_seq, 6);
            assert(stc == (LexState {
                mode: LexMode::Single,
                cur: st.cur.push(q),
                toks: st.toks,
            }));
        } else {
            lemma_lex_seq_one(st, s[0]);
            assert(stc == (LexState {
                mode: LexMode::Single,
                cur: st.cur.push(s[0]),
                toks: st.toks,
            }));
        }
        lemma_lex_quote_inner(stc, s.drop_first());
        assert(st.cur.push(s[0]) + s.drop_first() =~= st.cur + s);
    }
}

/// Between words, the quoted rendering of `a` is scanned as exactly one word
/// with content `a`, still open (a following space or the end of the line
/// will close it).
proof fn lemma_lex_quote(st: LexState, a: Seq<char>)
    requires
        st.mode == LexMode::Between,
        st.cur == Seq::<char>::empty(),
    ensures
        lex_seq(st, spec_quote(a)) == (LexState {
            mode: LexMode::Word,
            cur: a,
            toks: st.toks,
        }),
{
    if a.len() > 0 && all_plain(a) {
        assert(is_plain(a[0]));
        assert(spec_quote(a)[0] == a[0]);
        assert(spec_quote(a).drop_first() =~= a.drop_first());
        let st1 = lex_step(st, a[0]);
        assert(st1 == (LexState {
            mode: LexMode::Word,
            cur: st.cur.push(a[0]),
            toks: st.toks,
        }));
        assert(all_plain(a.drop_first())) by {
            assert(forall|i: int|
                0 <= i < a.drop_first().len() ==> #[trigger] a.drop_first()[i] == a[i + 1]);
        }
        lemma_lex_plain_word(st1, a.drop_first());
        assert(st.cur.push(a[0]) + a.drop_first() =~= a);
    } else {
        let q = '\'';
        let open = seq![q];
        let inner = quote_inner(a);
        assert(spec_quote(a) =~= open + (inner + seq![q]));
        lemma_lex_seq_app(st, open, inner + seq![q]);
        lemma_lex_seq_one(st, q);
        let st1 = lex_step(st, q);
        assert(st1 == (LexState { mode: LexMode::Single, cur: st.cur, toks: st.toks }));
        lemma_lex_seq_app(st1, inner, seq![q]);
        lemma_lex_quote_inner(st1, a);
        let st2 = lex_seq(st1, inner);
        assert(st2.cur =~= a);
        lemma_lex_seq_one(st2, q);
    }
}

/// Between words, a whole quoted-and-joined argument list is scanned into
/// exactly those arguments, the last one still open.
proof fn lemma_lex_join(st: LexState, args: Seq<Seq<char>>)
    requires
        st.mode == LexMode::Between,
        st.cur == Seq::<char>::empty(),
    ensures
        args.len() == 0 ==> lex_seq(st, spec_join_quoted(args)) == st,
        args.len() > 0 ==> lex_seq(st, spec_join_quoted(args)) == (LexState {
            mode: LexMode::Word,
            cur: args.last(),
            toks: st.toks + args.drop_last(),
        }),
    decreases args.len(),
{
    if args.len() == 0 {
    } else if args.len() == 1 {
        lemma_lex_quote(st, args[0]);
        assert(st.toks + args.drop_last() =~= st.toks);
    } else {
        let rest = args.drop_first();
        lemma_lex_seq_app(st, spec_quote(args[0]) + seq![' '], spec_join_quoted(rest));
        lemma_lex_seq_app(st, spec_quote(args[0]), seq![' ']);
        assert(spec_join_quoted(args) =~= (spec_quote(args[0]) + seq![' '])
            + spec_join_quoted(rest));
        lemma_lex_quote(st, args[0]);
        let st1 = lex_seq(st, spec_quote(args[0]));
        lemma_lex_seq_one(st1, ' ');
        let st2 = lex_step(st1, ' ');
        assert(st2 == (LexState {
            mode: LexMode::Between,
            cur: Seq::<char>::empty(),
            toks: st.toks.push(args[0]),
        }));
        lemma_lex_join(st2, rest);
        assert(rest.last() == args.last());
        assert(st.toks.push(args[0]) + rest.drop_last() =~= st.toks + args.drop_last());
    }
}

/// The quoted body of a concatenation is the concatenation of the quoted
/// bodies.
proof fn lemma_quote_inner_app(a: Seq<char>, b: Seq<char>)
    ensures
        quote_inner(a + b) == quote_inner(a) + quote_inner(b),
    decreases a.len(),
{
    if a.len() == 0 {
        assert(a + b =~= b);
        assert(quote_inner(a) + quote_inner(b) =~= quote_inner(b));
    } else {
        assert((a + b)[0] == a[0]);
        assert((a + b).drop_first() =~= a.drop_first() + b);
        lemma_quote_inner_app(a.drop_first(), b);
        let chunk = if a[0] == '\'' {
            seq!['\'', '\\', '\'', '\'']
        } else {
            seq![a[0]]
        };
        assert(chunk + (quote_inner(a.drop_first()) + quote_inner(b)) =~= (chunk + quote_inner(
            a.drop_first(),
        )) + quote_inner(b));
    }
}

/// The quoted body of a single character.
proof fn lemma_quote_inner_one(c: char)
    ensures
        quote_inner(seq![c]) == (if c == '\'' {
            seq!['\'', '\\', '\'', '\'']
        } else {
            seq![c]
        }),
{
    reveal_with_fuel(quote_inner, 2);
    assert(seq![c][0] == c);
    assert(seq![c].drop_first() =~= Seq::<char>::empty());
    let chunk = if c == '\'' {
        seq!['\'', '\\', '\'', '\'']
    } else {
        seq![c]
    };
    assert(chunk + Seq::<char>::empty() =~= chunk);
}

/// Quote one argument for the wire: the result tokenizes back to exactly
/// this argument (see [`lemma_tokenize_join_quoted`]).
pub fn quote(s: &str) -> (r: String)
    ensures
        r@ == spec_quote(s@),
{
    let n = s.unicode_len();
    let mut plain = true;
    proof {
        assert(s@.take(0) =~= Seq::<char>::empty());
    }
    for i in 0..n
        invariant
            n == s@.len(),
            plain == all_plain(s@.take(i as int)),
    {
        let c = s.get_char(i);
        let c_plain = !(c == ' ' || c == '\t' || c == '\n' || c == '\r' || c == '\'' || c == '"'
            || c == '\\');
        plain = plain && c_plain;
        proof {
            let pre = s@.take(i as int);
            let ext = s@.take(i + 1);
            assert(ext.drop_last() =~= pre);
            assert(ext.last() == s@[i as int]);
            if plain {
                assert(forall|j: int| 0 <= j < ext.len() ==> is_plain(#[trigger] ext[j])) by {
                    assert(forall|j: int| 0 <= j < pre.len() ==> #[trigger] ext[j] == pre[j]);
                }
            } else {
                if all_plain(ext) {
                    assert(forall|j: int|
                        0 <= j < pre.len() ==> is_plain(#[trigger] pre[j])) by {
                        assert(forall|j: int| 0 <= j < pre.len() ==> #[trigger] pre[j] == ext[j]);
                    }
                    assert(is_plain(ext[i as int]));
                }
            }
        }
    }
    proof {
        assert(s@.take(n as int) =~= s@);
    }
    if n > 0 && plain {
        return String::from_str(s);
    }
    let mut out = String::new();
    push_char(&mut out, '\'');
    proof {
        assert(s@.take(0) =~= Seq::<char>::empty());
        assert(out@ =~= seq!['\''] + quote_inner(s@.take(0)));
    }
    for i in 0..n
        invariant
            n == s@.len(),
            out@ == seq!['\''] + quote_inner(s@.take(i as int)),
    {
        let c = s.get_char(i);
        if c == '\'' {
            push_char(&mut out, '\'');
            push_char(&mut out, '\\');
            push_char(&mut out, '\'');
            push_char(&mut out, '\'');
        } else {
            push_char(&mut out, c);
        }
        proof {
            let pre = s@.take(i as int);
            let ext = s@.take(i + 1);
            assert(ext =~= pre + seq![s@[i as int]]);
            lemma_quote_inner_app(pre, seq![s@[i as int]]);
            lemma_quote_inner_one(s@[i as int]);
            assert(out@ =~= seq!['\''] + quote_inner(ext));
        }
    }
    push_char(&mut out, '\'');
    proof {
        assert(s@.take(n as int) =~= s@);
        assert(out@ =~= seq!['\''] + quote_inner(s@) + seq!['\'']);
    }
    out
}

/// Appending one more argument to a joined line adds a separating space
/// (when the line is not empty) and the quoted argument.
proof fn lemma_join_quoted_snoc(args: Seq<Seq<char>>, a: Seq<char>)
    ensures
        args.len() == 0 ==> spec_join_quoted(args.push(a)) == spec_quote(a),
        args.len() > 0 ==> spec_join_quoted(args.push(a)) == spec_join_quoted(args) + seq![' ']
            + spec_quote(a),
    decreases args.len(),
{
    let w = args.push(a);
    if args.len() == 0 {
        assert(w.len() == 1);
        assert(w[0] == a);
    } else {
        assert(w[0] == args[0]);
        assert(w.drop_first() =~= args.drop_first().push(a));
        lemma_join_quoted_snoc(args.drop_first(), a);
        if args.len() == 1 {
            assert(spec_join_quoted(w) == spec_quote(args[0]) + seq![' '] + spec_quote(a));
        } else {
            assert(spec_quote(args[0]) + seq![' '] + (spec_join_quoted(args.drop_first())
                + seq![' '] + spec_quote(a)) =~= (spec_quote(args[0]) + seq![' ']
                + spec_join_quoted(args.drop_first())) + seq![' '] + spec_quote(a));
        }
    }
}

/// Join a list of arguments into one request line, each argument quoted and
/// the words separated by single spaces.
pub fn join_quoted(args: &Vec<String>) -> (r: String)
    ensures
        r@ == spec_join_quoted(args.deep_view()),
{
    let mut out = String::new();
    proof {
        assert(args.deep_view().take(0) =~= Seq::<Seq<char>>::empty());
    }
    for i in 0..args.len()
        invariant
            out@ == spec_join_quoted(args.deep_view().take(i as int)),
    {
        if i > 0 {
            push_char(&mut out, ' ');
        }
        let q = quote(args[i].as_str());
        out.append(q.as_str());
        proof {
            let pre = args.deep_view().take(i as int);
            let ext = args.deep_view().take(i + 1);
            assert(ext =~= pre.push(args.deep_view()[i as int]));
            lemma_join_quoted_snoc(pre, args.deep_view()[i as int]);
        }
    }
    proof {
        assert(args.deep_view().take(args.len() as int) =~= args.deep_view());
    }
    out
}

/// Round trip: quoting a sequence of arguments, joining them with spaces,
/// and tokenizing the result yields the same arguments again, for every
/// argument sequence.
pub proof fn lemma_tokenize_join_quoted(args: Seq<Seq<char>>)
    ensures
        spec_tokenize(spec_join_quoted(args)) == Some(args),
{
    lemma_lex_join(lex_init(), args);
    if args.len() == 0 {
        assert(args =~= Seq::<Seq<char>>::empty());
    } else {
        let end = lex_seq(lex_init(), spec_join_quoted(args));
        assert(lex_init().toks + args.drop_last() =~= args.drop_last());
        assert(end.toks.push(end.cur) =~= args);
    }
}

} // verus!
