//! A small shell lexer: words, quotes, command substitutions and operators.
use vstd::prelude::*;
use crate::text::{
    append_chars, chars_of, copy_chars, is_alnum, is_alpha, is_ascii_alnum, is_ascii_alpha, is_digit,
    is_whitespace, is_ws, lower, to_lower,
};

verus! {

broadcast use crate::text::lemma_char_vec_deep_view;

/// A word of the pasted text: its text after quote removal, its raw spelling,
/// and whether `$` expansion applies to it (no single quotes were seen).
pub struct WordToken {
    pub text: Vec<char>,
    pub raw: Vec<char>,
    pub expandable: bool,
}

/// A lexical token: a word or an operator such as `|`, `;`, `&&` or `>>`.
pub enum ShellToken {
    Word(WordToken),
    Op(Vec<char>),
}

/// The mathematical value of a token.
pub enum Tok {
    Word(Seq<char>, Seq<char>, bool),
    Op(Seq<char>),
}

impl DeepView for ShellToken {
    type V = Tok;

    open spec fn deep_view(&self) -> Tok {
        match self {
            ShellToken::Word(w) => Tok::Word(w.text@, w.raw@, w.expandable),
            ShellToken::Op(op) => Tok::Op(op@),
        }
    }
}

/// The lexer's state: tokens so far, the word being built (text and raw
/// spelling) and whether that word saw a single quote.
pub struct LexState {
    pub tokens: Seq<Tok>,
    pub text: Seq<char>,
    pub raw: Seq<char>,
    pub single: bool,
}

/// The state before any character was read.
pub open spec fn lex_start() -> LexState {
    LexState { tokens: Seq::empty(), text: Seq::empty(), raw: Seq::empty(), single: false }
}

/// Ends the current word, if there is one.
pub open spec fn flush(st: LexState) -> LexState {
    if st.text.len() == 0 && st.raw.len() == 0 {
        st
    } else {
        LexState {
            tokens: st.tokens.push(Tok::Word(st.text, st.raw, !st.single)),
            text: Seq::empty(),
            raw: Seq::empty(),
            single: false,
        }
    }
}

/// Adds an operator token.
pub open spec fn with_op(st: LexState, op: Seq<char>) -> LexState {
    LexState { tokens: st.tokens.push(Tok::Op(op)), text: st.text, raw: st.raw, single: st.single }
}

/// Extends the current word.
pub open spec fn with_word(st: LexState, text: Seq<char>, raw: Seq<char>, single: bool) -> LexState {
    LexState { tokens: st.tokens, text, raw, single }
}

/// Reads the rest of a `$(` ... `)` substitution from index `i`, at nesting
/// `depth`, after `out` was read; gives the text read and the next index.
pub open spec fn subst_scan(chars: Seq<char>, i: int, depth: int, out: Seq<char>) -> (Seq<char>, int)
    decreases chars.len() - i,
{
    if i < 0 || i >= chars.len() {
        (out, i)
    } else {
        let c = chars[i];
        let out2 = out.push(c);
        if c == '(' {
            subst_scan(chars, i + 1, depth + 1, out2)
        } else if c == ')' {
            if depth - 1 == 0 {
                (out2, i + 1)
            } else {
                subst_scan(chars, i + 1, depth - 1, out2)
            }
        } else {
            subst_scan(chars, i + 1, depth, out2)
        }
    }
}

/// The command substitution that starts with `$(` at `start`, and the index after it.
pub open spec fn read_subst(chars: Seq<char>, start: int) -> (Seq<char>, int) {
    subst_scan(chars, start + 2, 1, seq!['$', '('])
}

/// A substitution scan never moves backwards.
pub proof fn lemma_subst_scan_forward(chars: Seq<char>, i: int, depth: int, out: Seq<char>)
    ensures
        subst_scan(chars, i, depth, out).1 >= i,
        subst_scan(chars, i, depth, out).0.len() >= out.len(),
        i >= 0 ==> subst_scan(chars, i, depth, out).1 <= if i <= chars.len() { chars.len() as int } else { i },
    decreases chars.len() - i,
{
    if i >= 0 && i < chars.len() {
        let c = chars[i];
        if c == '(' {
            lemma_subst_scan_forward(chars, i + 1, depth + 1, out.push(c));
        } else if c == ')' {
            if depth - 1 != 0 {
                lemma_subst_scan_forward(chars, i + 1, depth - 1, out.push(c));
            }
        } else {
            lemma_subst_scan_forward(chars, i + 1, depth, out.push(c));
        }
    }
}

/// Reads a single-quoted string from index `i` (after the opening quote).
pub open spec fn single_scan(chars: Seq<char>, i: int, text: Seq<char>, raw: Seq<char>) -> (Seq<char>, Seq<char>, int)
    decreases chars.len() - i,
{
    if i < 0 || i >= chars.len() {
        (text, raw, i)
    } else {
        let c = chars[i];
        if c == '\'' {
            (text, raw.push(c), i + 1)
        } else {
            single_scan(chars, i + 1, text.push(c), raw.push(c))
        }
    }
}

/// Reads a double-quoted string from index `i` (after the opening quote).
pub open spec fn double_scan(chars: Seq<char>, i: int, text: Seq<char>, raw: Seq<char>) -> (Seq<char>, Seq<char>, int)
    decreases chars.len() - i,
{
    if i < 0 || i >= chars.len() {
        (text, raw, i)
    } else {
        let c = chars[i];
        let raw1 = raw.push(c);
        if c == '"' {
            (text, raw1, i + 1)
        } else if c == '\\' && i + 1 < chars.len() {
            double_scan(chars, i + 2, text.push(chars[i + 1]), raw1.push(chars[i + 1]))
        } else if c == '$' && i + 1 < chars.len() && chars[i + 1] == '(' {
            let (sub, next) = read_subst(chars, i);
            proof {
                lemma_subst_scan_forward(chars, i + 2, 1, seq!['$', '(']);
            }
            double_scan(chars, next, text + sub, raw1 + sub.drop_first())
        } else {
            double_scan(chars, i + 1, text.push(c), raw1)
        }
    }
}

/// The index of the first newline at or after `i`, or the length.
pub open spec fn line_end(chars: Seq<char>, i: int) -> int
    decreases chars.len() - i,
{
    if i < 0 || i >= chars.len() || chars[i] == '\n' {
        i
    } else {
        line_end(chars, i + 1)
    }
}

/// Whether `c` starts a `N>` redirection here.
pub open spec fn digit_redirect(chars: Seq<char>, i: int, st: LexState) -> bool {
    is_digit(chars[i]) && st.text.len() == 0 && i + 1 < chars.len() && chars[i + 1] == '>'
}

/// The tokens of `chars` from index `i` on, in lexer state `st`.
pub open spec fn lex_from(chars: Seq<char>, i: int, st: LexState) -> Seq<Tok>
    decreases chars.len() - i,
{
    if i < 0 || i >= chars.len() {
        flush(st).tokens
    } else {
        let c = chars[i];
        let n = chars.len();
        if c == '\n' || c == ';' {
            lex_from(chars, i + 1, with_op(flush(st), seq![';']))
        } else if is_ws(c) {
            lex_from(chars, i + 1, flush(st))
        } else if c == '#' && st.text.len() == 0 && st.raw.len() == 0 {
            let j = line_end(chars, i + 1);
            if i < j <= chars.len() {
                lex_from(chars, j, st)
            } else {
                flush(st).tokens
            }
        } else if c == '\'' {
            let (t, r, j) = single_scan(chars, i + 1, st.text, st.raw.push(c));
            if i < j <= chars.len() {
                lex_from(chars, j, with_word(st, t, r, true))
            } else {
                flush(st).tokens
            }
        } else if c == '"' {
            let (t, r, j) = double_scan(chars, i + 1, st.text, st.raw.push(c));
            if i < j <= chars.len() {
                lex_from(chars, j, with_word(st, t, r, st.single))
            } else {
                flush(st).tokens
            }
        } else if c == '\\' {
            if i + 1 < n {
                lex_from(chars, i + 2, with_word(st, st.text.push(chars[i + 1]), st.raw.push(c).push(chars[i + 1]), st.single))
            } else {
                lex_from(chars, i + 1, with_word(st, st.text, st.raw.push(c), st.single))
            }
        } else if c == '$' && i + 1 < n && chars[i + 1] == '(' {
            let (sub, j) = read_subst(chars, i);
            if i < j <= chars.len() {
                lex_from(chars, j, with_word(st, st.text + sub, st.raw + sub, st.single))
            } else {
                flush(st).tokens
            }
        } else if c == '&' && i + 1 < n && chars[i + 1] == '&' {
            lex_from(chars, i + 2, with_op(flush(st), seq!['&', '&']))
        } else if c == '|' && i + 1 < n && chars[i + 1] == '|' {
            lex_from(chars, i + 2, with_op(flush(st), seq!['|', '|']))
        } else if c == '|' {
            lex_from(chars, i + 1, with_op(flush(st), seq!['|']))
        } else if c == '>' || c == '<' {
            if i + 1 < n && chars[i + 1] == c {
                lex_from(chars, i + 2, with_op(flush(st), seq![c, c]))
            } else {
                lex_from(chars, i + 1, with_op(flush(st), seq![c]))
            }
        } else if digit_redirect(chars, i, st) {
            if i + 2 < n && chars[i + 2] == '>' {
                lex_from(chars, i + 3, with_op(st, seq![c, '>', '>']))
            } else {
                lex_from(chars, i + 2, with_op(st, seq![c, '>']))
            }
        } else {
            lex_from(chars, i + 1, with_word(st, st.text.push(c), st.raw.push(c), st.single))
        }
    }
}

/// The tokens of a pasted text.
pub open spec fn lex(chars: Seq<char>) -> Seq<Tok> {
    lex_from(chars, 0, lex_start())
}

/// The lexer state held in executable variables.
pub open spec fn state_of(tokens: Seq<ShellToken>, text: Seq<char>, raw: Seq<char>, single: bool) -> LexState {
    LexState { tokens: tokens.map_values(|t: ShellToken| t.deep_view()), text, raw, single }
}

/// Ends the current word, if there is one.
pub fn push_word(tokens: &mut Vec<ShellToken>, text: &mut Vec<char>, raw: &mut Vec<char>, single: &mut bool)
    ensures
        state_of(final(tokens)@, final(text)@, final(raw)@, *final(single)) == flush(
            state_of(old(tokens)@, old(text)@, old(raw)@, *old(single)),
        ),
{
    if text.len() == 0 && raw.len() == 0 {
        return;
    }
    let mut t: Vec<char> = Vec::new();
    let mut r: Vec<char> = Vec::new();
    std::mem::swap(&mut t, text);
    std::mem::swap(&mut r, raw);
    let word = WordToken { text: t, raw: r, expandable: !*single };
    tokens.push(ShellToken::Word(word));
    *single = false;
    assert(final(tokens)@.map_values(|t: ShellToken| t.deep_view()) =~= old(tokens)@.map_values(
        |t: ShellToken| t.deep_view(),
    ).push(Tok::Word(old(text)@, old(raw)@, !*old(single))));
}

/// Adds an operator token.
fn push_op(tokens: &mut Vec<ShellToken>, op: Vec<char>)
    ensures
        final(tokens)@.map_values(|t: ShellToken| t.deep_view()) == old(tokens)@.map_values(
            |t: ShellToken| t.deep_view(),
        ).push(Tok::Op(op@)),
{
    tokens.push(ShellToken::Op(op));
    assert(final(tokens)@.map_values(|t: ShellToken| t.deep_view()) =~= old(tokens)@.map_values(
        |t: ShellToken| t.deep_view(),
    ).push(Tok::Op(op@)));
}

/// Reads the command substitution that starts with `$(` at `start`; gives
/// its text (with the `$(` and, when present, the closing `)`) and the index after it.
pub fn read_command_substitution(chars: &[char], start: usize) -> (r: (Vec<char>, usize))
    requires
        start + 2 <= chars@.len(),
    ensures
        (r.0@, r.1 as int) == read_subst(chars@, start as int),
{
    let n = chars.len();
    let mut out: Vec<char> = Vec::new();
    out.push('$');
    out.push('(');
    let mut depth: usize = 1;
    let mut i: usize = start + 2;
    assert(out@ =~= seq!['$', '(']);
    while i < n
        invariant
            n == chars@.len(),
            start + 2 <= i <= n,
            1 <= depth <= i,
            read_subst(chars@, start as int) == subst_scan(chars@, i as int, depth as int, out@),
        decreases n - i,
    {
        let c = chars[i];
        out.push(c);
        if c == '(' {
            depth = depth + 1;
        } else if c == ')' {
            depth = depth - 1;
            if depth == 0 {
                i = i + 1;
                return (out, i);
            }
        }
        i = i + 1;
    }
    (out, i)
}

/// Reads a single-quoted string from `i` (after the opening quote) into the word.
fn scan_single(chars: &[char], i: usize, text: &mut Vec<char>, raw: &mut Vec<char>) -> (j: usize)
    requires
        i <= chars@.len(),
    ensures
        (final(text)@, final(raw)@, j as int) == single_scan(chars@, i as int, old(text)@, old(raw)@),
        i <= j <= chars@.len(),
{
    let n = chars.len();
    let mut k = i;
    while k < n
        invariant
            n == chars@.len(),
            i <= k <= n,
            single_scan(chars@, i as int, old(text)@, old(raw)@) == single_scan(chars@, k as int, text@, raw@),
        decreases n - k,
    {
        let c = chars[k];
        raw.push(c);
        if c == '\'' {
            return k + 1;
        }
        text.push(c);
        k = k + 1;
    }
    k
}

/// Reads a double-quoted string from `i` (after the opening quote) into the word.
fn scan_double(chars: &[char], i: usize, text: &mut Vec<char>, raw: &mut Vec<char>) -> (j: usize)
    requires
        i <= chars@.len(),
    ensures
        (final(text)@, final(raw)@, j as int) == double_scan(chars@, i as int, old(text)@, old(raw)@),
        i <= j <= chars@.len(),
{
    let n = chars.len();
    let mut k = i;
    while k < n
        invariant
            n == chars@.len(),
            i <= k <= n,
            double_scan(chars@, i as int, old(text)@, old(raw)@) == double_scan(chars@, k as int, text@, raw@),
        decreases n - k,
    {
        let c = chars[k];
        raw.push(c);
        if c == '"' {
            return k + 1;
        }
        if c == '\\' && k + 1 < n {
            k = k + 1;
            raw.push(chars[k]);
            text.push(chars[k]);
            k = k + 1;
        } else if c == '$' && k + 1 < n && chars[k + 1] == '(' {
            let (sub, next) = read_command_substitution(chars, k);
            proof {
                lemma_subst_scan_forward(chars@, k + 2, 1, seq!['$', '(']);
            }
            let ghost raw_before = raw@;
            let mut m: usize = 1;
            while m < sub.len()
                invariant
                    1 <= m <= sub@.len(),
                    sub@.len() >= 2,
                    raw@ == raw_before + sub@.subrange(1, m as int),
                decreases sub@.len() - m,
            {
                raw.push(sub[m]);
                m = m + 1;
                assert(raw@ =~= raw_before + sub@.subrange(1, m as int));
            }
            assert(sub@.subrange(1, sub@.len() as int) =~= sub@.drop_first());
            append_chars(text, sub.as_slice());
            k = next;
        } else {
            text.push(c);
            k = k + 1;
        }
    }
    k
}

/// The index of the first newline at or after `i`, or the length.
fn skip_to_line_end(chars: &[char], i: usize) -> (j: usize)
    requires
        i <= chars@.len(),
    ensures
        j as int == line_end(chars@, i as int),
        i <= j <= chars@.len(),
{
    let n = chars.len();
    let mut k = i;
    while k < n && chars[k] != '\n'
        invariant
            n == chars@.len(),
            i <= k <= n,
            line_end(chars@, i as int) == line_end(chars@, k as int),
        decreases n - k,
    {
        k = k + 1;
    }
    k
}

/// Splits pasted text into words and operators.
pub fn tokenize(input: &str) -> (r: Vec<ShellToken>)
    ensures
        r.deep_view() == lex(input@),
{
    let chars = chars_of(input);
    let n = chars.len();
    let mut tokens: Vec<ShellToken> = Vec::new();
    let mut text: Vec<char> = Vec::new();
    let mut raw: Vec<char> = Vec::new();
    let mut single = false;
    let mut i: usize = 0;
    assert(tokens@.map_values(|t: ShellToken| t.deep_view()) =~= Seq::<Tok>::empty());
    assert(state_of(tokens@, text@, raw@, single) =~= lex_start());
    while i < n
        invariant
            n == chars@.len(),
            chars@ == input@,
            i <= n,
            lex(input@) == lex_from(chars@, i as int, state_of(tokens@, text@, raw@, single)),
        decreases n - i,
    {
        let ghost st = state_of(tokens@, text@, raw@, single);
        let ghost i0 = i;
        let c = chars[i];
        if c == '\n' || c == ';' {
            push_word(&mut tokens, &mut text, &mut raw, &mut single);
            let op = vec![';'];
            assert(op@ =~= seq![';']);
            push_op(&mut tokens, op);
            i = i + 1;
            assert(lex_from(chars@, i0 as int, st) == lex_from(chars@, i0 + 1, with_op(flush(st), seq![';'])));
            assert(lex_from(chars@, i0 as int, st) == lex_from(chars@, i as int, state_of(tokens@, text@, raw@, single)));
        } else if is_whitespace(c) {
            push_word(&mut tokens, &mut text, &mut raw, &mut single);
            i = i + 1;
            assert(lex_from(chars@, i0 as int, st) == lex_from(chars@, i as int, state_of(tokens@, text@, raw@, single)));
        } else if c == '#' && text.len() == 0 && raw.len() == 0 {
            i = skip_to_line_end(&chars, i + 1);
            assert(lex_from(chars@, i0 as int, st) == lex_from(chars@, i as int, state_of(tokens@, text@, raw@, single)));
        } else if c == '\'' {
            raw.push(c);
            single = true;
            i = scan_single(&chars, i + 1, &mut text, &mut raw);
            assert(lex_from(chars@, i0 as int, st) == lex_from(chars@, i as int, state_of(tokens@, text@, raw@, single)));
        } else if c == '"' {
            raw.push(c);
            i = scan_double(&chars, i + 1, &mut text, &mut raw);
            assert(lex_from(chars@, i0 as int, st) == lex_from(chars@, i as int, state_of(tokens@, text@, raw@, single)));
        } else if c == '\\' {
            raw.push(c);
            if i + 1 < n {
                i = i + 1;
                raw.push(chars[i]);
                text.push(chars[i]);
            }
            i = i + 1;
            assert(lex_from(chars@, i0 as int, st) == lex_from(chars@, i as int, state_of(tokens@, text@, raw@, single)));
        } else if c == '$' && i + 1 < n && chars[i + 1] == '(' {
            let (sub, next) = read_command_substitution(&chars, i);
            proof {
                lemma_subst_scan_forward(chars@, i + 2, 1, seq!['$', '(']);
            }
            append_chars(&mut raw, sub.as_slice());
            append_chars(&mut text, sub.as_slice());
            i = next;
            assert(lex_from(chars@, i0 as int, st) == lex_from(chars@, i as int, state_of(tokens@, text@, raw@, single)));
        } else if c == '&' && i + 1 < n && chars[i + 1] == '&' {
            push_word(&mut tokens, &mut text, &mut raw, &mut single);
            let op = vec!['&', '&'];
            assert(op@ =~= seq!['&', '&']);
            push_op(&mut tokens, op);
            i = i + 2;
            assert(lex_from(chars@, i0 as int, st) == lex_from(chars@, i as int, state_of(tokens@, text@, raw@, single)));
        } else if c == '|' && i + 1 < n && chars[i + 1] == '|' {
            push_word(&mut tokens, &mut text, &mut raw, &mut single);
            let op = vec!['|', '|'];
            assert(op@ =~= seq!['|', '|']);
            push_op(&mut tokens, op);
            i = i + 2;
            assert(lex_from(chars@, i0 as int, st) == lex_from(chars@, i as int, state_of(tokens@, text@, raw@, single)));
        } else if c == '|' {
            push_word(&mut tokens, &mut text, &mut raw, &mut single);
            let op = vec!['|'];
            assert(op@ =~= seq!['|']);
            push_op(&mut tokens, op);
            i = i + 1;
            assert(lex_from(chars@, i0 as int, st) == lex_from(chars@, i as int, state_of(tokens@, text@, raw@, single)));
        } else if c == '>' || c == '<' {
            push_word(&mut tokens, &mut text, &mut raw, &mut single);
            if i + 1 < n && chars[i + 1] == c {
                let op = vec![c, c];
                assert(op@ =~= seq![c, c]);
                push_op(&mut tokens, op);
                i = i + 2;
            } else {
                let op = vec![c];
                assert(op@ =~= seq![c]);
                push_op(&mut tokens, op);
                i = i + 1;
            }
            assert(lex_from(chars@, i0 as int, st) == lex_from(chars@, i as int, state_of(tokens@, text@, raw@, single)));
        } else if '0' <= c && c <= '9' && text.len() == 0 && i + 1 < n && chars[i + 1] == '>' {
            if i + 2 < n && chars[i + 2] == '>' {
                let op = vec![c, '>', '>'];
                assert(op@ =~= seq![c, '>', '>']);
                push_op(&mut tokens, op);
                i = i + 3;
            } else {
                let op = vec![c, '>'];
                assert(op@ =~= seq![c, '>']);
                push_op(&mut tokens, op);
                i = i + 2;
            }
            assert(lex_from(chars@, i0 as int, st) == lex_from(chars@, i as int, state_of(tokens@, text@, raw@, single)));
        } else {
            text.push(c);
            raw.push(c);
            i = i + 1;
            assert(lex_from(chars@, i0 as int, st) == lex_from(chars@, i as int, state_of(tokens@, text@, raw@, single)));
        }
    }
    push_word(&mut tokens, &mut text, &mut raw, &mut single);
    assert(tokens@.map_values(|t: ShellToken| t.deep_view()) =~= tokens.deep_view());
    tokens
}


/// A copy of a token.
pub fn copy_token(t: &ShellToken) -> (r: ShellToken)
    ensures
        r.deep_view() == t.deep_view(),
{
    match t {
        ShellToken::Word(w) => ShellToken::Word(
            WordToken { text: copy_chars(&w.text), raw: copy_chars(&w.raw), expandable: w.expandable },
        ),
        ShellToken::Op(op) => ShellToken::Op(copy_chars(op)),
    }
}

/// Whether a token is the operator `op`.
pub open spec fn is_op(t: Tok, op: Seq<char>) -> bool {
    t matches Tok::Op(o) && o == op
}

/// Whether a token ends a pipeline (`;`, `&&` or `||`).
pub open spec fn is_list_sep(t: Tok) -> bool {
    is_op(t, seq![';']) || is_op(t, seq!['&', '&']) || is_op(t, seq!['|', '|'])
}

/// Adds the pending command to a pipeline, when it has tokens.
pub open spec fn close_command(pipeline: Seq<Seq<Tok>>, command: Seq<Tok>) -> Seq<Seq<Tok>> {
    if command.len() > 0 {
        pipeline.push(command)
    } else {
        pipeline
    }
}

/// Adds a pipeline to the list, when it has commands.
pub open spec fn close_pipeline(pipelines: Seq<Seq<Seq<Tok>>>, pipeline: Seq<Seq<Tok>>) -> Seq<Seq<Seq<Tok>>> {
    if pipeline.len() > 0 {
        pipelines.push(pipeline)
    } else {
        pipelines
    }
}

/// Groups tokens from `i` on into pipelines of commands.
pub open spec fn split_from(
    toks: Seq<Tok>,
    i: int,
    pipelines: Seq<Seq<Seq<Tok>>>,
    pipeline: Seq<Seq<Tok>>,
    command: Seq<Tok>,
) -> Seq<Seq<Seq<Tok>>>
    decreases toks.len() - i,
{
    if i < 0 || i >= toks.len() {
        close_pipeline(pipelines, close_command(pipeline, command))
    } else if is_op(toks[i], seq!['|']) {
        split_from(toks, i + 1, pipelines, close_command(pipeline, command), Seq::empty())
    } else if is_list_sep(toks[i]) {
        split_from(
            toks,
            i + 1,
            close_pipeline(pipelines, close_command(pipeline, command)),
            Seq::empty(),
            Seq::empty(),
        )
    } else {
        split_from(toks, i + 1, pipelines, pipeline, command.push(toks[i]))
    }
}

/// The pipelines (lists of commands, each a list of tokens) of a token list.
pub open spec fn pipelines_of(toks: Seq<Tok>) -> Seq<Seq<Seq<Tok>>> {
    split_from(toks, 0, Seq::empty(), Seq::empty(), Seq::empty())
}

/// Whether a token separates commands or pipelines (`|`, `;`, `&&`, `||`).
pub open spec fn is_separator(t: Tok) -> bool {
    is_op(t, seq!['|']) || is_list_sep(t)
}

/// The tokens that are not separators, in order.
pub open spec fn kept_tokens(toks: Seq<Tok>) -> Seq<Tok>
    decreases toks.len(),
{
    if toks.len() == 0 {
        Seq::empty()
    } else {
        (if is_separator(toks[0]) {
            Seq::empty()
        } else {
            seq![toks[0]]
        }) + kept_tokens(toks.drop_first())
    }
}

/// The tokens of the commands of a pipeline, one after the other.
pub open spec fn pipeline_tokens(pl: Seq<Seq<Tok>>) -> Seq<Tok>
    decreases pl.len(),
{
    if pl.len() == 0 {
        Seq::empty()
    } else {
        pipeline_tokens(pl.drop_last()) + pl.last()
    }
}

/// The tokens of all pipelines, one after the other.
pub open spec fn all_tokens(pls: Seq<Seq<Seq<Tok>>>) -> Seq<Tok>
    decreases pls.len(),
{
    if pls.len() == 0 {
        Seq::empty()
    } else {
        all_tokens(pls.drop_last()) + pipeline_tokens(pls.last())
    }
}

/// Whether no command of a pipeline is empty.
pub open spec fn commands_nonempty(pl: Seq<Seq<Tok>>) -> bool {
    forall|j: int| 0 <= j < pl.len() ==> (#[trigger] pl[j]).len() > 0
}

/// Whether no pipeline, and no command in one, is empty.
pub open spec fn pipelines_nonempty(pls: Seq<Seq<Seq<Tok>>>) -> bool {
    forall|k: int| 0 <= k < pls.len() ==> (#[trigger] pls[k]).len() > 0 && commands_nonempty(pls[k])
}

proof fn lemma_split_from(
    toks: Seq<Tok>,
    i: int,
    pls: Seq<Seq<Seq<Tok>>>,
    pl: Seq<Seq<Tok>>,
    command: Seq<Tok>,
)
    requires
        0 <= i <= toks.len(),
        pipelines_nonempty(pls),
        commands_nonempty(pl),
    ensures
        pipelines_nonempty(split_from(toks, i, pls, pl, command)),
        all_tokens(split_from(toks, i, pls, pl, command)) == all_tokens(pls) + pipeline_tokens(pl) + command
            + kept_tokens(toks.subrange(i, toks.len() as int)),
    decreases toks.len() - i,
{
    let n = toks.len() as int;
    let rest = toks.subrange(i, n);
    let pl1 = close_command(pl, command);
    assert(commands_nonempty(pl1)) by {
        if command.len() > 0 {
            assert forall|j: int| 0 <= j < pl1.len() implies (#[trigger] pl1[j]).len() > 0 by {
                if j < pl.len() {
                    assert(pl1[j] == pl[j]);
                }
            }
        }
    }
    assert(pipeline_tokens(pl1) == pipeline_tokens(pl) + command) by {
        if command.len() > 0 {
            assert(pl.push(command).drop_last() =~= pl);
        } else {
            assert(pipeline_tokens(pl) + command =~= pipeline_tokens(pl));
        }
    }
    let pls1 = close_pipeline(pls, pl1);
    assert(pipelines_nonempty(pls1)) by {
        if pl1.len() > 0 {
            assert forall|k: int| 0 <= k < pls1.len() implies (#[trigger] pls1[k]).len() > 0 && commands_nonempty(
                pls1[k],
            ) by {
                if k < pls.len() {
                    assert(pls1[k] == pls[k]);
                }
            }
        }
    }
    assert(all_tokens(pls1) == all_tokens(pls) + pipeline_tokens(pl1)) by {
        if pl1.len() > 0 {
            assert(pls.push(pl1).drop_last() =~= pls);
        } else {
            assert(pipeline_tokens(pl1) =~= Seq::<Tok>::empty());
            assert(all_tokens(pls) + pipeline_tokens(pl1) =~= all_tokens(pls));
        }
    }
    let empty_pl = Seq::<Seq<Tok>>::empty();
    let empty_c = Seq::<Tok>::empty();
    assert(pipeline_tokens(empty_pl) == empty_c);
    if i == n {
        assert(rest =~= empty_c);
        assert(all_tokens(pls1) =~= all_tokens(pls) + pipeline_tokens(pl) + command + kept_tokens(rest));
    } else {
        assert(rest[0] == toks[i]);
        assert(rest.drop_first() =~= toks.subrange(i + 1, n));
        let kr = kept_tokens(toks.subrange(i + 1, n));
        if is_op(toks[i], seq!['|']) {
            lemma_split_from(toks, i + 1, pls, pl1, empty_c);
            assert(kept_tokens(rest) =~= kr);
            assert(all_tokens(pls) + pipeline_tokens(pl1) + empty_c + kr =~= all_tokens(pls) + pipeline_tokens(
                pl,
            ) + command + kept_tokens(rest));
        } else if is_list_sep(toks[i]) {
            lemma_split_from(toks, i + 1, pls1, empty_pl, empty_c);
            assert(kept_tokens(rest) =~= kr);
            assert(all_tokens(pls1) + pipeline_tokens(empty_pl) + empty_c + kr =~= all_tokens(pls)
                + pipeline_tokens(pl) + command + kept_tokens(rest));
        } else {
            lemma_split_from(toks, i + 1, pls, pl, command.push(toks[i]));
            assert(kept_tokens(rest) =~= seq![toks[i]] + kr);
            assert(all_tokens(pls) + pipeline_tokens(pl) + command.push(toks[i]) + kr =~= all_tokens(pls)
                + pipeline_tokens(pl) + command + kept_tokens(rest));
        }
    }
}

/// Splitting tokens into pipelines loses and adds nothing but the
/// separators: no pipeline and no command is empty, and the commands' tokens,
/// one after the other, are the tokens other than `|`, `;`, `&&` and `||`.
pub proof fn pipelines_partition_tokens(toks: Seq<Tok>)
    ensures
        pipelines_nonempty(pipelines_of(toks)),
        all_tokens(pipelines_of(toks)) == kept_tokens(toks),
{
    let e = Seq::<Seq<Seq<Tok>>>::empty();
    lemma_split_from(toks, 0, e, Seq::empty(), Seq::empty());
    assert(toks.subrange(0, toks.len() as int) =~= toks);
    assert(all_tokens(e) + pipeline_tokens(Seq::<Seq<Tok>>::empty()) + Seq::<Tok>::empty() + kept_tokens(toks)
        =~= kept_tokens(toks));
}

/// Whether an operator token is `op`.
fn op_is(t: &ShellToken, op: &[char]) -> (r: bool)
    ensures
        r == is_op(t.deep_view(), op@),
{
    match t {
        ShellToken::Op(o) => crate::text::chars_eq(o, op),
        ShellToken::Word(_) => false,
    }
}

/// Moves the pending command into the pipeline, when it has tokens.
fn close_command_exec(pipeline: &mut Vec<Vec<ShellToken>>, command: &mut Vec<ShellToken>)
    ensures
        final(pipeline).deep_view() == close_command(old(pipeline).deep_view(), old(command).deep_view()),
        final(command).deep_view() == Seq::<Tok>::empty(),
{
    if command.len() > 0 {
        let mut c: Vec<ShellToken> = Vec::new();
        std::mem::swap(&mut c, command);
        pipeline.push(c);
        assert(final(pipeline).deep_view() =~= old(pipeline).deep_view().push(old(command).deep_view()));
    }
    assert(command.deep_view() =~= Seq::<Tok>::empty());
}

/// Moves the pending pipeline into the list, when it has commands.
fn close_pipeline_exec(pipelines: &mut Vec<Vec<Vec<ShellToken>>>, pipeline: &mut Vec<Vec<ShellToken>>)
    ensures
        final(pipelines).deep_view() == close_pipeline(old(pipelines).deep_view(), old(pipeline).deep_view()),
        final(pipeline).deep_view() == Seq::<Seq<Tok>>::empty(),
{
    if pipeline.len() > 0 {
        let mut p: Vec<Vec<ShellToken>> = Vec::new();
        std::mem::swap(&mut p, pipeline);
        pipelines.push(p);
        assert(final(pipelines).deep_view() =~= old(pipelines).deep_view().push(old(pipeline).deep_view()));
    }
    assert(pipeline.deep_view() =~= Seq::<Seq<Tok>>::empty());
}

/// Splits tokens into pipelines at `;`, `&&` and `||`, and pipelines into commands at `|`.
pub fn split_pipelines(tokens: &[ShellToken]) -> (r: Vec<Vec<Vec<ShellToken>>>)
    ensures
        r.deep_view() == pipelines_of(tokens@.map_values(|t: ShellToken| t.deep_view())),
{
    let ghost toks = tokens@.map_values(|t: ShellToken| t.deep_view());
    let mut pipelines: Vec<Vec<Vec<ShellToken>>> = Vec::new();
    let mut pipeline: Vec<Vec<ShellToken>> = Vec::new();
    let mut command: Vec<ShellToken> = Vec::new();
    let bar = vec!['|'];
    let semi = vec![';'];
    let and = vec!['&', '&'];
    let or = vec!['|', '|'];
    assert(bar@ =~= seq!['|']);
    assert(semi@ =~= seq![';']);
    assert(and@ =~= seq!['&', '&']);
    assert(or@ =~= seq!['|', '|']);
    let mut i: usize = 0;
    assert(pipelines.deep_view() =~= Seq::<Seq<Seq<Tok>>>::empty());
    assert(pipeline.deep_view() =~= Seq::<Seq<Tok>>::empty());
    assert(command.deep_view() =~= Seq::<Tok>::empty());
    while i < tokens.len()
        invariant
            i <= tokens@.len(),
            toks == tokens@.map_values(|t: ShellToken| t.deep_view()),
            bar@ == seq!['|'],
            semi@ == seq![';'],
            and@ == seq!['&', '&'],
            or@ == seq!['|', '|'],
            pipelines_of(toks) == split_from(
                toks,
                i as int,
                pipelines.deep_view(),
                pipeline.deep_view(),
                command.deep_view(),
            ),
        decreases tokens@.len() - i,
    {
        let t = &tokens[i];
        if op_is(t, &bar) {
            close_command_exec(&mut pipeline, &mut command);
        } else if op_is(t, &semi) || op_is(t, &and) || op_is(t, &or) {
            close_command_exec(&mut pipeline, &mut command);
            close_pipeline_exec(&mut pipelines, &mut pipeline);
        } else {
            let ghost before = command.deep_view();
            command.push(copy_token(t));
            assert(command.deep_view() =~= before.push(toks[i as int]));
        }
        i = i + 1;
    }
    close_command_exec(&mut pipeline, &mut command);
    close_pipeline_exec(&mut pipelines, &mut pipeline);
    pipelines
}


/// A redirection: the operator and its (expanded) target.
pub struct Redirect {
    pub op: Vec<char>,
    pub target: Vec<char>,
}

/// The mathematical value of a redirection.
pub struct RedirectView {
    pub op: Seq<char>,
    pub target: Seq<char>,
}

impl DeepView for Redirect {
    type V = RedirectView;

    open spec fn deep_view(&self) -> RedirectView {
        RedirectView { op: self.op@, target: self.target@ }
    }
}

/// A simple command after variable expansion: name, arguments, the raw
/// spelling of its words, and its redirections.
pub struct SimpleCommand {
    pub name: Vec<char>,
    pub args: Vec<Vec<char>>,
    pub raw_words: Vec<Vec<char>>,
    pub redirects: Vec<Redirect>,
}

/// The mathematical value of a simple command.
pub struct CommandView {
    pub name: Seq<char>,
    pub args: Seq<Seq<char>>,
    pub raw_words: Seq<Seq<char>>,
    pub redirects: Seq<RedirectView>,
}

impl DeepView for SimpleCommand {
    type V = CommandView;

    open spec fn deep_view(&self) -> CommandView {
        CommandView {
            name: self.name@,
            args: self.args.deep_view(),
            raw_words: self.raw_words.deep_view(),
            redirects: self.redirects.deep_view(),
        }
    }
}

/// The value bound to `key` by the latest binding, if any.
pub open spec fn lookup(binds: Seq<(Seq<char>, Seq<char>)>, key: Seq<char>) -> Option<Seq<char>>
    decreases binds.len(),
{
    if binds.len() == 0 {
        None
    } else if binds.last().0 == key {
        Some(binds.last().1)
    } else {
        lookup(binds.drop_last(), key)
    }
}

/// The value bound to `key` by the latest binding, if any.
pub fn lookup_binding(binds: &Vec<(Vec<char>, Vec<char>)>, key: &[char]) -> (r: Option<Vec<char>>)
    ensures
        r.deep_view() == lookup(binds.deep_view(), key@),
{
    let mut i = binds.len();
    assert(binds.deep_view().take(i as int) =~= binds.deep_view());
    while i > 0
        invariant
            i <= binds@.len(),
            lookup(binds.deep_view(), key@) == lookup(binds.deep_view().take(i as int), key@),
        decreases i,
    {
        let ghost t = binds.deep_view().take(i as int);
        assert(t.drop_last() =~= binds.deep_view().take(i - 1));
        assert(t.last() == (binds@[i - 1].0@, binds@[i - 1].1@));
        if crate::text::chars_eq(&binds[i - 1].0, key) {
            return Some(copy_chars(&binds[i - 1].1));
        }
        i = i - 1;
    }
    None
}

/// Whether an operator redirects input or output.
pub open spec fn is_redirect(op: Seq<char>) -> bool {
    ||| op == seq!['>']
    ||| op == seq!['>', '>']
    ||| op == seq!['<']
    ||| op == seq!['<', '<']
    ||| op == seq!['2', '>']
    ||| op == seq!['2', '>', '>']
    ||| op == seq!['1', '>']
    ||| op == seq!['1', '>', '>']
}

/// Whether an operator redirects input or output.
pub fn is_redirect_op(op: &[char]) -> (r: bool)
    ensures
        r == is_redirect(op@),
{
    let n = op.len();
    let r = if n == 1 {
        op[0] == '>' || op[0] == '<'
    } else if n == 2 {
        (op[0] == '>' && op[1] == '>') || (op[0] == '<' && op[1] == '<') || ((op[0] == '1'
            || op[0] == '2') && op[1] == '>')
    } else if n == 3 {
        (op[0] == '1' || op[0] == '2') && op[1] == '>' && op[2] == '>'
    } else {
        false
    };
    proof {
        if n == 1 {
            assert(op@ == seq![op@[0]]);
        } else if n == 2 {
            assert(op@ == seq![op@[0], op@[1]]);
        } else if n == 3 {
            assert(op@ == seq![op@[0], op@[1], op@[2]]);
        }
    }
    r
}

/// Characters that may appear in a variable name after `$`.
pub open spec fn is_name_char(c: char) -> bool {
    is_alnum(c) || c == '_'
}

/// The first index at or after `j` that holds `}`, or the length.
pub open spec fn brace_end(chars: Seq<char>, j: int) -> int
    decreases chars.len() - j,
{
    if j < 0 || j >= chars.len() || chars[j] == '}' {
        j
    } else {
        brace_end(chars, j + 1)
    }
}

/// The first index at or after `j` that does not hold a name character, or the length.
pub open spec fn name_end(chars: Seq<char>, j: int) -> int
    decreases chars.len() - j,
{
    if j < 0 || j >= chars.len() || !is_name_char(chars[j]) {
        j
    } else {
        name_end(chars, j + 1)
    }
}

/// The scans above stay between their start and the length.
pub proof fn lemma_scan_bounds(chars: Seq<char>, j: int)
    requires
        0 <= j <= chars.len(),
    ensures
        j <= brace_end(chars, j) <= chars.len(),
        j <= name_end(chars, j) <= chars.len(),
    decreases chars.len() - j,
{
    if j < chars.len() {
        lemma_scan_bounds(chars, j + 1);
    }
}

/// `$name` and `${name}` expansion of `chars` from `i` on, after `out` was produced.
pub open spec fn expand_from(
    chars: Seq<char>,
    i: int,
    vars: Seq<(Seq<char>, Seq<char>)>,
    out: Seq<char>,
) -> Seq<char>
    decreases chars.len() - i,
{
    if i < 0 || i >= chars.len() {
        out
    } else if chars[i] != '$' {
        expand_from(chars, i + 1, vars, out.push(chars[i]))
    } else if i + 1 < chars.len() && chars[i + 1] == '{' && brace_end(chars, i + 2) < chars.len() {
        let j = brace_end(chars, i + 2);
        let key = chars.subrange(i + 2, j);
        let out2 = match lookup(vars, key) {
            Some(v) => out + v,
            None => out + seq!['$', '{'] + key + seq!['}'],
        };
        if i < j + 1 {
            expand_from(chars, j + 1, vars, out2)
        } else {
            out2
        }
    } else {
        let j = name_end(chars, i + 1);
        if j == i + 1 {
            expand_from(chars, i + 1, vars, out.push('$'))
        } else {
            let key = chars.subrange(i + 1, j);
            let out2 = match lookup(vars, key) {
                Some(v) => out + v,
                None => out.push('$') + key,
            };
            if i < j <= chars.len() {
                expand_from(chars, j, vars, out2)
            } else {
                out2
            }
        }
    }
}

/// `$name` and `${name}` expansion with the given bindings; unbound names stay as written.
pub open spec fn expand(chars: Seq<char>, vars: Seq<(Seq<char>, Seq<char>)>) -> Seq<char> {
    expand_from(chars, 0, vars, Seq::empty())
}

/// Inside the text, the brace scan stops on a closing brace.
proof fn lemma_brace_end_closes(chars: Seq<char>, j: int)
    requires
        0 <= j,
    ensures
        brace_end(chars, j) < chars.len() ==> chars[brace_end(chars, j)] == '}',
    decreases chars.len() - j,
{
    if j < chars.len() && chars[j] != '}' {
        lemma_brace_end_closes(chars, j + 1);
    }
}

/// Without bindings, the rest of the text is copied as it is.
proof fn lemma_expand_unbound(chars: Seq<char>, i: int, out: Seq<char>)
    requires
        0 <= i <= chars.len(),
    ensures
        expand_from(chars, i, Seq::empty(), out) == out + chars.subrange(i, chars.len() as int),
    decreases chars.len() - i,
{
    let n = chars.len() as int;
    let none = Seq::<(Seq<char>, Seq<char>)>::empty();
    if i == n {
        assert(out + chars.subrange(i, n) =~= out);
    } else if chars[i] != '$' {
        lemma_expand_unbound(chars, i + 1, out.push(chars[i]));
        assert(out.push(chars[i]) + chars.subrange(i + 1, n) =~= out + chars.subrange(i, n));
    } else if i + 1 < n && chars[i + 1] == '{' && brace_end(chars, i + 2) < n {
        let j = brace_end(chars, i + 2);
        lemma_scan_bounds(chars, i + 2);
        lemma_brace_end_closes(chars, i + 2);
        let key = chars.subrange(i + 2, j);
        assert(lookup(none, key) is None);
        let out2 = out + seq!['$', '{'] + key + seq!['}'];
        lemma_expand_unbound(chars, j + 1, out2);
        assert(out2 + chars.subrange(j + 1, n) =~= out + chars.subrange(i, n));
    } else {
        let j = name_end(chars, i + 1);
        lemma_scan_bounds(chars, i + 1);
        if j == i + 1 {
            lemma_expand_unbound(chars, i + 1, out.push('$'));
            assert(out.push('$') + chars.subrange(i + 1, n) =~= out + chars.subrange(i, n));
        } else {
            let key = chars.subrange(i + 1, j);
            assert(lookup(none, key) is None);
            let out2 = out.push('$') + key;
            lemma_expand_unbound(chars, j, out2);
            assert(out2 + chars.subrange(j, n) =~= out + chars.subrange(i, n));
        }
    }
}

/// Variables without a binding are kept as written: with no bindings,
/// expansion gives back the text unchanged.
pub proof fn expansion_without_bindings_keeps_text(chars: Seq<char>)
    ensures
        expand(chars, Seq::empty()) == chars,
{
    lemma_expand_unbound(chars, 0, Seq::empty());
    assert(Seq::<char>::empty() + chars.subrange(0, chars.len() as int) =~= chars);
}

/// Text without `$` from index `i` on is copied as it is.
proof fn lemma_expand_plain(chars: Seq<char>, i: int, vars: Seq<(Seq<char>, Seq<char>)>, out: Seq<char>)
    requires
        0 <= i <= chars.len(),
        !chars.contains('$'),
    ensures
        expand_from(chars, i, vars, out) == out + chars.subrange(i, chars.len() as int),
    decreases chars.len() - i,
{
    let n = chars.len() as int;
    if i == n {
        assert(out + chars.subrange(i, n) =~= out);
    } else {
        assert(chars[i] != '$');
        lemma_expand_plain(chars, i + 1, vars, out.push(chars[i]));
        assert(out.push(chars[i]) + chars.subrange(i + 1, n) =~= out + chars.subrange(i, n));
    }
}

/// Text without `$` is unchanged by expansion, whatever the bindings.
pub proof fn expansion_keeps_text_without_dollar(chars: Seq<char>, vars: Seq<(Seq<char>, Seq<char>)>)
    requires
        !chars.contains('$'),
    ensures
        expand(chars, vars) == chars,
{
    lemma_expand_plain(chars, 0, vars, Seq::empty());
    assert(Seq::<char>::empty() + chars.subrange(0, chars.len() as int) =~= chars);
}

/// The slice `chars[from..to]` as a vector.
pub fn slice_chars(chars: &[char], from: usize, to: usize) -> (r: Vec<char>)
    requires
        from <= to <= chars@.len(),
    ensures
        r@ == chars@.subrange(from as int, to as int),
{
    let mut out: Vec<char> = Vec::new();
    let mut k = from;
    while k < to
        invariant
            from <= k <= to,
            to <= chars@.len(),
            out@ == chars@.subrange(from as int, k as int),
        decreases to - k,
    {
        out.push(chars[k]);
        k = k + 1;
        assert(out@ =~= chars@.subrange(from as int, k as int));
    }
    out
}

/// Expands `$name` and `${name}` with the given bindings.
pub fn expand_vars(input: &[char], vars: &Vec<(Vec<char>, Vec<char>)>) -> (r: Vec<char>)
    ensures
        r@ == expand(input@, vars.deep_view()),
{
    let n = input.len();
    let mut out: Vec<char> = Vec::new();
    let mut i: usize = 0;
    while i < n
        invariant
            n == input@.len(),
            i <= n,
            expand(input@, vars.deep_view()) == expand_from(input@, i as int, vars.deep_view(), out@),
        decreases n - i,
    {
        if input[i] != '$' {
            out.push(input[i]);
            i = i + 1;
            continue;
        }
        if i + 1 < n && input[i + 1] == '{' {
            proof {
                lemma_scan_bounds(input@, i + 2);
            }
            let mut j = i + 2;
            while j < n && input[j] != '}'
                invariant
                    i + 2 <= j <= n,
                    n == input@.len(),
                    brace_end(input@, i + 2) == brace_end(input@, j as int),
                decreases n - j,
            {
                j = j + 1;
            }
            if j < n {
                let ghost out0 = out@;
                assert(brace_end(input@, i + 2) == j);
                let key = slice_chars(input, i + 2, j);
                match lookup_binding(vars, &key) {
                    Some(v) => {
                        crate::text::append_chars(&mut out, &v);
                        assert(out@ == out0 + v@);
                        assert(lookup(vars.deep_view(), key@) == Some(v@));
                    },
                    None => {
                        assert(lookup(vars.deep_view(), key@) is None);
                        out.push('$');
                        out.push('{');
                        crate::text::append_chars(&mut out, &key);
                        out.push('}');
                        assert(out@ =~= out0 + seq!['$', '{'] + key@ + seq!['}']);
                    },
                }
                assert(key@ == input@.subrange(i + 2, j as int));
                assert(expand_from(input@, i as int, vars.deep_view(), out0) == expand_from(input@, j + 1, vars.deep_view(), out@));
                i = j + 1;
                continue;
            }
        }
        proof {
            lemma_scan_bounds(input@, i + 1);
        }
        let mut j = i + 1;
        while j < n && is_ascii_alnum(input[j]) || j < n && input[j] == '_'
            invariant
                i + 1 <= j <= n,
                n == input@.len(),
                name_end(input@, i + 1) == name_end(input@, j as int),
            decreases n - j,
        {
            j = j + 1;
        }
        if j == i + 1 {
            out.push('$');
            i = i + 1;
            continue;
        }
        let ghost out0 = out@;
        assert(name_end(input@, i + 1) == j);
        let key = slice_chars(input, i + 1, j);
        match lookup_binding(vars, &key) {
            Some(v) => {
                crate::text::append_chars(&mut out, &v);
                assert(out@ == out0 + v@);
                assert(lookup(vars.deep_view(), key@) == Some(v@));
            },
            None => {
                assert(lookup(vars.deep_view(), key@) is None);
                out.push('$');
                crate::text::append_chars(&mut out, &key);
                assert(out@ =~= out0.push('$') + key@);
            },
        }
        assert(key@ == input@.subrange(i + 1, j as int));
        assert(expand_from(input@, i as int, vars.deep_view(), out0) == expand_from(input@, j as int, vars.deep_view(), out@));
        i = j;
    }
    out
}

/// The expanded text of a word: single-quoted words are not expanded.
pub open spec fn expand_word(text: Seq<char>, expandable: bool, vars: Seq<(Seq<char>, Seq<char>)>) -> Seq<char> {
    if expandable {
        expand(text, vars)
    } else {
        text
    }
}

/// The first index at or after `j` that holds `c`, or the length.
pub open spec fn char_index_from(s: Seq<char>, c: char, j: int) -> int
    decreases s.len() - j,
{
    if j < 0 || j >= s.len() || s[j] == c {
        j
    } else {
        char_index_from(s, c, j + 1)
    }
}

/// Whether `key` is a shell variable name.
pub open spec fn is_var_name(key: Seq<char>) -> bool {
    &&& key.len() > 0
    &&& (is_alpha(key[0]) || key[0] == '_')
    &&& forall|k: int| 1 <= k < key.len() ==> is_name_char(#[trigger] key[k])
}

/// `NAME=value` split at the first `=`, when NAME is a variable name.
pub open spec fn assignment(s: Seq<char>) -> Option<(Seq<char>, Seq<char>)> {
    let k = char_index_from(s, '=', 0);
    if k < s.len() && is_var_name(s.take(k)) {
        Some((s.take(k), s.skip(k + 1)))
    } else {
        None
    }
}

/// Splits `NAME=value` at the first `=`, when NAME is a variable name.
pub fn split_assignment(input: &[char]) -> (r: Option<(Vec<char>, Vec<char>)>)
    ensures
        r.deep_view() == assignment(input@),
{
    let n = input.len();
    let mut k: usize = 0;
    while k < n && input[k] != '='
        invariant
            k <= n,
            n == input@.len(),
            char_index_from(input@, '=', 0) == char_index_from(input@, '=', k as int),
        decreases n - k,
    {
        k = k + 1;
    }
    if k == n || k == 0 {
        return None;
    }
    if !(is_ascii_alpha(input[0]) || input[0] == '_') {
        return None;
    }
    let mut m: usize = 1;
    while m < k
        invariant
            1 <= m <= k,
            k < n,
            n == input@.len(),
            char_index_from(input@, '=', 0) == k as int,
            forall|q: int| 1 <= q < m ==> is_name_char(#[trigger] input@[q]),
        decreases k - m,
    {
        if !(is_ascii_alnum(input[m]) || input[m] == '_') {
            assert(!is_name_char(input@.take(k as int)[m as int]));
            return None;
        }
        m = m + 1;
    }
    assert(is_var_name(input@.take(k as int)));
    let key = slice_chars(input, 0, k);
    let value = slice_chars(input, k + 1, n);
    assert(key@ =~= input@.take(k as int));
    assert(value@ =~= input@.skip(k + 1));
    Some((key, value))
}

/// The index of the last `/` before `i`, or -1.
pub open spec fn last_slash_before(s: Seq<char>, i: int) -> int
    decreases i,
{
    if i <= 0 || i > s.len() {
        -1
    } else if s[i - 1] == '/' {
        i - 1
    } else {
        last_slash_before(s, i - 1)
    }
}

/// The basename of a command word, in ASCII lowercase.
pub open spec fn command_base(s: Seq<char>) -> Seq<char> {
    lower(s.skip(last_slash_before(s, s.len() as int) + 1))
}

/// The basename of a command word, in ASCII lowercase.
pub fn command_name(input: &[char]) -> (r: Vec<char>)
    ensures
        r@ == command_base(input@),
{
    let n = input.len();
    let mut i = n;
    while i > 0 && input[i - 1] != '/'
        invariant
            i <= n,
            n == input@.len(),
            last_slash_before(input@, n as int) == last_slash_before(input@, i as int),
        decreases i,
    {
        i = i - 1;
    }
    let base = slice_chars(input, i, n);
    assert(base@ =~= input@.skip(last_slash_before(input@, n as int) + 1));
    to_lower(&base)
}


/// Words, raw words and redirections of a command's tokens from `i` on.
pub open spec fn collect_from(
    toks: Seq<Tok>,
    i: int,
    vars: Seq<(Seq<char>, Seq<char>)>,
    words: Seq<Seq<char>>,
    raws: Seq<Seq<char>>,
    reds: Seq<RedirectView>,
) -> (Seq<Seq<char>>, Seq<Seq<char>>, Seq<RedirectView>)
    decreases toks.len() - i,
{
    if i < 0 || i >= toks.len() {
        (words, raws, reds)
    } else {
        match toks[i] {
            Tok::Op(op) => {
                if is_redirect(op) && i + 1 < toks.len() && toks[i + 1] is Word {
                    let target = match toks[i + 1] {
                        Tok::Word(t, _r, e) => expand_word(t, e, vars),
                        Tok::Op(o) => o,
                    };
                    collect_from(toks, i + 2, vars, words, raws, reds.push(RedirectView { op, target }))
                } else {
                    collect_from(toks, i + 1, vars, words, raws, reds)
                }
            },
            Tok::Word(t, r, e) => collect_from(
                toks,
                i + 1,
                vars,
                words.push(expand_word(t, e, vars)),
                raws.push(r),
                reds,
            ),
        }
    }
}

/// Leading `NAME=value` words become bindings and are removed.
pub open spec fn strip_assignments(
    words: Seq<Seq<char>>,
    raws: Seq<Seq<char>>,
    vars: Seq<(Seq<char>, Seq<char>)>,
) -> (Seq<Seq<char>>, Seq<Seq<char>>, Seq<(Seq<char>, Seq<char>)>)
    decreases words.len(),
{
    if words.len() == 0 {
        (words, raws, vars)
    } else {
        match assignment(words[0]) {
            Some(kv) => strip_assignments(words.drop_first(), raws.drop_first(), vars.push(kv)),
            None => (words, raws, vars),
        }
    }
}

/// The simple command of a command's tokens (none when only assignments were
/// written) and the bindings after its leading assignments.
pub open spec fn normalize(toks: Seq<Tok>, vars: Seq<(Seq<char>, Seq<char>)>) -> (
    Option<CommandView>,
    Seq<(Seq<char>, Seq<char>)>,
) {
    let (w, r, reds) = collect_from(toks, 0, vars, Seq::empty(), Seq::empty(), Seq::empty());
    let (w2, r2, vars2) = strip_assignments(w, r, vars);
    if w2.len() == 0 {
        (None, vars2)
    } else {
        (Some(CommandView { name: w2[0], args: w2.skip(1), raw_words: r2, redirects: reds }), vars2)
    }
}

/// The expanded text of a word.
fn expand_token_word(w: &WordToken, vars: &Vec<(Vec<char>, Vec<char>)>) -> (r: Vec<char>)
    ensures
        r@ == expand_word(w.text@, w.expandable, vars.deep_view()),
{
    if !w.expandable {
        copy_chars(&w.text)
    } else {
        expand_vars(&w.text, vars)
    }
}

/// The tail of a list of words from index `from`.
fn words_from(words: &Vec<Vec<char>>, from: usize) -> (r: Vec<Vec<char>>)
    requires
        from <= words@.len(),
    ensures
        r.deep_view() == words.deep_view().skip(from as int),
{
    let mut out: Vec<Vec<char>> = Vec::new();
    let mut k = from;
    while k < words.len()
        invariant
            from <= k <= words@.len(),
            out.deep_view() == words.deep_view().subrange(from as int, k as int),
        decreases words@.len() - k,
    {
        let w = copy_chars(&words[k]);
        let ghost before = out.deep_view();
        out.push(w);
        assert(out.deep_view() =~= before.push(words.deep_view()[k as int]));
        k = k + 1;
        assert(out.deep_view() =~= words.deep_view().subrange(from as int, k as int));
    }
    assert(words.deep_view().subrange(from as int, words@.len() as int) =~= words.deep_view().skip(
        from as int,
    ));
    out
}

/// Expands a command's words, collects its redirections, and turns leading
/// `NAME=value` words into bindings; none when nothing but assignments remain.
pub fn normalize_command(tokens: &[ShellToken], vars: &mut Vec<(Vec<char>, Vec<char>)>) -> (r: Option<SimpleCommand>)
    ensures
        (r.deep_view(), final(vars).deep_view()) == normalize(
            tokens@.map_values(|t: ShellToken| t.deep_view()),
            old(vars).deep_view(),
        ),
{
    let ghost toks = tokens@.map_values(|t: ShellToken| t.deep_view());
    let ghost vars0 = vars.deep_view();
    let mut words: Vec<Vec<char>> = Vec::new();
    let mut raws: Vec<Vec<char>> = Vec::new();
    let mut redirects: Vec<Redirect> = Vec::new();
    let n = tokens.len();
    let mut i: usize = 0;
    assert(words.deep_view() =~= Seq::<Seq<char>>::empty());
    assert(raws.deep_view() =~= Seq::<Seq<char>>::empty());
    assert(redirects.deep_view() =~= Seq::<RedirectView>::empty());
    while i < n
        invariant
            n == tokens@.len(),
            i <= n,
            toks == tokens@.map_values(|t: ShellToken| t.deep_view()),
            vars.deep_view() == vars0,
            words@.len() == raws@.len(),
            collect_from(toks, 0, vars0, Seq::empty(), Seq::empty(), Seq::empty()) == collect_from(
                toks,
                i as int,
                vars0,
                words.deep_view(),
                raws.deep_view(),
                redirects.deep_view(),
            ),
        decreases n - i,
    {
        match &tokens[i] {
            ShellToken::Op(op) => {
                let mut advanced = false;
                if is_redirect_op(op) && i + 1 < n {
                    match &tokens[i + 1] {
                        ShellToken::Word(target) => {
                            let t = expand_token_word(target, vars);
                            let ghost before = redirects.deep_view();
                            redirects.push(Redirect { op: copy_chars(op), target: t });
                            assert(redirects.deep_view() =~= before.push(
                                RedirectView { op: op@, target: t@ },
                            ));
                            i = i + 2;
                            advanced = true;
                        },
                        ShellToken::Op(_) => {},
                    }
                }
                if !advanced {
                    i = i + 1;
                }
            },
            ShellToken::Word(word) => {
                let ghost wb = words.deep_view();
                let ghost rb = raws.deep_view();
                let w = expand_token_word(word, vars);
                let r = copy_chars(&word.raw);
                assert(w@ == expand_word(word.text@, word.expandable, vars0));
                words.push(w);
                raws.push(r);
                assert(words.deep_view() =~= wb.push(expand_word(word.text@, word.expandable, vars0)));
                assert(raws.deep_view() =~= rb.push(word.raw@));
                i = i + 1;
            },
        }
    }
    assert(collect_from(toks, 0, vars0, Seq::empty(), Seq::empty(), Seq::empty()) == (
        words.deep_view(),
        raws.deep_view(),
        redirects.deep_view(),
    ));
    let mut start: usize = 0;
    assert(words.deep_view().skip(0) =~= words.deep_view());
    assert(raws.deep_view().skip(0) =~= raws.deep_view());
    while start < words.len()
        invariant
            start <= words@.len(),
            words@.len() == raws@.len(),
            strip_assignments(words.deep_view(), raws.deep_view(), vars0) == strip_assignments(
                words.deep_view().skip(start as int),
                raws.deep_view().skip(start as int),
                vars.deep_view(),
            ),
        ensures
            start <= words@.len(),
            strip_assignments(words.deep_view(), raws.deep_view(), vars0) == strip_assignments(
                words.deep_view().skip(start as int),
                raws.deep_view().skip(start as int),
                vars.deep_view(),
            ),
            start < words@.len() ==> strip_assignments(
                words.deep_view().skip(start as int),
                raws.deep_view().skip(start as int),
                vars.deep_view(),
            ) == (words.deep_view().skip(start as int), raws.deep_view().skip(start as int), vars.deep_view()),
        decreases words@.len() - start,
    {
        let ghost ws = words.deep_view().skip(start as int);
        assert(ws[0] == words@[start as int]@);
        match split_assignment(&words[start]) {
            Some(kv) => {
                let ghost vb = vars.deep_view();
                vars.push(kv);
                assert(vars.deep_view() =~= vb.push(kv.deep_view()));
                assert(ws.drop_first() =~= words.deep_view().skip(start + 1));
                assert(raws.deep_view().skip(start as int).drop_first() =~= raws.deep_view().skip(start + 1));
                start = start + 1;
            },
            None => {
                assert(strip_assignments(words.deep_view().skip(start as int), raws.deep_view().skip(start as int), vars.deep_view())
                    == (words.deep_view().skip(start as int), raws.deep_view().skip(start as int), vars.deep_view()));
                break;
            },
        }
    }
    if start == words.len() {
        assert(words.deep_view().skip(start as int).len() == 0);
        return None;
    }
    assert(strip_assignments(words.deep_view().skip(start as int), raws.deep_view().skip(start as int), vars.deep_view())
        == (words.deep_view().skip(start as int), raws.deep_view().skip(start as int), vars.deep_view()));
    let name = copy_chars(&words[start]);
    let args = words_from(&words, start + 1);
    let raw_words = words_from(&raws, start);
    assert(words.deep_view().skip(start as int).skip(1) =~= words.deep_view().skip(start + 1));
    Some(SimpleCommand { name, args, raw_words, redirects })
}

/// Command substitutions (their inner text) found in `chars` from `i` on.
pub open spec fn substs_from(chars: Seq<char>, i: int, out: Seq<Seq<char>>) -> Seq<Seq<char>>
    decreases chars.len() - i,
{
    if i < 0 || i + 1 >= chars.len() {
        out
    } else if chars[i] == '$' && chars[i + 1] == '(' {
        let (sub, next) = read_subst(chars, i);
        let out2 = if sub.len() >= 3 && sub.last() == ')' {
            out.push(sub.subrange(2, sub.len() - 1))
        } else {
            out
        };
        if i < next <= chars.len() {
            substs_from(chars, next, out2)
        } else {
            out2
        }
    } else {
        substs_from(chars, i + 1, out)
    }
}

/// The inner texts of the `$( ... )` substitutions of a text.
pub open spec fn command_substitutions(chars: Seq<char>) -> Seq<Seq<char>> {
    substs_from(chars, 0, Seq::empty())
}

/// The inner texts of the closed `$( ... )` substitutions of a text.
pub fn extract_command_substitutions(input: &[char]) -> (r: Vec<Vec<char>>)
    ensures
        r.deep_view() == command_substitutions(input@),
{
    let n = input.len();
    let mut out: Vec<Vec<char>> = Vec::new();
    let mut i: usize = 0;
    assert(out.deep_view() =~= Seq::<Seq<char>>::empty());
    while n > 0 && i < n - 1
        invariant
            n == input@.len(),
            i <= n,
            command_substitutions(input@) == substs_from(input@, i as int, out.deep_view()),
        decreases n - i,
    {
        if input[i] == '$' && input[i + 1] == '(' {
            let (sub, next) = read_command_substitution(input, i);
            proof {
                lemma_subst_scan_forward(input@, i + 2, 1, seq!['$', '(']);
            }
            if sub.len() >= 3 && sub[sub.len() - 1] == ')' {
                let inner = slice_chars(&sub, 2, sub.len() - 1);
                let ghost before = out.deep_view();
                let ghost iv = inner@;
                out.push(inner);
                assert(out.deep_view()[out@.len() - 1] == iv);
                assert(out.deep_view() =~= before.push(sub@.subrange(2, sub@.len() - 1)));
            }
            i = next;
        } else {
            i = i + 1;
        }
    }
    out
}

} // verus!
