//! The lexical scanner.
//!
//! `tokenize` is a total function from source text to an ordered token
//! sequence: it never fails, and input it does not recognize degrades to an
//! [`Token::Unknown`] token, deferring rejection to the parser. The scanner
//! makes a single left-to-right pass with two-character lookahead for the
//! assignment marker and a word of lookahead after `BEGIN` and `END`.
//!
//! The whole pass is specified by [`spec_tokenize`], a recursive function
//! over the source's character sequence, and `tokenize` is proved to return
//! exactly the tokens that specification names.
//!
//! A numeric token carries the decimal text written in the source. A run of
//! digits and dots denotes a number when it holds at most one dot; a run with
//! more dots than that becomes [`Token::Unknown`].

use vstd::prelude::*;
use vstd::string::StrSliceExecFns;
use vstd::string::StringExecFns;

use crate::chars::alpha_char;
use crate::chars::digit_char;
use crate::chars::is_alpha_char;
use crate::chars::is_digit_char;
use crate::chars::is_operator_char;
use crate::chars::is_whitespace_char;
use crate::chars::is_word_char;
use crate::chars::operator_char;
use crate::chars::whitespace_char;
use crate::chars::word_char;

verus! {

/// The smallest lexical unit of source text. Tokens are produced once by the
/// scanner, consumed once by the parser, and never mutated.
#[derive(Debug, Clone, PartialEq)]
pub enum Token {
    /// The reserved word `var`.
    Var,
    /// A name: a letter followed by letters, digits and underscores.
    Identifier(String),
    /// The assignment marker `:=`.
    Assign,
    /// A numeric literal, carried as its decimal text.
    Number(String),
    /// A string literal, without its quotes.
    StringLiteral(String),
    /// A one-character arithmetic operator.
    Operator(String),
    /// `BEGIN PROJ "name"`, carrying the quoted name.
    BeginProj(String),
    /// `END PROJ "name"`, carrying the quoted name.
    EndProj(String),
    /// `BEGIN SECTION "name"`, carrying the quoted name.
    BeginSection(String),
    /// `END SECTION "name"`, carrying the quoted name.
    EndSection(String),
    /// The reserved word `ret`.
    Ret,
    /// A comment, kept verbatim. The scanner has no comment syntax yet, so it
    /// never produces this token; it is part of the closed token set.
    Comment(String),
    /// A character or digit run the scanner does not recognize.
    Unknown(String),
}

/// The mathematical shape of a token: the same variants over sequences of
/// characters.
pub enum TokenView {
    Var,
    Identifier(Seq<char>),
    Assign,
    Number(Seq<char>),
    StringLiteral(Seq<char>),
    Operator(Seq<char>),
    BeginProj(Seq<char>),
    EndProj(Seq<char>),
    BeginSection(Seq<char>),
    EndSection(Seq<char>),
    Ret,
    Comment(Seq<char>),
    Unknown(Seq<char>),
}

impl View for Token {
    type V = TokenView;

    open spec fn view(&self) -> TokenView {
        match self {
            Token::Var => TokenView::Var,
            Token::Identifier(s) => TokenView::Identifier(s@),
            Token::Assign => TokenView::Assign,
            Token::Number(s) => TokenView::Number(s@),
            Token::StringLiteral(s) => TokenView::StringLiteral(s@),
            Token::Operator(s) => TokenView::Operator(s@),
            Token::BeginProj(s) => TokenView::BeginProj(s@),
            Token::EndProj(s) => TokenView::EndProj(s@),
            Token::BeginSection(s) => TokenView::BeginSection(s@),
            Token::EndSection(s) => TokenView::EndSection(s@),
            Token::Ret => TokenView::Ret,
            Token::Comment(s) => TokenView::Comment(s@),
            Token::Unknown(s) => TokenView::Unknown(s@),
        }
    }
}

/// The mathematical shape of a token sequence, elementwise.
pub open spec fn tokens_view(tokens: Seq<Token>) -> Seq<TokenView> {
    tokens.map_values(|t: Token| t@)
}

/// The first position at or after `i` whose character is not whitespace, or
/// the end of the text.
pub open spec fn spec_skip_whitespace(s: Seq<char>, i: int) -> int
    decreases s.len() - i,
{
    if 0 <= i < s.len() && is_whitespace_char(s[i]) {
        spec_skip_whitespace(s, i + 1)
    } else {
        i
    }
}

/// The first position at or after `i` whose character cannot continue an
/// identifier, or the end of the text.
pub open spec fn spec_word_end(s: Seq<char>, i: int) -> int
    decreases s.len() - i,
{
    if 0 <= i < s.len() && is_word_char(s[i]) {
        spec_word_end(s, i + 1)
    } else {
        i
    }
}

/// The first position at or after `i` whose character is neither a digit nor
/// a dot, or the end of the text.
pub open spec fn spec_number_end(s: Seq<char>, i: int) -> int
    decreases s.len() - i,
{
    if 0 <= i < s.len() && (is_digit_char(s[i]) || s[i] == '.') {
        spec_number_end(s, i + 1)
    } else {
        i
    }
}

/// The first position at or after `i` holding a double quote, or the end of
/// the text.
pub open spec fn spec_quote_end(s: Seq<char>, i: int) -> int
    decreases s.len() - i,
{
    if 0 <= i < s.len() && s[i] != '"' {
        spec_quote_end(s, i + 1)
    } else {
        i
    }
}

/// How many dots a text holds.
pub open spec fn dot_count(t: Seq<char>) -> nat
    decreases t.len(),
{
    if t.len() == 0 {
        0
    } else {
        dot_count(t.drop_last()) + if t.last() == '.' { 1nat } else { 0nat }
    }
}

/// A digit run that denotes a number: at most one dot.
pub open spec fn is_number_text(t: Seq<char>) -> bool {
    dot_count(t) <= 1
}

/// The structural token for one of the four block delimiters.
pub open spec fn structural_token(begin: bool, proj: bool, name: Seq<char>) -> TokenView {
    if begin && proj {
        TokenView::BeginProj(name)
    } else if begin {
        TokenView::BeginSection(name)
    } else if proj {
        TokenView::EndProj(name)
    } else {
        TokenView::EndSection(name)
    }
}

/// After `BEGIN PROJ` and its kin: skip whitespace and, if a quoted name
/// follows, emit the structural token carrying it and stand past the closing
/// quote; with no quote in sight nothing is emitted and scanning resumes
/// after the skipped whitespace.
pub open spec fn spec_lex_quoted(s: Seq<char>, after: int, begin: bool, proj: bool) -> (Seq<
    TokenView,
>, int) {
    let qp = spec_skip_whitespace(s, after);
    if qp < s.len() && s[qp] == '"' {
        let close = spec_quote_end(s, qp + 1);
        (seq![structural_token(begin, proj, s.subrange(qp + 1, close))], close + 1)
    } else {
        (Seq::<TokenView>::empty(), qp)
    }
}

/// After the word `BEGIN` or `END` (ending at `e`): look ahead over
/// whitespace for a bare word. `PROJ` or `SECTION` leads to the quoted-name
/// rule; any other word, or none, makes `BEGIN` or `END` itself a plain
/// identifier and leaves the lookahead unconsumed.
pub open spec fn spec_lex_structural(s: Seq<char>, word: Seq<char>, e: int, begin: bool) -> (Seq<
    TokenView,
>, int) {
    let ns = spec_skip_whitespace(s, e);
    if ns < s.len() && is_alpha_char(s[ns]) {
        let ne = spec_word_end(s, ns);
        let w2 = s.subrange(ns, ne);
        if w2 == "PROJ"@ {
            spec_lex_quoted(s, ne, begin, true)
        } else if w2 == "SECTION"@ {
            spec_lex_quoted(s, ne, begin, false)
        } else {
            (seq![TokenView::Identifier(word)], e)
        }
    } else {
        (seq![TokenView::Identifier(word)], e)
    }
}

/// A word starting at `pos`: the reserved words `var` and `ret`, the
/// structural words `BEGIN` and `END`, or a plain identifier.
pub open spec fn spec_lex_alpha(s: Seq<char>, pos: int) -> (Seq<TokenView>, int) {
    let e = spec_word_end(s, pos);
    let w = s.subrange(pos, e);
    if w == "var"@ {
        (seq![TokenView::Var], e)
    } else if w == "ret"@ {
        (seq![TokenView::Ret], e)
    } else if w == "BEGIN"@ {
        spec_lex_structural(s, w, e, true)
    } else if w == "END"@ {
        spec_lex_structural(s, w, e, false)
    } else {
        (seq![TokenView::Identifier(w)], e)
    }
}

/// One step of the scanner at position `pos`: the tokens it emits (none for
/// whitespace, one otherwise, and possibly none after `BEGIN`/`END` with no
/// quoted name) and the position where scanning resumes.
pub open spec fn spec_step(s: Seq<char>, pos: int) -> (Seq<TokenView>, int) {
    let c = s[pos];
    if is_whitespace_char(c) {
        (Seq::<TokenView>::empty(), pos + 1)
    } else if c == ':' && pos + 1 < s.len() && s[pos + 1] == '=' {
        (seq![TokenView::Assign], pos + 2)
    } else if is_operator_char(c) {
        (seq![TokenView::Operator(s.subrange(pos, pos + 1))], pos + 1)
    } else if c == '"' {
        let close = spec_quote_end(s, pos + 1);
        (seq![TokenView::StringLiteral(s.subrange(pos + 1, close))], close + 1)
    } else if is_digit_char(c) {
        let e = spec_number_end(s, pos);
        let t = s.subrange(pos, e);
        if is_number_text(t) {
            (seq![TokenView::Number(t)], e)
        } else {
            (seq![TokenView::Unknown(t)], e)
        }
    } else if is_alpha_char(c) {
        spec_lex_alpha(s, pos)
    } else {
        (seq![TokenView::Unknown(s.subrange(pos, pos + 1))], pos + 1)
    }
}

/// Every token the scanner emits from position `pos` to the end of the text.
/// Each step moves at least one position forward, so the bounds here only pin
/// the measure down; they change no value the scanner can reach.
pub open spec fn spec_tokenize_from(s: Seq<char>, pos: int) -> Seq<TokenView>
    decreases s.len() - pos,
{
    if pos < 0 || pos >= s.len() {
        Seq::<TokenView>::empty()
    } else {
        let (ts, p) = spec_step(s, pos);
        let next = if p < pos + 1 {
            pos + 1
        } else if p > s.len() {
            s.len() as int
        } else {
            p
        };
        ts + spec_tokenize_from(s, next)
    }
}

/// The ordered token sequence of a whole text.
pub open spec fn spec_tokenize(s: Seq<char>) -> Seq<TokenView> {
    spec_tokenize_from(s, 0)
}

/// Glue for one scanner step: emitting the step's tokens and standing at the
/// step's next position keeps the whole text's token sequence unchanged.
proof fn lemma_step_glue(s: Seq<char>, p0: int, pre: Seq<TokenView>, all: Seq<TokenView>)
    requires
        0 <= p0 < s.len(),
        spec_step(s, p0).1 >= p0 + 1,
        pre + spec_tokenize_from(s, p0) == all,
    ensures
        ({
            let (ts, p) = spec_step(s, p0);
            let next = if p > s.len() {
                s.len() as int
            } else {
                p
            };
            (pre + ts) + spec_tokenize_from(s, next) == all
        }),
{
    let (ts, p) = spec_step(s, p0);
    let next = if p > s.len() {
        s.len() as int
    } else {
        p
    };
    assert(spec_tokenize_from(s, p0) == ts + spec_tokenize_from(s, next));
    assert((pre + ts) + spec_tokenize_from(s, next) =~= pre + (ts + spec_tokenize_from(s, next)));
}

/// The first position at or after `from` whose character is not whitespace.
fn skip_whitespace(source: &str, from: usize, n: usize) -> (r: usize)
    requires
        n == source@.len(),
        from <= n,
    ensures
        from <= r <= n,
        r as int == spec_skip_whitespace(source@, from as int),
{
    let mut i: usize = from;
    loop
        invariant
            n == source@.len(),
            from <= i <= n,
            spec_skip_whitespace(source@, from as int) == spec_skip_whitespace(source@, i as int),
        ensures
            from <= i <= n,
            i as int == spec_skip_whitespace(source@, from as int),
        decreases n - i,
    {
        if i == n {
            assert(spec_skip_whitespace(source@, i as int) == i as int);
            break;
        }
        let c = source.get_char(i);
        if !whitespace_char(c) {
            assert(spec_skip_whitespace(source@, i as int) == i as int);
            break;
        }
        assert(spec_skip_whitespace(source@, i as int) == spec_skip_whitespace(source@, i + 1));
        i = i + 1;
    }
    i
}

/// The end of the identifier run starting at `from`.
fn word_end(source: &str, from: usize, n: usize) -> (r: usize)
    requires
        n == source@.len(),
        from <= n,
    ensures
        from <= r <= n,
        r as int == spec_word_end(source@, from as int),
        from < n && is_word_char(source@[from as int]) ==> r > from,
    decreases n - from,
{
    if from == n {
        assert(spec_word_end(source@, from as int) == from as int);
        return from;
    }
    let c = source.get_char(from);
    if !word_char(c) {
        assert(spec_word_end(source@, from as int) == from as int);
        return from;
    }
    assert(spec_word_end(source@, from as int) == spec_word_end(source@, from + 1));
    word_end(source, from + 1, n)
}

/// The end of the digit-and-dot run starting at `from`.
fn number_end(source: &str, from: usize, n: usize) -> (r: usize)
    requires
        n == source@.len(),
        from <= n,
    ensures
        from <= r <= n,
        r as int == spec_number_end(source@, from as int),
        from < n && is_digit_char(source@[from as int]) ==> r > from,
    decreases n - from,
{
    if from == n {
        assert(spec_number_end(source@, from as int) == from as int);
        return from;
    }
    let c = source.get_char(from);
    if !(digit_char(c) || c == '.') {
        assert(spec_number_end(source@, from as int) == from as int);
        return from;
    }
    assert(spec_number_end(source@, from as int) == spec_number_end(source@, from + 1));
    number_end(source, from + 1, n)
}

/// The first double quote at or after `from`, or the end of the text.
fn quote_end(source: &str, from: usize, n: usize) -> (r: usize)
    requires
        n == source@.len(),
        from <= n,
    ensures
        from <= r <= n,
        r as int == spec_quote_end(source@, from as int),
    decreases n - from,
{
    if from == n {
        assert(spec_quote_end(source@, from as int) == from as int);
        return from;
    }
    let c = source.get_char(from);
    if c == '"' {
        assert(spec_quote_end(source@, from as int) == from as int);
        return from;
    }
    assert(spec_quote_end(source@, from as int) == spec_quote_end(source@, from + 1));
    quote_end(source, from + 1, n)
}

/// Whether a text holds at most one dot.
fn at_most_one_dot(text: &str) -> (r: bool)
    ensures
        r == is_number_text(text@),
{
    let n = text.unicode_len();
    let mut count: usize = 0;
    let mut i: usize = 0;
    proof {
        assert(text@.take(0) =~= Seq::<char>::empty());
    }
    while i < n
        invariant
            n == text@.len(),
            i <= n,
            count <= i,
            count as nat == dot_count(text@.take(i as int)),
        decreases n - i,
    {
        let c = text.get_char(i);
        proof {
            assert(text@.take(i + 1).drop_last() =~= text@.take(i as int));
            assert(text@.take(i + 1).last() == text@[i as int]);
        }
        if c == '.' {
            count = count + 1;
        }
        i = i + 1;
    }
    proof {
        assert(text@.take(n as int) =~= text@);
    }
    count <= 1
}

/// Whether a scanned word is a given keyword.
pub(crate) fn str_eq_keyword(word: &String, keyword: &str) -> (r: bool)
    ensures
        r == (word@ == keyword@),
{
    let k = String::from_str(keyword);
    word.eq(&k)
}

/// The quoted-name rule after `BEGIN PROJ` and its kin: push the structural
/// token if a quoted name follows, nothing otherwise, and return where
/// scanning resumes (clamped to the end of the text).
fn lex_quoted(source: &str, n: usize, after: usize, begin: bool, proj: bool, tokens: &mut Vec<
    Token,
>) -> (r: usize)
    requires
        n == source@.len(),
        after <= n,
    ensures
        ({
            let (ts, p) = spec_lex_quoted(source@, after as int, begin, proj);
            &&& tokens_view(final(tokens)@) == tokens_view(old(tokens)@) + ts
            &&& r as int == if p > n as int {
                n as int
            } else {
                p
            }
            &&& p >= after
        }),
{
    let ghost pre = tokens_view(tokens@);
    let qp = skip_whitespace(source, after, n);
    if qp < n && source.get_char(qp) == '"' {
        let close = quote_end(source, qp + 1, n);
        let name = source.substring_char(qp + 1, close).to_owned();
        let tok = if begin && proj {
            Token::BeginProj(name)
        } else if begin {
            Token::BeginSection(name)
        } else if proj {
            Token::EndProj(name)
        } else {
            Token::EndSection(name)
        };
        proof {
            assert(tok@ == structural_token(
                begin,
                proj,
                source@.subrange(qp + 1, spec_quote_end(source@, qp + 1)),
            ));
        }
        tokens.push(tok);
        proof {
            assert(tokens_view(tokens@) =~= pre + spec_lex_quoted(source@, after as int, begin, proj).0);
        }
        if close < n {
            close + 1
        } else {
            proof {
                assert(spec_lex_quoted(source@, after as int, begin, proj).1 == n as int + 1);
            }
            n
        }
    } else {
        proof {
            assert(tokens_view(tokens@) =~= pre + Seq::<TokenView>::empty());
        }
        qp
    }
}

/// The lookahead rule after the word `BEGIN` or `END`, which ends at `e`:
/// push what the rule emits and return where scanning resumes.
fn lex_structural(source: &str, n: usize, e: usize, word: String, begin: bool, tokens: &mut Vec<
    Token,
>) -> (r: usize)
    requires
        n == source@.len(),
        e <= n,
    ensures
        ({
            let (ts, p) = spec_lex_structural(source@, word@, e as int, begin);
            &&& tokens_view(final(tokens)@) == tokens_view(old(tokens)@) + ts
            &&& r as int == if p > n as int {
                n as int
            } else {
                p
            }
            &&& p >= e
        }),
{
    let ghost pre = tokens_view(tokens@);
    let ns = skip_whitespace(source, e, n);
    if ns < n && alpha_char(source.get_char(ns)) {
        let ne = word_end(source, ns, n);
        let w2 = source.substring_char(ns, ne).to_owned();
        if str_eq_keyword(&w2, "PROJ") {
            lex_quoted(source, n, ne, begin, true, tokens)
        } else if str_eq_keyword(&w2, "SECTION") {
            lex_quoted(source, n, ne, begin, false, tokens)
        } else {
            tokens.push(Token::Identifier(word));
            proof {
                assert(tokens_view(tokens@) =~= pre + seq![TokenView::Identifier(word@)]);
            }
            e
        }
    } else {
        tokens.push(Token::Identifier(word));
        proof {
            assert(tokens_view(tokens@) =~= pre + seq![TokenView::Identifier(word@)]);
        }
        e
    }
}

/// Scan a whole text into its ordered token sequence.
///
/// Total: there is no input on which this fails. Unrecognized characters and
/// malformed digit runs become [`Token::Unknown`]; an unterminated string
/// literal silently runs to the end of the input.
pub fn tokenize(source: &str) -> (r: Vec<Token>)
    ensures
        tokens_view(r@) == spec_tokenize(source@),
{
    let n = source.unicode_len();
    let mut tokens: Vec<Token> = Vec::new();
    let mut pos: usize = 0;
    proof {
        assert(tokens_view(tokens@) + spec_tokenize_from(source@, 0) =~= spec_tokenize_from(
            source@,
            0,
        ));
    }
    while pos < n
        invariant
            n == source@.len(),
            pos <= n,
            tokens_view(tokens@) + spec_tokenize_from(source@, pos as int) == spec_tokenize_from(
                source@,
                0,
            ),
        decreases n - pos,
    {
        let ghost s = source@;
        let ghost p0 = pos as int;
        let ghost pre = tokens_view(tokens@);
        let ghost all = spec_tokenize_from(source@, 0);
        let c = source.get_char(pos);
        if whitespace_char(c) {
            pos = pos + 1;
            proof {
                lemma_step_glue(s, p0, pre, all);
                assert(pre + Seq::<TokenView>::empty() =~= pre);
            }
        } else if c == ':' && pos + 1 < n && source.get_char(pos + 1) == '=' {
            tokens.push(Token::Assign);
            pos = pos + 2;
            proof {
                lemma_step_glue(s, p0, pre, all);
                assert(tokens_view(tokens@) =~= pre + seq![TokenView::Assign]);
            }
        } else if operator_char(c) {
            let sym = source.substring_char(pos, pos + 1).to_owned();
            tokens.push(Token::Operator(sym));
            pos = pos + 1;
            proof {
                lemma_step_glue(s, p0, pre, all);
                assert(tokens_view(tokens@) =~= pre + spec_step(s, p0).0);
            }
        } else if c == '"' {
            let close = quote_end(source, pos + 1, n);
            let lit = source.substring_char(pos + 1, close).to_owned();
            tokens.push(Token::StringLiteral(lit));
            pos = if close < n {
                close + 1
            } else {
                n
            };
            proof {
                lemma_step_glue(s, p0, pre, all);
                assert(tokens_view(tokens@) =~= pre + spec_step(s, p0).0);
            }
        } else if digit_char(c) {
            let e = number_end(source, pos, n);
            let run = source.substring_char(pos, e);
            let denotes_number = at_most_one_dot(run);
            let text = run.to_owned();
            if denotes_number {
                tokens.push(Token::Number(text));
            } else {
                tokens.push(Token::Unknown(text));
            }
            pos = e;
            proof {
                lemma_step_glue(s, p0, pre, all);
                assert(tokens_view(tokens@) =~= pre + spec_step(s, p0).0);
            }
        } else if alpha_char(c) {
            let e = word_end(source, pos, n);
            let word = source.substring_char(pos, e).to_owned();
            if str_eq_keyword(&word, "var") {
                tokens.push(Token::Var);
                pos = e;
                proof {
                    lemma_step_glue(s, p0, pre, all);
                    assert(tokens_view(tokens@) =~= pre + seq![TokenView::Var]);
                }
            } else if str_eq_keyword(&word, "ret") {
                tokens.push(Token::Ret);
                pos = e;
                proof {
                    lemma_step_glue(s, p0, pre, all);
                    assert(tokens_view(tokens@) =~= pre + seq![TokenView::Ret]);
                }
            } else if str_eq_keyword(&word, "BEGIN") {
                pos = lex_structural(source, n, e, word, true, &mut tokens);
                proof {
                    lemma_step_glue(s, p0, pre, all);
                }
            } else if str_eq_keyword(&word, "END") {
                pos = lex_structural(source, n, e, word, false, &mut tokens);
                proof {
                    lemma_step_glue(s, p0, pre, all);
                }
            } else {
                tokens.push(Token::Identifier(word));
                pos = e;
                proof {
                    lemma_step_glue(s, p0, pre, all);
                    assert(tokens_view(tokens@) =~= pre + spec_step(s, p0).0);
                }
            }
        } else {
            let text = source.substring_char(pos, pos + 1).to_owned();
            tokens.push(Token::Unknown(text));
            pos = pos + 1;
            proof {
                lemma_step_glue(s, p0, pre, all);
                assert(tokens_view(tokens@) =~= pre + spec_step(s, p0).0);
            }
        }
    }
    proof {
        assert(spec_tokenize_from(source@, pos as int) =~= Seq::<TokenView>::empty());
        assert(tokens_view(tokens@) + Seq::<TokenView>::empty() =~= tokens_view(tokens@));
    }
    tokens
}

} // verus!
