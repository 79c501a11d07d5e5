//! General facts about the grammar, each stated over every input and proved
//! once and for all against the parser's specification functions.

use vstd::prelude::*;

use crate::ast::NodeView;
use crate::parser::is_primary_start;
use crate::parser::spec_parse_expression;
use crate::parser::spec_parse_program;
use crate::parser::spec_parse_project;
use crate::parser::spec_parse_project_body;
use crate::parser::spec_parse_statement;
use crate::tokenizer::TokenView;

verus! {

/// Dropping a sequence's front twice over is one longer skip.
proof fn lemma_skip_compose(s: Seq<TokenView>, a: int, b: int)
    requires
        0 <= a,
        0 <= b,
        a + b <= s.len(),
    ensures
        s.skip(a).skip(b) == s.skip(a + b),
{
    assert(s.skip(a).skip(b) =~= s.skip(a + b));
}

/// What an expression leaves behind is a suffix of what it was given: the
/// parser only ever consumes from the front.
pub proof fn lemma_expression_rest_is_suffix(toks: Seq<TokenView>)
    ensures
        spec_parse_expression(toks) is Some ==> ({
            let (n, rest) = spec_parse_expression(toks)->Some_0;
            &&& rest.len() <= toks.len()
            &&& rest == toks.skip(toks.len() - rest.len())
        }),
    decreases toks.len(),
{
    if spec_parse_expression(toks) is Some {
        let (n, rest) = spec_parse_expression(toks)->Some_0;
        let d1 = toks.drop_first();
        assert(d1 =~= toks.skip(1));
        match toks[0] {
            TokenView::Identifier(name) => {
                if d1.len() > 0 && is_primary_start(d1[0]) {
                    lemma_expression_rest_is_suffix(d1);
                    let (arg, rest2) = spec_parse_expression(d1)->Some_0;
                    lemma_skip_compose(toks, 1, d1.len() - rest2.len());
                } else {
                    assert(rest == toks.skip(toks.len() - rest.len()));
                }
            },
            _ => {
                assert(rest == toks.skip(toks.len() - rest.len()));
            },
        }
    }
}

/// What a statement leaves behind is a suffix of what it was given.
pub proof fn lemma_statement_rest_is_suffix(toks: Seq<TokenView>)
    ensures
        spec_parse_statement(toks) is Some ==> ({
            let (n, rest) = spec_parse_statement(toks)->Some_0;
            &&& rest.len() <= toks.len()
            &&& rest == toks.skip(toks.len() - rest.len())
        }),
{
    if spec_parse_statement(toks) is Some {
        let (n, rest) = spec_parse_statement(toks)->Some_0;
        match toks[0] {
            TokenView::Var => {
                let r2 = toks.drop_first().drop_first();
                let e0 = r2.drop_first();
                assert(e0 =~= toks.skip(3));
                lemma_expression_rest_is_suffix(e0);
                lemma_skip_compose(toks, 3, e0.len() - rest.len());
            },
            TokenView::Ret => {
                let e0 = toks.drop_first();
                assert(e0 =~= toks.skip(1));
                lemma_expression_rest_is_suffix(e0);
                lemma_skip_compose(toks, 1, e0.len() - rest.len());
            },
            TokenView::Identifier(name) => {
                if name == "print"@ {
                    let e0 = toks.drop_first();
                    assert(e0 =~= toks.skip(1));
                    lemma_expression_rest_is_suffix(e0);
                    lemma_skip_compose(toks, 1, e0.len() - rest.len());
                } else {
                    lemma_expression_rest_is_suffix(toks);
                }
            },
            _ => {
                lemma_expression_rest_is_suffix(toks);
            },
        }
    }
}

/// `ret` and the built-in `print` are synonymous: in front of the same
/// remaining tokens, the two statements parse to the very same node — a call
/// of `print` — and leave the very same tokens behind, and they fail
/// together.
pub proof fn lemma_ret_print_alias(rest: Seq<TokenView>)
    ensures
        spec_parse_statement(seq![TokenView::Ret] + rest) == spec_parse_statement(
            seq![TokenView::Identifier("print"@)] + rest,
        ),
{
    let a = seq![TokenView::Ret] + rest;
    let b = seq![TokenView::Identifier("print"@)] + rest;
    assert(a.drop_first() =~= rest);
    assert(b.drop_first() =~= rest);
}

/// An identifier with nothing after it is a bare variable reference.
pub proof fn lemma_identifier_alone_is_var(name: Seq<char>)
    ensures
        spec_parse_expression(seq![TokenView::Identifier(name)]) == Some(
            (NodeView::Var { name }, Seq::<TokenView>::empty()),
        ),
{
    let toks = seq![TokenView::Identifier(name)];
    assert(toks.drop_first() =~= Seq::<TokenView>::empty());
}

/// An identifier whose very next token starts a primary expression is a
/// one-argument function call: the argument is whatever the remaining tokens
/// parse to, and the call fails exactly when that argument fails.
pub proof fn lemma_identifier_before_primary_is_call(name: Seq<char>, rest: Seq<TokenView>)
    requires
        rest.len() > 0,
        is_primary_start(rest[0]),
    ensures
        spec_parse_expression(seq![TokenView::Identifier(name)] + rest) == (
        match spec_parse_expression(rest) {
            Some((arg, rest2)) => Some((NodeView::FunctionCall { name, args: seq![arg] }, rest2)),
            None => None,
        }),
{
    let toks = seq![TokenView::Identifier(name)] + rest;
    assert(toks.drop_first() =~= rest);
}

/// A bare operator token where an expression is expected is a parse failure —
/// never a crash and never a silent skip — at every level of the grammar.
pub proof fn lemma_operator_rejected(toks: Seq<TokenView>)
    requires
        toks.len() > 0,
        toks[0] is Operator,
    ensures
        spec_parse_expression(toks) is None,
        spec_parse_statement(toks) is None,
        spec_parse_program(toks) is None,
{
}

/// Tokens free of block delimiters parse the same inside a project block as
/// they do at top level.
proof fn lemma_plain_tokens_project_body(toks: Seq<TokenView>)
    requires
        forall|i: int|
            0 <= i < toks.len() ==> !(#[trigger] toks[i] is EndProj) && !(toks[i] is BeginSection)
                && !(toks[i] is BeginProj),
    ensures
        spec_parse_project_body(toks) == (match spec_parse_program(toks) {
            Some(nodes) => Some((nodes, Seq::<TokenView>::empty())),
            None => None,
        }),
    decreases toks.len(),
{
    if toks.len() == 0 {
        assert(toks =~= Seq::<TokenView>::empty());
    } else {
        match spec_parse_statement(toks) {
            Some((node, rest)) => {
                if rest.len() < toks.len() {
                    lemma_statement_rest_is_suffix(toks);
                    let k = toks.len() - rest.len();
                    assert(forall|i: int|
                        0 <= i < rest.len() ==> !(#[trigger] rest[i] is EndProj) && !(
                        rest[i] is BeginSection) && !(rest[i] is BeginProj)) by {
                        assert(forall|i: int|
                            0 <= i < rest.len() ==> rest[i] == toks[k + i]);
                    }
                    lemma_plain_tokens_project_body(rest);
                }
            },
            None => {},
        }
    }
}

/// A project block whose `END PROJ` terminator is missing is not an error:
/// the block runs to the end of the input and everything after its opener
/// parses exactly as the same tokens would at top level, token queue fully
/// drained. Stated for remainders free of block delimiters; a nested block
/// opener inside the remainder is handled by the block rules instead.
pub proof fn lemma_missing_end_proj(name: Seq<char>, toks: Seq<TokenView>)
    requires
        forall|i: int|
            0 <= i < toks.len() ==> !(#[trigger] toks[i] is EndProj) && !(toks[i] is BeginSection)
                && !(toks[i] is BeginProj),
    ensures
        spec_parse_project(seq![TokenView::BeginProj(name)] + toks) == (
        match spec_parse_program(toks) {
            Some(nodes) => Some((nodes, Seq::<TokenView>::empty())),
            None => None,
        }),
{
    let opened = seq![TokenView::BeginProj(name)] + toks;
    assert(opened.drop_first() =~= toks);
    lemma_plain_tokens_project_body(toks);
}

} // verus!

