//! The recursive-descent parser.
//!
//! The parser consumes a front-to-back token queue — tokens are popped once
//! and never re-examined — and produces the ordered sequence of AST nodes of
//! the program, or a parse failure. The grammar:
//!
//! ```text
//! Program      := (Statement | ProjectBlock)*
//! ProjectBlock := BeginProj (Statement | SectionBlock)* EndProj
//! SectionBlock := BeginSection Statement* EndSection
//! Statement    := "var" Identifier ":=" Expression
//!               | "ret" Expression
//!               | "print" Expression
//!               | Expression
//! Expression   := Number | StringLiteral
//!               | Identifier [Expression]
//! ```
//!
//! An identifier is a one-argument function call when the very next token
//! starts a primary expression (identifier, number or string literal), and a
//! bare variable reference otherwise. `ret` and `print` are synonymous: both
//! produce a call of the built-in `print`.
//!
//! Block terminators are consumed when encountered, not validated against
//! their opener: a missing `END PROJ` or `END SECTION` makes the block run to
//! the end of the input, its contents parsed as ordinary statements.
//!
//! The whole grammar is specified by the `spec_parse_*` functions below, and
//! each parsing method is proved to return exactly what its specification
//! names, failing exactly when the specification fails.

use std::collections::VecDeque;
use vstd::prelude::*;
use vstd::string::StringExecFns;

use crate::ast::lemma_nodes_view_concat;
use crate::ast::lemma_nodes_view_push;
use crate::ast::node_view;
use crate::ast::nodes_view;
use crate::ast::Assign;
use crate::ast::FunctionCall;
use crate::ast::Node;
use crate::ast::NodeView;
use crate::ast::Number;
use crate::ast::StringLiteral;
use crate::ast::Var;
use crate::tokenizer::spec_tokenize;
use crate::tokenizer::str_eq_keyword;
use crate::tokenizer::tokenize;
use crate::tokenizer::tokens_view;
use crate::tokenizer::Token;
use crate::tokenizer::TokenView;

verus! {

/// The parser's failure kind: a grammar violation, with a descriptive
/// message. The first failure aborts the whole parse; there is no partial
/// result and no resynchronization.
#[derive(Debug, PartialEq)]
pub enum ScriptError {
    Parse(String),
}

impl ScriptError {
    /// The descriptive message this failure carries.
    pub fn message(&self) -> (m: &String)
        ensures
            *self == ScriptError::Parse(*m),
    {
        match self {
            ScriptError::Parse(m) => m,
        }
    }
}

/// Whether a token can start a primary expression: an identifier, a number
/// or a string literal.
pub open spec fn is_primary_start(t: TokenView) -> bool {
    t is Identifier || t is Number || t is StringLiteral
}

/// What parsing one expression from the front of `toks` yields: the node and
/// the remaining tokens, or a failure.
pub open spec fn spec_parse_expression(toks: Seq<TokenView>) -> Option<(NodeView, Seq<TokenView>)>
    decreases toks.len(),
{
    if toks.len() == 0 {
        None
    } else {
        match toks[0] {
            TokenView::Number(text) => Some(
                (NodeView::Number { value: text }, toks.drop_first()),
            ),
            TokenView::StringLiteral(text) => Some(
                (NodeView::StringLiteral { value: text }, toks.drop_first()),
            ),
            TokenView::Identifier(name) => {
                let rest = toks.drop_first();
                if rest.len() > 0 && is_primary_start(rest[0]) {
                    match spec_parse_expression(rest) {
                        Some((arg, rest2)) => Some(
                            (NodeView::FunctionCall { name, args: seq![arg] }, rest2),
                        ),
                        None => None,
                    }
                } else {
                    Some((NodeView::Var { name }, rest))
                }
            },
            _ => None,
        }
    }
}

/// What parsing one statement from the front of `toks` yields. `ret` and a
/// leading `print` identifier both desugar to a call of the built-in `print`.
pub open spec fn spec_parse_statement(toks: Seq<TokenView>) -> Option<(NodeView, Seq<TokenView>)> {
    if toks.len() == 0 {
        None
    } else {
        match toks[0] {
            TokenView::Var => {
                let r1 = toks.drop_first();
                if r1.len() > 0 && r1[0] is Identifier {
                    let name = r1[0]->Identifier_0;
                    let r2 = r1.drop_first();
                    if r2.len() > 0 && r2[0] is Assign {
                        match spec_parse_expression(r2.drop_first()) {
                            Some((e, r3)) => Some(
                                (NodeView::Assign { name, expr: Box::new(e) }, r3),
                            ),
                            None => None,
                        }
                    } else {
                        None
                    }
                } else {
                    None
                }
            },
            TokenView::Ret => {
                match spec_parse_expression(toks.drop_first()) {
                    Some((e, r)) => Some(
                        (NodeView::FunctionCall { name: "print"@, args: seq![e] }, r),
                    ),
                    None => None,
                }
            },
            TokenView::Identifier(name) => {
                if name == "print"@ {
                    match spec_parse_expression(toks.drop_first()) {
                        Some((e, r)) => Some(
                            (NodeView::FunctionCall { name: "print"@, args: seq![e] }, r),
                        ),
                        None => None,
                    }
                } else {
                    spec_parse_expression(toks)
                }
            },
            _ => spec_parse_expression(toks),
        }
    }
}

/// What parsing the inside of a section block yields: statements until an
/// `END SECTION` terminator or the end of the input. The length guard only
/// pins the recursion down; a parsed statement always consumes at least one
/// token, so it changes no reachable value.
pub open spec fn spec_parse_section_body(toks: Seq<TokenView>) -> Option<
    (Seq<NodeView>, Seq<TokenView>),
>
    decreases toks.len(),
{
    if toks.len() == 0 {
        Some((Seq::empty(), toks))
    } else if toks[0] is EndSection {
        Some((Seq::empty(), toks.drop_first()))
    } else {
        match spec_parse_statement(toks) {
            Some((node, rest)) => {
                if rest.len() < toks.len() {
                    match spec_parse_section_body(rest) {
                        Some((nodes, rest2)) => Some((seq![node] + nodes, rest2)),
                        None => None,
                    }
                } else {
                    None
                }
            },
            None => None,
        }
    }
}

/// What parsing a section block from the front of `toks` yields: its opener,
/// then its body.
pub open spec fn spec_parse_section(toks: Seq<TokenView>) -> Option<
    (Seq<NodeView>, Seq<TokenView>),
> {
    if toks.len() > 0 && toks[0] is BeginSection {
        spec_parse_section_body(toks.drop_first())
    } else {
        None
    }
}

/// What parsing the inside of a project block yields: statements and section
/// blocks until an `END PROJ` terminator or the end of the input. The length
/// guards only pin the recursion down, as in `spec_parse_section_body`.
pub open spec fn spec_parse_project_body(toks: Seq<TokenView>) -> Option<
    (Seq<NodeView>, Seq<TokenView>),
>
    decreases toks.len(),
{
    if toks.len() == 0 {
        Some((Seq::empty(), toks))
    } else if toks[0] is EndProj {
        Some((Seq::empty(), toks.drop_first()))
    } else if toks[0] is BeginSection {
        match spec_parse_section(toks) {
            Some((nodes, rest)) => {
                if rest.len() < toks.len() {
                    match spec_parse_project_body(rest) {
                        Some((more, rest2)) => Some((nodes + more, rest2)),
                        None => None,
                    }
                } else {
                    None
                }
            },
            None => None,
        }
    } else {
        match spec_parse_statement(toks) {
            Some((node, rest)) => {
                if rest.len() < toks.len() {
                    match spec_parse_project_body(rest) {
                        Some((nodes, rest2)) => Some((seq![node] + nodes, rest2)),
                        None => None,
                    }
                } else {
                    None
                }
            },
            None => None,
        }
    }
}

/// What parsing a project block from the front of `toks` yields: its opener,
/// then its body.
pub open spec fn spec_parse_project(toks: Seq<TokenView>) -> Option<
    (Seq<NodeView>, Seq<TokenView>),
> {
    if toks.len() > 0 && toks[0] is BeginProj {
        spec_parse_project_body(toks.drop_first())
    } else {
        None
    }
}

/// What parsing a whole program yields: the flat ordered sequence of its
/// statements' nodes — block structure is organizational only and leaves no
/// node behind — or a failure. The length guards only pin the recursion
/// down, as in `spec_parse_section_body`.
pub open spec fn spec_parse_program(toks: Seq<TokenView>) -> Option<Seq<NodeView>>
    decreases toks.len(),
{
    if toks.len() == 0 {
        Some(Seq::empty())
    } else if toks[0] is BeginProj {
        match spec_parse_project(toks) {
            Some((nodes, rest)) => {
                if rest.len() < toks.len() {
                    match spec_parse_program(rest) {
                        Some(more) => Some(nodes + more),
                        None => None,
                    }
                } else {
                    None
                }
            },
            None => None,
        }
    } else {
        match spec_parse_statement(toks) {
            Some((node, rest)) => {
                if rest.len() < toks.len() {
                    match spec_parse_program(rest) {
                        Some(more) => Some(seq![node] + more),
                        None => None,
                    }
                } else {
                    None
                }
            },
            None => None,
        }
    }
}

/// The recursive-descent parser over a consuming token queue.
pub struct Parser {
    tokens: VecDeque<Token>,
}

impl View for Parser {
    type V = Seq<TokenView>;

    closed spec fn view(&self) -> Seq<TokenView> {
        tokens_view(self.tokens@)
    }
}

impl Parser {
    /// Take ownership of a token sequence as the queue to parse.
    pub fn new(tokens: Vec<Token>) -> (p: Parser)
        ensures
            p@ == tokens_view(tokens@),
    {
        let ghost orig = tokens@;
        let mut v = tokens;
        let mut q: VecDeque<Token> = VecDeque::new();
        while v.len() > 0
            invariant
                q@ + v@ == orig,
            decreases v.len(),
        {
            let t = v.remove(0);
            q.push_back(t);
            proof {
                assert(q@ + v@ =~= orig);
            }
        }
        proof {
            assert(q@ =~= orig);
        }
        Parser { tokens: q }
    }

    /// Whether the front token starts a primary expression.
    fn peek_primary_start(&self) -> (r: bool)
        ensures
            r == (self@.len() > 0 && is_primary_start(self@[0])),
    {
        if self.tokens.len() == 0 {
            false
        } else {
            match &self.tokens[0] {
                Token::Identifier(_) => true,
                Token::Number(_) => true,
                Token::StringLiteral(_) => true,
                _ => false,
            }
        }
    }

    /// Parse one expression off the front of the queue, exactly as
    /// [`spec_parse_expression`] names it: a number, a string literal, or an
    /// identifier — a one-argument call when the next token starts a primary
    /// expression, a variable reference otherwise. Fails, consuming the
    /// offending token, exactly when the specification fails: at the end of
    /// the input or on a token no expression can start with.
    pub fn parse_expression(&mut self) -> (r: Result<Node, ScriptError>)
        ensures
            match r {
                Ok(node) => spec_parse_expression(old(self)@) == Some((node_view(node), final(self)@))
                    && final(self)@.len() < old(self)@.len(),
                Err(_) => spec_parse_expression(old(self)@) is None,
            },
        decreases old(self)@.len(),
    {
        if self.tokens.len() == 0 {
            return Err(ScriptError::Parse(String::from_str("Unexpected end of input")));
        }
        let t = self.tokens.pop_front().unwrap();
        proof {
            assert(self@ =~= old(self)@.drop_first());
        }
        match t {
            Token::Number(text) => Ok(Node::Number(Number { value: text })),
            Token::StringLiteral(value) => Ok(Node::StringLiteral(StringLiteral { value })),
            Token::Identifier(name) => {
                if self.peek_primary_start() {
                    match self.parse_expression() {
                        Ok(arg) => {
                            let ghost argv = node_view(arg);
                            let mut args: Vec<Node> = Vec::new();
                            args.push(arg);
                            proof {
                                assert(args@.drop_last() =~= Seq::<Node>::empty());
                                assert(args@.last() == arg);
                                assert(nodes_view(Seq::<Node>::empty()) =~= Seq::<
                                    NodeView,
                                >::empty());
                                assert(nodes_view(args@) =~= seq![argv]);
                            }
                            Ok(Node::FunctionCall(FunctionCall { name, args }))
                        },
                        Err(e) => Err(e),
                    }
                } else {
                    Ok(Node::Var(Var { name }))
                }
            },
            _ => Err(ScriptError::Parse(String::from_str("Unexpected token"))),
        }
    }

    /// Parse one expression and wrap it as the single argument of a call of
    /// the built-in `print`. Both `ret` and a leading `print` desugar here.
    fn parse_print_argument(&mut self) -> (r: Result<Node, ScriptError>)
        ensures
            match r {
                Ok(node) => ({
                    &&& spec_parse_expression(old(self)@) is Some
                    &&& ({
                        let (e, rest) = spec_parse_expression(old(self)@)->Some_0;
                        node_view(node) == (NodeView::FunctionCall {
                            name: "print"@,
                            args: seq![e],
                        }) && final(self)@ == rest
                    })
                    &&& final(self)@.len() < old(self)@.len()
                }),
                Err(_) => spec_parse_expression(old(self)@) is None,
            },
    {
        match self.parse_expression() {
            Ok(e) => {
                let ghost ev = node_view(e);
                let mut args: Vec<Node> = Vec::new();
                args.push(e);
                proof {
                    assert(args@.drop_last() =~= Seq::<Node>::empty());
                    assert(args@.last() == e);
                    assert(nodes_view(Seq::<Node>::empty()) =~= Seq::<NodeView>::empty());
                    assert(nodes_view(args@) =~= seq![ev]);
                }
                Ok(Node::FunctionCall(FunctionCall { name: String::from_str("print"), args }))
            },
            Err(err) => Err(err),
        }
    }

    /// Parse one statement off the front of the queue, exactly as
    /// [`spec_parse_statement`] names it: a `var` declaration, a `ret` or
    /// `print` call — the two are synonymous — or a bare expression. Fails
    /// exactly when the specification fails.
    pub fn parse_statement(&mut self) -> (r: Result<Node, ScriptError>)
        ensures
            match r {
                Ok(node) => spec_parse_statement(old(self)@) == Some(
                    (node_view(node), final(self)@),
                ) && final(self)@.len() < old(self)@.len(),
                Err(_) => spec_parse_statement(old(self)@) is None,
            },
    {
        if self.tokens.len() == 0 {
            return Err(ScriptError::Parse(String::from_str("Unexpected end of input")));
        }
        let front_is_var = matches!(&self.tokens[0], Token::Var);
        let front_is_ret = matches!(&self.tokens[0], Token::Ret);
        let front_is_print = match &self.tokens[0] {
            Token::Identifier(name) => str_eq_keyword(name, "print"),
            _ => false,
        };
        if front_is_var {
            let _ = self.tokens.pop_front();
            proof {
                assert(self@ =~= old(self)@.drop_first());
            }
            let ghost r1 = self@;
            match self.tokens.pop_front() {
                Some(Token::Identifier(name)) => {
                    proof {
                        assert(self@ =~= r1.drop_first());
                    }
                    match self.tokens.pop_front() {
                        Some(Token::Assign) => {
                            proof {
                                assert(self@ =~= r1.drop_first().drop_first());
                            }
                            match self.parse_expression() {
                                Ok(e) => Ok(Node::Assign(Assign { name, expr: Box::new(e) })),
                                Err(err) => Err(err),
                            }
                        },
                        _ => Err(
                            ScriptError::Parse(
                                String::from_str("Expected assignment operator ':='"),
                            ),
                        ),
                    }
                },
                _ => Err(
                    ScriptError::Parse(String::from_str("Expected variable name after 'var'")),
                ),
            }
        } else if front_is_ret {
            let _ = self.tokens.pop_front();
            proof {
                assert(self@ =~= old(self)@.drop_first());
            }
            self.parse_print_argument()
        } else if front_is_print {
            let _ = self.tokens.pop_front();
            proof {
                assert(self@ =~= old(self)@.drop_first());
            }
            self.parse_print_argument()
        } else {
            self.parse_expression()
        }
    }

    /// Parse a section block off the front of the queue, exactly as
    /// [`spec_parse_section`] names it: consume the `BEGIN SECTION` opener,
    /// then statements until an `END SECTION` terminator or the end of the
    /// input — a missing terminator is not an error. Fails exactly when the
    /// specification fails: when the queue does not start with the opener, or
    /// when a statement inside fails.
    pub fn parse_section(&mut self) -> (r: Result<Vec<Node>, ScriptError>)
        ensures
            match r {
                Ok(nodes) => spec_parse_section(old(self)@) == Some(
                    (nodes_view(nodes@), final(self)@),
                ) && final(self)@.len() < old(self)@.len(),
                Err(_) => spec_parse_section(old(self)@) is None,
            },
    {
        let begin_ok = self.tokens.len() > 0 && matches!(&self.tokens[0], Token::BeginSection(_));
        if !begin_ok {
            return Err(ScriptError::Parse(String::from_str("Expected section name")));
        }
        let _ = self.tokens.pop_front();
        proof {
            assert(self@ =~= old(self)@.drop_first());
        }
        let ghost b0 = self@;
        let mut statements: Vec<Node> = Vec::new();
        proof {
            assert(nodes_view(statements@) =~= Seq::<NodeView>::empty());
            if spec_parse_section_body(b0) is Some {
                let (cur, crest) = spec_parse_section_body(b0)->Some_0;
                assert(nodes_view(statements@) + cur =~= cur);
            }
        }
        loop
            invariant_except_break
                spec_parse_section_body(b0) is Some <==> spec_parse_section_body(self@) is Some,
                spec_parse_section_body(b0) is Some ==> ({
                    let (total, trest) = spec_parse_section_body(b0)->Some_0;
                    let (cur, crest) = spec_parse_section_body(self@)->Some_0;
                    total == nodes_view(statements@) + cur && trest == crest
                }),
            invariant
                old(self)@.len() > 0,
                old(self)@[0] is BeginSection,
                b0 == old(self)@.drop_first(),
                self@.len() <= b0.len(),
            ensures
                self@.len() <= b0.len(),
                spec_parse_section_body(b0) == Some((nodes_view(statements@), self@)),
            decreases self@.len(),
        {
            if self.tokens.len() == 0 {
                proof {
                    assert(spec_parse_section_body(self@) == Some(
                        (Seq::<NodeView>::empty(), self@),
                    ));
                    assert(nodes_view(statements@) + Seq::<NodeView>::empty() =~= nodes_view(
                        statements@,
                    ));
                }
                break;
            }
            if matches!(&self.tokens[0], Token::EndSection(_)) {
                let ghost vb = self@;
                let _ = self.tokens.pop_front();
                proof {
                    assert(self@ =~= vb.drop_first());
                    assert(spec_parse_section_body(vb) == Some(
                        (Seq::<NodeView>::empty(), self@),
                    ));
                    assert(nodes_view(statements@) + Seq::<NodeView>::empty() =~= nodes_view(
                        statements@,
                    ));
                }
                break;
            }
            let ghost vb = self@;
            let ghost pv = statements@;
            match self.parse_statement() {
                Ok(st) => {
                    let ghost stv = node_view(st);
                    statements.push(st);
                    proof {
                        lemma_nodes_view_push(pv, st);
                        assert(spec_parse_section_body(vb) == (match spec_parse_section_body(
                            self@,
                        ) {
                            Some((ns, r2)) => Some((seq![stv] + ns, r2)),
                            None => None,
                        }));
                        if spec_parse_section_body(self@) is Some {
                            let (ns, r2) = spec_parse_section_body(self@)->Some_0;
                            assert(nodes_view(pv).push(stv) + ns =~= nodes_view(pv) + (seq![stv]
                                + ns));
                        }
                    }
                },
                Err(e) => {
                    proof {
                        assert(spec_parse_section_body(vb) is None);
                        assert(spec_parse_section(old(self)@) is None);
                    }
                    return Err(e);
                },
            }
        }
        Ok(statements)
    }

    /// Parse a project block off the front of the queue, exactly as
    /// [`spec_parse_project`] names it: consume the `BEGIN PROJ` opener, then
    /// statements and section blocks until an `END PROJ` terminator or the
    /// end of the input — a missing terminator is not an error. Fails exactly
    /// when the specification fails: when the queue does not start with the
    /// opener, or when anything inside fails.
    pub fn parse_project(&mut self) -> (r: Result<Vec<Node>, ScriptError>)
        ensures
            match r {
                Ok(nodes) => spec_parse_project(old(self)@) == Some(
                    (nodes_view(nodes@), final(self)@),
                ) && final(self)@.len() < old(self)@.len(),
                Err(_) => spec_parse_project(old(self)@) is None,
            },
    {
        let begin_ok = self.tokens.len() > 0 && matches!(&self.tokens[0], Token::BeginProj(_));
        if !begin_ok {
            return Err(ScriptError::Parse(String::from_str("Expected project name")));
        }
        let _ = self.tokens.pop_front();
        proof {
            assert(self@ =~= old(self)@.drop_first());
        }
        let ghost b0 = self@;
        let mut statements: Vec<Node> = Vec::new();
        proof {
            assert(nodes_view(statements@) =~= Seq::<NodeView>::empty());
            if spec_parse_project_body(b0) is Some {
                let (cur, crest) = spec_parse_project_body(b0)->Some_0;
                assert(nodes_view(statements@) + cur =~= cur);
            }
        }
        loop
            invariant_except_break
                spec_parse_project_body(b0) is Some <==> spec_parse_project_body(self@) is Some,
                spec_parse_project_body(b0) is Some ==> ({
                    let (total, trest) = spec_parse_project_body(b0)->Some_0;
                    let (cur, crest) = spec_parse_project_body(self@)->Some_0;
                    total == nodes_view(statements@) + cur && trest == crest
                }),
            invariant
                old(self)@.len() > 0,
                old(self)@[0] is BeginProj,
                b0 == old(self)@.drop_first(),
                self@.len() <= b0.len(),
            ensures
                self@.len() <= b0.len(),
                spec_parse_project_body(b0) == Some((nodes_view(statements@), self@)),
            decreases self@.len(),
        {
            if self.tokens.len() == 0 {
                proof {
                    assert(spec_parse_project_body(self@) == Some(
                        (Seq::<NodeView>::empty(), self@),
                    ));
                    assert(nodes_view(statements@) + Seq::<NodeView>::empty() =~= nodes_view(
                        statements@,
                    ));
                }
                break;
            }
            if matches!(&self.tokens[0], Token::EndProj(_)) {
                let ghost vb = self@;
                let _ = self.tokens.pop_front();
                proof {
                    assert(self@ =~= vb.drop_first());
                    assert(spec_parse_project_body(vb) == Some(
                        (Seq::<NodeView>::empty(), self@),
                    ));
                    assert(nodes_view(statements@) + Seq::<NodeView>::empty() =~= nodes_view(
                        statements@,
                    ));
                }
                break;
            }
            let ghost vb = self@;
            let ghost pv = statements@;
            if matches!(&self.tokens[0], Token::BeginSection(_)) {
                match self.parse_section() {
                    Ok(mut section_statements) => {
                        let ghost sj = section_statements@;
                        let ghost sv = nodes_view(section_statements@);
                        statements.append(&mut section_statements);
                        proof {
                            lemma_nodes_view_concat(pv, sj);
                            assert(spec_parse_project_body(vb) == (match spec_parse_project_body(
                                self@,
                            ) {
                                Some((more, r2)) => Some((sv + more, r2)),
                                None => None,
                            }));
                            if spec_parse_project_body(self@) is Some {
                                let (more, r2) = spec_parse_project_body(self@)->Some_0;
                                assert((nodes_view(pv) + sv) + more =~= nodes_view(pv) + (sv
                                    + more));
                            }
                        }
                    },
                    Err(e) => {
                        proof {
                            assert(spec_parse_project_body(vb) is None);
                            assert(spec_parse_project(old(self)@) is None);
                        }
                        return Err(e);
                    },
                }
            } else {
                match self.parse_statement() {
                    Ok(st) => {
                        let ghost stv = node_view(st);
                        statements.push(st);
                        proof {
                            lemma_nodes_view_push(pv, st);
                            assert(spec_parse_project_body(vb) == (match spec_parse_project_body(
                                self@,
                            ) {
                                Some((ns, r2)) => Some((seq![stv] + ns, r2)),
                                None => None,
                            }));
                            if spec_parse_project_body(self@) is Some {
                                let (ns, r2) = spec_parse_project_body(self@)->Some_0;
                                assert(nodes_view(pv).push(stv) + ns =~= nodes_view(pv) + (
                                seq![stv] + ns));
                            }
                        }
                    },
                    Err(e) => {
                        proof {
                            assert(spec_parse_project_body(vb) is None);
                            assert(spec_parse_project(old(self)@) is None);
                        }
                        return Err(e);
                    },
                }
            }
        }
        Ok(statements)
    }

    /// Parse the whole program: statements and project blocks until the queue
    /// is drained, exactly as [`spec_parse_program`] names it. On success the
    /// queue is fully consumed and the result is the flat ordered sequence of
    /// the program's nodes; the first failure aborts the parse with no
    /// partial result.
    pub fn parse_program(&mut self) -> (r: Result<Vec<Node>, ScriptError>)
        ensures
            match r {
                Ok(nodes) => spec_parse_program(old(self)@) == Some(nodes_view(nodes@))
                    && final(self)@.len() == 0,
                Err(_) => spec_parse_program(old(self)@) is None,
            },
    {
        let mut statements: Vec<Node> = Vec::new();
        proof {
            assert(nodes_view(statements@) =~= Seq::<NodeView>::empty());
            if spec_parse_program(self@) is Some {
                let cur = spec_parse_program(self@)->Some_0;
                assert(nodes_view(statements@) + cur =~= cur);
            }
        }
        loop
            invariant
                spec_parse_program(old(self)@) is Some <==> spec_parse_program(self@) is Some,
                spec_parse_program(old(self)@) is Some ==> ({
                    let total = spec_parse_program(old(self)@)->Some_0;
                    let cur = spec_parse_program(self@)->Some_0;
                    total == nodes_view(statements@) + cur
                }),
            ensures
                self@.len() == 0,
                spec_parse_program(old(self)@) == Some(nodes_view(statements@)),
            decreases self@.len(),
        {
            if self.tokens.len() == 0 {
                proof {
                    assert(spec_parse_program(self@) == Some(Seq::<NodeView>::empty()));
                    assert(nodes_view(statements@) + Seq::<NodeView>::empty() =~= nodes_view(
                        statements@,
                    ));
                }
                break;
            }
            let ghost vb = self@;
            let ghost pv = statements@;
            if matches!(&self.tokens[0], Token::BeginProj(_)) {
                match self.parse_project() {
                    Ok(mut proj_statements) => {
                        let ghost pj = proj_statements@;
                        let ghost sv = nodes_view(proj_statements@);
                        statements.append(&mut proj_statements);
                        proof {
                            lemma_nodes_view_concat(pv, pj);
                            assert(spec_parse_program(vb) == (match spec_parse_program(self@) {
                                Some(more) => Some(sv + more),
                                None => None,
                            }));
                            if spec_parse_program(self@) is Some {
                                let more = spec_parse_program(self@)->Some_0;
                                assert((nodes_view(pv) + sv) + more =~= nodes_view(pv) + (sv
                                    + more));
                            }
                        }
                    },
                    Err(e) => {
                        proof {
                            assert(spec_parse_program(vb) is None);
                        }
                        return Err(e);
                    },
                }
            } else {
                match self.parse_statement() {
                    Ok(st) => {
                        let ghost stv = node_view(st);
                        statements.push(st);
                        proof {
                            lemma_nodes_view_push(pv, st);
                            assert(spec_parse_program(vb) == (match spec_parse_program(self@) {
                                Some(more) => Some(seq![stv] + more),
                                None => None,
                            }));
                            if spec_parse_program(self@) is Some {
                                let more = spec_parse_program(self@)->Some_0;
                                assert(nodes_view(pv).push(stv) + more =~= nodes_view(pv) + (
                                seq![stv] + more));
                            }
                        }
                    },
                    Err(e) => {
                        proof {
                            assert(spec_parse_program(vb) is None);
                        }
                        return Err(e);
                    },
                }
            }
        }
        Ok(statements)
    }
}

/// Scan and parse a whole source text: the compute half of loading a script,
/// once the text is in memory. Returns the program's flat ordered node
/// sequence, or the first parse failure; scanning itself never fails.
pub fn parse_source(source: &str) -> (r: Result<Vec<Node>, ScriptError>)
    ensures
        match r {
            Ok(nodes) => spec_parse_program(spec_tokenize(source@)) == Some(nodes_view(nodes@)),
            Err(_) => spec_parse_program(spec_tokenize(source@)) is None,
        },
{
    let tokens = tokenize(source);
    let mut parser = Parser::new(tokens);
    parser.parse_program()
}

} // verus!
