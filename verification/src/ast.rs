//! The abstract syntax tree and the visitor protocol.
//!
//! The tree is a closed set of node variants gathered in the [`Node`] enum;
//! every consumer walks it through [`Node::accept`], which dispatches to the
//! one [`Visitor`] operation that matches the concrete variant and hands its
//! [`Value`] back. Composite nodes own their children outright: the tree has
//! no sharing and no cycles, and no node is mutated after construction.
//!
//! Numeric payloads are carried as the decimal text written in the source
//! (a run of digits with at most one dot); the front end never computes with
//! the number, so the text is the whole of what it knows about it.

use vstd::prelude::*;

verus! {

/// The result a visitor hands back for one node: a number (as its decimal
/// text), a string, or nothing. The front end does not interpret it further.
#[derive(Debug, PartialEq)]
pub enum Value {
    Number(String),
    Str(String),
    Nothing,
}

/// A raw mathematical expression kept as uninterpreted text. No grammar rule
/// currently constructs this node; it is reserved data.
#[derive(Debug, PartialEq)]
pub struct EvalMathExp {
    pub expr: String,
}

/// A binary operation over two child expressions. No grammar rule currently
/// constructs this node; it is reserved data.
#[derive(Debug, PartialEq)]
pub struct BinOp {
    pub left: Box<Node>,
    pub op: String,
    pub right: Box<Node>,
}

/// A numeric literal, carried as the decimal text written in the source.
#[derive(Debug, PartialEq)]
pub struct Number {
    pub value: String,
}

/// A reference to a variable by name.
#[derive(Debug, PartialEq)]
pub struct Var {
    pub name: String,
}

/// Binding of a variable name to the value of an expression.
#[derive(Debug, PartialEq)]
pub struct Assign {
    pub name: String,
    pub expr: Box<Node>,
}

/// A string literal.
#[derive(Debug, PartialEq)]
pub struct StringLiteral {
    pub value: String,
}

/// A call of a named function with an ordered argument list.
#[derive(Debug, PartialEq)]
pub struct FunctionCall {
    pub name: String,
    pub args: Vec<Node>,
}

/// A comment, kept verbatim.
#[derive(Debug, PartialEq)]
pub struct Comment {
    pub value: String,
}

/// One node of the tree: the closed set of variants the parser can build.
/// Adding a variant requires updating every visitor implementation.
#[derive(Debug, PartialEq)]
pub enum Node {
    EvalMathExp(EvalMathExp),
    BinOp(BinOp),
    Number(Number),
    Var(Var),
    Assign(Assign),
    StringLiteral(StringLiteral),
    FunctionCall(FunctionCall),
    Comment(Comment),
}

/// The mathematical shape of a node: the same variants over sequences of
/// characters, the form the parser's specification speaks of.
pub enum NodeView {
    EvalMathExp { expr: Seq<char> },
    BinOp { left: Box<NodeView>, op: Seq<char>, right: Box<NodeView> },
    Number { value: Seq<char> },
    Var { name: Seq<char> },
    Assign { name: Seq<char>, expr: Box<NodeView> },
    StringLiteral { value: Seq<char> },
    FunctionCall { name: Seq<char>, args: Seq<NodeView> },
    Comment { value: Seq<char> },
}

/// The mathematical shape of one node.
pub open spec fn node_view(node: Node) -> NodeView
    decreases node,
{
    match node {
        Node::EvalMathExp(n) => NodeView::EvalMathExp { expr: n.expr@ },
        Node::BinOp(n) => NodeView::BinOp {
            left: Box::new(node_view(*n.left)),
            op: n.op@,
            right: Box::new(node_view(*n.right)),
        },
        Node::Number(n) => NodeView::Number { value: n.value@ },
        Node::Var(n) => NodeView::Var { name: n.name@ },
        Node::Assign(n) => NodeView::Assign {
            name: n.name@,
            expr: Box::new(node_view(*n.expr)),
        },
        Node::StringLiteral(n) => NodeView::StringLiteral { value: n.value@ },
        Node::FunctionCall(n) => NodeView::FunctionCall {
            name: n.name@,
            args: nodes_view(n.args@),
        },
        Node::Comment(n) => NodeView::Comment { value: n.value@ },
    }
}

/// The mathematical shape of an ordered sequence of nodes, elementwise.
pub open spec fn nodes_view(nodes: Seq<Node>) -> Seq<NodeView>
    decreases nodes,
{
    if nodes.len() == 0 {
        Seq::empty()
    } else {
        nodes_view(nodes.drop_last()).push(node_view(nodes.last()))
    }
}

impl View for Node {
    type V = NodeView;

    open spec fn view(&self) -> NodeView {
        node_view(*self)
    }
}

/// The text that joining the given parts with single spaces yields.
pub open spec fn spec_join_spaces(parts: Seq<Seq<char>>) -> Seq<char>
    decreases parts.len(),
{
    if parts.len() == 0 {
        Seq::empty()
    } else if parts.len() == 1 {
        parts[0]
    } else {
        spec_join_spaces(parts.drop_last()) + seq![' '] + parts.last()
    }
}

/// Appending one node to a sequence appends its shape to the sequence's.
pub proof fn lemma_nodes_view_push(s: Seq<Node>, x: Node)
    ensures
        nodes_view(s.push(x)) == nodes_view(s).push(node_view(x)),
{
    assert(s.push(x).drop_last() =~= s);
    assert(s.push(x).last() == x);
}

/// The shape of a concatenation is the concatenation of the shapes.
pub proof fn lemma_nodes_view_concat(a: Seq<Node>, b: Seq<Node>)
    ensures
        nodes_view(a + b) == nodes_view(a) + nodes_view(b),
    decreases b.len(),
{
    if b.len() == 0 {
        assert(a + b =~= a);
        assert(nodes_view(b) =~= Seq::<NodeView>::empty());
        assert(nodes_view(a) + nodes_view(b) =~= nodes_view(a));
    } else {
        lemma_nodes_view_concat(a, b.drop_last());
        assert((a + b).drop_last() =~= a + b.drop_last());
        assert((a + b).last() == b.last());
        assert((nodes_view(a) + nodes_view(b.drop_last())).push(node_view(b.last())) =~= nodes_view(
            a,
        ) + nodes_view(b.drop_last()).push(node_view(b.last())));
    }
}

impl EvalMathExp {
    /// Build the node from expression fragments, joined with single spaces.
    pub fn parse(expr_tokens: Vec<&str>) -> (r: EvalMathExp)
        ensures
            r.expr@ == spec_join_spaces(expr_tokens@.map_values(|p: &str| p@)),
    {
        let ghost parts = expr_tokens@.map_values(|p: &str| p@);
        let mut expr = String::new();
        let mut i: usize = 0;
        proof {
            assert(parts.take(0) =~= Seq::<Seq<char>>::empty());
        }
        while i < expr_tokens.len()
            invariant
                i <= expr_tokens@.len(),
                parts == expr_tokens@.map_values(|p: &str| p@),
                expr@ == spec_join_spaces(parts.take(i as int)),
            decreases expr_tokens@.len() - i,
        {
            let ghost before = expr@;
            if i > 0 {
                expr.append(" ");
            }
            let part: &str = expr_tokens[i];
            expr.append(part);
            proof {
                reveal_strlit(" ");
                assert(" "@ =~= seq![' ']);
                assert(parts.take(i + 1).drop_last() =~= parts.take(i as int));
                assert(parts.take(i + 1).last() == parts[i as int]);
                if i == 0 {
                    assert(expr@ =~= part@);
                } else {
                    assert(expr@ =~= before + seq![' '] + part@);
                }
            }
            i = i + 1;
        }
        proof {
            assert(parts.take(expr_tokens@.len() as int) =~= parts);
        }
        EvalMathExp { expr }
    }
}

impl BinOp {
    /// Build the node from its two children and the operator symbol.
    pub fn parse(left: Box<Node>, op: String, right: Box<Node>) -> (r: BinOp)
        ensures
            r.left == left,
            r.op == op,
            r.right == right,
    {
        BinOp { left, op, right }
    }
}

impl Number {
    /// Build the node from the numeric text written in the source.
    pub fn parse(value: &str) -> (r: Number)
        ensures
            r.value@ == value@,
    {
        Number { value: value.to_owned() }
    }
}

impl Var {
    /// Build the node from the variable's name.
    pub fn parse(name: String) -> (r: Var)
        ensures
            r.name == name,
    {
        Var { name }
    }
}

impl Assign {
    /// Build the node from the bound name and the assigned expression.
    pub fn parse(name: String, expr: Box<Node>) -> (r: Assign)
        ensures
            r.name == name,
            r.expr == expr,
    {
        Assign { name, expr }
    }
}

impl StringLiteral {
    /// Build the node from the literal's text.
    pub fn parse(value: String) -> (r: StringLiteral)
        ensures
            r.value == value,
    {
        StringLiteral { value }
    }
}

impl FunctionCall {
    /// Build the node from the function's name and its ordered arguments.
    pub fn parse(name: String, args: Vec<Node>) -> (r: FunctionCall)
        ensures
            r.name == name,
            r.args == args,
    {
        FunctionCall { name, args }
    }
}

impl Comment {
    /// Build the node from the comment's text.
    pub fn parse(value: String) -> (r: Comment)
        ensures
            r.value == value,
    {
        Comment { value }
    }
}

/// The visitor protocol: one operation per node variant, each returning a
/// [`Value`]. All semantic behaviour (evaluation, printing, analysis) lives
/// in the implementations, which are supplied by the tree's consumers.
pub trait Visitor {
    fn visit_eval_math_exp(&mut self, node: &EvalMathExp) -> Value;

    fn visit_bin_op(&mut self, node: &BinOp) -> Value;

    fn visit_number(&mut self, node: &Number) -> Value;

    fn visit_var(&mut self, node: &Var) -> Value;

    fn visit_assign(&mut self, node: &Assign) -> Value;

    fn visit_string_literal(&mut self, node: &StringLiteral) -> Value;

    fn visit_function_call(&mut self, node: &FunctionCall) -> Value;

    fn visit_comment(&mut self, node: &Comment) -> Value;
}

impl Node {
    /// Double dispatch: invoke the one visitor operation that matches this
    /// node's concrete variant and return its result. The match is exhaustive
    /// over the closed variant set, so a missing case is a build error.
    pub fn accept<V: Visitor>(&self, visitor: &mut V) -> Value {
        match self {
            Node::EvalMathExp(n) => visitor.visit_eval_math_exp(n),
            Node::BinOp(n) => visitor.visit_bin_op(n),
            Node::Number(n) => visitor.visit_number(n),
            Node::Var(n) => visitor.visit_var(n),
            Node::Assign(n) => visitor.visit_assign(n),
            Node::StringLiteral(n) => visitor.visit_string_literal(n),
            Node::FunctionCall(n) => visitor.visit_function_call(n),
            Node::Comment(n) => visitor.visit_comment(n),
        }
    }
}

} // verus!
