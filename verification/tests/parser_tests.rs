use oak_frontend::ast::{
    Assign, BinOp, Comment, EvalMathExp, FunctionCall, Node, Number, StringLiteral, Value, Var,
    Visitor,
};
use oak_frontend::parser::{parse_source, Parser, ScriptError};
use oak_frontend::tokenizer::{tokenize, Token};

fn number(text: &str) -> Node {
    Node::Number(Number {
        value: text.to_string(),
    })
}

fn string_literal(text: &str) -> Node {
    Node::StringLiteral(StringLiteral {
        value: text.to_string(),
    })
}

fn print_call(arg: Node) -> Node {
    Node::FunctionCall(FunctionCall {
        name: "print".to_string(),
        args: vec![arg],
    })
}

#[test]
fn empty_program_parses_to_no_nodes() {
    assert_eq!(parse_source("").unwrap(), vec![]);
}

#[test]
fn var_declaration_parses_to_assign() {
    // `var x := 5` is an Assign of name `x` to the number 5.
    let program = parse_source("var x := 5").unwrap();
    assert_eq!(program.len(), 1);
    match &program[0] {
        Node::Assign(assign) => {
            assert_eq!(assign.name, "x");
            match assign.expr.as_ref() {
                Node::Number(n) => {
                    let value: f64 = n.value.parse().unwrap();
                    assert_eq!(value, 5.0);
                }
                other => panic!("expected a Number expression, got {:?}", other),
            }
        }
        other => panic!("expected an Assign node, got {:?}", other),
    }
}

#[test]
fn ret_and_print_parse_identically() {
    // Both desugar to a call of the built-in `print` with the same argument.
    let ret_program = parse_source("ret \"hello\"").unwrap();
    let print_program = parse_source("print \"hello\"").unwrap();
    assert_eq!(ret_program, print_program);
    assert_eq!(ret_program, vec![print_call(string_literal("hello"))]);
}

#[test]
fn identifier_before_literal_is_function_call() {
    let program = parse_source("greet \"world\"").unwrap();
    assert_eq!(
        program,
        vec![Node::FunctionCall(FunctionCall {
            name: "greet".to_string(),
            args: vec![string_literal("world")],
        })]
    );
}

#[test]
fn identifier_alone_is_variable_reference() {
    let program = parse_source("greet").unwrap();
    assert_eq!(
        program,
        vec![Node::Var(Var {
            name: "greet".to_string(),
        })]
    );
}

#[test]
fn nested_function_calls_associate_rightward() {
    let program = parse_source("greet greet 5").unwrap();
    assert_eq!(
        program,
        vec![Node::FunctionCall(FunctionCall {
            name: "greet".to_string(),
            args: vec![Node::FunctionCall(FunctionCall {
                name: "greet".to_string(),
                args: vec![number("5")],
            })],
        })]
    );
}

#[test]
fn project_and_section_blocks_flatten_to_their_statements() {
    // The blocks group; they leave no node of their own behind. A terminator
    // without a quoted name never even becomes a token, so both spellings
    // drain the queue to the same one-element program.
    let sources = [
        "BEGIN PROJ \"p\" BEGIN SECTION \"s\" var x := 1 END SECTION END PROJ",
        "BEGIN PROJ \"p\" BEGIN SECTION \"s\" var x := 1 END SECTION \"s\" END PROJ \"p\"",
    ];
    for source in sources {
        let program = parse_source(source).unwrap();
        assert_eq!(program.len(), 1);
        match &program[0] {
            Node::Assign(assign) => assert_eq!(assign.name, "x"),
            other => panic!("expected an Assign node, got {:?}", other),
        }
    }
}

#[test]
fn missing_end_proj_is_not_an_error() {
    // A project block without its terminator runs to the end of the input,
    // its contents parsed as ordinary statements.
    let program = parse_source("BEGIN PROJ \"p\" var x := 1 ret 2").unwrap();
    assert_eq!(program.len(), 2);
    assert!(matches!(&program[0], Node::Assign(_)));
    assert_eq!(program[1], print_call(number("2")));
}

#[test]
fn missing_end_section_is_not_an_error() {
    let program = parse_source("BEGIN PROJ \"p\" BEGIN SECTION \"s\" var x := 1").unwrap();
    assert_eq!(program.len(), 1);
    assert!(matches!(&program[0], Node::Assign(_)));
}

#[test]
fn bare_operator_is_a_parse_failure() {
    // An operator where an expression is expected fails; it never crashes
    // and is never skipped.
    let result = parse_source("+");
    match result {
        Err(ScriptError::Parse(message)) => assert!(!message.is_empty()),
        Ok(nodes) => panic!("a bare operator must not parse, got {:?}", nodes),
    }
    assert!(parse_source("var x := +").is_err());
    assert!(parse_source("ret *").is_err());
}

#[test]
fn var_without_name_or_marker_fails() {
    assert!(parse_source("var").is_err());
    assert!(parse_source("var 5 := 3").is_err());
    assert!(parse_source("var x").is_err());
    assert!(parse_source("var x = 5").is_err());
    assert!(parse_source("var x :=").is_err());
}

#[test]
fn ret_at_end_of_input_fails() {
    // `ret` and `print` both demand an expression; a different identifier
    // alone is a variable reference instead.
    assert!(parse_source("ret").is_err());
    assert!(parse_source("print").is_err());
    assert!(parse_source("other").is_ok());
}

#[test]
fn parse_error_carries_a_message() {
    let error = parse_source("@").unwrap_err();
    let message = error.message();
    assert!(!message.is_empty());
}

#[test]
fn parser_methods_compose_like_the_whole_parse() {
    // Driving the parser by hand consumes the queue front to back.
    let mut parser = Parser::new(tokenize("var x := 5 ret \"done\""));
    let first = parser.parse_statement().unwrap();
    assert!(matches!(first, Node::Assign(_)));
    let second = parser.parse_statement().unwrap();
    assert_eq!(second, print_call(string_literal("done")));
    assert!(parser.parse_statement().is_err());
}

#[test]
fn parse_expression_consumes_one_primary() {
    let mut parser = Parser::new(tokenize("\"a\" 7"));
    assert_eq!(parser.parse_expression().unwrap(), string_literal("a"));
    assert_eq!(parser.parse_expression().unwrap(), number("7"));
}

#[test]
fn parse_project_requires_its_opener() {
    let mut parser = Parser::new(tokenize("var x := 1"));
    assert!(parser.parse_project().is_err());
    let mut parser = Parser::new(tokenize("BEGIN SECTION \"s\" END SECTION"));
    assert!(parser.parse_section().is_ok());
    let mut parser = Parser::new(vec![]);
    assert!(parser.parse_section().is_err());
}

#[test]
fn parse_project_stops_at_its_terminator() {
    let mut parser = Parser::new(tokenize("BEGIN PROJ \"p\" var x := 1 END PROJ \"p\" ret 2"));
    let project = parser.parse_project().unwrap();
    assert_eq!(project.len(), 1);
    assert!(matches!(&project[0], Node::Assign(_)));
    // The terminator is consumed; what follows is still in the queue.
    assert_eq!(parser.parse_statement().unwrap(), print_call(number("2")));
}

#[test]
fn project_keeps_statement_order_around_a_section() {
    let source =
        "BEGIN PROJ \"p\" ret 1 BEGIN SECTION \"s\" ret 2 END SECTION \"s\" ret 3 END PROJ \"p\"";
    let program = parse_source(source).unwrap();
    assert_eq!(
        program,
        vec![
            print_call(number("1")),
            print_call(number("2")),
            print_call(number("3")),
        ]
    );
}

#[test]
fn stray_terminators_at_top_level_fail() {
    // A terminator is consumed only inside its block; at top level it is a
    // token no statement can start with.
    assert!(parse_source("END PROJ \"p\"").is_err());
    assert!(parse_source("END SECTION \"s\"").is_err());
}

#[test]
fn project_opener_inside_a_project_fails() {
    // Project blocks do not nest: inside a block the opener is handed to the
    // statement rule, which rejects it.
    assert!(parse_source("BEGIN PROJ \"p\" BEGIN PROJ \"q\" var x := 1").is_err());
}

#[test]
fn node_builders_store_their_data() {
    let math = EvalMathExp::parse(vec!["1", "+", "2"]);
    assert_eq!(math.expr, "1 + 2");
    let empty_math = EvalMathExp::parse(vec![]);
    assert_eq!(empty_math.expr, "");

    let op = BinOp::parse(
        Box::new(number("1")),
        "+".to_string(),
        Box::new(number("2")),
    );
    assert_eq!(op.op, "+");

    assert_eq!(Number::parse("5.5").value, "5.5");
    assert_eq!(Var::parse("x".to_string()).name, "x");

    let assign = Assign::parse("x".to_string(), Box::new(number("1")));
    assert_eq!(assign.name, "x");
    assert_eq!(*assign.expr, number("1"));

    assert_eq!(StringLiteral::parse("hi".to_string()).value, "hi");

    let call = FunctionCall::parse("f".to_string(), vec![number("1")]);
    assert_eq!(call.name, "f");
    assert_eq!(call.args, vec![number("1")]);

    assert_eq!(Comment::parse("note".to_string()).value, "note");
}

/// A visitor that names the variant it was dispatched to.
struct KindNamer;

impl Visitor for KindNamer {
    fn visit_eval_math_exp(&mut self, _node: &EvalMathExp) -> Value {
        Value::Str("eval_math_exp".to_string())
    }

    fn visit_bin_op(&mut self, _node: &BinOp) -> Value {
        Value::Str("bin_op".to_string())
    }

    fn visit_number(&mut self, node: &Number) -> Value {
        Value::Number(node.value.clone())
    }

    fn visit_var(&mut self, _node: &Var) -> Value {
        Value::Str("var".to_string())
    }

    fn visit_assign(&mut self, _node: &Assign) -> Value {
        Value::Str("assign".to_string())
    }

    fn visit_string_literal(&mut self, node: &StringLiteral) -> Value {
        Value::Str(node.value.clone())
    }

    fn visit_function_call(&mut self, _node: &FunctionCall) -> Value {
        Value::Nothing
    }

    fn visit_comment(&mut self, _node: &Comment) -> Value {
        Value::Str("comment".to_string())
    }
}

#[test]
fn accept_dispatches_to_the_matching_visitor_operation() {
    let mut visitor = KindNamer;
    assert_eq!(
        number("5").accept(&mut visitor),
        Value::Number("5".to_string())
    );
    assert_eq!(
        string_literal("hi").accept(&mut visitor),
        Value::Str("hi".to_string())
    );
    assert_eq!(
        Node::Var(Var::parse("x".to_string())).accept(&mut visitor),
        Value::Str("var".to_string())
    );
    assert_eq!(
        print_call(number("1")).accept(&mut visitor),
        Value::Nothing
    );
    assert_eq!(
        Node::Assign(Assign::parse("x".to_string(), Box::new(number("1")))).accept(&mut visitor),
        Value::Str("assign".to_string())
    );
    assert_eq!(
        Node::Comment(Comment::parse("c".to_string())).accept(&mut visitor),
        Value::Str("comment".to_string())
    );
    assert_eq!(
        Node::EvalMathExp(EvalMathExp::parse(vec!["1"])).accept(&mut visitor),
        Value::Str("eval_math_exp".to_string())
    );
    let op = BinOp::parse(
        Box::new(number("1")),
        "+".to_string(),
        Box::new(number("2")),
    );
    assert_eq!(
        Node::BinOp(op).accept(&mut visitor),
        Value::Str("bin_op".to_string())
    );
}

#[test]
fn whole_pipeline_on_a_small_script() {
    let source = "var greeting := \"hello\"\nprint greeting\nret 3.5";
    let program = parse_source(source).unwrap();
    assert_eq!(program.len(), 3);
    assert!(matches!(&program[0], Node::Assign(_)));
    assert_eq!(
        program[1],
        print_call(Node::Var(Var {
            name: "greeting".to_string(),
        }))
    );
    assert_eq!(program[2], print_call(number("3.5")));
}
