use oak_frontend::tokenizer::{tokenize, Token};

fn ident(s: &str) -> Token {
    Token::Identifier(s.to_string())
}

#[test]
fn tokenize_empty_input() {
    assert_eq!(tokenize(""), vec![]);
}

#[test]
fn tokenize_assignment_statement() {
    let tokens = tokenize("var x := 5");
    assert_eq!(
        tokens,
        vec![
            Token::Var,
            ident("x"),
            Token::Assign,
            Token::Number("5".to_string()),
        ]
    );
}

#[test]
fn tokenize_whitespace_insensitive() {
    // Whitespace only separates tokens; it never changes them.
    assert_eq!(tokenize("x:=5+3"), tokenize("x := 5 + 3"));
    assert_eq!(tokenize("x:=5+3"), tokenize("  x\t:=\n5 +\r\n3  "));
}

#[test]
fn tokenize_operators_one_character_each() {
    assert_eq!(
        tokenize("+ - * / % ^"),
        vec![
            Token::Operator("+".to_string()),
            Token::Operator("-".to_string()),
            Token::Operator("*".to_string()),
            Token::Operator("/".to_string()),
            Token::Operator("%".to_string()),
            Token::Operator("^".to_string()),
        ]
    );
}

#[test]
fn tokenize_lone_colon_is_unknown() {
    // ":" opens an assignment marker only when "=" follows immediately.
    assert_eq!(tokenize(":"), vec![Token::Unknown(":".to_string())]);
    assert_eq!(
        tokenize(": ="),
        vec![
            Token::Unknown(":".to_string()),
            Token::Unknown("=".to_string()),
        ]
    );
}

#[test]
fn tokenize_string_literal() {
    assert_eq!(
        tokenize("\"hello world\""),
        vec![Token::StringLiteral("hello world".to_string())]
    );
}

#[test]
fn tokenize_unterminated_string_runs_to_end() {
    // An unterminated literal silently consumes the rest of the input.
    assert_eq!(
        tokenize("\"abc def"),
        vec![Token::StringLiteral("abc def".to_string())]
    );
}

#[test]
fn tokenize_numbers_and_malformed_digit_runs() {
    assert_eq!(tokenize("5.5"), vec![Token::Number("5.5".to_string())]);
    assert_eq!(tokenize("12."), vec![Token::Number("12.".to_string())]);
    // A digit run with more than one dot does not denote a number.
    assert_eq!(
        tokenize("1.2.3"),
        vec![Token::Unknown("1.2.3".to_string())]
    );
}

#[test]
fn tokenize_reserved_words() {
    assert_eq!(tokenize("var"), vec![Token::Var]);
    assert_eq!(tokenize("ret"), vec![Token::Ret]);
    // Only the exact words are reserved.
    assert_eq!(tokenize("variable"), vec![ident("variable")]);
    assert_eq!(tokenize("retx"), vec![ident("retx")]);
}

#[test]
fn tokenize_identifier_run() {
    assert_eq!(tokenize("a1_b2"), vec![ident("a1_b2")]);
}

#[test]
fn tokenize_structural_delimiters() {
    assert_eq!(
        tokenize("BEGIN PROJ \"p\""),
        vec![Token::BeginProj("p".to_string())]
    );
    assert_eq!(
        tokenize("END PROJ \"p\""),
        vec![Token::EndProj("p".to_string())]
    );
    assert_eq!(
        tokenize("BEGIN SECTION \"s\""),
        vec![Token::BeginSection("s".to_string())]
    );
    assert_eq!(
        tokenize("END SECTION \"s\""),
        vec![Token::EndSection("s".to_string())]
    );
}

#[test]
fn tokenize_begin_without_structural_word_is_identifier() {
    // The lookahead word is not consumed when it is not PROJ or SECTION.
    assert_eq!(
        tokenize("BEGIN other"),
        vec![ident("BEGIN"), ident("other")]
    );
    assert_eq!(tokenize("END"), vec![ident("END")]);
    assert_eq!(tokenize("BEGIN 5"), vec![ident("BEGIN"), Token::Number("5".to_string())]);
}

#[test]
fn tokenize_begin_proj_without_quoted_name_emits_nothing() {
    // Both words are consumed, no structural token is emitted, and scanning
    // resumes at the next character.
    assert_eq!(tokenize("BEGIN PROJ x"), vec![ident("x")]);
    assert_eq!(tokenize("END SECTION"), vec![]);
}

#[test]
fn tokenize_unknown_characters_one_by_one() {
    assert_eq!(
        tokenize("@#"),
        vec![
            Token::Unknown("@".to_string()),
            Token::Unknown("#".to_string()),
        ]
    );
}

#[test]
fn tokenize_is_total_on_arbitrary_input() {
    // Every input tokenizes; nothing panics and nothing is dropped silently.
    let inputs = [
        "\"",
        ":::",
        "1.2.3.4 \" BEGIN END PROJ",
        "BEGIN PROJ",
        "END PROJ \"unclosed",
        "h\u{e9}llo w\u{f6}rld",
        "\u{3000}var\u{3000}x",
    ];
    for input in inputs {
        let _ = tokenize(input);
    }
    // Unicode whitespace separates tokens just as ASCII whitespace does.
    assert_eq!(
        tokenize("\u{3000}var\u{3000}x"),
        vec![Token::Var, ident("x")]
    );
}
