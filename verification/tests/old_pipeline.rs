use mishell::parser::{ASTNode, Parser};
use mishell::tokenizer::{clasify_tokens, tokenizer, Token};

fn known(names: &[&str]) -> Vec<String> {
    names.iter().map(|s| s.to_string()).collect()
}

fn k(s: &str) -> Token {
    Token::Keyword(s.to_string())
}
fn v(s: &str) -> Token {
    Token::Value(s.to_string())
}
fn c(s: &str) -> Token {
    Token::Command(s.to_string())
}
fn sep() -> Token {
    Token::Separator(";".to_string())
}

#[test]
fn known_command_at_start() {
    assert_eq!(tokenizer("ls -la", &known(&["ls"])), vec![c("ls"), v("-la")]);
}

#[test]
fn unknown_word_is_a_value() {
    assert_eq!(tokenizer("ls -la", &known(&[])), vec![v("ls"), v("-la")]);
}

#[test]
fn for_line_is_classified() {
    assert_eq!(
        tokenizer("for x in a b; do echo $x; done", &known(&["echo"])),
        vec![k("for"), v("x"), k("in"), v("a"), v("b"), sep(), k("do"), c("echo"), v("$x"), sep(), k("done")]
    );
}

#[test]
fn command_after_for_is_not_a_command() {
    assert_eq!(tokenizer("for ls", &known(&["ls"])), vec![k("for"), v("ls")]);
}

#[test]
fn numbers_and_literals() {
    assert_eq!(
        tokenizer("42 -3.5 .5 true false | && ||", &known(&[])),
        vec![
            Token::IntegerLiteral("42".to_string()),
            Token::FloatLiteral("-3.5".to_string()),
            Token::FloatLiteral(".5".to_string()),
            Token::BooleanLiteral("true".to_string()),
            Token::BooleanLiteral("false".to_string()),
            Token::Operator("|".to_string()),
            Token::Operator("&&".to_string()),
            Token::Operator("||".to_string()),
        ]
    );
}

#[test]
fn quotes_are_dropped_and_keep_blanks() {
    assert_eq!(
        tokenizer("echo \"a b\"", &known(&["echo"])),
        vec![c("echo"), v("a b")]
    );
}

#[test]
fn semicolon_begins_the_next_word() {
    assert_eq!(tokenizer("a;b", &known(&[])), vec![v("a"), v(";b")]);
}

#[test]
fn string_literal_class() {
    assert_eq!(
        clasify_tokens("\"hi\"", &vec![], &known(&[])),
        Token::StringLiteral("\"hi\"".to_string())
    );
}

fn parse(line: &str, names: &[&str]) -> Result<ASTNode, String> {
    let toks = tokenizer(line, &known(names));
    Parser::new(toks).parse()
}

fn show(r: Result<ASTNode, String>) -> String {
    format!("{:?}", r)
}

#[test]
fn parses_a_command() {
    let r = parse("ls -la;", &["ls"]);
    assert_eq!(
        show(r),
        show(Ok(ASTNode::Command { name: "ls".to_string(), args: vec!["-la".to_string()] }))
    );
}

#[test]
fn command_ends_at_the_end_of_the_line() {
    assert_eq!(
        show(parse("ls", &["ls"])),
        show(Ok(ASTNode::Command { name: "ls".to_string(), args: vec![] }))
    );
    assert_eq!(parse("ls if", &["ls"]).unwrap_err(), "Expected an separator");
}

#[test]
fn command_word_is_needed() {
    assert_eq!(parse("foo;", &[]).unwrap_err(), "Expected a command");
}

#[test]
fn command_after_operator_is_a_command() {
    assert_eq!(
        tokenizer("cat f | grep x", &known(&["cat", "grep"])),
        vec![c("cat"), v("f"), Token::Operator("|".to_string()), c("grep"), v("x")]
    );
    assert_eq!(
        tokenizer("a && b || c > a", &known(&["a", "b", "c"])),
        vec![
            c("a"),
            Token::Operator("&&".to_string()),
            c("b"),
            Token::Operator("||".to_string()),
            c("c"),
            Token::Operator(">".to_string()),
            v("a"),
        ]
    );
}

#[test]
fn pipe_into_a_file() {
    let r = parse("ls | grep \"test\" > results.txt", &["ls", "grep"]);
    let expected = ASTNode::Redirection {
        command: Box::new(ASTNode::Pipeline {
            left: Box::new(ASTNode::Command { name: "ls".to_string(), args: vec![] }),
            right: Box::new(ASTNode::Command { name: "grep".to_string(), args: vec!["test".to_string()] }),
        }),
        file: "results.txt".to_string(),
        direction: ">".to_string(),
    };
    assert_eq!(show(r), show(Ok(expected)));
}

#[test]
fn pipeline_and_redirection() {
    let toks = vec![
        c("cat"),
        v("f"),
        Token::Operator("|".to_string()),
        c("grep"),
        v("x"),
        Token::Operator(">".to_string()),
        v("out"),
        sep(),
    ];
    let r = Parser::new(toks).parse();
    let expected = ASTNode::Redirection {
        command: Box::new(ASTNode::Pipeline {
            left: Box::new(ASTNode::Command { name: "cat".to_string(), args: vec!["f".to_string()] }),
            right: Box::new(ASTNode::Command { name: "grep".to_string(), args: vec!["x".to_string()] }),
        }),
        file: "out".to_string(),
        direction: ">".to_string(),
    };
    assert_eq!(show(r), show(Ok(expected)));
}

#[test]
fn logical_operators() {
    let toks = vec![c("a"), Token::Operator("&&".to_string()), c("b"), Token::Operator("||".to_string()), c("d"), sep()];
    let r = Parser::new(toks).parse();
    let expected = ASTNode::Logical {
        left: Box::new(ASTNode::Logical {
            left: Box::new(ASTNode::Command { name: "a".to_string(), args: vec![] }),
            right: Box::new(ASTNode::Command { name: "b".to_string(), args: vec![] }),
            operator: "&&".to_string(),
        }),
        right: Box::new(ASTNode::Command { name: "d".to_string(), args: vec![] }),
        operator: "||".to_string(),
    };
    assert_eq!(show(r), show(Ok(expected)));
}

#[test]
fn redirection_needs_a_file() {
    assert_eq!(
        parse("ls > ;", &["ls"]).unwrap_err(),
        "Expected a file after redirection!"
    );
}

#[test]
fn for_loop() {
    let r = parse("for x in a b; do echo x; done", &["echo"]);
    let expected = ASTNode::ForLoop {
        variable: "x".to_string(),
        values: vec!["a".to_string(), "b".to_string()],
        body: Box::new(ASTNode::Command { name: "echo".to_string(), args: vec!["x".to_string()] }),
    };
    assert_eq!(show(r), show(Ok(expected)));
}

#[test]
fn if_with_else() {
    let r = parse("if test; then ls; else pwd; fi", &["test", "ls", "pwd"]);
    let expected = ASTNode::IfCondition {
        condition: Box::new(ASTNode::Command { name: "test".to_string(), args: vec![] }),
        then_branch: Box::new(ASTNode::Command { name: "ls".to_string(), args: vec![] }),
        else_branch: Some(Box::new(ASTNode::Command { name: "pwd".to_string(), args: vec![] })),
    };
    assert_eq!(show(r), show(Ok(expected)));
}

#[test]
fn keyword_errors_name_the_keyword() {
    assert_eq!(parse("for x a;", &[]).unwrap_err(), "Expected 'in'");
    assert_eq!(parse("for ;", &[]).unwrap_err(), "Expected an identifier");
}

#[test]
fn command_after_separator_is_a_command() {
    let expected = ASTNode::Sequence(vec![
        ASTNode::Command { name: "ls".to_string(), args: vec![] },
        ASTNode::Command { name: "pwd".to_string(), args: vec![] },
    ]);
    assert_eq!(show(parse("ls; pwd;", &["ls", "pwd"])), show(Ok(expected)));
}

#[test]
fn if_without_separators_before_keywords() {
    let r = parse("if test then ls fi", &["test", "ls"]);
    let expected = ASTNode::IfCondition {
        condition: Box::new(ASTNode::Command { name: "test".to_string(), args: vec![] }),
        then_branch: Box::new(ASTNode::Command { name: "ls".to_string(), args: vec![] }),
        else_branch: None,
    };
    assert_eq!(show(r), show(Ok(expected)));
}

#[test]
fn several_commands_make_a_sequence() {
    let toks = vec![c("ls"), sep(), c("pwd"), sep()];
    let r = Parser::new(toks).parse();
    let expected = ASTNode::Sequence(vec![
        ASTNode::Command { name: "ls".to_string(), args: vec![] },
        ASTNode::Command { name: "pwd".to_string(), args: vec![] },
    ]);
    assert_eq!(show(r), show(Ok(expected)));
    assert_eq!(show(parse("", &[])), show(Ok(ASTNode::Sequence(vec![]))));
}
