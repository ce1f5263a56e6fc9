use mishell::ast::program::Program;
use mishell::parser_v2::Parser;
use mishell::tokenizer_v2::Lexer;
use mishell::tokens::Token;

fn tokens(s: &str) -> Vec<Token> {
    Lexer::new(s.chars().collect()).tokens()
}

fn parse(s: &str) -> Program {
    let toks = tokens(s);
    let mut parser = Parser::new(&toks);
    parser.program().expect("a program always parses")
}

fn show(s: &str) -> String {
    parse(s).display()
}

#[test]
fn simple_command_shows_as_written() {
    assert_eq!(show("echo hi"), "echo hi");
}

#[test]
fn empty_input_is_the_empty_program() {
    let p = parse("");
    assert_eq!(p.cmds().len(), 0);
    assert_eq!(p.display(), "");
}

#[test]
fn separators_end_lines() {
    assert_eq!(show("a; b"), "a;\nb");
    assert_eq!(show("a & b"), "a&\nb");
    assert_eq!(show("a &"), "a&");
    assert_eq!(show("a;"), "a");
}

#[test]
fn and_or_lists() {
    assert_eq!(show("a && b || c"), "a && b || c");
}

#[test]
fn negated_pipeline() {
    assert_eq!(show("! a | b"), "!a | b");
}

#[test]
fn if_command_is_indented() {
    assert_eq!(show("if a; then b; fi"), "if a; then\n    b\nfi");
    assert_eq!(
        show("if a; then b; elif c; then d; else e; fi"),
        "if a; then\n    b\nelif c; then\n    d\nelse\n    e\nfi"
    );
}

#[test]
fn loops_are_indented() {
    assert_eq!(show("while a; do b; done"), "while a; do\n    b\ndone");
    assert_eq!(show("until a; do b; done"), "until a; do\n    b\ndone");
    assert_eq!(
        show("for x in a b; do echo x; done"),
        "for x in a b;\ndo\n    echo x\ndone"
    );
}

#[test]
fn scopes_and_subshells() {
    assert_eq!(show("{ a; }"), "{ \n    a\n}");
    assert_eq!(show("( a )"), "( a )");
}

#[test]
fn redirections_follow_the_command() {
    assert_eq!(show("cat < in > out"), "cat < in > out");
}

#[test]
fn assignment_prefix_shows_its_value() {
    assert_eq!(show("A=1 echo"), "1 echo");
}

#[test]
fn commands_on_lines_are_complete_commands() {
    let p = parse("\n\necho a\n\necho b\n");
    assert_eq!(p.cmds().len(), 2);
    assert_eq!(p.display(), "echo aecho b");
}

#[test]
fn reserved_word_is_not_a_command() {
    let toks = tokens("then");
    let mut parser = Parser::new(&toks);
    assert!(parser.complete_command().is_none());
    assert_eq!(parser.pos(), 0);
}

#[test]
fn failed_step_goes_back() {
    let toks = tokens("  ;");
    let mut parser = Parser::new(&toks);
    assert!(parser.complete_commands().is_none());
    assert_eq!(parser.pos(), 0);
}

#[test]
fn arithmetic_commands() {
    assert_eq!(show("(( 1 + 2 ))"), "((1+2))");
    assert_eq!(
        show("for (( i = 0; i < 3; i++ )); do a; done"),
        "for ((i=0; i<3; i++))do\n    a\ndone"
    );
}

#[test]
fn io_number_before_redirection() {
    let toks = tokens("2>");
    let mut parser = Parser::new(&toks);
    assert_eq!(parser.io_number(), Some(2));
    let toks = tokens("2 x");
    let mut parser = Parser::new(&toks);
    assert_eq!(parser.io_number(), None);
    assert_eq!(parser.pos(), 0);
}

#[test]
fn choice_and_consume() {
    let toks = tokens(" a b");
    let mut parser = Parser::new(&toks);
    assert_eq!(parser.choice(|t: &Token| t.is_word()), Some("a".to_string()));
    assert!(parser.consume(Token::word("a")).is_none());
    assert!(parser.consume(Token::word("b")).is_some());
    assert_eq!(parser.peek(), None);
    assert_eq!(parser.remaining().len(), 0);
}

#[test]
fn transaction_goes_back_on_failure() {
    let toks = tokens(" a b");
    let mut parser = Parser::new(&toks);
    let r: Option<()> = parser.transaction(|p| {
        p.consume_any();
        None
    });
    assert_eq!(r, None);
    assert_eq!(parser.pos(), 0);
    let r = parser.transaction(|p| p.consume_any().cloned());
    assert_eq!(r, Some(Token::word("a")));
    assert_eq!(parser.pos(), 2);
}

#[test]
fn pipe_into_quoted_argument_and_file() {
    assert_eq!(
        show("ls | grep \"test\" > results.txt"),
        "ls | grep \"test\" > results.txt"
    );
}

#[test]
fn file_name_stops_at_a_double_quote() {
    let toks = tokens(">a\"b");
    let mut parser = Parser::new(&toks);
    let r = parser.redirect().expect("a redirection");
    assert_eq!(r.display(), "> a");
    assert_eq!(parser.pos(), 2);
    let toks = tokens("> dir/out.txt");
    let mut parser = Parser::new(&toks);
    assert_eq!(parser.redirect().expect("a redirection").display(), "> dir/out.txt");
}

#[test]
fn trailing_amp_makes_the_last_command_asynchronous() {
    let toks = tokens("a &");
    let mut parser = Parser::new(&toks);
    let block = parser.compound_block().expect("a block");
    assert_eq!(block.display(), "a&");
    assert_eq!(parser.remaining().len(), 0);
    let toks = tokens("a; b &");
    let mut parser = Parser::new(&toks);
    assert_eq!(parser.compound_block().expect("a block").display(), "a;\nb&");
    let toks = tokens("a;");
    let mut parser = Parser::new(&toks);
    assert_eq!(parser.compound_block().expect("a block").display(), "a");
}

#[test]
fn a_word_renders_as_it_was_read() {
    let toks = tokens("  'x  y' rest");
    let mut parser = Parser::new(&toks);
    let w = parser.word().expect("a quoted word");
    assert_eq!(w.display(), "'x  y'");
    assert_eq!(parser.pos(), 6);
    let toks = tokens("plain");
    let mut parser = Parser::new(&toks);
    assert_eq!(parser.word().expect("a word").display(), "plain");
}
