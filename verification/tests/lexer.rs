use mishell::tokenizer_v2::Lexer;
use mishell::tokens::{Paren, ParenKind, ParenPos, Positional, Quote, Symbol, Token};

fn lex(s: &str) -> Vec<Token> {
    Lexer::new(s.chars().collect()).tokens()
}

fn word(s: &str) -> Token {
    Token::Word(s.to_string())
}

fn ws(s: &str) -> Token {
    Token::Whitespace(s.to_string())
}

#[test]
fn words_and_blanks() {
    assert_eq!(lex("echo hello"), vec![word("echo"), ws(" "), word("hello")]);
}

#[test]
fn empty_input_has_no_tokens() {
    assert_eq!(lex(""), Vec::<Token>::new());
}

#[test]
fn two_character_symbols() {
    assert_eq!(
        lex("a&&b||c;;d"),
        vec![
            word("a"),
            Token::Symbol(Symbol::And),
            word("b"),
            Token::Symbol(Symbol::Or),
            word("c"),
            Token::Symbol(Symbol::DoubleSemi),
            word("d"),
        ]
    );
}

#[test]
fn single_symbols() {
    assert_eq!(
        lex("a&b|c;d"),
        vec![
            word("a"),
            Token::Symbol(Symbol::Amp),
            word("b"),
            Token::Symbol(Symbol::Pipe),
            word("c"),
            Token::Symbol(Symbol::Semicolon),
            word("d"),
        ]
    );
    assert_eq!(
        lex("!#*?%-=+:@^/,"),
        vec![
            Token::Symbol(Symbol::Bang),
            Token::Symbol(Symbol::Pound),
            Token::Symbol(Symbol::Star),
            Token::Symbol(Symbol::Question),
            Token::Symbol(Symbol::Percent),
            Token::Symbol(Symbol::Dash),
            Token::Symbol(Symbol::Equals),
            Token::Symbol(Symbol::Plus),
            Token::Symbol(Symbol::Colon),
            Token::Symbol(Symbol::At),
            Token::Symbol(Symbol::Caret),
            Token::Symbol(Symbol::Slash),
            Token::Symbol(Symbol::Comma),
        ]
    );
}

#[test]
fn redirection_symbols() {
    assert_eq!(
        lex("cat <<-EOF >|out"),
        vec![
            word("cat"),
            ws(" "),
            Token::Symbol(Symbol::DoubleLtDash),
            word("EOF"),
            ws(" "),
            Token::Symbol(Symbol::Clobber),
            word("out"),
        ]
    );
    assert_eq!(
        lex("<&3 >&2 <>f <<x >>y <z >w"),
        vec![
            Token::Symbol(Symbol::LtAnd),
            word("3"),
            ws(" "),
            Token::Symbol(Symbol::GtAnd),
            word("2"),
            ws(" "),
            Token::Symbol(Symbol::LtGt),
            word("f"),
            ws(" "),
            Token::Symbol(Symbol::DoubleLt),
            word("x"),
            ws(" "),
            Token::Symbol(Symbol::DoubleGt),
            word("y"),
            ws(" "),
            Token::Symbol(Symbol::Lt),
            word("z"),
            ws(" "),
            Token::Symbol(Symbol::Gt),
            word("w"),
        ]
    );
}

#[test]
fn positional_parameters_and_dollar() {
    assert_eq!(
        lex("$1$x$"),
        vec![
            Token::PositionalParam(Positional::One),
            Token::Symbol(Symbol::Dollar),
            word("x"),
            Token::Symbol(Symbol::Dollar),
        ]
    );
}

#[test]
fn escape_takes_one_character() {
    assert_eq!(
        lex("a\\bc"),
        vec![word("a"), Token::Symbol(Symbol::Backslash), word("b"), word("c")]
    );
}

#[test]
fn escaped_symbol_is_lexed_alone() {
    assert_eq!(
        lex("\\&&"),
        vec![
            Token::Symbol(Symbol::Backslash),
            Token::Symbol(Symbol::Amp),
            Token::Symbol(Symbol::Amp),
        ]
    );
}

#[test]
fn trailing_and_double_backslash() {
    assert_eq!(lex("\\"), vec![Token::Symbol(Symbol::Backslash)]);
    assert_eq!(
        lex("\\\\"),
        vec![Token::Symbol(Symbol::Backslash), Token::Symbol(Symbol::Backslash)]
    );
    assert_eq!(lex("\\ "), vec![Token::Symbol(Symbol::Backslash), ws(" ")]);
}

#[test]
fn name_like_word_stops_at_other_characters() {
    assert_eq!(lex("foo.bar_1"), vec![word("foo"), word(".bar_1")]);
    assert_eq!(lex("1abc"), vec![word("1abc")]);
    assert_eq!(lex("_a1.b"), vec![word("_a1"), word(".b")]);
}

#[test]
fn newline_is_its_own_token() {
    assert_eq!(
        lex("x\n y"),
        vec![word("x"), Token::NewLine, ws(" "), word("y")]
    );
    assert_eq!(lex("a \t b"), vec![word("a"), ws(" \t "), word("b")]);
}

#[test]
fn brackets_and_quotes() {
    assert_eq!(
        lex("(a)"),
        vec![Token::Paren(Paren::open()), word("a"), Token::Paren(Paren::close())]
    );
    assert_eq!(
        lex("{[]}"),
        vec![
            Token::Paren(Paren::curly_open()),
            Token::Paren(Paren::new(ParenKind::Square, ParenPos::Open)),
            Token::Paren(Paren::new(ParenKind::Square, ParenPos::Close)),
            Token::Paren(Paren::curly_close()),
        ]
    );
    assert_eq!(
        lex("'a'\"b\"`c`"),
        vec![
            Token::Quote(Quote::Single),
            word("a"),
            Token::Quote(Quote::Single),
            Token::Quote(Quote::Double),
            word("b"),
            Token::Quote(Quote::Double),
            Token::Quote(Quote::Backtick),
            word("c"),
            Token::Quote(Quote::Backtick),
        ]
    );
}

#[test]
fn unicode_letters_make_words() {
    assert_eq!(lex("héllo wörld"), vec![word("héllo"), ws(" "), word("wörld")]);
}

#[test]
fn lexing_keeps_every_character() {
    for line in [
        "echo hello",
        "a\\bc && $1 <<-x >| y;; { [ ] } 'q' \"d\" `b`",
        "foo.bar_1\n\t x\\",
        "héllo $ wörld",
    ] {
        let text: String = lex(line).iter().map(|t| t.as_str().to_string()).collect();
        assert_eq!(text, line);
    }
}

#[test]
fn next_gives_tokens_one_by_one() {
    let mut lexer = Lexer::new("a b".chars().collect());
    assert_eq!(lexer.size_hint(), (0, Some(3)));
    assert_eq!(lexer.next(), Some(word("a")));
    assert_eq!(lexer.size_hint(), (1, Some(1)));
    assert_eq!(lexer.next(), Some(ws(" ")));
    assert_eq!(lexer.next(), Some(word("b")));
    assert_eq!(lexer.next(), None);
    assert_eq!(lexer.next(), None);
    assert_eq!(lexer.size_hint(), (0, Some(0)));
}

#[test]
fn tabs_and_other_blanks_are_whitespace() {
    assert_eq!(lex("a\tb"), vec![word("a"), ws("\t"), word("b")]);
    assert_eq!(lex("a \u{a0}\n"), vec![word("a"), ws(" \u{a0}"), Token::NewLine]);
}

#[test]
fn ascii_words_split_at_symbols() {
    assert_eq!(
        lex("ls -la|wc"),
        vec![
            word("ls"),
            ws(" "),
            Token::Symbol(Symbol::Dash),
            word("la"),
            Token::Symbol(Symbol::Pipe),
            word("wc"),
        ]
    );
}
