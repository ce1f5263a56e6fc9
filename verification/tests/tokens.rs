use mishell::ast::process_substitution::Kind as ProcKind;
use mishell::ast::redirect::{Kind, Redirects};
use mishell::ast::word::Word;
use mishell::tokens::{Paren, ParenKind, ParenPos, Positional, Quote, Symbol, Token};

#[test]
fn positional_from_digit() {
    assert_eq!(Positional::try_from_char('7').unwrap(), Positional::Seven);
    assert_eq!(Positional::try_from_char('0').unwrap().as_str(), "$0");
    assert_eq!(
        Positional::try_from_char('x').unwrap_err(),
        "value is not a positional param"
    );
}

#[test]
fn brackets_from_text() {
    assert_eq!(Paren::from_str("(").unwrap(), Paren::open());
    assert_eq!(Paren::from_str("}").unwrap(), Paren::curly_close());
    assert_eq!(Paren::from_str("[").unwrap(), Paren::new(ParenKind::Square, ParenPos::Open));
    assert!(Paren::from_str("x").is_err());
    for p in [Paren::open(), Paren::close(), Paren::curly_open(), Paren::curly_close()] {
        assert_eq!(Paren::from_str(p.as_str()).unwrap(), p);
    }
}

#[test]
fn symbol_texts() {
    assert_eq!(Symbol::DoubleLtDash.as_str(), "<<-");
    assert_eq!(Symbol::Clobber.as_str(), ">|");
    assert_eq!(Symbol::Tilde.as_str(), "~");
    assert_eq!(Quote::Backtick.as_str(), "`");
}

#[test]
fn token_queries() {
    let w = Token::word("abc");
    assert_eq!(w.is_word(), Some("abc".to_string()));
    assert_eq!(w.is_symbol(), None);
    assert_eq!(Token::Symbol(Symbol::Pipe).is_symbol(), Some(Symbol::Pipe));
    assert!(w.same_as(&Token::Word("abc".to_string())));
    assert!(!w.same_as(&Token::Literal("abc".to_string())));
    assert_eq!(Token::NewLine.display(), "\n");
    assert_eq!(Token::PositionalParam(Positional::Three).as_str(), "$3");
}

#[test]
fn redirect_kind_texts() {
    assert_eq!(Kind::try_from_symbol(Symbol::DoubleGt).unwrap().display(), ">>");
    assert_eq!(Kind::try_from_symbol(Symbol::LtAnd).unwrap().display(), "<&");
    assert!(Kind::try_from_symbol(Symbol::Pipe).is_err());
    assert_eq!(ProcKind::Read.display(), "<");
    assert_eq!(ProcKind::Write.display(), ">");
}

#[test]
fn conversions() {
    let t: Token = Symbol::Amp.into();
    assert_eq!(t, Token::Symbol(Symbol::Amp));
    let w: Word = "abc".to_string().into();
    assert_eq!(w.raw(), "abc");
    assert_eq!(w.display(), "abc");
    let r: Redirects = Vec::new().into();
    assert_eq!(r.items().len(), 0);
    assert_eq!(r.display(), "");
}
