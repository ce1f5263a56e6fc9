//! The tokens that the lexer produces and the parser reads.

use vstd::prelude::*;

use crate::text::{owned, str_equal};

verus! {

/// Inner representation of a positional param.
#[derive(Debug, Clone, Copy, PartialEq, Eq, Structural)]
pub enum Positional {
    /// $0
    Zero,
    /// $1
    One,
    /// $2
    Two,
    /// $3
    Three,
    /// $4
    Four,
    /// $5
    Five,
    /// $6
    Six,
    /// $7
    Seven,
    /// $8
    Eight,
    /// $9
    Nine,
}

/// The digit of a positional parameter, as a number from 0 to 9.
pub open spec fn positional_index(p: Positional) -> int {
    match p {
        Positional::Zero => 0,
        Positional::One => 1,
        Positional::Two => 2,
        Positional::Three => 3,
        Positional::Four => 4,
        Positional::Five => 5,
        Positional::Six => 6,
        Positional::Seven => 7,
        Positional::Eight => 8,
        Positional::Nine => 9,
    }
}

/// The digit character `'0'..='9'` of a positional parameter.
pub open spec fn positional_digit(p: Positional) -> char {
    match p {
        Positional::Zero => '0',
        Positional::One => '1',
        Positional::Two => '2',
        Positional::Three => '3',
        Positional::Four => '4',
        Positional::Five => '5',
        Positional::Six => '6',
        Positional::Seven => '7',
        Positional::Eight => '8',
        Positional::Nine => '9',
    }
}

/// The text of a positional parameter: `$` followed by its digit.
pub open spec fn positional_text(p: Positional) -> Seq<char> {
    seq!['$', positional_digit(p)]
}

/// Whether `c` is one of the ASCII digits `'0'..='9'`.
pub open spec fn is_digit_char(c: char) -> bool {
    '0' <= c && c <= '9'
}

impl Positional {
    pub fn as_str(&self) -> (r: &'static str)
        ensures
            r@ == positional_text(*self),
    {
        match self {
            Positional::Zero => {
                proof {
                    reveal_strlit("$0");
                }
                "$0"
            },
            Positional::One => {
                proof {
                    reveal_strlit("$1");
                }
                "$1"
            },
            Positional::Two => {
                proof {
                    reveal_strlit("$2");
                }
                "$2"
            },
            Positional::Three => {
                proof {
                    reveal_strlit("$3");
                }
                "$3"
            },
            Positional::Four => {
                proof {
                    reveal_strlit("$4");
                }
                "$4"
            },
            Positional::Five => {
                proof {
                    reveal_strlit("$5");
                }
                "$5"
            },
            Positional::Six => {
                proof {
                    reveal_strlit("$6");
                }
                "$6"
            },
            Positional::Seven => {
                proof {
                    reveal_strlit("$7");
                }
                "$7"
            },
            Positional::Eight => {
                proof {
                    reveal_strlit("$8");
                }
                "$8"
            },
            Positional::Nine => {
                proof {
                    reveal_strlit("$9");
                }
                "$9"
            },
        }
    }

    /// The positional parameter named by a digit character; any other
    /// character is refused with a message.
    pub fn try_from_char(value: char) -> (r: Result<Positional, String>)
        ensures
            r is Ok <==> is_digit_char(value),
            r matches Ok(p) ==> positional_digit(p) == value,
    {
        match value {
            '0' => Ok(Positional::Zero),
            '1' => Ok(Positional::One),
            '2' => Ok(Positional::Two),
            '3' => Ok(Positional::Three),
            '4' => Ok(Positional::Four),
            '5' => Ok(Positional::Five),
            '6' => Ok(Positional::Six),
            '7' => Ok(Positional::Seven),
            '8' => Ok(Positional::Eight),
            '9' => Ok(Positional::Nine),
            _ => Err("value is not a positional param".to_owned()),
        }
    }
}


#[derive(Debug, Clone, Copy, PartialEq, Eq, Structural)]
pub enum ParenKind {
    /// `(` or `)`
    Normal,
    /// `{` or `}`
    Curly,
    /// `[` or `]`
    Square,
}

#[derive(Debug, Clone, Copy, PartialEq, Eq, Structural)]
pub enum ParenPos {
    Open,
    Close,
}

#[derive(Debug, Clone, Copy, PartialEq, Eq, Structural)]
pub struct Paren {
    kind: ParenKind,
    pos: ParenPos,
}

/// The kind of bracket that a one-character text names, if it names one.
pub open spec fn spec_paren_kind(s: Seq<char>) -> Option<ParenKind> {
    if s == seq!['('] || s == seq![')'] {
        Some(ParenKind::Normal)
    } else if s == seq!['['] || s == seq![']'] {
        Some(ParenKind::Square)
    } else if s == seq!['{'] || s == seq!['}'] {
        Some(ParenKind::Curly)
    } else {
        None
    }
}

/// Whether a one-character bracket text opens or closes, if it is a bracket.
pub open spec fn spec_paren_pos(s: Seq<char>) -> Option<ParenPos> {
    if s == seq!['('] || s == seq!['['] || s == seq!['{'] {
        Some(ParenPos::Open)
    } else if s == seq![')'] || s == seq![']'] || s == seq!['}'] {
        Some(ParenPos::Close)
    } else {
        None
    }
}

/// The text of a bracket.
pub open spec fn paren_text(p: Paren) -> Seq<char> {
    match (p.spec_kind(), p.spec_pos()) {
        (ParenKind::Normal, ParenPos::Open) => seq!['('],
        (ParenKind::Normal, ParenPos::Close) => seq![')'],
        (ParenKind::Curly, ParenPos::Open) => seq!['{'],
        (ParenKind::Curly, ParenPos::Close) => seq!['}'],
        (ParenKind::Square, ParenPos::Open) => seq!['['],
        (ParenKind::Square, ParenPos::Close) => seq![']'],
    }
}

impl ParenKind {
    pub fn from_str(s: &str) -> (r: Result<ParenKind, String>)
        ensures
            match r {
                Ok(k) => spec_paren_kind(s@) == Some(k),
                Err(_) => spec_paren_kind(s@) is None,
            },
    {
        proof {
            reveal_strlit("(");
            reveal_strlit(")");
            reveal_strlit("[");
            reveal_strlit("]");
            reveal_strlit("{");
            reveal_strlit("}");
            assert("("@ =~= seq!['(']);
            assert(")"@ =~= seq![')']);
            assert("["@ =~= seq!['[']);
            assert("]"@ =~= seq![']']);
            assert("{"@ =~= seq!['{']);
            assert("}"@ =~= seq!['}']);
        }
        if str_equal(s, "(") || str_equal(s, ")") {
            Ok(ParenKind::Normal)
        } else if str_equal(s, "[") || str_equal(s, "]") {
            Ok(ParenKind::Square)
        } else if str_equal(s, "{") || str_equal(s, "}") {
            Ok(ParenKind::Curly)
        } else {
            Err(owned("Char is not a paren"))
        }
    }
}

impl ParenPos {
    pub fn from_str(s: &str) -> (r: Result<ParenPos, String>)
        ensures
            match r {
                Ok(p) => spec_paren_pos(s@) == Some(p),
                Err(_) => spec_paren_pos(s@) is None,
            },
    {
        proof {
            reveal_strlit("(");
            reveal_strlit(")");
            reveal_strlit("[");
            reveal_strlit("]");
            reveal_strlit("{");
            reveal_strlit("}");
            assert("("@ =~= seq!['(']);
            assert(")"@ =~= seq![')']);
            assert("["@ =~= seq!['[']);
            assert("]"@ =~= seq![']']);
            assert("{"@ =~= seq!['{']);
            assert("}"@ =~= seq!['}']);
        }
        if str_equal(s, "(") || str_equal(s, "[") || str_equal(s, "{") {
            Ok(ParenPos::Open)
        } else if str_equal(s, ")") || str_equal(s, "]") || str_equal(s, "}") {
            Ok(ParenPos::Close)
        } else {
            Err(owned("Char is not a paren"))
        }
    }
}

impl Paren {
    /// The bracket of a kind and a position.
    pub closed spec fn spec_new(kind: ParenKind, pos: ParenPos) -> Paren {
        Paren { kind, pos }
    }

    /// The bracket built from its parts has those parts, and a bracket is
    /// determined by its parts.
    pub proof fn lemma_parts(kind: ParenKind, pos: ParenPos, p: Paren)
        ensures
            Paren::spec_new(kind, pos).spec_kind() == kind,
            Paren::spec_new(kind, pos).spec_pos() == pos,
            (p.spec_kind() == kind && p.spec_pos() == pos) <==> p == Paren::spec_new(kind, pos),
    {
    }

    pub closed spec fn spec_kind(self) -> ParenKind {
        self.kind
    }

    pub closed spec fn spec_pos(self) -> ParenPos {
        self.pos
    }

    pub fn new(kind: ParenKind, pos: ParenPos) -> (r: Paren)
        ensures
            r.spec_kind() == kind,
            r.spec_pos() == pos,
    {
        Paren { kind, pos }
    }

    /// `(`
    pub fn open() -> (r: Paren)
        ensures
            r == spec_open_paren(),
    {
        Paren { kind: ParenKind::Normal, pos: ParenPos::Open }
    }

    /// `)`
    pub fn close() -> (r: Paren)
        ensures
            r == spec_close_paren(),
    {
        Paren { kind: ParenKind::Normal, pos: ParenPos::Close }
    }

    /// `{`
    pub fn curly_open() -> (r: Paren)
        ensures
            r == spec_curly_open(),
    {
        Paren { kind: ParenKind::Curly, pos: ParenPos::Open }
    }

    /// `}`
    pub fn curly_close() -> (r: Paren)
        ensures
            r == spec_curly_close(),
    {
        Paren { kind: ParenKind::Curly, pos: ParenPos::Close }
    }

    pub fn as_str(&self) -> (r: &'static str)
        ensures
            r@ == paren_text(*self),
    {
        match (self.kind, self.pos) {
            (ParenKind::Normal, ParenPos::Open) => {
                proof {
                    reveal_strlit("(");
                }
                "("
            },
            (ParenKind::Normal, ParenPos::Close) => {
                proof {
                    reveal_strlit(")");
                }
                ")"
            },
            (ParenKind::Curly, ParenPos::Open) => {
                proof {
                    reveal_strlit("{");
                }
                "{"
            },
            (ParenKind::Curly, ParenPos::Close) => {
                proof {
                    reveal_strlit("}");
                }
                "}"
            },
            (ParenKind::Square, ParenPos::Open) => {
                proof {
                    reveal_strlit("[");
                }
                "["
            },
            (ParenKind::Square, ParenPos::Close) => {
                proof {
                    reveal_strlit("]");
                }
                "]"
            },
        }
    }

    /// The bracket that a one-character text names: both its kind and its
    /// position must be recognised.
    pub fn from_str(s: &str) -> (r: Result<Paren, String>)
        ensures
            match r {
                Ok(p) => spec_paren_kind(s@) == Some(p.spec_kind()) && spec_paren_pos(s@) == Some(
                    p.spec_pos(),
                ),
                Err(_) => spec_paren_kind(s@) is None || spec_paren_pos(s@) is None,
            },
    {
        let kind = match ParenKind::from_str(s) {
            Ok(k) => k,
            Err(e) => return Err(e),
        };
        let pos = match ParenPos::from_str(s) {
            Ok(p) => p,
            Err(e) => return Err(e),
        };
        Ok(Paren { kind, pos })
    }
}

pub open spec fn spec_open_paren() -> Paren {
    Paren::spec_new(ParenKind::Normal, ParenPos::Open)
}

pub open spec fn spec_close_paren() -> Paren {
    Paren::spec_new(ParenKind::Normal, ParenPos::Close)
}

pub open spec fn spec_curly_open() -> Paren {
    Paren::spec_new(ParenKind::Curly, ParenPos::Open)
}

pub open spec fn spec_curly_close() -> Paren {
    Paren::spec_new(ParenKind::Curly, ParenPos::Close)
}

#[derive(Debug, Clone, Copy, PartialEq, Eq, Structural)]
pub enum Quote {
    /// '
    Single,
    /// "
    Double,
    /// `
    Backtick,
}

/// The text of a quote character.
pub open spec fn quote_text(q: Quote) -> Seq<char> {
    match q {
        Quote::Single => seq!['\''],
        Quote::Double => seq!['"'],
        Quote::Backtick => seq!['`'],
    }
}

impl Quote {
    pub fn as_str(&self) -> (r: &'static str)
        ensures
            r@ == quote_text(*self),
    {
        match self {
            Quote::Single => {
                proof {
                    reveal_strlit("'");
                }
                "'"
            },
            Quote::Double => {
                proof {
                    reveal_strlit("\"");
                }
                "\""
            },
            Quote::Backtick => {
                proof {
                    reveal_strlit("`");
                }
                "`"
            },
        }
    }
}

#[derive(Debug, Clone, Copy, PartialEq, Eq, Structural)]
pub enum Symbol {
    /// \!
    Bang,
    /// \~
    Tilde,
    /// \#
    Pound,
    /// \*
    Star,
    /// \?
    Question,
    /// \\
    Backslash,
    /// \%
    Percent,
    /// \-
    Dash,
    /// \=
    Equals,
    /// \+
    Plus,
    /// \:
    Colon,
    /// \@
    At,
    /// \^
    Caret,
    /// \/
    Slash,
    /// \,
    Comma,
    /// \;
    Semicolon,
    /// \&
    Amp,
    /// \|
    Pipe,
    /// \&&
    And,
    /// \||
    Or,
    /// \;;
    DoubleSemi,
    /// \$
    Dollar,
    /// \<
    Lt,
    /// \>
    Gt,
    /// <<
    DoubleLt,
    /// \>>
    DoubleGt,
    /// <&
    LtAnd,
    /// \>&
    GtAnd,
    /// <<-
    DoubleLtDash,
    /// \>|
    Clobber,
    /// <>
    LtGt,
}

/// The text of a symbol.
pub open spec fn symbol_text(s: Symbol) -> Seq<char> {
    match s {
        Symbol::Bang => seq!['!'],
        Symbol::Tilde => seq!['~'],
        Symbol::Pound => seq!['#'],
        Symbol::Star => seq!['*'],
        Symbol::Question => seq!['?'],
        Symbol::Backslash => seq!['\\'],
        Symbol::Percent => seq!['%'],
        Symbol::Dash => seq!['-'],
        Symbol::Equals => seq!['='],
        Symbol::Plus => seq!['+'],
        Symbol::Colon => seq![':'],
        Symbol::At => seq!['@'],
        Symbol::Caret => seq!['^'],
        Symbol::Slash => seq!['/'],
        Symbol::Comma => seq![','],
        Symbol::Semicolon => seq![';'],
        Symbol::Amp => seq!['&'],
        Symbol::Pipe => seq!['|'],
        Symbol::And => seq!['&', '&'],
        Symbol::Or => seq!['|', '|'],
        Symbol::DoubleSemi => seq![';', ';'],
        Symbol::Dollar => seq!['$'],
        Symbol::Lt => seq!['<'],
        Symbol::Gt => seq!['>'],
        Symbol::DoubleLt => seq!['<', '<'],
        Symbol::DoubleGt => seq!['>', '>'],
        Symbol::LtAnd => seq!['<', '&'],
        Symbol::GtAnd => seq!['>', '&'],
        Symbol::DoubleLtDash => seq!['<', '<', '-'],
        Symbol::Clobber => seq!['>', '|'],
        Symbol::LtGt => seq!['<', '>'],
    }
}

impl Symbol {
    pub fn as_str(&self) -> (r: &'static str)
        ensures
            r@ == symbol_text(*self),
    {
        match self {
            Symbol::Bang => {
                proof {
                    reveal_strlit("!");
                }
                "!"
            },
            Symbol::Tilde => {
                proof {
                    reveal_strlit("~");
                }
                "~"
            },
            Symbol::Pound => {
                proof {
                    reveal_strlit("#");
                }
                "#"
            },
            Symbol::Star => {
                proof {
                    reveal_strlit("*");
                }
                "*"
            },
            Symbol::Question => {
                proof {
                    reveal_strlit("?");
                }
                "?"
            },
            Symbol::Backslash => {
                proof {
                    reveal_strlit("\\");
                }
                "\\"
            },
            Symbol::Percent => {
                proof {
                    reveal_strlit("%");
                }
                "%"
            },
            Symbol::Dash => {
                proof {
                    reveal_strlit("-");
                }
                "-"
            },
            Symbol::Equals => {
                proof {
                    reveal_strlit("=");
                }
                "="
            },
            Symbol::Plus => {
                proof {
                    reveal_strlit("+");
                }
                "+"
            },
            Symbol::Colon => {
                proof {
                    reveal_strlit(":");
                }
                ":"
            },
            Symbol::At => {
                proof {
                    reveal_strlit("@");
                }
                "@"
            },
            Symbol::Caret => {
                proof {
                    reveal_strlit("^");
                }
                "^"
            },
            Symbol::Slash => {
                proof {
                    reveal_strlit("/");
                }
                "/"
            },
            Symbol::Comma => {
                proof {
                    reveal_strlit(",");
                }
                ","
            },
            Symbol::Semicolon => {
                proof {
                    reveal_strlit(";");
                }
                ";"
            },
            Symbol::Amp => {
                proof {
                    reveal_strlit("&");
                }
                "&"
            },
            Symbol::Pipe => {
                proof {
                    reveal_strlit("|");
                }
                "|"
            },
            Symbol::And => {
                proof {
                    reveal_strlit("&&");
                }
                "&&"
            },
            Symbol::Or => {
                proof {
                    reveal_strlit("||");
                }
                "||"
            },
            Symbol::DoubleSemi => {
                proof {
                    reveal_strlit(";;");
                }
                ";;"
            },
            Symbol::Dollar => {
                proof {
                    reveal_strlit("$");
                }
                "$"
            },
            Symbol::Lt => {
                proof {
                    reveal_strlit("<");
                }
                "<"
            },
            Symbol::Gt => {
                proof {
                    reveal_strlit(">");
                }
                ">"
            },
            Symbol::DoubleLt => {
                proof {
                    reveal_strlit("<<");
                }
                "<<"
            },
            Symbol::DoubleGt => {
                proof {
                    reveal_strlit(">>");
                }
                ">>"
            },
            Symbol::LtAnd => {
                proof {
                    reveal_strlit("<&");
                }
                "<&"
            },
            Symbol::GtAnd => {
                proof {
                    reveal_strlit(">&");
                }
                ">&"
            },
            Symbol::DoubleLtDash => {
                proof {
                    reveal_strlit("<<-");
                }
                "<<-"
            },
            Symbol::Clobber => {
                proof {
                    reveal_strlit(">|");
                }
                ">|"
            },
            Symbol::LtGt => {
                proof {
                    reveal_strlit("<>");
                }
                "<>"
            },
        }
    }
}

#[derive(Debug, Clone, PartialEq, Eq)]
pub enum Token {
    NewLine,
    Paren(Paren),
    Symbol(Symbol),
    Quote(Quote),
    PositionalParam(Positional),
    Whitespace(String),
    Literal(String),
    Word(String),
}

/// A token as a value: its text fields taken by their characters.
pub enum SpecToken {
    NewLine,
    Paren(Paren),
    Symbol(Symbol),
    Quote(Quote),
    PositionalParam(Positional),
    Whitespace(Seq<char>),
    Literal(Seq<char>),
    Word(Seq<char>),
}

impl View for Token {
    type V = SpecToken;

    open spec fn view(&self) -> SpecToken {
        match self {
            Token::NewLine => SpecToken::NewLine,
            Token::Paren(p) => SpecToken::Paren(*p),
            Token::Symbol(s) => SpecToken::Symbol(*s),
            Token::Quote(q) => SpecToken::Quote(*q),
            Token::PositionalParam(p) => SpecToken::PositionalParam(*p),
            Token::Whitespace(s) => SpecToken::Whitespace(s@),
            Token::Literal(s) => SpecToken::Literal(s@),
            Token::Word(s) => SpecToken::Word(s@),
        }
    }
}

/// The text of a token.
pub open spec fn token_text(t: SpecToken) -> Seq<char> {
    match t {
        SpecToken::NewLine => seq!['\n'],
        SpecToken::Paren(p) => paren_text(p),
        SpecToken::Symbol(s) => symbol_text(s),
        SpecToken::Quote(q) => quote_text(q),
        SpecToken::PositionalParam(p) => positional_text(p),
        SpecToken::Whitespace(s) => s,
        SpecToken::Literal(s) => s,
        SpecToken::Word(s) => s,
    }
}

/// The characters of a word token.
pub open spec fn token_word(t: SpecToken) -> Option<Seq<char>> {
    match t {
        SpecToken::Word(w) => Some(w),
        _ => None,
    }
}

/// The symbol of a symbol token.
pub open spec fn token_symbol(t: SpecToken) -> Option<Symbol> {
    match t {
        SpecToken::Symbol(s) => Some(s),
        _ => None,
    }
}

impl Token {
    pub fn as_str(&self) -> (r: &str)
        ensures
            r@ == token_text(self@),
    {
        match self {
            Token::NewLine => {
                proof {
                    reveal_strlit("\n");
                }
                "\n"
            },
            Token::Paren(paren) => paren.as_str(),
            Token::Symbol(symbol) => symbol.as_str(),
            Token::Quote(quote) => quote.as_str(),
            Token::PositionalParam(positional) => positional.as_str(),
            Token::Whitespace(s) => s.as_str(),
            Token::Literal(s) => s.as_str(),
            Token::Word(s) => s.as_str(),
        }
    }

    /// The text that the token's display shows: its text.
    pub fn display(&self) -> (r: String)
        ensures
            r@ == token_text(self@),
    {
        owned(self.as_str())
    }

    pub fn is_word(&self) -> (r: Option<String>)
        ensures
            match r {
                Some(w) => token_word(self@) == Some(w@),
                None => token_word(self@) is None,
            },
    {
        match self {
            Token::Word(w) => Some(w.clone()),
            _ => None,
        }
    }

    pub fn is_symbol(&self) -> (r: Option<Symbol>)
        ensures
            r == token_symbol(self@),
    {
        match self {
            Token::Symbol(s) => Some(*s),
            _ => None,
        }
    }

    /// Whether two tokens are the same token: the same variant with the same
    /// contents.
    pub fn same_as(&self, other: &Token) -> (r: bool)
        ensures
            r == (self@ == other@),
    {
        match (self, other) {
            (Token::NewLine, Token::NewLine) => true,
            (Token::Paren(a), Token::Paren(b)) => *a == *b,
            (Token::Symbol(a), Token::Symbol(b)) => *a == *b,
            (Token::Quote(a), Token::Quote(b)) => *a == *b,
            (Token::PositionalParam(a), Token::PositionalParam(b)) => *a == *b,
            (Token::Whitespace(a), Token::Whitespace(b)) => *a == *b,
            (Token::Literal(a), Token::Literal(b)) => *a == *b,
            (Token::Word(a), Token::Word(b)) => *a == *b,
            _ => false,
        }
    }

    /// A word token holding the characters of `s`.
    pub fn word(s: &str) -> (r: Token)
        ensures
            r@ == SpecToken::Word(s@),
    {
        Token::Word(owned(s))
    }
}


/// A bracket's text names the bracket again: its kind and its position.
pub proof fn lemma_paren_text_names_paren(p: Paren)
    ensures
        spec_paren_kind(paren_text(p)) == Some(p.spec_kind()),
        spec_paren_pos(paren_text(p)) == Some(p.spec_pos()),
{
    assert(seq!['('][0] != seq![')'][0]);
    assert(seq!['('][0] != seq!['['][0]);
    assert(seq!['('][0] != seq![']'][0]);
    assert(seq!['('][0] != seq!['{'][0]);
    assert(seq!['('][0] != seq!['}'][0]);
    assert(seq![')'][0] != seq!['['][0]);
    assert(seq![')'][0] != seq![']'][0]);
    assert(seq![')'][0] != seq!['{'][0]);
    assert(seq![')'][0] != seq!['}'][0]);
    assert(seq!['['][0] != seq![']'][0]);
    assert(seq!['['][0] != seq!['{'][0]);
    assert(seq!['['][0] != seq!['}'][0]);
    assert(seq![']'][0] != seq!['{'][0]);
    assert(seq![']'][0] != seq!['}'][0]);
    assert(seq!['{'][0] != seq!['}'][0]);
}

/// A positional parameter read from its digit is that parameter again.
pub proof fn lemma_positional_digit(p: Positional)
    ensures
        is_digit_char(positional_digit(p)),
        forall|q: Positional| positional_digit(q) == positional_digit(p) ==> q == p,
{
}


impl From<Symbol> for Token {
    fn from(value: Symbol) -> (r: Self) {
        Token::Symbol(value)
    }
}

impl vstd::std_specs::convert::FromSpecImpl<Symbol> for Token {
    open spec fn obeys_from_spec() -> bool {
        true
    }

    open spec fn from_spec(v: Symbol) -> Token {
        Token::Symbol(v)
    }
}

} // verus!
