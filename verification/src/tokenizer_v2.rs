//! The lexer: turns the characters of a command line into tokens.
//!
//! Lexing goes in two stages. The characters are first cut into units: a
//! token, an escape (a backslash with the token of the one character after
//! it), or a single literal character. The units are then grouped: literal
//! characters in a row make a word, and an escape gives a backslash token
//! followed by the escaped token.

use vstd::prelude::*;

use crate::text::push_char;
use crate::tokens::{
    is_digit_char, paren_text, positional_digit, positional_text, quote_text, symbol_text,
    token_text, Paren, ParenKind, ParenPos, Positional, Quote, SpecToken, Symbol, Token,
};

verus! {

/// Whether a character has Unicode's `White_Space` property, which these
/// code points have: U+0009 to U+000D, U+0020, U+0085, U+00A0, U+1680,
/// U+2000 to U+200A, U+2028, U+2029, U+202F, U+205F and U+3000.
pub open spec fn char_is_whitespace(c: char) -> bool {
    let n = c as int;
    ||| 0x9 <= n <= 0xD
    ||| n == 0x20
    ||| n == 0x85
    ||| n == 0xA0
    ||| n == 0x1680
    ||| 0x2000 <= n <= 0x200A
    ||| n == 0x2028
    ||| n == 0x2029
    ||| n == 0x202F
    ||| n == 0x205F
    ||| n == 0x3000
}

/// The name for what `char::is_alphabetic` answers: whether a character has
/// Unicode's `Alphabetic` property.
pub uninterp spec fn char_is_alphabetic(c: char) -> bool;

/// std's `char::is_whitespace`. Its documentation says that it answers
/// whether the character has the Unicode `White_Space` property.
#[verifier::external_body]
fn is_whitespace(c: char) -> (r: bool)
    ensures
        r == char_is_whitespace(c),
{
    c.is_whitespace()
}

/// Whether a character is an ASCII letter, `A` to `Z` or `a` to `z`.
pub open spec fn is_ascii_letter(c: char) -> bool {
    ('A' <= c && c <= 'Z') || ('a' <= c && c <= 'z')
}

/// std's `char::is_alphabetic`. Its documentation says that it answers
/// whether the character has the Unicode `Alphabetic` property; among the
/// ASCII characters, the letters have it and no other does. The contract
/// names the answer and states it for ASCII characters.
#[verifier::external_body]
fn is_alphabetic(c: char) -> (r: bool)
    ensures
        r == char_is_alphabetic(c),
        (c as int) < 128 ==> (r <==> is_ascii_letter(c)),
{
    c.is_alphabetic()
}

/// A piece of the input after the first stage of lexing.
pub enum SpecUnit {
    /// A complete token.
    Token(SpecToken),
    /// A backslash, with the token of the character after it, if there is one.
    Escaped(Option<SpecToken>),
    /// A character that belongs to a word.
    Literal(char),
}

#[derive(Debug)]
enum TokenOrLiteral {
    Token(Token),
    Escaped(Option<Token>),
    Literal(char),
}

impl View for TokenOrLiteral {
    type V = SpecUnit;

    closed spec fn view(&self) -> SpecUnit {
        match self {
            TokenOrLiteral::Token(t) => SpecUnit::Token(t@),
            TokenOrLiteral::Escaped(Some(t)) => SpecUnit::Escaped(Some(t@)),
            TokenOrLiteral::Escaped(None) => SpecUnit::Escaped(None),
            TokenOrLiteral::Literal(c) => SpecUnit::Literal(*c),
        }
    }
}

/// The symbol that a character is on its own, for the characters that never
/// begin a longer symbol.
pub open spec fn single_symbol(c: char) -> Option<Symbol> {
    if c == '!' {
        Some(Symbol::Bang)
    } else if c == '#' {
        Some(Symbol::Pound)
    } else if c == '*' {
        Some(Symbol::Star)
    } else if c == '?' {
        Some(Symbol::Question)
    } else if c == '%' {
        Some(Symbol::Percent)
    } else if c == '-' {
        Some(Symbol::Dash)
    } else if c == '=' {
        Some(Symbol::Equals)
    } else if c == '+' {
        Some(Symbol::Plus)
    } else if c == ':' {
        Some(Symbol::Colon)
    } else if c == '@' {
        Some(Symbol::At)
    } else if c == '^' {
        Some(Symbol::Caret)
    } else if c == '/' {
        Some(Symbol::Slash)
    } else if c == ',' {
        Some(Symbol::Comma)
    } else {
        None
    }
}

/// The quote that a character is, if it is one.
pub open spec fn quote_of(c: char) -> Option<Quote> {
    if c == '\'' {
        Some(Quote::Single)
    } else if c == '"' {
        Some(Quote::Double)
    } else if c == '`' {
        Some(Quote::Backtick)
    } else {
        None
    }
}

/// The bracket that a character is, if it is one.
pub open spec fn paren_of(c: char) -> Option<Paren> {
    if c == '(' {
        Some(Paren::spec_new(ParenKind::Normal, ParenPos::Open))
    } else if c == ')' {
        Some(Paren::spec_new(ParenKind::Normal, ParenPos::Close))
    } else if c == '[' {
        Some(Paren::spec_new(ParenKind::Square, ParenPos::Open))
    } else if c == ']' {
        Some(Paren::spec_new(ParenKind::Square, ParenPos::Close))
    } else if c == '{' {
        Some(Paren::spec_new(ParenKind::Curly, ParenPos::Open))
    } else if c == '}' {
        Some(Paren::spec_new(ParenKind::Curly, ParenPos::Close))
    } else {
        None
    }
}

/// The positional parameter named by a digit character.
pub open spec fn digit_positional(c: char) -> Positional {
    if c == '0' {
        Positional::Zero
    } else if c == '1' {
        Positional::One
    } else if c == '2' {
        Positional::Two
    } else if c == '3' {
        Positional::Three
    } else if c == '4' {
        Positional::Four
    } else if c == '5' {
        Positional::Five
    } else if c == '6' {
        Positional::Six
    } else if c == '7' {
        Positional::Seven
    } else if c == '8' {
        Positional::Eight
    } else {
        Positional::Nine
    }
}

/// Whether the input has the character `c` at index `i`.
pub open spec fn char_at_is(cs: Seq<char>, i: int, c: char) -> bool {
    0 <= i < cs.len() && cs[i] == c
}

/// A symbol token as a unit.
pub open spec fn sym(s: Symbol) -> SpecUnit {
    SpecUnit::Token(SpecToken::Symbol(s))
}

/// The end of the run of whitespace other than line feeds that begins at `i`.
pub open spec fn blank_run_end(cs: Seq<char>, i: int) -> int
    decreases cs.len() - i,
{
    if 0 <= i < cs.len() && char_is_whitespace(cs[i]) && cs[i] != '\n' {
        blank_run_end(cs, i + 1)
    } else {
        i
    }
}

/// The unit that begins at `pos` with a character other than a backslash, and
/// the index after it. Symbols of two or three characters are taken whole.
pub open spec fn plain_unit_at(cs: Seq<char>, pos: int) -> (SpecUnit, int) {
    let c = cs[pos];
    let nx: int = pos + 1;
    if c == '\n' {
        (SpecUnit::Token(SpecToken::NewLine), nx)
    } else if single_symbol(c) is Some {
        (sym(single_symbol(c)->0), nx)
    } else if quote_of(c) is Some {
        (SpecUnit::Token(SpecToken::Quote(quote_of(c)->0)), nx)
    } else if c == ';' {
        if char_at_is(cs, nx, ';') {
            (sym(Symbol::DoubleSemi), nx + 1)
        } else {
            (sym(Symbol::Semicolon), nx)
        }
    } else if c == '&' {
        if char_at_is(cs, nx, '&') {
            (sym(Symbol::And), nx + 1)
        } else {
            (sym(Symbol::Amp), nx)
        }
    } else if c == '|' {
        if char_at_is(cs, nx, '|') {
            (sym(Symbol::Or), nx + 1)
        } else {
            (sym(Symbol::Pipe), nx)
        }
    } else if paren_of(c) is Some {
        (SpecUnit::Token(SpecToken::Paren(paren_of(c)->0)), nx)
    } else if c == '$' {
        if nx < cs.len() && is_digit_char(cs[nx]) {
            (SpecUnit::Token(SpecToken::PositionalParam(digit_positional(cs[nx]))), nx + 1)
        } else {
            (sym(Symbol::Dollar), nx)
        }
    } else if c == '<' {
        if char_at_is(cs, nx, '<') {
            if char_at_is(cs, nx + 1, '-') {
                (sym(Symbol::DoubleLtDash), nx + 2)
            } else {
                (sym(Symbol::DoubleLt), nx + 1)
            }
        } else if char_at_is(cs, nx, '&') {
            (sym(Symbol::LtAnd), nx + 1)
        } else if char_at_is(cs, nx, '>') {
            (sym(Symbol::LtGt), nx + 1)
        } else {
            (sym(Symbol::Lt), nx)
        }
    } else if c == '>' {
        if char_at_is(cs, nx, '>') {
            (sym(Symbol::DoubleGt), nx + 1)
        } else if char_at_is(cs, nx, '&') {
            (sym(Symbol::GtAnd), nx + 1)
        } else if char_at_is(cs, nx, '|') {
            (sym(Symbol::Clobber), nx + 1)
        } else {
            (sym(Symbol::Gt), nx)
        }
    } else if char_is_whitespace(c) {
        let e = blank_run_end(cs, nx);
        (SpecUnit::Token(SpecToken::Whitespace(cs.subrange(pos, e))), e)
    } else {
        (SpecUnit::Literal(c), nx)
    }
}

/// The token that a character makes when it is lexed on its own: what an
/// escape carries.
pub open spec fn escaped_token(c: char) -> SpecToken {
    if c == '\\' {
        SpecToken::Symbol(Symbol::Backslash)
    } else {
        match plain_unit_at(seq![c], 0).0 {
            SpecUnit::Token(t) => t,
            SpecUnit::Literal(l) => SpecToken::Word(seq![l]),
            SpecUnit::Escaped(_) => SpecToken::Symbol(Symbol::Backslash),
        }
    }
}

/// The unit that begins at `pos`, and the index after it.
pub open spec fn unit_at(cs: Seq<char>, pos: int) -> (SpecUnit, int) {
    if cs[pos] == '\\' {
        if pos + 1 < cs.len() {
            (SpecUnit::Escaped(Some(escaped_token(cs[pos + 1]))), pos + 2)
        } else {
            (SpecUnit::Escaped(None), pos + 1)
        }
    } else {
        plain_unit_at(cs, pos)
    }
}

pub proof fn lemma_blank_run(cs: Seq<char>, i: int)
    requires
        0 <= i <= cs.len(),
    ensures
        i <= blank_run_end(cs, i) <= cs.len(),
    decreases cs.len() - i,
{
    if i < cs.len() && char_is_whitespace(cs[i]) && cs[i] != '\n' {
        lemma_blank_run(cs, i + 1);
    }
}

/// A unit takes at least one character and no more than there are.
pub proof fn lemma_unit_bounds(cs: Seq<char>, pos: int)
    requires
        0 <= pos < cs.len(),
    ensures
        pos < unit_at(cs, pos).1 <= cs.len(),
        pos < plain_unit_at(cs, pos).1 <= cs.len(),
{
    lemma_blank_run(cs, pos + 1);
}

/// The units of the input from index `pos` on.
pub open spec fn units_from(cs: Seq<char>, pos: int) -> Seq<SpecUnit>
    decreases cs.len() - pos,
{
    if 0 <= pos < cs.len() {
        proof {
            lemma_unit_bounds(cs, pos);
        }
        let r = unit_at(cs, pos);
        seq![r.0] + units_from(cs, r.1)
    } else {
        Seq::empty()
    }
}

/// Whether a character is alphabetic: of an ASCII character, whether it is
/// a letter; of any other, what `char::is_alphabetic` answers.
pub open spec fn alphabetic(c: char) -> bool {
    if (c as int) < 128 {
        is_ascii_letter(c)
    } else {
        char_is_alphabetic(c)
    }
}

/// Whether a character may begin a name-like word.
pub open spec fn word_start(c: char) -> bool {
    c == '_' || alphabetic(c)
}

/// Whether a character may continue a name-like word.
pub open spec fn word_char(c: char) -> bool {
    is_digit_char(c) || word_start(c)
}

/// How many of the units at the front are literal characters that continue a
/// word; a name-like word stops at the first character that cannot be part of
/// a name.
pub open spec fn word_run(us: Seq<SpecUnit>, name_like: bool) -> nat
    decreases us.len(),
{
    if us.len() > 0 && (us[0] matches SpecUnit::Literal(c) && (!name_like || word_char(c))) {
        1 + word_run(us.drop_first(), name_like)
    } else {
        0
    }
}

pub proof fn lemma_word_run_len(us: Seq<SpecUnit>, name_like: bool)
    ensures
        word_run(us, name_like) <= us.len(),
    decreases us.len(),
{
    if us.len() > 0 {
        lemma_word_run_len(us.drop_first(), name_like);
    }
}

/// The characters of the literal units, in order.
pub open spec fn literal_chars(us: Seq<SpecUnit>) -> Seq<char>
    decreases us.len(),
{
    if us.len() == 0 {
        Seq::empty()
    } else {
        literal_chars(us.drop_last()) + match us.last() {
            SpecUnit::Literal(c) => seq![c],
            _ => Seq::empty(),
        }
    }
}

/// The tokens that a sequence of units gives: tokens stay as they are, an
/// escape gives a backslash and the escaped token, and literal characters in a
/// row give one word.
pub open spec fn group(us: Seq<SpecUnit>) -> Seq<SpecToken>
    decreases us.len(),
{
    if us.len() == 0 {
        Seq::empty()
    } else {
        match us[0] {
            SpecUnit::Token(t) => seq![t] + group(us.drop_first()),
            SpecUnit::Escaped(None) => seq![SpecToken::Symbol(Symbol::Backslash)] + group(
                us.drop_first(),
            ),
            SpecUnit::Escaped(Some(t)) => seq![SpecToken::Symbol(Symbol::Backslash), t] + group(
                us.drop_first(),
            ),
            SpecUnit::Literal(c) => {
                let n: int = word_run(us.drop_first(), word_start(c)) as int;
                proof {
                    lemma_word_run_len(us.drop_first(), word_start(c));
                }
                seq![SpecToken::Word(seq![c] + literal_chars(us.subrange(1, n + 1)))] + group(
                    us.skip(n + 1),
                )
            },
        }
    }
}

/// The values of a sequence of tokens.
pub open spec fn token_views(ts: Seq<Token>) -> Seq<SpecToken> {
    ts.map_values(|t: Token| t@)
}

/// The tokens of a text.
pub open spec fn tokenize(cs: Seq<char>) -> Seq<SpecToken> {
    group(units_from(cs, 0))
}

fn char_is(chars: &Vec<char>, i: usize, c: char) -> (r: bool)
    ensures
        r == char_at_is(chars@, i as int, c),
{
    i < chars.len() && chars[i] == c
}

fn single_symbol_of(c: char) -> (r: Option<Symbol>)
    ensures
        r == single_symbol(c),
{
    match c {
        '!' => Some(Symbol::Bang),
        '#' => Some(Symbol::Pound),
        '*' => Some(Symbol::Star),
        '?' => Some(Symbol::Question),
        '%' => Some(Symbol::Percent),
        '-' => Some(Symbol::Dash),
        '=' => Some(Symbol::Equals),
        '+' => Some(Symbol::Plus),
        ':' => Some(Symbol::Colon),
        '@' => Some(Symbol::At),
        '^' => Some(Symbol::Caret),
        '/' => Some(Symbol::Slash),
        ',' => Some(Symbol::Comma),
        _ => None,
    }
}

fn quote_of_char(c: char) -> (r: Option<Quote>)
    ensures
        r == quote_of(c),
{
    match c {
        '\'' => Some(Quote::Single),
        '"' => Some(Quote::Double),
        '`' => Some(Quote::Backtick),
        _ => None,
    }
}

fn paren_of_char(c: char) -> (r: Option<Paren>)
    ensures
        r == paren_of(c),
{
    let parts = match c {
        '(' => Some((ParenKind::Normal, ParenPos::Open)),
        ')' => Some((ParenKind::Normal, ParenPos::Close)),
        '[' => Some((ParenKind::Square, ParenPos::Open)),
        ']' => Some((ParenKind::Square, ParenPos::Close)),
        '{' => Some((ParenKind::Curly, ParenPos::Open)),
        '}' => Some((ParenKind::Curly, ParenPos::Close)),
        _ => None,
    };
    match parts {
        Some((kind, pos)) => {
            let p = Paren::new(kind, pos);
            proof {
                Paren::lemma_parts(kind, pos, p);
            }
            Some(p)
        },
        None => None,
    }
}

/// Reads the unit that begins at `pos` with a character other than a
/// backslash.
fn read_plain(chars: &Vec<char>, pos: usize) -> (r: (TokenOrLiteral, usize))
    requires
        pos < chars.len(),
    ensures
        r.0@ == plain_unit_at(chars@, pos as int).0,
        r.1 as int == plain_unit_at(chars@, pos as int).1,
{
    let c = chars[pos];
    let nx: usize = pos + 1;
    if c == '\n' {
        return (TokenOrLiteral::Token(Token::NewLine), nx);
    }
    if let Some(s) = single_symbol_of(c) {
        return (TokenOrLiteral::Token(Token::Symbol(s)), nx);
    }
    if let Some(q) = quote_of_char(c) {
        return (TokenOrLiteral::Token(Token::Quote(q)), nx);
    }
    if c == ';' {
        return if char_is(chars, nx, ';') {
            (TokenOrLiteral::Token(Token::Symbol(Symbol::DoubleSemi)), nx + 1)
        } else {
            (TokenOrLiteral::Token(Token::Symbol(Symbol::Semicolon)), nx)
        };
    }
    if c == '&' {
        return if char_is(chars, nx, '&') {
            (TokenOrLiteral::Token(Token::Symbol(Symbol::And)), nx + 1)
        } else {
            (TokenOrLiteral::Token(Token::Symbol(Symbol::Amp)), nx)
        };
    }
    if c == '|' {
        return if char_is(chars, nx, '|') {
            (TokenOrLiteral::Token(Token::Symbol(Symbol::Or)), nx + 1)
        } else {
            (TokenOrLiteral::Token(Token::Symbol(Symbol::Pipe)), nx)
        };
    }
    if let Some(p) = paren_of_char(c) {
        return (TokenOrLiteral::Token(Token::Paren(p)), nx);
    }
    if c == '$' {
        if nx < chars.len() {
            if let Ok(p) = Positional::try_from_char(chars[nx]) {
                return (TokenOrLiteral::Token(Token::PositionalParam(p)), nx + 1);
            }
        }
        return (TokenOrLiteral::Token(Token::Symbol(Symbol::Dollar)), nx);
    }
    if c == '<' {
        let s = if char_is(chars, nx, '<') {
            if char_is(chars, nx + 1, '-') {
                (Symbol::DoubleLtDash, nx + 2)
            } else {
                (Symbol::DoubleLt, nx + 1)
            }
        } else if char_is(chars, nx, '&') {
            (Symbol::LtAnd, nx + 1)
        } else if char_is(chars, nx, '>') {
            (Symbol::LtGt, nx + 1)
        } else {
            (Symbol::Lt, nx)
        };
        return (TokenOrLiteral::Token(Token::Symbol(s.0)), s.1);
    }
    if c == '>' {
        let s = if char_is(chars, nx, '>') {
            (Symbol::DoubleGt, nx + 1)
        } else if char_is(chars, nx, '&') {
            (Symbol::GtAnd, nx + 1)
        } else if char_is(chars, nx, '|') {
            (Symbol::Clobber, nx + 1)
        } else {
            (Symbol::Gt, nx)
        };
        return (TokenOrLiteral::Token(Token::Symbol(s.0)), s.1);
    }
    if is_whitespace(c) {
        let mut buf = String::new();
        push_char(&mut buf, c);
        let mut i: usize = nx;
        while i < chars.len() && is_whitespace(chars[i]) && chars[i] != '\n'
            invariant
                nx <= i <= chars.len(),
                nx == pos + 1,
                pos < chars.len(),
                blank_run_end(chars@, i as int) == blank_run_end(chars@, nx as int),
                buf@ == chars@.subrange(pos as int, i as int),
            decreases chars.len() - i,
        {
            push_char(&mut buf, chars[i]);
            i = i + 1;
            assert(buf@ =~= chars@.subrange(pos as int, i as int));
        }
        return (TokenOrLiteral::Token(Token::Whitespace(buf)), i);
    }
    (TokenOrLiteral::Literal(c), nx)
}

/// The token that a character makes on its own.
fn lone_token(c: char) -> (r: Token)
    ensures
        r@ == escaped_token(c),
{
    if c == '\\' {
        return Token::Symbol(Symbol::Backslash);
    }
    let one: Vec<char> = vec![c];
    assert(one@ =~= seq![c]);
    match read_plain(&one, 0).0 {
        TokenOrLiteral::Token(t) => t,
        TokenOrLiteral::Literal(l) => {
            let mut w = String::new();
            push_char(&mut w, l);
            assert(w@ =~= seq![l]);
            Token::Word(w)
        },
        TokenOrLiteral::Escaped(_) => Token::Symbol(Symbol::Backslash),
    }
}

/// Reads the unit that begins at `pos`.
fn read_unit(chars: &Vec<char>, pos: usize) -> (r: (TokenOrLiteral, usize))
    requires
        pos < chars.len(),
    ensures
        r.0@ == unit_at(chars@, pos as int).0,
        r.1 as int == unit_at(chars@, pos as int).1,
{
    if chars[pos] == '\\' {
        if pos + 1 < chars.len() {
            (TokenOrLiteral::Escaped(Some(lone_token(chars[pos + 1]))), pos + 2)
        } else {
            (TokenOrLiteral::Escaped(None), pos + 1)
        }
    } else {
        read_plain(chars, pos)
    }
}

fn word_first_char(c: char) -> (r: bool)
    ensures
        r == word_start(c),
{
    c == '_' || is_alphabetic(c)
}

fn word_char_of(c: char) -> (r: bool)
    ensures
        r == word_char(c),
{
    ('0' <= c && c <= '9') || word_first_char(c)
}

/// Turns characters into tokens, one token at a time.
pub struct Lexer {
    chars: Vec<char>,
    pos: usize,
    peeked: Option<TokenOrLiteral>,
}

impl Lexer {
    /// The units still to be grouped: the one put back, if there is one, then
    /// those of the characters not read yet.
    pub closed spec fn pending(&self) -> Seq<SpecUnit> {
        let rest = units_from(self.chars@, self.pos as int);
        match self.peeked {
            Some(u) => seq![u@] + rest,
            None => rest,
        }
    }

    /// Whether a unit was read and put back.
    pub closed spec fn holds_unit(&self) -> bool {
        self.peeked is Some
    }

    /// The characters not read yet.
    pub closed spec fn unread(&self) -> Seq<char> {
        if self.pos <= self.chars.len() {
            self.chars@.subrange(self.pos as int, self.chars@.len() as int)
        } else {
            Seq::empty()
        }
    }

    /// A lexer over the given characters.
    pub fn new(chars: Vec<char>) -> (r: Lexer)
        ensures
            r@ == tokenize(chars@),
            r.unread() == chars@,
            !r.holds_unit(),
    {
        let r = Lexer { chars, pos: 0, peeked: None };
        assert(r.unread() =~= r.chars@);
        r
    }

    /// The next unit: the one put back, or else the one the next characters
    /// make.
    fn raw_next(&mut self) -> (r: Option<TokenOrLiteral>)
        ensures
            final(self).peeked is None,
            final(self).chars == old(self).chars,
            match r {
                None => old(self).pending().len() == 0 && final(self).pending() == old(
                    self,
                ).pending(),
                Some(u) => old(self).pending().len() > 0 && u@ == old(self).pending()[0]
                    && final(self).pending() == old(self).pending().drop_first(),
            },
    {
        let ghost cs = self.chars@;
        let ghost p = self.pending();
        if let Some(u) = self.peeked.take() {
            assert(self.pending() =~= p.drop_first());
            return Some(u);
        }
        if self.pos >= self.chars.len() {
            return None;
        }
        let (u, nx): (TokenOrLiteral, usize) = read_unit(&self.chars, self.pos);
        proof {
            lemma_unit_bounds(cs, self.pos as int);
        }
        self.pos = nx;
        assert(self.pending() =~= p.drop_first());
        Some(u)
    }

    /// The next token, if any is left.
    pub fn next(&mut self) -> (r: Option<Token>)
        ensures
            match r {
                None => old(self)@.len() == 0 && final(self)@ == old(self)@,
                Some(t) => old(self)@.len() > 0 && t@ == old(self)@[0] && final(self)@ == old(
                    self,
                )@.drop_first(),
            },
    {
        let ghost p0 = self.pending();
        match self.raw_next() {
            None => None,
            Some(TokenOrLiteral::Token(t)) => {
                assert(group(p0) =~= seq![t@] + group(p0.drop_first()));
                Some(t)
            },
            Some(TokenOrLiteral::Escaped(t)) => {
                let ghost escaped = match &t {
                    Some(tok) => Some(tok@),
                    None => None,
                };
                self.peeked = match t {
                    Some(tok) => Some(TokenOrLiteral::Token(tok)),
                    None => None,
                };
                proof {
                    match escaped {
                        Some(e) => {
                            assert(self.pending() =~= seq![SpecUnit::Token(e)] + p0.drop_first());
                            assert(self.pending().drop_first() =~= p0.drop_first());
                            assert(group(self.pending()) =~= seq![e] + group(p0.drop_first()));
                        },
                        None => {
                            assert(self.pending() =~= p0.drop_first());
                        },
                    }
                }
                Some(Token::Symbol(Symbol::Backslash))
            },
            Some(TokenOrLiteral::Literal(t)) => {
                let is_word = word_first_char(t);
                let mut word = String::new();
                push_char(&mut word, t);
                let ghost mut k: int = 1;
                proof {
                    assert(p0.subrange(1, 1) =~= Seq::<SpecUnit>::empty());
                    assert(word@ =~= seq![t] + literal_chars(p0.subrange(1, 1)));
                    assert(p0.drop_first() =~= p0.skip(1));
                }
                loop
                    invariant_except_break
                        p0.len() > 0,
                        p0[0] == SpecUnit::Literal(t),
                        is_word == word_start(t),
                        1 <= k <= p0.len(),
                        self.peeked is None,
                        self.pending() == p0.skip(k),
                        word@ == seq![t] + literal_chars(p0.subrange(1, k)),
                        word_run(p0.drop_first(), is_word) == (k - 1) + word_run(p0.skip(k), is_word),
                    ensures
                        p0.len() > 0,
                        p0[0] == SpecUnit::Literal(t),
                        is_word == word_start(t),
                        1 <= k <= p0.len(),
                        self.pending() == p0.skip(k),
                        word@ == seq![t] + literal_chars(p0.subrange(1, k)),
                        word_run(p0.drop_first(), is_word) == k - 1,
                    decreases self.pending().len(),
                {
                    let ghost before = self.pending();
                    match self.raw_next() {
                        Some(TokenOrLiteral::Literal(c)) => {
                            if is_word && !word_char_of(c) {
                                self.peeked = Some(TokenOrLiteral::Literal(c));
                                proof {
                                    assert(self.pending() =~= before);
                                }
                                break;
                            }
                            proof {
                                assert(before.drop_first() =~= p0.skip(k + 1));
                                assert(p0.subrange(1, k + 1).drop_last() =~= p0.subrange(1, k));
                                assert(p0[k] == before[0]);
                            }
                            push_char(&mut word, c);
                            proof {
                                k = k + 1;
                                assert(word@ =~= seq![t] + literal_chars(p0.subrange(1, k)));
                            }
                        },
                        Some(u) => {
                            self.peeked = Some(u);
                            proof {
                                assert(self.pending() =~= before);
                            }
                            break;
                        },
                        None => {
                            break;
                        },
                    }
                }
                proof {
                    assert(group(p0) =~= seq![SpecToken::Word(word@)] + group(p0.skip(k)));
                }
                Some(Token::Word(word))
            },
        }
    }

    /// How many tokens are left, at least and at most: at least one when a unit
    /// was put back, and no more than there are characters left to read and
    /// units put back.
    pub fn size_hint(&self) -> (r: (usize, Option<usize>))
        ensures
            r.0 == (if self.holds_unit() {
                1usize
            } else {
                0usize
            }),
            r.1 == Some(self.unread().len() as usize),
    {
        let low: usize = if self.peeked.is_some() {
            1
        } else {
            0
        };
        let high: usize = if self.pos <= self.chars.len() {
            self.chars.len() - self.pos
        } else {
            0
        };
        (low, Some(high))
    }

    /// All the tokens that are left, in order.
    pub fn tokens(self) -> (r: Vec<Token>)
        ensures
            token_views(r@) == self@,
    {
        let ghost all = self@;
        let mut lexer = self;
        let mut out: Vec<Token> = Vec::new();
        loop
            invariant
                all == token_views(out@) + lexer@,
                all == self@,
            decreases lexer@.len(),
        {
            match lexer.next() {
                Some(t) => {
                    out.push(t);
                    assert(all =~= token_views(out@) + lexer@);
                },
                None => {
                    assert(all =~= token_views(out@));
                    return out;
                },
            }
        }
    }
}

impl View for Lexer {
    type V = Seq<SpecToken>;

    /// The tokens still to come.
    closed spec fn view(&self) -> Seq<SpecToken> {
        group(self.pending())
    }
}


/// The text of a unit: the characters it was made of.
pub open spec fn unit_text(u: SpecUnit) -> Seq<char> {
    match u {
        SpecUnit::Token(t) => token_text(t),
        SpecUnit::Escaped(None) => seq!['\\'],
        SpecUnit::Escaped(Some(t)) => seq!['\\'] + token_text(t),
        SpecUnit::Literal(c) => seq![c],
    }
}

/// The texts of units, one after the other.
pub open spec fn units_text(us: Seq<SpecUnit>) -> Seq<char>
    decreases us.len(),
{
    if us.len() == 0 {
        Seq::empty()
    } else {
        unit_text(us[0]) + units_text(us.drop_first())
    }
}

/// The texts of tokens, one after the other.
pub open spec fn tokens_text(ts: Seq<SpecToken>) -> Seq<char>
    decreases ts.len(),
{
    if ts.len() == 0 {
        Seq::empty()
    } else {
        token_text(ts[0]) + tokens_text(ts.drop_first())
    }
}

pub proof fn lemma_units_text_concat(a: Seq<SpecUnit>, b: Seq<SpecUnit>)
    ensures
        units_text(a + b) == units_text(a) + units_text(b),
    decreases a.len(),
{
    if a.len() == 0 {
        assert(a + b =~= b);
    } else {
        lemma_units_text_concat(a.drop_first(), b);
        assert((a + b).drop_first() =~= a.drop_first() + b);
        assert(unit_text(a[0]) + (units_text(a.drop_first()) + units_text(b)) =~= unit_text(a[0])
            + units_text(a.drop_first()) + units_text(b));
    }
}

pub proof fn lemma_tokens_text_concat(a: Seq<SpecToken>, b: Seq<SpecToken>)
    ensures
        tokens_text(a + b) == tokens_text(a) + tokens_text(b),
    decreases a.len(),
{
    if a.len() == 0 {
        assert(a + b =~= b);
    } else {
        lemma_tokens_text_concat(a.drop_first(), b);
        assert((a + b).drop_first() =~= a.drop_first() + b);
        assert(token_text(a[0]) + (tokens_text(a.drop_first()) + tokens_text(b)) =~= token_text(
            a[0],
        ) + tokens_text(a.drop_first()) + tokens_text(b));
    }
}

/// The characters of literal units are their texts.
pub proof fn lemma_literal_chars_text(us: Seq<SpecUnit>)
    requires
        forall|j: int| 0 <= j < us.len() ==> #[trigger] us[j] is Literal,
    ensures
        literal_chars(us) == units_text(us),
    decreases us.len(),
{
    if us.len() > 0 {
        let d = us.drop_last();
        assert forall|j: int| 0 <= j < d.len() implies #[trigger] d[j] is Literal by {
            assert(d[j] == us[j]);
        }
        lemma_literal_chars_text(d);
        lemma_units_text_concat(d, seq![us.last()]);
        assert(d + seq![us.last()] =~= us);
        assert(seq![us.last()].drop_first() =~= Seq::<SpecUnit>::empty());
        assert(us[us.len() - 1] is Literal);
        assert(units_text(seq![us.last()]) =~= unit_text(us.last())) by {
            reveal_with_fuel(units_text, 2);
        }
    }
}

/// The units that a word run counts are literals.
pub proof fn lemma_word_run_literals(us: Seq<SpecUnit>, name_like: bool, j: int)
    requires
        0 <= j < word_run(us, name_like),
    ensures
        us[j] is Literal,
        name_like ==> word_char(us[j]->0),
    decreases us.len(),
{
    if us.len() > 0 && (us[0] matches SpecUnit::Literal(c) && (!name_like || word_char(c))) {
        if j > 0 {
            lemma_word_run_literals(us.drop_first(), name_like, j - 1);
            lemma_word_run_len(us.drop_first(), name_like);
            assert(us.drop_first()[j - 1] == us[j]);
        }
    } else {
        assert(word_run(us, name_like) == 0);
    }
}

/// A unit that begins with a character other than a backslash is written with
/// the characters it was made of.
#[verifier::rlimit(60)]
pub proof fn lemma_plain_unit_text(cs: Seq<char>, pos: int)
    requires
        0 <= pos < cs.len(),
    ensures
        unit_text(plain_unit_at(cs, pos).0) == cs.subrange(pos, plain_unit_at(cs, pos).1),
{
    lemma_unit_bounds(cs, pos);
    let r = plain_unit_at(cs, pos);
    let c = cs[pos];
    if paren_of(c) is Some && !(c == '\n' || single_symbol(c) is Some || quote_of(c) is Some || c == ';' || c == '&' || c == '|') {
        let p = paren_of(c)->0;
        if c == '(' {
            Paren::lemma_parts(ParenKind::Normal, ParenPos::Open, p);
        } else if c == ')' {
            Paren::lemma_parts(ParenKind::Normal, ParenPos::Close, p);
        } else if c == '[' {
            Paren::lemma_parts(ParenKind::Square, ParenPos::Open, p);
        } else if c == ']' {
            Paren::lemma_parts(ParenKind::Square, ParenPos::Close, p);
        } else if c == '{' {
            Paren::lemma_parts(ParenKind::Curly, ParenPos::Open, p);
        } else {
            Paren::lemma_parts(ParenKind::Curly, ParenPos::Close, p);
        }
        assert(paren_text(p) =~= seq![c]);
    }
    assert(unit_text(r.0) =~= cs.subrange(pos, r.1));
}

/// The token of a lone character is written with that character.
pub proof fn lemma_escaped_token_text(c: char)
    ensures
        token_text(escaped_token(c)) == seq![c],
{
    if c != '\\' {
        lemma_plain_unit_text(seq![c], 0);
        assert(seq![c].subrange(0, 1) =~= seq![c]);
    }
}

/// A unit is written with the characters it was made of.
pub proof fn lemma_unit_text(cs: Seq<char>, pos: int)
    requires
        0 <= pos < cs.len(),
    ensures
        unit_text(unit_at(cs, pos).0) == cs.subrange(pos, unit_at(cs, pos).1),
{
    if cs[pos] == '\\' {
        if pos + 1 < cs.len() {
            lemma_escaped_token_text(cs[pos + 1]);
        }
        assert(unit_text(unit_at(cs, pos).0) =~= cs.subrange(pos, unit_at(cs, pos).1));
    } else {
        lemma_plain_unit_text(cs, pos);
    }
}

/// The units of the input from `pos` on are written with the rest of the input.
pub proof fn lemma_units_from_text(cs: Seq<char>, pos: int)
    requires
        0 <= pos <= cs.len(),
    ensures
        units_text(units_from(cs, pos)) == cs.subrange(pos, cs.len() as int),
    decreases cs.len() - pos,
{
    if pos < cs.len() {
        lemma_unit_bounds(cs, pos);
        lemma_unit_text(cs, pos);
        let r = unit_at(cs, pos);
        lemma_units_from_text(cs, r.1);
        let us = units_from(cs, pos);
        assert(us.drop_first() =~= units_from(cs, r.1));
        assert(cs.subrange(pos, r.1) + cs.subrange(r.1, cs.len() as int) =~= cs.subrange(
            pos,
            cs.len() as int,
        ));
    } else {
        assert(cs.subrange(pos, cs.len() as int) =~= Seq::<char>::empty());
    }
}

/// Grouping units into tokens keeps their text.
pub proof fn lemma_group_text(us: Seq<SpecUnit>)
    ensures
        tokens_text(group(us)) == units_text(us),
    decreases us.len(),
{
    if us.len() > 0 {
        let rest = us.drop_first();
        match us[0] {
            SpecUnit::Token(t) => {
                lemma_group_text(rest);
                lemma_tokens_text_concat(seq![t], group(rest));
                assert(seq![t].drop_first() =~= Seq::<SpecToken>::empty());
                assert(tokens_text(seq![t]) =~= token_text(t)) by {
                    reveal_with_fuel(tokens_text, 2);
                }
                assert(tokens_text(group(us)) =~= units_text(us));
            },
            SpecUnit::Escaped(None) => {
                lemma_group_text(rest);
                let b = seq![SpecToken::Symbol(Symbol::Backslash)];
                lemma_tokens_text_concat(b, group(rest));
                assert(b.drop_first() =~= Seq::<SpecToken>::empty());
                assert(tokens_text(b) =~= seq!['\\']) by {
                    reveal_with_fuel(tokens_text, 2);
                }
                assert(tokens_text(group(us)) =~= units_text(us));
            },
            SpecUnit::Escaped(Some(t)) => {
                lemma_group_text(rest);
                let b = seq![SpecToken::Symbol(Symbol::Backslash), t];
                lemma_tokens_text_concat(b, group(rest));
                assert(b.drop_first() =~= seq![t]);
                assert(seq![t].drop_first() =~= Seq::<SpecToken>::empty());
                assert(tokens_text(seq![t]) =~= token_text(t)) by {
                    reveal_with_fuel(tokens_text, 2);
                }
                assert(tokens_text(b) =~= seq!['\\'] + token_text(t));
                assert(tokens_text(group(us)) =~= units_text(us));
            },
            SpecUnit::Literal(c) => {
                let n = word_run(rest, word_start(c)) as int;
                lemma_word_run_len(rest, word_start(c));
                let word_units = us.subrange(1, n + 1);
                let tail = us.skip(n + 1);
                assert forall|j: int| 0 <= j < word_units.len() implies #[trigger] word_units[j] is Literal by {
                    lemma_word_run_literals(rest, word_start(c), j);
                    assert(word_units[j] == rest[j]);
                }
                lemma_literal_chars_text(word_units);
                lemma_group_text(tail);
                let w = SpecToken::Word(seq![c] + literal_chars(word_units));
                lemma_tokens_text_concat(seq![w], group(tail));
                assert(seq![w].drop_first() =~= Seq::<SpecToken>::empty());
                assert(rest =~= word_units + tail);
                lemma_units_text_concat(word_units, tail);
                assert(tokens_text(seq![w]) =~= token_text(w)) by {
                    reveal_with_fuel(tokens_text, 2);
                }
                assert(group(us) == seq![w] + group(tail));
                assert(tokens_text(group(us)) =~= units_text(us));
            },
        }
    }
}

/// Lexing keeps every character: the texts of the tokens of a text, one after
/// the other, are the text.
pub proof fn lemma_tokenize_keeps_text(cs: Seq<char>)
    ensures
        tokens_text(tokenize(cs)) == cs,
{
    lemma_units_from_text(cs, 0);
    lemma_group_text(units_from(cs, 0));
    assert(cs.subrange(0, cs.len() as int) =~= cs);
}

/// A blank character: whitespace other than a line feed.
pub open spec fn blank_char(c: char) -> bool {
    char_is_whitespace(c) && c != '\n'
}

/// What every token of the lexer is: never a literal; a word is not empty,
/// and one that begins like a name (with `_` or a letter) holds only `_`,
/// letters and ASCII digits; a blank is not empty and holds only whitespace
/// other than line feeds, which are tokens of their own.
pub open spec fn token_well_formed(t: SpecToken) -> bool {
    match t {
        SpecToken::Literal(_) => false,
        SpecToken::Word(w) => w.len() > 0 && (word_start(w[0]) ==> forall|i: int|
            0 <= i < w.len() ==> word_char(#[trigger] w[i])),
        SpecToken::Whitespace(w) => w.len() > 0 && forall|i: int|
            0 <= i < w.len() ==> blank_char(#[trigger] w[i]),
        _ => true,
    }
}

/// A unit whose tokens are well formed.
pub open spec fn unit_well_formed(u: SpecUnit) -> bool {
    match u {
        SpecUnit::Token(t) => token_well_formed(t),
        SpecUnit::Escaped(Some(t)) => token_well_formed(t),
        _ => true,
    }
}

proof fn lemma_blank_chars(cs: Seq<char>, i: int)
    requires
        0 <= i,
    ensures
        forall|j: int| i <= j < blank_run_end(cs, i) ==> blank_char(#[trigger] cs[j]),
    decreases cs.len() - i,
{
    if 0 <= i < cs.len() && char_is_whitespace(cs[i]) && cs[i] != '\n' {
        lemma_blank_chars(cs, i + 1);
    }
}

proof fn lemma_plain_unit_well_formed(cs: Seq<char>, pos: int)
    requires
        0 <= pos < cs.len(),
        cs[pos] != '\\',
    ensures
        unit_well_formed(plain_unit_at(cs, pos).0),
{
    let c = cs[pos];
    lemma_blank_run(cs, pos + 1);
    lemma_blank_chars(cs, pos + 1);
    let e = blank_run_end(cs, pos + 1);
    let w = cs.subrange(pos, e);
    if blank_char(c) {
        assert forall|i: int| 0 <= i < w.len() implies blank_char(#[trigger] w[i]) by {
            assert(w[i] == cs[pos + i]);
        }
    }
}

proof fn lemma_escaped_token_well_formed(c: char)
    ensures
        token_well_formed(escaped_token(c)),
{
    if c != '\\' {
        lemma_plain_unit_well_formed(seq![c], 0);
    }
}

proof fn lemma_units_well_formed(cs: Seq<char>, pos: int)
    requires
        0 <= pos,
    ensures
        forall|k: int|
            0 <= k < units_from(cs, pos).len() ==> unit_well_formed(#[trigger] units_from(cs, pos)[k]),
    decreases cs.len() - pos,
{
    if pos < cs.len() {
        lemma_unit_bounds(cs, pos);
        let r = unit_at(cs, pos);
        lemma_units_well_formed(cs, r.1);
        if cs[pos] == '\\' {
            if pos + 1 < cs.len() {
                lemma_escaped_token_well_formed(cs[pos + 1]);
            }
        } else {
            lemma_plain_unit_well_formed(cs, pos);
        }
        let us = units_from(cs, pos);
        assert(us == seq![r.0] + units_from(cs, r.1));
        assert forall|k: int| 0 <= k < us.len() implies unit_well_formed(#[trigger] us[k]) by {
            if k > 0 {
                assert(us[k] == units_from(cs, r.1)[k - 1]);
            }
        }
    }
}

proof fn lemma_literal_chars_word(us: Seq<SpecUnit>)
    requires
        forall|j: int| 0 <= j < us.len() ==> (#[trigger] us[j] is Literal && word_char(us[j]->0)),
    ensures
        forall|i: int|
            0 <= i < literal_chars(us).len() ==> word_char(#[trigger] literal_chars(us)[i]),
    decreases us.len(),
{
    if us.len() > 0 {
        let d = us.drop_last();
        assert forall|j: int| 0 <= j < d.len() implies (#[trigger] d[j] is Literal && word_char(
            d[j]->0,
        )) by {
            assert(d[j] == us[j]);
        }
        lemma_literal_chars_word(d);
        assert(us[us.len() - 1] is Literal);
        let l = literal_chars(us);
        assert(l == literal_chars(d) + seq![us.last()->0]);
        assert forall|i: int| 0 <= i < l.len() implies word_char(#[trigger] l[i]) by {
            if i < literal_chars(d).len() {
                assert(l[i] == literal_chars(d)[i]);
            }
        }
    }
}

proof fn lemma_group_well_formed(us: Seq<SpecUnit>)
    requires
        forall|k: int| 0 <= k < us.len() ==> unit_well_formed(#[trigger] us[k]),
    ensures
        forall|k: int| 0 <= k < group(us).len() ==> token_well_formed(#[trigger] group(us)[k]),
    decreases us.len(),
{
    if us.len() > 0 {
        let rest = us.drop_first();
        assert(unit_well_formed(us[0]));
        match us[0] {
            SpecUnit::Literal(c) => {
                let n = word_run(rest, word_start(c)) as int;
                lemma_word_run_len(rest, word_start(c));
                let word_units = us.subrange(1, n + 1);
                let tail = us.skip(n + 1);
                assert forall|k: int| 0 <= k < tail.len() implies unit_well_formed(
                    #[trigger] tail[k],
                ) by {
                    assert(tail[k] == us[k + n + 1]);
                }
                lemma_group_well_formed(tail);
                let w = seq![c] + literal_chars(word_units);
                if word_start(c) {
                    assert forall|j: int| 0 <= j < word_units.len() implies (
                    #[trigger] word_units[j] is Literal && word_char(word_units[j]->0)) by {
                        lemma_word_run_literals(rest, word_start(c), j);
                        assert(word_units[j] == rest[j]);
                    }
                    lemma_literal_chars_word(word_units);
                    assert forall|i: int| 0 <= i < w.len() implies word_char(#[trigger] w[i]) by {
                        if i > 0 {
                            assert(w[i] == literal_chars(word_units)[i - 1]);
                        }
                    }
                }
                assert(token_well_formed(SpecToken::Word(w)));
                let g = group(us);
                assert(g == seq![SpecToken::Word(w)] + group(tail));
                assert forall|k: int| 0 <= k < g.len() implies token_well_formed(#[trigger] g[k]) by {
                    if k > 0 {
                        assert(g[k] == group(tail)[k - 1]);
                    }
                }
            },
            _ => {
                assert forall|k: int| 0 <= k < rest.len() implies unit_well_formed(
                    #[trigger] rest[k],
                ) by {
                    assert(rest[k] == us[k + 1]);
                }
                lemma_group_well_formed(rest);
                let g = group(us);
                let h = group(rest);
                assert forall|k: int| 0 <= k < g.len() implies token_well_formed(#[trigger] g[k]) by {
                    match us[0] {
                        SpecUnit::Token(t) => {
                            assert(g == seq![t] + h);
                            if k > 0 {
                                assert(g[k] == h[k - 1]);
                            }
                        },
                        SpecUnit::Escaped(None) => {
                            assert(g == seq![SpecToken::Symbol(Symbol::Backslash)] + h);
                            if k > 0 {
                                assert(g[k] == h[k - 1]);
                            }
                        },
                        SpecUnit::Escaped(Some(t)) => {
                            assert(g == seq![SpecToken::Symbol(Symbol::Backslash), t] + h);
                            if k > 1 {
                                assert(g[k] == h[k - 2]);
                            }
                        },
                        SpecUnit::Literal(_) => {},
                    }
                }
            },
        }
    }
}

/// Every token that the lexer gives is well formed: none is a literal, words
/// and blanks are not empty, a blank holds no line feed, and a word that begins
/// like a name holds only `_`, letters and ASCII digits.
pub proof fn lemma_tokens_well_formed(cs: Seq<char>)
    ensures
        forall|k: int|
            0 <= k < tokenize(cs).len() ==> token_well_formed(#[trigger] tokenize(cs)[k]),
{
    lemma_units_well_formed(cs, 0);
    lemma_group_well_formed(units_from(cs, 0));
}

/// A unit that spans the whole input is its only unit.
proof fn lemma_single_unit(cs: Seq<char>)
    requires
        cs.len() > 0,
        unit_at(cs, 0).1 == cs.len(),
    ensures
        units_from(cs, 0) == seq![unit_at(cs, 0).0],
{
    lemma_unit_bounds(cs, 0);
    assert(units_from(cs, cs.len() as int) =~= Seq::<SpecUnit>::empty());
    assert(units_from(cs, 0) =~= seq![unit_at(cs, 0).0]);
}

/// The text of a symbol is lexed as that symbol alone, for every symbol that
/// the lexer makes (all but `~`, which it reads as a word): two- and
/// three-character symbols are taken whole, never as shorter symbols.
pub proof fn lemma_symbol_text_lexes_to_symbol(s: Symbol)
    requires
        s != Symbol::Tilde,
    ensures
        tokenize(symbol_text(s)) == seq![SpecToken::Symbol(s)],
{
    let cs = symbol_text(s);
    let u = if s == Symbol::Backslash {
        SpecUnit::Escaped(None)
    } else {
        sym(s)
    };
    assert(unit_at(cs, 0) == (u, cs.len() as int)) by {
        match s {
            Symbol::Bang => {},
            Symbol::Tilde => {},
            Symbol::Pound => {},
            Symbol::Star => {},
            Symbol::Question => {},
            Symbol::Backslash => {},
            Symbol::Percent => {},
            Symbol::Dash => {},
            Symbol::Equals => {},
            Symbol::Plus => {},
            Symbol::Colon => {},
            Symbol::At => {},
            Symbol::Caret => {},
            Symbol::Slash => {},
            Symbol::Comma => {},
            Symbol::Semicolon => {},
            Symbol::Amp => {},
            Symbol::Pipe => {},
            Symbol::And => {},
            Symbol::Or => {},
            Symbol::DoubleSemi => {},
            Symbol::Dollar => {},
            Symbol::Lt => {},
            Symbol::Gt => {},
            Symbol::DoubleLt => {},
            Symbol::DoubleGt => {},
            Symbol::LtAnd => {},
            Symbol::GtAnd => {},
            Symbol::DoubleLtDash => {},
            Symbol::Clobber => {},
            Symbol::LtGt => {},
        }
    }
    lemma_single_unit(cs);
    let us = seq![u];
    assert(us.drop_first() =~= Seq::<SpecUnit>::empty());
    assert(group(us) =~= seq![SpecToken::Symbol(s)]) by {
        reveal_with_fuel(group, 2);
    }
}

/// The text of a bracket, of a quote and of a positional parameter is lexed
/// as that one token.
pub proof fn lemma_single_token_texts(p: Paren, q: Quote, n: Positional)
    ensures
        tokenize(paren_text(p)) == seq![SpecToken::Paren(p)],
        tokenize(quote_text(q)) == seq![SpecToken::Quote(q)],
        tokenize(positional_text(n)) == seq![SpecToken::PositionalParam(n)],
{
    crate::tokens::lemma_paren_text_names_paren(p);
    Paren::lemma_parts(p.spec_kind(), p.spec_pos(), p);
    let cp = paren_text(p);
    assert(unit_at(cp, 0) == (SpecUnit::Token(SpecToken::Paren(p)), 1int));
    lemma_single_unit(cp);
    let cq = quote_text(q);
    assert(unit_at(cq, 0) == (SpecUnit::Token(SpecToken::Quote(q)), 1int));
    lemma_single_unit(cq);
    let cn = positional_text(n);
    assert(unit_at(cn, 0) == (SpecUnit::Token(SpecToken::PositionalParam(n)), 2int));
    lemma_single_unit(cn);
    reveal_with_fuel(group, 2);
    assert(seq![SpecUnit::Token(SpecToken::Paren(p))].drop_first() =~= Seq::<SpecUnit>::empty());
    assert(seq![SpecUnit::Token(SpecToken::Quote(q))].drop_first() =~= Seq::<SpecUnit>::empty());
    assert(seq![SpecUnit::Token(SpecToken::PositionalParam(n))].drop_first() =~= Seq::<
        SpecUnit,
    >::empty());
}

} // verus!
