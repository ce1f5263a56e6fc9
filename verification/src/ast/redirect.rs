//! I/O redirections.

use vstd::prelude::*;

use crate::ast::word::{word_text, SpecWord, Word};
use crate::ast::{spec_fd, spec_io_number, Fd};
use crate::parser_v2::{
    adv, commit, enter, lemma_enter, lemma_push_concat, lemma_rep_unfold, moved, parsed, rep, restore, spec_choice,
    PState, Parser, Step,
};
use crate::text::{all_digits, concat_all, decimal, digit_char, digits_value, owned, push_str, u32_text};
use crate::tokens::{symbol_text, token_symbol, token_text, Quote, SpecToken, Symbol, Token};

verus! {

/// I/O redirection
#[derive(Debug, Clone, PartialEq, Eq)]
pub enum Redirect {
    /// Redirection to a file
    File(Option<Fd>, Kind, Destination),
    /// Redirection both stdin and stderr (can append).
    OutAndErr(Word, bool),
}

#[derive(Debug, Clone, Copy, PartialEq, Eq, Structural)]
pub enum Kind {
    /// Read (`<`).
    Read,
    /// Write (`>`).
    Write,
    /// Append (`>>`).
    Append,
    /// Read and write (`<>`).
    ReadAndWrite,
    /// Clobber (`>|`).
    Clobber,
    /// Duplicate input (`<&`).
    DuplicateIn,
    /// Duplicate output (`>&`).
    DuplicateOut,
}

#[derive(Debug, Clone, PartialEq, Eq)]
pub enum Destination {
    Filename(Word),
    Fd(Fd),
}

#[derive(Debug, Clone, PartialEq, Eq)]
pub struct Redirects(Vec<Redirect>);

/// A redirection as a value.
pub enum SpecRedirect {
    File(Option<u32>, Kind, SpecDestination),
    OutAndErr(SpecWord, bool),
}

/// A redirection's destination as a value.
pub enum SpecDestination {
    Filename(SpecWord),
    Fd(u32),
}

/// A list of redirections as a value.
#[verifier::ext_equal]
pub struct SpecRedirects(pub Seq<SpecRedirect>);

impl DeepView for Destination {
    type V = SpecDestination;

    open spec fn deep_view(&self) -> SpecDestination {
        match self {
            Destination::Filename(w) => SpecDestination::Filename(w.model()),
            Destination::Fd(fd) => SpecDestination::Fd(*fd),
        }
    }
}

impl DeepView for Redirect {
    type V = SpecRedirect;

    open spec fn deep_view(&self) -> SpecRedirect {
        match self {
            Redirect::File(fd, kind, dest) => SpecRedirect::File(*fd, *kind, dest.deep_view()),
            Redirect::OutAndErr(w, append) => SpecRedirect::OutAndErr(w.model(), *append),
        }
    }
}

impl Redirects {
    pub closed spec fn model(&self) -> SpecRedirects {
        SpecRedirects(self.0.deep_view())
    }

    pub fn from_vec(value: Vec<Redirect>) -> (r: Self)
        ensures
            r.model() == SpecRedirects(value.deep_view()),
    {
        Self(value)
    }

    /// The redirections in order.
    pub fn items(&self) -> (r: &Vec<Redirect>)
        ensures
            r.deep_view() == self.model().0,
    {
        &self.0
    }
}

impl DeepView for Redirects {
    type V = SpecRedirects;

    open spec fn deep_view(&self) -> SpecRedirects {
        self.model()
    }
}

/// The redirection kind that a symbol denotes, if any.
pub open spec fn symbol_kind(s: Symbol) -> Option<Kind> {
    match s {
        Symbol::Lt => Some(Kind::Read),
        Symbol::LtAnd => Some(Kind::DuplicateIn),
        Symbol::Gt => Some(Kind::Write),
        Symbol::GtAnd => Some(Kind::DuplicateOut),
        Symbol::DoubleGt => Some(Kind::Append),
        Symbol::LtGt => Some(Kind::ReadAndWrite),
        Symbol::Clobber => Some(Kind::Clobber),
        _ => None,
    }
}

/// The text of a redirection kind.
pub open spec fn kind_text(k: Kind) -> Seq<char> {
    match k {
        Kind::Read => seq!['<'],
        Kind::Write => seq!['>'],
        Kind::Append => seq!['>', '>'],
        Kind::ReadAndWrite => seq!['<', '>'],
        Kind::Clobber => seq!['>', '|'],
        Kind::DuplicateIn => seq!['<', '&'],
        Kind::DuplicateOut => seq!['>', '&'],
    }
}

impl Kind {
    pub fn try_from_symbol(value: Symbol) -> (r: Result<Kind, ()>)
        ensures
            match r {
                Ok(k) => symbol_kind(value) == Some(k),
                Err(_) => symbol_kind(value) is None,
            },
    {
        match value {
            Symbol::Lt => Ok(Kind::Read),
            Symbol::LtAnd => Ok(Kind::DuplicateIn),
            Symbol::Gt => Ok(Kind::Write),
            Symbol::GtAnd => Ok(Kind::DuplicateOut),
            Symbol::DoubleGt => Ok(Kind::Append),
            Symbol::LtGt => Ok(Kind::ReadAndWrite),
            Symbol::Clobber => Ok(Kind::Clobber),
            _ => Err(()),
        }
    }

    pub fn display(&self) -> (r: String)
        ensures
            r@ == kind_text(*self),
    {
        let s = match self {
            Kind::Read => "<",
            Kind::Write => ">",
            Kind::Append => ">>",
            Kind::ReadAndWrite => "<>",
            Kind::Clobber => ">|",
            Kind::DuplicateIn => "<&",
            Kind::DuplicateOut => ">&",
        };
        proof {
            reveal_strlit("<");
            reveal_strlit(">");
            reveal_strlit(">>");
            reveal_strlit("<>");
            reveal_strlit(">|");
            reveal_strlit("<&");
            reveal_strlit(">&");
        }
        let r = owned(s);
        assert(r@ =~= kind_text(*self));
        r
    }
}

/// The text of a destination: the file name, or the descriptor's number.
pub open spec fn destination_text(d: SpecDestination) -> Seq<char> {
    match d {
        SpecDestination::Filename(w) => word_text(w),
        SpecDestination::Fd(fd) => decimal(fd as nat),
    }
}

/// The text of a redirection.
pub open spec fn redirect_text(r: SpecRedirect) -> Seq<char> {
    match r {
        SpecRedirect::File(fd, kind, dest) => (match fd {
            Some(n) => decimal(n as nat),
            None => Seq::empty(),
        }) + kind_text(kind) + seq![' '] + destination_text(dest),
        SpecRedirect::OutAndErr(target, append) => (if append {
            seq!['&', '>', '>']
        } else {
            seq!['&', '>']
        }) + seq![' '] + word_text(target),
    }
}

/// The text of a list of redirections: each followed by a space.
pub open spec fn redirects_text(rs: Seq<SpecRedirect>) -> Seq<char>
    decreases rs.len(),
{
    if rs.len() == 0 {
        Seq::empty()
    } else {
        redirects_text(rs.drop_last()) + redirect_text(rs.last()) + seq![' ']
    }
}

impl Destination {
    pub fn display(&self) -> (r: String)
        ensures
            r@ == destination_text(self.deep_view()),
    {
        match self {
            Destination::Filename(word) => word.display(),
            Destination::Fd(fd) => u32_text(*fd),
        }
    }
}

impl Redirect {
    pub fn display(&self) -> (r: String)
        ensures
            r@ == redirect_text(self.deep_view()),
    {
        proof {
            reveal_strlit(" ");
            reveal_strlit("&>>");
            reveal_strlit("&>");
        }
        match self {
            Redirect::File(fd, kind, dest) => {
                let mut s = String::new();
                if let Some(fd) = fd {
                    let n = u32_text(*fd);
                    push_str(&mut s, n.as_str());
                }
                let k = kind.display();
                push_str(&mut s, k.as_str());
                push_str(&mut s, " ");
                let d = dest.display();
                push_str(&mut s, d.as_str());
                assert(s@ =~= redirect_text(self.deep_view()));
                s
            },
            Redirect::OutAndErr(target, append) => {
                let sym = if *append {
                    "&>>"
                } else {
                    "&>"
                };
                let mut s = owned(sym);
                push_str(&mut s, " ");
                let w = target.display();
                push_str(&mut s, w.as_str());
                assert(s@ =~= redirect_text(self.deep_view()));
                s
            },
        }
    }
}

impl Redirects {
    pub fn display(&self) -> (r: String)
        ensures
            r@ == redirects_text(self.model().0),
    {
        let mut s = String::new();
        let mut i: usize = 0;
        proof {
            reveal_strlit(" ");
            assert(" "@ =~= seq![' ']);
        }
        while i < self.0.len()
            invariant
                i <= self.0@.len(),
                s@ == redirects_text(self.model().0.take(i as int)),
                self.model().0 == self.0.deep_view(),
            decreases self.0.len() - i,
        {
            let r = self.0[i].display();
            push_str(&mut s, r.as_str());
            push_str(&mut s, " ");
            proof {
                assert(self.model().0.take(i + 1).drop_last() =~= self.model().0.take(i as int));
                assert(self.model().0.take(i + 1).last() == self.0@[i as int].deep_view());
                reveal_strlit(" ");
                assert(" "@ =~= seq![' ']);
            }
            i = i + 1;
        }
        assert(self.model().0.take(i as int) =~= self.model().0);
        s
    }
}

/// The kinds of redirection whose destination must be a file name.
pub open spec fn needs_filename(k: Kind) -> bool {
    match k {
        Kind::Read | Kind::Write | Kind::Append | Kind::ReadAndWrite | Kind::Clobber => true,
        _ => false,
    }
}

/// Whether a destination suits a kind of redirection: the duplicating kinds
/// take a file name or a descriptor, the others a file name.
pub open spec fn destination_fits(k: Kind, d: SpecDestination) -> bool {
    if needs_filename(k) {
        d is Filename
    } else {
        true
    }
}

/// A symbol token that denotes a redirection kind.
pub open spec fn kind_fn() -> spec_fn(SpecToken) -> Option<Kind> {
    |tok: SpecToken|
        match token_symbol(tok) {
            Some(sym) => symbol_kind(sym),
            None => None,
        }
}

#[verifier::opaque]
pub open spec fn spec_redirect_kind(t: Seq<SpecToken>, s: PState) -> Step<Kind> {
    commit(s, spec_choice(t, enter(t, s), kind_fn()))
}

/// The symbols that end a file name. A file name holds no space, `:`, `\`,
/// `*`, `?`, `"`, `>`, `<` or `|`; it may hold `/`, so that it can name a file
/// in another directory.
pub open spec fn ends_filename(s: Symbol) -> bool {
    match s {
        Symbol::Backslash | Symbol::Colon | Symbol::Star | Symbol::Question | Symbol::Gt
        | Symbol::Lt | Symbol::Pipe => true,
        _ => false,
    }
}

/// One token of a file name, by its text: anything but whitespace, a double
/// quote and the symbols that end a file name.
pub open spec fn filename_piece_fn(t: Seq<SpecToken>) -> spec_fn(PState) -> Step<Seq<char>> {
    |s: PState|
        spec_choice(
            t,
            s,
            |tok: SpecToken|
                match tok {
                    SpecToken::Whitespace(_) => None,
                    SpecToken::Quote(Quote::Double) => None,
                    SpecToken::Symbol(sym) => if ends_filename(sym) {
                        None
                    } else {
                        Some(token_text(tok))
                    },
                    _ => Some(token_text(tok)),
                },
        )
}

/// A file name: the texts of the tokens up to whitespace, a double quote or
/// a symbol that ends it, joined; it must not be empty.
#[verifier::opaque]
pub open spec fn spec_filename(t: Seq<SpecToken>, s: PState) -> Step<SpecWord> {
    let s1 = enter(t, s);
    let body = rep(filename_piece_fn(t), t, s1);
    let buff = concat_all(body.0);
    commit(
        s,
        if buff.len() == 0 {
            (None, body.1)
        } else {
            (Some(SpecWord { raw: buff, quoted: None }), body.1)
        },
    )
}

/// A file descriptor, or else a file name.
#[verifier::opaque]
pub open spec fn spec_redirect_dest(t: Seq<SpecToken>, s: PState) -> Step<SpecDestination> {
    let s1 = enter(t, s);
    let r1 = spec_fd(t, s1);
    commit(
        s,
        match r1.0 {
            Some(n) => (Some(SpecDestination::Fd(n)), r1.1),
            None => {
                let r2 = spec_filename(t, restore(s1, r1.1));
                match r2.0 {
                    Some(w) => (Some(SpecDestination::Filename(w)), r2.1),
                    None => (None, r2.1),
                }
            },
        },
    )
}

/// An optional descriptor number, a redirection symbol and a destination
/// that suits it.
#[verifier::opaque]
pub open spec fn spec_redirect(t: Seq<SpecToken>, s: PState) -> Step<SpecRedirect> {
    let s1 = enter(t, s);
    let r1 = spec_io_number(t, s1);
    let r2 = spec_redirect_kind(t, r1.1);
    commit(
        s,
        match r2.0 {
            None => (None, r2.1),
            Some(kind) => {
                let r3 = spec_redirect_dest(t, r2.1);
                match r3.0 {
                    None => (None, r3.1),
                    Some(dest) => if destination_fits(kind, dest) {
                        (Some(SpecRedirect::File(r1.0, kind, dest)), r3.1)
                    } else {
                        (None, r3.1)
                    },
                }
            },
        },
    )
}

pub open spec fn redirect_fn(t: Seq<SpecToken>) -> spec_fn(PState) -> Step<SpecRedirect> {
    |s: PState| spec_redirect(t, s)
}

/// One or more redirections.
#[verifier::opaque]
pub open spec fn spec_redirects(t: Seq<SpecToken>, s: PState) -> Step<SpecRedirects> {
    let s1 = enter(t, s);
    let body = rep(redirect_fn(t), t, s1);
    commit(
        s,
        if body.0.len() > 0 {
            (Some(SpecRedirects(body.0)), body.1)
        } else {
            (None, body.1)
        },
    )
}

impl<'p> Parser<'p> {
    pub fn redirect(&mut self) -> (r: Option<Redirect>)
        ensures
            parsed(
                *old(self),
                *final(self),
                r.deep_view(),
                spec_redirect(old(self).toks(), old(self).st()),
            ),
            moved(*old(self), *final(self), r),
    {
        proof {
            reveal(spec_redirect);
        }
        let ghost t = self.toks();
        let ghost s0 = self.st();
        proof {
            lemma_enter(t, s0);
        }
        let snap = self.begin();
        let fd = self.io_number();
        let kind = match self.redirect_kind() {
            Some(k) => k,
            None => {
                self.abort(snap);
                return None;
            },
        };
        let dest = match self.redirect_dest() {
            Some(d) => d,
            None => {
                self.abort(snap);
                return None;
            },
        };
        let fits = match (kind, &dest) {
            (
                Kind::Read | Kind::Write | Kind::Append | Kind::ReadAndWrite | Kind::Clobber,
                Destination::Filename(_),
            ) => true,
            (Kind::DuplicateIn | Kind::DuplicateOut, _) => true,
            _ => false,
        };
        if fits {
            Some(Redirect::File(fd, kind, dest))
        } else {
            self.abort(snap);
            None
        }
    }

    pub fn redirects(&mut self) -> (r: Option<Redirects>)
        ensures
            parsed(
                *old(self),
                *final(self),
                r.deep_view(),
                spec_redirects(old(self).toks(), old(self).st()),
            ),
            moved(*old(self), *final(self), r),
    {
        proof {
            reveal(spec_redirects);
        }
        let ghost t = self.toks();
        let ghost s0 = self.st();
        proof {
            lemma_enter(t, s0);
        }
        let snap = self.begin();
        let ghost s1 = self.st();
        let ghost f = redirect_fn(t);
        let mut acc: Vec<Redirect> = Vec::new();
        loop
            invariant_except_break
                self.toks() == t,
                f == redirect_fn(t),
                rep(f, t, s1).0 == acc.deep_view() + rep(f, t, self.st()).0,
                rep(f, t, s1).1 == rep(f, t, self.st()).1,
                acc.len() > 0 ==> adv(t, s0, self.st()),
                acc.len() == 0 ==> self.st().pos == s1.pos,
                0 <= s0.pos <= s1.pos,
            ensures
                self.toks() == t,
                rep(f, t, s1).0 == acc.deep_view(),
                rep(f, t, s1).1 == self.st(),
                acc.len() > 0 ==> adv(t, s0, self.st()),
            decreases self.rem(),
        {
            let ghost before = self.st();
            match self.redirect() {
                Some(x) => {
                    proof {
                        lemma_rep_unfold(f, t, before);
                    }
                    let ghost prev = acc.deep_view();
                    acc.push(x);
                    assert(acc.deep_view() =~= prev.push(x.deep_view()));
                    proof {
                        lemma_push_concat(prev, x.deep_view(), rep(f, t, self.st()).0);
                    }
                },
                None => {
                    proof {
                        lemma_push_concat(acc.deep_view(), arbitrary(), Seq::empty());
                    }
                    break;
                },
            }
        }
        if acc.len() > 0 {
            Some(Redirects::from_vec(acc))
        } else {
            self.abort(snap);
            None
        }
    }

    fn redirect_kind(&mut self) -> (r: Option<Kind>)
        ensures
            parsed(*old(self), *final(self), r, spec_redirect_kind(old(self).toks(), old(self).st())),
            moved(*old(self), *final(self), r),
    {
        proof {
            reveal(spec_redirect_kind);
        }
        let ghost t = self.toks();
        let ghost s0 = self.st();
        proof {
            lemma_enter(t, s0);
            self.lemma_st_bounds();
        }
        let snap = self.begin();
        match self.peek() {
            Some(tok) => match tok.is_symbol() {
                Some(sym) => match Kind::try_from_symbol(sym) {
                    Ok(k) => {
                        self.advance();
                        Some(k)
                    },
                    Err(_) => {
                        self.abort(snap);
                        None
                    },
                },
                None => {
                    self.abort(snap);
                    None
                },
            },
            None => {
                self.abort(snap);
                None
            },
        }
    }

    fn redirect_dest(&mut self) -> (r: Option<Destination>)
        ensures
            parsed(
                *old(self),
                *final(self),
                r.deep_view(),
                spec_redirect_dest(old(self).toks(), old(self).st()),
            ),
            moved(*old(self), *final(self), r),
    {
        proof {
            reveal(spec_redirect_dest);
        }
        let ghost t = self.toks();
        let ghost s0 = self.st();
        proof {
            lemma_enter(t, s0);
        }
        let snap = self.begin();
        let p = self.pos();
        let res = match self.fd() {
            Some(n) => Some(Destination::Fd(n)),
            None => {
                self.reset_pos(p);
                match self.filename() {
                    Some(w) => Some(Destination::Filename(w)),
                    None => None,
                }
            },
        };
        if res.is_none() {
            self.abort(snap);
        }
        res
    }

    /// One token of a file name, by its text.
    fn filename_piece(&mut self) -> (r: Option<&'p str>)
        ensures
            parsed(
                *old(self),
                *final(self),
                match r {
                    Some(x) => Some(x@),
                    None => None,
                },
                filename_piece_fn(old(self).toks())(old(self).st()),
            ),
            moved(*old(self), *final(self), r),
    {
        let ghost t = self.toks();
        let ghost s0 = self.st();
        proof {
            lemma_enter(t, s0);
            self.lemma_st_bounds();
        }
        let snap = self.begin();
        match self.peek() {
            Some(tok) => {
                let stop = match tok {
                    Token::Whitespace(_) => true,
                    Token::Quote(Quote::Double) => true,
                    Token::Symbol(s) => match s {
                        Symbol::Backslash | Symbol::Colon | Symbol::Star | Symbol::Question
                        | Symbol::Gt | Symbol::Lt | Symbol::Pipe => true,
                        _ => false,
                    },
                    _ => false,
                };
                if stop {
                    self.abort(snap);
                    None
                } else {
                    self.advance();
                    Some(tok.as_str())
                }
            },
            None => {
                self.abort(snap);
                None
            },
        }
    }

    fn filename(&mut self) -> (r: Option<Word>)
        ensures
            parsed(
                *old(self),
                *final(self),
                r.deep_view(),
                spec_filename(old(self).toks(), old(self).st()),
            ),
            moved(*old(self), *final(self), r),
    {
        proof {
            reveal(spec_filename);
        }
        let ghost t = self.toks();
        let ghost s0 = self.st();
        proof {
            lemma_enter(t, s0);
        }
        let snap = self.begin();
        let ghost s1 = self.st();
        let ghost pf = filename_piece_fn(t);
        let mut buff = String::new();
        let ghost mut pieces: Seq<Seq<char>> = Seq::empty();
        loop
            invariant_except_break
                self.toks() == t,
                pf == filename_piece_fn(t),
                rep(pf, t, s1).0 == pieces + rep(pf, t, self.st()).0,
                rep(pf, t, s1).1 == rep(pf, t, self.st()).1,
                buff@ == concat_all(pieces),
                pieces.len() > 0 ==> adv(t, s0, self.st()),
                pieces.len() == 0 ==> self.st().pos == s1.pos,
                0 <= s0.pos <= s1.pos,
            ensures
                self.toks() == t,
                rep(pf, t, s1).0 == pieces,
                rep(pf, t, s1).1 == self.st(),
                buff@ == concat_all(pieces),
                pieces.len() > 0 ==> adv(t, s0, self.st()),
                pieces.len() == 0 ==> self.st().pos == s1.pos,
            decreases self.rem(),
        {
            let ghost before = self.st();
            match self.filename_piece() {
                Some(text) => {
                    proof {
                        lemma_rep_unfold(pf, t, before);
                        assert(pieces.push(text@).drop_last() =~= pieces);
                        assert(pieces.push(text@) + rep(pf, t, self.st()).0 =~= pieces + (seq![
                            text@,
                        ] + rep(pf, t, self.st()).0));
                        pieces = pieces.push(text@);
                    }
                    push_str(&mut buff, text);
                },
                None => {
                    assert(pieces + Seq::<Seq<char>>::empty() =~= pieces);
                    break;
                },
            }
        }
        if buff.as_str().is_empty() {
            self.abort(snap);
            None
        } else {
            Some(Word::from_string(buff))
        }
    }
}


/// A redirection kind is written with the text of the symbol it was read
/// from.
pub proof fn lemma_kind_text_is_symbol_text(s: Symbol)
    requires
        symbol_kind(s) is Some,
    ensures
        kind_text(symbol_kind(s)->0) == symbol_text(s),
{
    assert(kind_text(symbol_kind(s)->0) =~= symbol_text(s));
}


/// The texts of the redirection symbols of the shell: `<`, `<&`, `>`, `>&`,
/// `>>`, `<>` and `>|`.
pub open spec fn is_redirection_text(x: Seq<char>) -> bool {
    ||| x.len() == 1 && (x[0] == '<' || x[0] == '>')
    ||| x.len() == 2 && x[0] == '<' && (x[1] == '&' || x[1] == '>')
    ||| x.len() == 2 && x[0] == '>' && (x[1] == '&' || x[1] == '>' || x[1] == '|')
}

/// Exactly the redirection symbols denote a redirection kind, and the kind is
/// written as the symbol: a symbol whose text is `<`, `<&`, `>`, `>&`, `>>`,
/// `<>` or `>|` denotes a kind whose text is that text, and no other symbol
/// denotes one.
pub proof fn lemma_redirection_symbols_denote_kinds(sym: Symbol)
    ensures
        is_redirection_text(symbol_text(sym)) ==> (symbol_kind(sym) matches Some(k) && kind_text(k)
            == symbol_text(sym)),
        symbol_kind(sym) is Some ==> is_redirection_text(symbol_text(sym)),
{
    if symbol_kind(sym) is Some {
        lemma_kind_text_is_symbol_text(sym);
    }
}

/// The decimal text of a number is made of digits and reads back as the
/// number.
pub proof fn lemma_decimal_reads_back(n: nat)
    ensures
        decimal(n).len() > 0,
        all_digits(decimal(n)),
        digits_value(decimal(n)) == n,
    decreases n,
{
    if n < 10 {
        assert(digit_char(n) as int == n + 48);
        assert(decimal(n).drop_last() =~= Seq::<char>::empty());
        assert(digits_value(decimal(n)) == n) by {
            reveal_with_fuel(digits_value, 2);
        }
    } else {
        lemma_decimal_reads_back(n / 10);
        let d = decimal(n / 10);
        assert(decimal(n) == d + seq![digit_char(n % 10)]);
        assert(digit_char(n % 10) as int == n % 10 + 48);
        assert((decimal(n)).drop_last() =~= d);
        assert(n == (n / 10) * 10 + n % 10);
    }
}

/// A redirection is written with its descriptor number first, when it has
/// one, in decimal digits that read back as the number, directly followed by
/// the text of its kind, then a space and its destination.
pub proof fn lemma_redirect_text_begins_with_descriptor(
    fd: Option<u32>,
    kind: Kind,
    dest: SpecDestination,
)
    ensures
        ({
            let text = redirect_text(SpecRedirect::File(fd, kind, dest));
            let j = match fd {
                Some(n) => decimal(n as nat).len() as int,
                None => 0,
            };
            let k = kind_text(kind).len() as int;
            &&& fd is None ==> j == 0
            &&& fd matches Some(n) ==> 0 < j && all_digits(text.take(j)) && digits_value(text.take(j))
                == n
            &&& j + k < text.len()
            &&& text.subrange(j, j + k) == kind_text(kind)
            &&& text[j + k] == ' '
            &&& text.skip(j + k + 1) == destination_text(dest)
        }),
{
    let text = redirect_text(SpecRedirect::File(fd, kind, dest));
    let pre = match fd {
        Some(n) => decimal(n as nat),
        None => Seq::<char>::empty(),
    };
    if let Some(n) = fd {
        lemma_decimal_reads_back(n as nat);
    }
    let j = pre.len() as int;
    let k = kind_text(kind).len() as int;
    assert(text == pre + kind_text(kind) + seq![' '] + destination_text(dest));
    assert(text.take(j) =~= pre);
    assert(text.subrange(j, j + k) =~= kind_text(kind));
    assert(text.skip(j + k + 1) =~= destination_text(dest));
}


impl From<Vec<Redirect>> for Redirects {
    fn from(value: Vec<Redirect>) -> (r: Self) {
        Redirects(value)
    }
}

impl vstd::std_specs::convert::FromSpecImpl<Vec<Redirect>> for Redirects {
    open spec fn obeys_from_spec() -> bool {
        true
    }

    closed spec fn from_spec(v: Vec<Redirect>) -> Redirects {
        Redirects(v)
    }
}

} // verus!
