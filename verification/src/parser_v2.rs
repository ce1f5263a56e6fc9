//! A backtracking parser over a slice of tokens, and the combinators that the
//! grammar is written with.
//!
//! Every parsing step runs as a *transaction*: unless the parser is inside a
//! quote it first skips whitespace tokens, then runs; when the step fails, the
//! position goes back to where the step began. The quote that the parser is
//! inside is *not* restored on failure.

use vstd::prelude::*;

use crate::tokens::{Quote, SpecToken, Token};

verus! {

/// Something that can parse a value of type `T`.
pub trait Parse<T> {
    fn parse(&mut self) -> Option<T>;
}

/// Where a parser stands: the index of the next token, and the quote that it
/// is inside, if any.
pub struct PState {
    pub pos: int,
    pub quoting: Option<Quote>,
}

/// The outcome of a parsing step: its result, if it succeeded, and the state
/// that it left.
pub type Step<A> = (Option<A>, PState);

/// The tokens of a token slice, by value.
pub open spec fn view_tokens(s: Seq<Token>) -> Seq<SpecToken> {
    s.map_values(|t: Token| t@)
}

/// The token at an index, if there is one.
pub open spec fn at(t: Seq<SpecToken>, pos: int) -> Option<SpecToken> {
    if 0 <= pos < t.len() {
        Some(t[pos])
    } else {
        None
    }
}

/// The first index at or after `pos` that does not hold a whitespace token.
pub open spec fn skip_ws(t: Seq<SpecToken>, pos: int) -> int
    decreases t.len() - pos,
{
    if 0 <= pos < t.len() && t[pos] is Whitespace {
        skip_ws(t, pos + 1)
    } else {
        pos
    }
}

/// The state in which a transaction's body starts: outside quotes, leading
/// whitespace tokens are skipped.
pub open spec fn enter(t: Seq<SpecToken>, s: PState) -> PState {
    if s.quoting is None {
        PState { pos: skip_ws(t, s.pos), quoting: None }
    } else {
        s
    }
}

/// The state one token further on.
pub open spec fn step(s: PState) -> PState {
    PState { pos: s.pos + 1, quoting: s.quoting }
}

/// The outcome of a transaction that began in `s` and whose body ended with
/// `r`: a failure goes back to the position of `s`, keeping the quote.
pub open spec fn commit<A>(s: PState, r: Step<A>) -> Step<A> {
    if r.0 is Some {
        r
    } else {
        (None, PState { pos: s.pos, quoting: r.1.quoting })
    }
}

/// The number of tokens left to read.
pub open spec fn rem_of(t: Seq<SpecToken>, s: PState) -> nat {
    if 0 <= s.pos <= t.len() {
        (t.len() - s.pos) as nat
    } else {
        0
    }
}

/// `b` stands strictly further on than `a`, within the tokens.
pub open spec fn adv(t: Seq<SpecToken>, a: PState, b: PState) -> bool {
    0 <= a.pos < b.pos <= t.len()
}

/// `b` stands where `a` stands, or further on within the tokens.
pub open spec fn mono(t: Seq<SpecToken>, a: PState, b: PState) -> bool {
    a.pos == b.pos || adv(t, a, b)
}

/// Runs `f` again and again while it succeeds and moves on, collecting its
/// results; ends in the state that the first failure left.
pub open spec fn rep<A>(f: spec_fn(PState) -> Step<A>, t: Seq<SpecToken>, s: PState) -> (
    Seq<A>,
    PState,
)
    decreases rem_of(t, s),
{
    let r = f(s);
    match r.0 {
        Some(x) => if adv(t, s, r.1) {
            let rest = rep(f, t, r.1);
            (seq![x] + rest.0, rest.1)
        } else {
            (seq![x], r.1)
        },
        None => (Seq::empty(), r.1),
    }
}

/// One step of `rep`.
pub proof fn lemma_rep_unfold<A>(f: spec_fn(PState) -> Step<A>, t: Seq<SpecToken>, s: PState)
    requires
        f(s).0 is Some,
        adv(t, s, f(s).1),
    ensures
        rep(f, t, s).0 == seq![f(s).0.unwrap()] + rep(f, t, f(s).1).0,
        rep(f, t, s).1 == rep(f, t, f(s).1).1,
{
}

/// Moving one element from the front of the rest to the end of the prefix
/// keeps the whole.
pub proof fn lemma_push_concat<A>(prev: Seq<A>, x: A, rest: Seq<A>)
    ensures
        prev.push(x) + rest == prev + (seq![x] + rest),
        prev + Seq::<A>::empty() == prev,
{
    assert(prev.push(x) + rest =~= prev + (seq![x] + rest));
    assert(prev + Seq::<A>::empty() =~= prev);
}

/// Reads the next token.
pub open spec fn spec_consume_any(t: Seq<SpecToken>, s: PState) -> Step<SpecToken> {
    let s1 = enter(t, s);
    match at(t, s1.pos) {
        Some(tok) => (Some(tok), step(s1)),
        None => (None, s),
    }
}

/// Reads the next token if it is `e`.
pub open spec fn spec_consume(t: Seq<SpecToken>, s: PState, e: SpecToken) -> Step<()> {
    let s1 = enter(t, s);
    if at(t, s1.pos) == Some(e) {
        (Some(()), step(s1))
    } else {
        (None, s)
    }
}

/// Reads the next token if `m` accepts it, with what `m` made of it.
pub open spec fn spec_choice<A>(
    t: Seq<SpecToken>,
    s: PState,
    m: spec_fn(SpecToken) -> Option<A>,
) -> Step<A> {
    let s1 = enter(t, s);
    match at(t, s1.pos) {
        Some(tok) => match m(tok) {
            Some(x) => (Some(x), step(s1)),
            None => (None, s),
        },
        None => (None, s),
    }
}

/// Skipping whitespace moves forward, within the tokens unless there was
/// nothing to skip, and keeps the quote.
pub proof fn lemma_skip_ws(t: Seq<SpecToken>, pos: int)
    ensures
        skip_ws(t, pos) == pos || (pos < skip_ws(t, pos) <= t.len()),
        pos <= skip_ws(t, pos),
        0 <= skip_ws(t, pos) < t.len() ==> !(t[skip_ws(t, pos)] is Whitespace),
    decreases t.len() - pos,
{
    if 0 <= pos < t.len() && t[pos] is Whitespace {
        lemma_skip_ws(t, pos + 1);
    }
}

pub proof fn lemma_enter(t: Seq<SpecToken>, s: PState)
    ensures
        enter(t, s).quoting == s.quoting,
        enter(t, s).pos == s.pos || (s.pos < enter(t, s).pos <= t.len()),
        0 <= s.pos ==> mono(t, s, enter(t, s)),
        enter(t, enter(t, s)) == enter(t, s),
{
    lemma_skip_ws(t, s.pos);
    lemma_skip_ws(t, skip_ws(t, s.pos));
}

/// The state `a`'s position with `b`'s quote: where a failed alternative
/// leaves the parser before the next one is tried.
pub open spec fn restore(a: PState, b: PState) -> PState {
    PState { pos: a.pos, quoting: b.quoting }
}

/// After a parsing step that began in `p0` and left `p1` with the result `r`:
/// the tokens are the same, and the result and the state are those that the
/// specification `spec` gives.
pub open spec fn parsed<'a, A>(p0: Parser<'a>, p1: Parser<'a>, r: Option<A>, spec: Step<A>) -> bool {
    p1.toks() == p0.toks() && (r, p1.st()) == spec
}

/// A step that succeeded moved on within the tokens; one that failed went
/// back to the position where it began.
pub open spec fn moved<'a, A>(p0: Parser<'a>, p1: Parser<'a>, r: Option<A>) -> bool {
    &&& r is Some ==> adv(p0.toks(), p0.st(), p1.st())
    &&& r is None ==> p1.st().pos == p0.st().pos
}

pub struct Parser<'a> {
    pos: usize,
    src: &'a [Token],
    quoting: Option<Quote>,
}

impl<'p> Parser<'p> {
    /// The parser's state.
    pub closed spec fn st(&self) -> PState {
        PState { pos: self.pos as int, quoting: self.quoting }
    }

    /// The token slice that the parser reads.
    pub closed spec fn src_seq(&self) -> Seq<Token> {
        self.src@
    }

    /// The tokens that the parser reads.
    pub open spec fn toks(&self) -> Seq<SpecToken> {
        view_tokens(self.src_seq())
    }

    /// The number of tokens left to read.
    pub open spec fn rem(&self) -> nat {
        rem_of(self.toks(), self.st())
    }

    /// A state is never before the start, nor past the largest index.
    pub proof fn lemma_st_bounds(&self)
        ensures
            0 <= self.st().pos <= usize::MAX,
            self.toks().len() == self.src_seq().len(),
            self.toks().len() <= usize::MAX,
    {
        assert(self.src.len() == self.src@.len());
    }

    pub fn new(src: &'p [Token]) -> (r: Self)
        ensures
            r.toks() == view_tokens(src@),
            r.st() == (PState { pos: 0, quoting: None }),
    {
        Self { src, pos: 0, quoting: None }
    }

    pub fn peek(&self) -> (r: Option<&'p Token>)
        ensures
            match r {
                Some(tok) => at(self.toks(), self.st().pos) == Some(tok@),
                None => at(self.toks(), self.st().pos) is None,
            },
    {
        if self.pos < self.src.len() {
            Some(&self.src[self.pos])
        } else {
            None
        }
    }

    pub fn pos(&self) -> (r: usize)
        ensures
            r == self.st().pos,
    {
        self.pos
    }

    pub fn reset_pos(&mut self, pos: usize)
        ensures
            final(self).toks() == old(self).toks(),
            final(self).st() == (PState { pos: pos as int, quoting: old(self).st().quoting }),
    {
        self.pos = pos;
    }

    pub fn set_quoting(&mut self, quote: Option<Quote>)
        ensures
            final(self).toks() == old(self).toks(),
            final(self).st() == (PState { pos: old(self).st().pos, quoting: quote }),
    {
        self.quoting = quote;
    }

    pub fn advance(&mut self)
        requires
            old(self).st().pos < usize::MAX,
        ensures
            final(self).toks() == old(self).toks(),
            final(self).st() == step(old(self).st()),
    {
        self.pos += 1;
    }

    /// Skips whitespace tokens when outside quotes; returns the position
    /// before skipping.
    pub(crate) fn begin(&mut self) -> (snap: usize)
        ensures
            final(self).src_seq() == old(self).src_seq(),
            final(self).st() == enter(old(self).toks(), old(self).st()),
            snap as int == old(self).st().pos,
    {
        let snap = self.pos;
        let ghost t = self.toks();
        proof {
            lemma_skip_ws(t, self.pos as int);
        }
        if self.quoting.is_none() {
            while self.pos < self.src.len() && matches!(self.src[self.pos], Token::Whitespace(_))
                invariant
                    self.quoting is None,
                    self.src_seq() == old(self).src_seq(),
                    t == self.toks(),
                    t.len() == self.src@.len(),
                    snap <= self.pos,
                    skip_ws(t, snap as int) == skip_ws(t, self.pos as int),
                    self.pos <= skip_ws(t, snap as int),
                decreases self.src.len() - self.pos,
            {
                assert(t[self.pos as int] == self.src@[self.pos as int]@);
                proof {
                    lemma_skip_ws(t, self.pos + 1);
                }
                self.pos = self.pos + 1;
            }
        }
        snap
    }

    /// Goes back to the position `snap`, keeping the quote.
    pub(crate) fn abort(&mut self, snap: usize)
        ensures
            final(self).src_seq() == old(self).src_seq(),
            final(self).st() == (PState { pos: snap as int, quoting: old(self).st().quoting }),
    {
        self.pos = snap;
    }

    pub fn consume_any(&mut self) -> (r: Option<&'p Token>)
        ensures
            final(self).toks() == old(self).toks(),
            (match r {
                Some(tok) => Some(tok@),
                None => None,
            }, final(self).st()) == spec_consume_any(old(self).toks(), old(self).st()),
            r is Some ==> adv(old(self).toks(), old(self).st(), final(self).st()),
            r is None ==> final(self).st() == old(self).st(),
    {
        let ghost s0 = self.st();
        proof {
            lemma_enter(self.toks(), s0);
        }
        let snap = self.begin();
        if self.pos < self.src.len() {
            let tok = &self.src[self.pos];
            self.pos = self.pos + 1;
            Some(tok)
        } else {
            self.abort(snap);
            None
        }
    }

    pub fn consume(&mut self, expected: Token) -> (r: Option<()>)
        ensures
            final(self).toks() == old(self).toks(),
            (r, final(self).st()) == spec_consume(old(self).toks(), old(self).st(), expected@),
            r is Some ==> adv(old(self).toks(), old(self).st(), final(self).st()),
            r is None ==> final(self).st() == old(self).st(),
    {
        let ghost s0 = self.st();
        proof {
            lemma_enter(self.toks(), s0);
        }
        let snap = self.begin();
        if self.pos < self.src.len() {
            let tok = &self.src[self.pos];
            if tok.same_as(&expected) {
                self.pos = self.pos + 1;
                Some(())
            } else {
                self.abort(snap);
                None
            }
        } else {
            self.abort(snap);
            None
        }
    }

    pub fn remaining(&self) -> (r: &'p [Token])
        requires
            self.st().pos <= self.toks().len(),
        ensures
            view_tokens(r@) == self.toks().subrange(self.st().pos, self.toks().len() as int),
    {
        let (_, rest) = self.src.split_at(self.pos);
        assert(view_tokens(rest@) =~= self.toks().subrange(
            self.st().pos,
            self.toks().len() as int,
        ));
        rest
    }

    /// Runs `cb` after the whitespace before it (outside quotes) is skipped;
    /// when `cb` fails, the position goes back to where it was, and when it
    /// succeeds, its result is returned and the parser stays as `cb` left it.
    pub fn transaction<T, F: FnOnce(&mut Parser<'p>) -> Option<T>>(&mut self, cb: F) -> (r: Option<
        T,
    >)
        requires
            forall|p: &mut Parser<'p>| #[trigger] cb.requires((p,)),
        ensures
            exists|p: &mut Parser<'p>|
                #![auto]
                {
                    &&& p.st() == enter(old(self).toks(), old(self).st())
                    &&& p.src_seq() == old(self).src_seq()
                    &&& cb.ensures((p,), r)
                    &&& r is Some ==> *final(self) == *final(p)
                    &&& r is None ==> final(self).src_seq() == final(p).src_seq()
                        && final(self).st() == (PState {
                        pos: old(self).st().pos,
                        quoting: final(p).st().quoting,
                    })
                },
    {
        let snap = self.begin();
        let res = cb(self);
        if res.is_none() {
            self.pos = snap;
        }
        res
    }

    /// Reads the next token if `matcher` makes something of it.
    pub fn choice<T, F: Fn(&'p Token) -> Option<T>>(&mut self, matcher: F) -> (r: Option<T>)
        requires
            forall|tok: &'p Token| #[trigger] matcher.requires((tok,)),
        ensures
            final(self).toks() == old(self).toks(),
            final(self).st().quoting == old(self).st().quoting,
            ({
                let s1 = enter(old(self).toks(), old(self).st());
                match r {
                    Some(_) => 0 <= s1.pos < old(self).toks().len() && matcher.ensures(
                        (&old(self).src_seq()[s1.pos],),
                        r,
                    ) && final(self).st() == step(s1),
                    None => final(self).st() == old(self).st() && (0 <= s1.pos
                        < old(self).toks().len() ==> matcher.ensures(
                        (&old(self).src_seq()[s1.pos],),
                        r,
                    )),
                }
            }),
    {
        let ghost s0 = self.st();
        proof {
            lemma_enter(self.toks(), s0);
        }
        let snap = self.begin();
        assert(self.toks().len() == self.src@.len());
        if self.pos < self.src.len() {
            let tok = &self.src[self.pos];
            assert(*tok == self.src_seq()[self.pos as int]);
            let res = matcher(tok);
            match res {
                Some(_) => {
                    self.pos = self.pos + 1;
                },
                None => {
                    self.abort(snap);
                },
            }
            res
        } else {
            self.abort(snap);
            None
        }
    }
}

} // verus!
