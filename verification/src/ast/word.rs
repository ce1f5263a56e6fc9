//! Words: plain word tokens, or text between a pair of quotes.

use vstd::prelude::*;

use crate::parser_v2::{
    adv, at, commit, enter, lemma_enter, lemma_rep_unfold, mono, moved, parsed, rep, restore,
    spec_choice, spec_consume, PState, Parser, Step,
};
use crate::text::{concat_all, owned, push_char, push_str, str_equal};
use crate::tokens::{quote_text, token_text, token_word, Quote, SpecToken, Token};
use crate::tokenizer_v2::{lemma_tokens_text_concat, tokens_text};

verus! {

#[derive(Debug, Clone, PartialEq, Eq)]
pub struct Word {
    raw: String,
    quoted: Option<Quote>,
}

/// A word as a value.
pub struct SpecWord {
    pub raw: Seq<char>,
    pub quoted: Option<Quote>,
}

impl Word {
    pub closed spec fn model(&self) -> SpecWord {
        SpecWord { raw: self.raw@, quoted: self.quoted }
    }

    pub fn new(raw: String, quoted: Option<Quote>) -> (r: Self)
        ensures
            r.model() == (SpecWord { raw: raw@, quoted }),
    {
        Self { raw, quoted }
    }

    /// A word that was not quoted.
    pub fn from_string(raw: String) -> (r: Self)
        ensures
            r.model() == (SpecWord { raw: raw@, quoted: None }),
    {
        Self { raw, quoted: None }
    }

    pub fn raw(&self) -> (r: &String)
        ensures
            r@ == self.model().raw,
    {
        &self.raw
    }

    /// The quote that the word was written between, if any.
    pub fn quoted(&self) -> (r: Option<Quote>)
        ensures
            r == self.model().quoted,
    {
        self.quoted
    }

    /// The word as the shell shows it: between its quotes, if it had any.
    pub fn display(&self) -> (r: String)
        ensures
            r@ == word_text(self.model()),
    {
        match self.quoted {
            Some(q) => {
                let mut s = owned(q.as_str());
                push_str(&mut s, self.raw.as_str());
                push_str(&mut s, q.as_str());
                s
            },
            None => self.raw.clone(),
        }
    }
}

impl DeepView for Word {
    type V = SpecWord;

    open spec fn deep_view(&self) -> SpecWord {
        self.model()
    }
}

/// The text of a word: its characters, between its quotes if it had any.
pub open spec fn word_text(w: SpecWord) -> Seq<char> {
    match w.quoted {
        Some(q) => quote_text(q) + w.raw + quote_text(q),
        None => w.raw,
    }
}

/// One token inside a quote: any token but the closing quote or a newline,
/// taken by its text.
pub open spec fn quoted_piece_fn(t: Seq<SpecToken>, quote: Quote) -> spec_fn(PState) -> Step<
    Seq<char>,
> {
    |s: PState|
        spec_choice(
            t,
            s,
            |tok: SpecToken|
                match tok {
                    SpecToken::Quote(q) => if q == quote {
                        None
                    } else {
                        Some(token_text(tok))
                    },
                    SpecToken::NewLine => None,
                    _ => Some(token_text(tok)),
                },
        )
}

/// Text between a pair of the quote `quote`, on one line. While inside, the
/// parser is marked as quoting, so that whitespace is kept; when the closing
/// quote is missing, the mark stays.
#[verifier::opaque]
pub open spec fn spec_quoted(t: Seq<SpecToken>, s: PState, quote: Quote) -> Step<SpecWord> {
    let s1 = enter(t, s);
    let r1 = spec_consume(t, s1, SpecToken::Quote(quote));
    commit(
        s,
        match r1.0 {
            None => (None, r1.1),
            Some(_) => {
                let s2 = PState { pos: r1.1.pos, quoting: Some(quote) };
                let body = rep(quoted_piece_fn(t, quote), t, s2);
                let r3 = spec_consume(t, body.1, SpecToken::Quote(quote));
                match r3.0 {
                    None => (None, r3.1),
                    Some(_) => (
                        Some(SpecWord { raw: concat_all(body.0), quoted: Some(quote) }),
                        PState { pos: r3.1.pos, quoting: None },
                    ),
                }
            },
        },
    )
}

/// A word token, as an unquoted word.
pub open spec fn word_token_fn() -> spec_fn(SpecToken) -> Option<SpecWord> {
    |tok: SpecToken|
        match token_word(tok) {
            Some(w) => Some(SpecWord { raw: w, quoted: None }),
            None => None,
        }
}

/// A single-quoted, double-quoted or backtick-quoted word, or else a word
/// token: the first of these that succeeds.
#[verifier::opaque]
pub open spec fn spec_word(t: Seq<SpecToken>, s: PState) -> Step<SpecWord> {
    let s1 = enter(t, s);
    let r1 = spec_quoted(t, s1, Quote::Single);
    commit(
        s,
        if r1.0 is Some {
            r1
        } else {
            let r2 = spec_quoted(t, restore(s1, r1.1), Quote::Double);
            if r2.0 is Some {
                r2
            } else {
                let r3 = spec_quoted(t, restore(s1, r2.1), Quote::Backtick);
                if r3.0 is Some {
                    r3
                } else {
                    spec_choice(t, restore(s1, r3.1), word_token_fn())
                }
            }
        },
    )
}

/// The words that the grammar keeps for itself.
pub open spec fn is_reserved(w: Seq<char>) -> bool {
    ||| w == "case"@
    ||| w == "do"@
    ||| w == "done"@
    ||| w == "elif"@
    ||| w == "else"@
    ||| w == "fi"@
    ||| w == "for"@
    ||| w == "if"@
    ||| w == "in"@
    ||| w == "then"@
    ||| w == "until"@
    ||| w == "while"@
}

/// A word whose text is not reserved.
#[verifier::opaque]
pub open spec fn spec_non_reserved_word(t: Seq<SpecToken>, s: PState) -> Step<SpecWord> {
    let s1 = enter(t, s);
    let r1 = spec_word(t, s1);
    commit(
        s,
        match r1.0 {
            Some(w) => if is_reserved(w.raw) {
                (None, r1.1)
            } else {
                r1
            },
            None => r1,
        },
    )
}

/// Whether `w` is one of the reserved words.
pub fn reserved(w: &str) -> (r: bool)
    ensures
        r == is_reserved(w@),
{
    str_equal(w, "case") || str_equal(w, "do") || str_equal(w, "done") || str_equal(w, "elif")
        || str_equal(w, "else") || str_equal(w, "fi") || str_equal(w, "for") || str_equal(w, "if")
        || str_equal(w, "in") || str_equal(w, "then") || str_equal(w, "until") || str_equal(
        w,
        "while",
    )
}

impl<'p> Parser<'p> {
    pub fn word(&mut self) -> (r: Option<Word>)
        ensures
            parsed(
                *old(self),
                *final(self),
                r.deep_view(),
                spec_word(old(self).toks(), old(self).st()),
            ),
            moved(*old(self), *final(self), r),
    {
        proof {
            reveal(spec_word);
        }
        let ghost t = self.toks();
        let ghost s0 = self.st();
        proof {
            lemma_enter(t, s0);
        }
        let snap = self.begin();
        let p = self.pos();
        let res = match self.quoted(Quote::Single) {
            Some(w) => Some(w),
            None => {
                self.reset_pos(p);
                match self.quoted(Quote::Double) {
                    Some(w) => Some(w),
                    None => {
                        self.reset_pos(p);
                        match self.quoted(Quote::Backtick) {
                            Some(w) => Some(w),
                            None => {
                                self.reset_pos(p);
                                self.word_token()
                            },
                        }
                    },
                }
            },
        };
        if res.is_none() {
            self.abort(snap);
        }
        res
    }

    /// A word token, as an unquoted word.
    fn word_token(&mut self) -> (r: Option<Word>)
        ensures
            parsed(
                *old(self),
                *final(self),
                r.deep_view(),
                spec_choice(old(self).toks(), old(self).st(), word_token_fn()),
            ),
            moved(*old(self), *final(self), r),
    {
        proof {
            reveal(spec_choice);
        }
        let ghost t = self.toks();
        let ghost s0 = self.st();
        proof {
            lemma_enter(t, s0);
            self.lemma_st_bounds();
        }
        let snap = self.begin();
        match self.peek() {
            Some(tok) => match tok {
                Token::Word(w) => {
                    self.advance();
                    Some(Word::from_string(w.clone()))
                },
                _ => {
                    self.abort(snap);
                    None
                },
            },
            None => {
                self.abort(snap);
                None
            },
        }
    }

    pub fn non_reserved_word(&mut self) -> (r: Option<Word>)
        ensures
            parsed(
                *old(self),
                *final(self),
                r.deep_view(),
                spec_non_reserved_word(old(self).toks(), old(self).st()),
            ),
            moved(*old(self), *final(self), r),
    {
        proof {
            reveal(spec_non_reserved_word);
        }
        let ghost t = self.toks();
        let ghost s0 = self.st();
        proof {
            lemma_enter(t, s0);
        }
        let snap = self.begin();
        let w = match self.word() {
            Some(w) => w,
            None => {
                self.abort(snap);
                return None;
            },
        };
        if reserved(w.raw().as_str()) {
            self.abort(snap);
            None
        } else {
            Some(w)
        }
    }

    /// One token inside a quote, by its text.
    fn quoted_piece(&mut self, quote: Quote) -> (r: Option<&'p str>)
        ensures
            parsed(
                *old(self),
                *final(self),
                match r {
                    Some(x) => Some(x@),
                    None => None,
                },
                quoted_piece_fn(old(self).toks(), quote)(old(self).st()),
            ),
            moved(*old(self), *final(self), r),
    {
        let ghost t = self.toks();
        let ghost s0 = self.st();
        proof {
            lemma_enter(t, s0);
            self.lemma_st_bounds();
        }
        let snap = self.begin();
        match self.peek() {
            Some(tok) => {
                let stop = match tok {
                    Token::Quote(q) => *q == quote,
                    Token::NewLine => true,
                    _ => false,
                };
                if stop {
                    self.abort(snap);
                    None
                } else {
                    self.advance();
                    Some(tok.as_str())
                }
            },
            None => {
                self.abort(snap);
                None
            },
        }
    }

    fn quoted(&mut self, quote: Quote) -> (r: Option<Word>)
        ensures
            parsed(
                *old(self),
                *final(self),
                r.deep_view(),
                spec_quoted(old(self).toks(), old(self).st(), quote),
            ),
            moved(*old(self), *final(self), r),
    {
        proof {
            reveal(spec_quoted);
        }
        let ghost t = self.toks();
        let ghost s0 = self.st();
        proof {
            lemma_enter(t, s0);
        }
        let snap = self.begin();
        if self.consume(Token::Quote(quote)).is_none() {
            self.abort(snap);
            return None;
        }
        self.set_quoting(Some(quote));
        let ghost s2 = self.st();
        let ghost pf = quoted_piece_fn(t, quote);
        let mut buf = String::new();
        let ghost mut pieces: Seq<Seq<char>> = Seq::empty();
        loop
            invariant_except_break
                self.toks() == t,
                pf == quoted_piece_fn(t, quote),
                rep(pf, t, s2).0 == pieces + rep(pf, t, self.st()).0,
                rep(pf, t, s2).1 == rep(pf, t, self.st()).1,
                buf@ == concat_all(pieces),
                adv(t, s0, self.st()),
            ensures
                self.toks() == t,
                rep(pf, t, s2).0 == pieces,
                rep(pf, t, s2).1 == self.st(),
                buf@ == concat_all(pieces),
                adv(t, s0, self.st()),
            decreases self.rem(),
        {
            let ghost before = self.st();
            match self.quoted_piece(quote) {
                Some(text) => {
                    proof {
                        lemma_rep_unfold(pf, t, before);
                        assert(pieces.push(text@).drop_last() =~= pieces);
                        assert(pieces.push(text@) + rep(pf, t, self.st()).0 =~= pieces + (seq![
                            text@,
                        ] + rep(pf, t, self.st()).0));
                        pieces = pieces.push(text@);
                    }
                    push_str(&mut buf, text);
                },
                None => {
                    assert(pieces + Seq::<Seq<char>>::empty() =~= pieces);
                    break;
                },
            }
        }
        if self.consume(Token::Quote(quote)).is_none() {
            self.abort(snap);
            return None;
        }
        self.set_quoting(None);
        Some(Word::new(buf, Some(quote)))
    }
}


impl From<String> for Word {
    fn from(raw: String) -> (r: Self) {
        Word { raw, quoted: None }
    }
}

impl vstd::std_specs::convert::FromSpecImpl<String> for Word {
    open spec fn obeys_from_spec() -> bool {
        true
    }

    closed spec fn from_spec(v: String) -> Word {
        Word { raw: v, quoted: None }
    }
}

proof fn lemma_tokens_text_front(t: Seq<SpecToken>, a: int, b: int)
    requires
        0 <= a < b <= t.len(),
    ensures
        tokens_text(t.subrange(a, b)) == token_text(t[a]) + tokens_text(t.subrange(a + 1, b)),
{
    assert(t.subrange(a, b).drop_first() =~= t.subrange(a + 1, b));
}

proof fn lemma_tokens_text_one(x: SpecToken)
    ensures
        tokens_text(seq![x]) == token_text(x),
{
    assert(seq![x].drop_first() =~= Seq::<SpecToken>::empty());
    assert(tokens_text(seq![x]) =~= token_text(x)) by {
        reveal_with_fuel(tokens_text, 2);
    }
}

proof fn lemma_concat_all_front(x: Seq<char>, rest: Seq<Seq<char>>)
    ensures
        concat_all(seq![x] + rest) == x + concat_all(rest),
    decreases rest.len(),
{
    if rest.len() == 0 {
        assert(seq![x] + rest =~= seq![x]);
        assert(seq![x].drop_last() =~= Seq::<Seq<char>>::empty());
        assert(concat_all(seq![x]) =~= x) by {
            reveal_with_fuel(concat_all, 2);
        }
    } else {
        lemma_concat_all_front(x, rest.drop_last());
        assert((seq![x] + rest).drop_last() =~= seq![x] + rest.drop_last());
        assert(concat_all(seq![x] + rest) =~= x + concat_all(rest));
    }
}

/// Inside a quote, the pieces read are the texts of the tokens passed over.
proof fn lemma_quoted_body(t: Seq<SpecToken>, q: Quote, s: PState)
    requires
        s.quoting == Some(q),
        0 <= s.pos <= t.len(),
    ensures
        s.pos <= rep(quoted_piece_fn(t, q), t, s).1.pos <= t.len(),
        rep(quoted_piece_fn(t, q), t, s).1.quoting == Some(q),
        concat_all(rep(quoted_piece_fn(t, q), t, s).0) == tokens_text(
            t.subrange(s.pos, rep(quoted_piece_fn(t, q), t, s).1.pos),
        ),
    decreases t.len() - s.pos,
{
    let f = quoted_piece_fn(t, q);
    let r = f(s);
    if s.pos < t.len() && r.0 is Some {
        let s2 = PState { pos: s.pos + 1, quoting: Some(q) };
        assert(r.1 == s2);
        assert(r.0 == Some(token_text(t[s.pos])));
        lemma_rep_unfold(f, t, s);
        lemma_quoted_body(t, q, s2);
        let rest = rep(f, t, s2);
        lemma_concat_all_front(token_text(t[s.pos]), rest.0);
        lemma_tokens_text_front(t, s.pos, rest.1.pos);
    } else {
        assert(t.subrange(s.pos, s.pos) =~= Seq::<SpecToken>::empty());
        assert(concat_all(Seq::<Seq<char>>::empty()) =~= Seq::<char>::empty());
    }
}

/// A quoted word renders as the tokens it was read from: its quotes and the
/// tokens between them.
proof fn lemma_quoted_text(t: Seq<SpecToken>, s: PState, q: Quote)
    requires
        0 <= s.pos <= t.len(),
    ensures
        spec_quoted(t, s, q).0 matches Some(w) ==> {
            let p = enter(t, s).pos;
            let e = spec_quoted(t, s, q).1.pos;
            p < e <= t.len() && word_text(w) == tokens_text(t.subrange(p, e))
        },
{
    reveal(spec_quoted);
    lemma_enter(t, s);
    let s1 = enter(t, s);
    lemma_enter(t, s1);
    let r1 = spec_consume(t, s1, SpecToken::Quote(q));
    if r1.0 is Some {
        let s2 = PState { pos: r1.1.pos, quoting: Some(q) };
        assert(s2.pos == s1.pos + 1);
        lemma_quoted_body(t, q, s2);
        let body = rep(quoted_piece_fn(t, q), t, s2);
        let r3 = spec_consume(t, body.1, SpecToken::Quote(q));
        if r3.0 is Some {
            let b = body.1.pos;
            assert(t[s1.pos] == SpecToken::Quote(q));
            assert(t[b] == SpecToken::Quote(q));
            lemma_tokens_text_front(t, s1.pos, b + 1);
            assert(t.subrange(s1.pos + 1, b + 1) =~= t.subrange(s1.pos + 1, b) + seq![t[b]]);
            lemma_tokens_text_concat(t.subrange(s1.pos + 1, b), seq![t[b]]);
            lemma_tokens_text_one(t[b]);
        }
    }
}

/// A word renders as exactly the tokens it was read from: when the word rule
/// reads a word outside quotes, its text is the text of the tokens from the
/// first one after the leading whitespace to where the rule stopped.
pub proof fn lemma_word_renders_as_read(t: Seq<SpecToken>, s: PState)
    requires
        s.quoting is None,
        0 <= s.pos <= t.len(),
    ensures
        spec_word(t, s).0 matches Some(w) ==> {
            let p = enter(t, s).pos;
            let e = spec_word(t, s).1.pos;
            p < e <= t.len() && word_text(w) == tokens_text(t.subrange(p, e))
        },
{
    reveal(spec_word);
    lemma_enter(t, s);
    let s1 = enter(t, s);
    lemma_enter(t, s1);
    assert forall|x: PState| x.pos == s1.pos implies #[trigger] enter(t, x).pos == s1.pos by {
        if x.quoting is None {
            assert(enter(t, x).pos == enter(t, s1).pos);
        }
    }
    lemma_quoted_text(t, s1, Quote::Single);
    let r1 = spec_quoted(t, s1, Quote::Single);
    if r1.0 is None {
        let x2 = restore(s1, r1.1);
        assert(enter(t, x2).pos == s1.pos);
        lemma_quoted_text(t, x2, Quote::Double);
        let r2 = spec_quoted(t, x2, Quote::Double);
        if r2.0 is None {
            let x3 = restore(s1, r2.1);
            assert(enter(t, x3).pos == s1.pos);
            lemma_quoted_text(t, x3, Quote::Backtick);
            let r3 = spec_quoted(t, x3, Quote::Backtick);
            if r3.0 is None {
                let x4 = restore(s1, r3.1);
                assert(enter(t, x4).pos == s1.pos);
                let r4 = spec_choice(t, x4, word_token_fn());
                if r4.0 is Some {
                    assert(t.subrange(s1.pos, s1.pos + 1) =~= seq![t[s1.pos]]);
                    lemma_tokens_text_one(t[s1.pos]);
                }
            }
        }
    }
}

} // verus!
