//! `for name in words; do ... done` loops.

use vstd::prelude::*;

use crate::ast::render::{for_text, words_text};
use crate::ast::word::word_text;
use crate::text::{owned, push_str};

use crate::ast::command::compound::do_scope::{spec_do_scope, DoScope, SpecDoScope};
use crate::ast::word::{spec_non_reserved_word, SpecWord, Word};
use crate::ast::{spec_linebreak, spec_required_linebreak};
use crate::parser_v2::{
    adv, commit, enter, lemma_enter, lemma_push_concat, lemma_rep_unfold, moved, parsed, rem_of,
    rep, restore, spec_choice, spec_consume, PState, Parser, Step,
};
use crate::tokens::{token_word, SpecToken, Symbol, Token};

verus! {

#[derive(Debug, PartialEq, Eq)]
pub struct For {
    lhs: String,
    rhs: Option<Vec<Word>>,
    scope: DoScope,
}

/// A `for` loop as a value.
pub struct SpecFor {
    pub lhs: Seq<char>,
    pub rhs: Option<Seq<SpecWord>>,
    pub scope: SpecDoScope,
}

impl For {
    pub closed spec fn model(&self) -> SpecFor
        decreases self,
    {
        SpecFor { lhs: self.lhs@, rhs: self.rhs.deep_view(), scope: self.scope.model() }
    }

    /// The loop variable.
    pub fn lhs(&self) -> (r: &String)
        ensures
            r@ == self.model().lhs,
    {
        &self.lhs
    }

    /// The words that the variable takes in turn.
    pub fn rhs(&self) -> (r: &Option<Vec<Word>>)
        ensures
            r.deep_view() == self.model().rhs,
    {
        &self.rhs
    }

    /// The body.
    pub fn scope(&self) -> (r: &DoScope)
        ensures
            r.model() == self.model().scope,
    {
        &self.scope
    }
}

impl DeepView for For {
    type V = SpecFor;

    open spec fn deep_view(&self) -> SpecFor {
        self.model()
    }
}

/// `;` followed by optional newlines, or at least one newline.
#[verifier::opaque]
pub open spec fn spec_seq_separator(t: Seq<SpecToken>, s: PState) -> Step<()> {
    let s1 = enter(t, s);
    let r1 = spec_consume(t, s1, SpecToken::Symbol(Symbol::Semicolon));
    let a1 = match r1.0 {
        None => (None, r1.1),
        Some(_) => spec_linebreak(t, r1.1),
    };
    commit(
        s,
        if a1.0 is Some {
            a1
        } else {
            spec_required_linebreak(t, restore(s1, a1.1))
        },
    )
}

pub open spec fn non_reserved_word_fn(t: Seq<SpecToken>) -> spec_fn(PState) -> Step<SpecWord> {
    |s: PState| spec_non_reserved_word(t, s)
}

/// One or more words that are not reserved.
#[verifier::opaque]
pub open spec fn spec_words(t: Seq<SpecToken>, s: PState) -> Step<Seq<SpecWord>> {
    let s1 = enter(t, s);
    let body = rep(non_reserved_word_fn(t), t, s1);
    commit(
        s,
        if body.0.len() > 0 {
            (Some(body.0), body.1)
        } else {
            (None, body.1)
        },
    )
}

/// A word token, by its text.
pub open spec fn name_fn() -> spec_fn(SpecToken) -> Option<Seq<char>> {
    |tok: SpecToken| token_word(tok)
}

/// `for`, a name, optional newlines, `in`, optional words, a separator, then a
/// `do ... done` body.
#[verifier::opaque]
pub open spec fn spec_for_clause(t: Seq<SpecToken>, s: PState) -> Step<SpecFor>
    decreases rem_of(t, s), 11nat,
{
    let s1 = enter(t, s);
    let r1 = spec_consume(t, s1, SpecToken::Word("for"@));
    commit(
        s,
        match r1.0 {
            None => (None, r1.1),
            Some(_) => {
                let r2 = spec_choice(t, r1.1, name_fn());
                match r2.0 {
                    None => (None, r2.1),
                    Some(lhs) => {
                        let r3 = spec_linebreak(t, r2.1);
                        let r4 = spec_consume(t, r3.1, SpecToken::Word("in"@));
                        match r4.0 {
                            None => (None, r4.1),
                            Some(_) => {
                                let r5 = spec_words(t, r4.1);
                                let r6 = spec_seq_separator(t, r5.1);
                                match r6.0 {
                                    None => (None, r6.1),
                                    Some(_) => {
                                        let r7 = if adv(t, s, r6.1) {
                                            spec_do_scope(t, r6.1)
                                        } else {
                                            (None, r6.1)
                                        };
                                        match r7.0 {
                                            None => (None, r7.1),
                                            Some(scope) => (
                                                Some(SpecFor { lhs, rhs: r5.0, scope }),
                                                r7.1,
                                            ),
                                        }
                                    },
                                }
                            },
                        }
                    },
                }
            },
        },
    )
}

impl<'p> Parser<'p> {
    pub fn for_clause(&mut self) -> (r: Option<For>)
        ensures
            parsed(
                *old(self),
                *final(self),
                r.deep_view(),
                spec_for_clause(old(self).toks(), old(self).st()),
            ),
            moved(*old(self), *final(self), r),
        decreases old(self).rem(), 11nat,
    {
        proof {
            reveal_with_fuel(spec_for_clause, 1);
            reveal_with_fuel(spec_do_scope, 1);
        }
        let ghost t = self.toks();
        let ghost s0 = self.st();
        proof {
            lemma_enter(t, s0);
        }
        let snap = self.begin();
        if self.consume(Token::word("for")).is_none() {
            self.abort(snap);
            return None;
        }
        let lhs = match self.name() {
            Some(n) => n,
            None => {
                self.abort(snap);
                return None;
            },
        };
        let _ = self.linebreak();
        if self.consume(Token::word("in")).is_none() {
            self.abort(snap);
            return None;
        }
        let rhs = self.words();
        if self.seq_separator().is_none() {
            self.abort(snap);
            return None;
        }
        let scope = match self.do_scope() {
            Some(d) => d,
            None => {
                self.abort(snap);
                return None;
            },
        };
        Some(For { lhs, rhs, scope })
    }

    pub fn seq_separator(&mut self) -> (r: Option<()>)
        ensures
            parsed(*old(self), *final(self), r, spec_seq_separator(old(self).toks(), old(self).st())),
            moved(*old(self), *final(self), r),
    {
        proof {
            reveal(spec_seq_separator);
        }
        let ghost t = self.toks();
        let ghost s0 = self.st();
        proof {
            lemma_enter(t, s0);
        }
        let snap = self.begin();
        let p = self.pos();
        if self.consume(Token::Symbol(Symbol::Semicolon)).is_some() {
            return self.linebreak();
        }
        self.reset_pos(p);
        let res = self.required_linebreak();
        if res.is_none() {
            self.abort(snap);
        }
        res
    }

    fn words(&mut self) -> (r: Option<Vec<Word>>)
        ensures
            parsed(*old(self), *final(self), r.deep_view(), spec_words(old(self).toks(), old(self).st())),
            moved(*old(self), *final(self), r),
    {
        proof {
            reveal(spec_words);
        }
        let ghost t = self.toks();
        let ghost s0 = self.st();
        proof {
            lemma_enter(t, s0);
        }
        let snap = self.begin();
        let ghost s1 = self.st();
        let ghost f = non_reserved_word_fn(t);
        let mut acc: Vec<Word> = Vec::new();
        loop
            invariant_except_break
                self.toks() == t,
                f == non_reserved_word_fn(t),
                rep(f, t, s1).0 == acc.deep_view() + rep(f, t, self.st()).0,
                rep(f, t, s1).1 == rep(f, t, self.st()).1,
                acc.len() > 0 ==> adv(t, s0, self.st()),
                acc.len() == 0 ==> self.st().pos == s1.pos,
                0 <= s0.pos <= s1.pos,
            ensures
                self.toks() == t,
                rep(f, t, s1).0 == acc.deep_view(),
                rep(f, t, s1).1 == self.st(),
                acc.len() > 0 ==> adv(t, s0, self.st()),
            decreases self.rem(),
        {
            let ghost before = self.st();
            match self.non_reserved_word() {
                Some(x) => {
                    proof {
                        lemma_rep_unfold(f, t, before);
                    }
                    let ghost prev = acc.deep_view();
                    acc.push(x);
                    assert(acc.deep_view() =~= prev.push(x.deep_view()));
                    proof {
                        lemma_push_concat(prev, x.deep_view(), rep(f, t, self.st()).0);
                    }
                },
                None => {
                    proof {
                        lemma_push_concat(acc.deep_view(), arbitrary(), Seq::empty());
                    }
                    break;
                },
            }
        }
        if acc.len() > 0 {
            Some(acc)
        } else {
            self.abort(snap);
            None
        }
    }

    fn name(&mut self) -> (r: Option<String>)
        ensures
            parsed(
                *old(self),
                *final(self),
                match r {
                    Some(w) => Some(w@),
                    None => None,
                },
                spec_choice(old(self).toks(), old(self).st(), name_fn()),
            ),
            moved(*old(self), *final(self), r),
    {
        proof {
            reveal(spec_choice);
        }
        let ghost t = self.toks();
        let ghost s0 = self.st();
        proof {
            lemma_enter(t, s0);
            self.lemma_st_bounds();
        }
        let snap = self.begin();
        match self.peek() {
            Some(tok) => match tok {
                Token::Word(w) => {
                    self.advance();
                    Some(w.clone())
                },
                _ => {
                    self.abort(snap);
                    None
                },
            },
            None => {
                self.abort(snap);
                None
            },
        }
    }
}


/// Words separated by spaces.
fn join_words(ws: &Vec<Word>) -> (r: String)
    ensures
        r@ == words_text(ws.deep_view()),
{
    let ghost all = ws.deep_view();
    let mut s = String::new();
    let mut i: usize = 0;
    while i < ws.len()
        invariant
            i <= ws.len(),
            all == ws.deep_view(),
            s@ == words_text(all.take(i as int)),
        decreases ws.len() - i,
    {
        assert(all.take(i as int + 1).drop_last() =~= all.take(i as int));
        assert(all[i as int] == ws@[i as int].model());
        if i > 0 {
            push_str(&mut s, " ");
        }
        let w = ws[i].display();
        push_str(&mut s, w.as_str());
        proof {
            if i == 0 {
                assert(s@ =~= words_text(all.take(1)));
            }
        }
        i = i + 1;
    }
    assert(all.take(ws.len() as int) =~= all);
    s
}

impl For {
    pub fn display(&self) -> (r: String)
        requires
            for_text(self.model()) is Some,
        ensures
            Some(r@) == for_text(self.model()),
        decreases self,
    {
        let mut s = owned("for ");
        push_str(&mut s, self.lhs.as_str());
        push_str(&mut s, " in ");
        if let Some(ws) = &self.rhs {
            let t = join_words(ws);
            push_str(&mut s, t.as_str());
        }
        push_str(&mut s, ";\n");
        let d = self.scope.display();
        push_str(&mut s, d.as_str());
        s
    }
}

} // verus!
