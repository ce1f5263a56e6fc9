//! C-like arithmetic loops: `for ((init; cond; post)); do ... done`.

use vstd::prelude::*;

use crate::ast::render::arithmetic_for_text;
use crate::text::{owned, push_str};

use crate::ast::command::arithmetic::expr::{spec_arithmetic_expr, SpecUnexpandedExpr, UnexpandedExpr};
use crate::ast::command::compound::do_scope::{spec_do_scope, DoScope, SpecDoScope};
use crate::ast::command::compound::for_clause::spec_seq_separator;
use crate::parser_v2::{
    adv, commit, enter, lemma_enter, moved, parsed, rem_of, spec_consume, PState, Parser, Step,
};
use crate::tokens::{spec_close_paren, spec_open_paren, Paren, SpecToken, Symbol, Token};

verus! {

#[derive(Debug, PartialEq, Eq)]
pub struct For {
    init: Option<UnexpandedExpr>,
    cond: Option<UnexpandedExpr>,
    post: Option<UnexpandedExpr>,
    scope: DoScope,
}

/// An arithmetic `for` loop as a value.
pub struct SpecArithmeticFor {
    pub init: Option<SpecUnexpandedExpr>,
    pub cond: Option<SpecUnexpandedExpr>,
    pub post: Option<SpecUnexpandedExpr>,
    pub scope: SpecDoScope,
}

impl For {
    pub closed spec fn model(&self) -> SpecArithmeticFor
        decreases self,
    {
        SpecArithmeticFor {
            init: self.init.deep_view(),
            cond: self.cond.deep_view(),
            post: self.post.deep_view(),
            scope: self.scope.model(),
        }
    }

    /// The expression run before the loop, if any.
    pub fn init(&self) -> (r: &Option<UnexpandedExpr>)
        ensures
            r.deep_view() == self.model().init,
    {
        &self.init
    }

    /// The loop's condition, if any.
    pub fn cond(&self) -> (r: &Option<UnexpandedExpr>)
        ensures
            r.deep_view() == self.model().cond,
    {
        &self.cond
    }

    /// The expression run after each round, if any.
    pub fn post(&self) -> (r: &Option<UnexpandedExpr>)
        ensures
            r.deep_view() == self.model().post,
    {
        &self.post
    }

    /// The body.
    pub fn scope(&self) -> (r: &DoScope)
        ensures
            r.model() == self.model().scope,
    {
        &self.scope
    }
}

impl DeepView for For {
    type V = SpecArithmeticFor;

    open spec fn deep_view(&self) -> SpecArithmeticFor {
        self.model()
    }
}

/// `for ((`, three optional expressions separated by `;`, `))`, a separator,
/// then a `do ... done` body.
#[verifier::opaque]
pub open spec fn spec_arithmetic_for_clause(t: Seq<SpecToken>, s: PState) -> Step<
    SpecArithmeticFor,
>
    decreases rem_of(t, s), 11nat,
{
    let s1 = enter(t, s);
    let r1 = spec_consume(t, s1, SpecToken::Word("for"@));
    let r2 = match r1.0 {
        Some(_) => spec_consume(t, r1.1, SpecToken::Paren(spec_open_paren())),
        None => (None, r1.1),
    };
    let r3 = match r2.0 {
        Some(_) => spec_consume(t, r2.1, SpecToken::Paren(spec_open_paren())),
        None => (None, r2.1),
    };
    commit(
        s,
        match r3.0 {
            None => (None, r3.1),
            Some(_) => {
                let init = spec_arithmetic_expr(t, r3.1);
                let r5 = spec_consume(t, init.1, SpecToken::Symbol(Symbol::Semicolon));
                match r5.0 {
                    None => (None, r5.1),
                    Some(_) => {
                        let cond = spec_arithmetic_expr(t, r5.1);
                        let r7 = spec_consume(t, cond.1, SpecToken::Symbol(Symbol::Semicolon));
                        match r7.0 {
                            None => (None, r7.1),
                            Some(_) => {
                                let post = spec_arithmetic_expr(t, r7.1);
                                let r9 = spec_consume(
                                    t,
                                    post.1,
                                    SpecToken::Paren(spec_close_paren()),
                                );
                                let r10 = match r9.0 {
                                    Some(_) => spec_consume(
                                        t,
                                        r9.1,
                                        SpecToken::Paren(spec_close_paren()),
                                    ),
                                    None => (None, r9.1),
                                };
                                let r11 = match r10.0 {
                                    Some(_) => spec_seq_separator(t, r10.1),
                                    None => (None, r10.1),
                                };
                                match r11.0 {
                                    None => (None, r11.1),
                                    Some(_) => {
                                        let r12 = if adv(t, s, r11.1) {
                                            spec_do_scope(t, r11.1)
                                        } else {
                                            (None, r11.1)
                                        };
                                        match r12.0 {
                                            None => (None, r12.1),
                                            Some(scope) => (
                                                Some(
                                                    SpecArithmeticFor {
                                                        init: init.0,
                                                        cond: cond.0,
                                                        post: post.0,
                                                        scope,
                                                    },
                                                ),
                                                r12.1,
                                            ),
                                        }
                                    },
                                }
                            },
                        }
                    },
                }
            },
        },
    )
}

impl<'p> Parser<'p> {
    pub fn arithmetic_for_clause(&mut self) -> (r: Option<For>)
        ensures
            parsed(
                *old(self),
                *final(self),
                r.deep_view(),
                spec_arithmetic_for_clause(old(self).toks(), old(self).st()),
            ),
            moved(*old(self), *final(self), r),
        decreases old(self).rem(), 11nat,
    {
        proof {
            reveal_with_fuel(spec_arithmetic_for_clause, 1);
            reveal_with_fuel(spec_do_scope, 1);
        }
        let ghost t = self.toks();
        let ghost s0 = self.st();
        proof {
            lemma_enter(t, s0);
        }
        let snap = self.begin();
        if self.consume(Token::word("for")).is_none() || self.consume(Token::Paren(Paren::open())).is_none()
            || self.consume(Token::Paren(Paren::open())).is_none() {
            self.abort(snap);
            return None;
        }
        let init = self.arithmetic_expr();
        if self.consume(Token::Symbol(Symbol::Semicolon)).is_none() {
            self.abort(snap);
            return None;
        }
        let cond = self.arithmetic_expr();
        if self.consume(Token::Symbol(Symbol::Semicolon)).is_none() {
            self.abort(snap);
            return None;
        }
        let post = self.arithmetic_expr();
        if self.consume(Token::Paren(Paren::close())).is_none() || self.consume(
            Token::Paren(Paren::close()),
        ).is_none() {
            self.abort(snap);
            return None;
        }
        if self.seq_separator().is_none() {
            self.abort(snap);
            return None;
        }
        let scope = match self.do_scope() {
            Some(d) => d,
            None => {
                self.abort(snap);
                return None;
            },
        };
        Some(For { init, cond, post, scope })
    }
}


impl For {
    pub fn display(&self) -> (r: String)
        requires
            arithmetic_for_text(self.model()) is Some,
        ensures
            Some(r@) == arithmetic_for_text(self.model()),
        decreases self,
    {
        let mut s = owned("for ((");
        if let Some(e) = &self.init {
            let t = e.display();
            push_str(&mut s, t.as_str());
        }
        push_str(&mut s, "; ");
        if let Some(e) = &self.cond {
            let t = e.display();
            push_str(&mut s, t.as_str());
        }
        push_str(&mut s, "; ");
        if let Some(e) = &self.post {
            let t = e.display();
            push_str(&mut s, t.as_str());
        }
        push_str(&mut s, "))");
        let d = self.scope.display();
        push_str(&mut s, d.as_str());
        s
    }
}

} // verus!
