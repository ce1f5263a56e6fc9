//! Arithmetic commands: `(( expression ))` and the C-like `for ((...))` loop.

pub mod expr;
pub mod for_clause;
pub mod operators;

use vstd::prelude::*;

use crate::ast::command::arithmetic::expr::{
    expr_text, spec_arithmetic_expr, Expr, SpecUnexpandedExpr, UnexpandedExpr,
};
use crate::parser_v2::{
    commit, enter, lemma_enter, moved, parsed, spec_consume, PState, Parser, Step,
};
use crate::text::{owned, push_str};
use crate::tokens::{spec_close_paren, spec_open_paren, Paren, SpecToken, Token};

verus! {

#[derive(Debug, Clone, PartialEq, Eq)]
pub struct Arithmetic(UnexpandedExpr);

/// An arithmetic command as a value.
pub struct SpecArithmetic(pub SpecUnexpandedExpr);

impl Arithmetic {
    pub closed spec fn model(&self) -> SpecArithmetic {
        SpecArithmetic(self.0.model())
    }

    pub fn display(&self) -> (r: String)
        ensures
            r@ == arithmetic_text(self.model()),
    {
        let mut s = owned("((");
        let e = self.0.display();
        push_str(&mut s, e.as_str());
        push_str(&mut s, "))");
        proof {
            reveal_strlit("((");
            reveal_strlit("))");
        }
        assert(s@ =~= arithmetic_text(self.model()));
        s
    }
}

impl DeepView for Arithmetic {
    type V = SpecArithmetic;

    open spec fn deep_view(&self) -> SpecArithmetic {
        self.model()
    }
}

/// The text of an arithmetic command: its expression between `((` and `))`.
pub open spec fn arithmetic_text(a: SpecArithmetic) -> Seq<char> {
    seq!['(', '('] + a.0.value + seq![')', ')']
}

#[derive(Debug, PartialEq, Eq)]
pub enum Target {
    Variable(String),
    ArrayItem(String, Box<Expr>),
}

/// The text of an assignment target: a name, or an array item.
pub open spec fn target_text(t: Target) -> Seq<char>
    decreases t,
{
    match t {
        Target::Variable(v) => v@,
        Target::ArrayItem(v, idx) => v@ + seq!['['] + expr_text(*idx) + seq![']'],
    }
}

impl Target {
    pub fn display(&self) -> (r: String)
        ensures
            r@ == target_text(*self),
        decreases self,
    {
        match self {
            Target::Variable(v) => v.clone(),
            Target::ArrayItem(v, idx) => {
                let mut s = v.clone();
                push_str(&mut s, "[");
                let i = idx.display();
                push_str(&mut s, i.as_str());
                push_str(&mut s, "]");
                proof {
                    reveal_strlit("[");
                    reveal_strlit("]");
                }
                assert(s@ =~= target_text(*self));
                s
            },
        }
    }
}

/// `((`, an arithmetic expression, `))`.
#[verifier::opaque]
pub open spec fn spec_arithmetic(t: Seq<SpecToken>, s: PState) -> Step<SpecArithmetic> {
    let s1 = enter(t, s);
    let r1 = spec_consume(t, s1, SpecToken::Paren(spec_open_paren()));
    let r2 = match r1.0 {
        Some(_) => spec_consume(t, r1.1, SpecToken::Paren(spec_open_paren())),
        None => (None, r1.1),
    };
    commit(
        s,
        match r2.0 {
            None => (None, r2.1),
            Some(_) => {
                let r3 = spec_arithmetic_expr(t, r2.1);
                match r3.0 {
                    None => (None, r3.1),
                    Some(e) => {
                        let r4 = spec_consume(t, r3.1, SpecToken::Paren(spec_close_paren()));
                        let r5 = match r4.0 {
                            Some(_) => spec_consume(t, r4.1, SpecToken::Paren(spec_close_paren())),
                            None => (None, r4.1),
                        };
                        match r5.0 {
                            None => (None, r5.1),
                            Some(_) => (Some(SpecArithmetic(e)), r5.1),
                        }
                    },
                }
            },
        },
    )
}

impl<'p> Parser<'p> {
    pub fn arithmetic(&mut self) -> (r: Option<Arithmetic>)
        ensures
            parsed(
                *old(self),
                *final(self),
                r.deep_view(),
                spec_arithmetic(old(self).toks(), old(self).st()),
            ),
            moved(*old(self), *final(self), r),
    {
        proof {
            reveal(spec_arithmetic);
        }
        let ghost t = self.toks();
        let ghost s0 = self.st();
        proof {
            lemma_enter(t, s0);
        }
        let snap = self.begin();
        if self.consume(Token::Paren(Paren::open())).is_none() || self.consume(
            Token::Paren(Paren::open()),
        ).is_none() {
            self.abort(snap);
            return None;
        }
        let e = match self.arithmetic_expr() {
            Some(e) => e,
            None => {
                self.abort(snap);
                return None;
            },
        };
        if self.consume(Token::Paren(Paren::close())).is_none() || self.consume(
            Token::Paren(Paren::close()),
        ).is_none() {
            self.abort(snap);
            return None;
        }
        Some(Arithmetic(e))
    }
}

} // verus!
