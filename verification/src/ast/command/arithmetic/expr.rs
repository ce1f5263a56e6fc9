//! Arithmetic expressions: kept as their text, and their tree form.

use vstd::prelude::*;

use crate::ast::command::arithmetic::operators::{binary_text, unary_text, Binary, Unary};
use crate::ast::command::arithmetic::{target_text, Target};
use crate::parser_v2::{
    adv, at, commit, enter, lemma_enter, mono, moved, parsed, rem_of, restore, spec_consume,
    spec_consume_any, PState, Parser, Step,
};
use crate::text::{concat_all, i64_text, owned, push_str, signed_decimal};
use crate::tokens::{spec_close_paren, spec_open_paren, token_text, Paren, SpecToken, Symbol, Token};

verus! {

/// An arithmetic expression kept as the text it was written with.
#[derive(Debug, Clone, PartialEq, Eq)]
pub struct UnexpandedExpr {
    value: String,
}

/// An unexpanded expression as a value.
pub struct SpecUnexpandedExpr {
    pub value: Seq<char>,
}

impl UnexpandedExpr {
    pub closed spec fn model(&self) -> SpecUnexpandedExpr {
        SpecUnexpandedExpr { value: self.value@ }
    }

    pub fn new(value: String) -> (r: Self)
        ensures
            r.model() == (SpecUnexpandedExpr { value: value@ }),
    {
        Self { value }
    }

    pub fn display(&self) -> (r: String)
        ensures
            r@ == self.model().value,
    {
        self.value.clone()
    }
}

impl DeepView for UnexpandedExpr {
    type V = SpecUnexpandedExpr;

    open spec fn deep_view(&self) -> SpecUnexpandedExpr {
        self.model()
    }
}

#[derive(Debug, PartialEq, Eq)]
pub enum Expr {
    Literal(i64),
    Ref(Target),
    UnaryOp { op: Unary, this: Box<Expr> },
    BinaryOp { op: Binary, lhs: Box<Expr>, rhs: Box<Expr> },
    Cond { cond: Box<Expr>, then_expr: Box<Expr>, otherwise: Box<Expr> },
    Assign { lhs: Target, rhs: Box<Expr> },
    OpAssign { op: Binary, lhs: Target, rhs: Box<Expr> },
}

/// The text of an expression tree.
pub open spec fn expr_text(e: Expr) -> Seq<char>
    decreases e,
{
    match e {
        Expr::Literal(v) => signed_decimal(v as int),
        Expr::Ref(target) => target_text(target),
        Expr::UnaryOp { op, this } => unary_text(op) + expr_text(*this),
        Expr::BinaryOp { op, lhs, rhs } => expr_text(*lhs) + seq![' '] + binary_text(op) + seq![
            ' ',
        ] + expr_text(*rhs),
        Expr::Cond { cond, then_expr, otherwise } => expr_text(*cond) + seq![' ', '?', ' '] + expr_text(
            *then_expr,
        ) + seq![' ', ':', ' '] + expr_text(*otherwise),
        Expr::Assign { lhs, rhs } => target_text(lhs) + seq![' ', '=', ' '] + expr_text(*rhs),
        Expr::OpAssign { op, lhs, rhs } => target_text(lhs) + seq![' '] + binary_text(op) + seq![
            '=',
            ' ',
        ] + expr_text(*rhs),
    }
}

impl Expr {
    pub fn display(&self) -> (r: String)
        ensures
            r@ == expr_text(*self),
        decreases self,
    {
        proof {
            reveal_strlit(" ");
            reveal_strlit(" ? ");
            reveal_strlit(" : ");
            reveal_strlit(" = ");
            reveal_strlit("= ");
        }
        let r = match self {
            Expr::Literal(v) => i64_text(*v),
            Expr::Ref(target) => target.display(),
            Expr::UnaryOp { op, this } => {
                let mut s = op.display();
                let x = this.display();
                push_str(&mut s, x.as_str());
                s
            },
            Expr::BinaryOp { op, lhs, rhs } => {
                let mut s = lhs.display();
                push_str(&mut s, " ");
                let o = op.display();
                push_str(&mut s, o.as_str());
                push_str(&mut s, " ");
                let x = rhs.display();
                push_str(&mut s, x.as_str());
                s
            },
            Expr::Cond { cond, then_expr, otherwise } => {
                let mut s = cond.display();
                push_str(&mut s, " ? ");
                let a = then_expr.display();
                push_str(&mut s, a.as_str());
                push_str(&mut s, " : ");
                let b = otherwise.display();
                push_str(&mut s, b.as_str());
                s
            },
            Expr::Assign { lhs, rhs } => {
                let mut s = lhs.display();
                push_str(&mut s, " = ");
                let x = rhs.display();
                push_str(&mut s, x.as_str());
                s
            },
            Expr::OpAssign { op, lhs, rhs } => {
                let mut s = lhs.display();
                push_str(&mut s, " ");
                let o = op.display();
                push_str(&mut s, o.as_str());
                push_str(&mut s, "= ");
                let x = rhs.display();
                push_str(&mut s, x.as_str());
                s
            },
        };
        assert(r@ =~= expr_text(*self));
        r
    }
}

/// The end of an arithmetic expression, looked at but not read: `))` or `;`.
#[verifier::opaque]
pub open spec fn spec_arithmetic_end(t: Seq<SpecToken>, s: PState) -> Step<()> {
    let s1 = enter(t, s);
    let r1 = spec_consume(t, s1, SpecToken::Paren(spec_close_paren()));
    let a = match r1.0 {
        Some(_) => spec_consume(t, r1.1, SpecToken::Paren(spec_close_paren())),
        None => (None, r1.1),
    };
    commit(
        s,
        if a.0 is Some {
            a
        } else {
            spec_consume(t, restore(s1, a.1), SpecToken::Symbol(Symbol::Semicolon))
        },
    )
}

/// A part of an arithmetic expression: a parenthesised group of parts, or any
/// single token before the end of the expression, by its text.
#[verifier::opaque]
pub open spec fn spec_expr_part(t: Seq<SpecToken>, s: PState) -> Step<Seq<char>>
    decreases rem_of(t, s), 2nat,
{
    let s1 = enter(t, s);
    let r1 = spec_consume(t, s1, SpecToken::Paren(spec_open_paren()));
    let a1 = match r1.0 {
        None => (None, r1.1),
        Some(_) => if adv(t, s, r1.1) {
            let inner = spec_expr_group(t, r1.1);
            let r3 = spec_consume(t, inner.1, SpecToken::Paren(spec_close_paren()));
            match r3.0 {
                None => (None, r3.1),
                Some(_) => (Some(seq!['('] + concat_all(inner.0) + seq![')']), r3.1),
            }
        } else {
            (None, r1.1)
        },
    };
    commit(
        s,
        if a1.0 is Some {
            a1
        } else {
            let e = spec_arithmetic_end(t, restore(s1, a1.1));
            if e.0 is Some {
                (None, e.1)
            } else {
                let r4 = spec_consume_any(t, e.1);
                match r4.0 {
                    Some(tok) => (Some(token_text(tok)), r4.1),
                    None => (None, r4.1),
                }
            }
        },
    )
}

/// The parts inside a parenthesised group, up to its closing parenthesis.
#[verifier::opaque]
pub open spec fn spec_expr_group(t: Seq<SpecToken>, s: PState) -> (Seq<Seq<char>>, PState)
    decreases rem_of(t, s), 3nat,
{
    match at(t, s.pos) {
        None => (Seq::empty(), s),
        Some(tok) => if tok == SpecToken::Paren(spec_close_paren()) {
            (Seq::empty(), s)
        } else {
            let r = spec_expr_part(t, s);
            match r.0 {
                None => (Seq::empty(), r.1),
                Some(x) => if adv(t, s, r.1) {
                    let rest = spec_expr_group(t, r.1);
                    (seq![x] + rest.0, rest.1)
                } else {
                    (seq![x], r.1)
                },
            }
        },
    }
}

/// The parts of an arithmetic expression, in order.
#[verifier::opaque]
pub open spec fn spec_expr_parts(t: Seq<SpecToken>, s: PState) -> (Seq<Seq<char>>, PState)
    decreases rem_of(t, s),
{
    let r = spec_expr_part(t, s);
    match r.0 {
        None => (Seq::empty(), r.1),
        Some(x) => if adv(t, s, r.1) {
            let rest = spec_expr_parts(t, r.1);
            (seq![x] + rest.0, rest.1)
        } else {
            (seq![x], r.1)
        },
    }
}

/// An arithmetic expression: the texts of its parts, joined; it must not be
/// empty.
#[verifier::opaque]
pub open spec fn spec_arithmetic_expr(t: Seq<SpecToken>, s: PState) -> Step<SpecUnexpandedExpr> {
    let s1 = enter(t, s);
    let body = spec_expr_parts(t, s1);
    let value = concat_all(body.0);
    commit(
        s,
        if value.len() > 0 {
            (Some(SpecUnexpandedExpr { value }), body.1)
        } else {
            (None, body.1)
        },
    )
}

impl<'p> Parser<'p> {
    pub fn arithmetic_expr(&mut self) -> (r: Option<UnexpandedExpr>)
        ensures
            parsed(
                *old(self),
                *final(self),
                r.deep_view(),
                spec_arithmetic_expr(old(self).toks(), old(self).st()),
            ),
            moved(*old(self), *final(self), r),
    {
        proof {
            reveal(spec_arithmetic_expr);
        }
        let ghost t = self.toks();
        let ghost s0 = self.st();
        proof {
            lemma_enter(t, s0);
        }
        let snap = self.begin();
        let ghost s1 = self.st();
        let mut value = String::new();
        let ghost mut parts: Seq<Seq<char>> = Seq::empty();
        loop
            invariant_except_break
                self.toks() == t,
                spec_expr_parts(t, s1).0 == parts + spec_expr_parts(t, self.st()).0,
                spec_expr_parts(t, s1).1 == spec_expr_parts(t, self.st()).1,
                value@ == concat_all(parts),
                parts.len() > 0 ==> adv(t, s0, self.st()),
                parts.len() == 0 ==> self.st().pos == s1.pos,
                0 <= s0.pos <= s1.pos,
            ensures
                self.toks() == t,
                spec_expr_parts(t, s1).0 == parts,
                spec_expr_parts(t, s1).1 == self.st(),
                value@ == concat_all(parts),
                parts.len() > 0 ==> adv(t, s0, self.st()),
                parts.len() == 0 ==> self.st().pos == s1.pos,
            decreases self.rem(),
        {
            proof {
                reveal_with_fuel(spec_expr_parts, 1);
            }
            let ghost before = self.st();
            match self.expr_part() {
                Some(x) => {
                    proof {
                        assert(parts.push(x@).drop_last() =~= parts);
                        assert(parts.push(x@) + spec_expr_parts(t, self.st()).0 =~= parts + (seq![
                            x@,
                        ] + spec_expr_parts(t, self.st()).0));
                        parts = parts.push(x@);
                    }
                    push_str(&mut value, x.as_str());
                },
                None => {
                    assert(parts + Seq::<Seq<char>>::empty() =~= parts);
                    break;
                },
            }
        }
        if value.as_str().is_empty() {
            self.abort(snap);
            None
        } else {
            Some(UnexpandedExpr { value })
        }
    }

    fn expr_part(&mut self) -> (r: Option<String>)
        ensures
            parsed(
                *old(self),
                *final(self),
                match r {
                    Some(x) => Some(x@),
                    None => None,
                },
                spec_expr_part(old(self).toks(), old(self).st()),
            ),
            moved(*old(self), *final(self), r),
        decreases old(self).rem(), 2nat,
    {
        proof {
            reveal_with_fuel(spec_expr_part, 1);
            reveal_with_fuel(spec_expr_group, 1);
        }
        let ghost t = self.toks();
        let ghost s0 = self.st();
        proof {
            lemma_enter(t, s0);
        }
        let snap = self.begin();
        let ghost s1 = self.st();
        let p = self.pos();
        let a1 = self.expr_group();
        match a1 {
            Some(x) => {
                assert(adv(t, s1, self.st()));
                Some(x)
            },
            None => {
                self.reset_pos(p);
                if self.arithmetic_end() {
                    self.abort(snap);
                    return None;
                }
                let ghost before = self.st();
                proof {
                    lemma_enter(t, before);
                }
                match self.consume_any() {
                    Some(tok) => Some(owned(tok.as_str())),
                    None => {
                        self.abort(snap);
                        None
                    },
                }
            },
        }
    }

    /// A parenthesised group of expression parts, as its text with the
    /// parentheses.
    fn expr_group(&mut self) -> (r: Option<String>)
        ensures
            final(self).toks() == old(self).toks(),
            ({
                let t = old(self).toks();
                let s = old(self).st();
                let r1 = spec_consume(t, s, SpecToken::Paren(spec_open_paren()));
                match r1.0 {
                    None => r is None && final(self).st() == r1.1,
                    Some(_) => {
                        let inner = spec_expr_group(t, r1.1);
                        let r3 = spec_consume(t, inner.1, SpecToken::Paren(spec_close_paren()));
                        match r3.0 {
                            None => r is None && final(self).st() == r3.1,
                            Some(_) => r is Some && r.unwrap()@ == seq!['('] + concat_all(inner.0)
                                + seq![')'] && final(self).st() == r3.1,
                        }
                    },
                }
            }),
            r is Some ==> adv(old(self).toks(), old(self).st(), final(self).st()),
        decreases old(self).rem(), 1nat,
    {
        let ghost t = self.toks();
        let ghost s0 = self.st();
        if self.consume(Token::Paren(Paren::open())).is_none() {
            return None;
        }
        let ghost s1 = self.st();
        let mut expr = String::new();
        let ghost mut parts: Seq<Seq<char>> = Seq::empty();
        loop
            invariant_except_break
                self.toks() == t,
                t == old(self).toks(),
                s0 == old(self).st(),
                adv(t, s0, s1),
                spec_expr_group(t, s1).0 == parts + spec_expr_group(t, self.st()).0,
                spec_expr_group(t, s1).1 == spec_expr_group(t, self.st()).1,
                expr@ == concat_all(parts),
                adv(t, s0, self.st()),
            ensures
                self.toks() == t,
                spec_expr_group(t, s1).0 == parts,
                spec_expr_group(t, s1).1 == self.st(),
                expr@ == concat_all(parts),
                adv(t, s0, self.st()),
            decreases self.rem(),
        {
            proof {
                reveal_with_fuel(spec_expr_group, 1);
                reveal_with_fuel(spec_expr_part, 1);
            }
            let stop = match self.peek() {
                None => true,
                Some(tok) => tok.same_as(&Token::Paren(Paren::close())),
            };
            if stop {
                assert(parts + Seq::<Seq<char>>::empty() =~= parts);
                break;
            }
            match self.expr_part() {
                Some(x) => {
                    proof {
                        assert(parts.push(x@).drop_last() =~= parts);
                        assert(parts.push(x@) + spec_expr_group(t, self.st()).0 =~= parts + (seq![
                            x@,
                        ] + spec_expr_group(t, self.st()).0));
                        parts = parts.push(x@);
                    }
                    push_str(&mut expr, x.as_str());
                },
                None => {
                    assert(parts + Seq::<Seq<char>>::empty() =~= parts);
                    break;
                },
            }
        }
        if self.consume(Token::Paren(Paren::close())).is_none() {
            return None;
        }
        let mut res = owned("(");
        push_str(&mut res, expr.as_str());
        push_str(&mut res, ")");
        proof {
            reveal_strlit("(");
            reveal_strlit(")");
            assert(res@ =~= seq!['('] + concat_all(parts) + seq![')']);
        }
        Some(res)
    }

    /// Whether the expression ends here: `))` or `;`. When it does, the end is
    /// read.
    fn arithmetic_end(&mut self) -> (r: bool)
        ensures
            final(self).toks() == old(self).toks(),
            r == spec_arithmetic_end(old(self).toks(), old(self).st()).0 is Some,
            final(self).st() == spec_arithmetic_end(old(self).toks(), old(self).st()).1,
            final(self).st().quoting == old(self).st().quoting,
            !r ==> final(self).st().pos == old(self).st().pos,
    {
        proof {
            reveal(spec_arithmetic_end);
        }
        let ghost t = self.toks();
        let ghost s0 = self.st();
        proof {
            lemma_enter(t, s0);
        }
        let snap = self.begin();
        let p = self.pos();
        let a = match self.consume(Token::Paren(Paren::close())) {
            Some(_) => self.consume(Token::Paren(Paren::close())),
            None => None,
        };
        let res = match a {
            Some(_) => Some(()),
            None => {
                self.reset_pos(p);
                self.consume(Token::Symbol(Symbol::Semicolon))
            },
        };
        match res {
            Some(_) => true,
            None => {
                self.abort(snap);
                false
            },
        }
    }
}

} // verus!
