//! `if` commands with their `elif` and `else` branches.

use vstd::prelude::*;

use crate::ast::render::{cat, else_text, elses_text, if_text, indent, lemma_cat_assoc};
use crate::text::{owned, push_str};

use crate::ast::command::compound::{spec_compound_block, CompoundBlock, SpecCompoundBlock};
use crate::parser_v2::{
    adv, commit, enter, lemma_enter, lemma_push_concat, mono, moved, parsed, rem_of, restore,
    spec_consume, PState, Parser, Step,
};
use crate::tokens::{SpecToken, Token};

verus! {

#[derive(Debug, PartialEq, Eq)]
pub struct If {
    cond: CompoundBlock,
    then_block: CompoundBlock,
    branches: Option<Vec<Else>>,
}

/// An `elif` branch (with its condition) or an `else` branch (without one).
#[derive(Debug, PartialEq, Eq)]
pub struct Else {
    cond: Option<CompoundBlock>,
    block: CompoundBlock,
}

/// An `if` command as a value.
pub struct SpecIf {
    pub cond: SpecCompoundBlock,
    pub then_block: SpecCompoundBlock,
    pub branches: Option<Seq<SpecElse>>,
}

/// A branch as a value.
pub struct SpecElse {
    pub cond: Option<SpecCompoundBlock>,
    pub block: SpecCompoundBlock,
}

impl Else {
    pub closed spec fn model(&self) -> SpecElse
        decreases self,
    {
        SpecElse {
            cond: match &self.cond {
                Some(c) => Some(c.model()),
                None => None,
            },
            block: self.block.model(),
        }
    }

    /// The condition of an `elif` branch.
    pub fn cond(&self) -> (r: &Option<CompoundBlock>)
        ensures
            r.deep_view() == self.model().cond,
    {
        &self.cond
    }

    /// The block of the branch.
    pub fn block(&self) -> (r: &CompoundBlock)
        ensures
            r.model() == self.model().block,
    {
        &self.block
    }
}

impl DeepView for Else {
    type V = SpecElse;

    open spec fn deep_view(&self) -> SpecElse {
        self.model()
    }
}

impl If {
    pub closed spec fn model(&self) -> SpecIf
        decreases self,
    {
        SpecIf {
            cond: self.cond.model(),
            then_block: self.then_block.model(),
            branches: match &self.branches {
                Some(v) => Some(
                    Seq::new(
                        v@.len(),
                        |i: int|
                            if 0 <= i < v@.len() {
                                v@[i].model()
                            } else {
                                arbitrary()
                            },
                    ),
                ),
                None => None,
            },
        }
    }

    /// The condition block.
    pub fn cond(&self) -> (r: &CompoundBlock)
        ensures
            r.model() == self.model().cond,
    {
        &self.cond
    }

    /// The block run when the condition holds.
    pub fn then_block(&self) -> (r: &CompoundBlock)
        ensures
            r.model() == self.model().then_block,
    {
        &self.then_block
    }

    /// The `elif` and `else` branches, if any.
    pub fn branches(&self) -> (r: &Option<Vec<Else>>)
        ensures
            r.deep_view() == self.model().branches,
    {
        match &self.branches {
            Some(v) => {
                assert(v.deep_view() =~= self.model().branches.unwrap());
            },
            None => {},
        }
        &self.branches
    }
}

impl DeepView for If {
    type V = SpecIf;

    open spec fn deep_view(&self) -> SpecIf {
        self.model()
    }
}

/// `elif`, a condition block, `then`, a block.
#[verifier::opaque]
pub open spec fn spec_elif_clause(t: Seq<SpecToken>, s: PState) -> Step<SpecElse>
    decreases rem_of(t, s), 8nat,
{
    let s1 = enter(t, s);
    let r1 = spec_consume(t, s1, SpecToken::Word("elif"@));
    commit(
        s,
        match r1.0 {
            None => (None, r1.1),
            Some(_) => {
                let r2 = if adv(t, s, r1.1) {
                    spec_compound_block(t, r1.1)
                } else {
                    (None, r1.1)
                };
                match r2.0 {
                    None => (None, r2.1),
                    Some(cond) => {
                        let r3 = spec_consume(t, r2.1, SpecToken::Word("then"@));
                        match r3.0 {
                            None => (None, r3.1),
                            Some(_) => {
                                let r4 = if adv(t, s, r3.1) {
                                    spec_compound_block(t, r3.1)
                                } else {
                                    (None, r3.1)
                                };
                                match r4.0 {
                                    None => (None, r4.1),
                                    Some(block) => (
                                        Some(SpecElse { cond: Some(cond), block }),
                                        r4.1,
                                    ),
                                }
                            },
                        }
                    },
                }
            },
        },
    )
}

/// `else` and a block.
#[verifier::opaque]
pub open spec fn spec_else_clause(t: Seq<SpecToken>, s: PState) -> Step<SpecElse>
    decreases rem_of(t, s), 8nat,
{
    let s1 = enter(t, s);
    let r1 = spec_consume(t, s1, SpecToken::Word("else"@));
    commit(
        s,
        match r1.0 {
            None => (None, r1.1),
            Some(_) => {
                let r2 = if adv(t, s, r1.1) {
                    spec_compound_block(t, r1.1)
                } else {
                    (None, r1.1)
                };
                match r2.0 {
                    None => (None, r2.1),
                    Some(block) => (Some(SpecElse { cond: None, block }), r2.1),
                }
            },
        },
    )
}

/// `elif` branches, one after the other, as many as there are.
#[verifier::opaque]
pub open spec fn spec_elif_list(t: Seq<SpecToken>, s: PState) -> (Seq<SpecElse>, PState)
    decreases rem_of(t, s), 9nat,
{
    let r = spec_elif_clause(t, s);
    match r.0 {
        None => (Seq::empty(), r.1),
        Some(x) => if adv(t, s, r.1) {
            let rest = spec_elif_list(t, r.1);
            (seq![x] + rest.0, rest.1)
        } else {
            (seq![x], r.1)
        },
    }
}

/// One or more `elif` branches with an optional `else` branch after them; or
/// else a lone `else` branch.
#[verifier::opaque]
pub open spec fn spec_else_clauses(t: Seq<SpecToken>, s: PState) -> Step<Seq<SpecElse>>
    decreases rem_of(t, s), 10nat,
{
    let s1 = enter(t, s);
    let r1 = if mono(t, s, s1) {
        spec_elif_list(t, s1)
    } else {
        (Seq::empty(), s1)
    };
    let a1 = if r1.0.len() > 0 {
        let r2 = if adv(t, s, r1.1) {
            spec_else_clause(t, r1.1)
        } else {
            (None, r1.1)
        };
        match r2.0 {
            Some(b) => (Some(r1.0.push(b)), r2.1),
            None => (Some(r1.0), r2.1),
        }
    } else {
        (None, r1.1)
    };
    commit(
        s,
        if a1.0 is Some {
            a1
        } else {
            let s2 = restore(s1, a1.1);
            let r3 = if mono(t, s, s2) {
                spec_else_clause(t, s2)
            } else {
                (None, s2)
            };
            match r3.0 {
                Some(b) => (Some(seq![b]), r3.1),
                None => (None, r3.1),
            }
        },
    )
}

/// `if`, a condition block, `then`, a block, optional branches, `fi`.
#[verifier::opaque]
pub open spec fn spec_if_clause(t: Seq<SpecToken>, s: PState) -> Step<SpecIf>
    decreases rem_of(t, s), 11nat,
{
    let s1 = enter(t, s);
    let r1 = spec_consume(t, s1, SpecToken::Word("if"@));
    commit(
        s,
        match r1.0 {
            None => (None, r1.1),
            Some(_) => {
                let r2 = if adv(t, s, r1.1) {
                    spec_compound_block(t, r1.1)
                } else {
                    (None, r1.1)
                };
                match r2.0 {
                    None => (None, r2.1),
                    Some(cond) => {
                        let r3 = spec_consume(t, r2.1, SpecToken::Word("then"@));
                        match r3.0 {
                            None => (None, r3.1),
                            Some(_) => {
                                let r4 = if adv(t, s, r3.1) {
                                    spec_compound_block(t, r3.1)
                                } else {
                                    (None, r3.1)
                                };
                                match r4.0 {
                                    None => (None, r4.1),
                                    Some(then_block) => {
                                        let r5 = if adv(t, s, r4.1) {
                                            spec_else_clauses(t, r4.1)
                                        } else {
                                            (None, r4.1)
                                        };
                                        let r6 = spec_consume(t, r5.1, SpecToken::Word("fi"@));
                                        match r6.0 {
                                            None => (None, r6.1),
                                            Some(_) => (
                                                Some(SpecIf { cond, then_block, branches: r5.0 }),
                                                r6.1,
                                            ),
                                        }
                                    },
                                }
                            },
                        }
                    },
                }
            },
        },
    )
}

impl<'p> Parser<'p> {
    pub fn if_clause(&mut self) -> (r: Option<If>)
        ensures
            parsed(
                *old(self),
                *final(self),
                r.deep_view(),
                spec_if_clause(old(self).toks(), old(self).st()),
            ),
            moved(*old(self), *final(self), r),
        decreases old(self).rem(), 11nat,
    {
        proof {
            reveal_with_fuel(spec_if_clause, 1);
            reveal_with_fuel(spec_compound_block, 1);
            reveal_with_fuel(spec_else_clauses, 1);
        }
        let ghost t = self.toks();
        let ghost s0 = self.st();
        proof {
            lemma_enter(t, s0);
        }
        let snap = self.begin();
        if self.consume(Token::word("if")).is_none() {
            self.abort(snap);
            return None;
        }
        let cond = match self.compound_block() {
            Some(b) => b,
            None => {
                self.abort(snap);
                return None;
            },
        };
        if self.consume(Token::word("then")).is_none() {
            self.abort(snap);
            return None;
        }
        let then_block = match self.compound_block() {
            Some(b) => b,
            None => {
                self.abort(snap);
                return None;
            },
        };
        let branches = self.else_clauses();
        if self.consume(Token::word("fi")).is_none() {
            self.abort(snap);
            return None;
        }
        let res = If { cond, then_block, branches };
        proof {
            match &res.branches {
                Some(v) => {
                    assert(v.deep_view() =~= res.model().branches.unwrap());
                },
                None => {},
            }
        }
        Some(res)
    }

    fn else_clauses(&mut self) -> (r: Option<Vec<Else>>)
        ensures
            parsed(
                *old(self),
                *final(self),
                r.deep_view(),
                spec_else_clauses(old(self).toks(), old(self).st()),
            ),
            moved(*old(self), *final(self), r),
        decreases old(self).rem(), 10nat,
    {
        proof {
            reveal_with_fuel(spec_else_clauses, 1);
            reveal_with_fuel(spec_elif_list, 1);
            reveal_with_fuel(spec_else_clause, 1);
        }
        let ghost t = self.toks();
        let ghost s0 = self.st();
        proof {
            lemma_enter(t, s0);
        }
        let snap = self.begin();
        let p = self.pos();
        let mut branches = self.elif_list(Ghost(s0));
        if branches.len() > 0 {
            if let Some(branch) = self.else_clause() {
                let ghost prev = branches.deep_view();
                branches.push(branch);
                assert(branches.deep_view() =~= prev.push(branch.model()));
            }
            return Some(branches);
        }
        self.reset_pos(p);
        match self.else_clause() {
            Some(branch) => {
                let mut v: Vec<Else> = Vec::new();
                v.push(branch);
                assert(v.deep_view() =~= seq![branch.model()]);
                Some(v)
            },
            None => {
                self.abort(snap);
                None
            },
        }
    }

    /// `elif` branches, as many as there are.
    fn elif_list(&mut self, Ghost(s): Ghost<PState>) -> (r: Vec<Else>)
        requires
            mono(old(self).toks(), s, old(self).st()),
        ensures
            final(self).toks() == old(self).toks(),
            (r.deep_view(), final(self).st()) == spec_elif_list(old(self).toks(), old(self).st()),
            r.len() > 0 ==> adv(old(self).toks(), old(self).st(), final(self).st()),
            r.len() == 0 ==> final(self).st().pos == old(self).st().pos,
        decreases rem_of(old(self).toks(), s), 9nat,
    {
        proof {
            reveal_with_fuel(spec_elif_list, 1);
            reveal_with_fuel(spec_elif_clause, 1);
        }
        let ghost t = self.toks();
        let ghost s1 = self.st();
        let mut acc: Vec<Else> = Vec::new();
        loop
            invariant_except_break
                self.toks() == t,
                t == old(self).toks(),
                mono(t, s, s1),
                spec_elif_list(t, s1).0 == acc.deep_view() + spec_elif_list(t, self.st()).0,
                spec_elif_list(t, s1).1 == spec_elif_list(t, self.st()).1,
                acc.len() > 0 ==> adv(t, s1, self.st()),
                acc.len() == 0 ==> self.st().pos == s1.pos,
            ensures
                self.toks() == t,
                spec_elif_list(t, s1).0 == acc.deep_view(),
                spec_elif_list(t, s1).1 == self.st(),
                acc.len() > 0 ==> adv(t, s1, self.st()),
                acc.len() == 0 ==> self.st().pos == s1.pos,
            decreases self.rem(),
        {
            proof {
                reveal_with_fuel(spec_elif_list, 1);
                reveal_with_fuel(spec_elif_clause, 1);
            }
            let ghost before = self.st();
            match self.elif_clause() {
                Some(x) => {
                    let ghost prev = acc.deep_view();
                    proof {
                        lemma_push_concat(prev, x.model(), spec_elif_list(t, self.st()).0);
                    }
                    acc.push(x);
                    assert(acc.deep_view() =~= prev.push(x.model()));
                },
                None => {
                    assert(spec_elif_clause(t, before).0 is None);
                    proof {
                        reveal_with_fuel(spec_elif_list, 2);
                        reveal_with_fuel(spec_elif_clause, 1);
                    }
                    assert(spec_elif_list(t, before) == (Seq::<SpecElse>::empty(), spec_elif_clause(t, before).1));
                    assert(spec_elif_list(t, before).0 == Seq::<SpecElse>::empty());
                    assert(spec_elif_list(t, before).1 == self.st());
                    proof {
                        lemma_push_concat(acc.deep_view(), arbitrary(), Seq::empty());
                    }
                    break;
                },
            }
        }
        acc
    }

    fn elif_clause(&mut self) -> (r: Option<Else>)
        ensures
            parsed(
                *old(self),
                *final(self),
                r.deep_view(),
                spec_elif_clause(old(self).toks(), old(self).st()),
            ),
            moved(*old(self), *final(self), r),
        decreases old(self).rem(), 8nat,
    {
        proof {
            reveal_with_fuel(spec_elif_clause, 1);
            reveal_with_fuel(spec_compound_block, 1);
        }
        let ghost t = self.toks();
        let ghost s0 = self.st();
        proof {
            lemma_enter(t, s0);
        }
        let snap = self.begin();
        if self.consume(Token::word("elif")).is_none() {
            self.abort(snap);
            return None;
        }
        let cond = match self.compound_block() {
            Some(b) => b,
            None => {
                self.abort(snap);
                return None;
            },
        };
        if self.consume(Token::word("then")).is_none() {
            self.abort(snap);
            return None;
        }
        let block = match self.compound_block() {
            Some(b) => b,
            None => {
                self.abort(snap);
                return None;
            },
        };
        Some(Else { cond: Some(cond), block })
    }

    fn else_clause(&mut self) -> (r: Option<Else>)
        ensures
            parsed(
                *old(self),
                *final(self),
                r.deep_view(),
                spec_else_clause(old(self).toks(), old(self).st()),
            ),
            moved(*old(self), *final(self), r),
        decreases old(self).rem(), 8nat,
    {
        proof {
            reveal_with_fuel(spec_else_clause, 1);
            reveal_with_fuel(spec_compound_block, 1);
        }
        let ghost t = self.toks();
        let ghost s0 = self.st();
        proof {
            lemma_enter(t, s0);
        }
        let snap = self.begin();
        if self.consume(Token::word("else")).is_none() {
            self.abort(snap);
            return None;
        }
        let block = match self.compound_block() {
            Some(b) => b,
            None => {
                self.abort(snap);
                return None;
            },
        };
        Some(Else { cond: None, block })
    }
}


impl Else {
    pub fn display(&self) -> (r: String)
        requires
            else_text(self.model()) is Some,
        ensures
            Some(r@) == else_text(self.model()),
        decreases self,
    {
        let mut s = owned("\n");
        match &self.cond {
            Some(c) => {
                push_str(&mut s, "elif ");
                let t = c.display();
                push_str(&mut s, t.as_str());
                push_str(&mut s, "; then\n");
            },
            None => {
                push_str(&mut s, "else\n");
            },
        }
        let b = self.block.display();
        let inner = indent(b.as_str(), "    ");
        push_str(&mut s, inner.as_str());
        s
    }
}

impl If {
    pub fn display(&self) -> (r: String)
        requires
            if_text(self.model()) is Some,
        ensures
            Some(r@) == if_text(self.model()),
        decreases self,
    {
        let mut s = owned("if ");
        let c = self.cond.display();
        push_str(&mut s, c.as_str());
        push_str(&mut s, "; then\n");
        let b = self.then_block.display();
        let inner = indent(b.as_str(), "    ");
        push_str(&mut s, inner.as_str());
        let ghost head = s@;
        if let Some(branches) = &self.branches {
            let ghost es = self.model().branches.unwrap();
            assert(es.len() == branches@.len());
            let n = branches.len();
            let mut i: usize = 0;
            assert(cat(Some(head), elses_text(es, 0)) == cat(Some(s@), elses_text(es, 0)));
            while i < n
                invariant
                    i <= n,
                    n == branches@.len(),
                    self.branches is Some,
                    self.branches->0 == *branches,
                    es == self.model().branches.unwrap(),
                    es.len() == n,
                    if_text(self.model()) is Some,
                    elses_text(es, 0) is Some,
                    cat(Some(head), elses_text(es, 0)) == cat(Some(s@), elses_text(es, i as int)),
                decreases n - i,
            {
                proof {
                    lemma_cat_assoc(Some(s@), else_text(es[i as int]), elses_text(es, i as int + 1));
                    assert(es[i as int] == branches@[i as int].model());
                    assert(decreases_to!(self => self.branches));
                    assert(decreases_to!(self.branches => self.branches->0));
                    assert(decreases_to!(self.branches->0 => self.branches->0@));
                    assert(decreases_to!(self.branches->0@ => self.branches->0@[i as int]));
                }
                let t = branches[i].display();
                push_str(&mut s, t.as_str());
                i = i + 1;
            }
            assert(s@ + Seq::<char>::empty() =~= s@);
        }
        push_str(&mut s, "\n");
        push_str(&mut s, "fi");
        proof {
            if self.branches is None {
                assert(head + Seq::<char>::empty() =~= head);
            }
        }
        s
    }
}

} // verus!
