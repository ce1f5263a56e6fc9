//! `while` loops.

use vstd::prelude::*;

use crate::ast::render::while_text;
use crate::text::{owned, push_str};

use crate::ast::command::compound::do_scope::{spec_do_scope, DoScope, SpecDoScope};
use crate::ast::command::compound::{spec_compound_block, CompoundBlock, SpecCompoundBlock};
use crate::parser_v2::{
    adv, commit, enter, lemma_enter, moved, parsed, rem_of, spec_consume, PState, Parser, Step,
};
use crate::tokens::{SpecToken, Token};

verus! {

#[derive(Debug, PartialEq, Eq)]
pub struct While {
    cond: CompoundBlock,
    scope: DoScope,
}

/// While as a value.
pub struct SpecWhile {
    pub cond: SpecCompoundBlock,
    pub scope: SpecDoScope,
}

impl While {
    pub closed spec fn model(&self) -> SpecWhile
        decreases self,
    {
        SpecWhile { cond: self.cond.model(), scope: self.scope.model() }
    }

    /// The condition block.
    pub fn cond(&self) -> (r: &CompoundBlock)
        ensures
            r.model() == self.model().cond,
    {
        &self.cond
    }

    /// The body.
    pub fn scope(&self) -> (r: &DoScope)
        ensures
            r.model() == self.model().scope,
    {
        &self.scope
    }
}

impl DeepView for While {
    type V = SpecWhile;

    open spec fn deep_view(&self) -> SpecWhile {
        self.model()
    }
}

/// `while`, a condition block, then a `do ... done` body.
#[verifier::opaque]
pub open spec fn spec_while_clause(t: Seq<SpecToken>, s: PState) -> Step<SpecWhile>
    decreases rem_of(t, s), 11nat,
{
    let s1 = enter(t, s);
    let r1 = spec_consume(t, s1, SpecToken::Word("while"@));
    commit(
        s,
        match r1.0 {
            None => (None, r1.1),
            Some(_) => {
                let r2 = if adv(t, s, r1.1) {
                    spec_compound_block(t, r1.1)
                } else {
                    (None, r1.1)
                };
                match r2.0 {
                    None => (None, r2.1),
                    Some(cond) => {
                        let r3 = if adv(t, s, r2.1) {
                            spec_do_scope(t, r2.1)
                        } else {
                            (None, r2.1)
                        };
                        match r3.0 {
                            None => (None, r3.1),
                            Some(scope) => (Some(SpecWhile { cond, scope }), r3.1),
                        }
                    },
                }
            },
        },
    )
}

impl<'p> Parser<'p> {
    pub fn while_clause(&mut self) -> (r: Option<While>)
        ensures
            parsed(
                *old(self),
                *final(self),
                r.deep_view(),
                spec_while_clause(old(self).toks(), old(self).st()),
            ),
            moved(*old(self), *final(self), r),
        decreases old(self).rem(), 11nat,
    {
        proof {
            reveal_with_fuel(spec_while_clause, 1);
            reveal_with_fuel(spec_compound_block, 1);
            reveal_with_fuel(spec_do_scope, 1);
        }
        let ghost t = self.toks();
        let ghost s0 = self.st();
        proof {
            lemma_enter(t, s0);
        }
        let snap = self.begin();
        if self.consume(Token::word("while")).is_none() {
            self.abort(snap);
            return None;
        }
        let cond = match self.compound_block() {
            Some(b) => b,
            None => {
                self.abort(snap);
                return None;
            },
        };
        let scope = match self.do_scope() {
            Some(d) => d,
            None => {
                self.abort(snap);
                return None;
            },
        };
        Some(While { cond, scope })
    }
}


impl While {
    pub fn display(&self) -> (r: String)
        requires
            while_text(self.model()) is Some,
        ensures
            Some(r@) == while_text(self.model()),
        decreases self,
    {
        let c = self.cond.display();
        let d = self.scope.display();
        let mut s = owned("while ");
        push_str(&mut s, c.as_str());
        push_str(&mut s, "; ");
        push_str(&mut s, d.as_str());
        s
    }
}

} // verus!
