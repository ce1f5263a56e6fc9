//! Subshells: `( ... )`.

use vstd::prelude::*;

use crate::ast::render::subshell_text;
use crate::text::{owned, push_str};

use crate::ast::command::compound::{spec_compound_block, CompoundBlock, SpecCompoundBlock};
use crate::parser_v2::{
    adv, commit, enter, lemma_enter, moved, parsed, rem_of, spec_consume, PState, Parser, Step,
};
use crate::tokens::{spec_close_paren, spec_curly_close, spec_curly_open, spec_open_paren, Paren, SpecToken, Token};

verus! {

/// A block between `(` and `)`, run in a subshell.
#[derive(Debug, PartialEq, Eq)]
pub struct Subshell(CompoundBlock);

/// Subshell as a value.
pub struct SpecSubshell(pub SpecCompoundBlock);

impl Subshell {
    pub closed spec fn model(&self) -> SpecSubshell
        decreases self,
    {
        SpecSubshell(self.0.model())
    }

    /// The block inside.
    pub fn block(&self) -> (r: &CompoundBlock)
        ensures
            r.model() == self.model().0,
    {
        &self.0
    }
}

impl DeepView for Subshell {
    type V = SpecSubshell;

    open spec fn deep_view(&self) -> SpecSubshell {
        self.model()
    }
}

#[verifier::opaque]
pub open spec fn spec_subshell(t: Seq<SpecToken>, s: PState) -> Step<SpecSubshell>
    decreases rem_of(t, s), 11nat,
{
    let s1 = enter(t, s);
    let r1 = spec_consume(t, s1, SpecToken::Paren(spec_open_paren()));
    commit(
        s,
        match r1.0 {
            None => (None, r1.1),
            Some(_) => {
                let r2 = if adv(t, s, r1.1) {
                    spec_compound_block(t, r1.1)
                } else {
                    (None, r1.1)
                };
                match r2.0 {
                    None => (None, r2.1),
                    Some(b) => {
                        let r3 = spec_consume(t, r2.1, SpecToken::Paren(spec_close_paren()));
                        match r3.0 {
                            None => (None, r3.1),
                            Some(_) => (Some(SpecSubshell(b)), r3.1),
                        }
                    },
                }
            },
        },
    )
}

impl<'p> Parser<'p> {
    pub fn subshell(&mut self) -> (r: Option<Subshell>)
        ensures
            parsed(
                *old(self),
                *final(self),
                r.deep_view(),
                spec_subshell(old(self).toks(), old(self).st()),
            ),
            moved(*old(self), *final(self), r),
        decreases old(self).rem(), 11nat,
    {
        proof {
            reveal_with_fuel(spec_subshell, 1);
            reveal_with_fuel(spec_compound_block, 1);
        }
        let ghost t = self.toks();
        let ghost s0 = self.st();
        proof {
            lemma_enter(t, s0);
        }
        let snap = self.begin();
        if self.consume(Token::Paren(Paren::open())).is_none() {
            self.abort(snap);
            return None;
        }
        let cmd = match self.compound_block() {
            Some(b) => b,
            None => {
                self.abort(snap);
                return None;
            },
        };
        if self.consume(Token::Paren(Paren::close())).is_none() {
            self.abort(snap);
            return None;
        }
        Some(Subshell(cmd))
    }
}


impl Subshell {
    pub fn display(&self) -> (r: String)
        requires
            subshell_text(self.model()) is Some,
        ensures
            Some(r@) == subshell_text(self.model()),
        decreases self,
    {
        let b = self.0.display();
        let mut s = owned("( ");
        push_str(&mut s, b.as_str());
        push_str(&mut s, " )");
        s
    }
}

} // verus!
