//! Command groups between braces: `{ ... }`.

use vstd::prelude::*;

use crate::ast::render::{indent, scope_text};
use crate::text::{owned, push_str};

use crate::ast::command::compound::{spec_compound_block, CompoundBlock, SpecCompoundBlock};
use crate::parser_v2::{
    adv, commit, enter, lemma_enter, moved, parsed, rem_of, spec_consume, PState, Parser, Step,
};
use crate::tokens::{spec_close_paren, spec_curly_close, spec_curly_open, spec_open_paren, Paren, SpecToken, Token};

verus! {

/// A block between `{` and `}`.
#[derive(Debug, PartialEq, Eq)]
pub struct Scope(CompoundBlock);

/// Scope as a value.
pub struct SpecScope(pub SpecCompoundBlock);

impl Scope {
    pub closed spec fn model(&self) -> SpecScope
        decreases self,
    {
        SpecScope(self.0.model())
    }

    /// The block inside.
    pub fn block(&self) -> (r: &CompoundBlock)
        ensures
            r.model() == self.model().0,
    {
        &self.0
    }
}

impl DeepView for Scope {
    type V = SpecScope;

    open spec fn deep_view(&self) -> SpecScope {
        self.model()
    }
}

#[verifier::opaque]
pub open spec fn spec_scope(t: Seq<SpecToken>, s: PState) -> Step<SpecScope>
    decreases rem_of(t, s), 11nat,
{
    let s1 = enter(t, s);
    let r1 = spec_consume(t, s1, SpecToken::Paren(spec_curly_open()));
    commit(
        s,
        match r1.0 {
            None => (None, r1.1),
            Some(_) => {
                let r2 = if adv(t, s, r1.1) {
                    spec_compound_block(t, r1.1)
                } else {
                    (None, r1.1)
                };
                match r2.0 {
                    None => (None, r2.1),
                    Some(b) => {
                        let r3 = spec_consume(t, r2.1, SpecToken::Paren(spec_curly_close()));
                        match r3.0 {
                            None => (None, r3.1),
                            Some(_) => (Some(SpecScope(b)), r3.1),
                        }
                    },
                }
            },
        },
    )
}

impl<'p> Parser<'p> {
    pub fn scope(&mut self) -> (r: Option<Scope>)
        ensures
            parsed(
                *old(self),
                *final(self),
                r.deep_view(),
                spec_scope(old(self).toks(), old(self).st()),
            ),
            moved(*old(self), *final(self), r),
        decreases old(self).rem(), 11nat,
    {
        proof {
            reveal_with_fuel(spec_scope, 1);
            reveal_with_fuel(spec_compound_block, 1);
        }
        let ghost t = self.toks();
        let ghost s0 = self.st();
        proof {
            lemma_enter(t, s0);
        }
        let snap = self.begin();
        if self.consume(Token::Paren(Paren::curly_open())).is_none() {
            self.abort(snap);
            return None;
        }
        let cmd = match self.compound_block() {
            Some(b) => b,
            None => {
                self.abort(snap);
                return None;
            },
        };
        if self.consume(Token::Paren(Paren::curly_close())).is_none() {
            self.abort(snap);
            return None;
        }
        Some(Scope(cmd))
    }
}


impl Scope {
    pub fn display(&self) -> (r: String)
        requires
            scope_text(self.model()) is Some,
        ensures
            Some(r@) == scope_text(self.model()),
        decreases self,
    {
        let b = self.0.display();
        let inner = indent(b.as_str(), "    ");
        let mut s = owned("{ \n");
        push_str(&mut s, inner.as_str());
        push_str(&mut s, "\n}");
        s
    }
}

} // verus!
