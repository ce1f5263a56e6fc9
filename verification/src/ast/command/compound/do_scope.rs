//! Loop bodies: `do ... done`.

use vstd::prelude::*;

use crate::ast::render::{do_scope_text, indent};
use crate::text::{owned, push_str};

use crate::ast::command::compound::{spec_compound_block, CompoundBlock, SpecCompoundBlock};
use crate::parser_v2::{
    adv, commit, enter, lemma_enter, moved, parsed, rem_of, spec_consume, PState, Parser, Step,
};
use crate::tokens::{spec_close_paren, spec_curly_close, spec_curly_open, spec_open_paren, Paren, SpecToken, Token};

verus! {

/// A block between `do` and `done`.
#[derive(Debug, PartialEq, Eq)]
pub struct DoScope(CompoundBlock);

/// DoScope as a value.
pub struct SpecDoScope(pub SpecCompoundBlock);

impl DoScope {
    pub closed spec fn model(&self) -> SpecDoScope
        decreases self,
    {
        SpecDoScope(self.0.model())
    }

    /// The block inside.
    pub fn block(&self) -> (r: &CompoundBlock)
        ensures
            r.model() == self.model().0,
    {
        &self.0
    }
}

impl DeepView for DoScope {
    type V = SpecDoScope;

    open spec fn deep_view(&self) -> SpecDoScope {
        self.model()
    }
}

#[verifier::opaque]
pub open spec fn spec_do_scope(t: Seq<SpecToken>, s: PState) -> Step<SpecDoScope>
    decreases rem_of(t, s), 10nat,
{
    let s1 = enter(t, s);
    let r1 = spec_consume(t, s1, SpecToken::Word("do"@));
    commit(
        s,
        match r1.0 {
            None => (None, r1.1),
            Some(_) => {
                let r2 = if adv(t, s, r1.1) {
                    spec_compound_block(t, r1.1)
                } else {
                    (None, r1.1)
                };
                match r2.0 {
                    None => (None, r2.1),
                    Some(b) => {
                        let r3 = spec_consume(t, r2.1, SpecToken::Word("done"@));
                        match r3.0 {
                            None => (None, r3.1),
                            Some(_) => (Some(SpecDoScope(b)), r3.1),
                        }
                    },
                }
            },
        },
    )
}

impl<'p> Parser<'p> {
    pub fn do_scope(&mut self) -> (r: Option<DoScope>)
        ensures
            parsed(
                *old(self),
                *final(self),
                r.deep_view(),
                spec_do_scope(old(self).toks(), old(self).st()),
            ),
            moved(*old(self), *final(self), r),
        decreases old(self).rem(), 10nat,
    {
        proof {
            reveal_with_fuel(spec_do_scope, 1);
            reveal_with_fuel(spec_compound_block, 1);
        }
        let ghost t = self.toks();
        let ghost s0 = self.st();
        proof {
            lemma_enter(t, s0);
        }
        let snap = self.begin();
        if self.consume(Token::word("do")).is_none() {
            self.abort(snap);
            return None;
        }
        let cmd = match self.compound_block() {
            Some(b) => b,
            None => {
                self.abort(snap);
                return None;
            },
        };
        if self.consume(Token::word("done")).is_none() {
            self.abort(snap);
            return None;
        }
        Some(DoScope(cmd))
    }
}


impl DoScope {
    pub fn display(&self) -> (r: String)
        requires
            do_scope_text(self.model()) is Some,
        ensures
            Some(r@) == do_scope_text(self.model()),
        decreases self,
    {
        let mut b = self.0.display();
        push_str(&mut b, "\n");
        let inner = indent(b.as_str(), "    ");
        let mut s = owned("do\n");
        push_str(&mut s, inner.as_str());
        push_str(&mut s, "done");
        s
    }
}

} // verus!
