//! Commands: simple commands and compound commands.

pub mod arithmetic;
pub mod compound;
pub mod simple;

use vstd::prelude::*;

use crate::ast::render::{cat, command_text, compound_text};
use crate::text::push_str;

use crate::ast::redirect::{spec_redirects, Redirects, SpecRedirects};
use crate::parser_v2::{
    commit, enter, lemma_enter, mono, moved, parsed, rem_of, restore, PState, Parser, Step,
};
use crate::tokens::SpecToken;
use self::compound::{spec_compound_command, CompoundCommand, SpecCompoundCommand};
use self::simple::{spec_simple_command, SimpleCommand, SpecSimpleCommand};

verus! {

#[derive(Debug, PartialEq, Eq)]
pub enum Command {
    Simple(SimpleCommand),
    Compound(CompoundCommand, Option<Redirects>),
    Function(),
}

/// A command as a value.
pub enum SpecCommand {
    Simple(SpecSimpleCommand),
    Compound(SpecCompoundCommand, Option<SpecRedirects>),
    Function,
}

impl Command {
    pub closed spec fn model(&self) -> SpecCommand
        decreases self,
    {
        match self {
            Command::Simple(c) => SpecCommand::Simple(c.model()),
            Command::Compound(c, r) => SpecCommand::Compound(c.model(), r.deep_view()),
            Command::Function() => SpecCommand::Function,
        }
    }
}

impl DeepView for Command {
    type V = SpecCommand;

    open spec fn deep_view(&self) -> SpecCommand {
        self.model()
    }
}

/// A simple command, or else a compound command with optional redirections.
#[verifier::opaque]
pub open spec fn spec_command(t: Seq<SpecToken>, s: PState) -> Step<SpecCommand>
    decreases rem_of(t, s), 14nat,
{
    let s1 = enter(t, s);
    let r1 = spec_simple_command(t, s1);
    commit(
        s,
        match r1.0 {
            Some(c) => (Some(SpecCommand::Simple(c)), r1.1),
            None => {
                let s2 = restore(s1, r1.1);
                let r2 = if mono(t, s, s2) {
                    spec_compound_command(t, s2)
                } else {
                    (None, s2)
                };
                match r2.0 {
                    None => (None, r2.1),
                    Some(c) => {
                        let r3 = spec_redirects(t, r2.1);
                        (Some(SpecCommand::Compound(c, r3.0)), r3.1)
                    },
                }
            },
        },
    )
}

impl<'p> Parser<'p> {
    pub fn command(&mut self) -> (r: Option<Command>)
        ensures
            parsed(
                *old(self),
                *final(self),
                r.deep_view(),
                spec_command(old(self).toks(), old(self).st()),
            ),
            moved(*old(self), *final(self), r),
        decreases old(self).rem(), 14nat,
    {
        proof {
            reveal_with_fuel(spec_command, 1);
            reveal_with_fuel(spec_compound_command, 1);
        }
        let ghost t = self.toks();
        let ghost s0 = self.st();
        proof {
            lemma_enter(t, s0);
        }
        let snap = self.begin();
        let p = self.pos();
        if let Some(c) = self.simple_command() {
            return Some(Command::Simple(c));
        }
        self.reset_pos(p);
        match self.compound_command() {
            Some(cmd) => {
                let redirects = self.redirects();
                Some(Command::Compound(cmd, redirects))
            },
            None => {
                self.abort(snap);
                None
            },
        }
    }
}


impl Command {
    /// The command as text; a function definition cannot be written.
    pub fn display(&self) -> (r: String)
        requires
            command_text(self.model()) is Some,
        ensures
            Some(r@) == command_text(self.model()),
        decreases self,
    {
        match self {
            Command::Simple(c) => c.display(),
            Command::Compound(c, redirects) => {
                let mut s = c.display();
                if let Some(rs) = redirects {
                    let t = rs.display();
                    push_str(&mut s, t.as_str());
                } else {
                    assert(s@ + Seq::<char>::empty() =~= s@);
                }
                s
            },
            Command::Function() => {
                assert(false);
                String::new()
            },
        }
    }
}

} // verus!
