//! Process substitution: `<(...)` and `>(...)`.

use vstd::prelude::*;

use crate::ast::command::compound::subshell::{SpecSubshell, Subshell};
use crate::text::owned;

verus! {

#[derive(Debug, PartialEq, Eq)]
pub struct ProcSubstitution {
    kind: Kind,
    command: Subshell,
}

#[derive(Debug, Clone, Copy, PartialEq, Eq, Structural)]
pub enum Kind {
    /// the process is read from.
    Read,
    /// the process is written to.
    Write,
}

/// The text of a process substitution kind.
pub open spec fn kind_text(k: Kind) -> Seq<char> {
    match k {
        Kind::Read => "<"@,
        Kind::Write => ">"@,
    }
}

impl Kind {
    pub fn display(&self) -> (r: String)
        ensures
            r@ == kind_text(*self),
    {
        match self {
            Kind::Read => owned("<"),
            Kind::Write => owned(">"),
        }
    }
}

impl ProcSubstitution {
    /// The kind of the substitution.
    pub closed spec fn spec_kind(&self) -> Kind {
        self.kind
    }

    /// The command as a value.
    pub closed spec fn spec_command(&self) -> SpecSubshell {
        self.command.model()
    }

    pub fn new(kind: Kind, command: Subshell) -> (r: Self)
        ensures
            r.spec_kind() == kind,
            r.spec_command() == command.model(),
    {
        ProcSubstitution { kind, command }
    }

    pub fn kind(&self) -> (r: &Kind)
        ensures
            *r == self.spec_kind(),
    {
        &self.kind
    }

    pub fn command(&self) -> (r: &Subshell)
        ensures
            r.model() == self.spec_command(),
    {
        &self.command
    }
}

} // verus!
