//! A whole program: complete commands separated by newlines.

use vstd::prelude::*;

use crate::ast::render::{block_text, blocks_text, cat, lemma_cat_assoc, program_text};
use crate::text::push_str;

use crate::ast::command::compound::{
    block_items, spec_cmd_separator, CompoundBlock, Separator, SpecCompoundBlock,
};
use crate::ast::pipeline::{spec_pipeline_seq, PipelineSeq, SpecPipelineSeq};
use crate::ast::{spec_linebreak, spec_required_linebreak};
use crate::parser_v2::{
    adv, commit, enter, lemma_enter, lemma_push_concat, lemma_rep_unfold, mono, moved, parsed,
    rep, restore, PState, Parser, Step,
};
use crate::tokens::SpecToken;

verus! {

/// A complete command: a block of pipeline sequences with their separators.
pub type CompleteCommand = CompoundBlock;

#[derive(Debug, PartialEq, Eq)]
pub struct Program {
    cmds: Vec<CompleteCommand>,
}

/// A program as a value.
#[verifier::ext_equal]
pub struct SpecProgram {
    pub cmds: Seq<SpecCompoundBlock>,
}

impl Program {
    pub closed spec fn model(&self) -> SpecProgram {
        SpecProgram {
            cmds: Seq::new(
                self.cmds@.len(),
                |i: int|
                    if 0 <= i < self.cmds@.len() {
                        self.cmds@[i].model()
                    } else {
                        arbitrary()
                    },
            ),
        }
    }

    /// The complete commands of the program, in order.
    pub fn cmds(&self) -> (r: &Vec<CompleteCommand>)
        ensures
            r.deep_view() == self.model().cmds,
    {
        assert(self.cmds.deep_view() =~= self.model().cmds);
        &self.cmds
    }
}

impl DeepView for Program {
    type V = SpecProgram;

    open spec fn deep_view(&self) -> SpecProgram {
        self.model()
    }
}

/// A command separator followed by a pipeline sequence.
#[verifier::opaque]
pub open spec fn spec_command_part(t: Seq<SpecToken>, s: PState) -> Step<
    (Separator, SpecPipelineSeq),
> {
    let s1 = enter(t, s);
    let r1 = spec_cmd_separator(t, s1);
    commit(
        s,
        match r1.0 {
            None => (None, r1.1),
            Some(sep) => {
                let r2 = spec_pipeline_seq(t, r1.1);
                match r2.0 {
                    None => (None, r2.1),
                    Some(seq) => (Some((sep, seq)), r2.1),
                }
            },
        },
    )
}

pub open spec fn command_part_fn(t: Seq<SpecToken>) -> spec_fn(PState) -> Step<
    (Separator, SpecPipelineSeq),
> {
    |s: PState| spec_command_part(t, s)
}

/// A pipeline sequence, more pipeline sequences each after a command
/// separator, and an optional separator at the end.
#[verifier::opaque]
pub open spec fn spec_complete_command(t: Seq<SpecToken>, s: PState) -> Step<SpecCompoundBlock> {
    let s1 = enter(t, s);
    let r1 = spec_pipeline_seq(t, s1);
    commit(
        s,
        match r1.0 {
            None => (None, r1.1),
            Some(fst) => {
                let rest = rep(command_part_fn(t), t, r1.1);
                let r3 = spec_cmd_separator(t, rest.1);
                let last = match r3.0 {
                    Some(sep) => sep,
                    None => Separator::Sequential,
                };
                (Some(SpecCompoundBlock(block_items(fst, rest.0, last))), r3.1)
            },
        },
    )
}

/// Newlines, then a complete command. When the newlines are there and the
/// command is not, the newlines stay read.
pub open spec fn next_command(t: Seq<SpecToken>, s: PState) -> Step<SpecCompoundBlock> {
    let r1 = spec_required_linebreak(t, s);
    match r1.0 {
        None => (None, r1.1),
        Some(_) => spec_complete_command(t, r1.1),
    }
}

pub open spec fn next_command_fn(t: Seq<SpecToken>) -> spec_fn(PState) -> Step<
    SpecCompoundBlock,
> {
    |s: PState| next_command(t, s)
}

/// One or more complete commands separated by newlines.
#[verifier::opaque]
pub open spec fn spec_complete_commands(t: Seq<SpecToken>, s: PState) -> Step<
    Seq<SpecCompoundBlock>,
> {
    let s1 = enter(t, s);
    let r1 = spec_complete_command(t, s1);
    commit(
        s,
        match r1.0 {
            None => (None, r1.1),
            Some(first) => {
                let rest = rep(next_command_fn(t), t, r1.1);
                (Some(seq![first] + rest.0), rest.1)
            },
        },
    )
}

/// Complete commands between optional newlines; failing that, newlines alone,
/// which make an empty program.
#[verifier::opaque]
pub open spec fn spec_program(t: Seq<SpecToken>, s: PState) -> Step<SpecProgram> {
    let s1 = enter(t, s);
    let r1 = spec_linebreak(t, s1);
    let r2 = spec_complete_commands(t, r1.1);
    let a = match r2.0 {
        None => (None, r2.1),
        Some(cmds) => (Some(SpecProgram { cmds }), spec_linebreak(t, r2.1).1),
    };
    commit(
        s,
        if a.0 is Some {
            a
        } else {
            let r4 = spec_linebreak(t, restore(s1, a.1));
            (Some(SpecProgram { cmds: Seq::empty() }), r4.1)
        },
    )
}

impl<'p> Parser<'p> {
    /// A whole program. It never fails: input with no command in it is the
    /// empty program.
    pub fn program(&mut self) -> (r: Option<Program>)
        ensures
            parsed(
                *old(self),
                *final(self),
                r.deep_view(),
                spec_program(old(self).toks(), old(self).st()),
            ),
            r is Some,
    {
        proof {
            reveal(spec_program);
        }
        let ghost t = self.toks();
        let ghost s0 = self.st();
        proof {
            lemma_enter(t, s0);
        }
        let _snap = self.begin();
        let p = self.pos();
        let _ = self.linebreak();
        if let Some(cmds) = self.complete_commands() {
            let _ = self.linebreak();
            let res = Program { cmds };
            assert(res.model().cmds =~= cmds.deep_view());
            return Some(res);
        }
        self.reset_pos(p);
        let _ = self.linebreak();
        let res = Program { cmds: Vec::new() };
        assert(res.model().cmds =~= Seq::<SpecCompoundBlock>::empty());
        Some(res)
    }

    /// Complete commands separated by newlines; at least one.
    pub fn complete_commands(&mut self) -> (r: Option<Vec<CompleteCommand>>)
        ensures
            parsed(
                *old(self),
                *final(self),
                r.deep_view(),
                spec_complete_commands(old(self).toks(), old(self).st()),
            ),
            moved(*old(self), *final(self), r),
    {
        proof {
            reveal(spec_complete_commands);
        }
        let ghost t = self.toks();
        let ghost s0 = self.st();
        proof {
            lemma_enter(t, s0);
        }
        let snap = self.begin();
        let first = match self.complete_command() {
            Some(c) => c,
            None => {
                self.abort(snap);
                return None;
            },
        };
        let ghost s1 = self.st();
        let ghost f = next_command_fn(t);
        let mut acc: Vec<CompleteCommand> = Vec::new();
        acc.push(first);
        let ghost head = seq![acc@[0].model()];
        assert(acc.deep_view() =~= head);
        loop
            invariant_except_break
                self.toks() == t,
                f == next_command_fn(t),
                acc.deep_view() == head + (acc.deep_view().skip(1)),
                acc.len() >= 1,
                rep(f, t, s1).0 == acc.deep_view().skip(1) + rep(f, t, self.st()).0,
                rep(f, t, s1).1 == rep(f, t, self.st()).1,
                adv(t, s0, s1),
                mono(t, s1, self.st()),
            ensures
                self.toks() == t,
                acc.deep_view() == head + rep(f, t, s1).0,
                rep(f, t, s1).1 == self.st(),
                adv(t, s0, self.st()),
            decreases self.rem(),
        {
            let ghost before = self.st();
            let ghost prev = acc.deep_view();
            proof {
                reveal(spec_required_linebreak);
            }
            if self.required_linebreak().is_none() {
                proof {
                    assert(rep(f, t, before).0 =~= Seq::<SpecCompoundBlock>::empty());
                    assert(prev.skip(1) + Seq::<SpecCompoundBlock>::empty() =~= prev.skip(1));
                    assert(prev =~= head + prev.skip(1));
                }
                break;
            }
            match self.complete_command() {
                Some(c) => {
                    proof {
                        lemma_rep_unfold(f, t, before);
                    }
                    acc.push(c);
                    proof {
                        assert(acc.deep_view() =~= prev.push(c.model()));
                        assert(prev[0] == head[0]);
                        assert(acc.deep_view().skip(1) =~= prev.skip(1).push(c.model()));
                        assert(acc.deep_view() =~= head + acc.deep_view().skip(1));
                        lemma_push_concat(prev.skip(1), c.model(), rep(f, t, self.st()).0);
                    }
                },
                None => {
                    proof {
                        assert(rep(f, t, before).0 =~= Seq::<SpecCompoundBlock>::empty());
                        assert(prev.skip(1) + Seq::<SpecCompoundBlock>::empty() =~= prev.skip(1));
                        assert(prev =~= head + prev.skip(1));
                    }
                    break;
                },
            }
        }
        Some(acc)
    }

    /// A pipeline sequence, more of them each after a command separator, and an
    /// optional separator at the end.
    pub fn complete_command(&mut self) -> (r: Option<CompleteCommand>)
        ensures
            parsed(
                *old(self),
                *final(self),
                r.deep_view(),
                spec_complete_command(old(self).toks(), old(self).st()),
            ),
            moved(*old(self), *final(self), r),
    {
        proof {
            reveal(spec_complete_command);
        }
        let ghost t = self.toks();
        let ghost s0 = self.st();
        proof {
            lemma_enter(t, s0);
        }
        let snap = self.begin();
        let fst = match self.pipeline_seq() {
            Some(x) => x,
            None => {
                self.abort(snap);
                return None;
            },
        };
        let ghost s1 = self.st();
        let ghost f = command_part_fn(t);
        let mut rest: Vec<(Separator, PipelineSeq)> = Vec::new();
        loop
            invariant_except_break
                self.toks() == t,
                f == command_part_fn(t),
                rep(f, t, s1).0 == rest.deep_view() + rep(f, t, self.st()).0,
                rep(f, t, s1).1 == rep(f, t, self.st()).1,
                adv(t, s0, s1),
                mono(t, s1, self.st()),
            ensures
                self.toks() == t,
                rep(f, t, s1).0 == rest.deep_view(),
                rep(f, t, s1).1 == self.st(),
                adv(t, s0, self.st()),
            decreases self.rem(),
        {
            let ghost before = self.st();
            match self.command_part() {
                Some(x) => {
                    proof {
                        lemma_rep_unfold(f, t, before);
                    }
                    let ghost prev = rest.deep_view();
                    rest.push(x);
                    assert(rest.deep_view() =~= prev.push(x.deep_view()));
                    proof {
                        lemma_push_concat(prev, x.deep_view(), rep(f, t, self.st()).0);
                    }
                },
                None => {
                    proof {
                        lemma_push_concat(rest.deep_view(), arbitrary(), Seq::empty());
                    }
                    break;
                },
            }
        }
        let ghost before_last = self.st();
        proof {
            lemma_enter(t, before_last);
        }
        let last = match self.cmd_separator() {
            Some(sep) => sep,
            None => Separator::Sequential,
        };
        let items = Self::join_items(fst, rest, last);
        Some(CompoundBlock::new(items))
    }

    /// A command separator followed by a pipeline sequence.
    fn command_part(&mut self) -> (r: Option<(Separator, PipelineSeq)>)
        ensures
            parsed(
                *old(self),
                *final(self),
                r.deep_view(),
                spec_command_part(old(self).toks(), old(self).st()),
            ),
            moved(*old(self), *final(self), r),
    {
        proof {
            reveal(spec_command_part);
        }
        let ghost t = self.toks();
        let ghost s0 = self.st();
        proof {
            lemma_enter(t, s0);
        }
        let snap = self.begin();
        let sep = match self.cmd_separator() {
            Some(sep) => sep,
            None => {
                self.abort(snap);
                return None;
            },
        };
        match self.pipeline_seq() {
            Some(seq) => Some((sep, seq)),
            None => {
                self.abort(snap);
                None
            },
        }
    }
}


impl Program {
    /// The complete commands, one after the other.
    pub fn display(&self) -> (r: String)
        requires
            program_text(self.model()) is Some,
        ensures
            Some(r@) == program_text(self.model()),
    {
        let ghost bs = self.model().cmds;
        let mut s = String::new();
        let n = self.cmds.len();
        let mut i: usize = 0;
        assert(cat(Some(s@), blocks_text(bs, 0)) == program_text(self.model())) by {
            assert(s@ + blocks_text(bs, 0)->0 =~= blocks_text(bs, 0)->0);
        }
        while i < n
            invariant
                i <= n,
                n == self.cmds@.len(),
                bs == self.model().cmds,
                program_text(self.model()) is Some,
                program_text(self.model()) == cat(Some(s@), blocks_text(bs, i as int)),
            decreases n - i,
        {
            proof {
                lemma_cat_assoc(Some(s@), block_text(bs[i as int]), blocks_text(bs, i as int + 1));
                assert(bs[i as int] == self.cmds@[i as int].model());
            }
            let t = self.cmds[i].display();
            push_str(&mut s, t.as_str());
            i = i + 1;
        }
        assert(s@ + Seq::<char>::empty() =~= s@);
        s
    }
}

} // verus!
