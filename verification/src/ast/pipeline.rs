//! Pipelines, and sequences of pipelines joined by `&&` and `||`.

use vstd::prelude::*;

use crate::ast::render::{cat, command_lead, commands_text, lemma_cat_assoc, lemma_commands_step, pipeline_seq_text, pipeline_text, step_text, steps_text};
use crate::text::{owned, push_str};

use crate::ast::command::{spec_command, Command, SpecCommand};
use crate::ast::spec_linebreak;
use crate::parser_v2::{
    adv, commit, enter, lemma_enter, lemma_push_concat, mono, moved, parsed, rem_of, restore,
    spec_consume, PState, Parser, Step,
};
use crate::tokens::{SpecToken, Symbol, Token};

verus! {

#[derive(Debug, PartialEq, Eq)]
pub struct Pipeline {
    bang: bool,
    seq: Vec<Command>,
}

/// Represents a sequence of command pipelines connected through boolean operations
#[derive(Debug, PartialEq, Eq)]
pub struct PipelineSeq {
    head: Pipeline,
    rest: Vec<SeqStep>,
}

#[derive(Debug, PartialEq, Eq)]
pub enum SeqStep {
    And(Pipeline),
    Or(Pipeline),
}

/// A pipeline as a value.
#[verifier::ext_equal]
pub struct SpecPipeline {
    pub bang: bool,
    pub seq: Seq<SpecCommand>,
}

/// A step of a pipeline sequence as a value.
pub enum SpecSeqStep {
    And(SpecPipeline),
    Or(SpecPipeline),
}

/// A pipeline sequence as a value.
#[verifier::ext_equal]
pub struct SpecPipelineSeq {
    pub head: SpecPipeline,
    pub rest: Seq<SpecSeqStep>,
}

impl Pipeline {
    pub closed spec fn model(&self) -> SpecPipeline
        decreases self,
    {
        SpecPipeline {
            bang: self.bang,
            seq: Seq::new(
                self.seq@.len(),
                |i: int|
                    if 0 <= i < self.seq@.len() {
                        self.seq@[i].model()
                    } else {
                        arbitrary()
                    },
            ),
        }
    }

    /// Whether the pipeline's status is negated with `!`.
    pub fn bang(&self) -> (r: bool)
        ensures
            r == self.model().bang,
    {
        self.bang
    }

    /// The commands of the pipeline, in order.
    pub fn commands(&self) -> (r: &Vec<Command>)
        ensures
            r.deep_view() == self.model().seq,
    {
        assert(self.seq.deep_view() =~= self.model().seq);
        &self.seq
    }
}

impl DeepView for Pipeline {
    type V = SpecPipeline;

    open spec fn deep_view(&self) -> SpecPipeline {
        self.model()
    }
}

impl SeqStep {
    pub closed spec fn model(&self) -> SpecSeqStep
        decreases self,
    {
        match self {
            SeqStep::And(p) => SpecSeqStep::And(p.model()),
            SeqStep::Or(p) => SpecSeqStep::Or(p.model()),
        }
    }
}

impl DeepView for SeqStep {
    type V = SpecSeqStep;

    open spec fn deep_view(&self) -> SpecSeqStep {
        self.model()
    }
}

impl PipelineSeq {
    pub closed spec fn model(&self) -> SpecPipelineSeq
        decreases self,
    {
        SpecPipelineSeq {
            head: self.head.model(),
            rest: Seq::new(
                self.rest@.len(),
                |i: int|
                    if 0 <= i < self.rest@.len() {
                        self.rest@[i].model()
                    } else {
                        arbitrary()
                    },
            ),
        }
    }

    /// The first pipeline.
    pub fn head(&self) -> (r: &Pipeline)
        ensures
            r.model() == self.model().head,
    {
        &self.head
    }

    /// The steps after the first pipeline, in order.
    pub fn rest(&self) -> (r: &Vec<SeqStep>)
        ensures
            r.deep_view() == self.model().rest,
    {
        assert(self.rest.deep_view() =~= self.model().rest);
        &self.rest
    }
}

impl DeepView for PipelineSeq {
    type V = SpecPipelineSeq;

    open spec fn deep_view(&self) -> SpecPipelineSeq {
        self.model()
    }
}

/// `|` followed by optional newlines.
#[verifier::opaque]
pub open spec fn spec_pipeline_separator(t: Seq<SpecToken>, s: PState) -> Step<()> {
    let s1 = enter(t, s);
    let r1 = spec_consume(t, s1, SpecToken::Symbol(Symbol::Pipe));
    commit(
        s,
        match r1.0 {
            None => (None, r1.1),
            Some(_) => spec_linebreak(t, r1.1),
        },
    )
}

/// The commands after the first one of a pipeline, each after a `|`. A `|`
/// that no command follows is read all the same.
#[verifier::opaque]
pub open spec fn spec_command_seq_rest(t: Seq<SpecToken>, s: PState) -> (Seq<SpecCommand>, PState)
    decreases rem_of(t, s), 15nat,
{
    let r1 = spec_pipeline_separator(t, s);
    match r1.0 {
        None => (Seq::empty(), r1.1),
        Some(_) => {
            let r2 = if adv(t, s, r1.1) {
                spec_command(t, r1.1)
            } else {
                (None, r1.1)
            };
            match r2.0 {
                None => (Seq::empty(), r2.1),
                Some(c) => if adv(t, s, r2.1) {
                    let rest = spec_command_seq_rest(t, r2.1);
                    (seq![c] + rest.0, rest.1)
                } else {
                    (seq![c], r2.1)
                },
            }
        },
    }
}

/// Commands separated by `|`.
#[verifier::opaque]
pub open spec fn spec_command_seq(t: Seq<SpecToken>, s: PState) -> Step<Seq<SpecCommand>>
    decreases rem_of(t, s), 16nat,
{
    let s1 = enter(t, s);
    let r1 = if mono(t, s, s1) {
        spec_command(t, s1)
    } else {
        (None, s1)
    };
    commit(
        s,
        match r1.0 {
            None => (None, r1.1),
            Some(c) => if adv(t, s, r1.1) {
                let rest = spec_command_seq_rest(t, r1.1);
                (Some(seq![c] + rest.0), rest.1)
            } else {
                (Some(seq![c]), r1.1)
            },
        },
    )
}

/// An optional `!`, then commands separated by `|`.
#[verifier::opaque]
pub open spec fn spec_pipeline(t: Seq<SpecToken>, s: PState) -> Step<SpecPipeline>
    decreases rem_of(t, s), 17nat,
{
    let s1 = enter(t, s);
    let r1 = spec_consume(t, s1, SpecToken::Symbol(Symbol::Bang));
    let r2 = if mono(t, s, r1.1) {
        spec_command_seq(t, r1.1)
    } else {
        (None, r1.1)
    };
    commit(
        s,
        match r2.0 {
            None => (None, r2.1),
            Some(seq) => (Some(SpecPipeline { bang: r1.0 is Some, seq }), r2.1),
        },
    )
}

/// `||` followed by a pipeline.
#[verifier::opaque]
pub open spec fn spec_or_step(t: Seq<SpecToken>, s: PState) -> Step<SpecSeqStep>
    decreases rem_of(t, s), 18nat,
{
    let s1 = enter(t, s);
    let r1 = spec_consume(t, s1, SpecToken::Symbol(Symbol::Or));
    commit(
        s,
        match r1.0 {
            None => (None, r1.1),
            Some(_) => {
                let r2 = if adv(t, s, r1.1) {
                    spec_pipeline(t, r1.1)
                } else {
                    (None, r1.1)
                };
                match r2.0 {
                    None => (None, r2.1),
                    Some(p) => (Some(SpecSeqStep::Or(p)), r2.1),
                }
            },
        },
    )
}

/// `&&` followed by a pipeline.
#[verifier::opaque]
pub open spec fn spec_and_step(t: Seq<SpecToken>, s: PState) -> Step<SpecSeqStep>
    decreases rem_of(t, s), 18nat,
{
    let s1 = enter(t, s);
    let r1 = spec_consume(t, s1, SpecToken::Symbol(Symbol::And));
    commit(
        s,
        match r1.0 {
            None => (None, r1.1),
            Some(_) => {
                let r2 = if adv(t, s, r1.1) {
                    spec_pipeline(t, r1.1)
                } else {
                    (None, r1.1)
                };
                match r2.0 {
                    None => (None, r2.1),
                    Some(p) => (Some(SpecSeqStep::And(p)), r2.1),
                }
            },
        },
    )
}

/// An `||` step, or else an `&&` step.
#[verifier::opaque]
pub open spec fn spec_seq_step(t: Seq<SpecToken>, s: PState) -> Step<SpecSeqStep>
    decreases rem_of(t, s), 19nat,
{
    let s1 = enter(t, s);
    let r1 = if mono(t, s, s1) {
        spec_or_step(t, s1)
    } else {
        (None, s1)
    };
    commit(
        s,
        match r1.0 {
            Some(x) => (Some(x), r1.1),
            None => {
                let s2 = restore(s1, r1.1);
                if mono(t, s, s2) {
                    spec_and_step(t, s2)
                } else {
                    (None, s2)
                }
            },
        },
    )
}

/// The steps of a pipeline sequence after its first pipeline.
#[verifier::opaque]
pub open spec fn spec_seq_steps(t: Seq<SpecToken>, s: PState) -> (Seq<SpecSeqStep>, PState)
    decreases rem_of(t, s), 20nat,
{
    let r = spec_seq_step(t, s);
    match r.0 {
        None => (Seq::empty(), r.1),
        Some(x) => if adv(t, s, r.1) {
            let rest = spec_seq_steps(t, r.1);
            (seq![x] + rest.0, rest.1)
        } else {
            (seq![x], r.1)
        },
    }
}

/// A pipeline followed by any number of `&&` and `||` steps.
#[verifier::opaque]
pub open spec fn spec_pipeline_seq(t: Seq<SpecToken>, s: PState) -> Step<SpecPipelineSeq>
    decreases rem_of(t, s), 21nat,
{
    let s1 = enter(t, s);
    let r1 = if mono(t, s, s1) {
        spec_pipeline(t, s1)
    } else {
        (None, s1)
    };
    commit(
        s,
        match r1.0 {
            None => (None, r1.1),
            Some(head) => {
                let rest = if adv(t, s, r1.1) {
                    spec_seq_steps(t, r1.1)
                } else {
                    (Seq::empty(), r1.1)
                };
                (Some(SpecPipelineSeq { head, rest: rest.0 }), rest.1)
            },
        },
    )
}

impl<'p> Parser<'p> {
    pub fn pipeline(&mut self) -> (r: Option<Pipeline>)
        ensures
            parsed(
                *old(self),
                *final(self),
                r.deep_view(),
                spec_pipeline(old(self).toks(), old(self).st()),
            ),
            moved(*old(self), *final(self), r),
        decreases old(self).rem(), 17nat,
    {
        proof {
            reveal_with_fuel(spec_pipeline, 1);
            reveal_with_fuel(spec_command_seq, 1);
        }
        let ghost t = self.toks();
        let ghost s0 = self.st();
        proof {
            lemma_enter(t, s0);
        }
        let snap = self.begin();
        let bang = self.consume(Token::Symbol(Symbol::Bang)).is_some();
        let seq = match self.command_seq() {
            Some(x) => x,
            None => {
                self.abort(snap);
                return None;
            },
        };
        let res = Pipeline { bang, seq };
        assert(res.model().seq =~= res.seq.deep_view());
        Some(res)
    }

    fn command_seq(&mut self) -> (r: Option<Vec<Command>>)
        ensures
            parsed(
                *old(self),
                *final(self),
                r.deep_view(),
                spec_command_seq(old(self).toks(), old(self).st()),
            ),
            moved(*old(self), *final(self), r),
        decreases old(self).rem(), 16nat,
    {
        proof {
            reveal_with_fuel(spec_command_seq, 1);
            reveal_with_fuel(spec_command, 1);
            reveal_with_fuel(spec_command_seq_rest, 1);
        }
        let ghost t = self.toks();
        let ghost s0 = self.st();
        proof {
            lemma_enter(t, s0);
        }
        let snap = self.begin();
        let fst = match self.command() {
            Some(c) => c,
            None => {
                self.abort(snap);
                return None;
            },
        };
        let ghost s1 = self.st();
        let mut acc: Vec<Command> = Vec::new();
        acc.push(fst);
        let ghost mut rest: Seq<SpecCommand> = Seq::empty();
        assert(acc.deep_view() =~= seq![fst.model()] + rest);
        loop
            invariant_except_break
                self.toks() == t,
                t == old(self).toks(),
                s0 == old(self).st(),
                adv(t, s0, s1),
                acc.deep_view() == seq![fst.model()] + rest,
                spec_command_seq_rest(t, s1).0 == rest + spec_command_seq_rest(t, self.st()).0,
                spec_command_seq_rest(t, s1).1 == spec_command_seq_rest(t, self.st()).1,
                mono(t, s1, self.st()),
            ensures
                self.toks() == t,
                acc.deep_view() == seq![fst.model()] + rest,
                spec_command_seq_rest(t, s1).0 == rest,
                spec_command_seq_rest(t, s1).1 == self.st(),
                mono(t, s1, self.st()),
            decreases self.rem(),
        {
            proof {
                reveal_with_fuel(spec_command_seq_rest, 1);
                reveal_with_fuel(spec_command, 1);
            }
            if self.pipeline_separator().is_none() {
                proof {
                    lemma_push_concat(rest, arbitrary(), Seq::empty());
                }
                break;
            }
            match self.command() {
                Some(c) => {
                    let ghost prev = acc.deep_view();
                    proof {
                        lemma_push_concat(rest, c.model(), spec_command_seq_rest(t, self.st()).0);
                    }
                    acc.push(c);
                    proof {
                        assert(acc.deep_view() =~= prev.push(c.model()));
                        assert(seq![fst.model()] + rest.push(c.model()) =~= prev.push(c.model()));
                        rest = rest.push(c.model());
                    }
                },
                None => {
                    proof {
                        lemma_push_concat(rest, arbitrary(), Seq::empty());
                    }
                    break;
                },
            }
        }
        Some(acc)
    }

    fn pipeline_separator(&mut self) -> (r: Option<()>)
        ensures
            parsed(
                *old(self),
                *final(self),
                r,
                spec_pipeline_separator(old(self).toks(), old(self).st()),
            ),
            moved(*old(self), *final(self), r),
    {
        proof {
            reveal(spec_pipeline_separator);
        }
        let ghost t = self.toks();
        let ghost s0 = self.st();
        proof {
            lemma_enter(t, s0);
        }
        let snap = self.begin();
        if self.consume(Token::Symbol(Symbol::Pipe)).is_none() {
            self.abort(snap);
            return None;
        }
        self.linebreak()
    }

    pub fn pipeline_seq(&mut self) -> (r: Option<PipelineSeq>)
        ensures
            parsed(
                *old(self),
                *final(self),
                r.deep_view(),
                spec_pipeline_seq(old(self).toks(), old(self).st()),
            ),
            moved(*old(self), *final(self), r),
        decreases old(self).rem(), 21nat,
    {
        proof {
            reveal_with_fuel(spec_pipeline_seq, 1);
            reveal_with_fuel(spec_pipeline, 1);
            reveal_with_fuel(spec_seq_steps, 1);
        }
        let ghost t = self.toks();
        let ghost s0 = self.st();
        proof {
            lemma_enter(t, s0);
        }
        let snap = self.begin();
        let head = match self.pipeline() {
            Some(p) => p,
            None => {
                self.abort(snap);
                return None;
            },
        };
        let ghost s1 = self.st();
        let mut rest: Vec<SeqStep> = Vec::new();
        loop
            invariant_except_break
                self.toks() == t,
                t == old(self).toks(),
                s0 == old(self).st(),
                adv(t, s0, s1),
                spec_seq_steps(t, s1).0 == rest.deep_view() + spec_seq_steps(t, self.st()).0,
                spec_seq_steps(t, s1).1 == spec_seq_steps(t, self.st()).1,
                mono(t, s1, self.st()),
            ensures
                self.toks() == t,
                spec_seq_steps(t, s1).0 == rest.deep_view(),
                spec_seq_steps(t, s1).1 == self.st(),
                mono(t, s1, self.st()),
            decreases self.rem(),
        {
            proof {
                reveal_with_fuel(spec_seq_steps, 1);
                reveal_with_fuel(spec_seq_step, 1);
            }
            match self.seq_step() {
                Some(x) => {
                    let ghost prev = rest.deep_view();
                    proof {
                        lemma_push_concat(prev, x.model(), spec_seq_steps(t, self.st()).0);
                    }
                    rest.push(x);
                    assert(rest.deep_view() =~= prev.push(x.model()));
                },
                None => {
                    proof {
                        lemma_push_concat(rest.deep_view(), arbitrary(), Seq::empty());
                    }
                    break;
                },
            }
        }
        let res = PipelineSeq { head, rest };
        assert(res.model().rest =~= res.rest.deep_view());
        Some(res)
    }

    fn seq_step(&mut self) -> (r: Option<SeqStep>)
        ensures
            parsed(
                *old(self),
                *final(self),
                r.deep_view(),
                spec_seq_step(old(self).toks(), old(self).st()),
            ),
            moved(*old(self), *final(self), r),
        decreases old(self).rem(), 19nat,
    {
        proof {
            reveal_with_fuel(spec_seq_step, 1);
            reveal_with_fuel(spec_and_step, 1);
            reveal_with_fuel(spec_or_step, 1);
        }
        let ghost t = self.toks();
        let ghost s0 = self.st();
        proof {
            lemma_enter(t, s0);
        }
        let snap = self.begin();
        let p = self.pos();
        if let Some(x) = self.or_step() {
            return Some(x);
        }
        self.reset_pos(p);
        let res = self.and_step();
        if res.is_none() {
            self.abort(snap);
        }
        res
    }

    fn or_step(&mut self) -> (r: Option<SeqStep>)
        ensures
            parsed(
                *old(self),
                *final(self),
                r.deep_view(),
                spec_or_step(old(self).toks(), old(self).st()),
            ),
            moved(*old(self), *final(self), r),
        decreases old(self).rem(), 18nat,
    {
        proof {
            reveal_with_fuel(spec_or_step, 1);
            reveal_with_fuel(spec_pipeline, 1);
        }
        let ghost t = self.toks();
        let ghost s0 = self.st();
        proof {
            lemma_enter(t, s0);
        }
        let snap = self.begin();
        if self.consume(Token::Symbol(Symbol::Or)).is_none() {
            self.abort(snap);
            return None;
        }
        match self.pipeline() {
            Some(p) => {
                let r = SeqStep::Or(p);
                assert(r.model() == SpecSeqStep::Or(p.model()));
                assert(r.deep_view() == r.model());
                Some(r)
            },
            None => {
                self.abort(snap);
                None
            },
        }
    }

    fn and_step(&mut self) -> (r: Option<SeqStep>)
        ensures
            parsed(
                *old(self),
                *final(self),
                r.deep_view(),
                spec_and_step(old(self).toks(), old(self).st()),
            ),
            moved(*old(self), *final(self), r),
        decreases old(self).rem(), 18nat,
    {
        proof {
            reveal_with_fuel(spec_and_step, 1);
            reveal_with_fuel(spec_pipeline, 1);
        }
        let ghost t = self.toks();
        let ghost s0 = self.st();
        proof {
            lemma_enter(t, s0);
        }
        let snap = self.begin();
        if self.consume(Token::Symbol(Symbol::And)).is_none() {
            self.abort(snap);
            return None;
        }
        match self.pipeline() {
            Some(p) => Some(SeqStep::And(p)),
            None => {
                self.abort(snap);
                None
            },
        }
    }
}


impl Pipeline {
    pub fn display(&self) -> (r: String)
        requires
            pipeline_text(self.model()) is Some,
        ensures
            Some(r@) == pipeline_text(self.model()),
        decreases self,
    {
        let ghost p = self.model();
        let mut s = String::new();
        if self.bang {
            push_str(&mut s, "!");
        }
        let n = self.seq.len();
        let mut i: usize = 0;
        while i < n
            invariant
                i <= n,
                n == self.seq@.len(),
                p == self.model(),
                pipeline_text(p) is Some,
                pipeline_text(p) == cat(Some(s@), commands_text(p.seq, i as int)),
            decreases n - i,
        {
            proof {
                assert(p.seq[i as int] == self.seq@[i as int].model());
                lemma_commands_step(p, i as int, s@, arbitrary());
                assert(decreases_to!(self => self.seq@[i as int])) by {
                    assert(decreases_to!(self => self.seq));
                    assert(decreases_to!(self.seq => self.seq@));
                    assert(decreases_to!(self.seq@ => self.seq@[i as int]));
                };
            }
            let ghost s0 = s@;
            if i > 0 {
                push_str(&mut s, " | ");
            }
            let t = self.seq[i].display();
            push_str(&mut s, t.as_str());
            proof {
                lemma_commands_step(p, i as int, s0, t@);
                assert(s@ =~= s0 + command_lead(i as int) + t@);
            }
            i = i + 1;
        }
        assert(s@ + Seq::<char>::empty() =~= s@);
        s
    }
}

impl SeqStep {
    pub fn display(&self) -> (r: String)
        requires
            step_text(self.model()) is Some,
        ensures
            Some(r@) == step_text(self.model()),
        decreases self,
    {
        let (sym, p) = match self {
            SeqStep::And(p) => (" && ", p),
            SeqStep::Or(p) => (" || ", p),
        };
        let mut s = owned(sym);
        let t = p.display();
        push_str(&mut s, t.as_str());
        s
    }
}

impl PipelineSeq {
    pub fn display(&self) -> (r: String)
        requires
            pipeline_seq_text(self.model()) is Some,
        ensures
            Some(r@) == pipeline_seq_text(self.model()),
        decreases self,
    {
        let ghost steps = self.model().rest;
        let mut s = self.head.display();
        let n = self.rest.len();
        let mut i: usize = 0;
        while i < n
            invariant
                i <= n,
                n == self.rest@.len(),
                steps == self.model().rest,
                pipeline_seq_text(self.model()) is Some,
                pipeline_seq_text(self.model()) == cat(Some(s@), steps_text(steps, i as int)),
            decreases n - i,
        {
            proof {
                lemma_cat_assoc(Some(s@), step_text(steps[i as int]), steps_text(steps, i as int + 1));
                assert(steps[i as int] == self.rest@[i as int].model());
                assert(decreases_to!(self => self.rest));
                assert(decreases_to!(self.rest => self.rest@));
                assert(decreases_to!(self.rest@ => self.rest@[i as int]));
            }
            let t = self.rest[i].display();
            push_str(&mut s, t.as_str());
            i = i + 1;
        }
        assert(s@ + Seq::<char>::empty() =~= s@);
        s
    }
}

} // verus!
