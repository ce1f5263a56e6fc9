//! Compound commands, and the blocks of command sequences that they hold.

pub mod do_scope;
pub mod for_clause;
pub mod if_clause;
pub mod scope;
pub mod subshell;
pub mod until_clause;
pub mod while_clause;

use vstd::prelude::*;

use crate::ast::render::{block_item_text, block_text, cat, compound_text, item_lead, item_tail, items_text, lemma_items_step, separator_text};
use crate::text::{owned, push_str};

use crate::ast::command::arithmetic::for_clause::{
    spec_arithmetic_for_clause, For as ArithmeticFor, SpecArithmeticFor,
};
use crate::ast::command::arithmetic::{spec_arithmetic, Arithmetic, SpecArithmetic};
use crate::ast::pipeline::{spec_pipeline_seq, PipelineSeq, SpecPipelineSeq};
use crate::ast::{spec_linebreak, spec_required_linebreak};
use crate::parser_v2::{
    adv, commit, enter, lemma_enter, lemma_push_concat, mono, moved, parsed, rem_of, restore,
    spec_consume, PState, Parser, Step,
};
use crate::tokens::{SpecToken, Symbol, Token};
use self::for_clause::{spec_for_clause, For, SpecFor};
use self::if_clause::{spec_if_clause, If, SpecIf};
use self::scope::{spec_scope, Scope, SpecScope};
use self::subshell::{spec_subshell, SpecSubshell, Subshell};
use self::until_clause::{spec_until_clause, SpecUntil, Until};
use self::while_clause::{spec_while_clause, SpecWhile, While};

verus! {

#[derive(Debug, PartialEq, Eq)]
pub enum CompoundCommand {
    Arithmetic(Arithmetic),
    ArithmeticFor(ArithmeticFor),
    Scope(Scope),
    Subshell(Subshell),
    If(If),
    For(For),
    While(While),
    Until(Until),
}

/// A compound command as a value.
pub enum SpecCompoundCommand {
    Arithmetic(SpecArithmetic),
    ArithmeticFor(SpecArithmeticFor),
    Scope(SpecScope),
    Subshell(SpecSubshell),
    If(SpecIf),
    For(SpecFor),
    While(SpecWhile),
    Until(SpecUntil),
}

/// A sequence of pipeline sequences, each with the separator after it.
#[derive(Debug, PartialEq, Eq)]
pub struct CompoundBlock(Vec<CompoundBlockItem>);

#[derive(Debug, PartialEq, Eq)]
pub struct CompoundBlockItem {
    seq: PipelineSeq,
    sep: Separator,
}

#[derive(Clone, Copy, Debug, PartialEq, Eq, Structural)]
pub enum Separator {
    /// The prev command runs asynchronously (`&`)
    Async,
    /// The prev command runs synchronously (`;`)
    Sequential,
}

impl DeepView for Separator {
    type V = Separator;

    open spec fn deep_view(&self) -> Separator {
        *self
    }
}

/// A block item as a value.
pub struct SpecBlockItem {
    pub seq: SpecPipelineSeq,
    pub sep: Separator,
}

/// A block as a value.
#[verifier::ext_equal]
pub struct SpecCompoundBlock(pub Seq<SpecBlockItem>);

impl CompoundCommand {
    pub closed spec fn model(&self) -> SpecCompoundCommand
        decreases self,
    {
        match self {
            CompoundCommand::Arithmetic(c) => SpecCompoundCommand::Arithmetic(c.model()),
            CompoundCommand::ArithmeticFor(c) => SpecCompoundCommand::ArithmeticFor(c.model()),
            CompoundCommand::Scope(c) => SpecCompoundCommand::Scope(c.model()),
            CompoundCommand::Subshell(c) => SpecCompoundCommand::Subshell(c.model()),
            CompoundCommand::If(c) => SpecCompoundCommand::If(c.model()),
            CompoundCommand::For(c) => SpecCompoundCommand::For(c.model()),
            CompoundCommand::While(c) => SpecCompoundCommand::While(c.model()),
            CompoundCommand::Until(c) => SpecCompoundCommand::Until(c.model()),
        }
    }
}

impl DeepView for CompoundCommand {
    type V = SpecCompoundCommand;

    open spec fn deep_view(&self) -> SpecCompoundCommand {
        self.model()
    }
}

impl CompoundBlock {
    pub closed spec fn model(&self) -> SpecCompoundBlock
        decreases self,
    {
        SpecCompoundBlock(
            Seq::new(
                self.0@.len(),
                |i: int|
                    if 0 <= i < self.0@.len() {
                        self.0@[i].model()
                    } else {
                        arbitrary()
                    },
            ),
        )
    }

    pub fn new(inner: Vec<CompoundBlockItem>) -> (r: Self)
        ensures
            r.model().0 == inner.deep_view(),
    {
        let r = Self(inner);
        assert(r.model().0 =~= inner.deep_view());
        r
    }

    /// The items of the block, in order.
    pub fn items(&self) -> (r: &Vec<CompoundBlockItem>)
        ensures
            r.deep_view() == self.model().0,
    {
        assert(self.0.deep_view() =~= self.model().0);
        &self.0
    }
}

impl DeepView for CompoundBlock {
    type V = SpecCompoundBlock;

    open spec fn deep_view(&self) -> SpecCompoundBlock {
        self.model()
    }
}

impl CompoundBlockItem {
    pub closed spec fn model(&self) -> SpecBlockItem
        decreases self,
    {
        SpecBlockItem { seq: self.seq.model(), sep: self.sep }
    }

    pub fn new(seq: PipelineSeq, sep: Separator) -> (r: Self)
        ensures
            r.model() == (SpecBlockItem { seq: seq.model(), sep }),
    {
        Self { seq, sep }
    }

    /// The pipeline sequence of the item.
    pub fn seq(&self) -> (r: &PipelineSeq)
        ensures
            r.model() == self.model().seq,
    {
        &self.seq
    }

    /// The separator after the item.
    pub fn sep(&self) -> (r: Separator)
        ensures
            r == self.model().sep,
    {
        self.sep
    }
}

impl DeepView for CompoundBlockItem {
    type V = SpecBlockItem;

    open spec fn deep_view(&self) -> SpecBlockItem {
        self.model()
    }
}

/// The items of a block: the first sequence, then each separator with the
/// sequence after it; the last separator closes the last sequence.
pub open spec fn block_items(
    fst: SpecPipelineSeq,
    rest: Seq<(Separator, SpecPipelineSeq)>,
    last: Separator,
) -> Seq<SpecBlockItem> {
    Seq::new(
        rest.len() + 1,
        |i: int|
            SpecBlockItem {
                seq: if i == 0 {
                    fst
                } else {
                    rest[i - 1].1
                },
                sep: if i < rest.len() {
                    rest[i].0
                } else {
                    last
                },
            },
    )
}

pub proof fn lemma_block_items_step(
    cur: SpecPipelineSeq,
    rest: Seq<(Separator, SpecPipelineSeq)>,
    last: Separator,
)
    ensures
        rest.len() == 0 ==> block_items(cur, rest, last) == seq![
            SpecBlockItem { seq: cur, sep: last },
        ],
        rest.len() > 0 ==> block_items(cur, rest, last) == seq![
            SpecBlockItem { seq: cur, sep: rest[0].0 },
        ] + block_items(rest[0].1, rest.drop_first(), last),
{
    if rest.len() == 0 {
        assert(block_items(cur, rest, last) =~= seq![SpecBlockItem { seq: cur, sep: last }]);
    } else {
        assert(block_items(cur, rest, last) =~= seq![SpecBlockItem { seq: cur, sep: rest[0].0 }]
            + block_items(rest[0].1, rest.drop_first(), last));
    }
}

impl<'p> Parser<'p> {
    /// Joins the first sequence, the rest of the separated sequences and the
    /// last separator into block items.
    pub(crate) fn join_items(
        fst: PipelineSeq,
        rest: Vec<(Separator, PipelineSeq)>,
        last: Separator,
    ) -> (r: Vec<CompoundBlockItem>)
        ensures
            r.deep_view() == block_items(fst.model(), rest.deep_view(), last),
    {
        let ghost whole = block_items(fst.model(), rest.deep_view(), last);
        let mut rest = rest;
        let mut items: Vec<CompoundBlockItem> = Vec::new();
        let mut cur = fst;
        while rest.len() > 0
            invariant
                items.deep_view() + block_items(cur.model(), rest.deep_view(), last) == whole,
            decreases rest.len(),
        {
            proof {
                lemma_block_items_step(cur.model(), rest.deep_view(), last);
            }
            let ghost before = rest.deep_view();
            let (sep, seq) = rest.remove(0);
            assert(rest.deep_view() =~= before.drop_first());
            let ghost prev = items.deep_view();
            let item = CompoundBlockItem { seq: cur, sep };
            items.push(item);
            assert(items.deep_view() =~= prev.push(item.model()));
            proof {
                lemma_push_concat(
                    prev,
                    item.model(),
                    block_items(seq.model(), rest.deep_view(), last),
                );
            }
            cur = seq;
        }
        proof {
            lemma_block_items_step(cur.model(), rest.deep_view(), last);
        }
        let ghost prev = items.deep_view();
        let item = CompoundBlockItem { seq: cur, sep: last };
        items.push(item);
        assert(items.deep_view() =~= prev.push(item.model()));
        assert(items.deep_view() =~= whole);
        items
    }
}

/// `&` or `;`.
#[verifier::opaque]
pub open spec fn spec_cmd_separator(t: Seq<SpecToken>, s: PState) -> Step<Separator> {
    let s1 = enter(t, s);
    let r1 = spec_consume(t, s1, SpecToken::Symbol(Symbol::Amp));
    commit(
        s,
        match r1.0 {
            Some(_) => (Some(Separator::Async), r1.1),
            None => {
                let r2 = spec_consume(t, restore(s1, r1.1), SpecToken::Symbol(Symbol::Semicolon));
                match r2.0 {
                    Some(_) => (Some(Separator::Sequential), r2.1),
                    None => (None, r2.1),
                }
            },
        },
    )
}

/// A separator followed by optional newlines, or at least one newline.
#[verifier::opaque]
pub open spec fn spec_block_separator(t: Seq<SpecToken>, s: PState) -> Step<Option<Separator>> {
    let s1 = enter(t, s);
    let r1 = spec_cmd_separator(t, s1);
    commit(
        s,
        match r1.0 {
            Some(sep) => (Some(Some(sep)), spec_linebreak(t, r1.1).1),
            None => {
                let r2 = spec_required_linebreak(t, restore(s1, r1.1));
                match r2.0 {
                    Some(_) => (Some(None), r2.1),
                    None => (None, r2.1),
                }
            },
        },
    )
}

/// The compound commands, tried in this order: arithmetic, `{ }`, `( )`,
/// `for`, `if`, `while`, `until`, arithmetic `for`.
#[verifier::opaque]
pub open spec fn spec_compound_command(t: Seq<SpecToken>, s: PState) -> Step<SpecCompoundCommand>
    decreases rem_of(t, s), 13nat,
{
    let s1 = enter(t, s);
    let r1 = spec_arithmetic(t, s1);
    commit(
        s,
        match r1.0 {
            Some(c) => (Some(SpecCompoundCommand::Arithmetic(c)), r1.1),
            None => {
                let s2 = restore(s1, r1.1);
                let r2 = if mono(t, s, s2) {
                    spec_scope(t, s2)
                } else {
                    (None, s2)
                };
                match r2.0 {
                    Some(c) => (Some(SpecCompoundCommand::Scope(c)), r2.1),
                    None => {
                        let s3 = restore(s1, r2.1);
                        let r3 = if mono(t, s, s3) {
                            spec_subshell(t, s3)
                        } else {
                            (None, s3)
                        };
                        match r3.0 {
                            Some(c) => (Some(SpecCompoundCommand::Subshell(c)), r3.1),
                            None => {
                                let s4 = restore(s1, r3.1);
                                let r4 = if mono(t, s, s4) {
                                    spec_for_clause(t, s4)
                                } else {
                                    (None, s4)
                                };
                                match r4.0 {
                                    Some(c) => (Some(SpecCompoundCommand::For(c)), r4.1),
                                    None => spec_compound_command_tail(t, s, s1, r4.1),
                                }
                            },
                        }
                    },
                }
            },
        },
    )
}

/// The compound commands after `for`: `if`, `while`, `until`, arithmetic
/// `for`; `s` is where the compound command began.
#[verifier::opaque]
pub open spec fn spec_compound_command_tail(
    t: Seq<SpecToken>,
    s: PState,
    s1: PState,
    last: PState,
) -> Step<SpecCompoundCommand>
    decreases rem_of(t, s), 12nat,
{
    let s5 = restore(s1, last);
    let r5 = if mono(t, s, s5) {
        spec_if_clause(t, s5)
    } else {
        (None, s5)
    };
    match r5.0 {
        Some(c) => (Some(SpecCompoundCommand::If(c)), r5.1),
        None => {
            let s6 = restore(s1, r5.1);
            let r6 = if mono(t, s, s6) {
                spec_while_clause(t, s6)
            } else {
                (None, s6)
            };
            match r6.0 {
                Some(c) => (Some(SpecCompoundCommand::While(c)), r6.1),
                None => {
                    let s7 = restore(s1, r6.1);
                    let r7 = if mono(t, s, s7) {
                        spec_until_clause(t, s7)
                    } else {
                        (None, s7)
                    };
                    match r7.0 {
                        Some(c) => (Some(SpecCompoundCommand::Until(c)), r7.1),
                        None => {
                            let s8 = restore(s1, r7.1);
                            let r8 = if mono(t, s, s8) {
                                spec_arithmetic_for_clause(t, s8)
                            } else {
                                (None, s8)
                            };
                            match r8.0 {
                                Some(c) => (Some(SpecCompoundCommand::ArithmeticFor(c)), r8.1),
                                None => (None, r8.1),
                            }
                        },
                    }
                },
            }
        },
    }
}

/// The sequences after the first one in a block, each after a block
/// separator. A separator that no sequence follows is left unread: it ends
/// the block as the separator of its last sequence.
#[verifier::opaque]
pub open spec fn spec_block_rest(t: Seq<SpecToken>, s: PState) -> (
    Seq<(Separator, SpecPipelineSeq)>,
    PState,
)
    decreases rem_of(t, s), 22nat,
{
    let r1 = spec_block_separator(t, s);
    match r1.0 {
        None => (Seq::empty(), r1.1),
        Some(osep) => {
            let sep = match osep {
                Some(x) => x,
                None => Separator::Sequential,
            };
            let r2 = if adv(t, s, r1.1) {
                spec_pipeline_seq(t, r1.1)
            } else {
                (None, r1.1)
            };
            match r2.0 {
                None => (Seq::empty(), restore(s, r2.1)),
                Some(seq) => if adv(t, s, r2.1) {
                    let rest = spec_block_rest(t, r2.1);
                    (seq![(sep, seq)] + rest.0, rest.1)
                } else {
                    (seq![(sep, seq)], r2.1)
                },
            }
        },
    }
}

/// Optional newlines, then pipeline sequences separated by block separators,
/// with an optional separator at the end.
#[verifier::opaque]
pub open spec fn spec_compound_block(t: Seq<SpecToken>, s: PState) -> Step<SpecCompoundBlock>
    decreases rem_of(t, s), 24nat,
{
    let s1 = enter(t, s);
    let r1 = spec_linebreak(t, s1);
    let r2 = if mono(t, s, r1.1) {
        spec_pipeline_seq(t, r1.1)
    } else {
        (None, r1.1)
    };
    commit(
        s,
        match r2.0 {
            None => (None, r2.1),
            Some(fst) => {
                let rest = if adv(t, s, r2.1) {
                    spec_block_rest(t, r2.1)
                } else {
                    (Seq::empty(), r2.1)
                };
                let r4 = spec_block_separator(t, rest.1);
                let last = match r4.0 {
                    Some(Some(sep)) => sep,
                    _ => Separator::Sequential,
                };
                (Some(SpecCompoundBlock(block_items(fst, rest.0, last))), r4.1)
            },
        },
    )
}

impl<'p> Parser<'p> {
    pub fn cmd_separator(&mut self) -> (r: Option<Separator>)
        ensures
            parsed(*old(self), *final(self), r, spec_cmd_separator(old(self).toks(), old(self).st())),
            moved(*old(self), *final(self), r),
    {
        proof {
            reveal(spec_cmd_separator);
        }
        let ghost t = self.toks();
        let ghost s0 = self.st();
        proof {
            lemma_enter(t, s0);
        }
        let snap = self.begin();
        let p = self.pos();
        if self.consume(Token::Symbol(Symbol::Amp)).is_some() {
            return Some(Separator::Async);
        }
        self.reset_pos(p);
        if self.consume(Token::Symbol(Symbol::Semicolon)).is_some() {
            return Some(Separator::Sequential);
        }
        self.abort(snap);
        None
    }

    /// A block can be delimited by either a separator followed by optional
    /// newlines, or by at least one newline.
    pub fn block_separator(&mut self) -> (r: Option<Option<Separator>>)
        ensures
            parsed(
                *old(self),
                *final(self),
                r,
                spec_block_separator(old(self).toks(), old(self).st()),
            ),
            moved(*old(self), *final(self), r),
    {
        proof {
            reveal(spec_block_separator);
        }
        let ghost t = self.toks();
        let ghost s0 = self.st();
        proof {
            lemma_enter(t, s0);
        }
        let snap = self.begin();
        let p = self.pos();
        if let Some(sep) = self.cmd_separator() {
            let _ = self.linebreak();
            return Some(Some(sep));
        }
        self.reset_pos(p);
        if self.required_linebreak().is_some() {
            return Some(None);
        }
        self.abort(snap);
        None
    }

    pub fn compound_command(&mut self) -> (r: Option<CompoundCommand>)
        ensures
            parsed(
                *old(self),
                *final(self),
                r.deep_view(),
                spec_compound_command(old(self).toks(), old(self).st()),
            ),
            moved(*old(self), *final(self), r),
        decreases old(self).rem(), 13nat,
    {
        proof {
            reveal_with_fuel(spec_compound_command, 1);
            reveal_with_fuel(spec_compound_command_tail, 1);
            reveal_with_fuel(spec_for_clause, 1);
            reveal_with_fuel(spec_scope, 1);
            reveal_with_fuel(spec_subshell, 1);
        }
        let ghost t = self.toks();
        let ghost s0 = self.st();
        proof {
            lemma_enter(t, s0);
        }
        let snap = self.begin();
        let ghost s1 = self.st();
        let p = self.pos();
        if let Some(c) = self.arithmetic() {
            return Some(CompoundCommand::Arithmetic(c));
        }
        self.reset_pos(p);
        if let Some(c) = self.scope() {
            return Some(CompoundCommand::Scope(c));
        }
        self.reset_pos(p);
        if let Some(c) = self.subshell() {
            return Some(CompoundCommand::Subshell(c));
        }
        self.reset_pos(p);
        if let Some(c) = self.for_clause() {
            return Some(CompoundCommand::For(c));
        }
        self.reset_pos(p);
        let res = self.compound_command_tail(Ghost(s0), Ghost(s1));
        if res.is_none() {
            self.abort(snap);
        }
        res
    }

    /// The compound commands after `for`.
    fn compound_command_tail(&mut self, Ghost(s): Ghost<PState>, Ghost(s1): Ghost<PState>) -> (r:
        Option<CompoundCommand>)
        requires
            old(self).st().pos == s1.pos,
            mono(old(self).toks(), s, s1),
            rem_of(old(self).toks(), s1) <= rem_of(old(self).toks(), s),
        ensures
            final(self).toks() == old(self).toks(),
            (r.deep_view(), final(self).st()) == spec_compound_command_tail(
                old(self).toks(),
                s,
                s1,
                old(self).st(),
            ),
            r is Some ==> adv(old(self).toks(), old(self).st(), final(self).st()),
            r is None ==> final(self).st().pos == old(self).st().pos,
        decreases rem_of(old(self).toks(), s), 12nat,
    {
        proof {
            reveal_with_fuel(spec_compound_command_tail, 1);
            reveal_with_fuel(spec_arithmetic_for_clause, 1);
            reveal_with_fuel(spec_if_clause, 1);
            reveal_with_fuel(spec_until_clause, 1);
            reveal_with_fuel(spec_while_clause, 1);
        }
        let p = self.pos();
        if let Some(c) = self.if_clause() {
            return Some(CompoundCommand::If(c));
        }
        self.reset_pos(p);
        if let Some(c) = self.while_clause() {
            return Some(CompoundCommand::While(c));
        }
        self.reset_pos(p);
        if let Some(c) = self.until_clause() {
            return Some(CompoundCommand::Until(c));
        }
        self.reset_pos(p);
        if let Some(c) = self.arithmetic_for_clause() {
            return Some(CompoundCommand::ArithmeticFor(c));
        }
        None
    }

    pub fn compound_block(&mut self) -> (r: Option<CompoundBlock>)
        ensures
            parsed(
                *old(self),
                *final(self),
                r.deep_view(),
                spec_compound_block(old(self).toks(), old(self).st()),
            ),
            moved(*old(self), *final(self), r),
        decreases old(self).rem(), 24nat,
    {
        proof {
            reveal_with_fuel(spec_compound_block, 1);
            reveal_with_fuel(spec_block_rest, 1);
            reveal_with_fuel(spec_pipeline_seq, 1);
        }
        let ghost t = self.toks();
        let ghost s0 = self.st();
        proof {
            lemma_enter(t, s0);
        }
        let snap = self.begin();
        let _ = self.linebreak();
        let fst = match self.pipeline_seq() {
            Some(x) => x,
            None => {
                self.abort(snap);
                return None;
            },
        };
        let rest = self.block_rest(Ghost(s0));
        let last_sep = match self.block_separator() {
            Some(Some(sep)) => sep,
            _ => Separator::Sequential,
        };
        let items = Self::join_items(fst, rest, last_sep);
        Some(CompoundBlock::new(items))
    }

    /// The separated sequences after the first one in a block.
    fn block_rest(&mut self, Ghost(s): Ghost<PState>) -> (r: Vec<(Separator, PipelineSeq)>)
        requires
            adv(old(self).toks(), s, old(self).st()),
        ensures
            final(self).toks() == old(self).toks(),
            (r.deep_view(), final(self).st()) == spec_block_rest(old(self).toks(), old(self).st()),
            mono(old(self).toks(), old(self).st(), final(self).st()),
        decreases rem_of(old(self).toks(), s), 23nat,
    {
        proof {
            reveal_with_fuel(spec_block_rest, 1);
            reveal_with_fuel(spec_pipeline_seq, 1);
        }
        let ghost t = self.toks();
        let ghost s1 = self.st();
        let mut acc: Vec<(Separator, PipelineSeq)> = Vec::new();
        loop
            invariant_except_break
                self.toks() == t,
                t == old(self).toks(),
                adv(t, s, s1),
                spec_block_rest(t, s1).0 == acc.deep_view() + spec_block_rest(t, self.st()).0,
                spec_block_rest(t, s1).1 == spec_block_rest(t, self.st()).1,
                mono(t, s1, self.st()),
            ensures
                self.toks() == t,
                spec_block_rest(t, s1).0 == acc.deep_view(),
                spec_block_rest(t, s1).1 == self.st(),
                mono(t, s1, self.st()),
            decreases self.rem(),
        {
            proof {
                reveal_with_fuel(spec_block_rest, 1);
                reveal_with_fuel(spec_pipeline_seq, 1);
            }
            let ghost before = self.st();
            let p = self.pos();
            let sep = match self.block_separator() {
                Some(Some(x)) => x,
                Some(None) => Separator::Sequential,
                None => {
                    proof {
                        lemma_push_concat(acc.deep_view(), arbitrary(), Seq::empty());
                    }
                    break;
                },
            };
            let seq = match self.pipeline_seq() {
                Some(x) => x,
                None => {
                    self.reset_pos(p);
                    proof {
                        lemma_push_concat(acc.deep_view(), arbitrary(), Seq::empty());
                    }
                    break;
                },
            };
            let ghost prev = acc.deep_view();
            let ghost x = (sep, seq.model());
            acc.push((sep, seq));
            assert(acc.deep_view() =~= prev.push(x));
            proof {
                lemma_push_concat(prev, x, spec_block_rest(t, self.st()).0);
            }
        }
        acc
    }
}


impl Separator {
    pub fn display(&self) -> (r: String)
        ensures
            r@ == separator_text(*self),
    {
        match self {
            Separator::Async => owned("&"),
            Separator::Sequential => owned(";"),
        }
    }
}

impl CompoundBlockItem {
    pub fn display(&self) -> (r: String)
        requires
            block_item_text(self.model()) is Some,
        ensures
            Some(r@) == block_item_text(self.model()),
    {
        let mut s = self.seq.display();
        let d = self.sep.display();
        push_str(&mut s, d.as_str());
        s
    }
}

impl CompoundBlock {
    pub fn display(&self) -> (r: String)
        requires
            block_text(self.model()) is Some,
        ensures
            Some(r@) == block_text(self.model()),
        decreases self,
    {
        let ghost items = self.model().0;
        let n = self.0.len();
        let mut s = String::new();
        let mut i: usize = 0;
        assert(cat(Some(s@), items_text(items, 0)) == items_text(items, 0)) by {
            assert(s@ + items_text(items, 0)->0 =~= items_text(items, 0)->0);
        }
        while i < n
            invariant
                i <= n,
                n == self.0@.len(),
                items == self.model().0,
                items_text(items, 0) is Some,
                items_text(items, 0) == cat(Some(s@), items_text(items, i as int)),
            decreases n - i,
        {
            proof {
                assert(items[i as int] == self.0@[i as int].model());
                lemma_items_step(items, i as int, s@, arbitrary());
                assert(decreases_to!(self => self.0@[i as int].seq)) by {
                    assert(decreases_to!(self => self.0));
                    assert(decreases_to!(self.0 => self.0@));
                    assert(decreases_to!(self.0@ => self.0@[i as int]));
                    assert(decreases_to!(self.0@[i as int] => self.0@[i as int].seq));
                };
            }
            let ghost s0 = s@;
            if i > 0 {
                push_str(&mut s, "\n");
            }
            let t = self.0[i].seq.display();
            push_str(&mut s, t.as_str());
            if i != n - 1 || self.0[i].sep != Separator::Sequential {
                let d = self.0[i].sep.display();
                push_str(&mut s, d.as_str());
            }
            proof {
                lemma_items_step(items, i as int, s0, t@);
                assert(s@ =~= s0 + item_lead(i as int) + t@ + item_tail(items, i as int));
            }
            i = i + 1;
        }
        assert(s@ + Seq::<char>::empty() =~= s@);
        s
    }
}

impl CompoundCommand {
    pub fn display(&self) -> (r: String)
        requires
            compound_text(self.model()) is Some,
        ensures
            Some(r@) == compound_text(self.model()),
        decreases self,
    {
        match self {
            CompoundCommand::Arithmetic(c) => c.display(),
            CompoundCommand::ArithmeticFor(c) => c.display(),
            CompoundCommand::Scope(c) => c.display(),
            CompoundCommand::Subshell(c) => c.display(),
            CompoundCommand::If(c) => c.display(),
            CompoundCommand::For(c) => c.display(),
            CompoundCommand::While(c) => c.display(),
            CompoundCommand::Until(c) => c.display(),
        }
    }
}

} // verus!
