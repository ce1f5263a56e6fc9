//! The text of a syntax tree: how each node is written back.
//!
//! A text is `None` when a function definition appears in the tree: those
//! cannot be written.

use std::fmt::Write;

use vstd::prelude::*;

use crate::ast::command::arithmetic::expr::SpecUnexpandedExpr;
use crate::ast::command::arithmetic::for_clause::SpecArithmeticFor;
use crate::ast::command::arithmetic::{arithmetic_text, SpecArithmetic};
use crate::ast::command::compound::do_scope::SpecDoScope;
use crate::ast::command::compound::for_clause::SpecFor;
use crate::ast::command::compound::if_clause::{SpecElse, SpecIf};
use crate::ast::command::compound::scope::SpecScope;
use crate::ast::command::compound::subshell::SpecSubshell;
use crate::ast::command::compound::until_clause::SpecUntil;
use crate::ast::command::compound::while_clause::SpecWhile;
use crate::ast::command::compound::{SpecBlockItem, SpecCompoundBlock, SpecCompoundCommand, Separator};
use crate::ast::command::simple::simple_command_text;
use crate::ast::command::SpecCommand;
use crate::ast::pipeline::{SpecPipeline, SpecPipelineSeq, SpecSeqStep};
use crate::ast::program::SpecProgram;
use crate::ast::redirect::redirects_text;
use crate::ast::word::{word_text, SpecWord};

verus! {

/// Two texts one after the other, when both can be written.
pub open spec fn cat(a: Option<Seq<char>>, b: Option<Seq<char>>) -> Option<Seq<char>> {
    match a {
        Some(x) => match b {
            Some(y) => Some(x + y),
            None => None,
        },
        None => None,
    }
}

pub proof fn lemma_cat_assoc(a: Option<Seq<char>>, b: Option<Seq<char>>, c: Option<Seq<char>>)
    ensures
        cat(cat(a, b), c) == cat(a, cat(b, c)),
{
    if a is Some && b is Some && c is Some {
        assert(a->0 + b->0 + c->0 =~= a->0 + (b->0 + c->0));
    }
}

/// The indentation of a nested block: four spaces.
pub open spec fn indent_unit() -> Seq<char> {
    "    "@
}

/// A text with `ind` put at the start of each line that is not empty; `fresh`
/// tells whether a line begins here.
pub open spec fn indent_from(s: Seq<char>, ind: Seq<char>, fresh: bool) -> Seq<char>
    decreases s.len(),
{
    if s.len() == 0 {
        Seq::empty()
    } else if s[0] == '\n' {
        seq!['\n'] + indent_from(s.drop_first(), ind, true)
    } else if fresh {
        ind + seq![s[0]] + indent_from(s.drop_first(), ind, false)
    } else {
        seq![s[0]] + indent_from(s.drop_first(), ind, false)
    }
}

/// A text indented: each line that is not empty begins with `ind`.
pub open spec fn indented_text(s: Seq<char>, ind: Seq<char>) -> Seq<char> {
    indent_from(s, ind, true)
}

/// `indenter::indented` with `with_str`, written through with `write!`. From
/// the crate's source: the indentation goes before each line of the text that
/// is not empty, and the lines and their line feeds stay as they are.
#[verifier::external_body]
pub(crate) fn indent(text: &str, indentation: &'static str) -> (r: String)
    ensures
        r@ == indented_text(text@, indentation@),
{
    let mut out = String::new();
    let _ = write!(indenter::indented(&mut out).with_str(indentation), "{}", text);
    out
}

/// The text of a separator.
pub open spec fn separator_text(s: Separator) -> Seq<char> {
    match s {
        Separator::Async => "&"@,
        Separator::Sequential => ";"@,
    }
}

/// The text of a command; `None` for a function definition.
pub open spec fn command_text(c: SpecCommand) -> Option<Seq<char>>
    decreases c, 0int,
{
    match c {
        SpecCommand::Simple(s) => Some(simple_command_text(s)),
        SpecCommand::Compound(cc, r) => cat(
            compound_text(cc),
            Some(
                match r {
                    Some(rs) => redirects_text(rs.0),
                    None => Seq::empty(),
                },
            ),
        ),
        SpecCommand::Function => None,
    }
}

/// The text of a compound command.
pub open spec fn compound_text(c: SpecCompoundCommand) -> Option<Seq<char>>
    decreases c, 0int,
{
    match c {
        SpecCompoundCommand::Arithmetic(a) => Some(arithmetic_text(a)),
        SpecCompoundCommand::ArithmeticFor(f) => arithmetic_for_text(f),
        SpecCompoundCommand::Scope(s) => scope_text(s),
        SpecCompoundCommand::Subshell(s) => subshell_text(s),
        SpecCompoundCommand::If(i) => if_text(i),
        SpecCompoundCommand::For(f) => for_text(f),
        SpecCompoundCommand::While(w) => while_text(w),
        SpecCompoundCommand::Until(u) => until_text(u),
    }
}

/// `((init; cond; post))` and the body.
pub open spec fn arithmetic_for_text(f: SpecArithmeticFor) -> Option<Seq<char>>
    decreases f, 0int,
{
    let part = |e: Option<SpecUnexpandedExpr>|
        match e {
            Some(x) => x.value,
            None => Seq::empty(),
        };
    cat(
        Some("for (("@ + part(f.init) + "; "@ + part(f.cond) + "; "@ + part(f.post) + "))"@),
        do_scope_text(f.scope),
    )
}

/// `{ `, the block indented on the next lines, `}` on a line of its own.
pub open spec fn scope_text(s: SpecScope) -> Option<Seq<char>>
    decreases s, 0int,
{
    match block_text(s.0) {
        Some(b) => Some("{ \n"@ + indented_text(b, indent_unit()) + "\n}"@),
        None => None,
    }
}

/// The block between `( ` and ` )`.
pub open spec fn subshell_text(s: SpecSubshell) -> Option<Seq<char>>
    decreases s, 0int,
{
    cat(cat(Some("( "@), block_text(s.0)), Some(" )"@))
}

/// `do`, the block indented on the next lines, `done`.
pub open spec fn do_scope_text(d: SpecDoScope) -> Option<Seq<char>>
    decreases d, 0int,
{
    match block_text(d.0) {
        Some(b) => Some("do\n"@ + indented_text(b + "\n"@, indent_unit()) + "done"@),
        None => None,
    }
}

/// `while`, the condition, `; `, the body.
pub open spec fn while_text(w: SpecWhile) -> Option<Seq<char>>
    decreases w, 0int,
{
    cat(cat(Some("while "@), block_text(w.cond)), cat(Some("; "@), do_scope_text(w.scope)))
}

/// `until`, the condition, `; `, the body.
pub open spec fn until_text(u: SpecUntil) -> Option<Seq<char>>
    decreases u, 0int,
{
    cat(cat(Some("until "@), block_text(u.cond)), cat(Some("; "@), do_scope_text(u.scope)))
}

/// Words separated by spaces.
pub open spec fn words_text(ws: Seq<SpecWord>) -> Seq<char>
    decreases ws.len(),
{
    if ws.len() == 0 {
        Seq::empty()
    } else if ws.len() == 1 {
        word_text(ws[0])
    } else {
        words_text(ws.drop_last()) + " "@ + word_text(ws.last())
    }
}

/// `for name in words;`, a line feed, the body.
pub open spec fn for_text(f: SpecFor) -> Option<Seq<char>>
    decreases f, 0int,
{
    let ws = match f.rhs {
        Some(ws) => words_text(ws),
        None => Seq::empty(),
    };
    cat(Some("for "@ + f.lhs + " in "@ + ws + ";\n"@), do_scope_text(f.scope))
}

/// `if cond; then`, the block indented, the other branches, and `fi` on a
/// line of its own.
pub open spec fn if_text(i: SpecIf) -> Option<Seq<char>>
    decreases i, 0int,
{
    let head = cat(cat(Some("if "@), block_text(i.cond)), Some("; then\n"@));
    let then_part = match block_text(i.then_block) {
        Some(b) => Some(indented_text(b, indent_unit())),
        None => None,
    };
    let branches = match i.branches {
        Some(es) => elses_text(es, 0),
        None => Some(Seq::empty()),
    };
    cat(cat(cat(head, then_part), branches), Some("\n"@ + "fi"@))
}

/// The branches from the `i`-th on.
pub open spec fn elses_text(es: Seq<SpecElse>, i: int) -> Option<Seq<char>>
    decreases es, es.len() - i,
{
    if 0 <= i < es.len() {
        cat(else_text(es[i]), elses_text(es, i + 1))
    } else {
        Some(Seq::empty())
    }
}

/// On a new line, `elif cond; then` or `else`, then the block indented.
pub open spec fn else_text(e: SpecElse) -> Option<Seq<char>>
    decreases e, 0int,
{
    let head = match e.cond {
        Some(c) => cat(cat(Some("\n"@ + "elif "@), block_text(c)), Some("; then\n"@)),
        None => Some("\n"@ + "else\n"@),
    };
    let body = match block_text(e.block) {
        Some(b) => Some(indented_text(b, indent_unit())),
        None => None,
    };
    cat(head, body)
}

/// The items of a block, one per line; each is followed by its separator,
/// save that a `;` after the last one is left out.
pub open spec fn block_text(b: SpecCompoundBlock) -> Option<Seq<char>>
    decreases b, 0int,
{
    items_text(b.0, 0)
}

/// The items of a block from the `i`-th on.
pub open spec fn items_text(items: Seq<SpecBlockItem>, i: int) -> Option<Seq<char>>
    decreases items, items.len() - i,
{
    if 0 <= i < items.len() {
        cat(item_piece(items, i), items_text(items, i + 1))
    } else {
        Some(Seq::empty())
    }
}

/// The `i`-th item of a block, as the block writes it.
pub open spec fn item_piece(items: Seq<SpecBlockItem>, i: int) -> Option<Seq<char>>
    decreases items, 0int,
{
    if 0 <= i < items.len() {
        let sep = if i != items.len() - 1 || items[i].sep != Separator::Sequential {
            separator_text(items[i].sep)
        } else {
            Seq::empty()
        };
        cat(
            cat(
                Some(
                    if i > 0 {
                        "\n"@
                    } else {
                        Seq::empty()
                    },
                ),
                pipeline_seq_text(items[i].seq),
            ),
            Some(sep),
        )
    } else {
        Some(Seq::empty())
    }
}

/// What the block writes before its `i`-th item: a line feed, save before
/// the first.
pub open spec fn item_lead(i: int) -> Seq<char> {
    if i > 0 {
        "\n"@
    } else {
        Seq::empty()
    }
}

/// What the block writes after its `i`-th item: the separator, save a `;`
/// after the last item.
pub open spec fn item_tail(items: Seq<SpecBlockItem>, i: int) -> Seq<char> {
    if i != items.len() - 1 || items[i].sep != Separator::Sequential {
        separator_text(items[i].sep)
    } else {
        Seq::empty()
    }
}

/// One item of a block written after the text `s` of the items before it.
pub proof fn lemma_items_step(items: Seq<SpecBlockItem>, i: int, s: Seq<char>, t: Seq<char>)
    requires
        0 <= i < items.len(),
        items_text(items, 0) is Some,
        items_text(items, 0) == cat(Some(s), items_text(items, i)),
    ensures
        pipeline_seq_text(items[i].seq) is Some,
        Some(t) == pipeline_seq_text(items[i].seq) ==> items_text(items, 0) == cat(
            Some(s + item_lead(i) + t + item_tail(items, i)),
            items_text(items, i + 1),
        ),
{
    lemma_cat_assoc(Some(s), item_piece(items, i), items_text(items, i + 1));
    if Some(t) == pipeline_seq_text(items[i].seq) {
        assert(s + (item_lead(i) + t + item_tail(items, i)) =~= s + item_lead(i) + t + item_tail(
            items,
            i,
        ));
    }
}

/// What a pipeline writes before its `i`-th command: ` | `, save before the
/// first.
pub open spec fn command_lead(i: int) -> Seq<char> {
    if i > 0 {
        " | "@
    } else {
        Seq::empty()
    }
}

/// One command of a pipeline written after the text `s` of those before it.
#[verifier::rlimit(40)]
pub proof fn lemma_commands_step(p: SpecPipeline, i: int, s: Seq<char>, t: Seq<char>)
    requires
        0 <= i < p.seq.len(),
        pipeline_text(p) is Some,
        pipeline_text(p) == cat(Some(s), commands_text(p.seq, i)),
    ensures
        command_text(p.seq[i]) is Some,
        Some(t) == command_text(p.seq[i]) ==> pipeline_text(p) == cat(
            Some(s + command_lead(i) + t),
            commands_text(p.seq, i + 1),
        ),
{
    let piece = cat(Some(command_lead(i)), command_text(p.seq[i]));
    lemma_cat_assoc(Some(s), piece, commands_text(p.seq, i + 1));
    if Some(t) == command_text(p.seq[i]) {
        assert(s + (command_lead(i) + t) =~= s + command_lead(i) + t);
    }
}

/// A block item on its own: the sequence and its separator.
pub open spec fn block_item_text(it: SpecBlockItem) -> Option<Seq<char>>
    decreases it, 0int,
{
    cat(pipeline_seq_text(it.seq), Some(separator_text(it.sep)))
}

/// The first pipeline, then each step.
pub open spec fn pipeline_seq_text(p: SpecPipelineSeq) -> Option<Seq<char>>
    decreases p, 0int,
{
    cat(pipeline_text(p.head), steps_text(p.rest, 0))
}

/// The steps from the `i`-th on.
pub open spec fn steps_text(steps: Seq<SpecSeqStep>, i: int) -> Option<Seq<char>>
    decreases steps, steps.len() - i,
{
    if 0 <= i < steps.len() {
        cat(step_text(steps[i]), steps_text(steps, i + 1))
    } else {
        Some(Seq::empty())
    }
}

/// ` && ` or ` || `, then the pipeline.
pub open spec fn step_text(s: SpecSeqStep) -> Option<Seq<char>>
    decreases s, 0int,
{
    match s {
        SpecSeqStep::And(p) => cat(Some(" && "@), pipeline_text(p)),
        SpecSeqStep::Or(p) => cat(Some(" || "@), pipeline_text(p)),
    }
}

/// `!` when the pipeline is negated, then its commands separated by ` | `.
pub open spec fn pipeline_text(p: SpecPipeline) -> Option<Seq<char>>
    decreases p, 0int,
{
    cat(
        Some(
            if p.bang {
                "!"@
            } else {
                Seq::empty()
            },
        ),
        commands_text(p.seq, 0),
    )
}

/// The commands from the `i`-th on, each after the first preceded by ` | `.
pub open spec fn commands_text(cs: Seq<SpecCommand>, i: int) -> Option<Seq<char>>
    decreases cs, cs.len() - i,
{
    if 0 <= i < cs.len() {
        cat(
            cat(
                Some(
                    if i > 0 {
                        " | "@
                    } else {
                        Seq::empty()
                    },
                ),
                command_text(cs[i]),
            ),
            commands_text(cs, i + 1),
        )
    } else {
        Some(Seq::empty())
    }
}

/// The complete commands of a program, one after the other.
pub open spec fn program_text(p: SpecProgram) -> Option<Seq<char>> {
    blocks_text(p.cmds, 0)
}

/// The blocks from the `i`-th on, one after the other.
pub open spec fn blocks_text(bs: Seq<SpecCompoundBlock>, i: int) -> Option<Seq<char>>
    decreases bs.len() - i,
{
    if 0 <= i < bs.len() {
        cat(block_text(bs[i]), blocks_text(bs, i + 1))
    } else {
        Some(Seq::empty())
    }
}

} // verus!
